//! The data model: run configuration, context bundles and their snapshot
//! records, the typed event stream, run modes and outcomes.

use vstd::prelude::*;
use crate::text::str_eq;

verus! {

/// Configuration of a council run: the repository root, the prompt
/// version, and the model identifier for each role.
#[derive(Debug, Clone)]
pub struct CouncilConfig {
    pub repo_root: String,
    pub prompt_version: String,
    pub chair_model: String,
    pub critic_gpt_model: String,
    pub critic_gemini_model: String,
    pub implementer_model: String,
}

/// A file captured for the context bundle.
#[derive(Debug, Clone)]
pub struct FileSnapshot {
    pub path: String,
    pub content: String,
    pub is_truncated: bool,
}

/// A line-level excerpt of a file, with 1-based line numbers.
#[derive(Debug, Clone)]
pub struct Snippet {
    pub line_start: usize,
    pub line_end: usize,
    pub content: String,
}

/// Record of content left out of a bundle, and why.
#[derive(Debug, Clone)]
pub struct TruncationInfo {
    pub omitted_files: Vec<String>,
    pub reason: String,
}

/// The code context handed to every agent: the targets, files reachable
/// by one import hop, reverse-dependency snippets keyed by file path, and
/// discovered test files.
#[derive(Debug, Clone)]
pub struct ContextBundle {
    pub target_files: Vec<FileSnapshot>,
    pub related_files: Vec<FileSnapshot>,
    pub reverse_deps: Vec<(String, Vec<Snippet>)>,
    pub test_files: Vec<FileSnapshot>,
    pub truncation_info: TruncationInfo,
}

impl ContextBundle {
    /// No related file repeats a target path or another related path, and
    /// reverse-dependency keys are unique.
    pub open spec fn wf(&self) -> bool {
        &&& forall|i: int, j: int|
            0 <= i < self.related_files@.len() && 0 <= j < self.target_files@.len() ==> (
            #[trigger] self.related_files@[i]).path@ != (#[trigger] self.target_files@[j]).path@
        &&& forall|i: int, j: int|
            0 <= i < j < self.related_files@.len() ==> (#[trigger] self.related_files@[i]).path@
                != (#[trigger] self.related_files@[j]).path@
        &&& forall|i: int, j: int|
            0 <= i < j < self.reverse_deps@.len() ==> (#[trigger] self.reverse_deps@[i]).0@ != (
            #[trigger] self.reverse_deps@[j]).0@
    }

    /// An empty bundle.
    pub fn new() -> (r: ContextBundle)
        ensures
            r.wf(),
            r.target_files@.len() == 0,
            r.related_files@.len() == 0,
            r.reverse_deps@.len() == 0,
            r.test_files@.len() == 0,
            r.truncation_info.omitted_files@.len() == 0,
            r.truncation_info.reason@.len() == 0,
    {
        ContextBundle {
            target_files: Vec::new(),
            related_files: Vec::new(),
            reverse_deps: Vec::new(),
            test_files: Vec::new(),
            truncation_info: TruncationInfo { omitted_files: Vec::new(), reason: String::new() },
        }
    }

    /// Records a target snapshot. Targets are gathered before any related
    /// file, so the bundle still has no related files here.
    pub fn push_target(&mut self, snap: FileSnapshot)
        requires
            old(self).wf(),
            old(self).related_files@.len() == 0,
        ensures
            final(self).wf(),
            final(self).target_files@ == old(self).target_files@.push(snap),
            final(self).related_files@ == old(self).related_files@,
            final(self).reverse_deps@ == old(self).reverse_deps@,
            final(self).test_files@ == old(self).test_files@,
            final(self).truncation_info == old(self).truncation_info,
    {
        self.target_files.push(snap);
    }

    /// Records a related file unless its path repeats a target path or a
    /// related path already present; returns whether it was added.
    pub fn push_related_if_new(&mut self, snap: FileSnapshot) -> (added: bool)
        requires
            old(self).wf(),
        ensures
            final(self).wf(),
            added <==> (forall|j: int|
                0 <= j < old(self).target_files@.len() ==> (
                #[trigger] old(self).target_files@[j]).path@ != snap.path@) && (forall|i: int|
                0 <= i < old(self).related_files@.len() ==> (
                #[trigger] old(self).related_files@[i]).path@ != snap.path@),
            added ==> final(self).related_files@ == old(self).related_files@.push(snap),
            !added ==> final(self).related_files@ == old(self).related_files@,
            final(self).target_files@ == old(self).target_files@,
            final(self).reverse_deps@ == old(self).reverse_deps@,
            final(self).test_files@ == old(self).test_files@,
            final(self).truncation_info == old(self).truncation_info,
    {
        let mut i: usize = 0;
        while i < self.target_files.len()
            invariant
                0 <= i <= self.target_files@.len(),
                *self == *old(self),
                old(self).wf(),
                forall|j: int|
                    0 <= j < i ==> (#[trigger] self.target_files@[j]).path@ != snap.path@,
            decreases self.target_files@.len() - i,
        {
            if str_eq(self.target_files[i].path.as_str(), snap.path.as_str()) {
                return false;
            }
            i += 1;
        }
        let mut k: usize = 0;
        while k < self.related_files.len()
            invariant
                0 <= k <= self.related_files@.len(),
                *self == *old(self),
                old(self).wf(),
                forall|j: int|
                    0 <= j < k ==> (#[trigger] self.related_files@[j]).path@ != snap.path@,
            decreases self.related_files@.len() - k,
        {
            if str_eq(self.related_files[k].path.as_str(), snap.path.as_str()) {
                return false;
            }
            k += 1;
        }
        self.related_files.push(snap);
        true
    }

    /// Records reverse-dependency snippets for a file not yet present.
    pub fn push_reverse_dep_if_new(&mut self, path: String, snippets: Vec<Snippet>) -> (added:
        bool)
        requires
            old(self).wf(),
        ensures
            final(self).wf(),
            added ==> final(self).reverse_deps@ == old(self).reverse_deps@.push((path, snippets)),
            !added ==> final(self).reverse_deps@ == old(self).reverse_deps@,
            final(self).target_files@ == old(self).target_files@,
            final(self).related_files@ == old(self).related_files@,
            final(self).test_files@ == old(self).test_files@,
            final(self).truncation_info == old(self).truncation_info,
    {
        let mut i: usize = 0;
        while i < self.reverse_deps.len()
            invariant
                0 <= i <= self.reverse_deps@.len(),
                *self == *old(self),
                old(self).wf(),
                forall|j: int| 0 <= j < i ==> (#[trigger] self.reverse_deps@[j]).0@ != path@,
            decreases self.reverse_deps@.len() - i,
        {
            if str_eq(self.reverse_deps[i].0.as_str(), path.as_str()) {
                return false;
            }
            i += 1;
        }
        self.reverse_deps.push((path, snippets));
        true
    }

    /// Records a discovered test file.
    pub fn push_test_file(&mut self, snap: FileSnapshot)
        requires
            old(self).wf(),
        ensures
            final(self).wf(),
            final(self).test_files@ == old(self).test_files@.push(snap),
            final(self).target_files@ == old(self).target_files@,
            final(self).related_files@ == old(self).related_files@,
            final(self).reverse_deps@ == old(self).reverse_deps@,
            final(self).truncation_info == old(self).truncation_info,
    {
        self.test_files.push(snap);
    }
}

/// The two top-level run modes.
#[derive(Debug, Clone, Copy, PartialEq, Eq, Structural)]
pub enum CouncilMode {
    Review,
    Fix,
}

/// How a run ended.
#[derive(Debug, Clone, Copy, PartialEq, Eq, Structural)]
pub enum JobOutcome {
    Success,
    Failure,
    Cancelled,
}

/// A progress event of a run. Exactly one `JobStarted` opens a started
/// run's stream and exactly one `JobFinished` ends it.
#[derive(Debug, Clone)]
pub enum CouncilEvent {
    JobStarted { job_id: String, mode: CouncilMode, target: String, head_sha: String, repo_dirty: bool },
    PhaseStarted { phase: String, step_current: usize, step_total: usize, detail: String },
    PhaseNote { phase: String, message: String },
    ArtifactWritten { kind: String, path: String },
    CommandStarted { cmd_display: String },
    CommandFinished { cmd_display: String, status: String, duration_ms: u64, truncated: bool },
    Warning { message: String },
    Error { phase: String, message: String },
    JobFinished { outcome: JobOutcome, summary_line: String },
}

} // verus!
