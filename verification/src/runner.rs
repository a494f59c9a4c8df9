//! The run state machine: target validation, plan resolution, patch
//! extraction and gating, outcome comparison, and the event stream and
//! artifact list of a whole run, computed from the results of each
//! phase's outside work. The process, network and filesystem work of a
//! run happens outside the library and hands its results in as plain
//! values.

use vstd::prelude::*;
use crate::artifact::bundle_json;
use crate::artifact::job_metadata_json;
use crate::artifact::spec_job_metadata_json;
use crate::artifact::mode_name;
use crate::artifact::spec_verify_results_json;
use crate::artifact::verify_results_json;
use crate::parsing::is_ascii_alpha;
use crate::parsing::looks_like_apply_patch;
use crate::parsing::spec_extract_error;
use crate::parsing::spec_extract_patch;
use crate::parsing::spec_extract_plan;
use crate::parsing::spec_looks_like_apply_patch;
use crate::parsing::extract_error;
use crate::parsing::extract_patch;
use crate::parsing::extract_plan;
use crate::parsing::patch_paths_ok;
use crate::parsing::validate_patch_paths;
use crate::text::dec_of;
use crate::text::find_from;
use crate::text::find_sub_at;
use crate::text::lemma_find_from;
use crate::text::replace_from;
use crate::text::replace_all;
use crate::text::starts_with;
use crate::text::starts_with_str;
use crate::text::str_eq;
use crate::text::u64_to_dec;
use crate::types::ContextBundle;
use crate::types::CouncilEvent;
use crate::types::CouncilMode;
use crate::types::JobOutcome;
use crate::verify::VerifyResult;
use crate::verify::count_failures;
use crate::verify::spec_failure_count;

verus! {

/// Why a target path was rejected.
#[derive(Debug, Clone, PartialEq, Eq, Structural)]
pub enum TargetError {
    OutsideRoot,
    Empty,
    UnsafeComponents,
}

/// `p`, split on `/`, has a `..` segment.
pub open spec fn has_dotdot_component(p: Seq<char>) -> bool {
    exists|i: int|
        0 <= i && i + 2 <= p.len() && #[trigger] p[i] == '.' && p[i + 1] == '.' && (i == 0 || p[i
            - 1] == '/') && (i + 2 == p.len() || p[i + 2] == '/')
}

fn has_dotdot_component_exec(p: &str) -> (r: bool)
    ensures
        r == has_dotdot_component(p@),
{
    let n = p.unicode_len();
    let mut i: usize = 0;
    while 2 <= n - i && i < n
        invariant
            0 <= i,
            i <= n,
            n == p@.len(),
            forall|j: int|
                0 <= j < i ==> !(j + 2 <= p@.len() && #[trigger] p@[j] == '.' && p@[j + 1] == '.'
                    && (j == 0 || p@[j - 1] == '/') && (j + 2 == p@.len() || p@[j + 2] == '/')),
        decreases n - i,
    {
        let dot0 = p.get_char(i) == '.';
        let dot1 = if dot0 {
            p.get_char(i + 1) == '.'
        } else {
            false
        };
        if dot0 && dot1 {
            let left_ok = if i == 0 {
                true
            } else {
                p.get_char(i - 1) == '/'
            };
            let right_ok = if i + 2 == n {
                true
            } else {
                p.get_char(i + 2) == '/'
            };
            if left_ok && right_ok {
                return true;
            }
        }
        i += 1;
    }
    assert forall|j: int| !(0 <= j && j + 2 <= p@.len() && #[trigger] p@[j] == '.' && p@[j + 1]
        == '.' && (j == 0 || p@[j - 1] == '/') && (j + 2 == p@.len() || p@[j + 2] == '/')) by {
        if 0 <= j && j + 2 <= p@.len() {
            assert(j < i);
        }
    }
    false
}

/// The target made relative to the repository root: an absolute target
/// must lie under the root — the prefix match must end at a component
/// boundary — and loses that prefix with one following separator; a
/// relative target stands as it is.
pub open spec fn spec_rel_target(repo_root: Seq<char>, target: Seq<char>) -> Option<Seq<char>> {
    if starts_with(target, "/"@) {
        if starts_with(target, repo_root) {
            let rest = target.subrange(repo_root.len() as int, target.len() as int);
            if starts_with(rest, "/"@) {
                Some(rest.subrange(1, rest.len() as int))
            } else if rest.len() == 0 || (repo_root.len() > 0 && repo_root[repo_root.len() - 1]
                == '/') {
                Some(rest)
            } else {
                None
            }
        } else {
            None
        }
    } else {
        Some(target)
    }
}

/// A relative target with a leading separator, a drive prefix or a `..`
/// segment is unsafe.
pub open spec fn spec_target_unsafe(rel: Seq<char>) -> bool {
    ||| starts_with(rel, "/"@)
    ||| rel.len() >= 2 && rel[1] == ':' && is_ascii_alpha(rel[0])
    ||| has_dotdot_component(rel)
}

/// The target check made before isolation: the relative target when the
/// path is non-empty, lies under the root and has no unsafe component.
pub open spec fn spec_target_check(repo_root: Seq<char>, target: Seq<char>) -> Result<
    Seq<char>,
    TargetError,
> {
    match spec_rel_target(repo_root, target) {
        None => Err(TargetError::OutsideRoot),
        Some(rel) => if rel.len() == 0 {
            Err(TargetError::Empty)
        } else if spec_target_unsafe(rel) {
            Err(TargetError::UnsafeComponents)
        } else {
            Ok(rel)
        },
    }
}

fn rel_target_of(repo_root: &str, target: &str) -> (r: Option<String>)
    ensures
        match r {
            Some(rel) => spec_rel_target(repo_root@, target@) == Some(rel@),
            None => spec_rel_target(repo_root@, target@) is None,
        },
{
    let n = target.unicode_len();
    if starts_with_str(target, "/") {
        if starts_with_str(target, repo_root) {
            let m = repo_root.unicode_len();
            let rest = target.substring_char(m, n);
            if starts_with_str(rest, "/") {
                proof {
                    reveal_strlit("/");
                }
                Some(String::from_str(rest.substring_char(1, rest.unicode_len())))
            } else if rest.unicode_len() == 0 || (m > 0 && repo_root.get_char(m - 1) == '/') {
                Some(String::from_str(rest))
            } else {
                None
            }
        } else {
            None
        }
    } else {
        Some(String::from_str(target))
    }
}

/// Checks the target path and makes it relative to the repository root.
pub fn validate_target(repo_root: &str, target: &str) -> (r: Result<String, TargetError>)
    ensures
        match r {
            Ok(rel) => spec_target_check(repo_root@, target@) == Ok::<Seq<char>, TargetError>(rel@),
            Err(e) => spec_target_check(repo_root@, target@) == Err::<Seq<char>, TargetError>(e),
        },
{
    let rel = match rel_target_of(repo_root, target) {
        None => {
            return Err(TargetError::OutsideRoot);
        },
        Some(rel) => rel,
    };
    if rel.as_str().unicode_len() == 0 {
        return Err(TargetError::Empty);
    }
    let r = rel.as_str();
    let abs = starts_with_str(r, "/");
    let n = r.unicode_len();
    let drive = if n >= 2 {
        let c0 = r.get_char(0);
        let c1 = r.get_char(1);
        c1 == ':' && ((0x41 <= c0 as u32 && c0 as u32 <= 0x5A) || (0x61 <= c0 as u32 && c0 as u32
            <= 0x7A))
    } else {
        false
    };
    if abs || drive || has_dotdot_component_exec(r) {
        return Err(TargetError::UnsafeComponents);
    }
    Ok(rel)
}

/// The second fence-delimited segment of `t`: the text between the first
/// two ``` fences, to the end when only one fence occurs, the whole text
/// when none does.
pub open spec fn spec_fence_segment(t: Seq<char>) -> Seq<char> {
    match find_from(t, "```"@, 0) {
        None => t,
        Some(f) => {
            let s = f + ("```"@).len();
            match find_from(t, "```"@, s) {
                None => t.subrange(s, t.len() as int),
                Some(g) => t.subrange(s, g),
            }
        },
    }
}

/// The patch text taken from an implementer response: the `<patch>`
/// block when one exists, else the fenced segment fallback.
pub open spec fn spec_patch_candidate(t: Seq<char>) -> Seq<char> {
    match spec_extract_patch(t) {
        Some(p) => p,
        None => spec_fence_segment(t),
    }
}

/// Extracts the patch candidate from an implementer response.
pub fn extract_patch_candidate(code_change: &str) -> (r: String)
    ensures
        r@ == spec_patch_candidate(code_change@),
{
    match extract_patch(code_change) {
        Some(p) => p,
        None => {
            proof {
                lemma_find_from(code_change@, "```"@, 0);
                reveal_strlit("```");
            }
            let n = code_change.unicode_len();
            match find_sub_at(code_change, "```", 0) {
                None => String::from_str(code_change),
                Some(f) => {
                    proof {
                        lemma_find_from(code_change@, "```"@, f + 3);
                    }
                    match find_sub_at(code_change, "```", f + 3) {
                        None => String::from_str(code_change.substring_char(f + 3, n)),
                        Some(g) => String::from_str(code_change.substring_char(f + 3, g)),
                    }
                },
            }
        },
    }
}

/// The plan taken from the chair's response: under the `v2` prompt
/// version, the `<plan>` block when one exists, else a refusal carrying
/// the `<error>` block when one exists, else the raw response; under any
/// other version, the raw response.
pub open spec fn spec_resolve_plan(version: Seq<char>, raw: Seq<char>) -> Result<
    Seq<char>,
    Seq<char>,
> {
    if version == "v2"@ {
        match spec_extract_plan(raw) {
            Some(p) => Ok(p),
            None => match spec_extract_error(raw) {
                Some(e) => Err(e),
                None => Ok(raw),
            },
        }
    } else {
        Ok(raw)
    }
}

/// Resolves the chair's raw response to a plan, or to its refusal.
pub fn resolve_plan(version: &str, raw: &str) -> (r: Result<String, String>)
    ensures
        match r {
            Ok(p) => spec_resolve_plan(version@, raw@) == Ok::<Seq<char>, Seq<char>>(p@),
            Err(e) => spec_resolve_plan(version@, raw@) == Err::<Seq<char>, Seq<char>>(e@),
        },
{
    if str_eq(version, "v2") {
        match extract_plan(raw) {
            Some(p) => Ok(p),
            None => match extract_error(raw) {
                Some(e) => Err(e),
                None => Ok(String::from_str(raw)),
            },
        }
    } else {
        Ok(String::from_str(raw))
    }
}

/// The outcome of a completed fix run: success unless the final run
/// fails more commands than the baseline did.
pub open spec fn spec_outcome(baseline_failures: int, final_failures: int) -> JobOutcome {
    if final_failures > baseline_failures {
        JobOutcome::Failure
    } else {
        JobOutcome::Success
    }
}

/// The closing summary of a fix run.
pub open spec fn spec_fix_summary(baseline_failures: int, final_failures: int) -> Seq<char> {
    "Base failures: "@ + dec_of(baseline_failures) + ", Final failures: "@ + dec_of(final_failures)
}

/// Computes the outcome and summary of a completed fix run.
pub fn compute_outcome(baseline_failures: usize, final_failures: usize) -> (r: (JobOutcome, String))
    ensures
        r.0 == spec_outcome(baseline_failures as int, final_failures as int),
        r.1@ == spec_fix_summary(baseline_failures as int, final_failures as int),
{
    let outcome = if final_failures > baseline_failures {
        JobOutcome::Failure
    } else {
        JobOutcome::Success
    };
    let mut summary = String::from_str("Base failures: ");
    let b = u64_to_dec(baseline_failures as u64);
    summary.append(b.as_str());
    summary.append(", Final failures: ");
    let f = u64_to_dec(final_failures as u64);
    summary.append(f.as_str());
    proof {
        assert(summary@ =~= spec_fix_summary(baseline_failures as int, final_failures as int));
    }
    (outcome, summary)
}

/// The critiques joined under role headers, for the chair's prompt.
pub open spec fn spec_join_critiques(gpt: Option<Seq<char>>, gemini: Option<Seq<char>>) -> Seq<
    char,
> {
    let parts: Seq<Seq<char>> = match (gpt, gemini) {
        (Some(g), Some(m)) => seq!["### GPT Critique\n\n"@ + g, "### Gemini Critique\n\n"@ + m],
        (Some(g), None) => seq!["### GPT Critique\n\n"@ + g],
        (None, Some(m)) => seq!["### Gemini Critique\n\n"@ + m],
        (None, None) => seq![],
    };
    crate::text::join_with(parts, "\n\n"@)
}

/// Joins the critiques under their role headers.
pub fn join_critiques(gpt: Option<&String>, gemini: Option<&String>) -> (r: String)
    ensures
        r@ == spec_join_critiques(
            match gpt {
                Some(g) => Some(g@),
                None => None,
            },
            match gemini {
                Some(m) => Some(m@),
                None => None,
            },
        ),
{
    let mut parts: Vec<String> = Vec::new();
    match gpt {
        Some(g) => {
            let mut s = String::from_str("### GPT Critique\n\n");
            s.append(g.as_str());
            parts.push(s);
        },
        None => {},
    }
    match gemini {
        Some(m) => {
            let mut s = String::from_str("### Gemini Critique\n\n");
            s.append(m.as_str());
            parts.push(s);
        },
        None => {},
    }
    let r = crate::text::join_strings(&parts, "\n\n");
    proof {
        assert(parts@.map_values(|p: String| p@) =~= (match (gpt, gemini) {
            (Some(g), Some(m)) => seq![
                "### GPT Critique\n\n"@ + g@,
                "### Gemini Critique\n\n"@ + m@,
            ],
            (Some(g), None) => seq!["### GPT Critique\n\n"@ + g@],
            (None, Some(m)) => seq!["### Gemini Critique\n\n"@ + m@],
            (None, None) => Seq::empty(),
        }));
    }
    r
}

/// The prompt context handed verbatim to every agent of a run: the
/// target header, the bundle text with the worktree path stripped, and
/// the baseline results.
pub open spec fn spec_prompt_context(
    rel_target: Seq<char>,
    bundle_text: Seq<char>,
    working_root: Seq<char>,
    baseline_text: Seq<char>,
) -> Seq<char> {
    let shown = if working_root.len() > 0 {
        replace_from(bundle_text, working_root, Seq::empty(), 0)
    } else {
        bundle_text
    };
    "Target: \""@ + rel_target + "\"\n\nContext Bundle:\n"@ + shown
        + "\n\nBaseline Verification Results:\n"@ + baseline_text
}

/// Builds the prompt context, stripping the absolute worktree path from
/// the bundle text so no temporary directory name leaks to an agent.
pub fn build_prompt_context(
    rel_target: &str,
    bundle_text: &str,
    working_root: &str,
    baseline_text: &str,
) -> (r: String)
    ensures
        r@ == spec_prompt_context(rel_target@, bundle_text@, working_root@, baseline_text@),
{
    let mut out = String::from_str("Target: \"");
    out.append(rel_target);
    out.append("\"\n\nContext Bundle:\n");
    if working_root.unicode_len() > 0 {
        let shown = replace_all(bundle_text, working_root, "");
        proof {
            reveal_strlit("");
            assert(""@ =~= Seq::<char>::empty());
        }
        assert(shown@ =~= replace_from(bundle_text@, working_root@, Seq::empty(), 0));
        out.append(shown.as_str());
    } else {
        out.append(bundle_text);
    }
    out.append("\n\nBaseline Verification Results:\n");
    out.append(baseline_text);
    proof {
        assert(out@ =~= spec_prompt_context(
            rel_target@,
            bundle_text@,
            working_root@,
            baseline_text@,
        ));
    }
    out
}

/// Where the cooperative cancellation token fires, if at all: before
/// anything runs, or at the suspension point after a phase.
#[derive(Debug, Clone, Copy, PartialEq, Eq, Structural)]
pub enum CancelPoint {
    NotCancelled,
    BeforeStart,
    AfterIsolation,
    AfterContext,
    AfterBaseline,
    AfterCriticism,
    AfterPlanning,
    AfterImplementation,
}

/// The results each phase's outside work hands back to the state
/// machine: the run identity, the worktree creation result, whether the
/// target exists at the committed revision, the built bundle, the
/// verification results, and each agent's response or failure.
pub struct RunInputs {
    pub run_id: String,
    pub job_dir: String,
    pub mode: CouncilMode,
    pub prompt_version: String,
    pub repo_root: String,
    pub target: String,
    pub head_sha: String,
    pub repo_dirty: bool,
    pub timestamp: u64,
    pub cancel: CancelPoint,
    pub worktree: Result<String, String>,
    pub target_in_head: bool,
    pub bundle: Result<ContextBundle, String>,
    pub baseline: Vec<VerifyResult>,
    pub critic_gpt: Option<String>,
    pub critic_gemini: Option<String>,
    pub chair: Result<String, String>,
    pub implementer: Result<String, String>,
    pub apply_ok: bool,
    pub apply_error: String,
    pub apply_stdout: String,
    pub apply_stderr: String,
    pub final_results: Vec<VerifyResult>,
}

/// What a run leaves behind: the ordered event stream, the artifact files
/// by name and content, and whether a worktree was requested.
pub struct RunTrace {
    pub events: Vec<CouncilEvent>,
    pub artifacts: Vec<(String, String)>,
    pub worktree_requested: bool,
}

/// The event ends a run with the given outcome and summary line.
pub open spec fn finished_with(e: CouncilEvent, outcome: JobOutcome, summary: Seq<char>) -> bool {
    &&& e matches CouncilEvent::JobFinished { outcome: o, summary_line: s } && o == outcome && s@
        == summary
}

/// The event reports an error in the given phase.
pub open spec fn error_in_phase(e: CouncilEvent, phase: Seq<char>) -> bool {
    &&& e matches CouncilEvent::Error { phase: p, message: m } && p@ == phase
}

/// The event reports an error in the given phase with this message.
pub open spec fn error_event(e: CouncilEvent, phase: Seq<char>, msg: Seq<char>) -> bool {
    &&& e matches CouncilEvent::Error { phase: p, message: m } && p@ == phase && m@ == msg
}

/// The event starts the named phase.
pub open spec fn phase_started(e: CouncilEvent, name: Seq<char>) -> bool {
    &&& e matches CouncilEvent::PhaseStarted { phase, .. } && phase@ == name
}

/// The event is a note of the named phase with this message.
pub open spec fn phase_note(e: CouncilEvent, name: Seq<char>, msg: Seq<char>) -> bool {
    &&& e matches CouncilEvent::PhaseNote { phase, message } && phase@ == name && message@ == msg
}

/// The event is a warning with this message.
pub open spec fn warning_event(e: CouncilEvent, msg: Seq<char>) -> bool {
    &&& e matches CouncilEvent::Warning { message } && message@ == msg
}

/// No artifact of this name was written.
pub open spec fn no_artifact_named(arts: Seq<(String, String)>, name: Seq<char>) -> bool {
    forall|i: int| 0 <= i < arts.len() ==> (#[trigger] arts[i]).0@ != name
}

/// The artifact list holds a file of this name with this content.
pub open spec fn has_artifact(arts: Seq<(String, String)>, name: Seq<char>, content: Seq<char>) -> bool {
    exists|i: int|
        0 <= i < arts.len() && (#[trigger] arts[i]).0@ == name && arts[i].1@ == content
}

/// The run was not cancelled before its start and its target passed the
/// check, so a worktree is requested.
pub open spec fn spec_reaches_isolation(inp: RunInputs) -> bool {
    &&& inp.cancel != CancelPoint::BeforeStart
    &&& spec_target_check(inp.repo_root@, inp.target@) is Ok
}

/// The worktree was created and the run went on to the context phase.
pub open spec fn spec_reaches_context(inp: RunInputs) -> bool {
    &&& spec_reaches_isolation(inp)
    &&& inp.cancel != CancelPoint::AfterIsolation
    &&& inp.worktree is Ok
}

/// The target exists at the committed revision, the bundle was built,
/// and the run went on to the criticism phase.
pub open spec fn spec_reaches_criticism(inp: RunInputs) -> bool {
    &&& spec_reaches_context(inp)
    &&& inp.target_in_head
    &&& inp.bundle is Ok
    &&& inp.cancel != CancelPoint::AfterContext
    &&& inp.cancel != CancelPoint::AfterBaseline
}

/// At least one critique arrived on a fix run, so planning begins.
pub open spec fn spec_reaches_planning(inp: RunInputs) -> bool {
    &&& spec_reaches_criticism(inp)
    &&& inp.mode == CouncilMode::Fix
    &&& (inp.critic_gpt is Some || inp.critic_gemini is Some)
    &&& inp.cancel != CancelPoint::AfterCriticism
}

/// The chair answered and its answer resolved to a plan, so
/// implementation begins.
pub open spec fn spec_reaches_implementation(inp: RunInputs) -> bool {
    &&& spec_reaches_planning(inp)
    &&& inp.chair is Ok
    &&& spec_resolve_plan(inp.prompt_version@, inp.chair->Ok_0@) is Ok
    &&& inp.cancel != CancelPoint::AfterPlanning
}

/// The implementer's patch candidate passes the shape check under the
/// `v2` prompt version and the path-safety check under every version.
pub open spec fn spec_patch_gates_pass(inp: RunInputs) -> bool {
    &&& (inp.prompt_version@ == "v2"@ ==> spec_looks_like_apply_patch(
        spec_patch_candidate(inp.implementer->Ok_0@),
    ))
    &&& patch_paths_ok(spec_patch_candidate(inp.implementer->Ok_0@))
}

/// The implementer answered and its patch passed both gates, so the
/// patch is applied in the worktree.
pub open spec fn spec_reaches_apply(inp: RunInputs) -> bool {
    &&& spec_reaches_implementation(inp)
    &&& inp.implementer is Ok
    &&& spec_patch_gates_pass(inp)
    &&& inp.cancel != CancelPoint::AfterImplementation
}

/// A fix run that runs every phase to the final comparison: a critique
/// arrived, the chair planned, the implementer's patch passed the gates,
/// and the patch applied.
pub open spec fn spec_fix_completes(inp: RunInputs) -> bool {
    &&& spec_reaches_apply(inp)
    &&& inp.apply_ok
}

proof fn lemma_artifact_names_distinct()
    ensures
        "job_metadata.json"@ != "plan_raw.md"@,
        "job_metadata.json"@ != "plan.md"@,
        "job_metadata.json"@ != "implementation.patch"@,
        "job_metadata.json"@ != "verify_final.json"@,
        "context_bundle.json"@ != "plan_raw.md"@,
        "context_bundle.json"@ != "plan.md"@,
        "context_bundle.json"@ != "implementation.patch"@,
        "context_bundle.json"@ != "verify_final.json"@,
        "verify_baseline.json"@ != "plan_raw.md"@,
        "verify_baseline.json"@ != "plan.md"@,
        "verify_baseline.json"@ != "implementation.patch"@,
        "verify_baseline.json"@ != "verify_final.json"@,
        "critique_gpt.md"@ != "plan_raw.md"@,
        "critique_gpt.md"@ != "plan.md"@,
        "critique_gpt.md"@ != "implementation.patch"@,
        "critique_gpt.md"@ != "verify_final.json"@,
        "critique_gemini.md"@ != "plan_raw.md"@,
        "critique_gemini.md"@ != "plan.md"@,
        "critique_gemini.md"@ != "implementation.patch"@,
        "critique_gemini.md"@ != "verify_final.json"@,
        "plan_raw.md"@ != "plan.md"@,
        "plan_raw.md"@ != "implementation.patch"@,
        "plan_raw.md"@ != "verify_final.json"@,
        "plan.md"@ != "implementation.patch"@,
        "plan.md"@ != "verify_final.json"@,
        "implementation.patch"@ != "verify_final.json"@,
        "apply_stdout.txt"@ != "verify_final.json"@,
        "apply_stderr.txt"@ != "verify_final.json"@,
{
    reveal_strlit("job_metadata.json");
    reveal_strlit("context_bundle.json");
    reveal_strlit("verify_baseline.json");
    reveal_strlit("plan_raw.md");
    reveal_strlit("plan.md");
    reveal_strlit("implementation.patch");
    reveal_strlit("verify_final.json");
    reveal_strlit("critique_gpt.md");
    reveal_strlit("critique_gemini.md");
    reveal_strlit("apply_stdout.txt");
    reveal_strlit("apply_stderr.txt");
    assert(("critique_gpt.md"@).len() == 15);
    assert(("critique_gemini.md"@).len() == 18);
    assert(("apply_stdout.txt"@).len() == 16);
    assert(("apply_stderr.txt"@).len() == 16);
    assert(("job_metadata.json"@).len() == 17);
    assert(("context_bundle.json"@).len() == 19);
    assert(("verify_baseline.json"@).len() == 20);
    assert(("plan_raw.md"@).len() == 11);
    assert(("plan.md"@).len() == 7);
    assert(("implementation.patch"@).len() == 20);
    assert(("verify_final.json"@).len() == 17);
    assert(("job_metadata.json"@)[0] == 'j');
    assert(("verify_final.json"@)[0] == 'v');
    assert(("verify_baseline.json"@)[0] == 'v');
    assert(("implementation.patch"@)[0] == 'i');
}

/// Turns the results of a run's outside work into the full event stream
/// and artifact list: exactly one `JobStarted` opens a started run's
/// stream, exactly one `JobFinished` ends every stream, target checks
/// fail before any worktree is requested, a run with no critique fails
/// before any planning artifact, and a completed fix run is judged by
/// comparing baseline and final failure counts.
#[verifier::rlimit(100)]
#[verifier::spinoff_prover]
pub fn run_events(inputs: &RunInputs) -> (r: RunTrace)
    ensures
        r.events@.len() >= 1,
        r.events@.last() is JobFinished,
        forall|i: int| 0 <= i < r.events@.len() - 1 ==> !((#[trigger] r.events@[i]) is JobFinished),
        forall|i: int| 1 <= i < r.events@.len() ==> !((#[trigger] r.events@[i]) is JobStarted),
        inputs.cancel == CancelPoint::BeforeStart ==> r.events@.len() == 1 && r.artifacts@.len()
            == 0 && finished_with(
            r.events@.last(),
            JobOutcome::Cancelled,
            "Job cancelled by user."@,
        ),
        inputs.cancel != CancelPoint::BeforeStart ==> (r.events@[0] matches CouncilEvent::JobStarted {
            job_id,
            mode,
            target,
            head_sha,
            repo_dirty,
        } && job_id@ == inputs.run_id@ && mode == inputs.mode && target@ == inputs.target@
            && head_sha@ == inputs.head_sha@ && repo_dirty == inputs.repo_dirty),
        r.worktree_requested == spec_reaches_isolation(*inputs),
        inputs.cancel != CancelPoint::BeforeStart && spec_target_check(
            inputs.repo_root@,
            inputs.target@,
        ) == Err::<Seq<char>, TargetError>(TargetError::Empty) ==> (exists|i: int|
            0 <= i < r.events@.len() && error_in_phase(#[trigger] r.events@[i], "Context"@))
            && finished_with(r.events@.last(), JobOutcome::Failure, "Invalid target path"@),
        inputs.cancel != CancelPoint::BeforeStart && spec_target_check(
            inputs.repo_root@,
            inputs.target@,
        ) == Err::<Seq<char>, TargetError>(TargetError::UnsafeComponents) ==> (exists|i: int|
            0 <= i < r.events@.len() && error_in_phase(#[trigger] r.events@[i], "Context"@))
            && finished_with(r.events@.last(), JobOutcome::Failure, "Invalid target path"@),
        inputs.cancel != CancelPoint::BeforeStart && spec_target_check(
            inputs.repo_root@,
            inputs.target@,
        ) == Err::<Seq<char>, TargetError>(TargetError::OutsideRoot) ==> (exists|i: int|
            0 <= i < r.events@.len() && error_in_phase(#[trigger] r.events@[i], "Context"@))
            && finished_with(r.events@.last(), JobOutcome::Failure, "Target outside repo root"@),
        spec_reaches_context(*inputs) && !inputs.target_in_head ==> (exists|i: int|
            0 <= i < r.events@.len() && error_in_phase(#[trigger] r.events@[i], "Context"@))
            && finished_with(r.events@.last(), JobOutcome::Failure, "Target not found in HEAD"@)
            && r.worktree_requested,
        spec_reaches_criticism(*inputs) && inputs.critic_gpt is None && inputs.critic_gemini
            is None ==> finished_with(r.events@.last(), JobOutcome::Failure, "Critics failed"@) && (
        forall|i: int|
            0 <= i < r.artifacts@.len() ==> (#[trigger] r.artifacts@[i]).0@ != "plan_raw.md"@
                && r.artifacts@[i].0@ != "plan.md"@ && r.artifacts@[i].0@
                != "implementation.patch"@ && r.artifacts@[i].0@ != "verify_final.json"@),
        spec_reaches_criticism(*inputs) && inputs.mode == CouncilMode::Review && (inputs.critic_gpt
            is Some || inputs.critic_gemini is Some) ==> finished_with(
            r.events@.last(),
            JobOutcome::Success,
            "Critique complete."@,
        ) && (inputs.critic_gpt is Some ==> has_artifact(
            r.artifacts@,
            "critique_gpt.md"@,
            inputs.critic_gpt->0@,
        )) && (inputs.critic_gemini is Some ==> has_artifact(
            r.artifacts@,
            "critique_gemini.md"@,
            inputs.critic_gemini->0@,
        )),
        inputs.cancel != CancelPoint::BeforeStart ==> r.artifacts@.len() >= 1
            && r.artifacts@[0].0@ == "job_metadata.json"@ && r.artifacts@[0].1@
            == spec_job_metadata_json(
            inputs.run_id@,
            inputs.mode,
            inputs.target@,
            inputs.head_sha@,
            inputs.repo_dirty,
            inputs.prompt_version@,
            inputs.timestamp as int,
        ),
        spec_reaches_isolation(*inputs) && inputs.worktree is Err ==> (exists|i: int|
            0 <= i < r.events@.len() && error_event(
                #[trigger] r.events@[i],
                "Job Execution"@,
                inputs.worktree->Err_0@,
            )) && finished_with(
            r.events@.last(),
            JobOutcome::Failure,
            "Internal Error: "@ + inputs.worktree->Err_0@,
        ),
        spec_reaches_context(*inputs) && inputs.target_in_head && inputs.bundle is Err ==> (
        exists|i: int|
            0 <= i < r.events@.len() && error_event(
                #[trigger] r.events@[i],
                "Job Execution"@,
                inputs.bundle->Err_0@,
            )) && finished_with(
            r.events@.last(),
            JobOutcome::Failure,
            "Internal Error: "@ + inputs.bundle->Err_0@,
        ),
        spec_reaches_planning(*inputs) && inputs.chair is Err ==> (exists|i: int|
            0 <= i < r.events@.len() && error_event(
                #[trigger] r.events@[i],
                "Job Execution"@,
                inputs.chair->Err_0@,
            )) && finished_with(
            r.events@.last(),
            JobOutcome::Failure,
            "Internal Error: "@ + inputs.chair->Err_0@,
        ),
        spec_reaches_implementation(*inputs) && inputs.implementer is Err ==> (exists|i: int|
            0 <= i < r.events@.len() && error_event(
                #[trigger] r.events@[i],
                "Job Execution"@,
                inputs.implementer->Err_0@,
            )) && finished_with(
            r.events@.last(),
            JobOutcome::Failure,
            "Internal Error: "@ + inputs.implementer->Err_0@,
        ),
        spec_reaches_criticism(*inputs) && inputs.critic_gpt is None && inputs.critic_gemini
            is None ==> exists|i: int|
            0 <= i < r.events@.len() && error_event(
                #[trigger] r.events@[i],
                "Criticism"@,
                "All critics failed to respond."@,
            ),
        spec_reaches_criticism(*inputs) && inputs.critic_gpt is Some ==> exists|i: int|
            0 <= i < r.events@.len() && phase_note(
                #[trigger] r.events@[i],
                "Criticism"@,
                "GPT critique received."@,
            ),
        spec_reaches_criticism(*inputs) && inputs.critic_gemini is Some ==> exists|i: int|
            0 <= i < r.events@.len() && phase_note(
                #[trigger] r.events@[i],
                "Criticism"@,
                "Gemini critique received."@,
            ),
        spec_reaches_criticism(*inputs) && inputs.critic_gpt is None ==> exists|i: int|
            0 <= i < r.events@.len() && warning_event(
                #[trigger] r.events@[i],
                "GPT critic did not respond."@,
            ),
        spec_reaches_criticism(*inputs) && inputs.critic_gemini is None ==> exists|i: int|
            0 <= i < r.events@.len() && warning_event(
                #[trigger] r.events@[i],
                "Gemini critic did not respond."@,
            ),
        spec_reaches_planning(*inputs) && inputs.chair is Ok && spec_resolve_plan(
            inputs.prompt_version@,
            inputs.chair->Ok_0@,
        ) is Err ==> has_artifact(r.artifacts@, "plan_raw.md"@, inputs.chair->Ok_0@) && (exists|
            i: int|
            0 <= i < r.events@.len() && error_event(
                #[trigger] r.events@[i],
                "Planning"@,
                "Chair refused plan: "@ + spec_resolve_plan(
                    inputs.prompt_version@,
                    inputs.chair->Ok_0@,
                )->Err_0,
            )) && finished_with(r.events@.last(), JobOutcome::Failure, "Chair refused plan"@)
            && no_artifact_named(r.artifacts@, "plan.md"@) && no_artifact_named(
            r.artifacts@,
            "implementation.patch"@,
        ) && no_artifact_named(r.artifacts@, "verify_final.json"@),
        spec_reaches_implementation(*inputs) && inputs.implementer is Ok && inputs.prompt_version@
            == "v2"@ && !spec_looks_like_apply_patch(
            spec_patch_candidate(inputs.implementer->Ok_0@),
        ) ==> has_artifact(r.artifacts@, "implementation.patch"@, inputs.implementer->Ok_0@) && (
        exists|i: int|
            0 <= i < r.events@.len() && error_event(
                #[trigger] r.events@[i],
                "Implementation"@,
                "Generated patch failed validation (missing markers)."@,
            )) && finished_with(r.events@.last(), JobOutcome::Failure, "Patch validation failed"@)
            && no_artifact_named(r.artifacts@, "verify_final.json"@),
        spec_reaches_implementation(*inputs) && inputs.implementer is Ok && (inputs.prompt_version@
            == "v2"@ ==> spec_looks_like_apply_patch(
            spec_patch_candidate(inputs.implementer->Ok_0@),
        )) && !patch_paths_ok(spec_patch_candidate(inputs.implementer->Ok_0@)) ==> (exists|i: int|
            0 <= i < r.events@.len() && error_in_phase(#[trigger] r.events@[i], "Implementation"@))
            && finished_with(r.events@.last(), JobOutcome::Failure, "Patch safety check failed"@)
            && no_artifact_named(r.artifacts@, "verify_final.json"@),
        spec_reaches_apply(*inputs) && !inputs.apply_ok ==> has_artifact(
            r.artifacts@,
            "apply_stdout.txt"@,
            inputs.apply_stdout@,
        ) && has_artifact(r.artifacts@, "apply_stderr.txt"@, inputs.apply_stderr@) && (exists|
            i: int|
            0 <= i < r.events@.len() && error_event(
                #[trigger] r.events@[i],
                "Verification"@,
                "Patch application failed: "@ + inputs.apply_error@,
            )) && finished_with(
            r.events@.last(),
            JobOutcome::Failure,
            "Patch application failed"@,
        ) && no_artifact_named(r.artifacts@, "verify_final.json"@),
        spec_reaches_criticism(*inputs) && inputs.mode == CouncilMode::Review && (inputs.critic_gpt
            is Some || inputs.critic_gemini is Some) ==> (exists|i1: int, i2: int, i3: int|
            0 <= i1 < i2 && i2 < i3 < r.events@.len() && phase_started(
                #[trigger] r.events@[i1],
                "Isolation"@,
            ) && phase_started(#[trigger] r.events@[i2], "Context"@) && phase_started(
                #[trigger] r.events@[i3],
                "Criticism"@,
            )) && no_artifact_named(r.artifacts@, "plan_raw.md"@) && no_artifact_named(
            r.artifacts@,
            "plan.md"@,
        ) && no_artifact_named(r.artifacts@, "implementation.patch"@) && no_artifact_named(
            r.artifacts@,
            "verify_final.json"@,
        ),
        spec_fix_completes(*inputs) ==> finished_with(
            r.events@.last(),
            spec_outcome(
                spec_failure_count(inputs.baseline@),
                spec_failure_count(inputs.final_results@),
            ),
            spec_fix_summary(
                spec_failure_count(inputs.baseline@),
                spec_failure_count(inputs.final_results@),
            ),
        ) && has_artifact(
            r.artifacts@,
            "verify_final.json"@,
            spec_verify_results_json(inputs.final_results@),
        ),
{
    let mut ev: Vec<CouncilEvent> = Vec::new();
    let mut arts: Vec<(String, String)> = Vec::new();
    proof {
        lemma_artifact_names_distinct();
    }
    if matches!(inputs.cancel, CancelPoint::BeforeStart) {
        ev.push(
            CouncilEvent::JobFinished {
                outcome: JobOutcome::Cancelled,
                summary_line: String::from_str("Job cancelled by user."),
            },
        );
        return RunTrace { events: ev, artifacts: arts, worktree_requested: false };
    }
    ev.push(
        CouncilEvent::JobStarted {
            job_id: inputs.run_id.clone(),
            mode: inputs.mode,
            target: inputs.target.clone(),
            head_sha: inputs.head_sha.clone(),
            repo_dirty: inputs.repo_dirty,
        },
    );
    let metadata = job_metadata_json(
        inputs.run_id.as_str(),
        inputs.mode,
        inputs.target.as_str(),
        inputs.head_sha.as_str(),
        inputs.repo_dirty,
        inputs.prompt_version.as_str(),
        inputs.timestamp,
    );
    arts.push((String::from_str("job_metadata.json"), metadata));
    proof {
        assert(arts@[0].0@ == "job_metadata.json"@ && arts@[0].1@ == spec_job_metadata_json(
            inputs.run_id@,
            inputs.mode,
            inputs.target@,
            inputs.head_sha@,
            inputs.repo_dirty,
            inputs.prompt_version@,
            inputs.timestamp as int,
        ));
    }
    let rel = match validate_target(inputs.repo_root.as_str(), inputs.target.as_str()) {
        Err(TargetError::OutsideRoot) => {
            let mut msg = String::from_str("Target '");
            msg.append(inputs.target.as_str());
            msg.append("' is outside repo root '");
            msg.append(inputs.repo_root.as_str());
            msg.append("'.");
            ev.push(CouncilEvent::Error { phase: String::from_str("Context"), message: msg });
            ev.push(
                CouncilEvent::JobFinished {
                    outcome: JobOutcome::Failure,
                    summary_line: String::from_str("Target outside repo root"),
                },
            );
            proof {
                assert(error_in_phase(ev@[ev@.len() - 2], "Context"@));
            }
            return RunTrace { events: ev, artifacts: arts, worktree_requested: false };
        },
        Err(TargetError::Empty) => {
            ev.push(
                CouncilEvent::Error {
                    phase: String::from_str("Context"),
                    message: String::from_str("Target path is empty."),
                },
            );
            ev.push(
                CouncilEvent::JobFinished {
                    outcome: JobOutcome::Failure,
                    summary_line: String::from_str("Invalid target path"),
                },
            );
            proof {
                assert(error_in_phase(ev@[ev@.len() - 2], "Context"@));
            }
            return RunTrace { events: ev, artifacts: arts, worktree_requested: false };
        },
        Err(TargetError::UnsafeComponents) => {
            let mut msg = String::from_str("Target path '");
            match rel_target_of(inputs.repo_root.as_str(), inputs.target.as_str()) {
                Some(shown) => {
                    msg.append(shown.as_str());
                },
                None => {},
            }
            msg.append("' contains unsafe components.");
            ev.push(CouncilEvent::Error { phase: String::from_str("Context"), message: msg });
            ev.push(
                CouncilEvent::JobFinished {
                    outcome: JobOutcome::Failure,
                    summary_line: String::from_str("Invalid target path"),
                },
            );
            proof {
                assert(error_in_phase(ev@[ev@.len() - 2], "Context"@));
            }
            return RunTrace { events: ev, artifacts: arts, worktree_requested: false };
        },
        Ok(rel) => rel,
    };
    let mut detail = String::from_str("Preparing isolated environment (");
    detail.append(mode_name(inputs.mode));
    detail.append(")");
    let ghost iso_idx = ev@.len() as int;
    ev.push(
        CouncilEvent::PhaseStarted {
            phase: String::from_str("Isolation"),
            step_current: 1,
            step_total: 1,
            detail,
        },
    );
    proof {
        assert(phase_started(ev@[iso_idx], "Isolation"@));
    }
    let working_root = match &inputs.worktree {
        Err(e) => {
            let mut msg = String::from_str("Internal Error: ");
            msg.append(e.as_str());
            ev.push(
                CouncilEvent::Error {
                    phase: String::from_str("Job Execution"),
                    message: e.clone(),
                },
            );
            ev.push(
                CouncilEvent::JobFinished { outcome: JobOutcome::Failure, summary_line: msg },
            );
            proof {
                assert(error_event(ev@[ev@.len() - 2], "Job Execution"@, inputs.worktree->Err_0@));
            }
            return RunTrace { events: ev, artifacts: arts, worktree_requested: true };
        },
        Ok(p) => p,
    };
    if matches!(inputs.cancel, CancelPoint::AfterIsolation) {
        ev.push(
            CouncilEvent::JobFinished {
                outcome: JobOutcome::Cancelled,
                summary_line: String::from_str("Job cancelled by user."),
            },
        );
        return RunTrace { events: ev, artifacts: arts, worktree_requested: true };
    }
    let ghost ctx_idx = ev@.len() as int;
    ev.push(
        CouncilEvent::PhaseStarted {
            phase: String::from_str("Context"),
            step_current: 1,
            step_total: 1,
            detail: String::from_str("Analyzing dependencies..."),
        },
    );
    proof {
        assert(phase_started(ev@[ctx_idx], "Context"@));
    }
    if !inputs.target_in_head {
        let mut msg = String::from_str("Target file '");
        msg.append(rel.as_str());
        msg.append("' does not exist in HEAD.");
        ev.push(CouncilEvent::Error { phase: String::from_str("Context"), message: msg });
        ev.push(
            CouncilEvent::JobFinished {
                outcome: JobOutcome::Failure,
                summary_line: String::from_str("Target not found in HEAD"),
            },
        );
        proof {
            assert(error_in_phase(ev@[ev@.len() - 2], "Context"@));
        }
        return RunTrace { events: ev, artifacts: arts, worktree_requested: true };
    }
    let bundle = match &inputs.bundle {
        Err(e) => {
            let mut msg = String::from_str("Internal Error: ");
            msg.append(e.as_str());
            ev.push(
                CouncilEvent::Error {
                    phase: String::from_str("Job Execution"),
                    message: e.clone(),
                },
            );
            ev.push(
                CouncilEvent::JobFinished { outcome: JobOutcome::Failure, summary_line: msg },
            );
            proof {
                assert(error_event(ev@[ev@.len() - 2], "Job Execution"@, inputs.bundle->Err_0@));
            }
            return RunTrace { events: ev, artifacts: arts, worktree_requested: true };
        },
        Ok(b) => b,
    };
    let bundle_text = bundle_json(bundle);
    arts.push((String::from_str("context_bundle.json"), bundle_text));
    let mut bundle_path = inputs.job_dir.clone();
    bundle_path.append("/context_bundle.json");
    ev.push(
        CouncilEvent::ArtifactWritten {
            kind: String::from_str("Context Bundle"),
            path: bundle_path,
        },
    );
    if matches!(inputs.cancel, CancelPoint::AfterContext) {
        ev.push(
            CouncilEvent::JobFinished {
                outcome: JobOutcome::Cancelled,
                summary_line: String::from_str("Job cancelled by user."),
            },
        );
        return RunTrace { events: ev, artifacts: arts, worktree_requested: true };
    }
    if matches!(inputs.mode, CouncilMode::Fix) {
        ev.push(
            CouncilEvent::PhaseStarted {
                phase: String::from_str("Verify (Base)"),
                step_current: 1,
                step_total: 2,
                detail: String::from_str("Running baseline verification..."),
            },
        );
        let baseline_text = verify_results_json(&inputs.baseline);
        arts.push((String::from_str("verify_baseline.json"), baseline_text));
    }
    if matches!(inputs.cancel, CancelPoint::AfterBaseline) {
        ev.push(
            CouncilEvent::JobFinished {
                outcome: JobOutcome::Cancelled,
                summary_line: String::from_str("Job cancelled by user."),
            },
        );
        return RunTrace { events: ev, artifacts: arts, worktree_requested: true };
    }
    let ghost crit_idx = ev@.len() as int;
    ev.push(
        CouncilEvent::PhaseStarted {
            phase: String::from_str("Criticism"),
            step_current: 1,
            step_total: 1,
            detail: String::from_str("Consulting GPT-5 & Gemini 3..."),
        },
    );
    proof {
        assert(phase_started(ev@[crit_idx], "Criticism"@));
        assert(iso_idx < ctx_idx && ctx_idx < crit_idx);
    }
    let mut any_critique = false;
    let ghost mut gpt_idx: int = 0;
    let ghost mut gemini_idx: int = 0;
    let ghost mut gpt_note_idx: int = 0;
    let ghost mut gemini_note_idx: int = 0;
    match &inputs.critic_gpt {
        Some(c) => {
            proof {
                gpt_idx = arts@.len() as int;
            }
            arts.push((String::from_str("critique_gpt.md"), c.clone()));
            proof {
                assert(arts@[gpt_idx].0@ == "critique_gpt.md"@ && arts@[gpt_idx].1@
                    == inputs.critic_gpt->0@);
                gpt_note_idx = ev@.len() as int;
            }
            ev.push(
                CouncilEvent::PhaseNote {
                    phase: String::from_str("Criticism"),
                    message: String::from_str("GPT critique received."),
                },
            );
            proof {
                assert(phase_note(ev@[gpt_note_idx], "Criticism"@, "GPT critique received."@));
            }
            any_critique = true;
        },
        None => {
            proof {
                gpt_note_idx = ev@.len() as int;
            }
            ev.push(
                CouncilEvent::Warning {
                    message: String::from_str("GPT critic did not respond."),
                },
            );
            proof {
                assert(warning_event(ev@[gpt_note_idx], "GPT critic did not respond."@));
            }
        },
    }
    let ghost arts_after_gpt = arts@;
    match &inputs.critic_gemini {
        Some(c) => {
            proof {
                gemini_idx = arts@.len() as int;
            }
            arts.push((String::from_str("critique_gemini.md"), c.clone()));
            proof {
                assert(arts@[gemini_idx].0@ == "critique_gemini.md"@ && arts@[gemini_idx].1@
                    == inputs.critic_gemini->0@);
                gemini_note_idx = ev@.len() as int;
            }
            ev.push(
                CouncilEvent::PhaseNote {
                    phase: String::from_str("Criticism"),
                    message: String::from_str("Gemini critique received."),
                },
            );
            proof {
                assert(phase_note(
                    ev@[gemini_note_idx],
                    "Criticism"@,
                    "Gemini critique received."@,
                ));
            }
            any_critique = true;
        },
        None => {
            proof {
                gemini_note_idx = ev@.len() as int;
            }
            ev.push(
                CouncilEvent::Warning {
                    message: String::from_str("Gemini critic did not respond."),
                },
            );
            proof {
                assert(warning_event(ev@[gemini_note_idx], "Gemini critic did not respond."@));
            }
        },
    }
    if !any_critique {
        ev.push(
            CouncilEvent::Error {
                phase: String::from_str("Criticism"),
                message: String::from_str("All critics failed to respond."),
            },
        );
        ev.push(
            CouncilEvent::JobFinished {
                outcome: JobOutcome::Failure,
                summary_line: String::from_str("Critics failed"),
            },
        );
        proof {
            assert(error_event(
                ev@[ev@.len() - 2],
                "Criticism"@,
                "All critics failed to respond."@,
            ));
        }
        proof {
            if inputs.critic_gpt is Some {
                assert(0 <= gpt_note_idx < ev@.len() && phase_note(
                    ev@[gpt_note_idx],
                    "Criticism"@,
                    "GPT critique received."@,
                ));
            } else {
                assert(0 <= gpt_note_idx < ev@.len() && warning_event(
                    ev@[gpt_note_idx],
                    "GPT critic did not respond."@,
                ));
            }
            if inputs.critic_gemini is Some {
                assert(0 <= gemini_note_idx < ev@.len() && phase_note(
                    ev@[gemini_note_idx],
                    "Criticism"@,
                    "Gemini critique received."@,
                ));
            } else {
                assert(0 <= gemini_note_idx < ev@.len() && warning_event(
                    ev@[gemini_note_idx],
                    "Gemini critic did not respond."@,
                ));
            }
        }
        return RunTrace { events: ev, artifacts: arts, worktree_requested: true };
    }
    if matches!(inputs.mode, CouncilMode::Review) {
        ev.push(
            CouncilEvent::JobFinished {
                outcome: JobOutcome::Success,
                summary_line: String::from_str("Critique complete."),
            },
        );
        proof {
            assert(finished_with(ev@.last(), JobOutcome::Success, "Critique complete."@));
            assert(0 <= iso_idx && iso_idx < ctx_idx && ctx_idx < crit_idx && crit_idx
                < ev@.len());
            assert(phase_started(ev@[iso_idx], "Isolation"@));
            assert(phase_started(ev@[ctx_idx], "Context"@));
            assert(phase_started(ev@[crit_idx], "Criticism"@));
            if inputs.critic_gpt is Some {
                assert(0 <= gpt_idx < arts@.len() && (#[trigger] arts@[gpt_idx]).0@
                    == "critique_gpt.md"@ && arts@[gpt_idx].1@ == inputs.critic_gpt->0@);
                assert(has_artifact(arts@, "critique_gpt.md"@, inputs.critic_gpt->0@));
            }
            if inputs.critic_gemini is Some {
                assert(0 <= gemini_idx < arts@.len() && (#[trigger] arts@[gemini_idx]).0@
                    == "critique_gemini.md"@ && arts@[gemini_idx].1@ == inputs.critic_gemini->0@);
                assert(has_artifact(arts@, "critique_gemini.md"@, inputs.critic_gemini->0@));
            }
        }
        proof {
            if inputs.critic_gpt is Some {
                assert(0 <= gpt_note_idx < ev@.len() && phase_note(
                    ev@[gpt_note_idx],
                    "Criticism"@,
                    "GPT critique received."@,
                ));
            } else {
                assert(0 <= gpt_note_idx < ev@.len() && warning_event(
                    ev@[gpt_note_idx],
                    "GPT critic did not respond."@,
                ));
            }
            if inputs.critic_gemini is Some {
                assert(0 <= gemini_note_idx < ev@.len() && phase_note(
                    ev@[gemini_note_idx],
                    "Criticism"@,
                    "Gemini critique received."@,
                ));
            } else {
                assert(0 <= gemini_note_idx < ev@.len() && warning_event(
                    ev@[gemini_note_idx],
                    "Gemini critic did not respond."@,
                ));
            }
        }
        return RunTrace { events: ev, artifacts: arts, worktree_requested: true };
    }
    if matches!(inputs.cancel, CancelPoint::AfterCriticism) {
        ev.push(
            CouncilEvent::JobFinished {
                outcome: JobOutcome::Cancelled,
                summary_line: String::from_str("Job cancelled by user."),
            },
        );
        proof {
            if inputs.critic_gpt is Some {
                assert(0 <= gpt_note_idx < ev@.len() && phase_note(
                    ev@[gpt_note_idx],
                    "Criticism"@,
                    "GPT critique received."@,
                ));
            } else {
                assert(0 <= gpt_note_idx < ev@.len() && warning_event(
                    ev@[gpt_note_idx],
                    "GPT critic did not respond."@,
                ));
            }
            if inputs.critic_gemini is Some {
                assert(0 <= gemini_note_idx < ev@.len() && phase_note(
                    ev@[gemini_note_idx],
                    "Criticism"@,
                    "Gemini critique received."@,
                ));
            } else {
                assert(0 <= gemini_note_idx < ev@.len() && warning_event(
                    ev@[gemini_note_idx],
                    "Gemini critic did not respond."@,
                ));
            }
        }
        return RunTrace { events: ev, artifacts: arts, worktree_requested: true };
    }
    ev.push(
        CouncilEvent::PhaseStarted {
            phase: String::from_str("Planning"),
            step_current: 1,
            step_total: 1,
            detail: String::from_str("Chair is formulating a plan..."),
        },
    );
    let plan_raw = match &inputs.chair {
        Err(e) => {
            let mut msg = String::from_str("Internal Error: ");
            msg.append(e.as_str());
            ev.push(
                CouncilEvent::Error {
                    phase: String::from_str("Job Execution"),
                    message: e.clone(),
                },
            );
            ev.push(
                CouncilEvent::JobFinished { outcome: JobOutcome::Failure, summary_line: msg },
            );
            proof {
                assert(error_event(ev@[ev@.len() - 2], "Job Execution"@, inputs.chair->Err_0@));
            }
            proof {
            if inputs.critic_gpt is Some {
                assert(0 <= gpt_note_idx < ev@.len() && phase_note(
                    ev@[gpt_note_idx],
                    "Criticism"@,
                    "GPT critique received."@,
                ));
            } else {
                assert(0 <= gpt_note_idx < ev@.len() && warning_event(
                    ev@[gpt_note_idx],
                    "GPT critic did not respond."@,
                ));
            }
            if inputs.critic_gemini is Some {
                assert(0 <= gemini_note_idx < ev@.len() && phase_note(
                    ev@[gemini_note_idx],
                    "Criticism"@,
                    "Gemini critique received."@,
                ));
            } else {
                assert(0 <= gemini_note_idx < ev@.len() && warning_event(
                    ev@[gemini_note_idx],
                    "Gemini critic did not respond."@,
                ));
            }
        }
        return RunTrace { events: ev, artifacts: arts, worktree_requested: true };
        },
        Ok(p) => p,
    };
    let ghost praw_idx = arts@.len() as int;
    arts.push((String::from_str("plan_raw.md"), plan_raw.clone()));
    proof {
        assert(arts@[praw_idx].0@ == "plan_raw.md"@ && arts@[praw_idx].1@ == inputs.chair->Ok_0@);
    }
    let plan = match resolve_plan(inputs.prompt_version.as_str(), plan_raw.as_str()) {
        Ok(p) => p,
        Err(err_msg) => {
            let mut msg = String::from_str("Chair refused plan: ");
            msg.append(err_msg.as_str());
            ev.push(CouncilEvent::Error { phase: String::from_str("Planning"), message: msg });
            ev.push(
                CouncilEvent::JobFinished {
                    outcome: JobOutcome::Failure,
                    summary_line: String::from_str("Chair refused plan"),
                },
            );
            proof {
                assert(error_event(
                    ev@[ev@.len() - 2],
                    "Planning"@,
                    "Chair refused plan: "@ + spec_resolve_plan(
                        inputs.prompt_version@,
                        inputs.chair->Ok_0@,
                    )->Err_0,
                ));
                assert(has_artifact(arts@, "plan_raw.md"@, inputs.chair->Ok_0@));
            }
            proof {
            if inputs.critic_gpt is Some {
                assert(0 <= gpt_note_idx < ev@.len() && phase_note(
                    ev@[gpt_note_idx],
                    "Criticism"@,
                    "GPT critique received."@,
                ));
            } else {
                assert(0 <= gpt_note_idx < ev@.len() && warning_event(
                    ev@[gpt_note_idx],
                    "GPT critic did not respond."@,
                ));
            }
            if inputs.critic_gemini is Some {
                assert(0 <= gemini_note_idx < ev@.len() && phase_note(
                    ev@[gemini_note_idx],
                    "Criticism"@,
                    "Gemini critique received."@,
                ));
            } else {
                assert(0 <= gemini_note_idx < ev@.len() && warning_event(
                    ev@[gemini_note_idx],
                    "Gemini critic did not respond."@,
                ));
            }
        }
        return RunTrace { events: ev, artifacts: arts, worktree_requested: true };
        },
    };
    arts.push((String::from_str("plan.md"), plan));
    if matches!(inputs.cancel, CancelPoint::AfterPlanning) {
        ev.push(
            CouncilEvent::JobFinished {
                outcome: JobOutcome::Cancelled,
                summary_line: String::from_str("Job cancelled by user."),
            },
        );
        proof {
            if inputs.critic_gpt is Some {
                assert(0 <= gpt_note_idx < ev@.len() && phase_note(
                    ev@[gpt_note_idx],
                    "Criticism"@,
                    "GPT critique received."@,
                ));
            } else {
                assert(0 <= gpt_note_idx < ev@.len() && warning_event(
                    ev@[gpt_note_idx],
                    "GPT critic did not respond."@,
                ));
            }
            if inputs.critic_gemini is Some {
                assert(0 <= gemini_note_idx < ev@.len() && phase_note(
                    ev@[gemini_note_idx],
                    "Criticism"@,
                    "Gemini critique received."@,
                ));
            } else {
                assert(0 <= gemini_note_idx < ev@.len() && warning_event(
                    ev@[gemini_note_idx],
                    "Gemini critic did not respond."@,
                ));
            }
        }
        return RunTrace { events: ev, artifacts: arts, worktree_requested: true };
    }
    ev.push(
        CouncilEvent::PhaseStarted {
            phase: String::from_str("Implementation"),
            step_current: 1,
            step_total: 1,
            detail: String::from_str("Generating patch..."),
        },
    );
    let code_change = match &inputs.implementer {
        Err(e) => {
            let mut msg = String::from_str("Internal Error: ");
            msg.append(e.as_str());
            ev.push(
                CouncilEvent::Error {
                    phase: String::from_str("Job Execution"),
                    message: e.clone(),
                },
            );
            ev.push(
                CouncilEvent::JobFinished { outcome: JobOutcome::Failure, summary_line: msg },
            );
            proof {
                assert(error_event(
                    ev@[ev@.len() - 2],
                    "Job Execution"@,
                    inputs.implementer->Err_0@,
                ));
            }
            proof {
            if inputs.critic_gpt is Some {
                assert(0 <= gpt_note_idx < ev@.len() && phase_note(
                    ev@[gpt_note_idx],
                    "Criticism"@,
                    "GPT critique received."@,
                ));
            } else {
                assert(0 <= gpt_note_idx < ev@.len() && warning_event(
                    ev@[gpt_note_idx],
                    "GPT critic did not respond."@,
                ));
            }
            if inputs.critic_gemini is Some {
                assert(0 <= gemini_note_idx < ev@.len() && phase_note(
                    ev@[gemini_note_idx],
                    "Criticism"@,
                    "Gemini critique received."@,
                ));
            } else {
                assert(0 <= gemini_note_idx < ev@.len() && warning_event(
                    ev@[gemini_note_idx],
                    "Gemini critic did not respond."@,
                ));
            }
        }
        return RunTrace { events: ev, artifacts: arts, worktree_requested: true };
        },
        Ok(c) => c,
    };
    let ghost impl_idx = arts@.len() as int;
    arts.push((String::from_str("implementation.patch"), code_change.clone()));
    proof {
        assert(arts@[impl_idx].0@ == "implementation.patch"@ && arts@[impl_idx].1@
            == inputs.implementer->Ok_0@);
    }
    let patch_content = extract_patch_candidate(code_change.as_str());
    if str_eq(inputs.prompt_version.as_str(), "v2") && !looks_like_apply_patch(
        patch_content.as_str(),
    ) {
        ev.push(
            CouncilEvent::Error {
                phase: String::from_str("Implementation"),
                message: String::from_str("Generated patch failed validation (missing markers)."),
            },
        );
        ev.push(
            CouncilEvent::JobFinished {
                outcome: JobOutcome::Failure,
                summary_line: String::from_str("Patch validation failed"),
            },
        );
        proof {
            assert(error_event(
                ev@[ev@.len() - 2],
                "Implementation"@,
                "Generated patch failed validation (missing markers)."@,
            ));
            assert(has_artifact(arts@, "implementation.patch"@, inputs.implementer->Ok_0@));
        }
        proof {
            if inputs.critic_gpt is Some {
                assert(0 <= gpt_note_idx < ev@.len() && phase_note(
                    ev@[gpt_note_idx],
                    "Criticism"@,
                    "GPT critique received."@,
                ));
            } else {
                assert(0 <= gpt_note_idx < ev@.len() && warning_event(
                    ev@[gpt_note_idx],
                    "GPT critic did not respond."@,
                ));
            }
            if inputs.critic_gemini is Some {
                assert(0 <= gemini_note_idx < ev@.len() && phase_note(
                    ev@[gemini_note_idx],
                    "Criticism"@,
                    "Gemini critique received."@,
                ));
            } else {
                assert(0 <= gemini_note_idx < ev@.len() && warning_event(
                    ev@[gemini_note_idx],
                    "Gemini critic did not respond."@,
                ));
            }
        }
        return RunTrace { events: ev, artifacts: arts, worktree_requested: true };
    }
    match validate_patch_paths(patch_content.as_str()) {
        Err(e) => {
            let mut msg = String::from_str("Generated patch contained unsafe paths: ");
            msg.append(e.as_str());
            ev.push(
                CouncilEvent::Error { phase: String::from_str("Implementation"), message: msg },
            );
            ev.push(
                CouncilEvent::JobFinished {
                    outcome: JobOutcome::Failure,
                    summary_line: String::from_str("Patch safety check failed"),
                },
            );
            proof {
                assert(error_in_phase(ev@[ev@.len() - 2], "Implementation"@));
            }
            proof {
            if inputs.critic_gpt is Some {
                assert(0 <= gpt_note_idx < ev@.len() && phase_note(
                    ev@[gpt_note_idx],
                    "Criticism"@,
                    "GPT critique received."@,
                ));
            } else {
                assert(0 <= gpt_note_idx < ev@.len() && warning_event(
                    ev@[gpt_note_idx],
                    "GPT critic did not respond."@,
                ));
            }
            if inputs.critic_gemini is Some {
                assert(0 <= gemini_note_idx < ev@.len() && phase_note(
                    ev@[gemini_note_idx],
                    "Criticism"@,
                    "Gemini critique received."@,
                ));
            } else {
                assert(0 <= gemini_note_idx < ev@.len() && warning_event(
                    ev@[gemini_note_idx],
                    "Gemini critic did not respond."@,
                ));
            }
        }
        return RunTrace { events: ev, artifacts: arts, worktree_requested: true };
        },
        Ok(()) => {},
    }
    if matches!(inputs.cancel, CancelPoint::AfterImplementation) {
        ev.push(
            CouncilEvent::JobFinished {
                outcome: JobOutcome::Cancelled,
                summary_line: String::from_str("Job cancelled by user."),
            },
        );
        proof {
            if inputs.critic_gpt is Some {
                assert(0 <= gpt_note_idx < ev@.len() && phase_note(
                    ev@[gpt_note_idx],
                    "Criticism"@,
                    "GPT critique received."@,
                ));
            } else {
                assert(0 <= gpt_note_idx < ev@.len() && warning_event(
                    ev@[gpt_note_idx],
                    "GPT critic did not respond."@,
                ));
            }
            if inputs.critic_gemini is Some {
                assert(0 <= gemini_note_idx < ev@.len() && phase_note(
                    ev@[gemini_note_idx],
                    "Criticism"@,
                    "Gemini critique received."@,
                ));
            } else {
                assert(0 <= gemini_note_idx < ev@.len() && warning_event(
                    ev@[gemini_note_idx],
                    "Gemini critic did not respond."@,
                ));
            }
        }
        return RunTrace { events: ev, artifacts: arts, worktree_requested: true };
    }
    ev.push(
        CouncilEvent::PhaseStarted {
            phase: String::from_str("Verification"),
            step_current: 2,
            step_total: 2,
            detail: String::from_str("Applying patch and verifying..."),
        },
    );
    let ghost stdout_idx = arts@.len() as int;
    arts.push((String::from_str("apply_stdout.txt"), inputs.apply_stdout.clone()));
    let ghost stderr_idx = arts@.len() as int;
    arts.push((String::from_str("apply_stderr.txt"), inputs.apply_stderr.clone()));
    proof {
        assert(arts@[stdout_idx].0@ == "apply_stdout.txt"@ && arts@[stdout_idx].1@
            == inputs.apply_stdout@);
        assert(arts@[stderr_idx].0@ == "apply_stderr.txt"@ && arts@[stderr_idx].1@
            == inputs.apply_stderr@);
    }
    if !inputs.apply_ok {
        let mut msg = String::from_str("Patch application failed: ");
        msg.append(inputs.apply_error.as_str());
        ev.push(CouncilEvent::Error { phase: String::from_str("Verification"), message: msg });
        ev.push(
            CouncilEvent::JobFinished {
                outcome: JobOutcome::Failure,
                summary_line: String::from_str("Patch application failed"),
            },
        );
        proof {
            assert(error_event(
                ev@[ev@.len() - 2],
                "Verification"@,
                "Patch application failed: "@ + inputs.apply_error@,
            ));
            assert(has_artifact(arts@, "apply_stdout.txt"@, inputs.apply_stdout@));
            assert(has_artifact(arts@, "apply_stderr.txt"@, inputs.apply_stderr@));
        }
        proof {
            if inputs.critic_gpt is Some {
                assert(0 <= gpt_note_idx < ev@.len() && phase_note(
                    ev@[gpt_note_idx],
                    "Criticism"@,
                    "GPT critique received."@,
                ));
            } else {
                assert(0 <= gpt_note_idx < ev@.len() && warning_event(
                    ev@[gpt_note_idx],
                    "GPT critic did not respond."@,
                ));
            }
            if inputs.critic_gemini is Some {
                assert(0 <= gemini_note_idx < ev@.len() && phase_note(
                    ev@[gemini_note_idx],
                    "Criticism"@,
                    "Gemini critique received."@,
                ));
            } else {
                assert(0 <= gemini_note_idx < ev@.len() && warning_event(
                    ev@[gemini_note_idx],
                    "Gemini critic did not respond."@,
                ));
            }
        }
        return RunTrace { events: ev, artifacts: arts, worktree_requested: true };
    }
    let final_text = verify_results_json(&inputs.final_results);
    let ghost fin_idx = arts@.len() as int;
    arts.push((String::from_str("verify_final.json"), final_text));
    proof {
        assert(0 <= fin_idx < arts@.len() && (#[trigger] arts@[fin_idx]).0@
            == "verify_final.json"@ && arts@[fin_idx].1@ == spec_verify_results_json(
            inputs.final_results@,
        ));
        assert(has_artifact(
            arts@,
            "verify_final.json"@,
            spec_verify_results_json(inputs.final_results@),
        ));
    }
    let baseline_failures = count_failures(&inputs.baseline);
    let final_failures = count_failures(&inputs.final_results);
    let (outcome, summary) = compute_outcome(baseline_failures, final_failures);
    ev.push(CouncilEvent::JobFinished { outcome, summary_line: summary });
    proof {
            if inputs.critic_gpt is Some {
                assert(0 <= gpt_note_idx < ev@.len() && phase_note(
                    ev@[gpt_note_idx],
                    "Criticism"@,
                    "GPT critique received."@,
                ));
            } else {
                assert(0 <= gpt_note_idx < ev@.len() && warning_event(
                    ev@[gpt_note_idx],
                    "GPT critic did not respond."@,
                ));
            }
            if inputs.critic_gemini is Some {
                assert(0 <= gemini_note_idx < ev@.len() && phase_note(
                    ev@[gemini_note_idx],
                    "Criticism"@,
                    "Gemini critique received."@,
                ));
            } else {
                assert(0 <= gemini_note_idx < ev@.len() && warning_event(
                    ev@[gemini_note_idx],
                    "Gemini critic did not respond."@,
                ));
            }
        }
        RunTrace { events: ev, artifacts: arts, worktree_requested: true }
}

} // verus!
