//! Progress tracking over the event stream: the per-phase status list
//! that a front-end renders, and how each event updates it. Drawing the
//! list is display work and stays outside the library.

use vstd::prelude::*;
use crate::text::str_eq;
use crate::types::CouncilEvent;
use crate::types::CouncilMode;
use crate::types::JobOutcome;

verus! {

/// Display status of one phase.
#[derive(Debug, Clone, Copy, PartialEq, Eq, Structural)]
pub enum PhaseStatus {
    Pending,
    Running,
    Done,
    Failed,
}

/// One phase as the progress view tracks it.
#[derive(Debug, Clone)]
pub struct PhaseState {
    pub name: String,
    pub status: PhaseStatus,
    pub detail: String,
    pub notes: Vec<String>,
}

impl PhaseState {
    /// A pending phase with this name.
    pub fn new(name: &str) -> (r: PhaseState)
        ensures
            r.name@ == name@,
            r.status == PhaseStatus::Pending,
            r.detail@.len() == 0,
            r.notes@.len() == 0,
    {
        PhaseState {
            name: String::from_str(name),
            status: PhaseStatus::Pending,
            detail: String::new(),
            notes: Vec::new(),
        }
    }
}

/// Position of the first phase with this name.
pub open spec fn spec_phase_idx(phases: Seq<PhaseState>, name: Seq<char>) -> Option<int>
    decreases phases.len(),
{
    if phases.len() == 0 {
        None
    } else if phases[0].name@ == name {
        Some(0)
    } else {
        match spec_phase_idx(phases.drop_first(), name) {
            None => None,
            Some(i) => Some(i + 1),
        }
    }
}

pub proof fn lemma_spec_phase_idx(phases: Seq<PhaseState>, name: Seq<char>)
    ensures
        match spec_phase_idx(phases, name) {
            Some(i) => 0 <= i < phases.len() && phases[i].name@ == name && forall|j: int|
                0 <= j < i ==> (#[trigger] phases[j]).name@ != name,
            None => forall|j: int| 0 <= j < phases.len() ==> (#[trigger] phases[j]).name@ != name,
        },
    decreases phases.len(),
{
    if phases.len() > 0 && phases[0].name@ != name {
        lemma_spec_phase_idx(phases.drop_first(), name);
        assert forall|j: int| 1 <= j < phases.len() implies (#[trigger] phases[j]).name@
            == phases.drop_first()[j - 1].name@ by {}
    }
}

fn find_phase(phases: &Vec<PhaseState>, name: &str) -> (r: Option<usize>)
    ensures
        match r {
            Some(i) => spec_phase_idx(phases@, name@) == Some(i as int),
            None => spec_phase_idx(phases@, name@) is None,
        },
{
    proof {
        lemma_spec_phase_idx(phases@, name@);
    }
    let mut i: usize = 0;
    while i < phases.len()
        invariant
            0 <= i <= phases@.len(),
            forall|j: int| 0 <= j < i ==> (#[trigger] phases@[j]).name@ != name@,
        decreases phases@.len() - i,
    {
        if str_eq(phases[i].name.as_str(), name) {
            proof {
                lemma_spec_phase_idx(phases@, name@);
            }
            return Some(i);
        }
        i += 1;
    }
    proof {
        lemma_spec_phase_idx(phases@, name@);
    }
    None
}

/// The progress view of one run: its phases in order, and the outcome
/// once the run finished.
#[derive(Debug, Clone)]
pub struct CouncilProgressState {
    pub phases: Vec<PhaseState>,
    pub outcome: Option<JobOutcome>,
    pub summary: Option<String>,
    pub dry_run_failed: bool,
}

impl CouncilProgressState {
    /// The standard phase list for a mode: isolation, context and
    /// criticism always; baseline verification, planning, implementation
    /// and final verification only for a fix run.
    pub fn new(mode: CouncilMode) -> (r: CouncilProgressState)
        ensures
            r.outcome is None,
            r.summary is None,
            !r.dry_run_failed,
            forall|j: int|
                0 <= j < r.phases@.len() ==> (#[trigger] r.phases@[j]).status
                    == PhaseStatus::Pending && r.phases@[j].notes@.len() == 0,
            mode == CouncilMode::Review ==> r.phases@.len() == 3 && r.phases@[0].name@
                == "Isolation"@ && r.phases@[1].name@ == "Context"@ && r.phases@[2].name@
                == "Criticism"@,
            mode == CouncilMode::Fix ==> r.phases@.len() == 7 && r.phases@[0].name@ == "Isolation"@
                && r.phases@[1].name@ == "Context"@ && r.phases@[2].name@ == "Verify (Base)"@
                && r.phases@[3].name@ == "Criticism"@ && r.phases@[4].name@ == "Planning"@
                && r.phases@[5].name@ == "Implementation"@ && r.phases@[6].name@
                == "Verification"@,
    {
        let mut phases: Vec<PhaseState> = Vec::new();
        phases.push(PhaseState::new("Isolation"));
        phases.push(PhaseState::new("Context"));
        if matches!(mode, CouncilMode::Fix) {
            phases.push(PhaseState::new("Verify (Base)"));
        }
        phases.push(PhaseState::new("Criticism"));
        if matches!(mode, CouncilMode::Fix) {
            phases.push(PhaseState::new("Planning"));
            phases.push(PhaseState::new("Implementation"));
            phases.push(PhaseState::new("Verification"));
        }
        CouncilProgressState { phases, outcome: None, summary: None, dry_run_failed: false }
    }

    /// Applies one event: a started phase turns `Running` and completes
    /// every earlier unfinished phase, a note is appended to its phase, an
    /// error fails its phase, and the finish records the outcome and
    /// completes or fails whatever still runs.
    pub fn handle_event(&mut self, event: &CouncilEvent)
        ensures
            match *event {
                CouncilEvent::PhaseStarted { phase, detail, .. } => {
                    (match spec_phase_idx(old(self).phases@, phase@) {
                        Some(k) => ({
                            &&& final(self).phases@.len() == old(self).phases@.len()
                            &&& forall|j: int|
                                0 <= j < old(self).phases@.len() ==> (
                                #[trigger] final(self).phases@[j]).name@
                                    == old(self).phases@[j].name@ && final(self).phases@[j].notes
                                    == old(self).phases@[j].notes
                            &&& final(self).phases@[k].detail@ == detail@
                            &&& forall|j: int|
                                0 <= j < old(self).phases@.len() && j != k ==> (
                                #[trigger] final(self).phases@[j]).detail
                                    == old(self).phases@[j].detail
                            &&& forall|j: int|
                                0 <= j < old(self).phases@.len() ==> (
                                #[trigger] final(self).phases@[j]).status == (if j == k {
                                    PhaseStatus::Running
                                } else if j < k && (old(self).phases@[j].status
                                    == PhaseStatus::Running || old(self).phases@[j].status
                                    == PhaseStatus::Pending) {
                                    PhaseStatus::Done
                                } else {
                                    old(self).phases@[j].status
                                })
                        }),
                        None => ({
                            &&& final(self).phases@.len() == old(self).phases@.len() + 1
                            &&& forall|j: int|
                                0 <= j < old(self).phases@.len() ==> (
                                #[trigger] final(self).phases@[j]).name@
                                    == old(self).phases@[j].name@ && final(self).phases@[j].notes
                                    == old(self).phases@[j].notes && final(self).phases@[j].detail
                                    == old(self).phases@[j].detail
                            &&& forall|j: int|
                                0 <= j < old(self).phases@.len() ==> (
                                #[trigger] final(self).phases@[j]).status == (if old(
                                    self,
                                ).phases@[j].status == PhaseStatus::Running || old(
                                    self,
                                ).phases@[j].status == PhaseStatus::Pending {
                                    PhaseStatus::Done
                                } else {
                                    old(self).phases@[j].status
                                })
                            &&& final(self).phases@.last().name@ == phase@
                            &&& final(self).phases@.last().status == PhaseStatus::Running
                            &&& final(self).phases@.last().detail@ == detail@
                            &&& final(self).phases@.last().notes@.len() == 0
                        }),
                    }) && final(self).outcome == old(self).outcome && final(self).summary == old(
                        self,
                    ).summary
                },
                CouncilEvent::PhaseNote { phase, message } => {
                    (match spec_phase_idx(old(self).phases@, phase@) {
                        Some(k) => ({
                            &&& final(self).phases@.len() == old(self).phases@.len()
                            &&& forall|j: int|
                                0 <= j < old(self).phases@.len() && j != k ==> (
                                #[trigger] final(self).phases@[j]) == old(self).phases@[j]
                            &&& final(self).phases@[k].notes@ == old(self).phases@[k].notes@.push(
                                message,
                            )
                            &&& final(self).phases@[k].name == old(self).phases@[k].name
                            &&& final(self).phases@[k].status == old(self).phases@[k].status
                            &&& final(self).phases@[k].detail == old(self).phases@[k].detail
                        }),
                        None => *final(self) == *old(self),
                    }) && final(self).outcome == old(self).outcome && final(self).summary == old(
                        self,
                    ).summary
                },
                CouncilEvent::JobFinished { outcome, summary_line: summary } => {
                    &&& final(self).outcome == Some(outcome)
                    &&& final(self).summary matches Some(s) && s@ == summary@
                    &&& final(self).phases@.len() == old(self).phases@.len()
                    &&& forall|j: int|
                        0 <= j < old(self).phases@.len() ==> (
                        #[trigger] final(self).phases@[j]).name == old(self).phases@[j].name && (
                        final(self).phases@[j]).detail == old(self).phases@[j].detail && (
                        final(self).phases@[j]).notes == old(self).phases@[j].notes
                    &&& forall|j: int|
                        0 <= j < old(self).phases@.len() ==> (
                        #[trigger] final(self).phases@[j]).status == (if old(
                            self,
                        ).phases@[j].status == PhaseStatus::Running {
                            if outcome == JobOutcome::Success {
                                PhaseStatus::Done
                            } else {
                                PhaseStatus::Failed
                            }
                        } else {
                            old(self).phases@[j].status
                        })
                },
                CouncilEvent::Error { phase, message } => {
                    (match spec_phase_idx(old(self).phases@, phase@) {
                        Some(k) => ({
                            &&& final(self).phases@.len() == old(self).phases@.len()
                            &&& forall|j: int|
                                0 <= j < old(self).phases@.len() && j != k ==> (
                                #[trigger] final(self).phases@[j]) == old(self).phases@[j]
                            &&& final(self).phases@[k].status == PhaseStatus::Failed
                            &&& final(self).phases@[k].detail@ == message@
                            &&& final(self).phases@[k].name == old(self).phases@[k].name
                            &&& final(self).phases@[k].notes == old(self).phases@[k].notes
                        }),
                        None => *final(self) == *old(self),
                    }) && final(self).outcome == old(self).outcome && final(self).summary == old(
                        self,
                    ).summary
                },
                _ => *final(self) == *old(self),
            },
    {
        match event {
            CouncilEvent::PhaseStarted { phase, detail, .. } => {
                let k: usize = match find_phase(&self.phases, phase.as_str()) {
                    Some(k) => {
                        proof {
                            lemma_spec_phase_idx(self.phases@, phase@);
                        }
                        let mut p = self.phases.remove(k);
                        p.status = PhaseStatus::Running;
                        p.detail = detail.clone();
                        self.phases.insert(k, p);
                        proof {
                            assert(self.phases@ =~= old(self).phases@.update(
                                k as int,
                                self.phases@[k as int],
                            ));
                        }
                        k
                    },
                    None => {
                        let mut p = PhaseState::new(phase.as_str());
                        p.status = PhaseStatus::Running;
                        p.detail = detail.clone();
                        self.phases.push(p);
                        self.phases.len() - 1
                    },
                };
                let ghost mid = self.phases@;
                let mut j: usize = 0;
                while j < k
                    invariant
                        0 <= j <= k < self.phases@.len(),
                        self.phases@.len() == mid.len(),
                        self.outcome == old(self).outcome,
                        self.summary == old(self).summary,
                        self.dry_run_failed == old(self).dry_run_failed,
                        (match spec_phase_idx(old(self).phases@, phase@) {
                            Some(kk) => kk == k as int && mid.len() == old(self).phases@.len() && (
                            forall|t: int|
                                0 <= t < mid.len() && t != k as int ==> #[trigger] mid[t] == old(
                                    self,
                                ).phases@[t]) && mid[k as int].name == old(self).phases@[k
                                as int].name && mid[k as int].notes == old(self).phases@[k
                                as int].notes && mid[k as int].status == PhaseStatus::Running
                                && mid[k as int].detail@ == detail@,
                            None => k as int == mid.len() - 1 && mid.len() == old(
                                self,
                            ).phases@.len() + 1 && (forall|t: int|
                                0 <= t < mid.len() - 1 ==> #[trigger] mid[t] == old(
                                    self,
                                ).phases@[t]) && mid.last().name@ == phase@ && mid.last().status
                                == PhaseStatus::Running && mid.last().detail@ == detail@
                                && mid.last().notes@.len() == 0,
                        }),
                        forall|t: int| j <= t < mid.len() ==> #[trigger] self.phases@[t] == mid[t],
                        forall|t: int|
                            0 <= t < j ==> (#[trigger] self.phases@[t]).name == mid[t].name && (
                            self.phases@[t]).detail == mid[t].detail && (self.phases@[t]).notes
                                == mid[t].notes && (self.phases@[t]).status == (if mid[t].status
                                == PhaseStatus::Running || mid[t].status == PhaseStatus::Pending {
                                PhaseStatus::Done
                            } else {
                                mid[t].status
                            }),
                    decreases k - j,
                {
                    let running = matches!(self.phases[j].status, PhaseStatus::Running);
                    let pending = matches!(self.phases[j].status, PhaseStatus::Pending);
                    if running || pending {
                        let mut q = self.phases.remove(j);
                        q.status = PhaseStatus::Done;
                        self.phases.insert(j, q);
                        proof {
                            assert forall|t: int| j < t < mid.len() implies #[trigger] self.phases@[t]
                                == mid[t] by {}
                        }
                    }
                    j += 1;
                }
                proof {
                    match spec_phase_idx(old(self).phases@, phase@) {
                        Some(kk) => {
                            assert(self.phases@.len() == old(self).phases@.len());
                            assert(forall|t: int|
                                0 <= t < old(self).phases@.len() ==> (
                                #[trigger] self.phases@[t]).name@ == old(self).phases@[t].name@
                                    && self.phases@[t].notes == old(self).phases@[t].notes);
                            assert(self.phases@[kk].detail@ == detail@);
                            assert(forall|t: int|
                                0 <= t < old(self).phases@.len() && t != kk ==> (
                                #[trigger] self.phases@[t]).detail == old(self).phases@[t].detail);
                            assert(forall|t: int|
                                0 <= t < old(self).phases@.len() ==> (
                                #[trigger] self.phases@[t]).status == (if t == kk {
                                    PhaseStatus::Running
                                } else if t < kk && (old(self).phases@[t].status
                                    == PhaseStatus::Running || old(self).phases@[t].status
                                    == PhaseStatus::Pending) {
                                    PhaseStatus::Done
                                } else {
                                    old(self).phases@[t].status
                                }));
                        },
                        None => {
                            assert(self.phases@.len() == old(self).phases@.len() + 1);
                            assert(forall|t: int|
                                0 <= t < old(self).phases@.len() ==> (
                                #[trigger] self.phases@[t]).name@ == old(self).phases@[t].name@
                                    && self.phases@[t].notes == old(self).phases@[t].notes
                                    && self.phases@[t].detail == old(self).phases@[t].detail);
                            assert(forall|t: int|
                                0 <= t < old(self).phases@.len() ==> (
                                #[trigger] self.phases@[t]).status == (if old(
                                    self,
                                ).phases@[t].status == PhaseStatus::Running || old(
                                    self,
                                ).phases@[t].status == PhaseStatus::Pending {
                                    PhaseStatus::Done
                                } else {
                                    old(self).phases@[t].status
                                }));
                            assert(self.phases@.last().name@ == phase@);
                            assert(self.phases@.last().status == PhaseStatus::Running);
                            assert(self.phases@.last().detail@ == detail@);
                            assert(self.phases@.last().notes@.len() == 0);
                        },
                    }
                }
            },
            CouncilEvent::PhaseNote { phase, message } => {
                match find_phase(&self.phases, phase.as_str()) {
                    Some(k) => {
                        proof {
                            lemma_spec_phase_idx(self.phases@, phase@);
                        }
                        let mut p = self.phases.remove(k);
                        p.notes.push(message.clone());
                        self.phases.insert(k, p);
                        proof {
                            assert forall|j: int|
                                0 <= j < old(self).phases@.len() && j != k implies (
                            #[trigger] self.phases@[j]) == old(self).phases@[j] by {}
                        }
                    },
                    None => {},
                }
            },
            CouncilEvent::JobFinished { outcome, summary_line } => {
                self.outcome = Some(outcome.clone());
                self.summary = Some(summary_line.clone());
                let ghost mid = self.phases@;
                let success = matches!(outcome, JobOutcome::Success);
                let mut j: usize = 0;
                while j < self.phases.len()
                    invariant
                        0 <= j <= self.phases@.len(),
                        self.phases@.len() == mid.len(),
                        self.outcome == Some(*outcome),
                        self.summary matches Some(s) && s@ == summary_line@,
                        self.dry_run_failed == old(self).dry_run_failed,
                        forall|t: int| j <= t < mid.len() ==> #[trigger] self.phases@[t] == mid[t],
                        success == (*outcome == JobOutcome::Success),
                        forall|t: int|
                            0 <= t < j ==> (#[trigger] self.phases@[t]).name == mid[t].name && (
                            self.phases@[t]).detail == mid[t].detail && (self.phases@[t]).notes
                                == mid[t].notes && (self.phases@[t]).status == (if mid[t].status
                                == PhaseStatus::Running {
                                if *outcome == JobOutcome::Success {
                                    PhaseStatus::Done
                                } else {
                                    PhaseStatus::Failed
                                }
                            } else {
                                mid[t].status
                            }),
                    decreases self.phases@.len() - j,
                {
                    if matches!(self.phases[j].status, PhaseStatus::Running) {
                        let mut q = self.phases.remove(j);
                        q.status = if success {
                            PhaseStatus::Done
                        } else {
                            PhaseStatus::Failed
                        };
                        self.phases.insert(j, q);
                        proof {
                            assert forall|t: int| j < t < mid.len() implies #[trigger] self.phases@[t]
                                == mid[t] by {}
                        }
                    }
                    j += 1;
                }
            },
            CouncilEvent::Error { phase, message } => {
                match find_phase(&self.phases, phase.as_str()) {
                    Some(k) => {
                        proof {
                            lemma_spec_phase_idx(self.phases@, phase@);
                        }
                        let mut p = self.phases.remove(k);
                        p.status = PhaseStatus::Failed;
                        p.detail = message.clone();
                        self.phases.insert(k, p);
                        proof {
                            assert forall|j: int|
                                0 <= j < old(self).phases@.len() && j != k implies (
                            #[trigger] self.phases@[j]) == old(self).phases@[j] by {}
                        }
                    },
                    None => {},
                }
            },
            _ => {},
        }
    }
}

} // verus!
