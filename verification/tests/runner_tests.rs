use council::runner::compute_outcome;
use council::runner::extract_patch_candidate;
use council::runner::join_critiques;
use council::runner::resolve_plan;
use council::runner::run_events;
use council::runner::validate_target;
use council::runner::CancelPoint;
use council::runner::RunInputs;
use council::runner::TargetError;
use council::types::ContextBundle;
use council::types::CouncilEvent;
use council::types::CouncilMode;
use council::types::JobOutcome;
use council::verify::VerifyResult;

fn review_inputs() -> RunInputs {
    RunInputs {
        run_id: "run-1700000000".to_string(),
        job_dir: "/repo/.council/runs/run-1700000000".to_string(),
        mode: CouncilMode::Review,
        prompt_version: "v1".to_string(),
        repo_root: "/repo".to_string(),
        target: "/repo/src/app.py".to_string(),
        head_sha: "abc123".to_string(),
        repo_dirty: false,
        timestamp: 1700000000,
        cancel: CancelPoint::NotCancelled,
        worktree: Ok("/repo/.council/worktrees/run-1700000000".to_string()),
        target_in_head: true,
        bundle: Ok(ContextBundle::new()),
        baseline: Vec::new(),
        critic_gpt: Some("<finding severity=\"P1\">body</finding>".to_string()),
        critic_gemini: Some("<finding severity=\"P1\">body</finding>".to_string()),
        chair: Ok("plan text".to_string()),
        implementer: Ok("*** Begin Patch\n*** Add File: a.py\n+x\n*** End Patch".to_string()),
        apply_ok: true,
        apply_error: String::new(),
        apply_stdout: String::new(),
        apply_stderr: String::new(),
        final_results: Vec::new(),
    }
}

fn result_with(success: bool) -> VerifyResult {
    VerifyResult {
        command: "pytest -q".to_string(),
        success,
        stdout: String::new(),
        stderr: String::new(),
    }
}

fn phase_names(events: &[CouncilEvent]) -> Vec<String> {
    let mut names = Vec::new();
    for e in events {
        if let CouncilEvent::PhaseStarted { phase, .. } = e {
            names.push(phase.clone());
        }
    }
    names
}

#[test]
fn review_happy_path_event_stream() {
    let trace = run_events(&review_inputs());
    let events = &trace.events;
    assert!(matches!(events[0], CouncilEvent::JobStarted { .. }));
    assert_eq!(
        phase_names(events),
        vec!["Isolation".to_string(), "Context".to_string(), "Criticism".to_string()]
    );
    let notes = events
        .iter()
        .filter(|e| matches!(e, CouncilEvent::PhaseNote { .. }))
        .count();
    assert_eq!(notes, 2);
    match events.last().unwrap() {
        CouncilEvent::JobFinished { outcome, summary_line } => {
            assert_eq!(*outcome, JobOutcome::Success);
            assert_eq!(summary_line, "Critique complete.");
        }
        _ => panic!("stream must end with JobFinished"),
    }
    let art_names: Vec<&str> = trace.artifacts.iter().map(|a| a.0.as_str()).collect();
    assert!(art_names.contains(&"critique_gpt.md"));
    assert!(art_names.contains(&"critique_gemini.md"));
    assert_eq!(trace.artifacts[0].0, "job_metadata.json");
    assert!(!art_names.contains(&"plan_raw.md"));
    assert!(!art_names.contains(&"plan.md"));
    assert!(!art_names.contains(&"implementation.patch"));
}

#[test]
fn fix_regression_is_a_failure() {
    let mut inputs = review_inputs();
    inputs.mode = CouncilMode::Fix;
    inputs.baseline = Vec::new();
    inputs.final_results = vec![result_with(false)];
    let trace = run_events(&inputs);
    match trace.events.last().unwrap() {
        CouncilEvent::JobFinished { outcome, summary_line } => {
            assert_eq!(*outcome, JobOutcome::Failure);
            assert_eq!(summary_line, "Base failures: 0, Final failures: 1");
        }
        _ => panic!("stream must end with JobFinished"),
    }
    assert!(trace.artifacts.iter().any(|a| a.0 == "verify_final.json"));
}

#[test]
fn fix_improvement_is_a_success() {
    let mut inputs = review_inputs();
    inputs.mode = CouncilMode::Fix;
    inputs.baseline = vec![result_with(false), result_with(true)];
    inputs.final_results = vec![result_with(true), result_with(true)];
    let trace = run_events(&inputs);
    match trace.events.last().unwrap() {
        CouncilEvent::JobFinished { outcome, summary_line } => {
            assert_eq!(*outcome, JobOutcome::Success);
            assert_eq!(summary_line, "Base failures: 1, Final failures: 0");
        }
        _ => panic!("stream must end with JobFinished"),
    }
}

#[test]
fn empty_target_fails_before_isolation() {
    let mut inputs = review_inputs();
    inputs.target = "".to_string();
    let trace = run_events(&inputs);
    assert!(!trace.worktree_requested);
    assert!(trace.events.iter().any(|e| matches!(
        e,
        CouncilEvent::Error { phase, .. } if phase == "Context"
    )));
    match trace.events.last().unwrap() {
        CouncilEvent::JobFinished { outcome, summary_line } => {
            assert_eq!(*outcome, JobOutcome::Failure);
            assert_eq!(summary_line, "Invalid target path");
        }
        _ => panic!("stream must end with JobFinished"),
    }
}

#[test]
fn traversing_target_fails_before_isolation() {
    let mut inputs = review_inputs();
    inputs.target = "src/../../etc/passwd".to_string();
    let trace = run_events(&inputs);
    assert!(!trace.worktree_requested);
    match trace.events.last().unwrap() {
        CouncilEvent::JobFinished { outcome, summary_line } => {
            assert_eq!(*outcome, JobOutcome::Failure);
            assert_eq!(summary_line, "Invalid target path");
        }
        _ => panic!("stream must end with JobFinished"),
    }
}

#[test]
fn target_missing_from_head_fails_after_isolation() {
    let mut inputs = review_inputs();
    inputs.target_in_head = false;
    let trace = run_events(&inputs);
    assert!(trace.worktree_requested);
    assert!(trace.events.iter().any(|e| matches!(
        e,
        CouncilEvent::Error { phase, message } if phase == "Context" && message.contains("does not exist in HEAD")
    )));
    match trace.events.last().unwrap() {
        CouncilEvent::JobFinished { outcome, summary_line } => {
            assert_eq!(*outcome, JobOutcome::Failure);
            assert_eq!(summary_line, "Target not found in HEAD");
        }
        _ => panic!("stream must end with JobFinished"),
    }
}

#[test]
fn cancellation_before_start_creates_no_worktree() {
    let mut inputs = review_inputs();
    inputs.cancel = CancelPoint::BeforeStart;
    let trace = run_events(&inputs);
    assert!(!trace.worktree_requested);
    assert!(trace.artifacts.is_empty());
    assert_eq!(trace.events.len(), 1);
    match &trace.events[0] {
        CouncilEvent::JobFinished { outcome, summary_line } => {
            assert_eq!(*outcome, JobOutcome::Cancelled);
            assert_eq!(summary_line, "Job cancelled by user.");
        }
        _ => panic!("a cancelled run still finishes"),
    }
}

#[test]
fn both_critics_failing_ends_the_run() {
    let mut inputs = review_inputs();
    inputs.mode = CouncilMode::Fix;
    inputs.critic_gpt = None;
    inputs.critic_gemini = None;
    let trace = run_events(&inputs);
    match trace.events.last().unwrap() {
        CouncilEvent::JobFinished { outcome, summary_line } => {
            assert_eq!(*outcome, JobOutcome::Failure);
            assert_eq!(summary_line, "Critics failed");
        }
        _ => panic!("stream must end with JobFinished"),
    }
    assert!(!trace.artifacts.iter().any(|a| a.0 == "plan_raw.md" || a.0 == "plan.md"));
    assert!(trace.events.iter().any(|e| matches!(
        e,
        CouncilEvent::Error { phase, message }
            if phase == "Criticism" && message == "All critics failed to respond."
    )));
}

#[test]
fn exactly_one_start_and_finish_per_run() {
    let trace = run_events(&review_inputs());
    let starts = trace
        .events
        .iter()
        .filter(|e| matches!(e, CouncilEvent::JobStarted { .. }))
        .count();
    let finishes = trace
        .events
        .iter()
        .filter(|e| matches!(e, CouncilEvent::JobFinished { .. }))
        .count();
    assert_eq!(starts, 1);
    assert_eq!(finishes, 1);
    assert!(matches!(trace.events[0], CouncilEvent::JobStarted { .. }));
    assert!(matches!(trace.events.last().unwrap(), CouncilEvent::JobFinished { .. }));
}

#[test]
fn chair_refusal_fails_the_fix_run() {
    let mut inputs = review_inputs();
    inputs.mode = CouncilMode::Fix;
    inputs.prompt_version = "v2".to_string();
    inputs.chair = Ok("<error>cannot plan this</error>".to_string());
    let trace = run_events(&inputs);
    match trace.events.last().unwrap() {
        CouncilEvent::JobFinished { outcome, summary_line } => {
            assert_eq!(*outcome, JobOutcome::Failure);
            assert_eq!(summary_line, "Chair refused plan");
        }
        _ => panic!("stream must end with JobFinished"),
    }
    assert!(trace
        .artifacts
        .iter()
        .any(|a| a.0 == "plan_raw.md" && a.1 == "<error>cannot plan this</error>"));
    assert!(!trace.artifacts.iter().any(|a| a.0 == "plan.md"));
    assert!(trace.events.iter().any(|e| matches!(
        e,
        CouncilEvent::Error { phase, message }
            if phase == "Planning" && message == "Chair refused plan: cannot plan this"
    )));
}

#[test]
fn unsafe_patch_fails_the_fix_run() {
    let mut inputs = review_inputs();
    inputs.mode = CouncilMode::Fix;
    inputs.implementer =
        Ok("*** Begin Patch\n*** Add File: ../evil.py\n+x\n*** End Patch".to_string());
    let trace = run_events(&inputs);
    match trace.events.last().unwrap() {
        CouncilEvent::JobFinished { outcome, summary_line } => {
            assert_eq!(*outcome, JobOutcome::Failure);
            assert_eq!(summary_line, "Patch safety check failed");
        }
        _ => panic!("stream must end with JobFinished"),
    }
}

#[test]
fn validate_target_relativizes_and_rejects() {
    assert_eq!(validate_target("/repo", "/repo/src/a.py"), Ok("src/a.py".to_string()));
    assert_eq!(validate_target("/repo", "src/a.py"), Ok("src/a.py".to_string()));
    assert_eq!(validate_target("/repo", "/elsewhere/a.py"), Err(TargetError::OutsideRoot));
    assert_eq!(validate_target("/repo", "/repofoo/x.py"), Err(TargetError::OutsideRoot));
    assert_eq!(validate_target("/repo/", "/repo/x.py"), Ok("x.py".to_string()));
    assert_eq!(validate_target("/repo", ""), Err(TargetError::Empty));
    assert_eq!(validate_target("/repo", "a/../b"), Err(TargetError::UnsafeComponents));
    assert_eq!(validate_target("/repo", "C:oops"), Err(TargetError::UnsafeComponents));
}

#[test]
fn patch_candidate_falls_back_to_fences() {
    assert_eq!(
        extract_patch_candidate("<patch>inner</patch>"),
        "inner".to_string()
    );
    assert_eq!(
        extract_patch_candidate("prose ```the patch``` tail"),
        "the patch".to_string()
    );
    assert_eq!(extract_patch_candidate("just text"), "just text".to_string());
}

#[test]
fn plan_resolution_follows_prompt_version() {
    assert_eq!(
        resolve_plan("v2", "x <plan> steps </plan> y"),
        Ok("steps".to_string())
    );
    assert_eq!(
        resolve_plan("v2", "<error>no</error>"),
        Err("no".to_string())
    );
    assert_eq!(resolve_plan("v2", "loose text"), Ok("loose text".to_string()));
    assert_eq!(
        resolve_plan("v1", "<plan>ignored</plan>"),
        Ok("<plan>ignored</plan>".to_string())
    );
}

#[test]
fn outcome_comparison_matches_failure_counts() {
    assert_eq!(compute_outcome(1, 0).0, JobOutcome::Success);
    assert_eq!(compute_outcome(1, 1).0, JobOutcome::Success);
    assert_eq!(compute_outcome(0, 1).0, JobOutcome::Failure);
    assert_eq!(compute_outcome(2, 3).1, "Base failures: 2, Final failures: 3");
}

#[test]
fn critiques_join_under_role_headers() {
    let gpt = "g".to_string();
    let gem = "m".to_string();
    assert_eq!(
        join_critiques(Some(&gpt), Some(&gem)),
        "### GPT Critique\n\ng\n\n### Gemini Critique\n\nm"
    );
    assert_eq!(join_critiques(Some(&gpt), None), "### GPT Critique\n\ng");
    assert_eq!(join_critiques(None, None), "");
}

#[test]
fn cancellation_after_context_still_finishes_once() {
    let mut inputs = review_inputs();
    inputs.cancel = CancelPoint::AfterContext;
    let trace = run_events(&inputs);
    assert!(trace.worktree_requested);
    let finishes = trace
        .events
        .iter()
        .filter(|e| matches!(e, CouncilEvent::JobFinished { .. }))
        .count();
    assert_eq!(finishes, 1);
    match trace.events.last().unwrap() {
        CouncilEvent::JobFinished { outcome, summary_line } => {
            assert_eq!(*outcome, JobOutcome::Cancelled);
            assert_eq!(summary_line, "Job cancelled by user.");
        }
        _ => panic!("stream must end with JobFinished"),
    }
}

#[test]
fn apply_failure_persists_diagnostics_and_fails() {
    let mut inputs = review_inputs();
    inputs.mode = CouncilMode::Fix;
    inputs.apply_ok = false;
    inputs.apply_error = "conflict".to_string();
    inputs.apply_stdout = "out".to_string();
    inputs.apply_stderr = "err".to_string();
    let trace = run_events(&inputs);
    match trace.events.last().unwrap() {
        CouncilEvent::JobFinished { outcome, summary_line } => {
            assert_eq!(*outcome, JobOutcome::Failure);
            assert_eq!(summary_line, "Patch application failed");
        }
        _ => panic!("stream must end with JobFinished"),
    }
    assert!(trace
        .artifacts
        .iter()
        .any(|a| a.0 == "apply_stdout.txt" && a.1 == "out"));
    assert!(trace
        .artifacts
        .iter()
        .any(|a| a.0 == "apply_stderr.txt" && a.1 == "err"));
    assert!(!trace.artifacts.iter().any(|a| a.0 == "verify_final.json"));
}

#[test]
fn missing_markers_fail_a_v2_fix() {
    let mut inputs = review_inputs();
    inputs.mode = CouncilMode::Fix;
    inputs.prompt_version = "v2".to_string();
    inputs.chair = Ok("<plan>do it</plan>".to_string());
    inputs.implementer = Ok("no patch here".to_string());
    let trace = run_events(&inputs);
    match trace.events.last().unwrap() {
        CouncilEvent::JobFinished { outcome, summary_line } => {
            assert_eq!(*outcome, JobOutcome::Failure);
            assert_eq!(summary_line, "Patch validation failed");
        }
        _ => panic!("stream must end with JobFinished"),
    }
}

#[test]
fn one_failed_critic_is_tolerated() {
    let mut inputs = review_inputs();
    inputs.critic_gpt = None;
    let trace = run_events(&inputs);
    match trace.events.last().unwrap() {
        CouncilEvent::JobFinished { outcome, summary_line } => {
            assert_eq!(*outcome, JobOutcome::Success);
            assert_eq!(summary_line, "Critique complete.");
        }
        _ => panic!("stream must end with JobFinished"),
    }
    assert!(!trace.artifacts.iter().any(|a| a.0 == "critique_gpt.md"));
    assert!(trace.artifacts.iter().any(|a| a.0 == "critique_gemini.md"));
    assert!(trace.events.iter().any(|e| matches!(
        e,
        CouncilEvent::Warning { message } if message == "GPT critic did not respond."
    )));
    assert!(trace.events.iter().any(|e| matches!(
        e,
        CouncilEvent::PhaseNote { phase, message }
            if phase == "Criticism" && message == "Gemini critique received."
    )));
}


#[test]
fn worktree_failure_is_an_internal_error() {
    let mut inputs = review_inputs();
    inputs.worktree = Err("git worktree add failed".to_string());
    let trace = run_events(&inputs);
    assert!(trace.worktree_requested);
    assert!(trace.events.iter().any(|e| matches!(
        e,
        CouncilEvent::Error { phase, message }
            if phase == "Job Execution" && message == "git worktree add failed"
    )));
    match trace.events.last().unwrap() {
        CouncilEvent::JobFinished { outcome, summary_line } => {
            assert_eq!(*outcome, JobOutcome::Failure);
            assert_eq!(summary_line, "Internal Error: git worktree add failed");
        }
        _ => panic!("stream must end with JobFinished"),
    }
}
