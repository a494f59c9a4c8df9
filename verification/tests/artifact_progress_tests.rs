use council::artifact::bundle_json;
use council::artifact::job_metadata_json;
use council::artifact::json_string;
use council::artifact::parse_verify_results;
use council::artifact::verify_results_json;
use council::cleanup::select_expired_runs;
use council::cleanup::sort_runs_newest_first;
use council::cleanup::worktree_path_for_run;
use council::progress::CouncilProgressState;
use council::progress::PhaseStatus;
use council::types::ContextBundle;
use council::types::CouncilEvent;
use council::types::CouncilMode;
use council::types::FileSnapshot;
use council::types::JobOutcome;
use council::verify::VerifyResult;

fn sample_results() -> Vec<VerifyResult> {
    vec![
        VerifyResult {
            command: "cargo check".to_string(),
            success: true,
            stdout: "ok\n".to_string(),
            stderr: String::new(),
        },
        VerifyResult {
            command: "cargo test".to_string(),
            success: false,
            stdout: "1 failed \"quoted\"".to_string(),
            stderr: "path C:\\x\u{1}".to_string(),
        },
    ]
}

#[test]
fn verify_results_round_trip_preserves_equality() {
    let results = sample_results();
    let text = verify_results_json(&results);
    let parsed = parse_verify_results(&text).expect("own output must parse");
    assert_eq!(parsed.len(), results.len());
    for (p, r) in parsed.iter().zip(results.iter()) {
        assert_eq!(p.command, r.command);
        assert_eq!(p.success, r.success);
        assert_eq!(p.stdout, r.stdout);
        assert_eq!(p.stderr, r.stderr);
    }
    let again = verify_results_json(&parsed);
    assert_eq!(again, text);
}

#[test]
fn empty_result_list_round_trips() {
    let empty: Vec<VerifyResult> = Vec::new();
    let text = verify_results_json(&empty);
    assert_eq!(text, "[]");
    let parsed = parse_verify_results(&text).expect("empty list parses");
    assert!(parsed.is_empty());
}

#[test]
fn foreign_text_is_rejected() {
    assert!(parse_verify_results("").is_none());
    assert!(parse_verify_results("[oops]").is_none());
    assert!(parse_verify_results("[] trailing").is_none());
}

#[test]
fn json_strings_escape_specials() {
    assert_eq!(json_string("plain"), "\"plain\"");
    assert_eq!(json_string("a\"b"), "\"a\\\"b\"");
    assert_eq!(json_string("a\\b"), "\"a\\\\b\"");
    assert_eq!(json_string("a\nb\tc\rd"), "\"a\\nb\\tc\\rd\"");
    assert_eq!(json_string("x\u{1}y"), "\"x\\u0001y\"");
}

#[test]
fn metadata_record_has_every_field() {
    let text = job_metadata_json(
        "run-42",
        CouncilMode::Fix,
        "src/a.py",
        "deadbeef",
        true,
        "v2",
        1700000000,
    );
    assert_eq!(
        text,
        "{\"job_id\":\"run-42\",\"mode\":\"Fix\",\"target\":\"src/a.py\",\
         \"head_sha_at_start\":\"deadbeef\",\"repo_dirty_at_start\":true,\
         \"prompt_version\":\"v2\",\"timestamp\":1700000000}"
    );
}

#[test]
fn bundle_serializes_every_group() {
    let mut bundle = ContextBundle::new();
    bundle.push_target(FileSnapshot {
        path: "a.py".to_string(),
        content: "print(1)".to_string(),
        is_truncated: false,
    });
    let text = bundle_json(&bundle);
    assert!(text.contains("\"target_files\":[{\"path\":\"a.py\""));
    assert!(text.contains("\"related_files\":[]"));
    assert!(text.contains("\"reverse_deps\":{}"));
    assert!(text.contains("\"test_files\":[]"));
    assert!(text.contains("\"truncation_info\":{\"omitted_files\":[],\"reason\":\"\"}"));
}

#[test]
fn review_progress_tracks_the_stream() {
    let mut state = CouncilProgressState::new(CouncilMode::Review);
    assert_eq!(state.phases.len(), 3);
    state.handle_event(&CouncilEvent::PhaseStarted {
        phase: "Isolation".to_string(),
        step_current: 1,
        step_total: 1,
        detail: "prep".to_string(),
    });
    assert_eq!(state.phases[0].status, PhaseStatus::Running);
    state.handle_event(&CouncilEvent::PhaseStarted {
        phase: "Criticism".to_string(),
        step_current: 1,
        step_total: 1,
        detail: "asking".to_string(),
    });
    assert_eq!(state.phases[0].status, PhaseStatus::Done);
    assert_eq!(state.phases[1].status, PhaseStatus::Done);
    assert_eq!(state.phases[2].status, PhaseStatus::Running);
    state.handle_event(&CouncilEvent::PhaseNote {
        phase: "Criticism".to_string(),
        message: "GPT critique received.".to_string(),
    });
    assert_eq!(state.phases[2].notes, vec!["GPT critique received.".to_string()]);
    state.handle_event(&CouncilEvent::JobFinished {
        outcome: JobOutcome::Success,
        summary_line: "Critique complete.".to_string(),
    });
    assert_eq!(state.phases[2].status, PhaseStatus::Done);
    assert_eq!(state.outcome, Some(JobOutcome::Success));
    assert_eq!(state.summary, Some("Critique complete.".to_string()));
}

#[test]
fn errors_fail_their_phase_and_unknown_phases_append() {
    let mut state = CouncilProgressState::new(CouncilMode::Fix);
    assert_eq!(state.phases.len(), 7);
    state.handle_event(&CouncilEvent::Error {
        phase: "Context".to_string(),
        message: "missing".to_string(),
    });
    assert_eq!(state.phases[1].status, PhaseStatus::Failed);
    assert_eq!(state.phases[1].detail, "missing");
    state.handle_event(&CouncilEvent::PhaseStarted {
        phase: "Extra".to_string(),
        step_current: 1,
        step_total: 1,
        detail: String::new(),
    });
    assert_eq!(state.phases.len(), 8);
    assert_eq!(state.phases[7].name, "Extra");
    assert_eq!(state.phases[7].status, PhaseStatus::Running);
    state.handle_event(&CouncilEvent::JobFinished {
        outcome: JobOutcome::Failure,
        summary_line: "boom".to_string(),
    });
    assert_eq!(state.phases[7].status, PhaseStatus::Failed);
}

#[test]
fn cleanup_orders_and_prunes() {
    let mut entries: Vec<(String, u64)> = Vec::new();
    for k in 0..25u64 {
        entries.push((format!("run-{}", k), 1_000_000 + k));
    }
    let now = 1_000_000 + 100;
    let sorted = sort_runs_newest_first(entries);
    assert_eq!(sorted.len(), 25);
    for w in sorted.windows(2) {
        assert!(w[0].1 >= w[1].1);
    }
    let pruned = select_expired_runs(&sorted, now);
    assert_eq!(pruned.len(), 5);
    assert_eq!(pruned[0], "run-4");
    assert_eq!(pruned[4], "run-0");
}

#[test]
fn old_runs_are_pruned_even_when_few() {
    let entries = vec![
        ("run-new".to_string(), 1_000_000u64),
        ("run-old".to_string(), 100u64),
    ];
    let sorted = sort_runs_newest_first(entries);
    let pruned = select_expired_runs(&sorted, 1_000_100);
    assert_eq!(pruned, vec!["run-old".to_string()]);
    assert_eq!(
        worktree_path_for_run("/repo", "run-old"),
        "/repo/.council/worktrees/run-old"
    );
}
