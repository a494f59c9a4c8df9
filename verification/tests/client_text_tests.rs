use council::client::assemble_stream_text;
use council::client::provider_kind_for_model;
use council::client::ProviderKind;
use council::client::SimpleAuthProvider;
use council::client::StreamEvent;
use council::cli::CouncilCli;
use council::cli::CouncilCommand;
use council::prompts::system_prompt_chair;
use council::prompts::system_prompt_critic;
use council::prompts::system_prompt_implementer;
use council::runner::build_prompt_context;
use council::text::replace_all;
use council::text::split_lines;
use council::text::trim_str;
use council::text::u64_to_dec;
use council::worktree::head_object_name;
use council::worktree::Snapshot;
use council::worktree::Worktree;

#[test]
fn deltas_accumulate_in_order() {
    let events = vec![
        StreamEvent::OutputTextDelta { text: "Hello".to_string() },
        StreamEvent::Other,
        StreamEvent::OutputTextDelta { text: " world".to_string() },
    ];
    assert_eq!(assemble_stream_text("m", &events), Ok("Hello world".to_string()));
}

#[test]
fn done_message_supplies_text_only_when_nothing_streamed() {
    let fallback = vec![StreamEvent::OutputMessageDone {
        role: "assistant".to_string(),
        texts: vec!["full text".to_string(), "ignored".to_string()],
    }];
    assert_eq!(assemble_stream_text("m", &fallback), Ok("full text".to_string()));

    let already = vec![
        StreamEvent::OutputTextDelta { text: "streamed".to_string() },
        StreamEvent::OutputMessageDone {
            role: "assistant".to_string(),
            texts: vec!["late".to_string()],
        },
    ];
    assert_eq!(assemble_stream_text("m", &already), Ok("streamed".to_string()));

    let wrong_role = vec![StreamEvent::OutputMessageDone {
        role: "user".to_string(),
        texts: vec!["nope".to_string()],
    }];
    assert_eq!(
        assemble_stream_text("gpt-x", &wrong_role),
        Err("No content in response from gpt-x".to_string())
    );
}

#[test]
fn empty_stream_is_an_error_naming_the_model() {
    let events: Vec<StreamEvent> = Vec::new();
    assert_eq!(
        assemble_stream_text("gemini-pro", &events),
        Err("No content in response from gemini-pro".to_string())
    );
}

#[test]
fn models_route_by_name() {
    assert_eq!(provider_kind_for_model("gemini-pro"), ProviderKind::Gemini);
    assert_eq!(provider_kind_for_model("a-gemini-b"), ProviderKind::Gemini);
    assert_eq!(provider_kind_for_model("gpt-x"), ProviderKind::OpenAi);
    let auth = SimpleAuthProvider { api_key: "k".to_string() };
    assert_eq!(auth.bearer_token(), Some("k".to_string()));
}

#[test]
fn prompts_differ_by_version() {
    assert!(system_prompt_chair("v2").contains("<plan>"));
    assert!(system_prompt_chair("v1").contains("step-by-step plan"));
    assert!(system_prompt_critic("v2").contains("<finding"));
    assert!(system_prompt_critic("v1").contains("Be rigorous but constructive."));
    let imp = system_prompt_implementer("v2", "PATCH FORMAT HERE");
    assert!(imp.contains("PATCH FORMAT HERE"));
    assert!(imp.contains("CDATA"));
    let imp1 = system_prompt_implementer("v1", "PATCH FORMAT HERE");
    assert!(imp1.contains("PATCH FORMAT HERE"));
}

#[test]
fn prompt_context_strips_the_worktree_path() {
    let ctx = build_prompt_context("src/a.py", "{\"p\":\"/wt/src/a.py\"}", "/wt", "[]");
    assert_eq!(
        ctx,
        "Target: \"src/a.py\"\n\nContext Bundle:\n{\"p\":\"/src/a.py\"}\n\nBaseline Verification Results:\n[]"
    );
}

#[test]
fn text_helpers_behave() {
    assert_eq!(u64_to_dec(0), "0");
    assert_eq!(u64_to_dec(90210), "90210");
    assert_eq!(trim_str("  x \t"), "x");
    assert_eq!(trim_str("   "), "");
    assert_eq!(split_lines("a\nb\n"), vec!["a".to_string(), "b".to_string(), "".to_string()]);
    assert_eq!(replace_all("a.b.c", ".", "/"), "a/b/c");
}

#[test]
fn command_surface_is_plain_data() {
    let cli = CouncilCli {
        command: CouncilCommand::Apply { run_id: "run-7".to_string(), yes: true },
    };
    match cli.command {
        CouncilCommand::Apply { run_id, yes } => {
            assert_eq!(run_id, "run-7");
            assert!(yes);
        }
        _ => panic!("built an apply command"),
    }
    let wt = Worktree::at("/repo", "run-7");
    assert_eq!(wt.path, "/repo/.council/worktrees/run-7");
    assert_eq!(wt.id, "run-7");
    let snap = Snapshot { path: "/tmp/scratch".to_string() };
    assert_eq!(snap.path, "/tmp/scratch");
    assert_eq!(head_object_name("src/a.py"), "HEAD:src/a.py");
}
