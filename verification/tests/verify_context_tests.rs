use council::context::extract_imports;
use council::context::file_stem_of;
use council::context::file_to_module;
use council::context::is_context_extension;
use council::context::module_candidate_paths;
use council::context::resolve_module;
use council::context::snippets_for_module;
use council::context::test_candidates;
use council::context::ContextBuilder;
use council::types::ContextBundle;
use council::types::FileSnapshot;
use council::verify::count_failures;
use council::verify::find_nearest_cargo_toml;
use council::verify::Verifier;
use council::verify::VerifyResult;

#[test]
fn native_project_runs_check_then_test() {
    let manifest = "/wt/Cargo.toml".to_string();
    let plan = Verifier::command_plan(Some(&manifest));
    assert_eq!(plan.len(), 2);
    assert_eq!(plan[0].display(), "cargo check --offline --manifest-path /wt/Cargo.toml");
    assert_eq!(plan[1].display(), "cargo test --offline --manifest-path /wt/Cargo.toml");
}

#[test]
fn interpreted_project_runs_the_defaults() {
    let plan = Verifier::command_plan(None);
    assert_eq!(plan.len(), 3);
    assert_eq!(plan[0].display(), "ruff format .");
    assert_eq!(plan[1].display(), "ruff check .");
    assert_eq!(plan[2].display(), "pytest -q");
}

#[test]
fn nearest_manifest_is_found_walking_up() {
    let existing = vec!["/wt/Cargo.toml".to_string()];
    let found = find_nearest_cargo_toml("/wt", "/wt/src/a.rs", false, &existing);
    assert_eq!(found, Some("/wt/Cargo.toml".to_string()));

    let nested = vec!["/wt/Cargo.toml".to_string(), "/wt/sub/Cargo.toml".to_string()];
    let found = find_nearest_cargo_toml("/wt", "/wt/sub/src/a.rs", false, &nested);
    assert_eq!(found, Some("/wt/sub/Cargo.toml".to_string()));

    let none: Vec<String> = Vec::new();
    assert_eq!(find_nearest_cargo_toml("/wt", "/wt/src/a.rs", false, &none), None);
}

#[test]
fn failure_count_counts_failures() {
    let results = vec![
        VerifyResult {
            command: "a".to_string(),
            success: true,
            stdout: String::new(),
            stderr: String::new(),
        },
        VerifyResult {
            command: "b".to_string(),
            success: false,
            stdout: String::new(),
            stderr: String::new(),
        },
        VerifyResult {
            command: "c".to_string(),
            success: false,
            stdout: String::new(),
            stderr: String::new(),
        },
    ];
    assert_eq!(count_failures(&results), 2);
    assert_eq!(count_failures(&Vec::new()), 0);
}

#[test]
fn module_name_comes_from_the_relative_path() {
    assert_eq!(
        file_to_module("/repo", "/repo/pkg/mod/util.py"),
        Some("pkg.mod.util".to_string())
    );
    assert_eq!(file_to_module("/repo", "/repo/app.py"), Some("app".to_string()));
    assert_eq!(file_to_module("/repo", "/other/app.py"), None);
}

#[test]
fn file_stems_drop_one_extension() {
    assert_eq!(file_stem_of("a.py"), Some("a".to_string()));
    assert_eq!(file_stem_of("a.test.py"), Some("a.test".to_string()));
    assert_eq!(file_stem_of(".hidden"), Some(".hidden".to_string()));
    assert_eq!(file_stem_of("noext"), Some("noext".to_string()));
    assert_eq!(file_stem_of(""), None);
}

#[test]
fn imports_are_scanned_line_by_line() {
    let content = "import os\nfrom pkg.mod import thing\nx = 1\nimports = 2\nfrom  spaced import y\n";
    let imports = extract_imports(content);
    assert_eq!(
        imports,
        vec!["os".to_string(), "pkg.mod".to_string(), "spaced".to_string()]
    );
}

#[test]
fn modules_resolve_to_file_or_package() {
    let (py, init) = module_candidate_paths("/repo", "pkg.mod");
    assert_eq!(py, "/repo/pkg/mod.py");
    assert_eq!(init, "/repo/pkg/mod/__init__.py");
    assert_eq!(
        resolve_module("/repo", "pkg.mod", true, false),
        Some("/repo/pkg/mod.py".to_string())
    );
    assert_eq!(
        resolve_module("/repo", "pkg.mod", false, true),
        Some("/repo/pkg/mod/__init__.py".to_string())
    );
    assert_eq!(resolve_module("/repo", "pkg.mod", false, false), None);
}

#[test]
fn snippets_stop_at_three_hits() {
    let content = "use util\nskip\n  util.go()\nutil again\nutil once more\n";
    let snippets = snippets_for_module(content, "util");
    assert_eq!(snippets.len(), 3);
    assert_eq!(snippets[0].line_start, 1);
    assert_eq!(snippets[0].content, "use util");
    assert_eq!(snippets[1].line_start, 3);
    assert_eq!(snippets[1].content, "util.go()");
    assert_eq!(snippets[2].line_start, 4);
    assert_eq!(snippets[2].content, "util again");
}

#[test]
fn test_file_heuristics_cover_both_shapes() {
    let candidates = test_candidates("app");
    assert_eq!(
        candidates,
        vec!["test_app.py".to_string(), "app_test.py".to_string(), "test_app.rs".to_string()]
    );
}

#[test]
fn reverse_dep_extensions_are_limited() {
    assert!(is_context_extension("py"));
    assert!(is_context_extension("rs"));
    assert!(is_context_extension("ts"));
    assert!(is_context_extension("js"));
    assert!(!is_context_extension("md"));
    assert!(!is_context_extension(""));
}

#[test]
fn related_files_never_duplicate_targets() {
    let mut bundle = ContextBundle::new();
    bundle.push_target(FileSnapshot {
        path: "a.py".to_string(),
        content: "x".to_string(),
        is_truncated: false,
    });
    let dup = bundle.push_related_if_new(FileSnapshot {
        path: "a.py".to_string(),
        content: "x".to_string(),
        is_truncated: false,
    });
    assert!(!dup);
    let fresh = bundle.push_related_if_new(FileSnapshot {
        path: "b.py".to_string(),
        content: "y".to_string(),
        is_truncated: false,
    });
    assert!(fresh);
    let again = bundle.push_related_if_new(FileSnapshot {
        path: "b.py".to_string(),
        content: "y".to_string(),
        is_truncated: false,
    });
    assert!(!again);
    assert_eq!(bundle.related_files.len(), 1);
    let builder = ContextBuilder::new("/repo".to_string());
    assert_eq!(builder.repo_root, "/repo");
}
