use council::parsing::attrs_get;
use council::parsing::extract_error;
use council::parsing::extract_findings;
use council::parsing::extract_patch;
use council::parsing::extract_plan;
use council::parsing::looks_like_apply_patch;
use council::parsing::parse_attrs;
use council::parsing::unwrap_cdata;
use council::parsing::validate_patch_path;
use council::parsing::validate_patch_paths;
use council::parsing::Severity;

#[test]
fn test_extract_findings_from_messy_input() {
    let input = r#"
        Here is my critique:
        <finding severity="P0">
            <issue>SQL Injection</issue>
        </finding>
        Some filler text.
        <finding severity='P2'>
            <issue>Spelling</issue>
        </finding>
        "#;

    let findings = extract_findings(input);
    assert_eq!(findings.len(), 2);
    assert_eq!(findings[0].severity, Severity::P0);
    assert!(findings[0].body.contains("SQL Injection"));
    assert_eq!(findings[1].severity, Severity::P2);
    assert!(findings[1].body.contains("Spelling"));
}

#[test]
fn test_extract_patch_with_cdata() {
    let input = r#"
        Sure, here is the patch:
        <patch>
        <![CDATA[
        diff --git a/file.rs b/file.rs
        index 123..456 100644
        --- a/file.rs
        +++ b/file.rs
        @@ -1,1 +1,1 @@
        -old
        +new
        ]]>
        </patch>
        "#;

    let patch = extract_patch(input).expect("Should extract patch");
    assert!(patch.contains("-old"));
    assert!(patch.contains("+new"));
    assert!(!patch.contains("CDATA"));
}

#[test]
fn test_extract_plan() {
    let input = r#"
        <plan>
        1. Do this.
        2. Do that.
        </plan>
        "#;
    let plan = extract_plan(input).expect("Should extract plan");
    assert_eq!(plan, "1. Do this.\n        2. Do that.");
}

#[test]
fn test_parse_attrs() {
    let tag = r#"<finding severity="P0" type='bug' checked>"#;
    let attrs = parse_attrs(tag);
    assert_eq!(attrs_get(&attrs, "severity").map(|s| s.as_str()), Some("P0"));
    assert_eq!(attrs_get(&attrs, "type").map(|s| s.as_str()), Some("bug"));
    assert_eq!(attrs_get(&attrs, "checked").map(|s| s.as_str()), Some(""));
}

#[test]
fn test_looks_like_apply_patch() {
    let good = "*** Begin Patch\n*** Add File: foo.rs\n*** End Patch";
    assert!(looks_like_apply_patch(good));

    let bad_markers = "Here is the patch:\n*** Add File: foo.rs";
    assert!(!looks_like_apply_patch(bad_markers));

    let bad_abs = "*** Begin Patch\n*** Add File: /etc/passwd\n*** End Patch";
    assert!(!looks_like_apply_patch(bad_abs));
}

#[test]
fn test_validate_patch_paths() {
    let safe = "*** Add File: src/main.rs\n*** Update File: config/settings.toml\n*** Move to: src/new.rs";
    assert!(validate_patch_paths(safe).is_ok());

    let traversal = "*** Add File: ../evil.txt";
    assert!(validate_patch_paths(traversal).is_err());

    let traversal_deep = "*** Update File: src/../../etc/passwd";
    assert!(validate_patch_paths(traversal_deep).is_err());

    let traversal_move = "*** Move to: ../evil.txt";
    assert!(validate_patch_paths(traversal_move).is_err());

    let abs_unix = "*** Delete File: /usr/bin/oops";
    assert!(validate_patch_paths(abs_unix).is_err());

    let abs_win = "*** Add File: C:\\Windows\\System32\\oops.dll";
    assert!(validate_patch_paths(abs_win).is_err());
}

#[test]
fn findings_with_short_severity_bodies() {
    let input = "prose <finding severity=\"P0\"><issue>SQL</issue></finding> more prose \
                 <finding severity='P2'><issue>typo</issue></finding> end";
    let findings = extract_findings(input);
    assert_eq!(findings.len(), 2);
    assert_eq!(findings[0].severity, Severity::P0);
    assert!(findings[0].body.contains("SQL"));
    assert_eq!(findings[1].severity, Severity::P2);
    assert!(findings[1].body.contains("typo"));
}

#[test]
fn cdata_patch_passes_both_gates() {
    let input = "<patch><![CDATA[\n*** Begin Patch\n*** Add File: a.py\n+x\n*** End Patch\n]]></patch>";
    let patch = extract_patch(input).expect("patch should extract");
    assert!(patch.contains("*** Begin Patch"));
    assert!(!patch.contains("CDATA"));
    assert!(looks_like_apply_patch(&patch));
    assert!(validate_patch_paths(&patch).is_ok());
}

#[test]
fn unsafe_header_paths_are_rejected() {
    assert!(validate_patch_paths("*** Add File: /etc/passwd").is_err());
    assert!(validate_patch_paths("*** Move to: ../evil").is_err());
    assert!(validate_patch_paths("*** Add File: C:\\X\\y").is_err());
}

#[test]
fn path_error_reasons_are_reported() {
    assert_eq!(
        validate_patch_path(""),
        Err("Found empty file path in patch".to_string())
    );
    assert_eq!(
        validate_patch_path("/abs"),
        Err("Absolute path detected: /abs".to_string())
    );
    assert_eq!(
        validate_patch_path("C:thing"),
        Err("Absolute path detected (Windows drive): C:thing".to_string())
    );
    assert_eq!(
        validate_patch_path("a/../b"),
        Err("Path traversal detected ('..'): a/../b".to_string())
    );
    assert!(validate_patch_path("a/b.rs").is_ok());
    assert!(validate_patch_path("a..b/c").is_ok());
}

#[test]
fn findings_reparse_yields_nothing_new() {
    let input = "<finding severity=\"P1\">look at <code>this</code> here</finding>";
    let findings = extract_findings(input);
    assert_eq!(findings.len(), 1);
    let again = extract_findings(&findings[0].body);
    assert!(again.is_empty());
}

#[test]
fn unwrap_cdata_is_idempotent_on_unwrapped_text() {
    let body = "*** Begin Patch\n*** End Patch".to_string();
    let once = unwrap_cdata(body.clone());
    assert_eq!(once, body);
    let twice = unwrap_cdata(once.clone());
    assert_eq!(twice, once);
}

#[test]
fn severity_labels_parse_case_insensitively() {
    assert_eq!(Severity::from_str(" p0 "), Severity::P0);
    assert_eq!(Severity::from_str("P1"), Severity::P1);
    assert_eq!(Severity::from_str("p2"), Severity::P2);
    assert_eq!(Severity::from_str("P3"), Severity::P3);
    assert_eq!(Severity::from_str("blocker"), Severity::Unknown);
    assert_eq!(Severity::from_str(""), Severity::Unknown);
}

#[test]
fn extract_error_takes_first_block() {
    let input = "text <error> no plan possible </error> tail";
    assert_eq!(extract_error(input), Some("no plan possible".to_string()));
    assert_eq!(extract_error("nothing here"), None);
}

#[test]
fn unclosed_tags_yield_no_findings() {
    assert!(extract_findings("<finding severity=\"P0\"> no close").is_empty());
    assert!(extract_findings("<finding no-gt").is_empty());
    assert!(extract_findings("no opening </finding>").is_empty());
}

#[test]
fn unquoted_and_repeated_attributes_parse() {
    let attrs = parse_attrs("<finding severity=P1 severity=P2 flag>");
    assert_eq!(attrs_get(&attrs, "severity").map(|s| s.as_str()), Some("P2"));
    assert_eq!(attrs_get(&attrs, "flag").map(|s| s.as_str()), Some(""));
    assert_eq!(attrs_get(&attrs, "missing"), None);
}

#[test]
fn backslash_headers_fail_the_shape_check() {
    let bad = "*** Begin Patch\n*** Update File: \\share\\x\n*** End Patch";
    assert!(!looks_like_apply_patch(bad));
    let no_ops = "*** Begin Patch\n*** End Patch";
    assert!(!looks_like_apply_patch(no_ops));
}

#[test]
fn drive_letter_headers_fail_the_shape_check() {
    let drive = "*** Begin Patch\n*** Add File: C:\\evil\n*** End Patch";
    assert!(!looks_like_apply_patch(drive));
    let lower = "*** Begin Patch\n*** Update File: d:thing\n*** End Patch";
    assert!(!looks_like_apply_patch(lower));
    let colon_only = "*** Begin Patch\n*** Add File: sr:c/a.py\n*** End Patch";
    assert!(looks_like_apply_patch(colon_only));
}
