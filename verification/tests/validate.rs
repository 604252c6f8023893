use plexi::validate::{exit_code, field_findings, parse_manifest_fields, report_lines};

#[test]
fn complete_manifest_passes() {
    let f = parse_manifest_fields(
        "[app]\nid = \"demo\"\nname = \"Demo\"\nversion = \"1.0\"\nentry = \"main.py\"\ndescription = \"d\"\n",
    )
    .unwrap();
    let (errors, warnings) = field_findings(&f);
    assert!(errors.is_empty() && warnings.is_empty());
    assert_eq!(report_lines("demo", &errors, &warnings), vec!["✓ demo — all checks passed"]);
    assert_eq!(exit_code(&errors), 0);
}

#[test]
fn missing_fields_are_reported_in_order() {
    let f = parse_manifest_fields("[app]\nid = \"x\"\nname = \"\"\n").unwrap();
    let (errors, warnings) = field_findings(&f);
    assert_eq!(
        errors,
        vec![
            "  [app].name is missing or empty",
            "  [app].version is missing or empty",
            "  [app].entry is missing or empty",
        ]
    );
    assert_eq!(warnings, vec!["  [app].description is missing (recommended)"]);
    let lines = report_lines("x", &errors, &warnings);
    assert_eq!(lines[0], "✗ x — 3 error(s):");
    assert_eq!(lines[4], "⚠ x — 1 warning(s):");
    assert_eq!(lines.len(), 6);
    assert_eq!(exit_code(&errors), 1);
}

#[test]
fn unparseable_manifest_is_an_error() {
    assert!(parse_manifest_fields("not = [valid").is_err());
}

#[test]
fn package_reports_list_what_the_package_holds() {
    let lines = plexi::validate::package_lines(
        "notes",
        "Notes",
        "1.0.0",
        "wasm",
        "app.wasm",
        &vec!["net".to_string(), "fs.read".to_string()],
        3,
        2048,
    );
    assert_eq!(
        lines,
        vec![
            "✓ notes — package valid",
            "  name:         Notes",
            "  version:      1.0.0",
            "  runtime:      wasm",
            "  entry:        app.wasm",
            "  capabilities: net, fs.read",
            "  files:        3 (2048 bytes)",
        ]
    );
    let none = plexi::validate::package_lines("a", "A", "1", "process", "run.sh", &vec![], 1, 10);
    assert_eq!(none[5], "  capabilities: (none)");
    assert_eq!(
        plexi::validate::package_failure_lines("/x.plexipkg", "bad manifest"),
        vec!["✗ /x.plexipkg — package validation failed:", "  bad manifest"]
    );
}

#[test]
fn validate_refuses_missing_paths_and_stray_files() {
    use_target("nope", false, false, false, false, Some("validate: path does not exist: nope"));
    use_target("a.txt", true, true, false, false, Some("validate: path is not a directory or .plexipkg file: a.txt"));
    use_target("fifo", true, false, false, false, Some("validate: path is not a directory: fifo"));
    assert!(matches!(
        plexi::validate::validate_target("a.plexipkg", true, true, true, false, "plexipkg"),
        plexi::validate::ValidateTarget::Package
    ));
    assert!(matches!(
        plexi::validate::validate_target("app", true, false, false, true, "plexipkg"),
        plexi::validate::ValidateTarget::AppDir
    ));
}

fn use_target(p: &str, exists: bool, file: bool, pkg: bool, dir: bool, want: Option<&str>) {
    match plexi::validate::validate_target(p, exists, file, pkg, dir, "plexipkg") {
        plexi::validate::ValidateTarget::Refused(m) => assert_eq!(Some(m.as_str()), want),
        _ => assert!(want.is_none()),
    }
}

#[test]
fn entry_findings_check_the_file_and_python_syntax() {
    use_entry("main.py", "/a/main.py", false, plexi::validate::PyCheck::Passed, vec!["  entry file not found: /a/main.py"], vec![]);
    use_entry("main.py", "/a/main.py", true, plexi::validate::PyCheck::Passed, vec![], vec![]);
    use_entry(
        "main.py",
        "/a/main.py",
        true,
        plexi::validate::PyCheck::Failed("  SyntaxError: invalid syntax\n".to_string()),
        vec!["  Python syntax error in main.py: SyntaxError: invalid syntax"],
        vec![],
    );
    use_entry(
        "main.py",
        "/a/main.py",
        true,
        plexi::validate::PyCheck::Unavailable("No such file or directory (os error 2)".to_string()),
        vec![],
        vec!["  python3 not found — skipping syntax check: No such file or directory (os error 2)"],
    );
    use_entry("app.wasm", "/a/app.wasm", true, plexi::validate::PyCheck::Passed, vec![], vec![]);
    use_entry("", "/a", false, plexi::validate::PyCheck::Passed, vec![], vec![]);
}

fn use_entry(entry: &str, path: &str, exists: bool, check: plexi::validate::PyCheck, errors: Vec<&str>, warnings: Vec<&str>) {
    let (e, w) = plexi::validate::entry_findings(entry, path, exists, &check);
    assert_eq!(e, errors.into_iter().map(String::from).collect::<Vec<_>>());
    assert_eq!(w, warnings.into_iter().map(String::from).collect::<Vec<_>>());
}

#[test]
fn unknown_capabilities_fail_validation() {
    let f = parse_manifest_fields(
        "[app]\nid = \"x\"\n[app.capabilities]\ncapabilities = [\"network\", \"teleport\", 3]\n",
    )
    .unwrap();
    let valid = vec!["network".to_string(), "files".to_string()];
    assert_eq!(
        plexi::validate::capability_errors(&f.capabilities, &valid),
        vec!["  unknown capability: \"teleport\" \u{2014} valid capabilities: network, files".to_string()]
    );
    let none = parse_manifest_fields("[app]\nid = \"x\"\n").unwrap();
    assert!(plexi::validate::capability_errors(&none.capabilities, &valid).is_empty());
}
