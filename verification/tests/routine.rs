use plexi::routine::{
    add_routine_to_file, document_text, new_document, read_doc, remove_routine_from_file,
    routine_line, routine_list_lines, routine_run_plan, set_routine_enabled_in_file, FileRead,
    RoutineEntry, RoutineFileError, RoutineRun,
};

const PATH: &str = "/w/.plexi/routines.toml";

fn add(read: FileRead, name: &str, command: &str, schedule: &str, context: Option<&str>, ephemeral: bool) -> Result<String, RoutineFileError> {
    add_routine_to_file(PATH, read, name, command, schedule, true, context, ephemeral)
}

fn routines(text: &str) -> Vec<toml::Value> {
    let v: toml::Value = toml::from_str(text).expect("parses");
    v.get("routine").and_then(|r| r.as_array()).cloned().unwrap_or_default()
}

#[test]
fn add_writes_a_file_the_scheduler_parses() {
    let text = add(FileRead::NotFound, "sync", "./sync.sh", "daily at 09:00", Some("work"), true).expect("add succeeds");
    let rs = routines(&text);
    assert_eq!(rs.len(), 1);
    let r = &rs[0];
    assert_eq!(r.get("name").and_then(|v| v.as_str()), Some("sync"));
    assert_eq!(r.get("command").and_then(|v| v.as_str()), Some("./sync.sh"));
    assert_eq!(r.get("schedule").and_then(|v| v.as_str()), Some("daily at 09:00"));
    assert_eq!(r.get("context").and_then(|v| v.as_str()), Some("work"));
    assert_eq!(r.get("ephemeral").and_then(|v| v.as_bool()), Some(true));
    assert!(r.get("enabled").is_none(), "enabled defaults to true");
}

#[test]
fn add_rejects_duplicate_name() {
    let text = add(FileRead::NotFound, "sync", "true", "every 2 hours", None, false).expect("first add succeeds");
    let err = add(FileRead::Text(text), "sync", "false", "every 1 hour", None, false)
        .expect_err("duplicate must be rejected");
    assert!(matches!(err, RoutineFileError::DuplicateName(_)), "{err:?}");
    assert!(err.message().contains("sync"), "{err:?}");
}

#[test]
fn add_rejects_unparseable_schedule() {
    let err = add_routine_to_file(PATH, FileRead::NotFound, "sync", "true", "every fortnight", false, None, false)
        .expect_err("bad schedule must be rejected");
    assert!(matches!(err, RoutineFileError::BadSchedule(_)), "{err:?}");
    assert_eq!(err.message(), "schedule 'every fortnight' is not a recognized format");
}

#[test]
fn comments_survive_disable_round_trip() {
    let original = "# my routines — do not touch\n\n[[routine]]\n# fires every morning\nname = \"sync\" # the important one\ncommand = \"./sync.sh\"\nschedule = \"daily at 09:00\"\n";

    let disabled = set_routine_enabled_in_file(PATH, FileRead::Text(original.to_string()), "sync", false)
        .expect("disable succeeds");
    assert_eq!(disabled, format!("{original}enabled = false\n"), "disable must only add the enabled key");

    let enabled = set_routine_enabled_in_file(PATH, FileRead::Text(disabled), "sync", true).expect("enable succeeds");
    assert_eq!(enabled, original, "enable must restore the file byte-for-byte");
}

#[test]
fn remove_unknown_name_lists_available() {
    let text = add(FileRead::NotFound, "sync", "true", "every 2 hours", None, false).expect("add succeeds");
    let err = remove_routine_from_file(PATH, FileRead::Text(text), "ghost").expect_err("unknown name errors");
    match &err {
        RoutineFileError::UnknownName { available, .. } => {
            assert_eq!(available, &vec!["sync".to_string()]);
        }
        other => panic!("expected UnknownName, got {other:?}"),
    }
    assert!(err.message().contains("sync"), "{err:?}");
}

#[test]
fn remove_deletes_only_the_named_entry() {
    let text = add(FileRead::NotFound, "a", "true", "every 2 hours", None, false).expect("add a");
    let text = add(FileRead::Text(text), "b", "true", "every 1 hour", None, false).expect("add b");
    let text = remove_routine_from_file(PATH, FileRead::Text(text), "a").expect("remove a");
    let rs = routines(&text);
    assert_eq!(rs.len(), 1);
    assert_eq!(rs[0].get("name").and_then(|v| v.as_str()), Some("b"));
}

#[test]
fn routine_file_errors_name_the_file() {
    assert_eq!(
        remove_routine_from_file(PATH, FileRead::NotFound, "x"),
        Err(RoutineFileError::Io(format!("no {PATH} found — nothing to modify. Run `plexi routine add` first.")))
    );
    assert_eq!(
        set_routine_enabled_in_file(PATH, FileRead::Failed("denied".into()), "x", true),
        Err(RoutineFileError::Io(format!("could not read {PATH}: denied")))
    );
    match remove_routine_from_file(PATH, FileRead::Text("routine = 5\n".into()), "x") {
        Err(RoutineFileError::Io(m)) => assert_eq!(m, format!("'routine' in {PATH} is not an array of tables ([[routine]])")),
        other => panic!("unexpected {other:?}"),
    }
    match remove_routine_from_file(PATH, FileRead::Text("[[routine\n".into()), "x") {
        Err(RoutineFileError::Io(m)) => assert!(m.starts_with(&format!("failed to parse {PATH}: ")), "{m}"),
        other => panic!("unexpected {other:?}"),
    }
    assert_eq!(
        RoutineFileError::UnknownName { name: "x".into(), available: vec![] }.message(),
        "routine 'x' not found (no routines defined)"
    );
    assert_eq!(
        RoutineFileError::UnknownName { name: "x".into(), available: vec!["a".into(), "b".into()] }.message(),
        "routine 'x' not found. Available routines: a, b"
    );
}

#[test]
fn empty_context_is_not_written() {
    let text = add(FileRead::NotFound, "a", "true", "every 2 hours", Some(""), false).expect("add a");
    assert!(routines(&text)[0].get("context").is_none());
    assert!(routines(&text)[0].get("ephemeral").is_none(), "ephemeral is written only when set");
    assert_eq!(routines(&text)[0].get("command").and_then(|v| v.as_str()), Some("true"));
    assert!(read_doc(PATH, FileRead::NotFound, true).is_ok());
    assert_eq!(document_text(&new_document()), "");
}

fn entry(name: &str, context: &str, ephemeral: bool, enabled: bool) -> RoutineEntry {
    RoutineEntry {
        name: name.to_string(),
        command: format!("./scripts/{name}.sh"),
        schedule: "weekdays at 9am".to_string(),
        context: context.to_string(),
        ephemeral,
        enabled,
    }
}

#[test]
fn routine_lines_pad_name_and_schedule() {
    let line = routine_line(&entry("morning-sync", "work", false, true), "Mon 09:00");
    assert_eq!(
        line,
        format!("  {:20} {:<30} next: {}  context: {}{}{}", "morning-sync", "weekdays at 9am", "Mon 09:00", "work", "", "")
    );
    let line = routine_line(&entry("n", "", true, false), "invalid schedule");
    assert_eq!(
        line,
        "  n                    weekdays at 9am                next: invalid schedule  context: (active context) [ephemeral] [disabled]"
    );
}

#[test]
fn routine_list_has_a_heading_or_a_note() {
    let rs = vec![entry("a", "", false, true), entry("b", "ops", false, true)];
    let nexts = vec!["soon".to_string(), "later".to_string()];
    let lines = routine_list_lines(&rs, &nexts, ".plexi/routines.toml");
    assert_eq!(lines.len(), 3);
    assert_eq!(lines[0], "Routines:");
    assert_eq!(lines[2], routine_line(&rs[1], "later"));
    assert_eq!(
        routine_list_lines(&Vec::new(), &Vec::new(), ".plexi/routines.toml"),
        vec!["No routines defined in .plexi/routines.toml.".to_string()]
    );
}

#[test]
fn routine_run_dispatches_the_first_match_in_its_context() {
    let rs = vec![entry("a", "", true, true), entry("b", "ops", false, true), entry("b", "", false, true)];
    match routine_run_plan(&rs, "b", false, "routines.toml") {
        RoutineRun::Dispatch { command, context, ephemeral } => {
            assert_eq!(command, "./scripts/b.sh");
            assert_eq!(context, Some("ops".to_string()));
            assert!(!ephemeral);
        }
        _ => panic!("expected a dispatch"),
    }
    match routine_run_plan(&rs, "a", false, "routines.toml") {
        RoutineRun::Dispatch { context, ephemeral, .. } => {
            assert_eq!(context, None);
            assert!(ephemeral);
        }
        _ => panic!("expected a dispatch"),
    }
}

#[test]
fn routine_run_refuses_a_disabled_routine_without_force() {
    let rs = vec![entry("nightly", "", false, false)];
    match routine_run_plan(&rs, "nightly", false, "routines.toml") {
        RoutineRun::Disabled(m) => assert_eq!(
            m,
            "routine 'nightly' is disabled — run `plexi routine enable nightly` first, or pass --force to fire it anyway"
        ),
        _ => panic!("expected a refusal"),
    }
    assert!(matches!(routine_run_plan(&rs, "nightly", true, "routines.toml"), RoutineRun::Dispatch { .. }));
}

#[test]
fn routine_run_of_an_unknown_name_lists_the_available_ones() {
    let rs = vec![entry("a", "", false, true), entry("b", "", false, true)];
    match routine_run_plan(&rs, "c", false, ".plexi/routines.toml") {
        RoutineRun::NotFound(lines) => assert_eq!(
            lines,
            vec![
                "routine 'c' not found in .plexi/routines.toml".to_string(),
                "Available routines: a, b".to_string(),
            ]
        ),
        _ => panic!("expected not found"),
    }
    match routine_run_plan(&Vec::new(), "c", false, "r.toml") {
        RoutineRun::NotFound(lines) => assert_eq!(lines, vec!["routine 'c' not found in r.toml".to_string()]),
        _ => panic!("expected not found"),
    }
}
