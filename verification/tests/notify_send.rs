use plexi::notify::{notify_id, notify_payload, scope_error, wait_exit_code, NotifyScope, WaitOutcome};

#[test]
fn message_payload_has_sorted_members() {
    let p = notify_payload("cli:0:u", "info", "T", "B", &[], 0, None, None, None, None);
    assert_eq!(
        p,
        r#"{"body":"B","kind":"message","level":"info","notify_id":"cli:0:u","options":[],"priority":50,"title":"T","type":"notify"}"#
    );
}

#[test]
fn choice_payload_with_everything() {
    let choices = vec![
        ("y".to_string(), "Yes".to_string(), Some("open".to_string())),
        ("n".to_string(), "No \"way\"".to_string(), None),
    ];
    let p = notify_payload(
        "cli:7:u",
        "warn",
        "Title",
        "Body",
        &choices,
        30,
        Some("/tmp/r.txt"),
        Some(NotifyScope::Context),
        Some(3),
        Some(7),
    );
    assert_eq!(
        p,
        r#"{"body":"Body","kind":"choice","level":"warn","notify_id":"cli:7:u","options":[{"host_action":"open","label":"Yes","shortcut":"y","value":"y"},{"label":"No \"way\"","shortcut":"n","value":"n"}],"priority":50,"response_file":"/tmp/r.txt","scope":"context","source_context_id":3,"source_pane_id":7,"timeout_secs":30,"title":"Title","type":"notify"}"#
    );
}

#[test]
fn scope_needs_context() {
    assert!(scope_error(Some(NotifyScope::Window), None).unwrap().starts_with("error: --scope window requires"));
    assert!(scope_error(Some(NotifyScope::Context), None).unwrap().contains("--scope context"));
    assert_eq!(scope_error(Some(NotifyScope::Global), None), None);
    assert_eq!(scope_error(Some(NotifyScope::Window), Some(1)), None);
    assert_eq!(scope_error(None, None), None);
}

#[test]
fn ids_and_exit_codes() {
    assert_eq!(notify_id(None, "abc"), "cli:0:abc");
    assert_eq!(notify_id(Some(12), "abc"), "cli:12:abc");
    assert_eq!(wait_exit_code(&WaitOutcome::Answered("y".into())), 0);
    assert_eq!(wait_exit_code(&WaitOutcome::TimedOut), 2);
    assert_eq!(wait_exit_code(&WaitOutcome::Failed("x".into())), 1);
}
