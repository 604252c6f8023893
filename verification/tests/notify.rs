use plexi::notify::{parse_notify_choice, parse_notify_scope, NotifyScope};

#[test]
fn parse_choice_two_segment() {
    let (key, label, action) = parse_notify_choice("open_pr:Open PR").unwrap();
    assert_eq!(key, "open_pr");
    assert_eq!(label, "Open PR");
    assert!(action.is_none());
}

#[test]
fn parse_choice_three_segment_host_action() {
    let (key, label, action) = parse_notify_choice("Talk to Agent:pane_focus:188").unwrap();
    assert_eq!(key, "Talk to Agent");
    assert_eq!(label, "Talk to Agent");
    assert_eq!(action.as_deref(), Some("pane_focus:188"));
}

#[test]
fn parse_choice_four_segment_key_label_action() {
    let (key, label, action) = parse_notify_choice("c:Talk to Agent:pane_focus:188").unwrap();
    assert_eq!(key, "c");
    assert_eq!(label, "Talk to Agent");
    assert_eq!(action.as_deref(), Some("pane_focus:188"));
}

#[test]
fn parse_choice_five_segment_is_error() {
    let err = parse_notify_choice("a:b:c:d:e").unwrap_err();
    assert!(err.contains("5"), "error should mention segment count: {err}");
}

#[test]
fn parse_choice_one_segment_is_error() {
    let err = parse_notify_choice("nocolon").unwrap_err();
    assert!(err.contains("1"), "error should mention segment count: {err}");
}

#[test]
fn parse_choice_error_text_is_exact() {
    assert_eq!(
        parse_notify_choice("a:b:c:d:e:f").unwrap_err(),
        "error: --choice requires 2, 3, or 4 colon-separated segments (key:Label / Label:action:arg / key:Label:action:arg) — got 5 in \"a:b:c:d:e:f\""
    );
}

#[test]
fn parse_scope_names_and_absence() {
    assert_eq!(parse_notify_scope(None), Ok(None));
    assert_eq!(parse_notify_scope(Some("window")), Ok(Some(NotifyScope::Window)));
    assert_eq!(parse_notify_scope(Some("context")), Ok(Some(NotifyScope::Context)));
    assert_eq!(parse_notify_scope(Some("global")), Ok(Some(NotifyScope::Global)));
    assert_eq!(
        parse_notify_scope(Some("galaxy")),
        Err("error: --scope must be window, context, or global — got \"galaxy\"".to_string())
    );
}

#[test]
fn dismiss_request_needs_a_caller_pane_and_context() {
    assert_eq!(
        plexi::notify::dismiss_request("n-1", Some(2), None, "rf"),
        Err("error: notify dismiss requires a caller pane and context".to_string())
    );
    let mut m = serde_json::Map::new();
    m.insert("type".to_string(), serde_json::Value::String("dismiss_notification".to_string()));
    m.insert("notify_id".to_string(), serde_json::Value::String("n-1".to_string()));
    m.insert("source_context_id".to_string(), serde_json::Value::from(2u64));
    m.insert("source_pane_id".to_string(), serde_json::Value::from(188u64));
    m.insert("response_file".to_string(), serde_json::Value::String("/tmp/rpc/d.txt".to_string()));
    assert_eq!(
        plexi::notify::dismiss_request("n-1", Some(2), Some(188), "/tmp/rpc/d.txt"),
        Ok(serde_json::Value::Object(m).to_string())
    );
}

#[test]
fn dismiss_outcome_accepts_only_dismissed() {
    assert_eq!(plexi::notify::dismiss_outcome("dismissed\n"), (0, None));
    assert_eq!(plexi::notify::dismiss_outcome(" not found \n"), (1, Some("error: not found".to_string())));
}
