use plexi::lock::{lock_pane_id, lock_reply, release_request, status_request, LockReply};
use plexi::pane::{resolve_pane_id, SlotReply};

fn error_body(ok: bool, timeout: bool, error: &str) -> Vec<u8> {
    let mut m = serde_json::Map::new();
    m.insert("ok".to_string(), serde_json::Value::Bool(ok));
    m.insert("timeout".to_string(), serde_json::Value::Bool(timeout));
    m.insert("error".to_string(), serde_json::Value::String(error.to_string()));
    serde_json::to_vec(&serde_json::Value::Object(m)).unwrap()
}

#[test]
fn typed_host_timeout_exits_nonzero() {
    let reply = lock_reply(Ok(SlotReply::ErrorBody(error_body(false, true, "timed out"))));
    assert_eq!(reply.exit_code(), 2);
}

#[test]
fn error_reply_without_timeout_exits_one_with_the_host_message() {
    let reply = lock_reply(Ok(SlotReply::ErrorBody(error_body(false, false, "held by pane 4"))));
    assert_eq!(reply.exit_code(), 1);
    match reply {
        LockReply::Failed { message, timed_out } => {
            assert_eq!(message, "held by pane 4");
            assert!(!timed_out);
        }
        _ => panic!("expected a failure"),
    }
}

#[test]
fn error_reply_that_is_not_json_reads_as_an_invalid_lock_error() {
    match lock_reply(Ok(SlotReply::ErrorBody(b"oops".to_vec()))) {
        LockReply::Failed { message, timed_out } => {
            assert_eq!(message, "invalid lock error");
            assert!(!timed_out);
        }
        _ => panic!("expected a failure"),
    }
    match lock_reply(Ok(SlotReply::ErrorBody(b"{}".to_vec()))) {
        LockReply::Failed { message, .. } => assert_eq!(message, "lock request failed"),
        _ => panic!("expected a failure"),
    }
}

#[test]
fn data_reply_grants_only_on_ok_true() {
    let granted = lock_reply(Ok(SlotReply::Data(br#"{"ok":true}"#.to_vec())));
    assert!(matches!(granted, LockReply::Granted));
    assert_eq!(granted.exit_code(), 0);

    let refused = lock_reply(Ok(SlotReply::Data(br#"{"ok":false,"holder":3}"#.to_vec())));
    assert_eq!(refused.exit_code(), 1);
    match refused {
        LockReply::Refused(b) => assert_eq!(b, br#"{"ok":false,"holder":3}"#.to_vec()),
        _ => panic!("expected a refusal"),
    }

    let invalid = lock_reply(Ok(SlotReply::Data(b"not json".to_vec())));
    assert_eq!(invalid.exit_code(), 1);
    assert!(matches!(invalid, LockReply::Invalid(_)));
}

#[test]
fn missing_reply_carries_the_reason() {
    match lock_reply(Err("timed out waiting for response".to_string())) {
        LockReply::Failed { message, timed_out } => {
            assert_eq!(message, "lock host reply failed: timed out waiting for response");
            assert!(!timed_out);
        }
        _ => panic!("expected a failure"),
    }
}

#[test]
fn lock_commands_need_a_numeric_pane_id() {
    assert_eq!(lock_pane_id(Some("42")), Ok(42));
    let msg = "PLEXI_PANE_ID is required — run lock commands from a Plexi pane".to_string();
    assert_eq!(lock_pane_id(None), Err(msg.clone()));
    assert_eq!(lock_pane_id(Some("abc")), Err(msg.clone()));
    assert_eq!(lock_pane_id(Some("")), Err(msg));
}

#[test]
fn lock_requests_list_members_in_key_order() {
    assert_eq!(
        release_request("build", 7, "/tmp/r.json"),
        r#"{"name":"build","pane_id":7,"response_file":"/tmp/r.json","type":"lock_release"}"#
    );
    assert_eq!(
        status_request("a\"b", "/tmp/s.json"),
        r#"{"name":"a\"b","response_file":"/tmp/s.json","type":"lock_status"}"#
    );
}

#[test]
fn lock_requests_match_serde_json_serialization() {
    let mut m = serde_json::Map::new();
    m.insert("type".to_string(), serde_json::Value::String("lock_release".to_string()));
    m.insert("name".to_string(), serde_json::Value::String("x\ny".to_string()));
    m.insert("pane_id".to_string(), serde_json::Value::from(18446744073709551615u64));
    m.insert("response_file".to_string(), serde_json::Value::String("f".to_string()));
    assert_eq!(
        release_request("x\ny", u64::MAX, "f"),
        serde_json::Value::Object(m).to_string()
    );
}

#[test]
fn pane_id_prefers_the_argument_then_the_environment() {
    assert_eq!(resolve_pane_id(Some(5), Some("9")), Ok(5));
    assert_eq!(resolve_pane_id(None, Some("9")), Ok(9));
    assert_eq!(resolve_pane_id(None, Some("+12")), Ok(12));
    assert_eq!(
        resolve_pane_id(None, None),
        Err("pane_id not provided and PLEXI_PANE_ID is not set — run inside a Plexi pane or pass a pane ID"
            .to_string())
    );
    assert_eq!(
        resolve_pane_id(None, Some("pane-3")),
        Err("PLEXI_PANE_ID is not a valid number: pane-3".to_string())
    );
}
