use plexi::requests::{
    capture_request, click_node_request, close_request, drop_request, focus_request, key_request,
    list_context, list_panes_request, pane_info_request, pane_state_request, previous_pane_request,
    send_request, set_title_request, slot_delete_request, slot_list_request, slot_read_request,
    slot_write_request,
};
use serde_json::Value;

fn obj(members: Vec<(&str, Value)>) -> String {
    let mut m = serde_json::Map::new();
    for (k, v) in members {
        m.insert(k.to_string(), v);
    }
    Value::Object(m).to_string()
}

fn s(v: &str) -> Value {
    Value::String(v.to_string())
}

#[test]
fn title_and_slot_requests_match_serde_json() {
    assert_eq!(
        set_title_request(3, "build \"log\""),
        obj(vec![("type", s("set_pane_title")), ("pane_id", Value::from(3u64)), ("name", s("build \"log\""))])
    );
    assert_eq!(
        slot_read_request(4, "status", "/tmp/r.json"),
        obj(vec![
            ("type", s("slot_read")),
            ("pane_id", Value::from(4u64)),
            ("slot_name", s("status")),
            ("response_file", s("/tmp/r.json")),
        ])
    );
    assert_eq!(
        slot_delete_request(4, "status", "/tmp/r.json"),
        obj(vec![
            ("type", s("slot_delete")),
            ("pane_id", Value::from(4u64)),
            ("slot_name", s("status")),
            ("response_file", s("/tmp/r.json")),
        ])
    );
    assert_eq!(
        slot_list_request(9, "f"),
        obj(vec![("type", s("slot_list")), ("pane_id", Value::from(9u64)), ("response_file", s("f"))])
    );
}

#[test]
fn slot_write_sends_content_as_numbers() {
    let bytes = b"hi\n".to_vec();
    assert_eq!(
        slot_write_request(2, "out", &bytes, true, false, "rf"),
        obj(vec![
            ("type", s("slot_write")),
            ("pane_id", Value::from(2u64)),
            ("slot_name", s("out")),
            ("content", serde_json::to_value(&bytes).unwrap()),
            ("append", Value::Bool(true)),
            ("replace", Value::Bool(false)),
            ("response_file", s("rf")),
        ])
    );
    assert_eq!(
        slot_write_request(2, "out", &[], false, true, "rf"),
        r#"{"append":false,"content":[],"pane_id":2,"replace":true,"response_file":"rf","slot_name":"out","type":"slot_write"}"#
    );
}

#[test]
fn info_state_and_list_requests_match_serde_json() {
    assert_eq!(
        pane_info_request(11, "rf"),
        obj(vec![("type", s("get_pane_info")), ("pane_id", Value::from(11u64)), ("response_file", s("rf"))])
    );
    assert_eq!(
        pane_state_request(11, "rf"),
        obj(vec![("type", s("get_pane_state")), ("pane_id", Value::from(11u64)), ("response_file", s("rf"))])
    );
    assert_eq!(
        previous_pane_request(2, "rf"),
        obj(vec![("type", s("get_previous_pane_info")), ("response_file", s("rf")), ("steps", Value::from(2u64))])
    );
    assert_eq!(
        list_panes_request(None, "rf"),
        obj(vec![("type", s("list_panes")), ("response_file", s("rf"))])
    );
    assert_eq!(
        list_panes_request(Some(5), "rf"),
        obj(vec![("type", s("list_panes")), ("response_file", s("rf")), ("context_id", Value::from(5u64))])
    );
}

#[test]
fn focus_and_close_are_fire_and_forget() {
    assert_eq!(focus_request(188), r#"{"pane_id":188,"type":"focus_pane"}"#);
    assert_eq!(close_request(0), r#"{"pane_id":0,"type":"close_pane"}"#);
}

#[test]
fn input_requests_match_serde_json() {
    assert_eq!(
        send_request(7, "ls -la\t", true, "rf"),
        obj(vec![
            ("type", s("send_to_pane")),
            ("pane_id", Value::from(7u64)),
            ("text", s("ls -la\t")),
            ("submit", Value::Bool(true)),
            ("response_file", s("rf")),
        ])
    );
    assert_eq!(
        key_request(7, "ctrl+c", "rf"),
        obj(vec![("type", s("key_pane")), ("pane_id", Value::from(7u64)), ("key", s("ctrl+c")), ("response_file", s("rf"))])
    );
    assert_eq!(
        drop_request(7, "https://x.test/a.png", "rf"),
        obj(vec![
            ("type", s("drop_file")),
            ("pane_id", Value::from(7u64)),
            ("path_or_url", s("https://x.test/a.png")),
            ("response_file", s("rf")),
        ])
    );
    assert_eq!(
        click_node_request(7, "btn-ok", "left", "rf"),
        obj(vec![
            ("type", s("click_pane_node")),
            ("pane_id", Value::from(7u64)),
            ("node_id", s("btn-ok")),
            ("button", s("left")),
            ("response_file", s("rf")),
        ])
    );
}

#[test]
fn capture_request_adds_the_cursor_only_when_given() {
    assert_eq!(
        capture_request(3, 200, false, None, "rf"),
        obj(vec![
            ("type", s("capture_pane")),
            ("pane_id", Value::from(3u64)),
            ("lines", Value::from(200u64)),
            ("full_output", Value::Bool(false)),
            ("response_file", s("rf")),
        ])
    );
    assert_eq!(
        capture_request(3, 200, true, Some(u64::MAX), "rf"),
        obj(vec![
            ("type", s("capture_pane")),
            ("pane_id", Value::from(3u64)),
            ("lines", Value::from(200u64)),
            ("full_output", Value::Bool(true)),
            ("response_file", s("rf")),
            ("from_cursor", Value::from(u64::MAX)),
        ])
    );
}

#[test]
fn list_context_reads_the_environment_only_for_current() {
    assert_eq!(list_context(Some(4), false, Some("9")), Ok(Some(4)));
    assert_eq!(list_context(None, false, None), Ok(None));
    assert_eq!(list_context(Some(4), true, Some("9")), Ok(Some(9)));
    assert_eq!(
        list_context(None, true, None),
        Err("PLEXI_CONTEXT_ID is not set — run this inside a Plexi terminal pane".to_string())
    );
    assert_eq!(
        list_context(None, true, Some("x1")),
        Err("PLEXI_CONTEXT_ID is not a valid number: x1".to_string())
    );
}
