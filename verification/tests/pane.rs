use plexi::open::{SlotWaitOutcome, SubmitOutcome};
use plexi::pane::{
    github_clone_url, github_queue_payload, github_queued_message, github_source_parts,
    github_spawn_payload, slot_wait_outcome, submit_outcome, PollFailure, SlotReply,
};

#[test]
fn matching_value_exits_zero_and_carries_raw_bytes() {
    let outcome = slot_wait_outcome(Ok(SlotReply::Data(b"done: ok".to_vec())));
    assert_eq!(outcome.exit_code(), 0);
    assert_eq!(outcome, SlotWaitOutcome::Matched(b"done: ok".to_vec()));
}

#[test]
fn host_timeout_reply_exits_two() {
    let body = br#"{"ok":false,"timeout":true,"error":"timed out waiting for slot 'status'"}"#;
    let outcome = slot_wait_outcome(Ok(SlotReply::ErrorBody(body.to_vec())));
    assert_eq!(outcome.exit_code(), 2);
    assert!(matches!(outcome, SlotWaitOutcome::TimedOut(_)));
}

#[test]
fn host_error_reply_exits_one() {
    let body = br#"{"ok":false,"error":"pane 42 not found"}"#;
    let outcome = slot_wait_outcome(Ok(SlotReply::ErrorBody(body.to_vec())));
    assert_eq!(outcome.exit_code(), 1);
    assert_eq!(outcome, SlotWaitOutcome::Failed("pane 42 not found".to_string()));
}

#[test]
fn client_side_poll_timeout_is_a_plumbing_failure_not_a_wait_timeout() {
    let outcome = slot_wait_outcome(Err(PollFailure::TimedOut));
    assert_eq!(outcome.exit_code(), 1);
}

#[test]
fn unparseable_error_reply_exits_one() {
    let outcome = slot_wait_outcome(Ok(SlotReply::ErrorBody(b"not json".to_vec())));
    assert_eq!(outcome.exit_code(), 1);
}

#[test]
fn slot_wait_failure_messages() {
    assert_eq!(
        slot_wait_outcome(Ok(SlotReply::ErrorBody(b"not json".to_vec()))),
        SlotWaitOutcome::Failed("invalid slot wait error response".to_string())
    );
    assert_eq!(
        slot_wait_outcome(Ok(SlotReply::ErrorBody(br#"{"timeout":true}"#.to_vec()))),
        SlotWaitOutcome::TimedOut("slot wait failed".to_string())
    );
    assert_eq!(
        slot_wait_outcome(Err(PollFailure::Other("io".to_string()))),
        SlotWaitOutcome::Failed("io".to_string())
    );
}

#[test]
fn confirmed_reply_exits_zero() {
    let outcome = submit_outcome(r#"{"ok":true,"retried":false}"#);
    assert_eq!(outcome, SubmitOutcome::Confirmed { retried: false });
    assert_eq!(outcome.exit_code(), 0);
}

#[test]
fn confirmed_after_retry_still_exits_zero() {
    let outcome = submit_outcome(r#"{"ok":true,"retried":true}"#);
    assert_eq!(outcome, SubmitOutcome::Confirmed { retried: true });
    assert_eq!(outcome.exit_code(), 0);
}

#[test]
fn unconfirmed_reply_exits_one_and_carries_the_observed_input_line() {
    let outcome = submit_outcome(
        r#"{"error":"submission not confirmed on pane 7","input_line":["> echo hi","[Pasted text #1] paste again to expand"],"retried":true}"#,
    );
    assert_eq!(
        outcome,
        SubmitOutcome::Unconfirmed {
            message: "submission not confirmed on pane 7".to_string(),
            input_line: vec![
                "> echo hi".to_string(),
                "[Pasted text #1] paste again to expand".to_string(),
            ],
        }
    );
    assert_eq!(outcome.exit_code(), 1);
}

#[test]
fn refusal_reply_exits_one() {
    let outcome = submit_outcome(
        r#"{"error":"pane 7 is an app pane; --submit only applies to terminal panes"}"#,
    );
    assert_eq!(outcome.exit_code(), 1);
    assert!(matches!(outcome, SubmitOutcome::Unconfirmed { .. }));
}

#[test]
fn unparseable_reply_exits_one() {
    assert_eq!(submit_outcome("not json").exit_code(), 1);
    assert_eq!(submit_outcome(r#"{"ok":false}"#).exit_code(), 1);
}

#[test]
fn submit_reply_defaults_and_non_string_lines() {
    assert_eq!(
        submit_outcome("nope"),
        SubmitOutcome::Unconfirmed {
            message: "invalid submit response from host: nope".to_string(),
            input_line: vec![],
        }
    );
    assert_eq!(
        submit_outcome(r#"{"ok":false,"input_line":["a",3,"b"]}"#),
        SubmitOutcome::Unconfirmed {
            message: "submission not confirmed".to_string(),
            input_line: vec!["a".to_string(), "b".to_string()],
        }
    );
}

#[test]
fn github_sources_split_into_owner_and_repo() {
    assert_eq!(
        github_source_parts("github:octo/tool.git"),
        Ok(("octo".to_string(), "tool".to_string()))
    );
    assert_eq!(
        github_source_parts("octo/tool.git.git"),
        Ok(("octo".to_string(), "tool".to_string()))
    );
    assert_eq!(
        github_source_parts("github:octo/tools/extra"),
        Ok(("octo".to_string(), "tools/extra".to_string()))
    );
    assert_eq!(
        github_source_parts("github:octo"),
        Err("invalid github source 'github:octo'; expected 'github:owner/repo'".to_string())
    );
    assert!(github_source_parts("github:/tool").is_err());
    assert!(github_source_parts("github:octo/").is_err());
}

#[test]
fn github_clone_url_and_message() {
    assert_eq!(github_clone_url("octo", "tool"), "https://github.com/octo/tool.git");
    assert_eq!(github_queued_message("octo", "tool"), "queued: open github:octo/tool");
}

#[test]
fn github_spawn_payload_lists_members_in_key_order() {
    assert_eq!(
        github_spawn_payload("/c/octo/tool", None, "/tmp/r.json", None, None, None),
        r#"{"layout":null,"path":"/c/octo/tool","response_file":"/tmp/r.json","type":"spawn_pane","type_id":""}"#
    );
    assert_eq!(
        github_spawn_payload("/c/x", Some("tab"), "/r", Some(7), Some("/ws"), Some("/cwd")),
        r#"{"cwd":"/cwd","from_pane_id":7,"layout":"tab","path":"/c/x","response_file":"/r","type":"spawn_pane","type_id":"","workspace_root":"/ws"}"#
    );
}

#[test]
fn github_queue_payload_lists_members_in_key_order() {
    assert_eq!(
        github_queue_payload("/c/x", None, 1700, None, None),
        r#"{"layout":null,"origin":"open github","path":"/c/x","queued_at_ms":1700,"type_id":""}"#
    );
    assert_eq!(
        github_queue_payload("/c/\"x\"", Some("split_h"), 5, Some("/ws"), Some("/d")),
        r#"{"cwd":"/d","layout":"split_h","origin":"open github","path":"/c/\"x\"","queued_at_ms":5,"type_id":"","workspace_root":"/ws"}"#
    );
}

#[test]
fn env_pane_id_reports_unset_and_invalid_values() {
    let unset = "PLEXI_PANE_ID is not set — run this inside a Plexi terminal pane";
    assert_eq!(plexi::pane::env_pane_id(Some("31"), unset), Ok(31));
    assert_eq!(plexi::pane::env_pane_id(None, unset), Err(unset.to_string()));
    assert_eq!(
        plexi::pane::env_pane_id(Some("-1"), unset),
        Err("PLEXI_PANE_ID is not a valid number: -1".to_string())
    );
}

#[test]
fn response_error_needs_ok_false() {
    use_response_error(br#"{"ok":false,"error":"no such slot"}"#, Some("no such slot"));
    use_response_error(br#"{"ok":false}"#, None);
    use_response_error(br#"{"ok":true,"error":"ignored"}"#, None);
    use_response_error(br#"{"error":"no ok member"}"#, None);
    use_response_error(b"not json", None);
}

fn use_response_error(raw: &[u8], want: Option<&str>) {
    assert_eq!(plexi::pane::response_error(raw), want.map(|s| s.to_string()));
}

#[test]
fn host_error_reads_the_error_member() {
    assert_eq!(plexi::pane::host_error(r#"{"error":"pane 9 not found"}"#), Some("pane 9 not found".to_string()));
    assert_eq!(plexi::pane::host_error(r#"{"ok":true}"#), None);
    assert_eq!(plexi::pane::host_error(r#"{"error":3}"#), None);
    assert_eq!(plexi::pane::host_error("garbage"), None);
}

#[test]
fn tips_are_dimmed_unless_no_color_and_can_be_turned_off() {
    assert_eq!(plexi::pane::tip_line("x", None, false), Some("\x1b[2mtip: x\x1b[0m".to_string()));
    assert_eq!(plexi::pane::tip_line("x", Some(true), true), Some("tip: x".to_string()));
    assert_eq!(plexi::pane::tip_line("x", Some(false), true), None);
}

#[test]
fn submit_report_lists_the_observed_input_line() {
    let o = submit_outcome(r#"{"ok":false,"error":"still typing","input_line":["> hello",7,"world"]}"#);
    assert_eq!(
        plexi::pane::submit_report(&o, None, true),
        vec!["error: still typing".to_string(), "  > hello".to_string(), "  world".to_string()]
    );
    let retried = submit_outcome(r#"{"ok":true,"retried":true}"#);
    assert_eq!(
        plexi::pane::submit_report(&retried, None, true),
        vec!["tip: the prompt was still parked as a collapsed paste; a second Enter submitted it".to_string()]
    );
    assert!(plexi::pane::submit_report(&retried, Some(false), true).is_empty());
    let clean = submit_outcome(r#"{"ok":true}"#);
    assert!(plexi::pane::submit_report(&clean, None, false).is_empty());
}

#[test]
fn parsed_reply_members_decide_submit_and_slot_outcomes() {
    use_members();
}

fn use_members() {
    let confirmed = plexi::pane::submit_outcome_of("{}", Some((None, None, None, Some(true), Some(true), None)));
    assert_eq!(confirmed, SubmitOutcome::Confirmed { retried: true });
    let unconfirmed = plexi::pane::submit_outcome_of(
        "{}",
        Some((None, Some("boom".to_string()), None, Some(false), None, Some(vec![Some("a".to_string()), None, Some("b".to_string())]))),
    );
    assert_eq!(
        unconfirmed,
        SubmitOutcome::Unconfirmed { message: "boom".to_string(), input_line: vec!["a".to_string(), "b".to_string()] }
    );
    assert_eq!(
        plexi::pane::submit_outcome_of("nope", None),
        SubmitOutcome::Unconfirmed { message: "invalid submit response from host: nope".to_string(), input_line: vec![] }
    );
    assert_eq!(
        plexi::pane::slot_error_outcome(Some((None, None, Some(true), None, None, None))),
        SlotWaitOutcome::TimedOut("slot wait failed".to_string())
    );
    assert_eq!(
        plexi::pane::slot_error_outcome(Some((None, Some("gone".to_string()), Some(false), None, None, None))),
        SlotWaitOutcome::Failed("gone".to_string())
    );
    assert_eq!(
        plexi::pane::slot_error_outcome(None),
        SlotWaitOutcome::Failed("invalid slot wait error response".to_string())
    );
}
