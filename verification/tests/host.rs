use plexi::host::{
    already_running_message, collect_pane_specs, filter_child_env, lsof_pid, parse_pane_flag,
    placement_to_layout, seed_payload, LayoutFile, PaneSpec,
    binary_missing_message, not_installed_message, started_message, status_report,
    stop_start, stop_step, Probe, StopAction, StopEvent, StopState,
};

// ── parse_pane_flag ─────────────────────────────────────────────────

#[test]
fn parse_pane_flag_cwd_only() {
    let spec = parse_pane_flag("cwd=/tmp").expect("valid spec");
    assert_eq!(
        spec,
        PaneSpec {
            cwd: Some("/tmp".to_string()),
            cmd: None,
            placement: None,
        }
    );
}

#[test]
fn parse_pane_flag_cwd_and_cmd() {
    let spec = parse_pane_flag("cwd=/tmp,cmd=htop").expect("valid spec");
    assert_eq!(spec.cwd, Some("/tmp".to_string()));
    assert_eq!(spec.cmd, Some("htop".to_string()));
    assert_eq!(spec.placement, None);
}

#[test]
fn parse_pane_flag_tab_placement() {
    let spec = parse_pane_flag("cwd=/tmp,tab").expect("valid spec");
    assert_eq!(spec.placement, Some("tab".to_string()));
}

#[test]
fn parse_pane_flag_window_placement() {
    let spec = parse_pane_flag("cwd=/tmp,cmd=top,window").expect("valid spec");
    assert_eq!(spec.placement, Some("window".to_string()));
    assert_eq!(spec.cmd, Some("top".to_string()));
}

#[test]
fn parse_pane_flag_errors_on_missing_cwd() {
    let err = parse_pane_flag("cmd=htop").unwrap_err();
    assert!(err.contains("cwd"), "error should mention missing cwd: {err}");
}

#[test]
fn parse_pane_flag_errors_on_unknown_key() {
    let err = parse_pane_flag("cwd=/tmp,bogus=1").unwrap_err();
    assert!(err.contains("bogus"), "error should name the bad key: {err}");
}

#[test]
fn parse_pane_flag_errors_on_unrecognized_token() {
    let err = parse_pane_flag("cwd=/tmp,overlay").unwrap_err();
    assert!(err.contains("overlay"), "error should name the bad token: {err}");
}

#[test]
fn parse_pane_flag_errors_on_empty_string() {
    assert!(parse_pane_flag("").is_err());
}

#[test]
fn parse_pane_flag_errors_on_duplicate_cwd() {
    assert!(parse_pane_flag("cwd=/tmp,cwd=/other").is_err());
}

#[test]
fn parse_pane_flag_error_texts_are_exact() {
    assert_eq!(
        parse_pane_flag("cwd=/tmp,,tab").unwrap_err(),
        "malformed --pane spec \"cwd=/tmp,,tab\": empty segment"
    );
    assert_eq!(
        parse_pane_flag("cwd=/a,cwd=/b").unwrap_err(),
        "malformed --pane spec \"cwd=/a,cwd=/b\": duplicate cwd"
    );
    assert_eq!(
        parse_pane_flag("cwd=/a,cmd=x,cmd=y").unwrap_err(),
        "malformed --pane spec \"cwd=/a,cmd=x,cmd=y\": duplicate cmd"
    );
    assert_eq!(
        parse_pane_flag("cwd=/a,tab,window").unwrap_err(),
        "malformed --pane spec \"cwd=/a,tab,window\": duplicate placement token"
    );
    assert_eq!(
        parse_pane_flag("cwd=/a, bogus =1").unwrap_err(),
        "malformed --pane spec \"cwd=/a, bogus =1\": unknown key \"bogus\" (expected cwd or cmd)"
    );
    assert_eq!(
        parse_pane_flag("cmd=htop").unwrap_err(),
        "malformed --pane spec \"cmd=htop\": cwd=<dir> is required"
    );
}

#[test]
fn parse_pane_flag_trims_segments_but_keeps_value_text() {
    let spec = parse_pane_flag(" cwd=/tmp/a b , cmd=ls -la ").expect("valid spec");
    assert_eq!(spec.cwd.as_deref(), Some("/tmp/a b"));
    assert_eq!(spec.cmd.as_deref(), Some("ls -la"));
    let spec = parse_pane_flag("cwd=x=y").expect("valid spec");
    assert_eq!(spec.cwd.as_deref(), Some("x=y"));
}

// ── placement_to_layout ─────────────────────────────────────────────

#[test]
fn placement_to_layout_defaults_to_split_h() {
    let spec = PaneSpec::default();
    assert_eq!(placement_to_layout(&spec).unwrap(), "split_h");
}

#[test]
fn placement_to_layout_maps_tab_and_window() {
    let tab = PaneSpec {
        placement: Some("tab".to_string()),
        ..Default::default()
    };
    let window = PaneSpec {
        placement: Some("window".to_string()),
        ..Default::default()
    };
    assert_eq!(placement_to_layout(&tab).unwrap(), "tab");
    assert_eq!(placement_to_layout(&window).unwrap(), "new_window");
}

#[test]
fn placement_to_layout_rejects_unknown_value() {
    let spec = PaneSpec {
        placement: Some("overlay".to_string()),
        ..Default::default()
    };
    assert!(placement_to_layout(&spec).is_err());
    assert_eq!(
        placement_to_layout(&spec).unwrap_err(),
        "invalid pane placement \"overlay\": expected \"tab\" or \"window\" (omit for default split)"
    );
}

// ── filter_child_env ─────────────────────────────────────────────────

#[test]
fn filter_child_env_strips_pane_scoped_vars_and_sets_channel() {
    let parent = vec![
        ("PLEXI_SOCKET".to_string(), "/tmp/x.sock".to_string()),
        ("PLEXI_PANE_ID".to_string(), "7".to_string()),
        ("PLEXI_CONTEXT_ID".to_string(), "3".to_string()),
        ("PLEXI_CONTEXT_ROOT".to_string(), "/tmp".to_string()),
        ("PLEXI_RUNNING".to_string(), "1".to_string()),
        ("PLEXI_CHANNEL".to_string(), "beta".to_string()), // must be overridden, not inherited
        ("PATH".to_string(), "/usr/bin".to_string()),
    ];
    let env = filter_child_env(parent, Some("alpha"));
    let map: std::collections::HashMap<_, _> = env.into_iter().collect();
    assert_eq!(map.get("PLEXI_SOCKET"), None);
    assert_eq!(map.get("PLEXI_PANE_ID"), None);
    assert_eq!(map.get("PLEXI_CONTEXT_ID"), None);
    assert_eq!(map.get("PLEXI_CONTEXT_ROOT"), None);
    assert_eq!(map.get("PLEXI_RUNNING"), None);
    assert_eq!(map.get("PLEXI_CHANNEL"), Some(&"alpha".to_string()));
    assert_eq!(map.get("PATH"), Some(&"/usr/bin".to_string()));
}

#[test]
fn filter_child_env_leaves_channel_unset_for_main() {
    let parent = vec![("PLEXI_CHANNEL".to_string(), "beta".to_string())];
    let env = filter_child_env(parent, None);
    assert!(
        env.iter().all(|(k, _)| k != "PLEXI_CHANNEL"),
        "main channel must never inherit a stale PLEXI_CHANNEL: {env:?}"
    );
}

#[test]
fn filter_child_env_keeps_order_of_retained_vars() {
    let parent = vec![
        ("B".to_string(), "2".to_string()),
        ("PLEXI_PANE_ID".to_string(), "7".to_string()),
        ("A".to_string(), "1".to_string()),
    ];
    let env = filter_child_env(parent, Some("pr-9"));
    assert_eq!(
        env,
        vec![
            ("B".to_string(), "2".to_string()),
            ("A".to_string(), "1".to_string()),
            ("PLEXI_CHANNEL".to_string(), "pr-9".to_string()),
        ]
    );
}

#[test]
fn layout_panes_then_flag_panes() {
    let layout = LayoutFile {
        pane: vec![PaneSpec { cwd: Some("/a".into()), cmd: None, placement: Some("tab".into()) }],
    };
    let specs = collect_pane_specs(Some(layout), &["cwd=/b,cmd=ls".to_string()]).unwrap();
    assert_eq!(specs.len(), 2);
    assert_eq!(specs[0].cwd.as_deref(), Some("/a"));
    assert_eq!(specs[1].cmd.as_deref(), Some("ls"));
    assert!(collect_pane_specs(None, &["cmd=ls".to_string()]).is_err());
    assert!(collect_pane_specs(None, &[]).unwrap().is_empty());
}

#[test]
fn seed_records() {
    let spec = PaneSpec { cwd: Some("/tmp/x".into()), cmd: Some("echo \"hi\"".into()), placement: None };
    assert_eq!(
        seed_payload(&spec).unwrap(),
        r#"{"args":["echo \"hi\""],"cwd":"/tmp/x","layout":"split_h","type_id":"terminal"}"#
    );
    let bare = PaneSpec { cwd: None, cmd: None, placement: Some("window".into()) };
    assert_eq!(seed_payload(&bare).unwrap(), r#"{"args":[],"cwd":null,"layout":"new_window","type_id":"terminal"}"#);
    let bad = PaneSpec { cwd: None, cmd: None, placement: Some("side".into()) };
    assert!(seed_payload(&bad).is_err());
}

#[test]
fn lsof_output_and_running_message() {
    assert_eq!(lsof_pid("1234\n5678\n"), Some(1234));
    assert_eq!(lsof_pid(" 42 \r\n"), Some(42));
    assert_eq!(lsof_pid(""), None);
    assert_eq!(lsof_pid("4294967296\n"), None);
    assert_eq!(lsof_pid("abc"), None);
    assert_eq!(
        already_running_message(Some(7), "/s.sock"),
        "error: a Plexi host for this channel is already running (pid 7, socket /s.sock)"
    );
    assert_eq!(
        already_running_message(None, "/s.sock"),
        "error: a Plexi host for this channel is already running (pid unknown, socket /s.sock)"
    );
}

#[test]
fn host_status_reports_in_text_and_json() {
    assert_eq!(
        status_report(false, Some(42), Some(3), "/s.sock"),
        "Plexi host is running (pid 42), 3 pane(s), socket /s.sock"
    );
    assert_eq!(
        status_report(false, None, Some(0), "/s.sock"),
        "Plexi host is running (pid unknown), 0 pane(s), socket /s.sock"
    );
    assert_eq!(status_report(false, Some(42), None, "/s.sock"), "Plexi host is not running (socket /s.sock)");
    let mut m = serde_json::Map::new();
    m.insert("ready".into(), serde_json::Value::Bool(true));
    m.insert("pane_count".into(), serde_json::Value::from(2u64));
    m.insert("pid".into(), serde_json::Value::Null);
    m.insert("socket".into(), serde_json::Value::String("/s.sock".into()));
    assert_eq!(status_report(true, None, Some(2), "/s.sock"), serde_json::Value::Object(m).to_string());
    assert_eq!(
        status_report(true, Some(1), None, "/s"),
        r#"{"pane_count":null,"pid":1,"ready":false,"socket":"/s"}"#
    );
    assert_eq!(started_message(9, 2), "Plexi host started (pid 9), 2 pane(s) ready.");
    assert_eq!(not_installed_message("/A.app"), "error: Plexi is not installed for this channel (expected /A.app)");
    assert_eq!(binary_missing_message("/b"), "error: Plexi binary missing inside bundle (expected /b)");
}

fn finish_of(a: StopAction) -> (i32, Option<String>, Option<String>, bool) {
    match a {
        StopAction::Finish { code, stdout, stderr, remove_socket } => (code, stdout, stderr, remove_socket),
        _ => panic!("expected a finish"),
    }
}

#[test]
fn host_stop_clean_shutdown_removes_the_refused_socket() {
    let (s, a) = stop_start();
    assert!(s == StopState::Connecting && matches!(a, StopAction::Connect));
    let (s, a) = stop_step(s, Some(41), StopEvent::Connected(true));
    assert!(s == StopState::Sending && matches!(a, StopAction::SendShutdown));
    let (s, a) = stop_step(s, Some(41), StopEvent::Sent(true));
    assert!(s == StopState::Waiting && matches!(a, StopAction::Probe));
    let (s, a) = stop_step(s, Some(41), StopEvent::Probed(Probe::Alive, false));
    assert!(s == StopState::Waiting && matches!(a, StopAction::SleepThenProbe));
    let (s, a) = stop_step(s, Some(41), StopEvent::Probed(Probe::Refused, false));
    assert!(s == StopState::Done);
    assert_eq!(finish_of(a), (0, Some("Plexi host stopped (clean shutdown).".to_string()), None, true));
    let (_, a) = stop_step(StopState::Waiting, None, StopEvent::Probed(Probe::Gone, true));
    assert_eq!(finish_of(a), (0, Some("Plexi host stopped (clean shutdown).".to_string()), None, false));
}

#[test]
fn host_stop_falls_back_to_sigterm() {
    let (s, a) = stop_step(StopState::Waiting, Some(41), StopEvent::Probed(Probe::Alive, true));
    assert!(s == StopState::Killing && matches!(a, StopAction::Kill(41)));
    let (s, a) = stop_step(StopState::Connecting, Some(7), StopEvent::Connected(false));
    assert!(s == StopState::Killing && matches!(a, StopAction::Kill(7)));
    let (_, a) = stop_step(StopState::Killing, Some(7), StopEvent::Killed);
    assert_eq!(finish_of(a), (0, Some("Plexi host stopped (SIGTERM sent to pid 7).".to_string()), None, false));
    let (_, a) = stop_step(StopState::Killing, Some(7), StopEvent::KillFailed("exit status: 1".to_string()));
    assert_eq!(
        finish_of(a),
        (1, None, Some("error: could not stop process 7 (kill exited with exit status: 1)".to_string()), false)
    );
    let (_, a) = stop_step(StopState::Killing, Some(7), StopEvent::KillNotRun("not found".to_string()));
    assert_eq!(finish_of(a), (1, None, Some("error: could not run kill: not found".to_string()), false));
}

#[test]
fn host_stop_without_a_host_is_an_error() {
    let (s, a) = stop_step(StopState::Sending, None, StopEvent::Sent(false));
    assert!(s == StopState::Done);
    assert_eq!(
        finish_of(a),
        (1, None, Some("error: no Plexi host is running for this channel".to_string()), false)
    );
}
