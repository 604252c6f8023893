use plexi::open::{
    agent_boot_outcome, pane_queue_payload, pane_queued_message, response_outcome, spawn_pane_payload,
    ReplyOutcome, raw_wasm_app_id, raw_wasm_review, raw_wasm_workspace_root, review_accepts,
    review_outcome, spawn_target, mcp_pane_title, parse_prefix, slot_write_ack, trust_grants,
    OpenPrefix, SlotWaitOutcome, SubmitOutcome,
};

fn args(v: &[&str]) -> Vec<String> {
    v.iter().map(|s| s.to_string()).collect()
}

#[test]
fn prefix_app() {
    match parse_prefix("app:snake") {
        OpenPrefix::App(name) => assert_eq!(name, "snake"),
        _ => panic!("expected App prefix"),
    }
}

#[test]
fn prefix_cli() {
    match parse_prefix("cli:git") {
        OpenPrefix::Cli(name) => assert_eq!(name, "git"),
        _ => panic!("expected Cli prefix"),
    }
}

#[test]
fn prefix_mcp() {
    match parse_prefix("mcp:filesystem") {
        OpenPrefix::Mcp(name) => assert_eq!(name, "filesystem"),
        _ => panic!("expected Mcp prefix"),
    }
}

#[test]
fn prefix_bare() {
    match parse_prefix("snake") {
        OpenPrefix::Bare(name) => assert_eq!(name, "snake"),
        _ => panic!("expected Bare prefix"),
    }
}

#[test]
fn prefix_github_stays_bare() {
    match parse_prefix("github:owner/repo") {
        OpenPrefix::Bare(name) => assert_eq!(name, "github:owner/repo"),
        _ => panic!("expected Bare for github: prefix"),
    }
}

#[test]
fn mcp_title_npx_scoped_server() {
    assert_eq!(
        mcp_pane_title(&args(&["npx", "@modelcontextprotocol/server-filesystem", "/tmp"])),
        "mcp: filesystem"
    );
}

#[test]
fn mcp_title_uvx_mcp_server_prefix() {
    assert_eq!(mcp_pane_title(&args(&["uvx", "mcp-server-fetch"])), "mcp: fetch");
}

#[test]
fn mcp_title_scoped_server_git() {
    assert_eq!(mcp_pane_title(&args(&["npx", "@scope/server-git"])), "mcp: git");
}

#[test]
fn mcp_title_bare_binary() {
    assert_eq!(mcp_pane_title(&args(&["my-mcp-tool"])), "mcp: my-mcp-tool");
}

#[test]
fn mcp_title_empty_args() {
    assert_eq!(mcp_pane_title(&[]), "mcp: mcp");
}

#[test]
fn mcp_title_skips_flags() {
    assert_eq!(mcp_pane_title(&args(&["npx", "-y", "server-x"])), "mcp: x");
}

#[test]
fn ack_replace_reports_byte_count() {
    assert_eq!(slot_write_ack("status", 4, false), "slot \"status\" <- 4 bytes");
}

#[test]
fn ack_append_uses_append_arrow() {
    assert_eq!(slot_write_ack("status", 12, true), "slot \"status\" +<- 12 bytes");
}

#[test]
fn outcome_exit_codes() {
    assert_eq!(SlotWaitOutcome::Matched(vec![1]).exit_code(), 0);
    assert_eq!(SlotWaitOutcome::Failed("x".into()).exit_code(), 1);
    assert_eq!(SlotWaitOutcome::TimedOut("x".into()).exit_code(), 2);
    assert_eq!(SubmitOutcome::Confirmed { retried: true }.exit_code(), 0);
    assert_eq!(
        SubmitOutcome::Unconfirmed { message: "m".into(), input_line: vec![] }.exit_code(),
        1
    );
}

#[test]
fn spawn_target_chooses_type_and_args() {
    let none: Vec<String> = vec![];
    let extra = vec!["-la".to_string(), "/tmp".to_string()];
    assert_eq!(spawn_target(Some("ls"), None, &none, &extra), ("terminal".to_string(), vec!["ls -la /tmp".to_string()]));
    assert_eq!(spawn_target(None, None, &none, &none), ("terminal".to_string(), vec![]));
    assert_eq!(spawn_target(Some("x"), Some("notes"), &none, &extra), ("notes".to_string(), extra.clone()));
    let mcp = vec!["npx".to_string(), "server".to_string()];
    assert_eq!(spawn_target(None, None, &mcp, &extra), ("mcp-renderer".to_string(), mcp.clone()));
}

#[test]
fn booted_agent_prints_only_the_pane_id() {
    let outcome = agent_boot_outcome(r#"{"pane_id":42}"#);

    assert_eq!(outcome.stdout.as_deref(), Some("42"));
    assert!(outcome.stderr.is_empty());
    assert_eq!(outcome.exit_code, 0);
}

#[test]
fn boot_timeout_exits_two_with_the_pane_id_on_stderr() {
    let outcome =
        agent_boot_outcome(r#"{"ok":false,"timeout":true,"pane_id":42,"error":"timed out"}"#);

    assert_eq!(outcome.stdout, None, "stdout must stay empty on timeout");
    assert_eq!(outcome.stderr, vec!["error: timed out", "pane id: 42"]);
    assert_eq!(outcome.exit_code, 2);
}

#[test]
fn vanished_pane_exits_one_without_a_cleanup_id() {
    let outcome = agent_boot_outcome(
        r#"{"ok":false,"timeout":false,"pane_id":42,"error":"pane closed"}"#,
    );

    assert_eq!(outcome.stdout, None);
    assert_eq!(outcome.stderr, vec!["error: pane closed"]);
    assert_eq!(outcome.exit_code, 1);
}

#[test]
fn spawn_error_exits_one() {
    let outcome = agent_boot_outcome(r#"{"error":"context 'x' does not exist"}"#);

    assert_eq!(outcome.stdout, None);
    assert_eq!(outcome.exit_code, 1);
}

#[test]
fn unreadable_reply_exits_one_with_empty_stdout() {
    let outcome = agent_boot_outcome("not json at all");

    assert_eq!(outcome.stdout, None);
    assert_eq!(outcome.exit_code, 1);
}

#[test]
fn agent_reply_without_pane_id_names_the_reply() {
    let outcome = agent_boot_outcome(r#"{"ok":true}"#);
    assert_eq!(outcome.stdout, None);
    assert_eq!(outcome.stderr, vec![r#"error: spawn response carried no pane id: {"ok":true}"#]);
    assert_eq!(outcome.exit_code, 1);
    let unreadable = agent_boot_outcome("nope");
    assert_eq!(unreadable.stderr, vec!["error: unreadable spawn response: nope"]);
}

fn caps(v: &[&str]) -> Vec<String> {
    v.iter().map(|s| s.to_string()).collect()
}

#[test]
fn raw_wasm_ids_come_from_the_path() {
    assert_eq!(raw_wasm_app_id("/tmp/fixtures/sysmon.wasm"), "sysmon");
    assert_eq!(raw_wasm_app_id("/"), "wasm");
    assert_eq!(raw_wasm_workspace_root("/tmp/fixtures/sysmon.wasm"), "/tmp/fixtures");
    assert_eq!(raw_wasm_workspace_root("/"), ".");
}

#[test]
fn raw_wasm_review_without_imports_runs_at_once() {
    assert_eq!(raw_wasm_review(&caps(&[]), &caps(&[]), &caps(&["net"]), false), Ok(vec![]));
    assert_eq!(
        raw_wasm_review(&caps(&["net", "fs.read"]), &caps(&["net", "fs.read"]), &caps(&[]), false),
        Ok(vec![])
    );
}

#[test]
fn raw_wasm_review_refuses_blocked_imports() {
    assert_eq!(
        raw_wasm_review(&caps(&["net", "fs.read", "clock"]), &caps(&[]), &caps(&["clock", "net"]), true),
        Err("raw WASM launch blocked by saved decision for: net, clock".to_string())
    );
}

#[test]
fn raw_wasm_review_requires_a_terminal_for_unreviewed_imports() {
    assert_eq!(
        raw_wasm_review(&caps(&["net", "fs.read"]), &caps(&["net"]), &caps(&[]), false),
        Err("raw WASM launch requires review for: fs.read. Run `plexi app open` from a terminal to approve these imports.".to_string())
    );
    assert_eq!(
        raw_wasm_review(&caps(&["net", "fs.read"]), &caps(&["net"]), &caps(&[]), true),
        Ok(caps(&["fs.read"]))
    );
}

#[test]
fn review_answers_accept_only_yes() {
    assert!(review_accepts("y\n"));
    assert!(review_accepts("  YES "));
    assert!(!review_accepts("n"));
    assert!(!review_accepts(""));
    assert!(!review_accepts("yes please"));
    assert_eq!(review_outcome(caps(&["net"]), true), Ok(caps(&["net"])));
    assert_eq!(review_outcome(caps(&["net"]), false), Err("raw WASM launch cancelled".to_string()));
}

#[test]
fn trust_grants_add_the_file_picker() {
    assert_eq!(trust_grants(&caps(&["net"])), caps(&["net", "fs.pick"]));
    assert_eq!(trust_grants(&caps(&[])), caps(&["fs.pick"]));
}

fn object(members: Vec<(&str, serde_json::Value)>) -> String {
    let mut m = serde_json::Map::new();
    for (k, v) in members {
        m.insert(k.to_string(), v);
    }
    serde_json::Value::Object(m).to_string()
}

fn strs(v: &[&str]) -> serde_json::Value {
    serde_json::Value::Array(v.iter().map(|s| serde_json::Value::String(s.to_string())).collect())
}

#[test]
fn spawn_pane_payload_matches_the_json_the_host_reads() {
    let s = |x: &str| serde_json::Value::String(x.to_string());
    assert_eq!(
        spawn_pane_payload("terminal", &caps(&["htop -d 5"]), "/tmp/r.json", None, false, None, None, false, None, None, None, None),
        object(vec![
            ("type", s("spawn_pane")),
            ("type_id", s("terminal")),
            ("args", strs(&["htop -d 5"])),
            ("response_file", s("/tmp/r.json")),
        ])
    );
    assert_eq!(
        spawn_pane_payload(
            "mcp-renderer",
            &caps(&["npx", "@scope/server-fs"]),
            "/r",
            Some("tab"),
            true,
            Some(9),
            Some("/work"),
            true,
            Some("fs"),
            Some("ctx"),
            Some("c-large"),
            Some("30.0"),
        ),
        object(vec![
            ("type", s("spawn_pane")),
            ("type_id", s("mcp-renderer")),
            ("args", strs(&["npx", "@scope/server-fs"])),
            ("response_file", s("/r")),
            ("layout", s("tab")),
            ("ephemeral", serde_json::Value::Bool(true)),
            ("from_pane_id", serde_json::Value::from(9u64)),
            ("cwd", s("/work")),
            ("no_focus", serde_json::Value::Bool(true)),
            ("name", s("fs")),
            ("context_name", s("ctx")),
            ("agent_cmd", s("c-large")),
            ("boot_timeout_secs", serde_json::Value::from(30.0f64)),
        ])
    );
    assert!(!spawn_pane_payload("terminal", &caps(&[]), "/r", None, false, None, None, false, None, None, None, Some("5"))
        .contains("boot_timeout_secs"));
}

#[test]
fn pane_queue_payload_matches_the_json_the_host_reads() {
    let s = |x: &str| serde_json::Value::String(x.to_string());
    assert_eq!(
        pane_queue_payload("terminal", &caps(&[]), 42, Some("split_h"), true, None, false, Some("x"), None),
        object(vec![
            ("type_id", s("terminal")),
            ("args", strs(&[])),
            ("origin", s("pane new")),
            ("queued_at_ms", serde_json::Value::from(42u64)),
            ("layout", s("split_h")),
            ("ephemeral", serde_json::Value::Bool(true)),
            ("name", s("x")),
        ])
    );
    assert_eq!(pane_queued_message("terminal"), "queued: open terminal");
}

#[test]
fn pane_replies_print_the_pane_id_or_fail() {
    assert_eq!(
        response_outcome(r#"{"pane_id":7}"#),
        ReplyOutcome { stdout_text: "7\n".to_string(), stderr_lines: vec![], exit_code: 0 }
    );
    assert_eq!(
        response_outcome(r#"{"error":"no such context"}"#),
        ReplyOutcome {
            stdout_text: String::new(),
            stderr_lines: vec!["error: no such context".to_string()],
            exit_code: 1
        }
    );
    assert_eq!(
        response_outcome("ok"),
        ReplyOutcome { stdout_text: "ok".to_string(), stderr_lines: vec![], exit_code: 0 }
    );
}

#[test]
fn open_routes_github_then_app_dirs_then_wasm_then_panes() {
    use_route("github:o/r", true, true, plexi::open::OpenRoute::Github, false);
    use_route("./my-app", true, false, plexi::open::OpenRoute::AppDir, false);
    use_route("tool.wasm", false, true, plexi::open::OpenRoute::WasmComponent, false);
    use_route("snake", false, false, plexi::open::OpenRoute::Pane, false);
    use_route("terminal", false, false, plexi::open::OpenRoute::Pane, true);
}

fn use_route(t: &str, manifest: bool, wasm: bool, route: plexi::open::OpenRoute, warn: bool) {
    let (r, w) = plexi::open::open_route(t, manifest, wasm);
    assert!(r == route);
    assert_eq!(w, warn);
}

#[test]
fn mcp_title_keeps_a_path_without_a_scope() {
    assert_eq!(mcp_pane_title(&args(&["node", "dist/index.js"])), "mcp: dist/index.js");
    assert_eq!(mcp_pane_title(&args(&["npx", "@scopeonly"])), "mcp: @scopeonly");
}

#[test]
fn parsed_spawn_members_decide_the_agent_boot_outcome() {
    let timed_out = plexi::open::agent_boot_outcome_of("{}", Some((Some(7), Some("late".to_string()), Some(true), None, None, None)));
    assert_eq!(timed_out.stdout, None);
    assert_eq!(timed_out.stderr, vec!["error: late".to_string(), "pane id: 7".to_string()]);
    assert_eq!(timed_out.exit_code, 2);
    let booted = plexi::open::agent_boot_outcome_of("{}", Some((Some(12), None, None, None, None, None)));
    assert_eq!(booted.stdout.as_deref(), Some("12"));
    assert_eq!(booted.exit_code, 0);
    let reply = plexi::open::response_outcome_of("raw", Some((Some(3), None, None, None, None, None)));
    assert_eq!(reply, ReplyOutcome { stdout_text: "3\n".to_string(), stderr_lines: vec![], exit_code: 0 });
    let passthrough = plexi::open::response_outcome_of("raw", None);
    assert_eq!(passthrough.stdout_text, "raw");
}
