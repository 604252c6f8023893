use plexi::channel::{
    channel_bundle_cap, channel_label_from, resolve_channel_paths, command_socket_available_from,
    profile_dir_name, resolve_command_socket_from, spawn_gate_error,
};

#[test]
fn main_channel_has_no_cap() {
    assert_eq!(channel_bundle_cap(None), "");
}

#[test]
fn alpha_channel() {
    assert_eq!(channel_bundle_cap(Some("alpha")), " Alpha");
}

#[test]
fn beta_channel() {
    assert_eq!(channel_bundle_cap(Some("beta")), " Beta");
}

#[test]
fn pr_channel() {
    assert_eq!(channel_bundle_cap(Some("pr-2357")), " PR2357");
}

#[test]
fn arbitrary_named_channel_is_title_cased() {
    assert_eq!(channel_bundle_cap(Some("gpui")), " Gpui");
    assert_eq!(channel_bundle_cap(Some("foo")), " Foo");
}

#[test]
fn empty_named_channel_has_no_cap() {
    assert_eq!(channel_bundle_cap(Some("")), "");
}

#[test]
fn channel_paths_follow_the_bundle_cap() {
    assert_eq!(
        resolve_channel_paths(Some("alpha")),
        (
            "/Applications/Plexi Alpha.app".to_string(),
            "/Applications/Plexi Alpha.app/Contents/MacOS/plexi-alpha".to_string()
        )
    );
    assert_eq!(
        resolve_channel_paths(None),
        (
            "/Applications/Plexi.app".to_string(),
            "/Applications/Plexi.app/Contents/MacOS/plexi".to_string()
        )
    );
}

#[test]
fn host_config_dir_depends_only_on_channel_argument() {
    assert_eq!(profile_dir_name(Some("alpha")), profile_dir_name(Some("alpha")));
    assert!(
        profile_dir_name(Some("alpha")).ends_with(".plexi-alpha"),
        "expected .plexi-alpha profile dir"
    );
}

#[test]
fn host_config_dir_main_channel_has_no_suffix() {
    let dir = profile_dir_name(None);
    assert!(dir.ends_with(".plexi"), "expected .plexi profile dir, got {dir:?}");
}

#[test]
fn gate_error_is_typed_and_names_channel_and_socket() {
    let msg = spawn_gate_error("alpha", "/tmp/x/notify.sock");
    assert!(msg.contains("host not servicing pane spawns on channel alpha"));
    assert!(msg.contains("/tmp/x/notify.sock"));
    assert!(msg.contains("nothing was spawned"));
}

#[test]
fn channel_label_derivation() {
    assert_eq!(channel_label_from(".plexi-alpha"), "alpha");
    assert_eq!(channel_label_from(".plexi-pr-2470"), "pr-2470");
    assert_eq!(channel_label_from(".plexi"), "default");
    assert_eq!(channel_label_from(""), "default");
}

#[test]
fn pr_binary_uses_own_channel_socket_when_ambient_socket_mismatches() {
    let actual = resolve_command_socket_from(
        None,
        Some("pr-2384"),
        Some("/tmp/alpha.sock"),
        "/Users/test",
    );
    assert_eq!(actual, Some("/Users/test/.plexi-pr-2384/notify.sock".to_string()));
}

#[test]
fn alpha_binary_uses_own_channel_socket_when_ambient_socket_mismatches() {
    let actual =
        resolve_command_socket_from(None, Some("alpha"), Some("/tmp/beta.sock"), "/Users/test");
    assert_eq!(actual, Some("/Users/test/.plexi-alpha/notify.sock".to_string()));
}

#[test]
fn beta_binary_uses_own_channel_socket_when_ambient_socket_mismatches() {
    let actual =
        resolve_command_socket_from(None, Some("beta"), Some("/tmp/alpha.sock"), "/Users/test");
    assert_eq!(actual, Some("/Users/test/.plexi-beta/notify.sock".to_string()));
}

#[test]
fn bare_binary_preserves_ambient_socket() {
    let actual = resolve_command_socket_from(None, None, Some("/tmp/ambient.sock"), "/Users/test");
    assert_eq!(actual, Some("/tmp/ambient.sock".to_string()));
}

#[test]
fn suffixed_binary_accepts_matching_channel_socket() {
    let actual = resolve_command_socket_from(
        None,
        Some("alpha"),
        Some("/Users/test/.plexi-alpha/notify.sock"),
        "/Users/test",
    );
    assert_eq!(actual, Some("/Users/test/.plexi-alpha/notify.sock".to_string()));
}

#[test]
fn explicit_socket_override_wins_for_suffixed_binary() {
    let actual = resolve_command_socket_from(
        Some("/tmp/explicit.sock"),
        Some("pr-2384"),
        Some("/tmp/ambient.sock"),
        "/Users/test",
    );
    assert_eq!(actual, Some("/tmp/explicit.sock".to_string()));
}

#[test]
fn explicit_socket_override_enables_direct_dispatch_without_ambient_socket() {
    assert!(command_socket_available_from(true, false));
}

#[test]
fn binary_suffix_alone_does_not_enable_direct_dispatch() {
    let resolved = resolve_command_socket_from(None, Some("alpha"), None, "/Users/test");
    assert_eq!(
        (resolved, command_socket_available_from(false, false)),
        (Some("/Users/test/.plexi-alpha/notify.sock".to_string()), false)
    );
}

#[test]
fn home_with_trailing_slash_joins_without_doubling() {
    let resolved = resolve_command_socket_from(None, Some("beta"), None, "/Users/test/");
    assert_eq!(resolved, Some("/Users/test/.plexi-beta/notify.sock".to_string()));
}

#[test]
fn connect_poll_expiry_is_typed_as_connect_timeout() {
    let error = plexi::channel::classify_connect_wait(Ok(false)).expect_err("timeout");
    assert!(matches!(error, plexi::channel::SocketTransportError::ConnectTimeout));
}

#[test]
fn connect_poll_ready_and_error() {
    assert!(plexi::channel::classify_connect_wait(Ok(true)).is_ok());
    let e = std::io::Error::new(std::io::ErrorKind::Other, "boom");
    assert!(matches!(
        plexi::channel::classify_connect_wait(Err(e)),
        Err(plexi::channel::SocketTransportError::Connect(_))
    ));
}

#[test]
fn refused_connect_removes_the_stale_socket() {
    let e = plexi::channel::SocketTransportError::Connect(std::io::Error::from(std::io::ErrorKind::ConnectionRefused));
    assert_eq!(
        plexi::channel::delivery_report("/tmp/p.sock", 10, e),
        (true, "error: Plexi is not responding (stale socket removed). Is Plexi running?".to_string())
    );
}

#[test]
fn connect_failures_name_the_socket() {
    let e = plexi::channel::SocketTransportError::Connect(std::io::Error::new(std::io::ErrorKind::Other, "boom"));
    assert_eq!(
        plexi::channel::delivery_report("/tmp/p.sock", 10, e),
        (false, "error: could not connect to PLEXI_SOCKET \"/tmp/p.sock\": boom".to_string())
    );
    assert_eq!(
        plexi::channel::delivery_report("/tmp/p.sock", 10, plexi::channel::SocketTransportError::ConnectTimeout),
        (false, "error: timed out connecting to PLEXI_SOCKET \"/tmp/p.sock\"; request was not delivered".to_string())
    );
}

#[test]
fn write_failures_say_how_far_they_got() {
    let t = |b: usize| plexi::channel::SocketTransportError::WriteTimeout { bytes_written: b };
    assert_eq!(
        plexi::channel::delivery_report("/s", 10, t(0)).1,
        "error: timed out writing request to PLEXI_SOCKET \"/s\"; the incomplete frame was not delivered and is safe to retry"
    );
    assert_eq!(
        plexi::channel::delivery_report("/s", 10, t(4)).1,
        "error: timed out writing request to PLEXI_SOCKET \"/s\" after 4/10 bytes; the incomplete frame was not delivered and is safe to retry"
    );
    let w = |b: usize| plexi::channel::SocketTransportError::Write {
        source: std::io::Error::new(std::io::ErrorKind::Other, "broken pipe"),
        bytes_written: b,
    };
    assert_eq!(plexi::channel::delivery_report("/s", 10, w(0)).1, "error: could not write request to socket: broken pipe");
    assert_eq!(
        plexi::channel::delivery_report("/s", 10, w(3)).1,
        "error: socket write failed after 3/10 bytes: broken pipe; the incomplete frame was not delivered and is safe to retry"
    );
}
