use plexi::release::UpdateChannel;
use plexi::updater::{
    build_channel_of, cache_json, cached_json_fresh_for_channel, cached_latest, channel_key,
    installed_tag_choice, is_newer, update_cache_fresh_for_channel, CHECK_INTERVAL_SECS,
};

fn cache(checked_at: u64, channel: &str) -> Vec<u8> {
    format!(r#"{{"checked_at":{checked_at},"channel":"{channel}","latest":null}}"#).into_bytes()
}

#[test]
fn update_check_cache_fresh_requires_matching_channel_and_interval() {
    let now = CHECK_INTERVAL_SECS * 2;
    let c = cache(now - CHECK_INTERVAL_SECS + 1, "alpha");
    assert!(update_cache_fresh_for_channel(Some(&c), UpdateChannel::Alpha, now));
    assert!(!update_cache_fresh_for_channel(Some(&c), UpdateChannel::Beta, now));
    let c = cache(now - CHECK_INTERVAL_SECS, "alpha");
    assert!(!update_cache_fresh_for_channel(Some(&c), UpdateChannel::Alpha, now));
    assert!(!update_cache_fresh_for_channel(None, UpdateChannel::Alpha, now));
    assert!(!update_cache_fresh_for_channel(Some(b"not json"), UpdateChannel::Alpha, now));
}

#[test]
fn freshness_of_fields() {
    assert!(cached_json_fresh_for_channel(Some(10), Some("beta"), UpdateChannel::Beta, 20));
    // A record from the future counts as age zero.
    assert!(cached_json_fresh_for_channel(Some(100), Some("stable"), UpdateChannel::Stable, 20));
    // A missing time counts as the epoch.
    assert!(!cached_json_fresh_for_channel(None, Some("stable"), UpdateChannel::Stable, 86400));
    assert!(!cached_json_fresh_for_channel(Some(10), None, UpdateChannel::Stable, 20));
    assert_eq!(channel_key(UpdateChannel::Stable), "stable");
}

#[test]
fn cached_latest_answers_only_when_fresh() {
    let now = 1000;
    let c = br#"{"checked_at":999,"channel":"alpha","latest":"v1.2.3-alpha.1"}"#;
    assert_eq!(cached_latest(Some(c), UpdateChannel::Alpha, now), Some(Some("v1.2.3-alpha.1".to_string())));
    assert_eq!(cached_latest(Some(c), UpdateChannel::Beta, now), None);
    let c = cache(999, "alpha");
    assert_eq!(cached_latest(Some(&c), UpdateChannel::Alpha, now), Some(None));
}

#[test]
fn cache_record_round_trips() {
    let latest = Some("v0.2.0".to_string());
    let text = cache_json(5000, UpdateChannel::Beta, &latest);
    assert_eq!(text, r#"{"channel":"beta","checked_at":5000,"latest":"v0.2.0"}"#);
    assert_eq!(cached_latest(Some(text.as_bytes()), UpdateChannel::Beta, 5001), Some(latest));
    assert_eq!(cache_json(1, UpdateChannel::Stable, &None), r#"{"channel":"stable","checked_at":1,"latest":null}"#);
}

#[test]
fn newer_release_detection() {
    assert!(is_newer("v0.1.14", "v0.1.13"));
    assert!(is_newer("v0.1.13", "v0.1.13-beta.2"));
    assert!(!is_newer("v0.1.13", "v0.1.13"));
    assert!(!is_newer("garbage", "v0.1.13"));
}

#[test]
fn installed_tag_and_build_channel() {
    assert_eq!(installed_tag_choice(Some(" v1.2.3\n".into()), "9.9.9"), "v1.2.3");
    assert_eq!(installed_tag_choice(Some("junk".into()), "9.9.9"), "v9.9.9");
    assert_eq!(installed_tag_choice(None, "0.1.0"), "v0.1.0");
    assert_eq!(build_channel_of("plexi"), "main");
    assert_eq!(build_channel_of("plexi-alpha"), "alpha");
    assert_eq!(build_channel_of("other"), "main");
}

#[test]
fn self_update_refuses_another_channels_pane() {
    assert_eq!(plexi::updater::channel_mismatch(None, Some("alpha"), "plexi-alpha"), None);
    assert_eq!(plexi::updater::channel_mismatch(Some(""), None, "plexi"), None);
    assert_eq!(plexi::updater::channel_mismatch(Some("main"), None, "plexi"), None);
    assert_eq!(
        plexi::updater::channel_mismatch(Some("beta"), Some("alpha"), "plexi-alpha"),
        Some("error: PLEXI_CHANNEL=beta but this binary is 'plexi-alpha' (channel alpha).\nRun the matching channel binary to self-update.".to_string())
    );
}

#[test]
fn self_update_messages() {
    assert_eq!(plexi::updater::release_version("v1.2.3"), "1.2.3");
    assert_eq!(plexi::updater::release_version("vv2"), "2");
    assert_eq!(plexi::updater::release_version("1.0"), "1.0");
    assert_eq!(
        plexi::updater::install_script_url("v1.2.3"),
        "https://raw.githubusercontent.com/ianjamesburke/PLEXI/v1.2.3/scripts/install.sh"
    );
    assert_eq!(plexi::updater::self_update_result("v1.0.0", None), "Already up to date (v1.0.0).");
    assert_eq!(plexi::updater::self_update_result("v1.0.0", Some("1.1.0")), "Installed v1.1.0. Restart Plexi to apply.");
}
