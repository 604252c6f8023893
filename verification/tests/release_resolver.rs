use plexi::release::{
    detect_version_skew, resolve_best, GithubRelease, PreKind, Prerelease, ReleaseTag,
    SkewStatus, UpdateChannel,
};

fn tag(s: &str) -> ReleaseTag {
    ReleaseTag::parse(s).expect("valid tag")
}

#[test]
fn parse_stable() {
    let t = tag("v0.1.12");
    assert_eq!((t.major, t.minor, t.patch), (0, 1, 12));
    assert!(t.pre.is_none());
    assert_eq!(t.raw, "v0.1.12");
}

#[test]
fn parse_without_v_prefix() {
    let t = tag("1.2.3");
    assert_eq!((t.major, t.minor, t.patch), (1, 2, 3));
}

#[test]
fn parse_alpha() {
    let t = tag("v0.1.12-alpha.3");
    assert_eq!(
        t.pre,
        Some(Prerelease {
            kind: PreKind::Alpha,
            num: 3
        })
    );
}

#[test]
fn parse_beta() {
    let t = tag("v0.1.12-beta.1");
    assert_eq!(
        t.pre,
        Some(Prerelease {
            kind: PreKind::Beta,
            num: 1
        })
    );
}

#[test]
fn parse_malformed() {
    assert!(ReleaseTag::parse("v1.2").is_none());
    assert!(ReleaseTag::parse("v1.2.3.4").is_none());
    assert!(ReleaseTag::parse("vfoo").is_none());
    assert!(ReleaseTag::parse("v1.2.x").is_none());
}

#[test]
fn parse_old_rc_tag_rejected() {
    assert!(ReleaseTag::parse("v3.5.0-rc1").is_none());
    assert!(ReleaseTag::parse("v3.5.0-rc.1").is_none());
}

#[test]
fn ordering_cross_version() {
    assert!(tag("v0.2.0") > tag("v0.1.99"));
    assert!(tag("v1.0.0") > tag("v0.9.9"));
    assert!(tag("v0.1.13") > tag("v0.1.12"));
}

#[test]
fn ordering_prerelease_below_release() {
    assert!(tag("v0.1.12") > tag("v0.1.12-beta.1"));
    assert!(tag("v0.1.12") > tag("v0.1.12-alpha.9"));
}

#[test]
fn ordering_same_base_prereleases() {
    assert!(tag("v0.1.12-alpha.1") < tag("v0.1.12-alpha.2"));
    assert!(tag("v0.1.12-alpha.2") < tag("v0.1.12-beta.1"));
    assert!(tag("v0.1.12-beta.1") < tag("v0.1.12-beta.2"));
    assert!(tag("v0.1.12-beta.2") < tag("v0.1.12"));
}

#[test]
fn channel_acceptance() {
    let stable = tag("v0.1.12");
    let beta = tag("v0.1.12-beta.1");
    let alpha = tag("v0.1.12-alpha.1");

    assert!(UpdateChannel::Stable.accepts(&stable));
    assert!(!UpdateChannel::Stable.accepts(&beta));
    assert!(!UpdateChannel::Stable.accepts(&alpha));

    assert!(UpdateChannel::Beta.accepts(&stable));
    assert!(UpdateChannel::Beta.accepts(&beta));
    assert!(!UpdateChannel::Beta.accepts(&alpha));

    assert!(UpdateChannel::Alpha.accepts(&stable));
    assert!(UpdateChannel::Alpha.accepts(&beta));
    assert!(UpdateChannel::Alpha.accepts(&alpha));
}

#[test]
fn from_binary_name() {
    assert_eq!(
        UpdateChannel::from_binary_name("plexi"),
        UpdateChannel::Stable
    );
    assert_eq!(
        UpdateChannel::from_binary_name("plexi-beta"),
        UpdateChannel::Beta
    );
    assert_eq!(
        UpdateChannel::from_binary_name("plexi-alpha"),
        UpdateChannel::Alpha
    );
    assert_eq!(
        UpdateChannel::from_binary_name("plexi-pr-123"),
        UpdateChannel::Alpha
    );
    assert_eq!(
        UpdateChannel::from_binary_name("plexi-rc-010"),
        UpdateChannel::Stable
    );
}

fn rel(t: &str) -> GithubRelease {
    GithubRelease {
        tag_name: t.to_string(),
        prerelease: false,
        draft: false,
    }
}

#[test]
fn resolve_best_alpha_picks_newest_prerelease() {
    let releases = vec![
        rel("v0.1.12"),
        rel("v0.1.13-alpha.1"),
        rel("v0.1.13-alpha.2"),
        rel("v0.1.13-beta.1"),
    ];
    let current = tag("v0.1.12");
    let best = resolve_best(&releases, UpdateChannel::Alpha, &current).unwrap();
    assert_eq!(best.raw, "v0.1.13-beta.1");
}

#[test]
fn resolve_best_stable_ignores_prereleases() {
    let releases = vec![rel("v0.1.13-alpha.5"), rel("v0.1.13-beta.2")];
    let current = tag("v0.1.12");
    assert!(resolve_best(&releases, UpdateChannel::Stable, &current).is_none());
}

#[test]
fn resolve_best_skips_drafts() {
    let mut draft = rel("v0.2.0");
    draft.draft = true;
    let releases = vec![draft, rel("v0.1.13")];
    let current = tag("v0.1.12");
    let best = resolve_best(&releases, UpdateChannel::Stable, &current).unwrap();
    assert_eq!(best.raw, "v0.1.13");
}

#[test]
fn resolve_best_none_when_current_is_newest() {
    let releases = vec![rel("v0.1.10"), rel("v0.1.11")];
    let current = tag("v0.1.12");
    assert!(resolve_best(&releases, UpdateChannel::Alpha, &current).is_none());
}

#[test]
fn resolve_best_github_prerelease_flag_excluded_from_stable() {
    // A stable-looking tag GitHub flagged as prerelease must not reach stable.
    let mut flagged = rel("v0.1.13");
    flagged.prerelease = true;
    let releases = vec![flagged];
    let current = tag("v0.1.12");
    assert!(resolve_best(&releases, UpdateChannel::Stable, &current).is_none());
    // But alpha still accepts it.
    assert!(resolve_best(&releases, UpdateChannel::Alpha, &current).is_some());
}

#[test]
fn parse_windows() {
    let t = tag("v0.3.1-windows.1");
    assert_eq!(
        t.pre,
        Some(Prerelease {
            kind: PreKind::Windows,
            num: 1
        })
    );
}

#[test]
fn resolve_best_windows_stays_on_windows_track() {
    let releases = vec![
        rel("v0.3.1-alpha.6"),
        rel("v0.3.1-windows.1"),
        rel("v0.3.1-windows.2"),
    ];
    let current = tag("v0.3.1-windows.1");
    let best = resolve_best(&releases, UpdateChannel::Alpha, &current).unwrap();
    assert_eq!(best.raw, "v0.3.1-windows.2");
}

#[test]
fn resolve_best_alpha_ignores_windows_tags() {
    let releases = vec![rel("v0.3.1-windows.9"), rel("v0.3.1-alpha.6")];
    let current = tag("v0.3.1-alpha.5");
    let best = resolve_best(&releases, UpdateChannel::Alpha, &current).unwrap();
    assert_eq!(best.raw, "v0.3.1-alpha.6");
}

#[test]
fn resolve_best_beta_rejects_alpha_accepts_beta() {

    let releases = vec![rel("v0.1.13-alpha.9"), rel("v0.1.13-beta.1")];
    let current = tag("v0.1.12");
    let best = resolve_best(&releases, UpdateChannel::Beta, &current).unwrap();
    assert_eq!(best.raw, "v0.1.13-beta.1");
}

#[test]
fn skew_in_sync_when_equal() {
    assert_eq!(detect_version_skew("v0.2.0", "v0.2.0"), SkewStatus::InSync);
}

#[test]
fn skew_in_sync_when_running_is_newer() {
    // Transient state (mid-update) is not an error.
    assert_eq!(detect_version_skew("v0.2.0", "v0.2.1"), SkewStatus::InSync);
}

#[test]
fn skew_detected_on_patch_behind() {
    assert_eq!(
        detect_version_skew("v0.2.1", "v0.2.0"),
        SkewStatus::Skewed {
            bundle: "v0.2.1".to_string(),
            running: "v0.2.0".to_string(),
        }
    );
}

#[test]
fn skew_detected_on_major_minor_behind() {
    assert_eq!(
        detect_version_skew("v0.2.0", "v0.1.16"),
        SkewStatus::Skewed {
            bundle: "v0.2.0".to_string(),
            running: "v0.1.16".to_string(),
        }
    );
}

#[test]
fn skew_detected_running_old_prerelease_bundle_final() {
    assert_eq!(
        detect_version_skew("v0.2.0", "v0.2.0-alpha.1"),
        SkewStatus::Skewed {
            bundle: "v0.2.0".to_string(),
            running: "v0.2.0-alpha.1".to_string(),
        }
    );
}

#[test]
fn skew_detected_running_old_prerelease_bundle_newer_prerelease() {
    assert_eq!(
        detect_version_skew("v0.2.0-alpha.2", "v0.2.0-alpha.1"),
        SkewStatus::Skewed {
            bundle: "v0.2.0-alpha.2".to_string(),
            running: "v0.2.0-alpha.1".to_string(),
        }
    );
}

#[test]
fn skew_unknown_on_unparseable_bundle() {
    match detect_version_skew("not-a-version", "v0.2.0") {
        SkewStatus::Unknown { reason } => {
            assert!(reason.contains("bundle"), "reason was: {reason}");
        }
        other => panic!("expected Unknown, got {other:?}"),
    }
}

#[test]
fn skew_unknown_on_unparseable_running() {
    match detect_version_skew("v0.2.0", "not-a-version") {
        SkewStatus::Unknown { reason } => {
            assert!(reason.contains("running"), "reason was: {reason}");
        }
        other => panic!("expected Unknown, got {other:?}"),
    }
}
