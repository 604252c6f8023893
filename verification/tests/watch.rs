use plexi::crawl::{Command, PlexiDescriptor, UiHint};
use plexi::watch::{
    drift_status, extract_version, parse_top_level_commands, stale_status, watch_one,
    MockInspector, RegistryError, WatchStatus,
};

/// The registry's `gh` descriptor: version 2.40.0, with the top-level
/// commands auth, pr, issue, repo and release.
fn gh_descriptor() -> PlexiDescriptor {
    let commands = ["auth", "pr", "issue", "repo", "release"]
        .iter()
        .map(|n| Command {
            name: n.to_string(),
            description: None,
            icon: None,
            ui_hint: Some(UiHint::List),
        })
        .collect();
    PlexiDescriptor {
        plexi_version: "0.1".into(),
        name: "gh".into(),
        version: "2.40.0".into(),
        description: None,
        icon: None,
        default_view: Some(UiHint::List),
        commands,
    }
}

fn not_found(cli: &str) -> Result<PlexiDescriptor, RegistryError> {
    Err(RegistryError::NotFound {
        cli: cli.to_string(),
        version: "latest".to_string(),
    })
}

#[test]
fn watch_reports_not_installed_for_missing_binary() {
    let inspector = MockInspector {
        installed: false,
        version_str: String::new(),
        help_str: String::new(),
    };
    let report = watch_one(&inspector, "gh", &Ok(gh_descriptor()));
    assert_eq!(report.status, WatchStatus::NotInstalled);
}

#[test]
fn watch_reports_up_to_date_when_versions_match() {
    let inspector = MockInspector {
        installed: true,
        version_str: "gh version 2.40.0 (2023-12-14)".into(),
        help_str: "Usage:  gh <command> <subcommand> [flags]\n\n\
                   CORE COMMANDS\n  \
                   auth:        do auth\n  \
                   pr:          do pr\n  \
                   issue:       do issue\n  \
                   repo:        do repo\n  \
                   release:     do release\n"
            .into(),
    };
    let report = watch_one(&inspector, "gh", &Ok(gh_descriptor()));
    assert!(
        matches!(report.status, WatchStatus::UpToDate { .. }),
        "expected UpToDate, got {:?}",
        report.status
    );
}

#[test]
fn watch_reports_stale_when_installed_version_exceeds_registry() {
    let inspector = MockInspector {
        installed: true,
        version_str: "gh version 2.99.0 (2026-01-01)".into(),
        help_str: String::new(),
    };
    let report = watch_one(&inspector, "gh", &Ok(gh_descriptor()));
    match report.status {
        WatchStatus::Stale { installed, registered } => {
            assert_eq!(installed, "2.99.0");
            assert_eq!(registered, "2.40.0");
        }
        other => panic!("expected Stale, got {other:?}"),
    }
}

#[test]
fn watch_reports_registry_error_for_unknown_cli() {
    let inspector = MockInspector {
        installed: true,
        version_str: "fake 0.0.1".into(),
        help_str: String::new(),
    };
    let report = watch_one(&inspector, "nonexistent-cli-zzz", &not_found("nonexistent-cli-zzz"));
    assert!(
        matches!(report.status, WatchStatus::RegistryError(_)),
        "expected RegistryError, got {:?}",
        report.status
    );
    assert_eq!(report.cli, "nonexistent-cli-zzz");
}

#[test]
fn registry_error_messages() {
    let e = RegistryError::NotFound { cli: "gh".into(), version: "latest".into() };
    assert_eq!(e.message(), "registry has no descriptor for `gh` version `latest`");
    let e = RegistryError::Malformed {
        cli: "fake".into(),
        path: "fake/latest.json".into(),
        source: "bad".into(),
    };
    assert_eq!(
        e.message(),
        "registry descriptor for `fake` at `fake/latest.json` is malformed: bad"
    );
}

#[test]
fn version_extraction() {
    assert_eq!(extract_version("gh version 2.40.0 (2023-12-14)"), "2.40.0");
    assert_eq!(extract_version("cargo 1.75.0 (1d8b05cdd 2023-11-20)"), "1.75.0");
    assert_eq!(extract_version("tool v1.2"), "");
    assert_eq!(extract_version("x 3.1-beta"), "3.1");
    assert_eq!(extract_version(""), "");
}

#[test]
fn top_level_commands_sorted_and_deduplicated() {
    let help = "Commands:\n  zeta   z\n  alpha: a\n  --flag  no\n  alpha  again\n  b@d  no\n\nMore Commands\n  mid  m\nOPTIONS\n  opt  o\n";
    assert_eq!(parse_top_level_commands(help), vec!["alpha", "mid", "zeta"]);
    assert!(parse_top_level_commands("nothing").is_empty());
}

#[test]
fn drift_lists_added_and_removed() {
    let d = gh_descriptor();
    let st = drift_status(&d, "COMMANDS\n  auth  a\n  pr  p\n  new  n\n");
    assert_eq!(
        st,
        WatchStatus::DescriptorDrift {
            added: vec!["new".to_string()],
            removed: vec!["issue".to_string(), "release".to_string(), "repo".to_string()],
        }
    );
    assert!(stale_status(&d, "gh version 2.40.0").is_none());
    assert!(stale_status(&d, "no version here").is_none());
}

#[test]
fn watch_status_follows_the_answers() {
    let reg: Result<PlexiDescriptor, RegistryError> = Ok(gh_descriptor());
    assert_eq!(plexi::watch::watch_status(None, &reg, Some("gh 9.9.9"), ""), WatchStatus::NotInstalled);
    assert_eq!(
        plexi::watch::watch_status(Some("/bin/gh"), &reg, Some("gh version 2.99.0 (2026-01-01)"), "ignored"),
        WatchStatus::Stale { installed: "2.99.0".into(), registered: "2.40.0".into() }
    );
    let help = "USAGE\n  gh <command>\n\nCORE COMMANDS\n  auth:  Auth\n  pr:   Pull requests\n  issue: Issues\n  repo:  Repos\n  release: Releases\n";
    assert_eq!(
        plexi::watch::watch_status(Some("/bin/gh"), &reg, Some("gh version 2.40.0"), help),
        WatchStatus::UpToDate { version: "2.40.0".into() }
    );
    assert_eq!(
        plexi::watch::watch_status(Some("/bin/gh"), &reg, None, help),
        WatchStatus::UpToDate { version: "2.40.0".into() }
    );
}
