use plexi::install::{
    format_git_source_spec, install_hint_for, installed_entry_status, is_python_entry,
    keep_data_answer, keep_data_decision, local_source_and_version, outcome_line,
    outcomes_exit_code, split_source_and_ref, uninstall_paths, Captured, InstallOutcome,
    InstallPlatform, InstallStatus, InstallTarget, infer_source_and_version, pack_entry_finish,
    pack_entry_step, update_one, Cloner, PackEntryStep, SourceSpec, install_report,
};
use std::cell::RefCell;

const TARGET: InstallTarget = InstallTarget {
    brew: Some("example"),
    apt: Some("example-cli"),
    winget: Some("Example.Cli"),
    url: "https://example.test/install",
};

#[test]
fn install_hints_use_the_native_package_manager_with_a_fallback_url() {
    assert_eq!(install_hint_for(InstallPlatform::Macos, TARGET), "brew install example");
    assert_eq!(
        install_hint_for(InstallPlatform::Linux, TARGET),
        "sudo apt install example-cli (or https://example.test/install)"
    );
    assert_eq!(
        install_hint_for(InstallPlatform::Windows, TARGET),
        "winget install Example.Cli (or https://example.test/install)"
    );
}

#[test]
fn install_hints_fall_back_to_the_official_url_when_no_package_is_supported() {
    let url_only = InstallTarget {
        brew: None,
        apt: None,
        winget: None,
        url: "https://example.test/install",
    };
    assert_eq!(
        install_hint_for(InstallPlatform::Linux, url_only),
        "install from https://example.test/install"
    );
    assert_eq!(
        install_hint_for(InstallPlatform::Other, url_only),
        "install from https://example.test/install"
    );
}

#[test]
fn split_source_and_ref_handles_at_suffix() {
    let (s, r) = split_source_and_ref("github:owner/repo@v1.0.0");
    assert_eq!(s, "github:owner/repo");
    assert_eq!(r.as_deref(), Some("v1.0.0"));

    let (s, r) = split_source_and_ref("github:owner/repo");
    assert_eq!(s, "github:owner/repo");
    assert_eq!(r, None);

    // git+ssh://user@host/repo.git@v1 — must split at the LAST @ after scheme.
    let (s, r) = split_source_and_ref("git+ssh://user@host.example.com/repo.git@v1");
    assert_eq!(s, "git+ssh://user@host.example.com/repo.git");
    assert_eq!(r.as_deref(), Some("v1"));

    // git+ssh://user@host/repo.git (no ref) — must NOT eat user@host.
    let (s, r) = split_source_and_ref("git+ssh://user@host.example.com/repo.git");
    assert_eq!(s, "git+ssh://user@host.example.com/repo.git");
    assert_eq!(r, None);
}

#[test]
fn split_source_and_ref_edge_cases() {
    assert_eq!(split_source_and_ref("name@"), ("name@".to_string(), None));
    assert_eq!(split_source_and_ref("app@@v2"), ("app@".to_string(), Some("v2".to_string())));
    assert_eq!(split_source_and_ref("plain"), ("plain".to_string(), None));
}

#[test]
fn git_source_spec_prefers_github_short_form() {
    assert_eq!(format_git_source_spec("https://github.com/owner/repo.git"), "github:owner/repo");
    assert_eq!(format_git_source_spec("git@github.com:owner/repo.git"), "github:owner/repo");
    assert_eq!(
        format_git_source_spec("https://github.com/owner/repo/extra"),
        "git+https://github.com/owner/repo/extra"
    );
    assert_eq!(
        format_git_source_spec("ssh://git@example.com/repo.git"),
        "git+ssh://git@example.com/repo.git"
    );
    assert_eq!(format_git_source_spec("/local/path"), "/local/path");
}

#[test]
fn local_apps_record_local_scheme_and_bundled_default() {
    assert_eq!(
        local_source_and_version("notes", ""),
        ("local:notes".to_string(), "bundled".to_string())
    );
    assert_eq!(
        local_source_and_version("notes", "1.2.0"),
        ("local:notes".to_string(), "1.2.0".to_string())
    );
}

#[test]
fn venv_path_is_inside_app_dir() {
    let app_dir = std::path::Path::new("/tmp/apps/my-app");
    let venv = app_dir.join(".venv");
    assert_eq!(venv, std::path::PathBuf::from("/tmp/apps/my-app/.venv"));
    let py = venv.join("bin").join("python");
    assert_eq!(py, std::path::PathBuf::from("/tmp/apps/my-app/.venv/bin/python"));
}

#[test]
fn python_entry_detected_by_extension() {
    assert!(is_python_entry("main.py"), "main.py should be detected as Python");
    assert!(!is_python_entry("run.sh"), "run.sh must not be detected as Python");
    assert!(!is_python_entry("myapp"), "entry with no extension must not be detected as Python");
    assert!(is_python_entry("app.py"), "app.py should be detected as Python");
}

#[test]
fn help_text_falls_back_to_stderr() {
    let c = Captured {
        success: true,
        stdout: "   ".into(),
        stderr: "usage info".into(),
    };
    assert_eq!(c.help_text(), "usage info");
}

#[test]
fn help_text_prefers_stdout() {
    let c = Captured {
        success: false,
        stdout: "usage: x".into(),
        stderr: "warn".into(),
    };
    assert_eq!(c.help_text(), "usage: x");
}

#[test]
fn installed_entry_at_same_version_is_up_to_date() {
    let o = installed_entry_status(&"notes".to_string(), &"1.0".to_string(), Some(&"1.0".to_string()))
        .expect("installed entries are decided without an install");
    assert_eq!(o.id, "notes");
    assert_eq!(o.status, InstallStatus::AlreadyAtVersion);
}

#[test]
fn installed_entry_at_other_version_is_skipped() {
    let o = installed_entry_status(&"notes".to_string(), &"2.0".to_string(), Some(&"1.0".to_string()))
        .unwrap();
    assert_eq!(
        o.status,
        InstallStatus::SkippedOtherVersion { installed: "1.0".into(), requested: "2.0".into() }
    );
    assert!(installed_entry_status(&"notes".to_string(), &"2.0".to_string(), None).is_none());
}

#[test]
fn outcome_lines_pad_the_id_to_thirty_columns() {
    let ok = InstallOutcome { id: "notes".into(), status: InstallStatus::Installed("/apps/notes".into()) };
    assert_eq!(
        outcome_line(&ok),
        (false, format!("  installed  {:30} → /apps/notes", "notes"))
    );
    let same = InstallOutcome { id: "notes".into(), status: InstallStatus::AlreadyAtVersion };
    assert_eq!(outcome_line(&same).1, format!("  up-to-date {:30}", "notes"));
    let skip = InstallOutcome {
        id: "notes".into(),
        status: InstallStatus::SkippedOtherVersion { installed: "1".into(), requested: "2".into() },
    };
    assert_eq!(
        outcome_line(&skip).1,
        format!("  skipped    {:30} (installed 1, requested 2)", "notes")
    );
    let bad = InstallOutcome { id: "x".repeat(40), status: InstallStatus::Failed("boom".into()) };
    assert_eq!(outcome_line(&bad), (true, format!("  FAILED     {} boom", "x".repeat(40))));
}

#[test]
fn any_failed_outcome_makes_the_exit_code_one() {
    let ok = InstallOutcome { id: "a".into(), status: InstallStatus::AlreadyAtVersion };
    let bad = InstallOutcome { id: "b".into(), status: InstallStatus::Failed("e".into()) };
    assert_eq!(outcomes_exit_code(&vec![]), 0);
    assert_eq!(outcomes_exit_code(&vec![ok.clone()]), 0);
    assert_eq!(outcomes_exit_code(&vec![ok, bad]), 1);
}

#[test]
fn keep_data_answers_are_trimmed_and_case_insensitive() {
    assert_eq!(keep_data_answer(" Yes \n"), Some(true));
    assert_eq!(keep_data_answer("y"), Some(true));
    assert_eq!(keep_data_answer("NO"), Some(false));
    assert_eq!(keep_data_answer("n"), Some(false));
    assert_eq!(keep_data_answer("maybe"), None);
    assert_eq!(keep_data_answer(""), None);
}

#[test]
fn keep_data_decision_order() {
    assert_eq!(keep_data_decision(true, true, false), Some(true));
    assert_eq!(keep_data_decision(false, false, false), Some(false));
    assert_eq!(keep_data_decision(false, true, true), Some(false));
    assert_eq!(keep_data_decision(false, true, false), None);
}

#[test]
fn uninstall_paths_follow_the_channel() {
    assert_eq!(
        uninstall_paths(None),
        (".plexi".to_string(), "/Applications/Plexi.app".to_string(), "/usr/local/bin/plexi".to_string())
    );
    assert_eq!(
        uninstall_paths(Some("alpha")),
        (
            ".plexi-alpha".to_string(),
            "/Applications/Plexi Alpha.app".to_string(),
            "/usr/local/bin/plexi-alpha".to_string()
        )
    );
    assert_eq!(uninstall_paths(Some("pr-12")).1, "/Applications/Plexi PR12.app");
}

#[test]
fn pack_entries_already_installed_are_reported() {
    let git = Ok(SourceSpec::Git("https://example.com/foo.git".into()));
    match pack_entry_step(&"foo".to_string(), &"0.0.1".to_string(), Some(&"0.0.1".to_string()), &git) {
        PackEntryStep::Done(o) => assert_eq!(o.status, InstallStatus::AlreadyAtVersion),
        other => panic!("unexpected step {other:?}"),
    }
}

#[test]
fn pack_entries_install_at_their_version_from_git() {
    let git = Ok(SourceSpec::Git("https://example.com/foo.git".into()));
    match pack_entry_step(&"foo".to_string(), &"v1.0.0".to_string(), None, &git) {
        PackEntryStep::Install { git_ref } => assert_eq!(git_ref.as_deref(), Some("v1.0.0")),
        other => panic!("unexpected step {other:?}"),
    }
    let local = Ok(SourceSpec::Local("notes".into()));
    match pack_entry_step(&"notes".to_string(), &"bundled".to_string(), None, &local) {
        PackEntryStep::Install { git_ref } => assert_eq!(git_ref, None),
        other => panic!("unexpected step {other:?}"),
    }
}

#[test]
fn pack_entries_with_a_bad_source_fail_alone() {
    let bad = Err("unknown source scheme: ftp://nope".to_string());
    match pack_entry_step(&"bad".to_string(), &"1".to_string(), None, &bad) {
        PackEntryStep::Done(o) => {
            assert_eq!(o.id, "bad");
            assert_eq!(o.status, InstallStatus::Failed("unknown source scheme: ftp://nope".into()));
        }
        other => panic!("unexpected step {other:?}"),
    }
    let failed = pack_entry_finish(&"alpha".to_string(), Err("simulated network error".into()));
    assert_eq!(failed.id, "alpha");
    assert_eq!(failed.status, InstallStatus::Failed("simulated network error".into()));
    let done = pack_entry_finish(
        &"alpha".to_string(),
        Ok(InstallOutcome { id: "alpha-app".into(), status: InstallStatus::Installed("/a".into()) }),
    );
    assert_eq!(done.id, "alpha-app");
}

#[test]
fn infer_source_for_local_install_uses_manifest_id() {
    assert_eq!(
        infer_source_and_version(false, None, None, "notes", "1.2.0"),
        ("local:notes".to_string(), "1.2.0".to_string())
    );
    assert_eq!(
        infer_source_and_version(false, None, None, "notes", ""),
        ("local:notes".to_string(), "bundled".to_string())
    );
}

#[test]
fn infer_source_for_git_checkouts_uses_the_remote() {
    assert_eq!(
        infer_source_and_version(true, Some("https://github.com/o/r.git"), Some("v2"), "r", "1"),
        ("github:o/r".to_string(), "v2".to_string())
    );
    assert_eq!(
        infer_source_and_version(true, None, None, "r", "1"),
        ("git+unknown".to_string(), "1".to_string())
    );
}

struct RecordingCloner {
    pulls: RefCell<Vec<String>>,
}

impl Cloner for RecordingCloner {
    fn clone(&self, _url: &str, _target_dir: &str) -> Result<(), String> {
        Ok(())
    }
    fn checkout(&self, _repo_dir: &str, _git_ref: &str) -> Result<(), String> {
        Ok(())
    }
    fn pull(&self, repo_dir: &str) -> Result<(), String> {
        self.pulls.borrow_mut().push(repo_dir.to_string());
        Ok(())
    }
}

#[test]
fn update_pulls_only_installed_git_checkouts() {
    let c = RecordingCloner { pulls: RefCell::new(vec![]) };
    assert_eq!(
        update_one(&c, "foo", "/apps/foo", false, false),
        Err("'foo' is not installed at /apps/foo".to_string())
    );
    assert_eq!(
        update_one(&c, "foo", "/apps/foo", true, false),
        Err("not a git checkout (likely bundled core app)".to_string())
    );
    assert!(c.pulls.borrow().is_empty());
    assert_eq!(update_one(&c, "foo", "/apps/foo", true, true), Ok(()));
    assert_eq!(*c.pulls.borrow(), vec!["/apps/foo".to_string()]);
}

#[test]
fn install_reports_name_the_outcome() {
    let installed = InstallOutcome { id: "notes".into(), status: InstallStatus::Installed("/apps/notes".into()) };
    assert_eq!(
        install_report(&installed),
        (
            vec!["installed 'notes' at /apps/notes".to_string()],
            vec![],
            Some("open your app with `plexi app open notes`.".to_string()),
            0
        )
    );
    let skipped = InstallOutcome {
        id: "notes".into(),
        status: InstallStatus::SkippedOtherVersion { installed: "1".into(), requested: "2".into() },
    };
    assert_eq!(
        install_report(&skipped),
        (
            vec![],
            vec!["'notes' already installed at 1 (requested 2); uninstall first or use `plexi update apps`".to_string()],
            None,
            1
        )
    );
    let failed = InstallOutcome { id: "x".into(), status: InstallStatus::Failed("boom".into()) };
    assert_eq!(install_report(&failed).1, vec!["error: boom".to_string()]);
    let refreshed = InstallOutcome { id: "x".into(), status: InstallStatus::Refreshed("/a/x".into()) };
    assert_eq!(install_report(&refreshed).0, vec!["refreshed 'x' at /a/x".to_string()]);
    assert_eq!(outcome_line(&refreshed).1, format!("  refreshed  {:30} → /a/x", "x"));
}

fn pack_row(id: &str, source: &str, version: &str) -> (String, String, String) {
    (id.to_string(), source.to_string(), version.to_string())
}

#[test]
fn pack_export_lists_apps_by_id_keeping_equal_ids_in_order() {
    let rows = vec![
        pack_row("zeta", "local:zeta", "1.0"),
        pack_row("alpha", "github:o/alpha", "v2"),
        pack_row("mid", "local:mid", "bundled"),
        pack_row("alpha", "local:alpha", "0.1"),
    ];
    let sorted = plexi::install::sort_pack_rows(&rows);
    assert_eq!(
        sorted,
        vec![rows[1].clone(), rows[3].clone(), rows[2].clone(), rows[0].clone()]
    );
    assert!(plexi::install::sort_pack_rows(&Vec::new()).is_empty());
}

#[test]
fn pack_export_text_has_one_table_per_app() {
    let rows = vec![pack_row("b", "local:b", "bundled"), pack_row("a", "github:o/a", "main")];
    let mut want = String::new();
    want.push_str("# Generated by `plexi pack export`. Edit freely.\n");
    want.push_str("schema_version = 1\n\n");
    for (id, source, version) in [("a", "github:o/a", "main"), ("b", "local:b", "bundled")] {
        want.push_str("[[app]]\n");
        want.push_str(&format!("id      = \"{id}\"\n"));
        want.push_str(&format!("source  = \"{source}\"\n"));
        want.push_str(&format!("version = \"{version}\"\n\n"));
    }
    assert_eq!(plexi::install::pack_text(&rows), want);
    let parsed: toml::Value = toml::from_str(&want).unwrap();
    assert_eq!(parsed["app"].as_array().unwrap().len(), 2);
}

#[test]
fn staging_directories_are_not_exported() {
    assert!(plexi::install::is_export_candidate("notes"));
    assert!(!plexi::install::is_export_candidate(".tmp-install-notes-123"));
    assert!(plexi::install::is_export_candidate(".tmp-other"));
}

#[test]
fn uninstall_prompt_and_archive_name_the_channel() {
    assert_eq!(
        plexi::install::keep_data_prompt(Some("alpha")),
        "Keep your ~/.plexi-alpha data for future installs? [y/n, Enter=abort]: "
    );
    assert_eq!(
        plexi::install::keep_data_prompt(None),
        "Keep your ~/.plexi data for future installs? [y/n, Enter=abort]: "
    );
    assert_eq!(
        plexi::install::backlog_archive_path("/Users/u", Some("beta"), 1700000000),
        "/Users/u/plexi-backlog-archive/plexi-beta-backlog-1700000000"
    );
}

#[test]
fn uninstall_preview_lists_what_exists() {
    let lines = plexi::install::uninstall_preview(
        "/Applications/Plexi.app", true, "/usr/local/bin/plexi", false, "/Users/u/.plexi", true, false,
    );
    assert_eq!(
        lines,
        vec![
            "This will remove:".to_string(),
            "  \u{2022} /Applications/Plexi.app".to_string(),
            "  \u{2022} /Users/u/.plexi  (settings, secrets, app configs)".to_string(),
        ]
    );
    let kept = plexi::install::uninstall_preview("b", false, "c", true, "p", true, true);
    assert_eq!(kept, vec!["This will remove:".to_string(), "  \u{2022} c".to_string(), "  \u{2022} p will be kept".to_string()]);
    assert_eq!(plexi::install::uninstall_preview("b", false, "c", false, "p", false, false).len(), 1);
}

#[test]
fn uninstall_closing_line() {
    assert_eq!(plexi::install::uninstall_closing(true, "Beta"), "\nDone. PlexiBeta has been removed.");
    assert_eq!(plexi::install::uninstall_closing(true, ""), "\nDone. Plexi has been removed.");
    assert_eq!(plexi::install::uninstall_closing(false, "Beta"), "\nNothing found to remove.");
}

fn git_fail_of(a: plexi::install::GitAction) -> (bool, String) {
    match a {
        plexi::install::GitAction::Fail { cleanup, message } => (cleanup, message),
        _ => panic!("expected a failure"),
    }
}

#[test]
fn git_install_stages_then_renames_into_place() {
    use_git_flow();
}

fn use_git_flow() {
    let root = "/h/.plexi/apps";
    let (s, a) = plexi::install::git_step(plexi::install::GitStep::CreateRoot, root, Some("v1"), "", 1, plexi::install::GitEvent::Succeeded);
    assert!(s == plexi::install::GitStep::CreateStage && matches!(a, plexi::install::GitAction::CreateStage));
    let (s, a) = plexi::install::git_step(s, root, Some("v1"), "", 1, plexi::install::GitEvent::Succeeded);
    assert!(s == plexi::install::GitStep::Clone && matches!(a, plexi::install::GitAction::Clone));
    let (s, a) = plexi::install::git_step(s, root, Some("v1"), "", 1, plexi::install::GitEvent::Succeeded);
    assert!(s == plexi::install::GitStep::Checkout && matches!(a, plexi::install::GitAction::Checkout(ref r) if r == "v1"));
    let (s, _) = plexi::install::git_step(s, root, Some("v1"), "", 1, plexi::install::GitEvent::Succeeded);
    assert!(s == plexi::install::GitStep::ReadManifest);
    let (s, a) = plexi::install::git_step(s, root, Some("v1"), "", 1, plexi::install::GitEvent::Manifest { id: "notes".to_string(), schema_version: 1 });
    assert!(s == plexi::install::GitStep::CheckDest && matches!(a, plexi::install::GitAction::CheckDest(ref i) if i == "notes"));
    let (s, a) = plexi::install::git_step(s, root, Some("v1"), "notes", 1, plexi::install::GitEvent::DestExists(false));
    assert!(s == plexi::install::GitStep::Rename && matches!(a, plexi::install::GitAction::Rename(ref i) if i == "notes"));
    let (s, a) = plexi::install::git_step(s, root, Some("v1"), "notes", 1, plexi::install::GitEvent::Succeeded);
    assert!(s == plexi::install::GitStep::Done && matches!(a, plexi::install::GitAction::Complete(ref i) if i == "notes"));
}

#[test]
fn git_install_failures_clean_the_stage_once_it_exists() {
    let root = "/h/.plexi/apps";
    let (_, a) = plexi::install::git_step(plexi::install::GitStep::CreateRoot, root, None, "", 1, plexi::install::GitEvent::Failed("denied".into()));
    assert_eq!(git_fail_of(a), (false, "create apps dir /h/.plexi/apps: denied".to_string()));
    let (_, a) = plexi::install::git_step(plexi::install::GitStep::Clone, root, None, "", 1, plexi::install::GitEvent::Failed("git clone failed".into()));
    assert_eq!(git_fail_of(a), (true, "git clone failed".to_string()));
    let (_, a) = plexi::install::git_step(plexi::install::GitStep::CheckDest, root, None, "notes", 1, plexi::install::GitEvent::DestExists(true));
    assert_eq!(
        git_fail_of(a),
        (true, "app 'notes' already installed at /h/.plexi/apps/notes; run `plexi uninstall notes` or `plexi update apps notes` first".to_string())
    );
    let (_, a) = plexi::install::git_step(plexi::install::GitStep::Rename, root, None, "notes", 1, plexi::install::GitEvent::Failed("EXDEV".into()));
    assert_eq!(git_fail_of(a), (true, "install notes: rename staging \u{2192} dest failed: EXDEV".to_string()));
    let (s, a) = plexi::install::git_step(plexi::install::GitStep::Clone, root, None, "", 1, plexi::install::GitEvent::Succeeded);
    assert!(s == plexi::install::GitStep::ReadManifest && matches!(a, plexi::install::GitAction::ReadManifest));
}

#[test]
fn install_with_future_schema_refuses() {
    let root = "/h/.plexi/apps";
    let (s, a) = plexi::install::git_step(
        plexi::install::GitStep::ReadManifest,
        root,
        None,
        "",
        1,
        plexi::install::GitEvent::Manifest { id: "future".to_string(), schema_version: 2 },
    );
    assert!(s == plexi::install::GitStep::Done);
    let (cleanup, err) = git_fail_of(a);
    assert!(err.contains("newer than this Plexi build"), "got: {err}");
    assert!(cleanup, "failed install must not leave a partial dir");
    assert_eq!(
        err,
        "manifest schema_version = 2 is newer than this Plexi build supports (max 1); update Plexi to install this app"
    );
    let (s, _) = plexi::install::git_step(
        plexi::install::GitStep::ReadManifest,
        root,
        None,
        "",
        1,
        plexi::install::GitEvent::Manifest { id: "current".to_string(), schema_version: 1 },
    );
    assert!(s == plexi::install::GitStep::CheckDest);
}

#[test]
fn unreadable_or_invalid_manifests_fail_clearly() {
    let root = "/h/.plexi/apps";
    let (_, a) = plexi::install::git_step(
        plexi::install::GitStep::ReadManifest,
        root,
        None,
        "",
        1,
        plexi::install::GitEvent::ManifestUnreadable { path: "/s/clone/manifest.toml".to_string(), error: "not found".to_string() },
    );
    assert_eq!(git_fail_of(a), (true, "no manifest.toml at repo root (/s/clone/manifest.toml): not found".to_string()));
    let (_, a) = plexi::install::git_step(
        plexi::install::GitStep::ReadManifest,
        root,
        None,
        "",
        1,
        plexi::install::GitEvent::ManifestInvalid("expected `=`".to_string()),
    );
    assert_eq!(git_fail_of(a), (true, "manifest.toml invalid: expected `=`".to_string()));
}

#[test]
fn mock_inspector_answers_as_configured() {
    use_mock();
}

fn use_mock() {
    let m = plexi::watch::MockInspector { installed: true, version_str: "gh 2.0".into(), help_str: "usage".into() };
    assert_eq!(plexi::watch::CliInspector::which(&m, "gh"), Some("/usr/bin/mock".to_string()));
    assert_eq!(plexi::watch::CliInspector::version(&m, "gh"), Some("gh 2.0".to_string()));
    assert_eq!(plexi::watch::CliInspector::help(&m, "gh"), "usage");
    let off = plexi::watch::MockInspector { installed: false, version_str: "x".into(), help_str: String::new() };
    assert_eq!(plexi::watch::CliInspector::which(&off, "gh"), None);
    assert_eq!(plexi::watch::CliInspector::version(&off, "gh"), None);
}

#[test]
fn pack_advance_settles_entries_and_stops_at_installs() {
    let items = vec![
        plexi::install::PackItem { id: "a".into(), version: "1.0".into(), source: Ok(SourceSpec::Git("https://x/a".into())) },
        plexi::install::PackItem { id: "b".into(), version: "2.0".into(), source: Ok(SourceSpec::Git("https://x/b".into())) },
        plexi::install::PackItem { id: "c".into(), version: "0.1".into(), source: Err("bad source".into()) },
        plexi::install::PackItem { id: "d".into(), version: "0.1".into(), source: Ok(SourceSpec::Local("notes".into())) },
    ];
    let installed = vec![("a".to_string(), "1.0".to_string())];
    let mut outcomes = Vec::new();
    let step = plexi::install::pack_advance(&items, &installed, &mut outcomes, None);
    assert_eq!(step, Some((1, Some("2.0".to_string()))));
    assert_eq!(outcomes.len(), 1);
    assert_eq!(outcomes[0].status, InstallStatus::AlreadyAtVersion);
    let step = plexi::install::pack_advance(&items, &installed, &mut outcomes, Some(Err("clone failed".into())));
    assert_eq!(step, Some((3, None)));
    assert_eq!(outcomes[1].id, "b");
    assert_eq!(outcomes[1].status, InstallStatus::Failed("clone failed".into()));
    assert_eq!(outcomes[2].status, InstallStatus::Failed("bad source".into()));
    let done = plexi::install::InstallOutcome { id: "notes".into(), status: InstallStatus::Installed("/apps/notes".into()) };
    let step = plexi::install::pack_advance(&items, &installed, &mut outcomes, Some(Ok(done)));
    assert_eq!(step, None);
    assert_eq!(outcomes.len(), 4);
    assert_eq!(outcomes[3].id, "notes");
}
