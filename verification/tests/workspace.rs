use plexi::workspace::{
    init_refusal_lines, init_report, missing_apps_toml_lines, missing_workspace_toml_message,
    no_workspace_install_lines, no_workspace_message, secret_list_lines, secret_target,
    workspace_init_refused, workspace_search_dirs,
};

fn strings(v: &[&str]) -> Vec<String> {
    v.iter().map(|s| s.to_string()).collect()
}

#[test]
fn root_dir_is_rejected_by_init_guard() {
    assert!(workspace_init_refused("/", Some("/home/u")));
    assert!(workspace_init_refused("/", None));
}

#[test]
fn home_dir_is_rejected_by_init_guard() {
    assert!(workspace_init_refused("/home/u", Some("/home/u")));
    assert!(workspace_init_refused("/home/u/", Some("/home/u")));
}

#[test]
fn plexi_profile_dir_is_rejected_by_init_guard() {
    assert!(workspace_init_refused("/home/u/.plexi-alpha", Some("/home/u")));
    assert!(workspace_init_refused("/home/u/.plexi/apps", Some("/home/u")));
}

#[test]
fn project_subdir_is_allowed_by_init_guard() {
    assert!(!workspace_init_refused("/home/u/code/project", Some("/home/u")));
    assert!(!workspace_init_refused("/tmp/project", None));
}

#[test]
fn init_reports_the_workspace_layout() {
    let (lines, tip) = init_report("/p", "ws-1", ".plexi");
    assert_eq!(
        lines,
        strings(&[
            "Initialized workspace at /p",
            "  workspace id: ws-1",
            "  channel dir:  .plexi/",
            "  router:       .plexi/secrets.toml (fallback = true)",
            "  apps:         .plexi/apps.toml (declare app dependencies here)",
            "  commands:     .plexi/commands.toml (run commands with: plexi run)",
        ])
    );
    assert_eq!(tip, "declare app dependencies in .plexi/apps.toml, then run `plexi app install`.");
    assert_eq!(init_refusal_lines().len(), 3);
}

#[test]
fn aliases_name_the_stored_secret_except_globally() {
    assert_eq!(secret_target("API_KEY", false, None), Ok("API_KEY".to_string()));
    assert_eq!(secret_target("API_KEY", false, Some("work-key")), Ok("work-key".to_string()));
    assert_eq!(secret_target("API_KEY", true, None), Ok("API_KEY".to_string()));
    assert_eq!(
        secret_target("API_KEY", true, Some("work-key")),
        Err(strings(&[
            "error: --alias cannot be combined with --global.",
            "  Global secrets are always stored under their canonical name.",
        ]))
    );
}

#[test]
fn secret_lists_group_names_by_scope() {
    assert_eq!(
        secret_list_lines("ws", "plexi:ws:ws:", "plexi:user:", &strings(&[]), &strings(&[])),
        (vec![], strings(&["No secrets stored."]))
    );
    assert_eq!(
        secret_list_lines(
            "ws",
            "plexi:ws:ws:",
            "plexi:user:",
            &strings(&["plexi:ws:ws:A", "other", "plexi:ws:ws:B"]),
            &strings(&["plexi:user:C"])
        ),
        (strings(&["Workspace (ws):", "  A", "  B", "", "User scope:", "  C"]), vec![])
    );
    assert_eq!(
        secret_list_lines("ws", "p:", "u:", &strings(&[]), &strings(&["u:C"])),
        (strings(&["User scope:", "  C"]), vec![])
    );
}

#[test]
fn workspace_errors_name_the_directories() {
    assert_eq!(
        no_workspace_message(".plexi", "/tmp/x"),
        "no .plexi/ workspace found at or above /tmp/x.\nRun `plexi workspace init` first."
    );
    assert_eq!(
        missing_workspace_toml_message(".plexi", "/p"),
        ".plexi/ exists at /p but workspace.toml is missing.\nRun `plexi workspace init` to create it."
    );
}

#[test]
fn workspaces_are_searched_upwards_short_of_home_and_root() {
    assert_eq!(
        workspace_search_dirs("/home/u/code/p", Some("/home/u")),
        strings(&["/home/u/code/p", "/home/u/code"])
    );
    assert_eq!(
        workspace_search_dirs("/srv/app", Some("/home/u")),
        strings(&["/srv/app", "/srv"])
    );
    assert_eq!(workspace_search_dirs("/home/u", Some("/home/u")), strings(&[]));
    assert_eq!(workspace_search_dirs("/", None), strings(&[]));
    assert_eq!(workspace_search_dirs("rel/dir", None), strings(&["rel/dir", "rel", ""]));
}

#[test]
fn install_without_a_workspace_explains_itself() {
    assert_eq!(no_workspace_install_lines(".plexi")[1], "  In a workspace (directory with .plexi/), `plexi app install` applies the manifest.");
    assert_eq!(missing_apps_toml_lines(".plexi", "/p")[0], "no .plexi/apps.toml found in workspace at /p");
}

#[test]
fn secret_set_refuses_empty_values_and_reports_the_store() {
    assert_eq!(plexi::workspace::secret_value_error(""), Some("error: empty value, nothing stored".to_string()));
    assert_eq!(plexi::workspace::secret_value_error("s3cret"), None);
    assert_eq!(plexi::workspace::env_secret_missing("API_KEY"), "error: env var API_KEY is not set");
    assert_eq!(plexi::workspace::user_account("API_KEY"), "plexi:user:API_KEY");
    let r = plexi::workspace::global_store_report("API_KEY", "openai", &Ok(()));
    assert_eq!(r.code, 0);
    assert_eq!(r.stdout, vec!["Stored 'API_KEY' globally (plexi:user:openai)".to_string()]);
    assert_eq!(
        r.tip,
        Some("reference 'API_KEY' in commands.toml under `[secrets] required = [\"API_KEY\"]`.".to_string())
    );
    let r = plexi::workspace::global_store_report("K", "K", &Err("denied".into()));
    assert_eq!((r.code, r.stderr), (1, vec!["error: keychain write failed: denied".to_string()]));
    let r = plexi::workspace::workspace_store_report("K", "/p", "ws-1", ".plexi", &Ok(()), true);
    assert_eq!(r.stderr, vec!["Stored 'K' for workspace /p (ws-1)".to_string()]);
    assert_eq!(
        r.tip,
        Some("Route written to .plexi/secrets.toml \u{2014} use in commands.toml: [secrets] required = [\"K\"]".to_string())
    );
    assert_eq!(plexi::workspace::no_workspace_secret_lines("K").len(), 3);
}
