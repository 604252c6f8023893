use plexi::commands::{
    command_listing_line, commands_file, global_command, missing_secrets_lines,
    required_secret_keys, resolve_user_commands, sorted_names, CommandsFile, unknown_command_lines, workspace_command, CommandDef,
    CommandEntry, UserCommandScope,
};

#[test]
fn simple_and_full_entries() {
    let simple = CommandEntry::Simple("cargo build".into());
    assert_eq!(simple.run(), "cargo build");
    assert_eq!(simple.description(), None);
    assert!(simple.secrets().is_empty());
    let full = CommandEntry::Full(CommandDef {
        run: "npm test".into(),
        description: Some("Run tests".into()),
        secrets: vec!["TOKEN".into()],
    });
    assert_eq!(full.run(), "npm test");
    assert_eq!(full.description(), Some("Run tests"));
    assert_eq!(full.secrets(), &["TOKEN".to_string()]);
}

#[test]
fn palette_entries() {
    let e = CommandEntry::Full(CommandDef { run: "make".into(), description: None, secrets: vec![] });
    let c = workspace_command(&"build".to_string(), &e);
    assert_eq!(c.name, "build");
    assert_eq!(c.run.as_deref(), Some("make"));
    assert_eq!(c.description, None);
    assert_eq!(c.scope, UserCommandScope::Workspace);
    let g = global_command("deploy.sh".into());
    assert_eq!(g.run, None);
    assert_eq!(g.scope, UserCommandScope::Global);
}

#[test]
fn secret_keys_merge_without_repeats() {
    let global = vec!["A".to_string(), "B".to_string()];
    let own = vec!["B".to_string(), "C".to_string(), "C".to_string()];
    assert_eq!(required_secret_keys(&global, &own), vec!["A", "B", "C"]);
    assert_eq!(
        missing_secrets_lines(&vec!["K".to_string()]),
        vec!["error: missing required secrets:", "  - K", "", "Set them with:", "  plexi secret set K"]
    );
}

fn names(v: &[&str]) -> Vec<String> {
    v.iter().map(|s| s.to_string()).collect()
}

#[test]
fn commands_file_sits_in_the_channel_dir() {
    assert_eq!(commands_file(".plexi"), ".plexi/commands.toml");
    assert_eq!(commands_file(".plexi-alpha"), ".plexi-alpha/commands.toml");
}

#[test]
fn names_are_listed_in_ascending_order() {
    assert_eq!(sorted_names(&names(&["zeta", "build", "dev"])), names(&["build", "dev", "zeta"]));
    assert_eq!(sorted_names(&names(&[])), names(&[]));
    assert_eq!(sorted_names(&names(&["b", "B", "a"])), names(&["B", "a", "b"]));
}

#[test]
fn unknown_command_lists_what_is_defined() {
    assert_eq!(
        unknown_command_lines("deploy", &names(&["test", "build"]), ".plexi/commands.toml"),
        names(&["error: unknown command 'deploy'", "Available commands: build, test"])
    );
    assert_eq!(
        unknown_command_lines("deploy", &names(&[]), ".plexi/commands.toml"),
        names(&["error: unknown command 'deploy'", "No commands defined in .plexi/commands.toml."])
    );
}

#[test]
fn listing_lines_pad_names_to_twenty_columns() {
    let simple = CommandEntry::Simple("cargo build".into());
    assert_eq!(command_listing_line("build", &simple), format!("  {:20} {}", "build", "cargo build"));
    let full = CommandEntry::Full(CommandDef {
        run: "npm run dev".into(),
        description: Some("Start dev server".into()),
        secrets: vec![],
    });
    assert_eq!(
        command_listing_line("dev", &full),
        format!("  {:20} {}  # {}", "dev", "npm run dev", "Start dev server")
    );
}

#[test]
fn workspace_commands_resolve_sorted_with_scope() {
    let entries = vec![
        ("zeta".to_string(), CommandEntry::Simple("echo z".into())),
        (
            "build".to_string(),
            CommandEntry::Full(CommandDef {
                run: "cargo build".into(),
                description: Some("Build it".into()),
                secrets: vec![],
            }),
        ),
    ];
    let cmds = resolve_user_commands(&CommandsFile::Parsed(entries), &vec![]);
    assert_eq!(cmds.len(), 2);
    assert_eq!(cmds[0].name, "build");
    assert_eq!(cmds[0].description.as_deref(), Some("Build it"));
    assert_eq!(cmds[0].run.as_deref(), Some("cargo build"));
    assert_eq!(cmds[0].scope, UserCommandScope::Workspace);
    assert_eq!(cmds[1].name, "zeta");
}

#[test]
fn workspace_commands_shadow_global_scripts() {
    let entries = vec![("only".to_string(), CommandEntry::Simple("echo hi".into()))];
    let cmds = resolve_user_commands(&CommandsFile::Parsed(entries), &vec!["global-only".to_string()]);
    assert_eq!(cmds.len(), 1);
    assert_eq!(cmds[0].name, "only");
    assert_eq!(cmds[0].scope, UserCommandScope::Workspace);
}

#[test]
fn without_a_workspace_the_global_scripts_are_listed() {
    let cmds = resolve_user_commands(&CommandsFile::Missing, &vec!["sync".to_string(), "backup".to_string()]);
    let names: Vec<&str> = cmds.iter().map(|c| c.name.as_str()).collect();
    assert_eq!(names, vec!["backup", "sync"]);
    assert!(cmds.iter().all(|c| c.scope == UserCommandScope::Global && c.run.is_none()));
    assert!(resolve_user_commands(&CommandsFile::Parsed(vec![]), &vec!["sync".to_string()]).is_empty());
}

#[test]
fn an_unparseable_commands_file_lists_nothing() {
    assert!(resolve_user_commands(&CommandsFile::Unusable, &vec!["sync".to_string()]).is_empty());
}

#[test]
fn run_without_a_command_lists_commands_by_name() {
    let es = vec![
        ("test".to_string(), CommandEntry::Simple("cargo test".into())),
        (
            "build".to_string(),
            CommandEntry::Full(CommandDef {
                run: "cargo build".into(),
                description: Some("Build the project".into()),
                secrets: vec![],
            }),
        ),
    ];
    let lines = plexi::commands::command_list_lines(Some(&es), &vec![], ".plexi/commands.toml");
    assert_eq!(
        lines,
        vec![
            "Available commands:".to_string(),
            format!("  {:20} {}  # {}", "build", "cargo build", "Build the project"),
            format!("  {:20} {}", "test", "cargo test"),
            "".to_string(),
            "Run one with: plexi run <command>".to_string(),
        ]
    );
}

#[test]
fn run_without_commands_toml_shows_global_scripts_then_a_hint() {
    let lines = plexi::commands::command_list_lines(None, &vec!["backup".to_string(), "sync".to_string()], "x");
    assert_eq!(
        lines,
        vec![
            "Built-in scripts:", "  backup", "  sync", "", "Run one with: plexi run <script>", "",
            "No workspace commands configured.", "", "To add project commands:", "  plexi workspace init",
        ]
        .into_iter()
        .map(String::from)
        .collect::<Vec<_>>()
    );
    assert_eq!(plexi::commands::command_list_lines(None, &vec![], "x").len(), 4);
}

#[test]
fn run_with_an_empty_commands_toml_shows_how_to_add_one() {
    let lines = plexi::commands::command_list_lines(Some(&vec![]), &vec![], ".plexi/commands.toml");
    assert_eq!(lines[0], "No commands defined in .plexi/commands.toml.");
    assert_eq!(lines[5], "  build = { run = \"cargo build\", description = \"Build the project\" }");
    assert_eq!(lines.len(), 6);
}

#[test]
fn executable_mode_checks_any_execute_bit() {
    assert!(plexi::commands::is_executable_mode(0o755));
    assert!(plexi::commands::is_executable_mode(0o100));
    assert!(plexi::commands::is_executable_mode(0o001));
    assert!(!plexi::commands::is_executable_mode(0o644));
}

#[test]
fn run_outside_a_workspace_explains_the_commands_file() {
    assert_eq!(
        plexi::commands::no_commands_file_lines(".plexi/commands.toml", "/home/u/proj"),
        vec![
            "error: no .plexi/commands.toml found in /home/u/proj".to_string(),
            "Create a .plexi/commands.toml to define runnable commands.".to_string(),
        ]
    );
}

#[test]
fn run_exit_notes_depend_on_the_status() {
    assert_eq!(
        plexi::commands::run_exit_note(0, "/s"),
        (Some("run `plexi run` to see all available commands.".to_string()), None)
    );
    assert_eq!(
        plexi::commands::run_exit_note(127, "/home/u/.plexi/scripts"),
        (None, Some("hint: command exited with 'not found' (127). If your command references $PLEXI_CONFIG_DIR, check that the script exists in '/home/u/.plexi/scripts'".to_string()))
    );
    assert_eq!(plexi::commands::run_exit_note(2, "/s"), (None, None));
}
