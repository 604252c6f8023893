use plexi::setup::{
    cli_prompt, completions_location, completions_prompt, completions_sentinel_path, install_path,
    sentinel_path, CliPrompt, CompletionsLocation, CompletionsPrompt,
};

#[test]
fn cli_prompt_until_installed() {
    assert_eq!(cli_prompt(true, false), CliPrompt::MarkAndSkip);
    assert_eq!(cli_prompt(true, true), CliPrompt::Skip);
    assert_eq!(cli_prompt(false, true), CliPrompt::ClearAndPrompt);
    assert_eq!(cli_prompt(false, false), CliPrompt::Prompt);
}

#[test]
fn completions_banner() {
    assert_eq!(completions_prompt(true, true, false), CompletionsPrompt::Skip);
    assert_eq!(completions_prompt(false, false, false), CompletionsPrompt::Skip);
    assert_eq!(completions_prompt(false, true, true), CompletionsPrompt::MarkAndSkip);
    assert_eq!(completions_prompt(false, true, false), CompletionsPrompt::Show);
}

#[test]
fn completion_locations_by_shell() {
    assert_eq!(
        completions_location("/bin/zsh", "plexi"),
        CompletionsLocation::Zsh { brew: "share/zsh/site-functions/_plexi".into(), home: ".zfunc/_plexi".into() }
    );
    assert_eq!(completions_location("/usr/bin/bash", "plexi-alpha"), CompletionsLocation::Bash { home: ".bash_completion.d/plexi-alpha".into() });
    assert_eq!(completions_location("/usr/local/bin/fish", "plexi"), CompletionsLocation::Fish { home: ".config/fish/completions/plexi.fish".into() });
    assert_eq!(completions_location("", "plexi"), CompletionsLocation::Unknown);
}

#[test]
fn sentinels_live_in_the_config_dir() {
    assert_eq!(sentinel_path("/home/u/.plexi"), "/home/u/.plexi/cli_setup_done");
    assert_eq!(sentinel_path("/home/u/.plexi/"), "/home/u/.plexi/cli_setup_done");
    assert_eq!(
        completions_sentinel_path("/home/u/.plexi-alpha"),
        "/home/u/.plexi-alpha/completions_setup_done"
    );
    assert_eq!(
        std::path::PathBuf::from("/home/u/.plexi").join("cli_setup_done").to_str().unwrap(),
        sentinel_path("/home/u/.plexi")
    );
}

#[test]
fn the_cli_installs_under_usr_local_bin() {
    assert_eq!(install_path("plexi-alpha"), "/usr/local/bin/plexi-alpha");
    assert_eq!(install_path("/opt/plexi"), "/opt/plexi");
}
