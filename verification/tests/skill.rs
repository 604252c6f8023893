use plexi::skill::{
    declared_plexi_version, fenced_blocks, is_command_word, long_flags_in, skill_surface_errors,
    split_words, CliNode,
};

fn node(name: &str, aliases: &[&str], flags: &[&str], subs: Vec<CliNode>) -> CliNode {
    CliNode {
        name: name.to_string(),
        aliases: aliases.iter().map(|s| s.to_string()).collect(),
        long_flags: flags.iter().map(|s| s.to_string()).collect(),
        subcommands: subs,
    }
}

fn tree() -> CliNode {
    node(
        "plexi",
        &[],
        &[],
        vec![
            node(
                "pane",
                &["p"],
                &["json", "layout"],
                vec![node("new", &[], &["parent", "agent"], vec![])],
            ),
            node("install", &[], &["force"], vec![]),
        ],
    )
}

fn chars(s: &str) -> Vec<char> {
    s.chars().collect()
}

#[test]
fn command_words_are_lowercase_kebab() {
    assert!(is_command_word(&chars("pane")));
    assert!(is_command_word(&chars("new-tab2")));
    assert!(!is_command_word(&chars("Pane")));
    assert!(!is_command_word(&chars("--json")));
    assert!(!is_command_word(&chars("")));
    assert!(!is_command_word(&chars("a_b")));
}

#[test]
fn long_flags_are_pulled_out_of_reference_punctuation() {
    assert_eq!(long_flags_in(&chars("[--json]")), vec!["json".to_string()]);
    assert_eq!(long_flags_in(&chars("--parent[=NAME]")), vec!["parent".to_string()]);
    assert_eq!(long_flags_in(&chars("-d/--down,")), vec!["down".to_string()]);
    assert_eq!(
        long_flags_in(&chars("--layout|--json")),
        vec!["layout".to_string(), "json".to_string()]
    );
    assert!(long_flags_in(&chars("-d")).is_empty());
    assert!(long_flags_in(&chars("--")).is_empty());
}

#[test]
fn words_split_on_any_whitespace() {
    let w = split_words(&chars("  plexi\tpane  new \n"));
    assert_eq!(w, vec![chars("plexi"), chars("pane"), chars("new")]);
    assert!(split_words(&chars("   ")).is_empty());
}

#[test]
fn fenced_blocks_keep_language_and_drop_an_unclosed_block() {
    let text = "intro\n```bash\nplexi pane\n```\n  ``` \nx\n\n```\n```sh\nleft open\n";
    let blocks = fenced_blocks(text);
    assert_eq!(blocks.len(), 2);
    assert_eq!(blocks[0].lang, "bash");
    assert_eq!(blocks[0].lines, vec!["plexi pane".to_string()]);
    assert_eq!(blocks[1].lang, "");
    assert_eq!(blocks[1].lines, vec!["x".to_string(), "".to_string()]);
}

#[test]
fn declared_version_is_read_from_the_frontmatter() {
    let text = "---\nname: plexi-cli\nplexi_version: \"0.5.1\"\n---\n";
    assert_eq!(declared_plexi_version(text), Some("0.5.1".to_string()));
    assert_eq!(declared_plexi_version("plexi_version: 1.2.3\n"), Some("1.2.3".to_string()));
    assert_eq!(declared_plexi_version("no version here\n"), None);
}

#[test]
fn a_matching_skill_document_has_no_errors() {
    let text = "# Skill\n\n```\npane new [--parent[=NAME]] --agent\n    --help\np --layout tiled|columns\n\ninstall --force\n```\n\n```bash\nplexi pane new --parent x | plexi install --force\nX=$(plexi p --json)\necho done; plexi\n```\n";
    assert!(skill_surface_errors(&tree(), text).is_empty());
}

#[test]
fn reference_blocks_report_unknown_subcommands_and_flags() {
    let text = "```\npane new --agent\n    --json\ninstall --force\npane bogus\nfrobnicate everything\nUsage: plexi\n```\n";
    assert_eq!(
        skill_surface_errors(&tree(), text),
        vec![
            "`plexi pane new` has no `--json` flag, but the skill documents one".to_string(),
            "skill documents subcommand `plexi pane bogus`, which does not exist in this CLI".to_string(),
            "skill documents subcommand `plexi  frobnicate`, which does not exist in this CLI".to_string(),
            "reference line does not start with a known subcommand: `Usage: plexi`".to_string(),
        ]
    );
}

#[test]
fn indented_lines_after_a_failed_entry_are_not_checked() {
    let text = "```\npane bogus\n    --nope\n```\n";
    assert_eq!(
        skill_surface_errors(&tree(), text),
        vec!["skill documents subcommand `plexi pane bogus`, which does not exist in this CLI".to_string()]
    );
}

#[test]
fn bash_blocks_report_unknown_invocations_and_flags() {
    let text = "```sh\nplexi pane new --parent x | plexi install --nope\nplexi wat now\nplexi pane mystery --json\n```\n```python\nplexi nothing\n```\n";
    assert_eq!(
        skill_surface_errors(&tree(), text),
        vec![
            "`plexi install` has no `--nope` flag, but the skill documents one".to_string(),
            "bash example invokes `plexi wat`, which is not a known subcommand (line: `plexi wat now`)"
                .to_string(),
        ]
    );
}

#[test]
fn shell_substitution_and_punctuation_split_invocations() {
    let text = "```bash\nID=$(plexi pane new --agent)&&plexi install --force;plexi pane --bad\n```\n";
    assert_eq!(
        skill_surface_errors(&tree(), text),
        vec!["`plexi pane` has no `--bad` flag, but the skill documents one".to_string()]
    );
}
