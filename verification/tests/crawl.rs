use plexi::crawl::{
    crawl_help_outcome, extract_description, is_any_section_header, is_command_section_header,
    lines_of, parse_command_line, parse_help, CrawlError, UiHint,
};

fn chars(s: &str) -> Vec<char> {
    s.chars().collect()
}

#[test]
fn parse_gh_style_help() {
    let help = r#"Work seamlessly with GitHub from the command line.

USAGE
  gh <command> <subcommand> [flags]

CORE COMMANDS
  auth:        Authenticate gh and git with GitHub
  browse:      Open the repository in the browser
  codespace:   Connect to and manage codespaces
  gist:        Manage gists
  issue:       Manage issues
  org:         Manage organizations
  pr:          Manage pull requests

FLAGS
  --help      Show help for command
  --version   Show gh version
"#;
    let d = parse_help("gh", help, None);
    assert_eq!(d.name, "gh");
    assert!(
        d.commands.len() >= 5,
        "expected ≥5 commands, got {}",
        d.commands.len()
    );
    assert!(d.commands.iter().any(|c| c.name == "auth"));
    assert!(d.commands.iter().any(|c| c.name == "pr"));
    // Flags should not be mixed into commands.
    assert!(!d.commands.iter().any(|c| c.name.starts_with("--")));
}

#[test]
fn parse_cargo_style_help() {
    let help = r#"Rust's package manager

USAGE:
    cargo [+toolchain] [OPTIONS] [SUBCOMMAND]

OPTIONS:
    -V, --version   Print version info and exit
    -h, --help      Print help information

SUBCOMMANDS:
    build        Compile the current package
    check        Analyze the current package and report errors
    clean        Remove the target directory
    doc          Build package documentation
    new          Create a new cargo package
    run          Run the current package
    test         Run the tests
"#;
    let d = parse_help("cargo", help, None);
    assert!(d.commands.len() >= 5);
    assert!(d.commands.iter().any(|c| c.name == "build"));
    assert!(d.commands.iter().any(|c| c.name == "test"));
    assert!(!d.commands.iter().any(|c| c.name.starts_with('-')));
}

#[test]
fn parse_git_style_help() {
    let help = r#"usage: git [-v | --version] [-h | --help] [-C <path>]
           <command> [<args>]

These are common Git commands used in various situations:

start a working area (see also: git help tutorial)
   clone      Clone a repository into a new directory
   init       Create an empty Git repository or reinitialize an existing one

work on the current change (see also: git help everyday)
   add        Add file contents to the index
   mv         Move or rename a file, a directory, or a symlink
   restore    Restore working tree files
   rm         Remove files from the working tree and from the index

examine the history and state (see also: git help revisions)
   bisect     Use binary search to find the commit that introduced a bug
   diff       Show changes between commits, commit and working tree, etc
   log        Show commit logs
   show       Show various types of objects
   status     Show the working tree status

collaborate (see also: git help workflows)
   fetch      Download objects and refs from another repository
   pull       Fetch from and integrate with another repository or a local branch
   push       Update remote refs along with associated objects
"#;
    let d = parse_help("git", help, None);
    assert!(
        d.commands.len() >= 8,
        "expected ≥8 commands, got {}",
        d.commands.len()
    );
    assert!(d.commands.iter().any(|c| c.name == "clone"));
    assert!(d.commands.iter().any(|c| c.name == "push"));
    assert!(d.commands.iter().any(|c| c.name == "log"));
    assert!(!d.commands.iter().any(|c| c.name.starts_with('-')));
}

#[test]
fn parse_help_fills_descriptor_fields() {
    let help = "A mock CLI\n\nCOMMANDS\n  run    Run something\n  stop   Stop something\n";
    let d = parse_help("mock-cli", help, Some("1.2.3".to_string()));
    assert_eq!(d.plexi_version, "0.1");
    assert_eq!(d.version, "1.2.3");
    assert_eq!(d.description.as_deref(), Some("A mock CLI"));
    assert_eq!(d.default_view, Some(UiHint::List));
    assert_eq!(d.commands.len(), 2);
    assert_eq!(d.commands[0].name, "run");
    assert_eq!(d.commands[0].description.as_deref(), Some("Run something"));
    let none = parse_help("x", "nothing here", None);
    assert_eq!(none.version, "unknown");
    assert_eq!(none.default_view, None);
    assert!(none.commands.is_empty());
}

#[test]
fn command_line_patterns() {
    let c = parse_command_line(&chars("  auth:        Authenticate")).unwrap();
    assert_eq!(c.name, "auth");
    assert_eq!(c.description.as_deref(), Some("Authenticate"));
    let c = parse_command_line(&chars("    build")).unwrap();
    assert_eq!(c.name, "build");
    assert_eq!(c.description, None);
    assert!(parse_command_line(&chars(" one-space  desc")).is_none());
    assert!(parse_command_line(&chars("  --flag  desc")).is_none());
    assert!(parse_command_line(&chars("  <arg>  desc")).is_none());
    assert!(parse_command_line(&chars("  [opt]  desc")).is_none());
    assert!(parse_command_line(&chars("  :  desc")).is_none());
}

#[test]
fn section_header_recognition() {
    assert!(is_command_section_header(&chars("CORE COMMANDS")));
    assert!(is_command_section_header(&chars("Commands:")));
    assert!(is_command_section_header(&chars("  subcommands:  ")));
    assert!(!is_command_section_header(&chars("OPTIONS:")));
    assert!(is_any_section_header(&chars("OPTIONS:")));
    assert!(is_any_section_header(&chars("FLAGS")));
    assert!(!is_any_section_header(&chars("   FLAGS")));
    assert!(!is_any_section_header(&chars("Ok")));
    assert!(!is_any_section_header(&chars("usage: git")));
}

#[test]
fn description_skips_usage_and_stops_at_blank() {
    let d = extract_description(&chars("\nUsage: x\nFirst line\nsecond line\n\nmore\n"));
    assert_eq!(d.as_deref(), Some("First line second line"));
    assert_eq!(extract_description(&chars("USAGE\n")), None);
}

#[test]
fn lines_follow_str_lines() {
    let ls = lines_of(&chars("a\r\nb\n\nc\r"));
    let got: Vec<String> = ls.iter().map(|l| l.iter().collect()).collect();
    assert_eq!(got, vec!["a", "b", "", "c\r"]);
    assert!(lines_of(&chars("")).is_empty());
    assert_eq!(lines_of(&chars("x\n")).len(), 1);
}

#[test]
fn crawl_outcomes() {
    assert!(matches!(
        crawl_help_outcome("c", false, "   \n", None),
        Err(CrawlError::NonZeroExit { cli }) if cli == "c"
    ));
    assert!(matches!(
        crawl_help_outcome("c", true, "no commands", None),
        Err(CrawlError::ParseFailed { cli }) if cli == "c"
    ));
    let d = crawl_help_outcome("c", false, "COMMANDS\n  go   Do the thing\n", None).unwrap();
    assert_eq!(d.commands[0].name, "go");
}
