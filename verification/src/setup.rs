//! First-run prompts: whether to offer installing the CLI and its shell
//! completions, and where each shell keeps completions.

use vstd::prelude::*;
use crate::channel::{join_path, path_join};
use crate::text::{chars_of, has_char, push_lit, string_of};

verus! {

/// What a launch does about the CLI setup prompt.
#[derive(Debug, Clone, Copy, PartialEq, Eq, Structural)]
pub enum CliPrompt {
    /// Installed, no sentinel yet: write it and stay quiet.
    MarkAndSkip,
    /// Installed and already recorded.
    Skip,
    /// Not installed but a stale sentinel exists: clear it and prompt.
    ClearAndPrompt,
    /// Not installed: prompt.
    Prompt,
}

/// The CLI prompt shows on every launch until the CLI is installed; a
/// sentinel left by another machine is cleared.
pub fn cli_prompt(installed: bool, sentinel_present: bool) -> (r: CliPrompt)
    ensures
        r == if installed {
            if sentinel_present {
                CliPrompt::Skip
            } else {
                CliPrompt::MarkAndSkip
            }
        } else if sentinel_present {
            CliPrompt::ClearAndPrompt
        } else {
            CliPrompt::Prompt
        },
{
    if installed {
        if sentinel_present {
            CliPrompt::Skip
        } else {
            CliPrompt::MarkAndSkip
        }
    } else if sentinel_present {
        CliPrompt::ClearAndPrompt
    } else {
        CliPrompt::Prompt
    }
}

/// Whether a launch prompts at all.
pub open spec fn prompts(p: CliPrompt) -> bool {
    p == CliPrompt::ClearAndPrompt || p == CliPrompt::Prompt
}

/// What a launch does about the completions banner.
#[derive(Debug, Clone, Copy, PartialEq, Eq, Structural)]
pub enum CompletionsPrompt {
    Skip,
    MarkAndSkip,
    Show,
}

/// The banner shows once the CLI is installed and while its completions are
/// not; found completions are recorded so the check stops. `completions_found`
/// is asked only when the first two do not decide.
pub fn completions_prompt(sentinel_present: bool, cli_installed: bool, completions_found: bool) -> (r: CompletionsPrompt)
    ensures
        r == if sentinel_present || !cli_installed {
            CompletionsPrompt::Skip
        } else if completions_found {
            CompletionsPrompt::MarkAndSkip
        } else {
            CompletionsPrompt::Show
        },
{
    if sentinel_present || !cli_installed {
        CompletionsPrompt::Skip
    } else if completions_found {
        CompletionsPrompt::MarkAndSkip
    } else {
        CompletionsPrompt::Show
    }
}

/// Where a shell keeps the completions of `cli`, relative to the home
/// directory (zsh also looks under Homebrew's prefix first).
#[derive(Debug, Clone, PartialEq, Eq)]
pub enum CompletionsLocation {
    /// `<brew prefix>/<brew>`, else `~/<home>`.
    Zsh { brew: String, home: String },
    Bash { home: String },
    Fish { home: String },
    /// Unknown shell: counted as installed, so no banner.
    Unknown,
}

/// Whether `p` occurs in `s`.
pub open spec fn contains_text(s: Seq<char>, p: Seq<char>) -> bool {
    exists|i: int| 0 <= i && i + p.len() <= s.len() && #[trigger] s.subrange(i, i + p.len()) == p
}

/// Whether `lit` occurs in `s` (`str::contains`).
pub fn contains_lit_text(s: &Vec<char>, lit: &str) -> (r: bool)
    ensures
        r == contains_text(s@, lit@),
{
    let p = chars_of(lit);
    if p.len() > s.len() {
        return false;
    }
    let last = s.len() - p.len();
    let mut i: usize = 0;
    while i <= last
        invariant
            p@ == lit@,
            last + p@.len() == s@.len(),
            i <= last + 1,
            forall|k: int| 0 <= k < i ==> #[trigger] s@.subrange(k, k + p@.len()) != p@,
        decreases last + 1 - i,
    {
        if crate::text::matches_at(s, i, &p) {
            assert(s@.skip(i as int).take(p@.len() as int) =~= s@.subrange(i as int, i + p@.len()));
            return true;
        }
        assert(s@.skip(i as int).take(p@.len() as int) =~= s@.subrange(i as int, i + p@.len()));
        if i == last {
            return false;
        }
        i = i + 1;
    }
    false
}

/// The location for `$SHELL`, tested for `zsh`, `bash`, then `fish`.
pub open spec fn spec_completions_location(shell: Seq<char>, cli: Seq<char>) -> Option<(int, Seq<char>, Seq<char>)> {
    if contains_text(shell, "zsh"@) {
        Some((0, "share/zsh/site-functions/_"@ + cli, ".zfunc/_"@ + cli))
    } else if contains_text(shell, "bash"@) {
        Some((1, Seq::<char>::empty(), ".bash_completion.d/"@ + cli))
    } else if contains_text(shell, "fish"@) {
        Some((2, Seq::<char>::empty(), ".config/fish/completions/"@ + cli + ".fish"@))
    } else {
        None
    }
}

pub fn completions_location(shell: &str, cli: &str) -> (r: CompletionsLocation)
    ensures
        match spec_completions_location(shell@, cli@) {
            Some((k, brew, home)) => match r {
                CompletionsLocation::Zsh { brew: b, home: h } => k == 0 && b@ == brew && h@ == home,
                CompletionsLocation::Bash { home: h } => k == 1 && h@ == home,
                CompletionsLocation::Fish { home: h } => k == 2 && h@ == home,
                CompletionsLocation::Unknown => false,
            },
            None => r == CompletionsLocation::Unknown,
        },
{
    let s = chars_of(shell);
    if contains_lit_text(&s, "zsh") {
        let mut b: Vec<char> = Vec::new();
        push_lit(&mut b, "share/zsh/site-functions/_");
        push_lit(&mut b, cli);
        let mut h: Vec<char> = Vec::new();
        push_lit(&mut h, ".zfunc/_");
        push_lit(&mut h, cli);
        CompletionsLocation::Zsh { brew: string_of(&b), home: string_of(&h) }
    } else if contains_lit_text(&s, "bash") {
        let mut h: Vec<char> = Vec::new();
        push_lit(&mut h, ".bash_completion.d/");
        push_lit(&mut h, cli);
        CompletionsLocation::Bash { home: string_of(&h) }
    } else if contains_lit_text(&s, "fish") {
        let mut h: Vec<char> = Vec::new();
        push_lit(&mut h, ".config/fish/completions/");
        push_lit(&mut h, cli);
        push_lit(&mut h, ".fish");
        CompletionsLocation::Fish { home: string_of(&h) }
    } else {
        CompletionsLocation::Unknown
    }
}

// ── sentinel files ──────────────────────────────────────────────────────────

fn joined(dir: &str, name: &str) -> (r: String)
    ensures
        r@ == path_join(dir@, name@),
{
    let d = chars_of(dir);
    let n = chars_of(name);
    let p = join_path(&d, &n);
    string_of(&p)
}

/// The file whose presence records that the completions banner was handled.
pub fn completions_sentinel_path(config_dir: &str) -> (r: String)
    ensures
        r@ == path_join(config_dir@, "completions_setup_done"@),
{
    joined(config_dir, "completions_setup_done")
}

/// The file whose presence records that the CLI setup prompt was handled.
pub fn sentinel_path(config_dir: &str) -> (r: String)
    ensures
        r@ == path_join(config_dir@, "cli_setup_done"@),
{
    joined(config_dir, "cli_setup_done")
}

/// Where the CLI of a build is installed.
pub fn install_path(cli_name: &str) -> (r: String)
    ensures
        r@ == path_join("/usr/local/bin"@, cli_name@),
{
    joined("/usr/local/bin", cli_name)
}

} // verus!
