//! Notes from the command line: the text a captured note is written with,
//! the editor the picker opens, and the shell line the picker is typed as.

use vstd::prelude::*;
use crate::text::{chars_of, push_all, push_lit, string_of, trim, trim_chars};

verus! {

/// A captured note: YAML frontmatter with its provenance (capture time,
/// `source: cli`, working directory), then the trimmed text and a newline.
pub open spec fn spec_note_content(captured_at: Seq<char>, cwd: Seq<char>, text: Seq<char>) -> Seq<char> {
    "---\ncaptured_at: "@ + captured_at + "\nsource: cli\ncwd: "@ + cwd + "\n---\n"@ + trim(text) + "\n"@
}

pub fn note_content(captured_at: &str, cwd: &str, text: &str) -> (r: String)
    ensures
        r@ == spec_note_content(captured_at@, cwd@, text@),
{
    let mut out: Vec<char> = Vec::new();
    push_lit(&mut out, "---\ncaptured_at: ");
    push_lit(&mut out, captured_at);
    push_lit(&mut out, "\nsource: cli\ncwd: ");
    push_lit(&mut out, cwd);
    push_lit(&mut out, "\n---\n");
    let t = chars_of(text);
    let tt = trim_chars(&t);
    push_all(&mut out, &tt);
    push_lit(&mut out, "\n");
    string_of(&out)
}

/// The editor the picker opens a note in: `micro`, else `nano`, else `vim`.
pub fn choose_editor(has_micro: bool, has_nano: bool) -> (r: &'static str)
    ensures
        r@ == (if has_micro {
            "micro"@
        } else if has_nano {
            "nano"@
        } else {
            "vim"@
        }),
{
    if has_micro {
        "micro"
    } else if has_nano {
        "nano"
    } else {
        "vim"
    }
}

/// The line typed into the pane: list the notes through this very binary,
/// pick one with `fzf`, and open it in the editor; it ends with a carriage
/// return.
pub open spec fn spec_picker_command(self_exe: Seq<char>, editor: Seq<char>) -> Seq<char> {
    "selected=$(\""@ + self_exe + "\" notes list | fzf --header='Select note'); [ -n \"$selected\" ] && "@
        + editor + " \"$selected\"\r"@
}

pub fn picker_command(self_exe: &str, editor: &str) -> (r: String)
    ensures
        r@ == spec_picker_command(self_exe@, editor@),
{
    let mut out: Vec<char> = Vec::new();
    push_lit(&mut out, "selected=$(\"");
    push_lit(&mut out, self_exe);
    push_lit(&mut out, "\" notes list | fzf --header='Select note'); [ -n \"$selected\" ] && ");
    push_lit(&mut out, editor);
    push_lit(&mut out, " \"$selected\"\r");
    string_of(&out)
}

} // verus!
