//! Inferring a CLI descriptor from `<cli> --help`: the help text is cut into
//! lines, command sections are recognised by their headers, and each
//! indented `name  description` row becomes a command.

use vstd::prelude::*;
use crate::channel::{char_to_upper, upper_of};
use crate::text::{
    char_is_ws, chars_of, has_char, contains_char, is_ws, push_all, skip_ws, skip_ws_from,
    slice_of, split, split_chars, starts_with, starts_with_lit, string_of, trim, trim_chars,
    trim_start, lemma_skip_ws_bounds, eq_lit,
};

verus! {

// ── lines ───────────────────────────────────────────────────────────────────

/// A line without the `\r` of a `\r\n` ending.
pub open spec fn strip_cr(l: Seq<char>) -> Seq<char> {
    if l.len() > 0 && l.last() == '\r' {
        l.drop_last()
    } else {
        l
    }
}

/// `str::lines`: the pieces between `\n`s, each without the `\r` of a
/// `\r\n`; a final line ending adds no empty line.
pub open spec fn lines(s: Seq<char>) -> Seq<Seq<char>> {
    let p = split(s, '\n');
    let body = p.drop_last().map_values(|l: Seq<char>| strip_cr(l));
    if p.last().len() == 0 {
        body
    } else {
        body.push(p.last())
    }
}

pub open spec fn views(v: Seq<Vec<char>>) -> Seq<Seq<char>> {
    v.map_values(|x: Vec<char>| x@)
}

proof fn lemma_split_nonempty(s: Seq<char>, c: char, start: int)
    requires
        0 <= start <= s.len(),
    ensures
        crate::text::split_from(s, c, start).len() >= 1,
    decreases s.len() - start,
{
    crate::text::lemma_next_idx(s, c, start);
    let k = crate::text::next_idx(s, c, start);
    if k < s.len() && k >= start {
        lemma_split_nonempty(s, c, k + 1);
    }
}

/// `str::split` always yields at least one piece.
pub proof fn lemma_split_nonempty_pub(s: Seq<char>, c: char)
    ensures
        split(s, c).len() >= 1,
{
    lemma_split_nonempty(s, c, 0);
}

fn strip_cr_chars(l: &Vec<char>) -> (r: Vec<char>)
    ensures
        r@ == strip_cr(l@),
{
    if l.len() > 0 && l[l.len() - 1] == '\r' {
        slice_of(l, 0, l.len() - 1)
    } else {
        slice_of(l, 0, l.len())
    }
}

/// The lines of `s`.
pub fn lines_of(s: &Vec<char>) -> (r: Vec<Vec<char>>)
    ensures
        views(r@) == lines(s@),
{
    let parts = split_chars(s, '\n');
    proof {
        lemma_split_nonempty(s@, '\n', 0);
    }
    let ghost p = split(s@, '\n');
    let n = parts.len();
    let mut out: Vec<Vec<char>> = Vec::new();
    let mut i: usize = 0;
    while i + 1 < n
        invariant
            n == parts@.len(),
            n == p.len(),
            n >= 1,
            forall|j: int| 0 <= j < n ==> #[trigger] parts@[j]@ == p[j],
            i + 1 <= n,
            views(out@) == p.take(i as int).map_values(|l: Seq<char>| strip_cr(l)),
        decreases n - i,
    {
        let l = strip_cr_chars(&parts[i]);
        let ghost before = out@;
        out.push(l);
        proof {
            assert(views(out@) =~= views(before).push(l@));
            assert(p.take(i + 1).map_values(|l: Seq<char>| strip_cr(l)) =~= p.take(
                i as int,
            ).map_values(|l: Seq<char>| strip_cr(l)).push(strip_cr(p[i as int])));
        }
        i = i + 1;
    }
    proof {
        assert(p.take(i as int) =~= p.drop_last());
    }
    if parts[n - 1].len() > 0 {
        let last = slice_of(&parts[n - 1], 0, parts[n - 1].len());
        let ghost before = out@;
        out.push(last);
        proof {
            assert(views(out@) =~= views(before).push(last@));
            assert(last@ =~= p.last());
        }
    }
    out
}


// ── character classes and byte lengths ─────────────────────────────────────

/// Whether `char::is_alphabetic` holds of `c` (the Unicode `Alphabetic` property).
pub uninterp spec fn alphabetic(c: char) -> bool;

/// Whether `char::is_uppercase` holds of `c` (the Unicode `Uppercase` property).
pub uninterp spec fn uppercase(c: char) -> bool;

/// `char::is_alphabetic`. For ASCII it holds of the letters only.
#[verifier::external_body]
fn char_is_alphabetic(c: char) -> (r: bool)
    ensures
        r == alphabetic(c),
        (c as u32) < 128 ==> (r <==> ('a' <= c <= 'z' || 'A' <= c <= 'Z')),
{
    c.is_alphabetic()
}

/// `char::is_uppercase`. For ASCII it holds of `A` to `Z` only.
#[verifier::external_body]
fn char_is_uppercase(c: char) -> (r: bool)
    ensures
        r == uppercase(c),
        (c as u32) < 128 ==> (r <==> 'A' <= c <= 'Z'),
{
    c.is_uppercase()
}

/// The number of UTF-8 bytes of `c`.
pub open spec fn utf8_len(c: char) -> nat {
    let u = c as u32;
    if u < 0x80 {
        1
    } else if u < 0x800 {
        2
    } else if u < 0x10000 {
        3
    } else {
        4
    }
}

/// The number of UTF-8 bytes of `s` (`str::len`).
pub open spec fn byte_len(s: Seq<char>) -> nat
    decreases s.len(),
{
    if s.len() == 0 {
        0
    } else {
        byte_len(s.drop_last()) + utf8_len(s.last())
    }
}

/// The bytes of leading whitespace of `line`
/// (`line.len() - line.trim_start().len()`).
pub open spec fn leading_ws_bytes(line: Seq<char>) -> nat {
    byte_len(line.take(skip_ws_from(line, 0)))
}

proof fn lemma_byte_len_mono(s: Seq<char>, i: int, j: int)
    requires
        0 <= i <= j <= s.len(),
    ensures
        byte_len(s.take(i)) <= byte_len(s.take(j)),
    decreases j - i,
{
    if i < j {
        lemma_byte_len_mono(s, i, j - 1);
        assert(s.take(j).drop_last() =~= s.take(j - 1));
    }
}

fn char_bytes(c: char) -> (r: u64)
    ensures
        r == utf8_len(c),
{
    let u = c as u32;
    if u < 0x80 {
        1
    } else if u < 0x800 {
        2
    } else if u < 0x10000 {
        3
    } else {
        4
    }
}

/// The bytes of `s[..n]`, exact up to 3 and otherwise some number above 3.
fn capped_bytes(s: &Vec<char>, n: usize) -> (r: u64)
    requires
        n <= s@.len(),
    ensures
        r <= 3 ==> r == byte_len(s@.take(n as int)),
        r > 3 ==> byte_len(s@.take(n as int)) > 3,
{
    let mut acc: u64 = 0;
    let mut i: usize = 0;
    while i < n
        invariant
            i <= n <= s@.len(),
            acc == byte_len(s@.take(i as int)),
            acc <= 3,
        decreases n - i,
    {
        let b = char_bytes(s[i]);
        proof {
            assert(s@.take(i + 1).drop_last() =~= s@.take(i as int));
        }
        if acc + b > 3 {
            proof {
                lemma_byte_len_mono(s@, i + 1, n as int);
            }
            return acc + b;
        }
        acc = acc + b;
        i = i + 1;
    }
    acc
}

/// `leading_ws_bytes(line)`, exact up to 3.
fn leading_bytes(line: &Vec<char>) -> (r: u64)
    ensures
        r <= 3 ==> r == leading_ws_bytes(line@),
        r > 3 ==> leading_ws_bytes(line@) > 3,
{
    let k = skip_ws(line, 0);
    capped_bytes(line, k)
}

/// `s` with every trailing `c` removed (`str::trim_end_matches`).
pub open spec fn rstrip_char(s: Seq<char>, c: char) -> Seq<char>
    decreases s.len(),
{
    if s.len() > 0 && s.last() == c {
        rstrip_char(s.drop_last(), c)
    } else {
        s
    }
}

fn rstrip_char_chars(s: &Vec<char>, c: char) -> (r: Vec<char>)
    ensures
        r@ == rstrip_char(s@, c),
{
    let mut k = s.len();
    proof {
        assert(s@.take(s@.len() as int) =~= s@);
    }
    while k > 0 && s[k - 1] == c
        invariant
            k <= s@.len(),
            rstrip_char(s@.take(k as int), c) == rstrip_char(s@, c),
        decreases k,
    {
        proof {
            assert(s@.take(k as int).drop_last() =~= s@.take(k - 1));
        }
        k = k - 1;
    }
    slice_of(s, 0, k)
}

/// `str::to_uppercase`: each character's uppercase mapping, in order.
pub open spec fn upper_str(s: Seq<char>) -> Seq<char>
    decreases s.len(),
{
    if s.len() == 0 {
        seq![]
    } else {
        upper_str(s.drop_last()) + upper_of(s.last())
    }
}

fn upper_chars(s: &Vec<char>) -> (r: Vec<char>)
    ensures
        r@ == upper_str(s@),
{
    let mut out: Vec<char> = Vec::new();
    let mut i: usize = 0;
    while i < s.len()
        invariant
            i <= s@.len(),
            out@ == upper_str(s@.take(i as int)),
        decreases s@.len() - i,
    {
        let u = char_to_upper(s[i]);
        push_all(&mut out, &u);
        proof {
            assert(s@.take(i + 1).drop_last() =~= s@.take(i as int));
        }
        i = i + 1;
    }
    proof {
        assert(s@.take(s@.len() as int) =~= s@);
    }
    out
}

/// How many characters of `s` are alphabetic.
pub open spec fn count_alpha(s: Seq<char>) -> nat
    decreases s.len(),
{
    if s.len() == 0 {
        0
    } else {
        count_alpha(s.drop_last()) + if alphabetic(s.last()) {
            1nat
        } else {
            0nat
        }
    }
}

/// How many characters of `s` are uppercase.
pub open spec fn count_upper(s: Seq<char>) -> nat
    decreases s.len(),
{
    if s.len() == 0 {
        0
    } else {
        count_upper(s.drop_last()) + if uppercase(s.last()) {
            1nat
        } else {
            0nat
        }
    }
}

// ── section headers ─────────────────────────────────────────────────────────

/// The headers that open a command section, compared in uppercase.
pub open spec fn is_command_keyword(u: Seq<char>) -> bool {
    ||| u == "AVAILABLE COMMANDS"@
    ||| u == "MANAGEMENT COMMANDS"@
    ||| u == "ADDITIONAL COMMANDS"@
    ||| u == "CORE COMMANDS"@
    ||| u == "SUBCOMMANDS"@
    ||| u == "COMMANDS"@
}

/// A command-section header: the trimmed, uppercased line, without trailing
/// colons, is one of the keywords.
pub open spec fn spec_is_command_section_header(line: Seq<char>) -> bool {
    is_command_keyword(trim(rstrip_char(upper_str(trim(line)), ':')))
}

/// Any section header: at most 2 bytes of indentation, and the line without
/// trailing colons, trimmed, has at least 3 bytes, at least 2 alphabetic
/// characters, and at least 60% of those uppercase.
pub open spec fn spec_is_any_section_header(line: Seq<char>) -> bool {
    let t = trim(rstrip_char(line, ':'));
    &&& t.len() > 0
    &&& leading_ws_bytes(line) <= 2
    &&& byte_len(t) >= 3
    &&& count_alpha(t) >= 2
    &&& count_upper(t) * 10 >= count_alpha(t) * 6
}

fn is_command_keyword_chars(u: &Vec<char>) -> (r: bool)
    ensures
        r == is_command_keyword(u@),
{
    eq_lit(u, "AVAILABLE COMMANDS") || eq_lit(u, "MANAGEMENT COMMANDS") || eq_lit(
        u,
        "ADDITIONAL COMMANDS",
    ) || eq_lit(u, "CORE COMMANDS") || eq_lit(u, "SUBCOMMANDS") || eq_lit(u, "COMMANDS")
}

pub fn is_command_section_header(line: &Vec<char>) -> (r: bool)
    ensures
        r == spec_is_command_section_header(line@),
{
    let t = trim_chars(line);
    let up = upper_chars(&t);
    let stripped = rstrip_char_chars(&up, ':');
    let u = trim_chars(&stripped);
    is_command_keyword_chars(&u)
}

pub fn is_any_section_header(line: &Vec<char>) -> (r: bool)
    ensures
        r == spec_is_any_section_header(line@),
{
    let stripped = rstrip_char_chars(line, ':');
    let t = trim_chars(&stripped);
    if t.len() == 0 {
        return false;
    }
    let leading = leading_bytes(line);
    if leading > 2 {
        return false;
    }
    let tb = capped_bytes(&t, t.len());
    proof {
        assert(t@.take(t@.len() as int) =~= t@);
    }
    if tb < 3 {
        return false;
    }
    let mut alpha: usize = 0;
    let mut upper: usize = 0;
    let mut i: usize = 0;
    while i < t.len()
        invariant
            i <= t@.len(),
            alpha == count_alpha(t@.take(i as int)),
            upper == count_upper(t@.take(i as int)),
            alpha <= i,
            upper <= i,
        decreases t@.len() - i,
    {
        proof {
            assert(t@.take(i + 1).drop_last() =~= t@.take(i as int));
        }
        if char_is_alphabetic(t[i]) {
            alpha = alpha + 1;
        }
        if char_is_uppercase(t[i]) {
            upper = upper + 1;
        }
        i = i + 1;
    }
    alpha >= 2 && (upper as u128) * 10 >= (alpha as u128) * 6
}


// ── command rows ────────────────────────────────────────────────────────────

/// How a client is advised to render a command's output.
#[derive(Debug, Clone, Copy, PartialEq, Eq, Structural)]
pub enum UiHint {
    List,
}

/// One command of a descriptor.
#[derive(Debug, Clone)]
pub struct Command {
    pub name: String,
    pub description: Option<String>,
    pub icon: Option<String>,
    pub ui_hint: Option<UiHint>,
}

/// What a descriptor says of a CLI.
#[derive(Debug, Clone)]
pub struct PlexiDescriptor {
    pub plexi_version: String,
    pub name: String,
    pub version: String,
    pub description: Option<String>,
    pub icon: Option<String>,
    pub default_view: Option<UiHint>,
    pub commands: Vec<Command>,
}

/// A command row's name and description.
pub open spec fn cmd_view(c: Command) -> (Seq<char>, Option<Seq<char>>) {
    (c.name@, crate::text::opt_text(c.description))
}

pub open spec fn cmds_view(cs: Seq<Command>) -> Seq<(Seq<char>, Option<Seq<char>>)> {
    cs.map_values(|c: Command| cmd_view(c))
}

/// The first index at or after `i` holding whitespace, or `s.len()`.
pub open spec fn first_ws_from(s: Seq<char>, i: int) -> int
    decreases s.len() - i,
{
    if i < 0 || i >= s.len() {
        s.len() as int
    } else if is_ws(s[i]) {
        i
    } else {
        first_ws_from(s, i + 1)
    }
}

pub(crate) proof fn lemma_first_ws(s: Seq<char>, i: int)
    requires
        0 <= i <= s.len(),
    ensures
        i <= first_ws_from(s, i) <= s.len(),
    decreases s.len() - i,
{
    if i < s.len() && !is_ws(s[i]) {
        lemma_first_ws(s, i + 1);
    }
}

/// A command row: at least 2 bytes of indentation, then a name (its first
/// whitespace-free token without trailing colons, not a flag, `[...]` or
/// `<...>`), then optionally a description (the rest, trimmed).
pub open spec fn spec_parse_command_line(line: Seq<char>) -> Option<(Seq<char>, Option<Seq<char>>)> {
    let t = trim_start(line);
    if leading_ws_bytes(line) < 2 || t.len() == 0 || t[0] == '-' {
        None
    } else {
        let p = first_ws_from(t, 0);
        let name = rstrip_char(t.take(p), ':');
        let rest = trim(t.skip(p));
        if name.len() == 0 || has_char(name, ' ') || name[0] == '-' || name[0] == '['
            || name[0] == '<' {
            None
        } else {
            Some(
                (
                    name,
                    if rest.len() == 0 {
                        None
                    } else {
                        Some(rest)
                    },
                ),
            )
        }
    }
}

proof fn lemma_skip_ws_to(s: Seq<char>, i: int, j: int)
    requires
        0 <= i <= j <= s.len(),
        forall|k: int| i <= k < j ==> is_ws(#[trigger] s[k]),
        j < s.len() ==> !is_ws(s[j]),
    ensures
        skip_ws_from(s, i) == j,
    decreases j - i,
{
    if i < j {
        lemma_skip_ws_to(s, i + 1, j);
    }
}

proof fn lemma_first_ws_to(s: Seq<char>, i: int, j: int)
    requires
        0 <= i <= j <= s.len(),
        forall|k: int| i <= k < j ==> !is_ws(#[trigger] s[k]),
        j < s.len() ==> is_ws(s[j]),
    ensures
        first_ws_from(s, i) == j,
    decreases j - i,
{
    if i < j {
        lemma_first_ws_to(s, i + 1, j);
    }
}

proof fn lemma_byte_len_spaces(s: Seq<char>)
    requires
        forall|k: int| 0 <= k < s.len() ==> #[trigger] s[k] == ' ',
    ensures
        byte_len(s) == s.len(),
    decreases s.len(),
{
    if s.len() > 0 {
        lemma_byte_len_spaces(s.drop_last());
    }
}

/// A row of at least two spaces of indentation, a name (no whitespace, not
/// ending in `:`, not starting with `-`, `[` or `<`), spaces, and a
/// description without surrounding whitespace reads as that name with that
/// description; the same row without a description reads as the name alone.
pub proof fn lemma_command_row_reads_name_and_description(
    indent: Seq<char>,
    name: Seq<char>,
    sep: Seq<char>,
    desc: Seq<char>,
)
    requires
        indent.len() >= 2,
        forall|k: int| 0 <= k < indent.len() ==> #[trigger] indent[k] == ' ',
        name.len() > 0,
        forall|k: int| 0 <= k < name.len() ==> !is_ws(#[trigger] name[k]),
        name.last() != ':',
        name[0] != '-' && name[0] != '[' && name[0] != '<',
        sep.len() > 0,
        forall|k: int| 0 <= k < sep.len() ==> #[trigger] sep[k] == ' ',
        desc.len() > 0,
        !is_ws(desc[0]),
        !is_ws(desc.last()),
    ensures
        spec_parse_command_line(indent + name + sep + desc) == Some((name, Some(desc))),
        spec_parse_command_line(indent + name) == Some((name, None::<Seq<char>>)),
{
    let line = indent + name + sep + desc;
    let t = name + sep + desc;
    assert(line =~= indent + t);
    lemma_skip_ws_to(line, 0, indent.len() as int);
    assert(line.take(indent.len() as int) =~= indent);
    lemma_byte_len_spaces(indent);
    assert(trim_start(line) =~= t);
    lemma_first_ws_to(t, 0, name.len() as int);
    assert(t.take(name.len() as int) =~= name);
    assert(rstrip_char(name, ':') == name);
    assert(!has_char(name, ' '));
    let after = t.skip(name.len() as int);
    assert(after =~= sep + desc);
    lemma_skip_ws_to(after, 0, sep.len() as int);
    assert(trim_start(after) =~= desc);
    assert(crate::text::back_ws_to(desc, desc.len() as int) == desc.len());
    assert(desc.take(desc.len() as int) =~= desc);
    assert(trim(after) == desc);

    let line2 = indent + name;
    lemma_skip_ws_to(line2, 0, indent.len() as int);
    assert(line2.take(indent.len() as int) =~= indent);
    assert(trim_start(line2) =~= name);
    lemma_first_ws_to(name, 0, name.len() as int);
    assert(name.take(name.len() as int) =~= name);
    let empty = name.skip(name.len() as int);
    assert(empty.len() == 0);
    assert(trim_start(empty).len() == 0);
    assert(trim(empty).len() == 0);
}

fn first_ws(s: &Vec<char>) -> (r: usize)
    ensures
        r == first_ws_from(s@, 0),
        r <= s@.len(),
{
    proof {
        lemma_first_ws(s@, 0);
    }
    let mut k: usize = 0;
    while k < s.len() && !char_is_ws(s[k])
        invariant
            k <= s@.len(),
            first_ws_from(s@, k as int) == first_ws_from(s@, 0),
        decreases s@.len() - k,
    {
        k = k + 1;
    }
    k
}

/// The command a help line lists, if it lists one.
pub fn parse_command_line(line: &Vec<char>) -> (r: Option<Command>)
    ensures
        match r {
            Some(c) => {
                &&& spec_parse_command_line(line@) == Some(cmd_view(c))
                &&& c.icon is None
                &&& c.ui_hint == Some(UiHint::List)
            },
            None => spec_parse_command_line(line@) is None,
        },
{
    let leading = leading_bytes(line);
    if leading < 2 {
        return None;
    }
    let t = trim_start_of(line);
    if t.len() == 0 || t[0] == '-' {
        return None;
    }
    let p = first_ws(&t);
    let raw = slice_of(&t, 0, p);
    let tail = slice_of(&t, p, t.len());
    let rest = trim_chars(&tail);
    let name = rstrip_char_chars(&raw, ':');
    proof {
        assert(raw@ =~= t@.take(p as int));
        assert(tail@ =~= t@.skip(p as int));
    }
    if name.len() == 0 || contains_char(&name, ' ') || name[0] == '-' || name[0] == '[' || name[0]
        == '<' {
        return None;
    }
    let description = if rest.len() == 0 {
        None
    } else {
        Some(string_of(&rest))
    };
    Some(Command { name: string_of(&name), description, icon: None, ui_hint: Some(UiHint::List) })
}

fn trim_start_of(s: &Vec<char>) -> (r: Vec<char>)
    ensures
        r@ == trim_start(s@),
{
    let a = skip_ws(s, 0);
    slice_of(s, a, s.len())
}

/// Whether every character is an ASCII lowercase letter.
pub open spec fn all_ascii_lower(s: Seq<char>) -> bool {
    forall|i: int| 0 <= i < s.len() ==> 'a' <= #[trigger] s[i] <= 'z'
}

fn all_ascii_lower_chars(s: &Vec<char>) -> (r: bool)
    ensures
        r == all_ascii_lower(s@),
{
    let mut i: usize = 0;
    while i < s.len()
        invariant
            i <= s@.len(),
            forall|j: int| 0 <= j < i ==> 'a' <= #[trigger] s@[j] <= 'z',
        decreases s@.len() - i,
    {
        if !('a' <= s[i] && s[i] <= 'z') {
            return false;
        }
        i = i + 1;
    }
    true
}

/// The state of the section scan after `k` lines: inside a command section,
/// a command header seen, and the commands collected so far.
pub open spec fn section_scan(ls: Seq<Seq<char>>, k: int) -> (bool, bool, Seq<(Seq<char>, Option<Seq<char>>)>)
    decreases k,
{
    if k <= 0 || k > ls.len() {
        (false, false, seq![])
    } else {
        let st = section_scan(ls, k - 1);
        let line = ls[k - 1];
        if spec_is_command_section_header(line) {
            (true, true, st.2)
        } else if st.0 {
            if spec_is_any_section_header(line) {
                (false, st.1, st.2)
            } else {
                match spec_parse_command_line(line) {
                    Some(c) => (true, st.1, st.2.push(c)),
                    None => st,
                }
            }
        } else {
            st
        }
    }
}

/// The fallback scan over the first `k` lines: rows indented by exactly 3
/// bytes whose name is all ASCII lowercase letters.
pub open spec fn fallback_scan(ls: Seq<Seq<char>>, k: int) -> Seq<(Seq<char>, Option<Seq<char>>)>
    decreases k,
{
    if k <= 0 || k > ls.len() {
        seq![]
    } else {
        let acc = fallback_scan(ls, k - 1);
        let line = ls[k - 1];
        if leading_ws_bytes(line) == 3 {
            match spec_parse_command_line(line) {
                Some(c) => if all_ascii_lower(c.0) {
                    acc.push(c)
                } else {
                    acc
                },
                None => acc,
            }
        } else {
            acc
        }
    }
}

/// The commands a help text lists: the rows of its command sections; when
/// it has no command section header and so no rows, the fallback scan.
pub open spec fn spec_extract_commands(text: Seq<char>) -> Seq<(Seq<char>, Option<Seq<char>>)> {
    let ls = lines(text);
    let st = section_scan(ls, ls.len() as int);
    if !st.1 && st.2.len() == 0 {
        fallback_scan(ls, ls.len() as int)
    } else {
        st.2
    }
}

/// Line `j` lies in a command section opened at line `h`: `h` is a command
/// section header, and no section header of any kind stands between them.
pub open spec fn in_command_section(ls: Seq<Seq<char>>, h: int, j: int) -> bool {
    &&& 0 <= h < j <= ls.len()
    &&& spec_is_command_section_header(ls[h])
    &&& forall|m: int| h < m < j ==> !spec_is_any_section_header(#[trigger] ls[m]) && !spec_is_command_section_header(ls[m])
}

/// Command `c` parses from a line before line `k` that lies in a command
/// section.
pub open spec fn row_in_command_section(ls: Seq<Seq<char>>, c: (Seq<char>, Option<Seq<char>>), k: int) -> bool {
    exists|h: int, j: int| #[trigger] in_command_section(ls, h, j) && j < k && spec_parse_command_line(ls[j]) == Some(c)
}

proof fn lemma_row_in_section_later(ls: Seq<Seq<char>>, c: (Seq<char>, Option<Seq<char>>), k: int, k2: int)
    requires
        row_in_command_section(ls, c, k),
        k <= k2,
    ensures
        row_in_command_section(ls, c, k2),
{
    let (h, j) = choose|h: int, j: int| #[trigger] in_command_section(ls, h, j) && j < k && spec_parse_command_line(ls[j]) == Some(c);
    assert(in_command_section(ls, h, j) && j < k2 && spec_parse_command_line(ls[j]) == Some(c));
}

proof fn lemma_section_scan_sound(ls: Seq<Seq<char>>, k: int)
    requires
        0 <= k <= ls.len(),
    ensures
        section_scan(ls, k).0 ==> exists|h: int| #[trigger] in_command_section(ls, h, k),
        (exists|h: int| 0 <= h < k && spec_is_command_section_header(#[trigger] ls[h])) ==> section_scan(ls, k).1,
        forall|i: int| 0 <= i < section_scan(ls, k).2.len() ==> row_in_command_section(ls, #[trigger] section_scan(ls, k).2[i], k),
    decreases k,
{
    if k > 0 {
        lemma_section_scan_sound(ls, k - 1);
        let st = section_scan(ls, k - 1);
        let now = section_scan(ls, k);
        let line = ls[k - 1];
        if spec_is_command_section_header(line) {
            assert(in_command_section(ls, k - 1, k));
        } else if st.0 {
            let h = choose|h: int| #[trigger] in_command_section(ls, h, k - 1);
            if !spec_is_any_section_header(line) {
                assert(in_command_section(ls, h, k));
                match spec_parse_command_line(line) {
                    Some(c) => {
                        assert(in_command_section(ls, h, k - 1) && k - 1 < k && spec_parse_command_line(ls[k - 1]) == Some(c));
                        assert(row_in_command_section(ls, c, k));
                    },
                    None => {},
                }
            }
        }
        assert forall|i: int| 0 <= i < now.2.len() implies row_in_command_section(ls, #[trigger] now.2[i], k) by {
            if i < st.2.len() {
                assert(now.2[i] == st.2[i]);
                assert(row_in_command_section(ls, st.2[i], k - 1));
                lemma_row_in_section_later(ls, st.2[i], k - 1, k);
            }
        }
        if exists|h: int| 0 <= h < k && spec_is_command_section_header(#[trigger] ls[h]) {
            let h = choose|h: int| 0 <= h < k && spec_is_command_section_header(#[trigger] ls[h]);
            if h < k - 1 {
                assert(st.1);
            }
        }
    }
}

/// Line `j` is a row of a command section: it lies in one and is no section
/// header itself.
pub open spec fn command_row_at(ls: Seq<Seq<char>>, j: int) -> bool {
    &&& 0 <= j < ls.len()
    &&& (exists|h: int| #[trigger] in_command_section(ls, h, j))
    &&& !spec_is_any_section_header(ls[j])
    &&& !spec_is_command_section_header(ls[j])
}

proof fn lemma_section_scan_complete(ls: Seq<Seq<char>>, k: int)
    requires
        0 <= k <= ls.len(),
    ensures
        (exists|h: int| #[trigger] in_command_section(ls, h, k)) ==> section_scan(ls, k).0,
        forall|j: int|
            0 <= j < k && #[trigger] command_row_at(ls, j) && spec_parse_command_line(ls[j]) is Some
                ==> section_scan(ls, k).2.contains(spec_parse_command_line(ls[j])->0),
    decreases k,
{
    if k > 0 {
        lemma_section_scan_complete(ls, k - 1);
        let st = section_scan(ls, k - 1);
        let now = section_scan(ls, k);
        let line = ls[k - 1];
        if exists|h: int| #[trigger] in_command_section(ls, h, k) {
            let h = choose|h: int| #[trigger] in_command_section(ls, h, k);
            if h < k - 1 {
                assert(in_command_section(ls, h, k - 1));
            }
        }
        assert forall|j: int|
            0 <= j < k && #[trigger] command_row_at(ls, j) && spec_parse_command_line(ls[j]) is Some implies now.2.contains(
            spec_parse_command_line(ls[j])->0,
        ) by {
            let c = spec_parse_command_line(ls[j])->0;
            if j < k - 1 {
                let i = choose|i: int| 0 <= i < st.2.len() && st.2[i] == c;
                if now.2 != st.2 {
                    assert(now.2 == st.2.push(now.2.last()));
                    assert(now.2[i] == c);
                }
            } else {
                let h = choose|h: int| #[trigger] in_command_section(ls, h, j);
                if h < k - 1 {
                    assert(in_command_section(ls, h, k - 1));
                }
                assert(st.0);
                assert(now.2 == st.2.push(c));
                assert(now.2[st.2.len() as int] == c);
            }
        }
    }
}

/// A help text with a command section lists every row of its command
/// sections that reads as a command.
pub proof fn lemma_command_rows_are_listed(text: Seq<char>, j: int)
    requires
        command_row_at(lines(text), j),
        spec_parse_command_line(lines(text)[j]) is Some,
    ensures
        spec_extract_commands(text).contains(spec_parse_command_line(lines(text)[j])->0),
{
    let ls = lines(text);
    lemma_section_scan_complete(ls, ls.len() as int);
    lemma_section_scan_sound(ls, ls.len() as int);
    let h = choose|h: int| #[trigger] in_command_section(ls, h, j);
    assert(0 <= h < ls.len() && spec_is_command_section_header(ls[h]));
    assert(spec_extract_commands(text) == section_scan(ls, ls.len() as int).2);
}

/// Line `j` is a fallback row: indented by exactly 3 bytes, read as a
/// command whose name is all ASCII lowercase letters.
pub open spec fn fallback_row_at(ls: Seq<Seq<char>>, j: int) -> bool {
    &&& 0 <= j < ls.len()
    &&& leading_ws_bytes(ls[j]) == 3
    &&& spec_parse_command_line(ls[j]) matches Some(c) && all_ascii_lower(c.0)
}

/// Command `c` reads from a fallback row before line `k`.
pub open spec fn from_fallback_row(ls: Seq<Seq<char>>, c: (Seq<char>, Option<Seq<char>>), k: int) -> bool {
    exists|j: int| 0 <= j < k && #[trigger] fallback_row_at(ls, j) && spec_parse_command_line(ls[j]) == Some(c)
}

proof fn lemma_scan_without_header(ls: Seq<Seq<char>>, k: int)
    requires
        0 <= k <= ls.len(),
        forall|h: int| 0 <= h < k ==> !spec_is_command_section_header(#[trigger] ls[h]),
    ensures
        section_scan(ls, k) == (false, false, Seq::<(Seq<char>, Option<Seq<char>>)>::empty()),
    decreases k,
{
    if k > 0 {
        lemma_scan_without_header(ls, k - 1);
    }
}

proof fn lemma_fallback_scan_exact(ls: Seq<Seq<char>>, k: int)
    requires
        0 <= k <= ls.len(),
    ensures
        forall|j: int| 0 <= j < k && #[trigger] fallback_row_at(ls, j) ==> fallback_scan(ls, k).contains(spec_parse_command_line(ls[j])->0),
        forall|i: int| 0 <= i < fallback_scan(ls, k).len() ==> from_fallback_row(ls, #[trigger] fallback_scan(ls, k)[i], k),
    decreases k,
{
    if k > 0 {
        lemma_fallback_scan_exact(ls, k - 1);
        let acc = fallback_scan(ls, k - 1);
        let now = fallback_scan(ls, k);
        assert(now == acc || (fallback_row_at(ls, k - 1) && now == acc.push(spec_parse_command_line(ls[k - 1])->0)));
        assert forall|j: int| 0 <= j < k && #[trigger] fallback_row_at(ls, j) implies now.contains(spec_parse_command_line(ls[j])->0) by {
            let c = spec_parse_command_line(ls[j])->0;
            if j < k - 1 {
                let i = choose|i: int| 0 <= i < acc.len() && acc[i] == c;
                if now != acc {
                    assert(now[i] == c);
                }
            } else {
                assert(now[acc.len() as int] == c);
            }
        }
        assert forall|i: int| 0 <= i < now.len() implies from_fallback_row(ls, #[trigger] now[i], k) by {
            if i < acc.len() {
                assert(now[i] == acc[i]);
                assert(from_fallback_row(ls, acc[i], k - 1));
                let j = choose|j: int| 0 <= j < k - 1 && #[trigger] fallback_row_at(ls, j) && spec_parse_command_line(ls[j]) == Some(acc[i]);
                assert(0 <= j < k && fallback_row_at(ls, j) && spec_parse_command_line(ls[j]) == Some(now[i]));
            } else {
                assert(0 <= k - 1 < k && fallback_row_at(ls, k - 1) && spec_parse_command_line(ls[k - 1]) == Some(now[i]));
            }
        }
    }
}

/// A help text with no command section header lists exactly its fallback
/// rows: every line indented by 3 bytes that reads as a command with an
/// all-lowercase name, and nothing else.
pub proof fn lemma_fallback_lists_indented_rows(text: Seq<char>)
    requires
        forall|h: int| 0 <= h < lines(text).len() ==> !spec_is_command_section_header(#[trigger] lines(text)[h]),
    ensures
        forall|j: int| #[trigger] fallback_row_at(lines(text), j) ==> spec_extract_commands(text).contains(
            spec_parse_command_line(lines(text)[j])->0,
        ),
        forall|i: int|
            0 <= i < spec_extract_commands(text).len() ==> from_fallback_row(
                lines(text),
                #[trigger] spec_extract_commands(text)[i],
                lines(text).len() as int,
            ),
{
    let ls = lines(text);
    lemma_scan_without_header(ls, ls.len() as int);
    lemma_fallback_scan_exact(ls, ls.len() as int);
    assert(spec_extract_commands(text) == fallback_scan(ls, ls.len() as int));
}

/// A help text with a command section lists only rows that lie in a command
/// section: each command listed parses from a line after a command section
/// header with no other section header (such as `EXAMPLES`) in between.
pub proof fn lemma_commands_come_from_command_sections(text: Seq<char>)
    requires
        exists|h: int| 0 <= h < lines(text).len() && spec_is_command_section_header(#[trigger] lines(text)[h]),
    ensures
        forall|i: int|
            0 <= i < spec_extract_commands(text).len() ==> row_in_command_section(
                lines(text),
                #[trigger] spec_extract_commands(text)[i],
                lines(text).len() as int,
            ),
{
    let ls = lines(text);
    lemma_section_scan_sound(ls, ls.len() as int);
    assert(spec_extract_commands(text) == section_scan(ls, ls.len() as int).2);
}

proof fn lemma_cmds_push(cs: Seq<Command>, c: Command)
    ensures
        cmds_view(cs.push(c)) == cmds_view(cs).push(cmd_view(c)),
{
    assert(cmds_view(cs.push(c)) =~= cmds_view(cs).push(cmd_view(c)));
}

/// The commands `text` lists.
pub fn extract_commands(text: &Vec<char>) -> (r: Vec<Command>)
    ensures
        cmds_view(r@) == spec_extract_commands(text@),
        forall|i: int| 0 <= i < r@.len() ==> (#[trigger] r@[i]).ui_hint == Some(UiHint::List) && r@[i].icon is None,
{
    let ls = lines_of(text);
    let ghost lv = lines(text@);
    let mut commands: Vec<Command> = Vec::new();
    let mut in_section = false;
    let mut found = false;
    let mut i: usize = 0;
    while i < ls.len()
        invariant
            i <= ls@.len(),
            views(ls@) == lv,
            lv.len() == ls@.len(),
            section_scan(lv, i as int) == (in_section, found, cmds_view(commands@)),
            forall|j: int| 0 <= j < commands@.len() ==> (#[trigger] commands@[j]).ui_hint == Some(UiHint::List) && commands@[j].icon is None,
        decreases ls@.len() - i,
    {
        let line = &ls[i];
        assert(line@ == lv[i as int]);
        if is_command_section_header(line) {
            in_section = true;
            found = true;
        } else if in_section {
            if is_any_section_header(line) {
                in_section = false;
            } else {
                match parse_command_line(line) {
                    Some(c) => {
                        proof {
                            lemma_cmds_push(commands@, c);
                        }
                        commands.push(c);
                    },
                    None => {},
                }
            }
        }
        i = i + 1;
    }
    if !found && commands.len() == 0 {
        proof {
            assert(cmds_view(commands@) =~= Seq::<(Seq<char>, Option<Seq<char>>)>::empty());
        }
        let mut j: usize = 0;
        while j < ls.len()
            invariant
                j <= ls@.len(),
                views(ls@) == lv,
                lv.len() == ls@.len(),
                fallback_scan(lv, j as int) == cmds_view(commands@),
                forall|k: int| 0 <= k < commands@.len() ==> (#[trigger] commands@[k]).ui_hint == Some(UiHint::List) && commands@[k].icon is None,
            decreases ls@.len() - j,
        {
            let line = &ls[j];
            assert(line@ == lv[j as int]);
            let leading = leading_bytes(line);
            if leading == 3 {
                match parse_command_line(line) {
                    Some(c) => {
                        let nm = chars_of(c.name.as_str());
                        if all_ascii_lower_chars(&nm) {
                            proof {
                                lemma_cmds_push(commands@, c);
                            }
                            commands.push(c);
                        }
                    },
                    None => {},
                }
            }
            j = j + 1;
        }
    }
    commands
}


// ── description and descriptor ─────────────────────────────────────────────

/// The description scan after `k` lines: whether it has stopped, and the
/// trimmed lines taken. It stops at a section header, or at a blank line
/// after some text; blank lines before any text, and lines that begin with
/// `USAGE` or `USE:` once uppercased, are passed over.
pub open spec fn description_scan(ls: Seq<Seq<char>>, k: int) -> (bool, Seq<Seq<char>>)
    decreases k,
{
    if k <= 0 || k > ls.len() {
        (false, seq![])
    } else {
        let st = description_scan(ls, k - 1);
        let line = ls[k - 1];
        if st.0 {
            st
        } else if spec_is_any_section_header(line) {
            (true, st.1)
        } else {
            let t = trim(line);
            if t.len() == 0 {
                if st.1.len() > 0 {
                    (true, st.1)
                } else {
                    st
                }
            } else if starts_with(upper_str(t), "USAGE"@) || starts_with(upper_str(t), "USE:"@) {
                st
            } else {
                (false, st.1.push(t))
            }
        }
    }
}

/// The pieces joined with single spaces.
pub open spec fn join_spaces(parts: Seq<Seq<char>>) -> Seq<char>
    decreases parts.len(),
{
    if parts.len() == 0 {
        seq![]
    } else if parts.len() == 1 {
        parts[0]
    } else {
        join_spaces(parts.drop_last()) + seq![' '] + parts.last()
    }
}

/// The description of a help text: the text lines before the first section
/// header, up to the first blank line after them, joined with spaces.
pub open spec fn spec_extract_description(text: Seq<char>) -> Option<Seq<char>> {
    let ls = lines(text);
    let st = description_scan(ls, ls.len() as int);
    if st.1.len() == 0 {
        None
    } else {
        Some(join_spaces(st.1))
    }
}

/// The description `text` gives.
pub fn extract_description(text: &Vec<char>) -> (r: Option<String>)
    ensures
        crate::text::opt_text(r) == spec_extract_description(text@),
{
    let ls = lines_of(text);
    let ghost lv = lines(text@);
    let mut joined: Vec<char> = Vec::new();
    let mut taken: usize = 0;
    let ghost mut parts: Seq<Seq<char>> = seq![];
    let mut stopped = false;
    let mut i: usize = 0;
    while i < ls.len()
        invariant
            i <= ls@.len(),
            views(ls@) == lv,
            lv.len() == ls@.len(),
            description_scan(lv, i as int) == (stopped, parts),
            taken == parts.len(),
            taken <= i,
            joined@ == join_spaces(parts),
        decreases ls@.len() - i,
    {
        let line = &ls[i];
        assert(line@ == lv[i as int]);
        if !stopped {
            if is_any_section_header(line) {
                stopped = true;
            } else {
                let t = trim_chars(line);
                if t.len() == 0 {
                    if taken > 0 {
                        stopped = true;
                    }
                } else {
                    let up = upper_chars(&t);
                    if !starts_with_lit(&up, "USAGE") && !starts_with_lit(&up, "USE:") {
                        let ghost old_joined = joined@;
                        if taken > 0 {
                            joined.push(' ');
                        }
                        push_all(&mut joined, &t);
                        proof {
                            let np = parts.push(t@);
                            assert(np.drop_last() =~= parts);
                            if taken == 0 {
                                assert(joined@ =~= t@);
                            } else {
                                assert(joined@ =~= old_joined + seq![' '] + t@);
                            }
                            parts = np;
                        }
                        taken = taken + 1;
                    }
                }
            }
        }
        i = i + 1;
    }
    if taken == 0 {
        None
    } else {
        Some(string_of(&joined))
    }
}

/// The descriptor a help text yields for `cli_name`.
pub open spec fn descriptor_ok(d: PlexiDescriptor, cli_name: Seq<char>, text: Seq<char>, version: Option<Seq<char>>) -> bool {
    &&& d.plexi_version@ == "0.1"@
    &&& d.name@ == cli_name
    &&& d.version@ == match version {
        Some(v) => v,
        None => "unknown"@,
    }
    &&& crate::text::opt_text(d.description) == spec_extract_description(text)
    &&& d.icon is None
    &&& d.default_view == if spec_extract_commands(text).len() == 0 {
        None::<UiHint>
    } else {
        Some(UiHint::List)
    }
    &&& cmds_view(d.commands@) == spec_extract_commands(text)
    &&& forall|i: int| 0 <= i < d.commands@.len() ==> (#[trigger] d.commands@[i]).icon is None && d.commands@[i].ui_hint == Some(UiHint::List)
}

/// A descriptor synthesised from `--help` output.
pub fn parse_help(cli_name: &str, text: &str, version: Option<String>) -> (r: PlexiDescriptor)
    ensures
        descriptor_ok(r, cli_name@, text@, crate::text::opt_text(version)),
{
    let tc = chars_of(text);
    let commands = extract_commands(&tc);
    let description = extract_description(&tc);
    let version = match version {
        Some(v) => v,
        None => "unknown".to_owned(),
    };
    let default_view = if commands.len() == 0 {
        None
    } else {
        Some(UiHint::List)
    };
    PlexiDescriptor {
        plexi_version: "0.1".to_owned(),
        name: cli_name.to_owned(),
        version,
        description,
        icon: None,
        default_view,
        commands,
    }
}


// ── crawl outcome ───────────────────────────────────────────────────────────

/// A descriptor, and whether it came from the cache.
#[derive(Debug)]
pub struct CrawlResult {
    pub descriptor: PlexiDescriptor,
    pub from_cache: bool,
}

/// Why crawling a CLI's help failed.
#[derive(Debug)]
pub enum CrawlError {
    SpawnFailed { cli: String, source: std::io::Error },
    NonZeroExit { cli: String },
    ParseFailed { cli: String },
}

/// What a crawl of fresh `--help` output gives: a failed run with blank
/// output is `NonZeroExit`; output that lists no command is `ParseFailed`;
/// otherwise the synthesised descriptor.
pub fn crawl_help_outcome(cli_name: &str, success: bool, help_text: &str, version: Option<String>) -> (r: Result<PlexiDescriptor, CrawlError>)
    ensures
        match r {
            Ok(d) => {
                &&& success || trim(help_text@).len() > 0
                &&& spec_extract_commands(help_text@).len() > 0
                &&& descriptor_ok(d, cli_name@, help_text@, crate::text::opt_text(version))
            },
            Err(CrawlError::NonZeroExit { cli }) => {
                &&& !success && trim(help_text@).len() == 0
                &&& cli@ == cli_name@
            },
            Err(CrawlError::ParseFailed { cli }) => {
                &&& success || trim(help_text@).len() > 0
                &&& spec_extract_commands(help_text@).len() == 0
                &&& cli@ == cli_name@
            },
            Err(CrawlError::SpawnFailed { .. }) => false,
        },
{
    let hc = chars_of(help_text);
    let ht = trim_chars(&hc);
    if !success && ht.len() == 0 {
        return Err(CrawlError::NonZeroExit { cli: cli_name.to_owned() });
    }
    let d = parse_help(cli_name, help_text, version);
    if d.commands.len() == 0 {
        proof {
            assert(cmds_view(d.commands@).len() == 0);
        }
        return Err(CrawlError::ParseFailed { cli: cli_name.to_owned() });
    }
    Ok(d)
}

} // verus!
