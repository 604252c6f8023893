//! Watching the descriptor registry: how a CLI's installed version and its
//! `--help` commands compare with what the registry says of it.

use vstd::prelude::*;
use crate::crawl::{
    first_ws_from, lines, lines_of, rstrip_char, views, Command, PlexiDescriptor,
};
use crate::text::{
    chars_of, contains_char, ends_with, ends_with_lit, eq_chars, has_char, is_digit, is_ws,
    lemma_skip_ws_bounds, lemma_str_lt_order, skip_ws, skip_ws_from, slice_of, str_less, str_lt,
    string_of, trim_start, texts_of, opt_text,
};

verus! {

// ── sorted name sets ────────────────────────────────────────────────────────

pub open spec fn strs(v: Seq<String>) -> Seq<Seq<char>> {
    texts_of(v)
}

/// Ascending in `String` order, without repeats.
pub open spec fn strictly_sorted(s: Seq<Seq<char>>) -> bool {
    forall|i: int, j: int| 0 <= i < j < s.len() ==> str_lt(#[trigger] s[i], #[trigger] s[j])
}

/// Inserts `x` into an ascending, repeat-free list of names, keeping it so.
pub fn insert_sorted(v: &mut Vec<String>, x: String)
    requires
        strictly_sorted(strs(old(v)@)),
    ensures
        strictly_sorted(strs(final(v)@)),
        forall|y: Seq<char>|
            strs(final(v)@).contains(y) <==> (strs(old(v)@).contains(y) || y == x@),
{
    let ghost s = strs(v@);
    let xc = chars_of(x.as_str());
    let mut p: usize = 0;
    while p < v.len()
        invariant
            p <= v@.len(),
            s == strs(v@),
            s.len() == v@.len(),
            xc@ == x@,
            forall|i: int| 0 <= i < p ==> str_lt(#[trigger] s[i], x@),
        ensures
            p <= v@.len(),
            s == strs(v@),
            forall|i: int| 0 <= i < p ==> str_lt(#[trigger] s[i], x@),
            p < v@.len() ==> !str_lt(s[p as int], x@),
        decreases v@.len() - p,
    {
        let vc = chars_of(v[p].as_str());
        assert(vc@ == s[p as int]);
        if !str_less(&vc, &xc) {
            break;
        }
        p = p + 1;
    }
    if p < v.len() {
        let vc = chars_of(v[p].as_str());
        assert(vc@ == s[p as int]);
        if eq_chars(&vc, &xc) {
            assert forall|y: Seq<char>| s.contains(y) <==> (s.contains(y) || y == x@) by {
                if y == x@ {
                    assert(s[p as int] == y);
                }
            }
            return ;
        }
        assert forall|j: int| p <= j < s.len() implies str_lt(x@, #[trigger] s[j]) by {
            lemma_str_lt_order(x@, s[p as int], s[j]);
            lemma_str_lt_order(s[p as int], x@, s[j]);
        }
    }
    let ghost before = v@;
    v.insert(p, x);
    proof {
        let ns = strs(v@);
        assert(ns =~= s.insert(p as int, x@));
        assert forall|i: int, j: int| 0 <= i < j < ns.len() implies str_lt(
            #[trigger] ns[i],
            #[trigger] ns[j],
        ) by {
            if j < p {
            } else if j == p {
            } else if i < p {
                lemma_str_lt_order(ns[i], x@, ns[j]);
            } else if i == p {
            } else {
                assert(ns[i] == s[i - 1] && ns[j] == s[j - 1]);
            }
        }
        assert forall|y: Seq<char>| ns.contains(y) <==> (s.contains(y) || y == x@) by {
            if ns.contains(y) {
                let k = choose|k: int| 0 <= k < ns.len() && ns[k] == y;
                if k < p {
                    assert(s[k] == y);
                } else if k > p {
                    assert(s[k - 1] == y);
                }
            }
            if s.contains(y) {
                let k = choose|k: int| 0 <= k < s.len() && s[k] == y;
                if k < p {
                    assert(ns[k] == y);
                } else {
                    assert(ns[k + 1] == y);
                }
            }
            if y == x@ {
                assert(ns[p as int] == y);
            }
        }
    }
}

// ── the installed version ───────────────────────────────────────────────────

pub proof fn lemma_first_ws_after(s: Seq<char>, j: int)
    requires
        0 <= j < s.len(),
        !is_ws(s[j]),
    ensures
        j < first_ws_from(s, j) <= s.len(),
    decreases s.len() - j,
{
    assert(first_ws_from(s, j) == first_ws_from(s, j + 1));
    if j + 1 < s.len() && !is_ws(s[j + 1]) {
        lemma_first_ws_after(s, j + 1);
    } else if j + 1 < s.len() {
        assert(first_ws_from(s, j + 1) == j + 1);
    } else {
        assert(first_ws_from(s, j + 1) == s.len());
    }
}

/// The longest prefix of digits and dots.
pub open spec fn digits_dots(t: Seq<char>, i: int) -> int
    decreases t.len() - i,
{
    if 0 <= i < t.len() && (is_digit(t[i]) || t[i] == '.') {
        digits_dots(t, i + 1)
    } else {
        i
    }
}

/// The version in a `--version` line, scanning its whitespace-separated
/// tokens from index `i`: the first token that holds a `.` and begins with an
/// ASCII digit, cut to its leading digits and dots; empty when there is none.
pub open spec fn version_from(s: Seq<char>, i: int) -> Seq<char>
    decreases s.len() - i,
{
    if i < 0 || i > s.len() {
        seq![]
    } else {
        let j = skip_ws_from(s, i);
        if j < 0 || j >= s.len() {
            seq![]
        } else {
            let k = first_ws_from(s, j);
            let t = s.subrange(j, k);
            if has_char(t, '.') && t.len() > 0 && is_digit(t[0]) {
                t.take(digits_dots(t, 0))
            } else {
                proof {
                    lemma_skip_ws_bounds(s, i);
                    lemma_first_ws_after(s, j);
                }
                version_from(s, k)
            }
        }
    }
}

fn first_ws_at(s: &Vec<char>, j: usize) -> (r: usize)
    requires
        j <= s@.len(),
    ensures
        r == first_ws_from(s@, j as int),
        j <= r <= s@.len(),
{
    let mut k = j;
    proof {
        if j < s@.len() && !is_ws(s@[j as int]) {
            lemma_first_ws_after(s@, j as int);
        }
    }
    while k < s.len() && !crate::text::char_is_ws(s[k])
        invariant
            j <= k <= s@.len(),
            first_ws_from(s@, k as int) == first_ws_from(s@, j as int),
        decreases s@.len() - k,
    {
        k = k + 1;
    }
    k
}

/// The version `raw` (a `--version` line) names.
pub fn extract_version(raw: &str) -> (r: String)
    ensures
        r@ == version_from(raw@, 0),
{
    let s = chars_of(raw);
    let mut i: usize = 0;
    loop
        invariant
            i <= s@.len(),
            version_from(s@, i as int) == version_from(s@, 0),
            s@ == raw@,
        decreases s@.len() - i,
    {
        let j = skip_ws(&s, i);
        proof {
            lemma_skip_ws_bounds(s@, i as int);
        }
        if j >= s.len() {
            return String::new();
        }
        proof {
            lemma_first_ws_after(s@, j as int);
        }
        let k = first_ws_at(&s, j);
        let t = slice_of(&s, j, k);
        if contains_char(&t, '.') && t.len() > 0 && '0' <= t[0] && t[0] <= '9' {
            let mut n: usize = 0;
            while n < t.len() && (('0' <= t[n] && t[n] <= '9') || t[n] == '.')
                invariant
                    n <= t@.len(),
                    digits_dots(t@, n as int) == digits_dots(t@, 0),
                decreases t@.len() - n,
            {
                n = n + 1;
            }
            let v = slice_of(&t, 0, n);
            return string_of(&v);
        }
        i = k;
    }
}


// ── commands listed by `--help` ─────────────────────────────────────────────

/// `char::to_ascii_lowercase`.
pub open spec fn ascii_lower(c: char) -> char {
    if 'A' <= c <= 'Z' {
        ((c as u32) + 32) as char
    } else {
        c
    }
}

/// `str::to_ascii_lowercase`.
pub open spec fn ascii_lower_str(s: Seq<char>) -> Seq<char> {
    s.map_values(|c: char| ascii_lower(c))
}

fn ascii_lower_char(c: char) -> (r: char)
    ensures
        r == ascii_lower(c),
{
    match c {
        'A' => 'a',
        'B' => 'b',
        'C' => 'c',
        'D' => 'd',
        'E' => 'e',
        'F' => 'f',
        'G' => 'g',
        'H' => 'h',
        'I' => 'i',
        'J' => 'j',
        'K' => 'k',
        'L' => 'l',
        'M' => 'm',
        'N' => 'n',
        'O' => 'o',
        'P' => 'p',
        'Q' => 'q',
        'R' => 'r',
        'S' => 's',
        'T' => 't',
        'U' => 'u',
        'V' => 'v',
        'W' => 'w',
        'X' => 'x',
        'Y' => 'y',
        'Z' => 'z',
        _ => c,
    }
}

pub(crate) fn ascii_lower_chars(s: &Vec<char>) -> (r: Vec<char>)
    ensures
        r@ == ascii_lower_str(s@),
{
    let mut out: Vec<char> = Vec::new();
    let mut i: usize = 0;
    while i < s.len()
        invariant
            i <= s@.len(),
            out@ == ascii_lower_str(s@.take(i as int)),
        decreases s@.len() - i,
    {
        out.push(ascii_lower_char(s[i]));
        proof {
            assert(ascii_lower_str(s@.take(i + 1)) =~= ascii_lower_str(s@.take(i as int)).push(
                ascii_lower(s@[i as int]),
            ));
        }
        i = i + 1;
    }
    proof {
        assert(s@.take(s@.len() as int) =~= s@);
    }
    out
}

/// Characters a command name may hold: ASCII letters, digits, `-` and `_`.
pub open spec fn is_name_char(c: char) -> bool {
    ||| 'a' <= c <= 'z'
    ||| 'A' <= c <= 'Z'
    ||| '0' <= c <= '9'
    ||| c == '-'
    ||| c == '_'
}

/// Whether a line starts in column 0 (not with a space or a tab).
pub open spec fn at_column_zero(line: Seq<char>) -> bool {
    !(line.len() > 0 && (line[0] == ' ' || line[0] == '\t'))
}

/// A header of a command listing: in column 0, and, without trailing colons
/// and lowercased, ending in `command(s)` or `subcommand(s)`.
pub open spec fn is_listing_header(line: Seq<char>) -> bool {
    let lower = ascii_lower_str(rstrip_char(trim_start(line), ':'));
    &&& at_column_zero(line)
    &&& (ends_with(lower, "command"@) || ends_with(lower, "commands"@) || ends_with(
        lower,
        "subcommand"@,
    ) || ends_with(lower, "subcommands"@))
}

/// The scan of the first `k` lines of a help text: whether it is inside a
/// command listing, and the names found so far. A listing header enters a
/// listing; any other non-blank column-0 line leaves it; inside, each row's
/// first token, without trailing colons, is a name unless empty, a flag, or
/// holding other characters than ASCII letters, digits, `-` and `_`.
pub open spec fn listing_scan(ls: Seq<Seq<char>>, k: int) -> (bool, Set<Seq<char>>)
    decreases k,
{
    if k <= 0 || k > ls.len() {
        (false, Set::empty())
    } else {
        let st = listing_scan(ls, k - 1);
        let line = ls[k - 1];
        let t = trim_start(line);
        if is_listing_header(line) {
            (true, st.1)
        } else if st.0 && at_column_zero(line) && t.len() > 0 {
            (false, st.1)
        } else if st.0 && t.len() > 0 {
            let name = rstrip_char(t.take(first_ws_from(t, 0)), ':');
            if name.len() == 0 || name[0] == '-' {
                st
            } else if forall|i: int| 0 <= i < name.len() ==> is_name_char(#[trigger] name[i]) {
                (true, st.1.insert(name))
            } else {
                st
            }
        } else {
            st
        }
    }
}

/// The command names a help text lists.
pub open spec fn listed_names(help: Seq<char>) -> Set<Seq<char>> {
    let ls = lines(help);
    listing_scan(ls, ls.len() as int).1
}

fn all_name_chars(s: &Vec<char>) -> (r: bool)
    ensures
        r == forall|i: int| 0 <= i < s@.len() ==> is_name_char(#[trigger] s@[i]),
{
    let mut i: usize = 0;
    while i < s.len()
        invariant
            i <= s@.len(),
            forall|j: int| 0 <= j < i ==> is_name_char(#[trigger] s@[j]),
        decreases s@.len() - i,
    {
        let c = s[i];
        if !(('a' <= c && c <= 'z') || ('A' <= c && c <= 'Z') || ('0' <= c && c <= '9') || c
            == '-' || c == '_') {
            return false;
        }
        i = i + 1;
    }
    true
}

fn column_zero(line: &Vec<char>) -> (r: bool)
    ensures
        r == at_column_zero(line@),
{
    !(line.len() > 0 && (line[0] == ' ' || line[0] == '\t'))
}

fn rstrip_colons(s: &Vec<char>) -> (r: Vec<char>)
    ensures
        r@ == rstrip_char(s@, ':'),
{
    let mut k = s.len();
    proof {
        assert(s@.take(s@.len() as int) =~= s@);
    }
    while k > 0 && s[k - 1] == ':'
        invariant
            k <= s@.len(),
            rstrip_char(s@.take(k as int), ':') == rstrip_char(s@, ':'),
        decreases k,
    {
        proof {
            assert(s@.take(k as int).drop_last() =~= s@.take(k - 1));
        }
        k = k - 1;
    }
    slice_of(s, 0, k)
}

/// The command names `help` lists, ascending, without repeats.
pub fn parse_top_level_commands(help: &str) -> (r: Vec<String>)
    ensures
        strictly_sorted(strs(r@)),
        forall|y: Seq<char>| strs(r@).contains(y) <==> listed_names(help@).contains(y),
{
    let hc = chars_of(help);
    let ls = lines_of(&hc);
    let ghost lv = lines(help@);
    let mut out: Vec<String> = Vec::new();
    let mut in_commands = false;
    let mut i: usize = 0;
    while i < ls.len()
        invariant
            i <= ls@.len(),
            views(ls@) == lv,
            lv.len() == ls@.len(),
            strictly_sorted(strs(out@)),
            listing_scan(lv, i as int).0 == in_commands,
            forall|y: Seq<char>|
                strs(out@).contains(y) <==> listing_scan(lv, i as int).1.contains(y),
        decreases ls@.len() - i,
    {
        let line = &ls[i];
        assert(line@ == lv[i as int]);
        let ts = skip_ws(line, 0);
        let t = slice_of(line, ts, line.len());
        assert(t@ == trim_start(line@));
        let stripped = rstrip_colons(&t);
        let lower = ascii_lower_chars(&stripped);
        let col0 = column_zero(line);
        let header = col0 && (ends_with_lit(&lower, "command") || ends_with_lit(&lower, "commands")
            || ends_with_lit(&lower, "subcommand") || ends_with_lit(&lower, "subcommands"));
        if header {
            in_commands = true;
        } else if in_commands && col0 && t.len() > 0 {
            in_commands = false;
        } else if in_commands && t.len() > 0 {
            let k = first_ws_at(&t, 0);
            let first = slice_of(&t, 0, k);
            let name = rstrip_colons(&first);
            proof {
                assert(first@ =~= t@.take(k as int));
            }
            if name.len() > 0 && name[0] != '-' && all_name_chars(&name) {
                insert_sorted(&mut out, string_of(&name));
            }
        }
        i = i + 1;
    }
    out
}


// ── registry errors ─────────────────────────────────────────────────────────

/// Why a registry lookup failed: no descriptor (the caller falls back to
/// crawling `--help`), or one that exists but is broken.
#[derive(Debug)]
#[allow(inconsistent_fields)]
pub enum RegistryError {
    NotFound { cli: String, version: String },
    Malformed { cli: String, path: String, source: String },
    Io { cli: String, path: String, source: std::io::Error },
}

/// `Display` of an I/O error; its text comes from the operating system.
#[verifier::external_body]
fn io_error_text(e: &std::io::Error) -> (r: String) {
    format!("{e}")
}

/// The message of a registry error; that of an I/O error ends with the
/// operating system's text, which is not stated here.
pub open spec fn registry_message(e: RegistryError) -> Option<Seq<char>> {
    match e {
        RegistryError::NotFound { cli, version } => Some(
            "registry has no descriptor for `"@ + cli@ + "` version `"@ + version@ + "`"@,
        ),
        RegistryError::Malformed { cli, path, source } => Some(
            "registry descriptor for `"@ + cli@ + "` at `"@ + path@ + "` is malformed: "@
                + source@,
        ),
        RegistryError::Io { .. } => None,
    }
}

impl RegistryError {
    /// The error's message.
    pub fn message(&self) -> (r: String)
        ensures
            registry_message(*self) matches Some(m) ==> r@ == m,
    {
        let mut out: Vec<char> = Vec::new();
        match self {
            RegistryError::NotFound { cli, version } => {
                crate::text::push_lit(&mut out, "registry has no descriptor for `");
                crate::text::push_lit(&mut out, cli.as_str());
                crate::text::push_lit(&mut out, "` version `");
                crate::text::push_lit(&mut out, version.as_str());
                crate::text::push_lit(&mut out, "`");
            },
            RegistryError::Malformed { cli, path, source } => {
                crate::text::push_lit(&mut out, "registry descriptor for `");
                crate::text::push_lit(&mut out, cli.as_str());
                crate::text::push_lit(&mut out, "` at `");
                crate::text::push_lit(&mut out, path.as_str());
                crate::text::push_lit(&mut out, "` is malformed: ");
                crate::text::push_lit(&mut out, source.as_str());
            },
            RegistryError::Io { cli, path, source } => {
                crate::text::push_lit(&mut out, "registry descriptor for `");
                crate::text::push_lit(&mut out, cli.as_str());
                crate::text::push_lit(&mut out, "` at `");
                crate::text::push_lit(&mut out, path.as_str());
                crate::text::push_lit(&mut out, "` could not be read: ");
                let t = io_error_text(source);
                crate::text::push_lit(&mut out, t.as_str());
            },
        }
        string_of(&out)
    }
}

// ── watch reports ───────────────────────────────────────────────────────────

/// How an installed CLI compares with its registry descriptor.
#[derive(Debug, PartialEq, Eq)]
pub enum WatchStatus {
    NotInstalled,
    UpToDate { version: String },
    Stale { installed: String, registered: String },
    DescriptorDrift { added: Vec<String>, removed: Vec<String> },
    RegistryError(String),
}

/// A CLI and its status.
#[derive(Debug)]
pub struct WatchReport {
    pub cli: String,
    pub status: WatchStatus,
}

/// How the watcher looks at installed CLIs.  Its answers come from the
/// machine (the `PATH`, the programs installed), so each method's answer is
/// named by a relation of the implementation (by default any answer);
/// `watch_status` states the report in terms of the answers.
pub trait CliInspector {
    /// Whether `r` is an answer `which` may give for `name`.
    open spec fn which_answer(&self, name: Seq<char>, r: Option<Seq<char>>) -> bool {
        true
    }

    /// Whether `r` is an answer `version` may give for `name`.
    open spec fn version_answer(&self, name: Seq<char>, r: Option<Seq<char>>) -> bool {
        true
    }

    /// Whether `r` is an answer `help` may give for `name`.
    open spec fn help_answer(&self, name: Seq<char>, r: Seq<char>) -> bool {
        true
    }

    /// Where `name` is installed, when it is.
    fn which(&self, name: &str) -> (r: Option<String>)
        ensures
            self.which_answer(name@, opt_text(r)),
    ;

    /// The output of `<name> --version`; `None` when it cannot be run.
    fn version(&self, name: &str) -> (r: Option<String>)
        ensures
            self.version_answer(name@, opt_text(r)),
    ;

    /// The output of `<name> --help`; empty when it cannot be read.
    fn help(&self, name: &str) -> (r: String)
        ensures
            self.help_answer(name@, r@),
    ;
}

/// An inspector with fixed answers.
pub struct MockInspector {
    pub installed: bool,
    pub version_str: String,
    pub help_str: String,
}

impl CliInspector for MockInspector {
    /// Installed at `/usr/bin/mock` when `installed`.
    open spec fn which_answer(&self, name: Seq<char>, r: Option<Seq<char>>) -> bool {
        match r {
            Some(p) => self.installed && p == "/usr/bin/mock"@,
            None => !self.installed,
        }
    }

    /// `version_str` when installed.
    open spec fn version_answer(&self, name: Seq<char>, r: Option<Seq<char>>) -> bool {
        match r {
            Some(v) => self.installed && v == self.version_str@,
            None => !self.installed,
        }
    }

    /// Always `help_str`.
    open spec fn help_answer(&self, name: Seq<char>, r: Seq<char>) -> bool {
        r == self.help_str@
    }

    fn which(&self, name: &str) -> (r: Option<String>) {
        if self.installed {
            Some("/usr/bin/mock".to_owned())
        } else {
            None
        }
    }

    fn version(&self, name: &str) -> (r: Option<String>) {
        if self.installed {
            Some(self.version_str.clone())
        } else {
            None
        }
    }

    fn help(&self, name: &str) -> (r: String) {
        self.help_str.clone()
    }
}

/// The command names a descriptor lists.
pub open spec fn descriptor_names(d: PlexiDescriptor) -> Set<Seq<char>> {
    Set::new(|n: Seq<char>| exists|i: int| 0 <= i < d.commands@.len() && #[trigger] d.commands@[i].name@ == n)
}

/// The status a version line gives against a descriptor: `Stale` when it
/// names a version other than the registered one.
pub open spec fn stale_check(d: PlexiDescriptor, raw: Seq<char>) -> bool {
    let v = version_from(raw, 0);
    v.len() > 0 && v != d.version@
}

/// The status for an inspector's answers: `NotInstalled` when the CLI is
/// not found; else the registry's error; else `Stale` when the version
/// output (empty when there is none) names another version than the
/// registered one; else the drift of the help output against the descriptor.
pub open spec fn watch_ok(
    st: WatchStatus,
    which: Option<Seq<char>>,
    registry: Result<PlexiDescriptor, RegistryError>,
    version: Option<Seq<char>>,
    help: Seq<char>,
) -> bool {
    match which {
        None => st is NotInstalled,
        Some(_) => match registry {
            Err(e) => st matches WatchStatus::RegistryError(m) && (registry_message(e) matches Some(t) ==> m@ == t),
            Ok(d) => {
                let raw = match version {
                    Some(v) => v,
                    None => Seq::<char>::empty(),
                };
                if stale_check(d, raw) {
                    st matches WatchStatus::Stale { installed, registered } && installed@ == version_from(raw, 0)
                        && registered@ == d.version@
                } else {
                    drift_ok(st, d, help)
                }
            },
        },
    }
}

/// Whether a list of names is the set `s`, ascending.
pub open spec fn lists(v: Vec<String>, s: Set<Seq<char>>) -> bool {
    &&& strictly_sorted(strs(v@))
    &&& forall|y: Seq<char>| strs(v@).contains(y) <==> s.contains(y)
}

/// The status for a help text against a descriptor: the names the help lists
/// and the descriptor does not (`added`), and the reverse (`removed`), or
/// `UpToDate` when both are empty.
pub open spec fn drift_ok(st: WatchStatus, d: PlexiDescriptor, help: Seq<char>) -> bool {
    let added = listed_names(help).difference(descriptor_names(d));
    let removed = descriptor_names(d).difference(listed_names(help));
    if added.is_empty() && removed.is_empty() {
        st matches WatchStatus::UpToDate { version } && version@ == d.version@
    } else {
        st matches WatchStatus::DescriptorDrift { added: a, removed: r } && lists(a, added) && lists(
            r,
            removed,
        )
    }
}

fn list_has(b: &Vec<String>, y: &Vec<char>) -> (r: bool)
    ensures
        r == strs(b@).contains(y@),
{
    let mut i: usize = 0;
    while i < b.len()
        invariant
            i <= b@.len(),
            forall|j: int| 0 <= j < i ==> strs(b@)[j] != y@,
        decreases b@.len() - i,
    {
        let bc = chars_of(b[i].as_str());
        if eq_chars(&bc, y) {
            assert(strs(b@)[i as int] == y@);
            return true;
        }
        i = i + 1;
    }
    false
}

proof fn lemma_push_contains(s: Seq<Seq<char>>, x: Seq<char>, y: Seq<char>)
    ensures
        s.push(x).contains(y) <==> (s.contains(y) || y == x),
{
    {
        if s.push(x).contains(y) {
            let k = choose|k: int| 0 <= k < s.push(x).len() && s.push(x)[k] == y;
            if k < s.len() {
                assert(s[k] == y);
            }
        }
        if s.contains(y) {
            let k = choose|k: int| 0 <= k < s.len() && s[k] == y;
            assert(s.push(x)[k] == y);
        }
        if y == x {
            assert(s.push(x)[s.len() as int] == y);
        }
    }
}

/// The names of `a` that `b` lacks, in the order of `a`.
fn sorted_difference(a: &Vec<String>, b: &Vec<String>) -> (r: Vec<String>)
    requires
        strictly_sorted(strs(a@)),
    ensures
        strictly_sorted(strs(r@)),
        forall|y: Seq<char>| strs(r@).contains(y) <==> (strs(a@).contains(y) && !strs(b@).contains(y)),
{
    let ghost sa = strs(a@);
    let mut out: Vec<String> = Vec::new();
    let mut i: usize = 0;
    while i < a.len()
        invariant
            i <= a@.len(),
            sa == strs(a@),
            sa.len() == a@.len(),
            strictly_sorted(sa),
            strictly_sorted(strs(out@)),
            forall|k: int, j: int| 0 <= k < out@.len() && i <= j < sa.len() ==> str_lt(#[trigger] strs(out@)[k], #[trigger] sa[j]),
            forall|y: Seq<char>| strs(out@).contains(y) <==> (sa.take(i as int).contains(y) && !strs(b@).contains(y)),
        decreases a@.len() - i,
    {
        let ac = chars_of(a[i].as_str());
        assert(ac@ == sa[i as int]);
        let ghost before = strs(out@);
        assert(forall|y: Seq<char>| before.contains(y) <==> (sa.take(i as int).contains(y) && !strs(b@).contains(y)));
        let present = list_has(b, &ac);
        if !present {
            out.push(a[i].clone());
            proof {
                assert(strs(out@) =~= before.push(sa[i as int]));
            }
        }
        proof {
            let t = sa.take(i as int);
            let t1 = sa.take(i + 1);
            let x = sa[i as int];
            assert(t1 =~= t.push(x));
            let now = strs(out@);
            assert forall|y: Seq<char>| now.contains(y) <==> (t1.contains(y) && !strs(b@).contains(y)) by {
                lemma_push_contains(t, x, y);
                lemma_push_contains(before, x, y);
                assert(t1.contains(y) == t.push(x).contains(y));
                assert(before.contains(y) <==> (t.contains(y) && !strs(b@).contains(y)));
                if present {
                    assert(now == before);
                } else {
                    assert(now == before.push(x));
                }
            }
        }
        i = i + 1;
    }
    proof {
        assert(sa.take(a@.len() as int) =~= sa);
    }
    out
}

/// The status of a version line: `Stale` when it names a version other than
/// the registered one, else none.
pub fn stale_status(descriptor: &PlexiDescriptor, version_raw: &str) -> (r: Option<WatchStatus>)
    ensures
        match r {
            Some(st) => {
                &&& stale_check(*descriptor, version_raw@)
                &&& st matches WatchStatus::Stale { installed, registered } && installed@
                    == version_from(version_raw@, 0) && registered@ == descriptor.version@
            },
            None => !stale_check(*descriptor, version_raw@),
        },
{
    let installed = extract_version(version_raw);
    let ic = chars_of(installed.as_str());
    let dc = chars_of(descriptor.version.as_str());
    if ic.len() > 0 && !eq_chars(&ic, &dc) {
        Some(WatchStatus::Stale { installed, registered: descriptor.version.clone() })
    } else {
        None
    }
}

/// The status of a help text against a descriptor.
pub fn drift_status(descriptor: &PlexiDescriptor, help: &str) -> (r: WatchStatus)
    ensures
        drift_ok(r, *descriptor, help@),
{
    let help_names = parse_top_level_commands(help);
    let mut desc_names: Vec<String> = Vec::new();
    let mut i: usize = 0;
    while i < descriptor.commands.len()
        invariant
            i <= descriptor.commands@.len(),
            strictly_sorted(strs(desc_names@)),
            forall|y: Seq<char>| strs(desc_names@).contains(y) <==> exists|k: int| 0 <= k < i && #[trigger] descriptor.commands@[k].name@ == y,
        decreases descriptor.commands@.len() - i,
    {
        insert_sorted(&mut desc_names, descriptor.commands[i].name.clone());
        proof {
            assert forall|y: Seq<char>| strs(desc_names@).contains(y) <==> exists|k: int| 0 <= k < i + 1 && #[trigger] descriptor.commands@[k].name@ == y by {
                if y == descriptor.commands@[i as int].name@ {
                    assert(exists|k: int| 0 <= k < i + 1 && #[trigger] descriptor.commands@[k].name@ == y);
                }
            }
        }
        i = i + 1;
    }
    let added = sorted_difference(&help_names, &desc_names);
    let removed = sorted_difference(&desc_names, &help_names);
    let ghost dn = descriptor_names(*descriptor);
    let ghost hn = listed_names(help@);
    proof {
        assert forall|y: Seq<char>| strs(desc_names@).contains(y) <==> dn.contains(y) by {}
        assert forall|y: Seq<char>| strs(added@).contains(y) <==> hn.difference(dn).contains(y) by {}
        assert forall|y: Seq<char>| strs(removed@).contains(y) <==> dn.difference(hn).contains(y) by {}
    }
    if added.len() > 0 || removed.len() > 0 {
        proof {
            if added.len() > 0 {
                assert(strs(added@).contains(strs(added@)[0]));
                assert(hn.difference(dn).contains(strs(added@)[0]));
            } else {
                assert(strs(removed@).contains(strs(removed@)[0]));
                assert(dn.difference(hn).contains(strs(removed@)[0]));
            }
        }
        WatchStatus::DescriptorDrift { added, removed }
    } else {
        proof {
            assert forall|y: Seq<char>| !hn.difference(dn).contains(y) by {
                if hn.difference(dn).contains(y) {
                    assert(strs(added@).contains(y));
                }
            }
            assert forall|y: Seq<char>| !dn.difference(hn).contains(y) by {
                if dn.difference(hn).contains(y) {
                    assert(strs(removed@).contains(y));
                }
            }
            assert(hn.difference(dn) =~= Set::empty());
            assert(dn.difference(hn) =~= Set::empty());
        }
        WatchStatus::UpToDate { version: descriptor.version.clone() }
    }
}

/// The status for an inspector's answers, given as values: where the CLI
/// is installed (`None` when it is not), the registry's descriptor or
/// error, the version output and the help output.  An answer the status
/// does not depend on (say, the help of a stale CLI) may be anything.
pub fn watch_status(
    which: Option<&str>,
    registry: &Result<PlexiDescriptor, RegistryError>,
    version: Option<&str>,
    help: &str,
) -> (r: WatchStatus)
    ensures
        watch_ok(
            r,
            match which {
                Some(w) => Some(w@),
                None => None,
            },
            *registry,
            match version {
                Some(v) => Some(v@),
                None => None,
            },
            help@,
        ),
{
    if which.is_none() {
        return WatchStatus::NotInstalled;
    }
    let descriptor = match registry {
        Ok(d) => d,
        Err(e) => {
            return WatchStatus::RegistryError(e.message());
        },
    };
    let raw = match version {
        Some(v) => v,
        None => "",
    };
    proof {
        reveal_strlit("");
    }
    match stale_status(descriptor, raw) {
        Some(st) => st,
        None => drift_status(descriptor, help),
    }
}

/// Answers the inspector gave for `cli`, as far as the status depends on
/// them: where it is installed; its version, when it is installed and the
/// registry knows it; its help, when the version is not stale too.
pub open spec fn watch_answers<I: CliInspector>(
    inspector: I,
    cli: Seq<char>,
    registry: Result<PlexiDescriptor, RegistryError>,
    which: Option<Seq<char>>,
    version: Option<Seq<char>>,
    help: Seq<char>,
) -> bool {
    &&& inspector.which_answer(cli, which)
    &&& which is Some && registry is Ok ==> inspector.version_answer(cli, version)
    &&& match (which, registry) {
        (Some(_), Ok(d)) => !stale_check(
            d,
            match version {
                Some(v) => v,
                None => Seq::<char>::empty(),
            },
        ) ==> inspector.help_answer(cli, help),
        _ => true,
    }
}

/// Watches one CLI: asks the inspector where it is installed, then (when it
/// is, and the registry knows it) for its version, then (unless that is
/// stale) for its help, and reports `watch_status` of those answers.
pub fn watch_one<I: CliInspector>(inspector: &I, cli: &str, registry: &Result<PlexiDescriptor, RegistryError>) -> (r: WatchReport)
    ensures
        r.cli@ == cli@,
        exists|which: Option<Seq<char>>, version: Option<Seq<char>>, help: Seq<char>|
            watch_answers(*inspector, cli@, *registry, which, version, help) && watch_ok(
                r.status,
                which,
                *registry,
                version,
                help,
            ),
{
    let which = inspector.which(cli);
    let w = match &which {
        Some(p) => Some(p.as_str()),
        None => None,
    };
    if w.is_none() || registry.is_err() {
        let st = watch_status(w, registry, None, "");
        return WatchReport { cli: cli.to_owned(), status: st };
    }
    let version = inspector.version(cli);
    let v = match &version {
        Some(x) => Some(x.as_str()),
        None => None,
    };
    let raw = match v {
        Some(x) => x,
        None => "",
    };
    let descriptor = match registry {
        Ok(d) => d,
        Err(_) => {
            let st = watch_status(w, registry, v, "");
            return WatchReport { cli: cli.to_owned(), status: st };
        },
    };
    proof {
        reveal_strlit("");
    }
    if stale_status(descriptor, raw).is_some() {
        let st = watch_status(w, registry, v, "");
        return WatchReport { cli: cli.to_owned(), status: st };
    }
    let help = inspector.help(cli);
    let st = watch_status(w, registry, v, help.as_str());
    WatchReport { cli: cli.to_owned(), status: st }
}

} // verus!
