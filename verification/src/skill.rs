//! Checking a CLI skill document against the CLI it documents: every
//! subcommand path and every `--flag` named in the document's fenced code
//! blocks must exist on the command tree.  Reference blocks (bare fences)
//! list the surface line by line; `bash`/`sh` blocks hold example
//! invocations.

use vstd::prelude::*;
use crate::crawl::{first_ws_from, lemma_first_ws, lines, lines_of, rstrip_char, views};
use crate::text::{
    char_is_ws, chars_of, eq_chars, eq_lit, is_ws, join_strs, join_with, push_all, push_lit, skip_ws,
    skip_ws_from, lemma_skip_ws_bounds, slice_of, starts_with, strip_prefix, strip_prefix_lit, string_of,
    texts_contain, texts_of, trim, trim_chars, trim_start, trim_start_chars,
};

verus! {

// ── words ───────────────────────────────────────────────────────────────────

/// The whitespace-separated words of `s` from index `i` on
/// (`str::split_whitespace`).
pub open spec fn words_from(s: Seq<char>, i: int) -> Seq<Seq<char>>
    decreases s.len() - i,
{
    let j = skip_ws_from(s, i);
    if j < i || j >= s.len() {
        seq![]
    } else {
        let k = first_ws_from(s, j);
        if k <= j || k > s.len() {
            seq![]
        } else {
            seq![s.subrange(j, k)] + words_from(s, k)
        }
    }
}

pub open spec fn words(s: Seq<char>) -> Seq<Seq<char>> {
    words_from(s, 0)
}

fn first_ws_at(s: &Vec<char>, i: usize) -> (r: usize)
    requires
        i <= s@.len(),
    ensures
        r as int == first_ws_from(s@, i as int),
        i <= r <= s@.len(),
{
    proof {
        lemma_first_ws(s@, i as int);
    }
    let mut k = i;
    while k < s.len() && !char_is_ws(s[k])
        invariant
            i <= k <= s@.len(),
            first_ws_from(s@, k as int) == first_ws_from(s@, i as int),
        decreases s@.len() - k,
    {
        k = k + 1;
    }
    k
}

/// `str::split_whitespace`.
pub fn split_words(s: &Vec<char>) -> (r: Vec<Vec<char>>)
    ensures
        views(r@) == words(s@),
{
    let mut out: Vec<Vec<char>> = Vec::new();
    let mut i: usize = 0;
    while i < s.len()
        invariant
            i <= s@.len(),
            views(out@) + words_from(s@, i as int) == words(s@),
        decreases s@.len() - i,
    {
        let j = skip_ws(s, i);
        proof {
            lemma_skip_ws_bounds(s@, i as int);
        }
        if j >= s.len() {
            assert(words_from(s@, i as int) == Seq::<Seq<char>>::empty());
            assert(views(out@) + words_from(s@, s@.len() as int) =~= words(s@)) by {
                assert(words_from(s@, s@.len() as int) == Seq::<Seq<char>>::empty());
            }
            i = s.len();
        } else {
            let k = first_ws_at(s, j);
            proof {
                assert(!is_ws(s@[j as int]));
                assert(first_ws_from(s@, j as int) == first_ws_from(s@, j + 1));
                lemma_first_ws(s@, j + 1);
            }
            let w = slice_of(s, j, k);
            let ghost before = views(out@);
            out.push(w);
            assert(views(out@) =~= before.push(s@.subrange(j as int, k as int)));
            assert(words_from(s@, i as int) == seq![s@.subrange(j as int, k as int)] + words_from(s@, k as int));
            assert(views(out@) + words_from(s@, k as int) =~= before + words_from(s@, i as int));
            i = k;
        }
    }
    proof {
        assert(words_from(s@, i as int) == Seq::<Seq<char>>::empty());
        assert(views(out@) =~= views(out@) + words_from(s@, i as int));
    }
    out
}

// ── command words and flags ─────────────────────────────────────────────────

pub open spec fn is_lower(c: char) -> bool {
    'a' <= c && c <= 'z'
}

pub open spec fn is_dig(c: char) -> bool {
    '0' <= c && c <= '9'
}

pub open spec fn is_flag_char(c: char) -> bool {
    is_lower(c) || is_dig(c) || c == '-'
}

/// A token that can only be a subcommand name: a lowercase kebab word.
pub open spec fn spec_is_command_word(t: Seq<char>) -> bool {
    t.len() > 0 && is_lower(t[0]) && forall|i: int| 0 <= i < t.len() ==> is_flag_char(#[trigger] t[i])
}

pub fn is_command_word(t: &Vec<char>) -> (r: bool)
    ensures
        r == spec_is_command_word(t@),
{
    if t.len() == 0 || !('a' <= t[0] && t[0] <= 'z') {
        return false;
    }
    let mut i: usize = 0;
    while i < t.len()
        invariant
            i <= t@.len(),
            forall|k: int| 0 <= k < i ==> is_flag_char(#[trigger] t@[k]),
        decreases t@.len() - i,
    {
        let c = t[i];
        if !(('a' <= c && c <= 'z') || ('0' <= c && c <= '9') || c == '-') {
            return false;
        }
        i = i + 1;
    }
    true
}

/// The length of the longest prefix of flag characters.
pub open spec fn flag_run(s: Seq<char>) -> int
    decreases s.len(),
{
    if s.len() > 0 && is_flag_char(s[0]) {
        1 + flag_run(s.drop_first())
    } else {
        0
    }
}

proof fn lemma_flag_run(s: Seq<char>)
    ensures
        0 <= flag_run(s) <= s.len(),
        forall|k: int| 0 <= k < flag_run(s) ==> is_flag_char(#[trigger] s[k]),
        flag_run(s) < s.len() ==> !is_flag_char(s[flag_run(s)]),
    decreases s.len(),
{
    if s.len() > 0 && is_flag_char(s[0]) {
        lemma_flag_run(s.drop_first());
        assert forall|k: int| 0 <= k < flag_run(s) implies is_flag_char(#[trigger] s[k]) by {
            if k > 0 {
                assert(s[k] == s.drop_first()[k - 1]);
            }
        }
    }
}

/// The first position of `--`.
pub open spec fn first_dashes(s: Seq<char>) -> Option<int>
    decreases s.len(),
{
    if s.len() < 2 {
        None
    } else if s[0] == '-' && s[1] == '-' {
        Some(0)
    } else {
        match first_dashes(s.drop_first()) {
            Some(i) => Some(i + 1),
            None => None,
        }
    }
}

proof fn lemma_first_dashes(s: Seq<char>)
    ensures
        first_dashes(s) matches Some(p) ==> 0 <= p && p + 2 <= s.len() && s[p] == '-' && s[p + 1] == '-',
        first_dashes(s) matches Some(p) ==> forall|k: int| 0 <= k < p ==> !(s[k] == '-' && #[trigger] s[k + 1] == '-'),
        first_dashes(s) is None ==> forall|k: int| 0 <= k && k + 1 < s.len() ==> !(s[k] == '-' && #[trigger] s[k + 1] == '-'),
    decreases s.len(),
{
    if s.len() >= 2 && !(s[0] == '-' && s[1] == '-') {
        lemma_first_dashes(s.drop_first());
        let t = s.drop_first();
        assert forall|k: int| 0 <= k && k + 1 < s.len() && first_dashes(s) is None implies !(s[k] == '-' && #[trigger] s[k + 1] == '-') by {
            if k > 0 {
                assert(s[k] == t[k - 1] && s[k + 1] == t[k]);
            }
        }
        if first_dashes(s) is Some {
            let p = first_dashes(s)->0;
            assert forall|k: int| 0 <= k < p implies !(s[k] == '-' && #[trigger] s[k + 1] == '-') by {
                if k > 0 {
                    assert(s[k] == t[k - 1] && s[k + 1] == t[k]);
                }
            }
            assert(s[p] == t[p - 1] && s[p + 1] == t[p]);
        }
    }
}

/// Every `--long-flag` named in a token: after each `--`, the run of
/// lowercase letters, digits and dashes without trailing dashes; the scan
/// goes on right after that name.
pub open spec fn flags_in(s: Seq<char>) -> Seq<Seq<char>>
    decreases s.len(),
{
    match first_dashes(s) {
        None => seq![],
        Some(p) => if 0 <= p && p + 2 <= s.len() {
            let after = s.skip(p + 2);
            let name = rstrip_char(after.take(flag_run(after)), '-');
            if name.len() <= after.len() {
                (if name.len() > 0 {
                    seq![name]
                } else {
                    seq![]
                }) + flags_in(after.skip(name.len() as int))
            } else {
                seq![]
            }
        } else {
            seq![]
        },
    }
}

proof fn lemma_rstrip_len(s: Seq<char>, c: char)
    ensures
        rstrip_char(s, c).len() <= s.len(),
        rstrip_char(s, c) == s.take(rstrip_char(s, c).len() as int),
    decreases s.len(),
{
    if s.len() > 0 && s.last() == c {
        lemma_rstrip_len(s.drop_last(), c);
        assert(s.drop_last().take(rstrip_char(s, c).len() as int) =~= s.take(rstrip_char(s, c).len() as int));
    } else {
        assert(s.take(s.len() as int) =~= s);
    }
}

proof fn lemma_first_dashes_at(s: Seq<char>, i: int)
    requires
        0 <= i,
        i + 1 < s.len(),
        s[i] == '-' && s[i + 1] == '-',
        forall|k: int| 0 <= k < i ==> !(s[k] == '-' && #[trigger] s[k + 1] == '-'),
    ensures
        first_dashes(s) == Some(i),
    decreases i,
{
    if i > 0 {
        let t = s.drop_first();
        assert forall|k: int| 0 <= k < i - 1 implies !(t[k] == '-' && #[trigger] t[k + 1] == '-') by {
            assert(t[k] == s[k + 1] && t[k + 1] == s[k + 2]);
        }
        let k0: int = 0;
        assert(!(s[k0] == '-' && s[k0 + 1] == '-'));
        lemma_first_dashes_at(t, i - 1);
    }
}

proof fn lemma_first_dashes_none(s: Seq<char>)
    requires
        forall|k: int| 0 <= k && k + 1 < s.len() ==> !(s[k] == '-' && #[trigger] s[k + 1] == '-'),
    ensures
        first_dashes(s) is None,
    decreases s.len(),
{
    if s.len() >= 2 {
        let t = s.drop_first();
        assert forall|k: int| 0 <= k && k + 1 < t.len() implies !(t[k] == '-' && #[trigger] t[k + 1] == '-') by {
            assert(t[k] == s[k + 1] && t[k + 1] == s[k + 2]);
        }
        let k0: int = 0;
        assert(!(s[k0] == '-' && s[k0 + 1] == '-'));
        lemma_first_dashes_none(t);
    }
}

fn find_dashes(s: &Vec<char>) -> (r: Option<usize>)
    ensures
        match r {
            Some(p) => first_dashes(s@) == Some(p as int),
            None => first_dashes(s@) is None,
        },
{
    if s.len() < 2 {
        return None;
    }
    let last = s.len() - 1;
    let mut i: usize = 0;
    while i < last
        invariant
            last + 1 == s@.len(),
            i <= last,
            forall|k: int| 0 <= k < i ==> !(s@[k] == '-' && #[trigger] s@[k + 1] == '-'),
        decreases last - i,
    {
        if s[i] == '-' && s[i + 1] == '-' {
            proof {
                lemma_first_dashes_at(s@, i as int);
            }
            return Some(i);
        }
        i = i + 1;
    }
    proof {
        lemma_first_dashes_none(s@);
    }
    None
}

/// The `--long-flag` names a token mentions.
pub fn long_flags_in(tok: &Vec<char>) -> (r: Vec<String>)
    ensures
        texts_of(r@) == flags_in(tok@),
{
    let mut out: Vec<String> = Vec::new();
    let mut rest = slice_of(tok, 0, tok.len());
    assert(rest@ =~= tok@);
    assert(texts_of(out@) =~= Seq::<Seq<char>>::empty());
    loop
        invariant
            texts_of(out@) + flags_in(rest@) == flags_in(tok@),
        decreases rest@.len(),
    {
        match find_dashes(&rest) {
            None => {
                assert(texts_of(out@) =~= flags_in(tok@));
                return out;
            },
            Some(p) => {
                proof {
                    lemma_first_dashes(rest@);
                    assert(first_dashes(rest@) == Some(p as int));
                    assert(p + 2 <= rest@.len());
                }
                let after = slice_of(&rest, p + 2, rest.len());
                assert(after@ =~= rest@.skip(p + 2));
                let mut n: usize = 0;
                while n < after.len() && (('a' <= after[n] && after[n] <= 'z') || ('0' <= after[n] && after[n] <= '9') || after[n] == '-')
                    invariant
                        n <= after@.len(),
                        forall|k: int| 0 <= k < n ==> is_flag_char(#[trigger] after@[k]),
                    decreases after@.len() - n,
                {
                    n = n + 1;
                }
                proof {
                    lemma_flag_run(after@);
                    if flag_run(after@) < n {
                        assert(is_flag_char(after@[flag_run(after@)]));
                    }
                    if (n as int) < flag_run(after@) {
                        assert(is_flag_char(after@[n as int]));
                    }
                    assert(n as int == flag_run(after@));
                }
                let mut m = n;
                while m > 0 && after[m - 1] == '-'
                    invariant
                        m <= n <= after@.len(),
                        rstrip_char(after@.take(m as int), '-') == rstrip_char(after@.take(n as int), '-'),
                    decreases m,
                {
                    assert(after@.take(m as int).drop_last() =~= after@.take(m - 1));
                    m = m - 1;
                }
                proof {
                    let t = after@.take(m as int);
                    if m > 0 {
                        assert(t.last() != '-');
                    }
                    assert(rstrip_char(t, '-') == t);
                    lemma_rstrip_len(after@.take(n as int), '-');
                }
                let name = slice_of(&after, 0, m);
                assert(name@ =~= after@.take(m as int));
                let next = slice_of(&after, m, after.len());
                assert(next@ =~= after@.skip(m as int));
                if m > 0 {
                    let ghost before = out@;
                    out.push(string_of(&name));
                    assert(texts_of(out@) =~= texts_of(before).push(name@));
                }
                proof {
                    let nm = rstrip_char(after@.take(flag_run(after@)), '-');
                    assert(nm == name@);
                    assert(flags_in(rest@) == (if nm.len() > 0 {
                        seq![nm]
                    } else {
                        Seq::<Seq<char>>::empty()
                    }) + flags_in(after@.skip(nm.len() as int)));
                    if m > 0 {
                        assert(texts_of(out@) + flags_in(next@) =~= texts_of(out@).drop_last() + flags_in(rest@));
                    } else {
                        assert(texts_of(out@) + flags_in(next@) =~= texts_of(out@) + flags_in(rest@));
                    }
                }
                rest = next;
            },
        }
    }
}

// ── fenced blocks ───────────────────────────────────────────────────────────

/// A fenced code block: the language after the opening fence (trimmed) and
/// the lines inside.
pub struct Block {
    pub lang: String,
    pub lines: Vec<String>,
}

pub open spec fn block_view(b: Block) -> (Seq<char>, Seq<Seq<char>>) {
    (b.lang@, texts_of(b.lines@))
}

pub open spec fn blocks_view(bs: Seq<Block>) -> Seq<(Seq<char>, Seq<Seq<char>>)> {
    bs.map_values(|b: Block| block_view(b))
}

/// The blocks closed in the first `n` lines, and the block still open.
pub open spec fn fence_scan(ls: Seq<Seq<char>>, n: int) -> (Seq<(Seq<char>, Seq<Seq<char>>)>, Option<(Seq<char>, Seq<Seq<char>>)>)
    decreases n,
{
    if n <= 0 {
        (seq![], None)
    } else {
        let (done, cur) = fence_scan(ls, n - 1);
        let line = ls[n - 1];
        match strip_prefix(trim_start(line), "```"@) {
            Some(rest) => match cur {
                Some(b) => (done.push(b), None),
                None => (done, Some((trim(rest), seq![]))),
            },
            None => match cur {
                Some((lang, body)) => (done, Some((lang, body.push(line)))),
                None => (done, None),
            },
        }
    }
}

/// The closed fenced blocks of a text, in order (a block left open at the
/// end is dropped).
pub open spec fn fenced(text: Seq<char>) -> Seq<(Seq<char>, Seq<Seq<char>>)> {
    fence_scan(lines(text), lines(text).len() as int).0
}

pub fn fenced_blocks(text: &str) -> (r: Vec<Block>)
    ensures
        blocks_view(r@) == fenced(text@),
{
    let t = chars_of(text);
    let ls = lines_of(&t);
    let ghost lv = views(ls@);
    let mut done: Vec<Block> = Vec::new();
    let mut cur: Option<Block> = None;
    let mut i: usize = 0;
    while i < ls.len()
        invariant
            i <= ls@.len(),
            lv == views(ls@),
            lv == lines(t@),
            t@ == text@,
            (blocks_view(done@), match cur {
                Some(b) => Some(block_view(b)),
                None => None,
            }) == fence_scan(lv, i as int),
        decreases ls@.len() - i,
    {
        let line = &ls[i];
        assert(lv[i as int] == line@);
        let ts = trim_start_chars(line);
        match strip_prefix_lit(&ts, "```") {
            Some(rest) => {
                match cur {
                    Some(b) => {
                        let ghost before = done@;
                        let ghost bv = block_view(b);
                        done.push(b);
                        assert(blocks_view(done@) =~= blocks_view(before).push(bv));
                        cur = None;
                    },
                    None => {
                        let lang = trim_chars(&rest);
                        let nb = Block { lang: string_of(&lang), lines: Vec::new() };
                        assert(block_view(nb) == (trim(rest@), Seq::<Seq<char>>::empty()));
                        cur = Some(nb);
                    },
                }
            },
            None => {
                match cur {
                    Some(mut b) => {
                        let ghost before = b.lines@;
                        b.lines.push(string_of(line));
                        assert(texts_of(b.lines@) =~= texts_of(before).push(line@));
                        cur = Some(b);
                    },
                    None => {},
                }
            },
        }
        i = i + 1;
    }
    done
}

/// The version a skill document declares: the first line starting with
/// `plexi_version:`, the rest trimmed and without surrounding quotes.
pub open spec fn declared_version_in(ls: Seq<Seq<char>>) -> Option<Seq<char>>
    decreases ls.len(),
{
    if ls.len() == 0 {
        None
    } else {
        match strip_prefix(ls[0], "plexi_version:"@) {
            Some(v) => Some(unquote(trim(v))),
            None => declared_version_in(ls.skip(1)),
        }
    }
}

/// `s` without leading and trailing `"`s (`str::trim_matches('"')`).
pub open spec fn unquote(s: Seq<char>) -> Seq<char> {
    rstrip_char(lstrip_quote(s), '"')
}

pub open spec fn lstrip_quote(s: Seq<char>) -> Seq<char>
    decreases s.len(),
{
    if s.len() > 0 && s[0] == '"' {
        lstrip_quote(s.drop_first())
    } else {
        s
    }
}

fn unquote_chars(s: &Vec<char>) -> (r: Vec<char>)
    ensures
        r@ == unquote(s@),
{
    let mut i: usize = 0;
    assert(s@.skip(0) =~= s@);
    while i < s.len() && s[i] == '"'
        invariant
            i <= s@.len(),
            lstrip_quote(s@) == lstrip_quote(s@.skip(i as int)),
        decreases s@.len() - i,
    {
        assert(s@.skip(i as int).drop_first() =~= s@.skip(i + 1));
        i = i + 1;
    }
    let mut j = s.len();
    assert(s@.skip(i as int).take(s@.len() - i) =~= s@.skip(i as int));
    while j > i && s[j - 1] == '"'
        invariant
            i <= j <= s@.len(),
            lstrip_quote(s@) == s@.skip(i as int),
            rstrip_char(s@.subrange(i as int, j as int), '"') == rstrip_char(s@.skip(i as int), '"'),
        decreases j,
    {
        assert(s@.subrange(i as int, j as int).drop_last() =~= s@.subrange(i as int, j - 1));
        j = j - 1;
    }
    let r = slice_of(s, i, j);
    proof {
        if j > i {
            assert(r@.last() != '"');
        }
        assert(rstrip_char(r@, '"') == r@);
    }
    r
}

pub fn declared_plexi_version(text: &str) -> (r: Option<String>)
    ensures
        match r {
            Some(v) => declared_version_in(lines(text@)) == Some(v@),
            None => declared_version_in(lines(text@)) is None,
        },
{
    let t = chars_of(text);
    let ls = lines_of(&t);
    let ghost lv = views(ls@);
    let mut i: usize = 0;
    assert(lv.skip(0) =~= lv);
    while i < ls.len()
        invariant
            i <= ls@.len(),
            lv == views(ls@),
            lv == lines(text@),
            declared_version_in(lv) == declared_version_in(lv.skip(i as int)),
        decreases ls@.len() - i,
    {
        assert(lv.skip(i as int)[0] == ls@[i as int]@);
        assert(lv.skip(i as int).skip(1) =~= lv.skip(i + 1));
        match strip_prefix_lit(&ls[i], "plexi_version:") {
            Some(v) => {
                let tv = trim_chars(&v);
                let u = unquote_chars(&tv);
                return Some(string_of(&u));
            },
            None => {},
        }
        i = i + 1;
    }
    None
}

// ── the command tree ────────────────────────────────────────────────────────

/// A command of the CLI: its name, aliases, long flags (with their
/// aliases) and subcommands.
pub struct CliNode {
    pub name: String,
    pub aliases: Vec<String>,
    pub long_flags: Vec<String>,
    pub subcommands: Vec<CliNode>,
}

/// Whether a subcommand answers to a token: by name or by an alias.
pub open spec fn answers_to(n: CliNode, tok: Seq<char>) -> bool {
    n.name@ == tok || texts_of(n.aliases@).contains(tok)
}

/// The first subcommand answering to a token.
pub open spec fn find_sub(subs: Seq<CliNode>, tok: Seq<char>) -> Option<int>
    decreases subs.len(),
{
    if subs.len() == 0 {
        None
    } else if answers_to(subs[0], tok) {
        Some(0)
    } else {
        match find_sub(subs.skip(1), tok) {
            Some(i) => Some(i + 1),
            None => None,
        }
    }
}

proof fn lemma_find_sub_step(subs: Seq<CliNode>, tok: Seq<char>, i: int)
    requires
        0 <= i < subs.len(),
        forall|j: int| 0 <= j < i ==> !answers_to(#[trigger] subs[j], tok),
    ensures
        answers_to(subs[i], tok) ==> find_sub(subs, tok) == Some(i),
    decreases i,
{
    if i > 0 {
        assert forall|j: int| 0 <= j < i - 1 implies !answers_to(#[trigger] subs.skip(1)[j], tok) by {
            assert(subs.skip(1)[j] == subs[j + 1]);
        }
        let j0: int = 0;
        assert(!answers_to(subs[j0], tok));
        lemma_find_sub_step(subs.skip(1), tok, i - 1);
    }
}

proof fn lemma_find_sub_none(subs: Seq<CliNode>, tok: Seq<char>)
    requires
        forall|j: int| 0 <= j < subs.len() ==> !answers_to(#[trigger] subs[j], tok),
    ensures
        find_sub(subs, tok) is None,
    decreases subs.len(),
{
    if subs.len() > 0 {
        assert forall|j: int| 0 <= j < subs.len() - 1 implies !answers_to(#[trigger] subs.skip(1)[j], tok) by {
            assert(subs.skip(1)[j] == subs[j + 1]);
        }
        let j0: int = 0;
        assert(!answers_to(subs[j0], tok));
        lemma_find_sub_none(subs.skip(1), tok);
    }
}

fn find_subcommand(node: &CliNode, tok: &Vec<char>) -> (r: Option<usize>)
    ensures
        match r {
            Some(i) => find_sub(node.subcommands@, tok@) == Some(i as int) && i < node.subcommands@.len(),
            None => find_sub(node.subcommands@, tok@) is None,
        },
{
    let t = string_of(tok);
    let mut i: usize = 0;
    while i < node.subcommands.len()
        invariant
            i <= node.subcommands@.len(),
            t@ == tok@,
            forall|j: int| 0 <= j < i ==> !answers_to(#[trigger] node.subcommands@[j], tok@),
        decreases node.subcommands@.len() - i,
    {
        let sub = &node.subcommands[i];
        let nc = chars_of(sub.name.as_str());
        if eq_chars(&nc, tok) || texts_contain(&sub.aliases, t.as_str()) {
            proof {
                lemma_find_sub_step(node.subcommands@, tok@, i as int);
            }
            return Some(i);
        }
        i = i + 1;
    }
    proof {
        lemma_find_sub_none(node.subcommands@, tok@);
    }
    None
}

/// Whether a command has a long flag (`--help` and `--version` always).
pub open spec fn spec_has_flag(n: CliNode, flag: Seq<char>) -> bool {
    flag == "help"@ || flag == "version"@ || texts_of(n.long_flags@).contains(flag)
}

fn has_long_flag(node: &CliNode, flag: &str) -> (r: bool)
    ensures
        r == spec_has_flag(*node, flag@),
{
    let f = chars_of(flag);
    eq_lit(&f, "help") || eq_lit(&f, "version") || texts_contain(&node.long_flags, flag)
}

/// The deepest command the tokens from `i` up to `end` lead to, the path
/// taken, and the first token not consumed: command words descend while
/// they name a subcommand.
pub open spec fn descend(n: CliNode, toks: Seq<Seq<char>>, i: int, end: int, path: Seq<Seq<char>>) -> (CliNode, Seq<Seq<char>>, int)
    decreases end - i,
{
    if 0 <= i < end && end <= toks.len() && spec_is_command_word(toks[i]) {
        match find_sub(n.subcommands@, toks[i]) {
            Some(j) => if 0 <= j < n.subcommands@.len() {
                descend(n.subcommands@[j], toks, i + 1, end, path.push(toks[i]))
            } else {
                (n, path, i)
            },
            None => (n, path, i),
        }
    } else {
        (n, path, i)
    }
}

fn walk<'a>(root: &'a CliNode, toks: &Vec<Vec<char>>, from: usize, end: usize) -> (r: (&'a CliNode, Vec<String>, usize))
    requires
        from <= end <= toks@.len(),
    ensures
        (*r.0, texts_of(r.1@), r.2 as int) == descend(*root, views(toks@), from as int, end as int, seq![]),
        from <= r.2 <= end,
{
    let ghost tv = views(toks@);
    let mut cmd: &CliNode = root;
    let mut path: Vec<String> = Vec::new();
    let mut i = from;
    let mut done = false;
    assert(texts_of(path@) =~= Seq::<Seq<char>>::empty());
    while i < end && !done
        invariant
            from <= i <= end,
            end <= toks@.len(),
            tv == views(toks@),
            descend(*cmd, tv, i as int, end as int, texts_of(path@)) == descend(*root, tv, from as int, end as int, seq![]),
            done ==> descend(*cmd, tv, i as int, end as int, texts_of(path@)) == (*cmd, texts_of(path@), i as int),
        decreases end - i + (if done { 0int } else { 1int }),
    {
        assert(tv[i as int] == toks@[i as int]@);
        if !is_command_word(&toks[i]) {
            done = true;
        } else {
            match find_subcommand(cmd, &toks[i]) {
                Some(j) => {
                    let ghost before = texts_of(path@);
                    path.push(string_of(&toks[i]));
                    assert(texts_of(path@) =~= before.push(tv[i as int]));
                    cmd = &cmd.subcommands[j];
                    i = i + 1;
                },
                None => {
                    done = true;
                },
            }
        }
    }
    (cmd, path, i)
}

// ── errors ──────────────────────────────────────────────────────────────────

pub open spec fn flag_error(path: Seq<Seq<char>>, flag: Seq<char>) -> Seq<char> {
    "`plexi "@ + join_with(path, " "@) + "` has no `--"@ + flag + "` flag, but the skill documents one"@
}

/// The errors for the flags a command lacks.
pub open spec fn flags_errors(n: CliNode, path: Seq<Seq<char>>, flags: Seq<Seq<char>>) -> Seq<Seq<char>>
    decreases flags.len(),
{
    if flags.len() == 0 {
        seq![]
    } else {
        flags_errors(n, path, flags.drop_last()) + if spec_has_flag(n, flags.last()) {
            Seq::<Seq<char>>::empty()
        } else {
            seq![flag_error(path, flags.last())]
        }
    }
}

/// The errors for the flags named in tokens, token by token.
pub open spec fn tokens_errors(n: CliNode, path: Seq<Seq<char>>, toks: Seq<Seq<char>>) -> Seq<Seq<char>>
    decreases toks.len(),
{
    if toks.len() == 0 {
        seq![]
    } else {
        tokens_errors(n, path, toks.drop_last()) + flags_errors(n, path, flags_in(toks.last()))
    }
}

fn words_strings(ws: &Vec<Vec<char>>, from: usize) -> (r: Vec<String>)
    requires
        from <= ws@.len(),
    ensures
        texts_of(r@) == views(ws@).skip(from as int),
{
    let mut out: Vec<String> = Vec::new();
    let mut i = from;
    while i < ws.len()
        invariant
            from <= i <= ws@.len(),
            texts_of(out@) == views(ws@).subrange(from as int, i as int),
        decreases ws@.len() - i,
    {
        let ghost before = out@;
        out.push(string_of(&ws[i]));
        assert(texts_of(out@) =~= texts_of(before).push(ws@[i as int]@));
        assert(views(ws@).subrange(from as int, i + 1) =~= views(ws@).subrange(from as int, i as int).push(ws@[i as int]@));
        i = i + 1;
    }
    assert(views(ws@).subrange(from as int, ws@.len() as int) =~= views(ws@).skip(from as int));
    out
}

fn push_flag_errors(errors: &mut Vec<String>, node: &CliNode, path: &Vec<String>, toks: &Vec<Vec<char>>, from: usize, end: usize)
    requires
        from <= end <= toks@.len(),
    ensures
        texts_of(final(errors)@) == texts_of(old(errors)@) + tokens_errors(*node, texts_of(path@), views(toks@).subrange(from as int, end as int)),
{
    let ghost start = texts_of(errors@);
    let ghost tv = views(toks@).subrange(from as int, end as int);
    let ghost pv = texts_of(path@);
    let joined = join_strs(path, " ");
    let mut i = from;
    while i < end
        invariant
            from <= i <= end,
            end <= toks@.len(),
            tv == views(toks@).subrange(from as int, end as int),
            pv == texts_of(path@),
            joined@ == join_with(pv, " "@),
            texts_of(errors@) == start + tokens_errors(*node, pv, tv.take(i - from)),
        decreases end - i,
    {
        proof {
            assert(tv.take(i - from + 1).drop_last() =~= tv.take(i - from));
            assert(tv.take(i - from + 1).last() == toks@[i as int]@);
        }
        let flags = long_flags_in(&toks[i]);
        let ghost fv = texts_of(flags@);
        let ghost mid = texts_of(errors@);
        let mut k: usize = 0;
        while k < flags.len()
            invariant
                k <= flags@.len(),
                fv == texts_of(flags@),
                pv == texts_of(path@),
                joined@ == join_with(pv, " "@),
                texts_of(errors@) == mid + flags_errors(*node, pv, fv.take(k as int)),
            decreases flags@.len() - k,
        {
            proof {
                assert(fv.take(k + 1).drop_last() =~= fv.take(k as int));
                assert(fv.take(k + 1).last() == flags@[k as int]@);
            }
            if !has_long_flag(node, flags[k].as_str()) {
                let mut e: Vec<char> = Vec::new();
                push_lit(&mut e, "`plexi ");
                push_lit(&mut e, joined.as_str());
                push_lit(&mut e, "` has no `--");
                push_lit(&mut e, flags[k].as_str());
                push_lit(&mut e, "` flag, but the skill documents one");
                let ghost before = errors@;
                errors.push(string_of(&e));
                assert(texts_of(errors@) =~= texts_of(before).push(flag_error(pv, flags@[k as int]@)));
            }
            k = k + 1;
        }
        proof {
            assert(fv.take(flags@.len() as int) =~= fv);
        }
        i = i + 1;
    }
    proof {
        assert(tv.take(end - from) =~= tv);
    }
}


// ── reference blocks ────────────────────────────────────────────────────────

pub open spec fn subcommand_error(path: Seq<Seq<char>>, tok: Seq<char>) -> Seq<char> {
    "skill documents subcommand `plexi "@ + join_with(path, " "@) + " "@ + tok + "`, which does not exist in this CLI"@
}

pub open spec fn unknown_line_error(line: Seq<char>) -> Seq<char> {
    "reference line does not start with a known subcommand: `"@ + trim(line) + "`"@
}

/// What an unindented reference line yields: its errors, and the entry
/// (command and path) that indented lines after it continue.  A command
/// word that names no subcommand is an error; so is a line that does not
/// start with a subcommand at all.
pub open spec fn reference_entry(root: CliNode, toks: Seq<Seq<char>>, line: Seq<char>) -> (Seq<Seq<char>>, Option<(CliNode, Seq<Seq<char>>)>) {
    let (cmd, path, idx) = descend(root, toks, 0, toks.len() as int, seq![]);
    if idx < toks.len() && spec_is_command_word(toks[idx]) {
        (seq![subcommand_error(path, toks[idx])], None)
    } else if path.len() == 0 {
        (seq![unknown_line_error(line)], None)
    } else {
        (tokens_errors(cmd, path, toks.skip(idx)), Some((cmd, path)))
    }
}

/// The errors of the first `n` lines of a reference block, and the entry
/// open after them.  Blank lines are skipped; an indented line names flags
/// of the open entry.
pub open spec fn reference_scan(root: CliNode, ls: Seq<Seq<char>>, n: int) -> (Seq<Seq<char>>, Option<(CliNode, Seq<Seq<char>>)>)
    decreases n,
{
    if n <= 0 {
        (seq![], None)
    } else {
        let (errs, entry) = reference_scan(root, ls, n - 1);
        let line = ls[n - 1];
        let toks = words(line);
        if toks.len() == 0 {
            (errs, entry)
        } else if is_ws(line[0]) {
            match entry {
                Some((cmd, path)) => (errs + tokens_errors(cmd, path, toks), entry),
                None => (errs, entry),
            }
        } else {
            let (more, next) = reference_entry(root, toks, line);
            (errs + more, next)
        }
    }
}

pub open spec fn entry_view(cmd: Option<&CliNode>, path: Seq<String>) -> Option<(CliNode, Seq<Seq<char>>)> {
    match cmd {
        Some(c) => Some((*c, texts_of(path))),
        None => None,
    }
}

fn check_reference_block(root: &CliNode, block: &Block, errors: &mut Vec<String>)
    ensures
        texts_of(final(errors)@) == texts_of(old(errors)@) + reference_scan(*root, texts_of(block.lines@), block.lines@.len() as int).0,
{
    let ghost start = texts_of(errors@);
    let ghost lv = texts_of(block.lines@);
    let mut entry_cmd: Option<&CliNode> = None;
    let mut entry_path: Vec<String> = Vec::new();
    let mut i: usize = 0;
    while i < block.lines.len()
        invariant
            i <= block.lines@.len(),
            lv == texts_of(block.lines@),
            texts_of(errors@) == start + reference_scan(*root, lv, i as int).0,
            entry_view(entry_cmd, entry_path@) == reference_scan(*root, lv, i as int).1,
        decreases block.lines@.len() - i,
    {
        let lc = chars_of(block.lines[i].as_str());
        assert(lc@ == lv[i as int]);
        let toks = split_words(&lc);
        let ghost tv = views(toks@);
        if toks.len() == 0 {
        } else if char_is_ws(lc[0]) {
            match entry_cmd {
                Some(c) => {
                    push_flag_errors(errors, c, &entry_path, &toks, 0, toks.len());
                    assert(tv.subrange(0, tv.len() as int) =~= tv);
                },
                None => {},
            }
        } else {
            let (cmd, path, idx) = walk(root, &toks, 0, toks.len());
            if idx < toks.len() && is_command_word(&toks[idx]) {
                let joined = join_strs(&path, " ");
                let mut e: Vec<char> = Vec::new();
                push_lit(&mut e, "skill documents subcommand `plexi ");
                push_lit(&mut e, joined.as_str());
                push_lit(&mut e, " ");
                push_all(&mut e, &toks[idx]);
                push_lit(&mut e, "`, which does not exist in this CLI");
                let ghost before = errors@;
                errors.push(string_of(&e));
                assert(tv[idx as int] == toks@[idx as int]@);
                assert(texts_of(errors@) =~= texts_of(before).push(subcommand_error(texts_of(path@), tv[idx as int])));
                entry_cmd = None;
            } else if path.len() == 0 {
                let t = trim_chars(&lc);
                let mut e: Vec<char> = Vec::new();
                push_lit(&mut e, "reference line does not start with a known subcommand: `");
                push_all(&mut e, &t);
                push_lit(&mut e, "`");
                let ghost before = errors@;
                errors.push(string_of(&e));
                assert(texts_of(errors@) =~= texts_of(before).push(unknown_line_error(lc@)));
                entry_cmd = None;
            } else {
                push_flag_errors(errors, cmd, &path, &toks, idx, toks.len());
                assert(tv.subrange(idx as int, tv.len() as int) =~= tv.skip(idx as int));
                entry_cmd = Some(cmd);
                entry_path = path;
            }
        }
        i = i + 1;
    }
}


// ── bash blocks ─────────────────────────────────────────────────────────────

pub open spec fn is_shell_punct(c: char) -> bool {
    c == '(' || c == ')' || c == '|' || c == ';' || c == '&' || c == '`'
}

/// A shell line with every `$(` turned into one space and every other
/// piece of shell punctuation (`()|;&` and backquote) into a space.
pub open spec fn shell_normalized(s: Seq<char>) -> Seq<char>
    decreases s.len(),
{
    if s.len() == 0 {
        s
    } else if s.len() >= 2 && s[0] == '$' && s[1] == '(' {
        seq![' '] + shell_normalized(s.skip(2))
    } else {
        seq![if is_shell_punct(s[0]) { ' ' } else { s[0] }] + shell_normalized(s.skip(1))
    }
}

fn shell_normalize(s: &Vec<char>) -> (r: Vec<char>)
    ensures
        r@ == shell_normalized(s@),
{
    let mut out: Vec<char> = Vec::new();
    let mut i: usize = 0;
    assert(out@ + shell_normalized(s@.skip(0)) =~= shell_normalized(s@)) by {
        assert(s@.skip(0) =~= s@);
    }
    while i < s.len()
        invariant
            i <= s@.len(),
            out@ + shell_normalized(s@.skip(i as int)) == shell_normalized(s@),
        decreases s@.len() - i,
    {
        let ghost rest = s@.skip(i as int);
        let ghost before = out@;
        if i + 1 < s.len() && s[i] == '$' && s[i + 1] == '(' {
            out.push(' ');
            assert(rest.skip(2) =~= s@.skip(i + 2));
            assert(out@ + shell_normalized(s@.skip(i + 2)) =~= before + shell_normalized(rest));
            i = i + 2;
        } else {
            let c = s[i];
            let d = if c == '(' || c == ')' || c == '|' || c == ';' || c == '&' || c == '`' { ' ' } else { c };
            out.push(d);
            assert(rest.skip(1) =~= s@.skip(i + 1));
            assert(out@ + shell_normalized(s@.skip(i + 1)) =~= before + shell_normalized(rest));
            i = i + 1;
        }
    }
    assert(out@ + shell_normalized(s@.skip(i as int)) =~= out@);
    out
}

/// The index of the first `plexi` token at or after `j` (the number of
/// tokens when there is none).
pub open spec fn next_plexi(toks: Seq<Seq<char>>, j: int) -> int
    decreases toks.len() - j,
{
    if j >= toks.len() {
        toks.len() as int
    } else if toks[j] == "plexi"@ {
        j
    } else {
        next_plexi(toks, j + 1)
    }
}

proof fn lemma_next_plexi(toks: Seq<Seq<char>>, j: int)
    requires
        0 <= j <= toks.len(),
    ensures
        j <= next_plexi(toks, j) <= toks.len(),
    decreases toks.len() - j,
{
    if j < toks.len() && toks[j] != "plexi"@ {
        lemma_next_plexi(toks, j + 1);
    }
}

fn next_plexi_at(toks: &Vec<Vec<char>>, j: usize) -> (r: usize)
    requires
        j <= toks@.len(),
    ensures
        r as int == next_plexi(views(toks@), j as int),
        j <= r <= toks@.len(),
{
    let ghost tv = views(toks@);
    proof {
        lemma_next_plexi(tv, j as int);
    }
    let mut k = j;
    while k < toks.len() && !eq_lit(&toks[k], "plexi")
        invariant
            j <= k <= toks@.len(),
            tv == views(toks@),
            next_plexi(tv, k as int) == next_plexi(tv, j as int),
        decreases toks@.len() - k,
    {
        assert(tv[k as int] == toks@[k as int]@);
        k = k + 1;
    }
    proof {
        if k < toks@.len() {
            assert(tv[k as int] == toks@[k as int]@);
        }
    }
    k
}

pub open spec fn invoke_error(tok: Seq<char>, line: Seq<char>) -> Seq<char> {
    "bash example invokes `plexi "@ + tok + "`, which is not a known subcommand (line: `"@ + trim(line) + "`)"@
}

/// The errors of the `plexi` invocations among the tokens from `i` on.
/// An invocation runs to the next `plexi` token; one with nothing after it
/// ends the line.  Its first word must be a subcommand; words descend while
/// they resolve, and the flags after them must exist on the command reached.
pub open spec fn invocation_errors(root: CliNode, toks: Seq<Seq<char>>, i: int, line: Seq<char>) -> Seq<Seq<char>>
    decreases toks.len() - i,
{
    if i < 0 || i >= toks.len() {
        seq![]
    } else if toks[i] != "plexi"@ {
        invocation_errors(root, toks, i + 1, line)
    } else {
        let e = next_plexi(toks, i + 1);
        if !(i + 1 < e <= toks.len()) {
            seq![]
        } else {
            let (cmd, path, idx) = descend(root, toks, i + 1, e, seq![]);
            let here = if path.len() == 0 {
                seq![invoke_error(toks[i + 1], line)]
            } else {
                tokens_errors(cmd, path, toks.subrange(idx, e))
            };
            here + invocation_errors(root, toks, e, line)
        }
    }
}

/// The errors of the first `n` lines of a bash block.
pub open spec fn bash_scan(root: CliNode, ls: Seq<Seq<char>>, n: int) -> Seq<Seq<char>>
    decreases n,
{
    if n <= 0 {
        seq![]
    } else {
        bash_scan(root, ls, n - 1) + invocation_errors(root, words(shell_normalized(ls[n - 1])), 0, ls[n - 1])
    }
}

fn check_bash_line(root: &CliNode, lc: &Vec<char>, errors: &mut Vec<String>)
    ensures
        texts_of(final(errors)@) == texts_of(old(errors)@) + invocation_errors(*root, words(shell_normalized(lc@)), 0, lc@),
{
    let ghost start = texts_of(errors@);
    let norm = shell_normalize(lc);
    let toks = split_words(&norm);
    let ghost tv = views(toks@);
    let mut k: usize = 0;
    while k < toks.len()
        invariant
            k <= toks@.len(),
            tv == views(toks@),
            tv == words(shell_normalized(lc@)),
            texts_of(errors@) + invocation_errors(*root, tv, k as int, lc@) == start + invocation_errors(*root, tv, 0, lc@),
        decreases toks@.len() - k,
    {
        assert(tv[k as int] == toks@[k as int]@);
        if !eq_lit(&toks[k], "plexi") {
            k = k + 1;
        } else {
            let e = next_plexi_at(&toks, k + 1);
            if e == k + 1 {
                k = toks.len();
            } else {
                let ghost before = texts_of(errors@);
                let (cmd, path, idx) = walk(root, &toks, k + 1, e);
                if path.len() == 0 {
                    let t = trim_chars(lc);
                    let mut m: Vec<char> = Vec::new();
                    push_lit(&mut m, "bash example invokes `plexi ");
                    push_all(&mut m, &toks[k + 1]);
                    push_lit(&mut m, "`, which is not a known subcommand (line: `");
                    push_all(&mut m, &t);
                    push_lit(&mut m, "`)");
                    let ghost eb = errors@;
                    errors.push(string_of(&m));
                    assert(tv[k + 1] == toks@[k + 1]@);
                    assert(texts_of(errors@) =~= texts_of(eb).push(invoke_error(tv[k + 1], lc@)));
                    assert(texts_of(errors@) =~= before + seq![invoke_error(tv[k + 1], lc@)]);
                } else {
                    push_flag_errors(errors, cmd, &path, &toks, idx, e);
                }
                k = e;
            }
        }
    }
    assert(texts_of(errors@) =~= texts_of(errors@) + invocation_errors(*root, tv, k as int, lc@));
}

fn check_bash_block(root: &CliNode, block: &Block, errors: &mut Vec<String>)
    ensures
        texts_of(final(errors)@) == texts_of(old(errors)@) + bash_scan(*root, texts_of(block.lines@), block.lines@.len() as int),
{
    let ghost start = texts_of(errors@);
    let ghost lv = texts_of(block.lines@);
    let mut i: usize = 0;
    while i < block.lines.len()
        invariant
            i <= block.lines@.len(),
            lv == texts_of(block.lines@),
            texts_of(errors@) == start + bash_scan(*root, lv, i as int),
        decreases block.lines@.len() - i,
    {
        let lc = chars_of(block.lines[i].as_str());
        assert(lc@ == lv[i as int]);
        check_bash_line(root, &lc, errors);
        assert(start + bash_scan(*root, lv, i + 1) =~= start + bash_scan(*root, lv, i as int) + invocation_errors(*root, words(shell_normalized(lv[i as int])), 0, lv[i as int]));
        i = i + 1;
    }
}


// ── the whole document ──────────────────────────────────────────────────────

/// The errors of one fenced block: bare fences are reference blocks,
/// `bash` and `sh` fences hold examples, other languages are not checked.
pub open spec fn block_errors(root: CliNode, b: (Seq<char>, Seq<Seq<char>>)) -> Seq<Seq<char>> {
    if b.0 == ""@ {
        reference_scan(root, b.1, b.1.len() as int).0
    } else if b.0 == "bash"@ || b.0 == "sh"@ {
        bash_scan(root, b.1, b.1.len() as int)
    } else {
        seq![]
    }
}

pub open spec fn surface_errors(root: CliNode, bs: Seq<(Seq<char>, Seq<Seq<char>>)>) -> Seq<Seq<char>>
    decreases bs.len(),
{
    if bs.len() == 0 {
        seq![]
    } else {
        surface_errors(root, bs.drop_last()) + block_errors(root, bs.last())
    }
}

/// Every place where a skill document names CLI surface that the command
/// tree does not have, block by block in document order; empty when the
/// document matches the CLI.
pub fn skill_surface_errors(root: &CliNode, text: &str) -> (r: Vec<String>)
    ensures
        texts_of(r@) == surface_errors(*root, fenced(text@)),
{
    let blocks = fenced_blocks(text);
    let ghost bv = blocks_view(blocks@);
    let mut errors: Vec<String> = Vec::new();
    let mut b: usize = 0;
    assert(texts_of(errors@) =~= surface_errors(*root, bv.take(0)));
    while b < blocks.len()
        invariant
            b <= blocks@.len(),
            bv == blocks_view(blocks@),
            texts_of(errors@) == surface_errors(*root, bv.take(b as int)),
        decreases blocks@.len() - b,
    {
        let block = &blocks[b];
        assert(bv.take(b + 1).drop_last() =~= bv.take(b as int));
        assert(bv.take(b + 1).last() == block_view(*block));
        let lang = chars_of(block.lang.as_str());
        if eq_lit(&lang, "") {
            check_reference_block(root, block, &mut errors);
        } else if eq_lit(&lang, "bash") || eq_lit(&lang, "sh") {
            check_bash_block(root, block, &mut errors);
        } else {
            assert(texts_of(errors@) =~= texts_of(errors@) + Seq::<Seq<char>>::empty());
        }
        b = b + 1;
    }
    assert(bv.take(blocks@.len() as int) =~= bv);
    errors
}

} // verus!
