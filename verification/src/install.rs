//! App installation rules: install hints for optional tools, source specs
//! with an `@ref` suffix, pack source specs inferred from git remotes, and
//! the help text chosen from a captured subprocess.

use vstd::prelude::*;
use crate::channel::{channel_bundle_cap, spec_bundle_cap};
use crate::text::{
    opt_text, eq_lit, chars_of, ends_with, ends_with_lit, has_char, lemma_has_char_next_idx, lemma_prev_idx,
    matches_at, prev_idx, push_all, push_lit, rfind_char, slice_of, contains_char, starts_with,
    starts_with_lit, string_of, strip_prefix, strip_prefix_lit, trim, trim_chars, pad_right,
    pad_right_of, str_less, str_lt, lemma_str_lt_order,
};

verus! {

// ── install hints ───────────────────────────────────────────────────────────

#[derive(Debug, Clone, Copy, PartialEq, Eq, Structural)]
pub enum InstallPlatform {
    Macos,
    Linux,
    Windows,
    Other,
}

/// The package-manager identifiers and official installation page of one
/// optional dependency; a manager is absent where it is no supported path.
#[derive(Debug, Clone, Copy, PartialEq, Eq)]
pub struct InstallTarget {
    pub brew: Option<&'static str>,
    pub apt: Option<&'static str>,
    pub winget: Option<&'static str>,
    pub url: &'static str,
}

pub open spec fn spec_install_hint(p: InstallPlatform, t: InstallTarget) -> Seq<char> {
    let fallback = "install from "@ + t.url@;
    match p {
        InstallPlatform::Macos => match t.brew {
            Some(pkg) => "brew install "@ + pkg@,
            None => fallback,
        },
        InstallPlatform::Linux => match t.apt {
            Some(pkg) => "sudo apt install "@ + pkg@ + " (or "@ + t.url@ + ")"@,
            None => fallback,
        },
        InstallPlatform::Windows => match t.winget {
            Some(pkg) => "winget install "@ + pkg@ + " (or "@ + t.url@ + ")"@,
            None => fallback,
        },
        InstallPlatform::Other => fallback,
    }
}

/// Installation guidance for `target` on `platform`: the native package
/// manager where one is supported (with the official URL as a fallback on
/// Linux and Windows), else the official URL.
pub fn install_hint_for(platform: InstallPlatform, target: InstallTarget) -> (r: String)
    ensures
        r@ == spec_install_hint(platform, target),
{
    let mut out: Vec<char> = Vec::new();
    let pkg = match platform {
        InstallPlatform::Macos => target.brew,
        InstallPlatform::Linux => target.apt,
        InstallPlatform::Windows => target.winget,
        InstallPlatform::Other => None,
    };
    match (platform, pkg) {
        (InstallPlatform::Macos, Some(p)) => {
            push_lit(&mut out, "brew install ");
            push_lit(&mut out, p);
        },
        (InstallPlatform::Linux, Some(p)) => {
            push_lit(&mut out, "sudo apt install ");
            push_lit(&mut out, p);
            push_lit(&mut out, " (or ");
            push_lit(&mut out, target.url);
            push_lit(&mut out, ")");
        },
        (InstallPlatform::Windows, Some(p)) => {
            push_lit(&mut out, "winget install ");
            push_lit(&mut out, p);
            push_lit(&mut out, " (or ");
            push_lit(&mut out, target.url);
            push_lit(&mut out, ")");
        },
        _ => {
            push_lit(&mut out, "install from ");
            push_lit(&mut out, target.url);
        },
    }
    string_of(&out)
}

// ── source specs ────────────────────────────────────────────────────────────

/// First index `k >= i` where `p` occurs in `s`, or `-1`.
pub open spec fn find_sub_from(s: Seq<char>, p: Seq<char>, i: int) -> int
    decreases s.len() - i,
{
    if i < 0 || i > s.len() {
        -1
    } else if starts_with(s.skip(i), p) {
        i
    } else if i == s.len() {
        -1
    } else {
        find_sub_from(s, p, i + 1)
    }
}

/// `str::find` of a substring: index of its first occurrence, or `-1`.
pub open spec fn find_sub(s: Seq<char>, p: Seq<char>) -> int {
    find_sub_from(s, p, 0)
}

proof fn lemma_find_sub_from(s: Seq<char>, p: Seq<char>, i: int)
    requires
        0 <= i <= s.len(),
    ensures
        find_sub_from(s, p, i) == -1 || i <= find_sub_from(s, p, i) <= s.len(),
        find_sub_from(s, p, i) >= 0 ==> starts_with(s.skip(find_sub_from(s, p, i)), p),
    decreases s.len() - i,
{
    if !starts_with(s.skip(i), p) && i < s.len() {
        lemma_find_sub_from(s, p, i + 1);
    }
}

fn find_lit(s: &Vec<char>, lit: &str) -> (r: Option<usize>)
    ensures
        match r {
            Some(k) => find_sub(s@, lit@) == k as int && k <= s@.len(),
            None => find_sub(s@, lit@) == -1,
        },
{
    let p = chars_of(lit);
    let mut i: usize = 0;
    loop
        invariant
            i <= s@.len(),
            p@ == lit@,
            find_sub_from(s@, p@, i as int) == find_sub(s@, p@),
        decreases s@.len() - i,
    {
        if matches_at(s, i, &p) {
            return Some(i);
        }
        if i == s.len() {
            return None;
        }
        i = i + 1;
    }
}

/// Drops every leading `c`.
pub open spec fn trim_start_char(s: Seq<char>, c: char) -> Seq<char>
    decreases s.len(),
{
    if s.len() > 0 && s[0] == c {
        trim_start_char(s.drop_first(), c)
    } else {
        s
    }
}

fn trim_start_char_exec(s: &Vec<char>, c: char) -> (r: Vec<char>)
    ensures
        r@ == trim_start_char(s@, c),
{
    let mut k: usize = 0;
    assert(s@.skip(0) == s@);
    while k < s.len() && s[k] == c
        invariant
            k <= s@.len(),
            trim_start_char(s@.skip(k as int), c) == trim_start_char(s@, c),
        decreases s@.len() - k,
    {
        assert(s@.skip(k as int).drop_first() == s@.skip(k + 1));
        k = k + 1;
    }
    let r = slice_of(s, k, s.len());
    assert(r@ == s@.skip(k as int));
    r
}

/// What `split_source_and_ref` returns: the spec is split at its last `@`
/// when that `@` comes after any `://` scheme separator and either a `/`
/// precedes it there or nothing after the scheme has a `/` (so the `@` of
/// `git+ssh://user@host/...` is not taken for a ref); the ref is what follows
/// the `@`s and must not be empty.
pub open spec fn spec_split_source_and_ref(s: Seq<char>) -> (Seq<char>, Option<Seq<char>>) {
    let idx = prev_idx(s, '@', s.len() as int);
    let f = find_sub(s, "://"@);
    let scheme_end = if f >= 0 {
        f + 3
    } else {
        0
    };
    if idx >= 0 && idx >= scheme_end {
        let after = s.skip(scheme_end);
        let before_at = after.take(idx - scheme_end);
        if has_char(before_at, '/') || !has_char(after, '/') {
            let git_ref = trim_start_char(s.skip(idx), '@');
            if git_ref.len() > 0 {
                (s.take(idx), Some(git_ref))
            } else {
                (s, None)
            }
        } else {
            (s, None)
        }
    } else {
        (s, None)
    }
}

/// Splits a source spec with an optional ref, such as
/// `github:owner/repo@v1.2.0`, into the source and the ref.
pub fn split_source_and_ref(input: &str) -> (r: (String, Option<String>))
    ensures
        (r.0@, match r.1 {
            Some(x) => Some(x@),
            None => None,
        }) == spec_split_source_and_ref(input@),
{
    let s = chars_of(input);
    proof {
        lemma_prev_idx(s@, '@', s@.len() as int);
    }
    if let Some(idx) = rfind_char(&s, '@') {
        let f = find_lit(&s, "://");
        let scheme_end: usize = match f {
            Some(k) => {
                proof {
                    lemma_find_sub_from(s@, "://"@, 0);
                    reveal_strlit("://");
                    assert(starts_with(s@.skip(k as int), "://"@));
                    assert("://"@.len() == 3);
                    assert(k + 3 <= s@.len());
                }
                let n = s.len();
                assert(k + 3 <= n);
                k + 3
            },
            None => 0,
        };
        if idx >= scheme_end {
            let after = slice_of(&s, scheme_end, s.len());
            let at_in_after = idx - scheme_end;
            let before_at = slice_of(&after, 0, at_in_after);
            assert(before_at@ == after@.take(at_in_after as int));
            if contains_char(&before_at, '/') || !contains_char(&after, '/') {
                let rest = slice_of(&s, idx, s.len());
                let git_ref = trim_start_char_exec(&rest, '@');
                if git_ref.len() > 0 {
                    let src = slice_of(&s, 0, idx);
                    return (string_of(&src), Some(string_of(&git_ref)));
                }
            }
        }
    }
    (input.to_owned(), None)
}

/// Removes `p` from the end of `s` as often as it occurs there
/// (`str::trim_end_matches` with a string pattern).
pub open spec fn trim_end_all(s: Seq<char>, p: Seq<char>) -> Seq<char>
    decreases s.len(),
{
    if p.len() > 0 && ends_with(s, p) {
        trim_end_all(s.take(s.len() - p.len()), p)
    } else {
        s
    }
}

pub(crate) fn trim_end_all_lit(s: &Vec<char>, lit: &str) -> (r: Vec<char>)
    requires
        lit@.len() > 0,
    ensures
        r@ == trim_end_all(s@, lit@),
{
    let mut cur = slice_of(s, 0, s.len());
    assert(s@.subrange(0, s@.len() as int) == s@);
    let n = lit.unicode_len();
    while ends_with_lit(&cur, lit)
        invariant
            n as nat == lit@.len(),
            n > 0,
            trim_end_all(cur@, lit@) == trim_end_all(s@, lit@),
        decreases cur@.len(),
    {
        cur = slice_of(&cur, 0, cur.len() - n);
    }
    cur
}

/// Number of occurrences of `c` in `s`.
pub open spec fn count_char(s: Seq<char>, c: char) -> nat
    decreases s.len(),
{
    if s.len() == 0 {
        0
    } else {
        count_char(s.drop_last(), c) + if s.last() == c {
            1nat
        } else {
            0nat
        }
    }
}

fn count_char_exec(s: &Vec<char>, c: char) -> (r: usize)
    ensures
        r as nat == count_char(s@, c),
{
    let mut n: usize = 0;
    let mut k: usize = 0;
    while k < s.len()
        invariant
            k <= s@.len(),
            n <= k,
            n as nat == count_char(s@.take(k as int), c),
        decreases s@.len() - k,
    {
        assert(s@.take(k + 1).drop_last() == s@.take(k as int));
        if s[k] == c {
            n = n + 1;
        }
        k = k + 1;
    }
    assert(s@.take(s@.len() as int) == s@);
    n
}

/// `owner/repo`: exactly one `/` and not empty.
pub open spec fn is_owner_repo(rest: Seq<char>) -> bool {
    count_char(rest, '/') == 1 && rest.len() > 0
}

/// The pack source spec for a git remote URL: `github:owner/repo` for a
/// GitHub URL (https or ssh form, any trailing `.git` dropped), `git+<url>`
/// for other https/http/ssh/file URLs, and the URL unchanged otherwise.
pub open spec fn spec_git_source_spec(url: Seq<char>) -> Seq<char> {
    let stripped = trim_end_all(url, ".git"@);
    let gh1 = strip_prefix(stripped, "https://github.com/"@);
    let gh2 = strip_prefix(stripped, "git@github.com:"@);
    if gh1 is Some && is_owner_repo(gh1->0) {
        "github:"@ + gh1->0
    } else if gh2 is Some && is_owner_repo(gh2->0) {
        "github:"@ + gh2->0
    } else if starts_with(url, "https://"@) || starts_with(url, "http://"@) || starts_with(
        url,
        "ssh://"@,
    ) || starts_with(url, "file://"@) {
        "git+"@ + url
    } else {
        url
    }
}

/// Converts a raw remote URL into the pack source-spec scheme.
pub fn format_git_source_spec(url: &str) -> (r: String)
    ensures
        r@ == spec_git_source_spec(url@),
{
    let u = chars_of(url);
    proof {
        reveal_strlit(".git");
    }
    let stripped = trim_end_all_lit(&u, ".git");
    if let Some(rest) = strip_prefix_lit(&stripped, "https://github.com/") {
        if count_char_exec(&rest, '/') == 1 && rest.len() > 0 {
            let mut out = chars_of("github:");
            push_all(&mut out, &rest);
            return string_of(&out);
        }
    }
    if let Some(rest) = strip_prefix_lit(&stripped, "git@github.com:") {
        if count_char_exec(&rest, '/') == 1 && rest.len() > 0 {
            let mut out = chars_of("github:");
            push_all(&mut out, &rest);
            return string_of(&out);
        }
    }
    if starts_with_lit(&u, "https://") || starts_with_lit(&u, "http://") || starts_with_lit(
        &u,
        "ssh://",
    ) || starts_with_lit(&u, "file://") {
        let mut out = chars_of("git+");
        push_all(&mut out, &u);
        return string_of(&out);
    }
    url.to_owned()
}

proof fn lemma_trim_end_all_is_prefix(s: Seq<char>, p: Seq<char>)
    ensures
        trim_end_all(s, p).len() <= s.len(),
        s.take(trim_end_all(s, p).len() as int) == trim_end_all(s, p),
    decreases s.len(),
{
    if p.len() > 0 && ends_with(s, p) {
        let t = s.take(s.len() - p.len());
        lemma_trim_end_all_is_prefix(t, p);
        let r = trim_end_all(t, p);
        assert(s.take(r.len() as int) =~= t.take(r.len() as int));
    } else {
        assert(s.take(s.len() as int) =~= s);
    }
}

/// A prefix of a text that starts with `p` makes the text start with `p`.
proof fn lemma_starts_with_through_prefix(t: Seq<char>, url: Seq<char>, p: Seq<char>)
    requires
        t.len() <= url.len(),
        url.take(t.len() as int) == t,
        starts_with(t, p),
    ensures
        starts_with(url, p),
{
    assert(url.take(p.len() as int) =~= t.take(p.len() as int));
}

/// A remote under the `https`, `http`, `ssh` or `file` scheme that is not a
/// GitHub web URL is recorded as `git+` followed by the URL itself, so that
/// a reinstall goes through the git cloner.
pub proof fn lemma_scheme_urls_record_git_plus(url: Seq<char>)
    requires
        starts_with(url, "https://"@) || starts_with(url, "http://"@) || starts_with(url, "ssh://"@)
            || starts_with(url, "file://"@),
        !starts_with(url, "https://github.com/"@),
    ensures
        spec_git_source_spec(url) == "git+"@ + url,
{
    reveal_strlit("https://");
    reveal_strlit("http://");
    reveal_strlit("ssh://");
    reveal_strlit("file://");
    reveal_strlit("https://github.com/");
    reveal_strlit("git@github.com:");
    reveal_strlit(".git");
    let stripped = trim_end_all(url, ".git"@);
    lemma_trim_end_all_is_prefix(url, ".git"@);
    if starts_with(stripped, "https://github.com/"@) {
        lemma_starts_with_through_prefix(stripped, url, "https://github.com/"@);
    }
    if starts_with(stripped, "git@github.com:"@) {
        lemma_starts_with_through_prefix(stripped, url, "git@github.com:"@);
        assert(url[0] == url.take(15)[0]);
        assert(url[0] == 'g');
        assert(url[0] == url.take(6)[0]);
    }
    assert(strip_prefix(stripped, "https://github.com/"@) is None);
    assert(strip_prefix(stripped, "git@github.com:"@) is None);
}

proof fn lemma_count_char_absent(s: Seq<char>, c: char)
    requires
        forall|i: int| 0 <= i < s.len() ==> s[i] != c,
    ensures
        count_char(s, c) == 0,
    decreases s.len(),
{
    if s.len() > 0 {
        lemma_count_char_absent(s.drop_last(), c);
    }
}

proof fn lemma_count_char_append(a: Seq<char>, b: Seq<char>, c: char)
    ensures
        count_char(a + b, c) == count_char(a, c) + count_char(b, c),
    decreases b.len(),
{
    if b.len() > 0 {
        lemma_count_char_append(a, b.drop_last(), c);
        assert((a + b).drop_last() =~= a + b.drop_last());
        assert((a + b).last() == b.last());
    } else {
        assert(a + b =~= a);
    }
}

/// A GitHub repository URL, web (`https://github.com/owner/repo`) or ssh
/// (`git@github.com:owner/repo`), with no trailing `.git`, is recorded in
/// the short form `github:owner/repo`.
pub proof fn lemma_github_urls_record_short_form(prefix: Seq<char>, owner: Seq<char>, repo: Seq<char>)
    requires
        prefix == "https://github.com/"@ || prefix == "git@github.com:"@,
        forall|i: int| 0 <= i < owner.len() ==> owner[i] != '/',
        forall|i: int| 0 <= i < repo.len() ==> repo[i] != '/',
        !ends_with(prefix + owner + "/"@ + repo, ".git"@),
    ensures
        spec_git_source_spec(prefix + owner + "/"@ + repo) == "github:"@ + owner + "/"@ + repo,
        spec_git_source_spec(prefix + owner + "/"@ + repo + ".git"@) == "github:"@ + owner + "/"@ + repo,
{
    reveal_strlit("https://github.com/");
    reveal_strlit("git@github.com:");
    reveal_strlit(".git");
    reveal_strlit("/");
    let url = prefix + owner + "/"@ + repo;
    let rest = owner + "/"@ + repo;
    assert(url =~= prefix + rest);
    assert(trim_end_all(url, ".git"@) == url);
    assert(url.take(prefix.len() as int) =~= prefix);
    assert(url.skip(prefix.len() as int) =~= rest);
    lemma_count_char_absent(owner, '/');
    lemma_count_char_absent(repo, '/');
    lemma_count_char_append(owner, "/"@, '/');
    lemma_count_char_append(owner + "/"@, repo, '/');
    assert(count_char("/"@, '/') == 1) by {
        reveal_strlit("/");
        assert("/"@.len() == 1);
        assert("/"@.last() == '/');
        assert("/"@.drop_last() =~= Seq::<char>::empty());
        assert(count_char(Seq::<char>::empty(), '/') == 0);
    }
    assert(is_owner_repo(rest));
    if prefix == "git@github.com:"@ {
        assert(url[0] == 'g');
        if starts_with(url, "https://github.com/"@) {
            assert(url[0] == url.take(19)[0]);
        }
    }
    let dotted = url + ".git"@;
    assert(ends_with(dotted, ".git"@)) by {
        assert(dotted.skip(dotted.len() - 4) =~= ".git"@);
    }
    assert(dotted.take(dotted.len() - 4) =~= url);
    assert(trim_end_all(dotted, ".git"@) == url);
}

/// A remote under none of the `https`, `http`, `ssh` and `file` schemes and
/// not in GitHub's ssh form is recorded as it is.
pub proof fn lemma_other_urls_recorded_as_is(url: Seq<char>)
    requires
        !starts_with(url, "https://"@),
        !starts_with(url, "http://"@),
        !starts_with(url, "ssh://"@),
        !starts_with(url, "file://"@),
        !starts_with(url, "git@github.com:"@),
    ensures
        spec_git_source_spec(url) == url,
{
    reveal_strlit("https://");
    reveal_strlit("https://github.com/");
    reveal_strlit("git@github.com:");
    reveal_strlit(".git");
    let stripped = trim_end_all(url, ".git"@);
    lemma_trim_end_all_is_prefix(url, ".git"@);
    if starts_with(stripped, "https://github.com/"@) {
        lemma_starts_with_through_prefix(stripped, url, "https://github.com/"@);
        assert(url.take(8) =~= url.take(19).take(8));
        assert("https://github.com/"@.take(8) =~= "https://"@);
    }
    if starts_with(stripped, "git@github.com:"@) {
        lemma_starts_with_through_prefix(stripped, url, "git@github.com:"@);
    }
}

/// Source and version recorded for an app that is not a git checkout:
/// `local:<id>`, with the manifest version or `bundled` when it is empty.
pub fn local_source_and_version(id: &str, version: &str) -> (r: (String, String))
    ensures
        r.0@ == "local:"@ + id@,
        r.1@ == (if version@.len() == 0 {
            "bundled"@
        } else {
            version@
        }),
{
    let mut src = chars_of("local:");
    push_lit(&mut src, id);
    let v = if version.unicode_len() == 0 {
        "bundled".to_owned()
    } else {
        version.to_owned()
    };
    (string_of(&src), v)
}

/// The `(source, version)` a pack export records for an installed app: a
/// git checkout gives its remote (`git+unknown` without one) in source-spec
/// form and its current ref, else the manifest version; any other app is
/// recorded as a local one.
pub open spec fn spec_infer_source_and_version(
    is_git_checkout: bool,
    origin_url: Option<Seq<char>>,
    current_ref: Option<Seq<char>>,
    manifest_id: Seq<char>,
    manifest_version: Seq<char>,
) -> (Seq<char>, Seq<char>) {
    if is_git_checkout {
        (
            spec_git_source_spec(
                match origin_url {
                    Some(u) => u,
                    None => "git+unknown"@,
                },
            ),
            match current_ref {
                Some(r) => r,
                None => manifest_version,
            },
        )
    } else {
        (
            "local:"@ + manifest_id,
            if manifest_version.len() == 0 {
                "bundled"@
            } else {
                manifest_version
            },
        )
    }
}

pub fn infer_source_and_version(
    is_git_checkout: bool,
    origin_url: Option<&str>,
    current_ref: Option<&str>,
    manifest_id: &str,
    manifest_version: &str,
) -> (r: (String, String))
    ensures
        (r.0@, r.1@) == spec_infer_source_and_version(
            is_git_checkout,
            match origin_url {
                Some(u) => Some(u@),
                None => None,
            },
            match current_ref {
                Some(c) => Some(c@),
                None => None,
            },
            manifest_id@,
            manifest_version@,
        ),
{
    if is_git_checkout {
        let source = match origin_url {
            Some(u) => format_git_source_spec(u),
            None => format_git_source_spec("git+unknown"),
        };
        let version = match current_ref {
            Some(c) => c.to_owned(),
            None => manifest_version.to_owned(),
        };
        (source, version)
    } else {
        local_source_and_version(manifest_id, manifest_version)
    }
}

/// An app whose entry ends in `.py` gets a per-app Python environment.
pub fn is_python_entry(entry: &str) -> (r: bool)
    ensures
        r == ends_with(entry@, ".py"@),
{
    let e = chars_of(entry);
    ends_with_lit(&e, ".py")
}

// ── captured subprocess output ──────────────────────────────────────────────

/// Captured result of a bounded subprocess run.
pub struct Captured {
    /// Did the process exit successfully?
    pub success: bool,
    pub stdout: String,
    pub stderr: String,
}

impl Captured {
    /// Help text: stdout, unless it is blank, then stderr (many CLIs print
    /// `--help` to stderr).
    pub fn help_text(&self) -> (r: String)
        ensures
            r@ == (if trim(self.stdout@).len() == 0 {
                self.stderr@
            } else {
                self.stdout@
            }),
    {
        let out = chars_of(self.stdout.as_str());
        let t = trim_chars(&out);
        if t.len() == 0 {
            self.stderr.clone()
        } else {
            self.stdout.clone()
        }
    }
}


// ── install outcomes ────────────────────────────────────────────────────────

/// What happened to one app entry.
#[derive(Debug, Clone, PartialEq, Eq)]
pub enum InstallStatus {
    /// Newly installed at the given path.
    Installed(String),
    /// A bundled app re-extracted in place, at the given path.
    Refreshed(String),
    /// Already present at the requested version.
    AlreadyAtVersion,
    /// Installed at another version; left alone.
    SkippedOtherVersion { installed: String, requested: String },
    /// Installation failed, with the reason.
    Failed(String),
}

/// The outcome for one app id.
#[derive(Debug, Clone)]
pub struct InstallOutcome {
    pub id: String,
    pub status: InstallStatus,
}

/// Git operations the installer needs.  What git answers is up to the
/// repository and the network; `pulled` names the answers a pull may give,
/// so that a caller can say which pull its result came from (an
/// implementation may state more; by default any answer).
pub trait Cloner {
    /// Whether `r` is an answer this cloner may give to a pull of `repo_dir`.
    open spec fn pulled(&self, repo_dir: Seq<char>, r: Result<(), String>) -> bool {
        true
    }

    fn clone(&self, url: &str, target_dir: &str) -> Result<(), String>;

    fn checkout(&self, repo_dir: &str, git_ref: &str) -> Result<(), String>;

    /// Pull the checkout at `repo_dir`.
    fn pull(&self, repo_dir: &str) -> (r: Result<(), String>)
        ensures
            self.pulled(repo_dir@, r),
    ;
}

/// A pack entry already installed needs no install: `AlreadyAtVersion` at
/// the requested version, `SkippedOtherVersion` at another; none when it is
/// not installed.
pub fn installed_entry_status(id: &String, requested: &String, installed: Option<&String>) -> (r: Option<InstallOutcome>)
    ensures
        match installed {
            None => r is None,
            Some(v) => r matches Some(o) && o.id@ == id@ && if v@ == requested@ {
                o.status == InstallStatus::AlreadyAtVersion
            } else {
                o.status matches InstallStatus::SkippedOtherVersion { installed: i, requested: q } && i@ == v@ && q@ == requested@
            },
        },
{
    match installed {
        None => None,
        Some(v) => {
            let vc = chars_of(v.as_str());
            let rc = chars_of(requested.as_str());
            let status = if crate::text::eq_chars(&vc, &rc) {
                InstallStatus::AlreadyAtVersion
            } else {
                InstallStatus::SkippedOtherVersion { installed: v.clone(), requested: requested.clone() }
            };
            Some(InstallOutcome { id: id.clone(), status })
        },
    }
}

/// Where a pack entry's app comes from.
#[derive(Debug, Clone, PartialEq, Eq)]
pub enum SourceSpec {
    /// A git repository, by URL.
    Git(String),
    /// An app bundled with Plexi, by name.
    Local(String),
}

/// What applying one pack entry does next: report an outcome at once, or
/// install from its source (at the entry's version for a git source).
#[derive(Debug, Clone)]
pub enum PackEntryStep {
    Done(InstallOutcome),
    Install { git_ref: Option<String> },
}

/// Applying a pack entry: an installed app is reported (up to date or
/// skipped); a source that does not parse fails the entry; otherwise the
/// app is installed, at the entry's version when its source is git.
pub fn pack_entry_step(id: &String, version: &String, installed: Option<&String>, source: &Result<SourceSpec, String>) -> (r: PackEntryStep)
    ensures
        match installed {
            Some(v) => r matches PackEntryStep::Done(o) && o.id@ == id@ && if v@ == version@ {
                o.status == InstallStatus::AlreadyAtVersion
            } else {
                o.status matches InstallStatus::SkippedOtherVersion { installed: i, requested: q } && i@ == v@
                    && q@ == version@
            },
            None => match source {
                Err(e) => r matches PackEntryStep::Done(o) && o.id@ == id@ && o.status == InstallStatus::Failed(*e),
                Ok(SourceSpec::Git(_)) => r matches PackEntryStep::Install { git_ref: Some(g) } && g@ == version@,
                Ok(SourceSpec::Local(_)) => r matches PackEntryStep::Install { git_ref: None },
            },
        },
{
    match installed_entry_status(id, version, installed) {
        Some(o) => PackEntryStep::Done(o),
        None => match source {
            Err(e) => PackEntryStep::Done(InstallOutcome { id: id.clone(), status: InstallStatus::Failed(e.clone()) }),
            Ok(SourceSpec::Git(_)) => PackEntryStep::Install { git_ref: Some(version.clone()) },
            Ok(SourceSpec::Local(_)) => PackEntryStep::Install { git_ref: None },
        },
    }
}

/// The outcome of a pack entry once its install ran: the install's own
/// outcome, or the entry failed with the install's error.
pub fn pack_entry_finish(id: &String, result: Result<InstallOutcome, String>) -> (r: InstallOutcome)
    ensures
        match result {
            Ok(o) => r.id == o.id && r.status == o.status,
            Err(e) => r.id@ == id@ && r.status == InstallStatus::Failed(e),
        },
{
    match result {
        Ok(o) => o,
        Err(e) => InstallOutcome { id: id.clone(), status: InstallStatus::Failed(e) },
    }
}

/// `plexi update apps`: an app that is not installed, or is not a git
/// checkout (a bundled app), is refused; otherwise its checkout is pulled.
pub fn update_one<C: Cloner>(cloner: &C, id: &str, dest: &str, dest_exists: bool, is_git_checkout: bool) -> (r: Result<(), String>)
    ensures
        !dest_exists ==> (r matches Err(e) && e@ == "'"@ + id@ + "' is not installed at "@ + dest@),
        dest_exists && !is_git_checkout ==> (r matches Err(e) && e@ == "not a git checkout (likely bundled core app)"@),
        dest_exists && is_git_checkout ==> cloner.pulled(dest@, r),
{
    if !dest_exists {
        let mut e: Vec<char> = Vec::new();
        push_lit(&mut e, "'");
        push_lit(&mut e, id);
        push_lit(&mut e, "' is not installed at ");
        push_lit(&mut e, dest);
        return Err(string_of(&e));
    }
    if !is_git_checkout {
        return Err("not a git checkout (likely bundled core app)".to_owned());
    }
    cloner.pull(dest)
}

/// The line printed for an outcome, and whether it reports a failure.
pub open spec fn spec_outcome_line(id: Seq<char>, st: InstallStatus) -> (bool, Seq<char>) {
    match st {
        InstallStatus::Installed(p) => (false, "  installed  "@ + pad_right(id, 30) + " → "@ + p@),
        InstallStatus::Refreshed(p) => (false, "  refreshed  "@ + pad_right(id, 30) + " → "@ + p@),
        InstallStatus::AlreadyAtVersion => (false, "  up-to-date "@ + pad_right(id, 30)),
        InstallStatus::SkippedOtherVersion { installed, requested } => (
            false,
            "  skipped    "@ + pad_right(id, 30) + " (installed "@ + installed@ + ", requested "@ + requested@
                + ")"@,
        ),
        InstallStatus::Failed(m) => (true, "  FAILED     "@ + pad_right(id, 30) + " "@ + m@),
    }
}

pub fn outcome_line(o: &InstallOutcome) -> (r: (bool, String))
    ensures
        (r.0, r.1@) == spec_outcome_line(o.id@, o.status),
{
    let mut out: Vec<char> = Vec::new();
    let padded = pad_right_of(o.id.as_str(), 30);
    let failed = match &o.status {
        InstallStatus::Installed(p) => {
            push_lit(&mut out, "  installed  ");
            push_all(&mut out, &padded);
            push_lit(&mut out, " → ");
            push_lit(&mut out, p.as_str());
            false
        },
        InstallStatus::Refreshed(p) => {
            push_lit(&mut out, "  refreshed  ");
            push_all(&mut out, &padded);
            push_lit(&mut out, " → ");
            push_lit(&mut out, p.as_str());
            false
        },
        InstallStatus::AlreadyAtVersion => {
            push_lit(&mut out, "  up-to-date ");
            push_all(&mut out, &padded);
            false
        },
        InstallStatus::SkippedOtherVersion { installed, requested } => {
            push_lit(&mut out, "  skipped    ");
            push_all(&mut out, &padded);
            push_lit(&mut out, " (installed ");
            push_lit(&mut out, installed.as_str());
            push_lit(&mut out, ", requested ");
            push_lit(&mut out, requested.as_str());
            push_lit(&mut out, ")");
            false
        },
        InstallStatus::Failed(m) => {
            push_lit(&mut out, "  FAILED     ");
            push_all(&mut out, &padded);
            push_lit(&mut out, " ");
            push_lit(&mut out, m.as_str());
            true
        },
    };
    (failed, string_of(&out))
}

/// What `plexi app install <source>` reports for the app's outcome: lines
/// for stdout, lines for stderr, a tip, and the exit code.
pub open spec fn spec_install_report(id: Seq<char>, st: InstallStatus) -> (Seq<Seq<char>>, Seq<Seq<char>>, Option<Seq<char>>, i32) {
    match st {
        InstallStatus::Installed(p) => (
            seq!["installed '"@ + id + "' at "@ + p@],
            seq![],
            Some("open your app with `plexi app open "@ + id + "`."@),
            0i32,
        ),
        InstallStatus::Refreshed(p) => (seq!["refreshed '"@ + id + "' at "@ + p@], seq![], None, 0i32),
        InstallStatus::AlreadyAtVersion => (seq!["already at requested version"@], seq![], None, 0i32),
        InstallStatus::SkippedOtherVersion { installed, requested } => (
            seq![],
            seq![
                "'"@ + id + "' already installed at "@ + installed@ + " (requested "@ + requested@
                    + "); uninstall first or use `plexi update apps`"@,
            ],
            None,
            1i32,
        ),
        InstallStatus::Failed(m) => (seq![], seq!["error: "@ + m@], None, 1i32),
    }
}

fn text_of(parts: &Vec<char>) -> (r: Vec<String>)
    ensures
        crate::text::texts_of(r@) == seq![parts@],
{
    let mut v: Vec<String> = Vec::new();
    v.push(string_of(parts));
    assert(crate::text::texts_of(v@) =~= seq![parts@]);
    v
}

pub fn install_report(o: &InstallOutcome) -> (r: (Vec<String>, Vec<String>, Option<String>, i32))
    ensures
        (crate::text::texts_of(r.0@), crate::text::texts_of(r.1@), opt_text(r.2), r.3) == spec_install_report(o.id@, o.status),
{
    let none: Vec<String> = Vec::new();
    assert(crate::text::texts_of(none@) =~= Seq::<Seq<char>>::empty());
    let mut line: Vec<char> = Vec::new();
    match &o.status {
        InstallStatus::Installed(p) => {
            push_lit(&mut line, "installed '");
            push_lit(&mut line, o.id.as_str());
            push_lit(&mut line, "' at ");
            push_lit(&mut line, p.as_str());
            let mut tip: Vec<char> = Vec::new();
            push_lit(&mut tip, "open your app with `plexi app open ");
            push_lit(&mut tip, o.id.as_str());
            push_lit(&mut tip, "`.");
            (text_of(&line), none, Some(string_of(&tip)), 0)
        },
        InstallStatus::Refreshed(p) => {
            push_lit(&mut line, "refreshed '");
            push_lit(&mut line, o.id.as_str());
            push_lit(&mut line, "' at ");
            push_lit(&mut line, p.as_str());
            (text_of(&line), none, None, 0)
        },
        InstallStatus::AlreadyAtVersion => {
            push_lit(&mut line, "already at requested version");
            (text_of(&line), none, None, 0)
        },
        InstallStatus::SkippedOtherVersion { installed, requested } => {
            push_lit(&mut line, "'");
            push_lit(&mut line, o.id.as_str());
            push_lit(&mut line, "' already installed at ");
            push_lit(&mut line, installed.as_str());
            push_lit(&mut line, " (requested ");
            push_lit(&mut line, requested.as_str());
            push_lit(&mut line, "); uninstall first or use `plexi update apps`");
            (none, text_of(&line), None, 1)
        },
        InstallStatus::Failed(m) => {
            push_lit(&mut line, "error: ");
            push_lit(&mut line, m.as_str());
            (none, text_of(&line), None, 1)
        },
    }
}

/// The exit status of a pack apply: 1 when any entry failed.
pub fn outcomes_exit_code(outcomes: &Vec<InstallOutcome>) -> (r: i32)
    ensures
        r == if exists|i: int| 0 <= i < outcomes@.len() && (#[trigger] outcomes@[i]).status is Failed {
            1i32
        } else {
            0i32
        },
{
    let mut i: usize = 0;
    while i < outcomes.len()
        invariant
            i <= outcomes@.len(),
            forall|j: int| 0 <= j < i ==> !((#[trigger] outcomes@[j]).status is Failed),
        decreases outcomes@.len() - i,
    {
        match &outcomes[i].status {
            InstallStatus::Failed(_) => {
                return 1;
            },
            _ => {},
        }
        i = i + 1;
    }
    0
}

// ── uninstalling ────────────────────────────────────────────────────────────

/// The text `str::to_lowercase` gives for `s`.
pub uninterp spec fn lowercase_of(s: Seq<char>) -> Seq<char>;

/// `str::to_lowercase`.  On ASCII text it lowercases `A`..`Z` and keeps
/// every other character, as the std documentation states.
#[verifier::external_body]
pub(crate) fn str_to_lowercase(s: &str) -> (r: String)
    ensures
        r@ == lowercase_of(s@),
        (forall|i: int| 0 <= i < s@.len() ==> (s@[i] as u32) < 128) ==> r@ == crate::watch::ascii_lower_str(s@),
{
    s.to_lowercase()
}

/// The answer to "keep your data?": yes keeps, no removes, anything else
/// aborts (`None`); the answer is trimmed and lowercased first.
pub open spec fn spec_keep_answer(answer: Seq<char>) -> Option<bool> {
    let a = lowercase_of(trim(answer));
    if a == "y"@ || a == "yes"@ {
        Some(true)
    } else if a == "n"@ || a == "no"@ {
        Some(false)
    } else {
        None
    }
}

pub fn keep_data_answer(answer: &str) -> (r: Option<bool>)
    ensures
        r == spec_keep_answer(answer@),
{
    let c = chars_of(answer);
    let t = trim_chars(&c);
    let ts = string_of(&t);
    let lower = str_to_lowercase(ts.as_str());
    let l = chars_of(lower.as_str());
    if eq_lit(&l, "y") || eq_lit(&l, "yes") {
        Some(true)
    } else if eq_lit(&l, "n") || eq_lit(&l, "no") {
        Some(false)
    } else {
        None
    }
}

/// Whether to keep the profile data: the flag, or no profile to remove,
/// decides at once (as the flag); `--yes` removes; else the user is asked.
pub fn keep_data_decision(keep_flag: bool, profile_exists: bool, assume_yes: bool) -> (r: Option<bool>)
    ensures
        r == if keep_flag || !profile_exists {
            Some(keep_flag)
        } else if assume_yes {
            Some(false)
        } else {
            None::<bool>
        },
{
    if keep_flag || !profile_exists {
        Some(keep_flag)
    } else if assume_yes {
        Some(false)
    } else {
        None
    }
}

/// What uninstalling a channel touches: its profile directory name, app
/// bundle and CLI binary.
pub open spec fn spec_uninstall_paths(channel: Option<Seq<char>>) -> (Seq<char>, Seq<char>, Seq<char>) {
    let suffix = match channel {
        Some(c) => "-"@ + c,
        None => seq![],
    };
    (
        ".plexi"@ + suffix,
        "/Applications/Plexi"@ + spec_bundle_cap(channel) + ".app"@,
        "/usr/local/bin/plexi"@ + suffix,
    )
}

pub fn uninstall_paths(channel: Option<&str>) -> (r: (String, String, String))
    ensures
        (r.0@, r.1@, r.2@) == spec_uninstall_paths(
            match channel {
                Some(c) => Some(c@),
                None => None,
            },
        ),
{
    let mut suffix: Vec<char> = Vec::new();
    match channel {
        Some(c) => {
            push_lit(&mut suffix, "-");
            push_lit(&mut suffix, c);
        },
        None => {},
    }
    let mut profile: Vec<char> = Vec::new();
    push_lit(&mut profile, ".plexi");
    push_all(&mut profile, &suffix);
    let cap = channel_bundle_cap(channel);
    let mut bundle: Vec<char> = Vec::new();
    push_lit(&mut bundle, "/Applications/Plexi");
    push_lit(&mut bundle, cap.as_str());
    push_lit(&mut bundle, ".app");
    let mut bin: Vec<char> = Vec::new();
    push_lit(&mut bin, "/usr/local/bin/plexi");
    push_all(&mut bin, &suffix);
    (string_of(&profile), string_of(&bundle), string_of(&bin))
}


// ── pack export ─────────────────────────────────────────────────────────────

/// An installed app as a pack records it: id, source spec, version.
pub open spec fn pack_row(r: (String, String, String)) -> (Seq<char>, Seq<char>, Seq<char>) {
    (r.0@, r.1@, r.2@)
}

pub open spec fn pack_rows(rs: Seq<(String, String, String)>) -> Seq<(Seq<char>, Seq<char>, Seq<char>)> {
    rs.map_values(|r: (String, String, String)| pack_row(r))
}

/// Where a row with this id joins rows in id order, from index `p` on: at
/// the first row whose id is greater.
pub open spec fn join_at_from(sorted: Seq<(Seq<char>, Seq<char>, Seq<char>)>, id: Seq<char>, p: int) -> int
    decreases sorted.len() - p,
{
    if p < 0 || p >= sorted.len() {
        sorted.len() as int
    } else if str_lt(id, sorted[p].0) {
        p
    } else {
        join_at_from(sorted, id, p + 1)
    }
}

/// The rows in ascending id order; rows with equal ids keep their order
/// (a stable sort by id).
pub open spec fn by_id(rows: Seq<(Seq<char>, Seq<char>, Seq<char>)>) -> Seq<(Seq<char>, Seq<char>, Seq<char>)>
    decreases rows.len(),
{
    if rows.len() == 0 {
        seq![]
    } else {
        let s = by_id(rows.drop_last());
        s.insert(join_at_from(s, rows.last().0, 0), rows.last())
    }
}

proof fn lemma_join_at_bounds(s: Seq<(Seq<char>, Seq<char>, Seq<char>)>, id: Seq<char>, p: int)
    requires
        0 <= p <= s.len(),
    ensures
        p <= join_at_from(s, id, p) <= s.len(),
        forall|k: int| p <= k < join_at_from(s, id, p) ==> !str_lt(id, #[trigger] s[k].0),
        join_at_from(s, id, p) < s.len() ==> str_lt(id, s[join_at_from(s, id, p)].0),
    decreases s.len() - p,
{
    if p < s.len() && !str_lt(id, s[p].0) {
        lemma_join_at_bounds(s, id, p + 1);
    }
}

proof fn lemma_by_id_len(rows: Seq<(Seq<char>, Seq<char>, Seq<char>)>)
    ensures
        by_id(rows).len() == rows.len(),
    decreases rows.len(),
{
    if rows.len() > 0 {
        lemma_by_id_len(rows.drop_last());
        lemma_join_at_bounds(by_id(rows.drop_last()), rows.last().0, 0);
    }
}

/// The rows sorted by id, stably.
pub fn sort_pack_rows(rows: &Vec<(String, String, String)>) -> (r: Vec<(String, String, String)>)
    ensures
        pack_rows(r@) == by_id(pack_rows(rows@)),
{
    let ghost rv = pack_rows(rows@);
    let mut out: Vec<(String, String, String)> = Vec::new();
    let mut i: usize = 0;
    assert(pack_rows(out@) =~= by_id(rv.take(0)));
    while i < rows.len()
        invariant
            i <= rows@.len(),
            rv == pack_rows(rows@),
            pack_rows(out@) == by_id(rv.take(i as int)),
        decreases rows@.len() - i,
    {
        let ghost s = pack_rows(out@);
        let idc = chars_of(rows[i].0.as_str());
        let mut p: usize = 0;
        proof {
            lemma_by_id_len(rv.take(i as int));
            assert(s.len() == out@.len());
        }
        while p < out.len()
            invariant
                p <= out@.len(),
                s == pack_rows(out@),
                s.len() == out@.len(),
                i < rows@.len(),
                idc@ == rows@[i as int].0@,
                join_at_from(s, idc@, p as int) == join_at_from(s, idc@, 0),
            ensures
                p <= out@.len(),
                s == pack_rows(out@),
                p as int == join_at_from(s, idc@, 0),
            decreases out@.len() - p,
        {
            let oc = chars_of(out[p].0.as_str());
            assert(oc@ == s[p as int].0);
            if str_less(&idc, &oc) {
                break;
            }
            p = p + 1;
        }
        let row = (rows[i].0.clone(), rows[i].1.clone(), rows[i].2.clone());
        let ghost rowv = pack_row(row);
        out.insert(p, row);
        proof {
            assert(rowv == rv[i as int]);
            assert(rv.take(i + 1).drop_last() =~= rv.take(i as int));
            assert(rv.take(i + 1).last() == rv[i as int]);
            assert(pack_rows(out@) =~= s.insert(p as int, rowv));
        }
        i = i + 1;
    }
    assert(rv.take(rows@.len() as int) =~= rv);
    out
}

/// One app in a pack file.
pub open spec fn pack_entry(r: (Seq<char>, Seq<char>, Seq<char>)) -> Seq<char> {
    "[[app]]\nid      = \""@ + r.0 + "\"\nsource  = \""@ + r.1 + "\"\nversion = \""@ + r.2 + "\"\n\n"@
}

pub open spec fn pack_entries(rows: Seq<(Seq<char>, Seq<char>, Seq<char>)>) -> Seq<char>
    decreases rows.len(),
{
    if rows.len() == 0 {
        seq![]
    } else {
        pack_entries(rows.drop_last()) + pack_entry(rows.last())
    }
}

/// The pack file `plexi pack export` writes for the installed apps: a
/// comment line, the schema version, then one `[[app]]` table per app in
/// id order.
pub open spec fn spec_pack_text(rows: Seq<(Seq<char>, Seq<char>, Seq<char>)>) -> Seq<char> {
    "# Generated by `plexi pack export`. Edit freely.\nschema_version = 1\n\n"@ + pack_entries(by_id(rows))
}

pub fn pack_text(rows: &Vec<(String, String, String)>) -> (r: String)
    ensures
        r@ == spec_pack_text(pack_rows(rows@)),
{
    let sorted = sort_pack_rows(rows);
    let ghost sv = pack_rows(sorted@);
    let mut out: Vec<char> = Vec::new();
    push_lit(&mut out, "# Generated by `plexi pack export`. Edit freely.\nschema_version = 1\n\n");
    let ghost head = out@;
    let mut i: usize = 0;
    while i < sorted.len()
        invariant
            i <= sorted@.len(),
            sv == pack_rows(sorted@),
            out@ == head + pack_entries(sv.take(i as int)),
        decreases sorted@.len() - i,
    {
        push_lit(&mut out, "[[app]]\nid      = \"");
        push_lit(&mut out, sorted[i].0.as_str());
        push_lit(&mut out, "\"\nsource  = \"");
        push_lit(&mut out, sorted[i].1.as_str());
        push_lit(&mut out, "\"\nversion = \"");
        push_lit(&mut out, sorted[i].2.as_str());
        push_lit(&mut out, "\"\n\n");
        proof {
            assert(sv.take(i + 1).drop_last() =~= sv.take(i as int));
            assert(sv.take(i + 1).last() == sv[i as int]);
        }
        i = i + 1;
    }
    assert(sv.take(sorted@.len() as int) =~= sv);
    string_of(&out)
}

/// Whether a directory under the apps root is exported: staging
/// directories an interrupted install leaves (`.tmp-install-*`) are not.
pub fn is_export_candidate(dir_name: &str) -> (r: bool)
    ensures
        r == !starts_with(dir_name@, ".tmp-install-"@),
{
    let cs = chars_of(dir_name);
    !starts_with_lit(&cs, ".tmp-install-")
}


/// A pack export keeps every installed app, as often as it was given, and
/// lists them in ascending id order.
pub proof fn lemma_pack_order(rows: Seq<(Seq<char>, Seq<char>, Seq<char>)>)
    ensures
        by_id(rows).to_multiset() == rows.to_multiset(),
        forall|i: int, j: int|
            0 <= i < j < by_id(rows).len() ==> !str_lt(#[trigger] by_id(rows)[j].0, #[trigger] by_id(rows)[i].0),
    decreases rows.len(),
{
    if rows.len() == 0 {
        assert(by_id(rows) =~= rows);
    } else {
        let r = rows.last();
        let s = by_id(rows.drop_last());
        lemma_pack_order(rows.drop_last());
        lemma_by_id_len(rows.drop_last());
        lemma_join_at_bounds(s, r.0, 0);
        let p = join_at_from(s, r.0, 0);
        let n = s.insert(p, r);
        assert(by_id(rows) == n);
        vstd::seq_lib::to_multiset_insert(s, p, r);
        vstd::seq_lib::to_multiset_build(rows.drop_last(), r);
        assert(rows.drop_last().push(r) =~= rows);
        assert forall|i: int, j: int| 0 <= i < j < n.len() implies !str_lt(#[trigger] n[j].0, #[trigger] n[i].0) by {
            if j < p {
                assert(n[i] == s[i] && n[j] == s[j]);
            } else if j == p {
                assert(n[i] == s[i] && n[j] == r);
                lemma_str_lt_order(r.0, s[i].0, s[i].0);
            } else if i < p {
                assert(n[i] == s[i] && n[j] == s[j - 1]);
            } else if i == p {
                assert(n[i] == r && n[j] == s[j - 1]);
                let a = s[p].0;
                let b = s[j - 1].0;
                assert(str_lt(r.0, a));
                if j - 1 > p {
                    assert(!str_lt(b, a));
                    lemma_str_lt_order(a, b, r.0);
                    lemma_str_lt_order(r.0, a, b);
                    lemma_str_lt_order(b, r.0, a);
                } else {
                    lemma_str_lt_order(r.0, a, a);
                }
            } else {
                assert(n[i] == s[i - 1] && n[j] == s[j - 1]);
            }
        }
    }
}


// ── uninstalling Plexi ──────────────────────────────────────────────────────

pub open spec fn channel_suffix(channel: Option<Seq<char>>) -> Seq<char> {
    match channel {
        Some(c) => "-"@ + c,
        None => seq![],
    }
}

fn push_suffix(out: &mut Vec<char>, channel: Option<&str>)
    ensures
        final(out)@ == old(out)@ + channel_suffix(match channel {
            Some(c) => Some(c@),
            None => None,
        }),
{
    match channel {
        Some(c) => {
            push_lit(out, "-");
            push_lit(out, c);
        },
        None => {
            assert(out@ =~= old(out)@ + Seq::<char>::empty());
        },
    }
}

/// The question `plexi uninstall` asks before removing the profile.
pub fn keep_data_prompt(channel: Option<&str>) -> (r: String)
    ensures
        r@ == "Keep your ~/.plexi"@ + channel_suffix(match channel {
            Some(c) => Some(c@),
            None => None,
        }) + " data for future installs? [y/n, Enter=abort]: "@,
{
    let mut m: Vec<char> = Vec::new();
    push_lit(&mut m, "Keep your ~/.plexi");
    push_suffix(&mut m, channel);
    push_lit(&mut m, " data for future installs? [y/n, Enter=abort]: ");
    string_of(&m)
}

/// What `plexi uninstall` lists before removing anything: the app bundle
/// and the command when present, and the profile directory (to be removed
/// unless its data is kept).
pub open spec fn spec_uninstall_preview(
    bundle: Seq<char>,
    bundle_exists: bool,
    binary: Seq<char>,
    binary_exists: bool,
    profile: Seq<char>,
    profile_exists: bool,
    keep_data: bool,
) -> Seq<Seq<char>> {
    seq!["This will remove:"@] + (if bundle_exists {
        seq!["  \u{2022} "@ + bundle]
    } else {
        Seq::<Seq<char>>::empty()
    }) + (if binary_exists {
        seq!["  \u{2022} "@ + binary]
    } else {
        Seq::<Seq<char>>::empty()
    }) + (if !profile_exists {
        Seq::<Seq<char>>::empty()
    } else if keep_data {
        seq!["  \u{2022} "@ + profile + " will be kept"@]
    } else {
        seq!["  \u{2022} "@ + profile + "  (settings, secrets, app configs)"@]
    })
}

fn push_line(out: &mut Vec<String>, parts: &Vec<char>)
    ensures
        crate::text::texts_of(final(out)@) == crate::text::texts_of(old(out)@).push(parts@),
{
    let ghost before = crate::text::texts_of(out@);
    out.push(string_of(parts));
    assert(crate::text::texts_of(out@) =~= before.push(parts@));
}

pub fn uninstall_preview(
    bundle: &str,
    bundle_exists: bool,
    binary: &str,
    binary_exists: bool,
    profile: &str,
    profile_exists: bool,
    keep_data: bool,
) -> (r: Vec<String>)
    ensures
        crate::text::texts_of(r@) == spec_uninstall_preview(bundle@, bundle_exists, binary@, binary_exists, profile@, profile_exists, keep_data),
{
    let mut out: Vec<String> = Vec::new();
    let head = chars_of("This will remove:");
    push_line(&mut out, &head);
    let ghost a = crate::text::texts_of(out@);
    if bundle_exists {
        let mut l = chars_of("  \u{2022} ");
        push_lit(&mut l, bundle);
        push_line(&mut out, &l);
    }
    let ghost b = crate::text::texts_of(out@);
    assert(b =~= a + (if bundle_exists {
        seq!["  \u{2022} "@ + bundle@]
    } else {
        Seq::<Seq<char>>::empty()
    }));
    if binary_exists {
        let mut l = chars_of("  \u{2022} ");
        push_lit(&mut l, binary);
        push_line(&mut out, &l);
    }
    let ghost c = crate::text::texts_of(out@);
    assert(c =~= b + (if binary_exists {
        seq!["  \u{2022} "@ + binary@]
    } else {
        Seq::<Seq<char>>::empty()
    }));
    if profile_exists {
        let mut l = chars_of("  \u{2022} ");
        push_lit(&mut l, profile);
        if keep_data {
            push_lit(&mut l, " will be kept");
        } else {
            push_lit(&mut l, "  (settings, secrets, app configs)");
        }
        push_line(&mut out, &l);
    }
    out
}

/// Where the backlog is archived before the profile goes:
/// `<home>/plexi-backlog-archive/plexi<suffix>-backlog-<secs>`.
pub fn backlog_archive_path(home: &str, channel: Option<&str>, now_secs: u64) -> (r: String)
    ensures
        r@ == home@ + "/plexi-backlog-archive/plexi"@ + channel_suffix(match channel {
            Some(c) => Some(c@),
            None => None,
        }) + "-backlog-"@ + crate::text::decimal(now_secs as nat),
{
    let mut m = chars_of(home);
    push_lit(&mut m, "/plexi-backlog-archive/plexi");
    push_suffix(&mut m, channel);
    push_lit(&mut m, "-backlog-");
    let d = crate::text::decimal_chars(now_secs);
    push_all(&mut m, &d);
    string_of(&m)
}

/// The last line of `plexi uninstall`: done (naming the channel's bundle
/// suffix) when anything was removed, else that nothing was found.
pub fn uninstall_closing(removed: bool, cap: &str) -> (r: String)
    ensures
        r@ == if removed {
            "\nDone. Plexi"@ + cap@ + " has been removed."@
        } else {
            "\nNothing found to remove."@
        },
{
    if removed {
        let mut m = chars_of("\nDone. Plexi");
        push_lit(&mut m, cap);
        push_lit(&mut m, " has been removed.");
        string_of(&m)
    } else {
        "\nNothing found to remove.".to_owned()
    }
}


// ── installing from a git source ────────────────────────────────────────────

/// Where an install from git stands.  The clone is staged in a directory
/// beside the apps so that the manifest is read before anything lands.
#[derive(Clone, Copy, PartialEq, Eq, Structural)]
pub enum GitStep {
    CreateRoot,
    CreateStage,
    Clone,
    Checkout,
    ReadManifest,
    CheckDest,
    Rename,
    Done,
}

/// What the outside work reported.
pub enum GitEvent {
    /// The step's work succeeded.
    Succeeded,
    /// It failed, with this message (the error's text).
    Failed(String),
    /// The staged manifest was read: the app's id and its schema version.
    Manifest { id: String, schema_version: u64 },
    /// The staged `manifest.toml` (at `path`) could not be read.
    ManifestUnreadable { path: String, error: String },
    /// The staged manifest is not valid, with the parser's message.
    ManifestInvalid(String),
    /// Whether the destination directory already exists.
    DestExists(bool),
}

/// What to do next.
pub enum GitAction {
    CreateStage,
    Clone,
    Checkout(String),
    ReadManifest,
    CheckDest(String),
    Rename(String),
    /// Drop the staging directory, then make the entry executable, provision
    /// its environment, record its version and report it installed.
    Complete(String),
    /// Report the error, dropping the staging directory first when it was
    /// made.
    Fail { cleanup: bool, message: String },
}

pub open spec fn git_action_view(a: GitAction) -> (int, Seq<char>, bool) {
    match a {
        GitAction::CreateStage => (0, seq![], false),
        GitAction::Clone => (1, seq![], false),
        GitAction::Checkout(r) => (2, r@, false),
        GitAction::ReadManifest => (3, seq![], false),
        GitAction::CheckDest(id) => (4, id@, false),
        GitAction::Rename(id) => (5, id@, false),
        GitAction::Complete(id) => (6, id@, false),
        GitAction::Fail { cleanup, message } => (7, message@, cleanup),
    }
}

pub open spec fn git_fail(cleanup: bool, m: Seq<char>) -> (GitStep, (int, Seq<char>, bool)) {
    (GitStep::Done, (7, m, cleanup))
}

/// The refusal of a manifest whose schema is newer than this build reads.
pub open spec fn schema_too_new_message(version: u64, max_schema: u64) -> Seq<char> {
    "manifest schema_version = "@ + crate::text::decimal(version as nat) + " is newer than this Plexi build supports (max "@
        + crate::text::decimal(max_schema as nat) + "); update Plexi to install this app"@
}

/// One step of installing `root`'s app from a git source, `id` being the
/// manifest's id once read.  The apps directory and then the staging
/// directory are created; the source is cloned and, with a ref, checked
/// out; the staged manifest must be readable and valid, names the app and
/// must not have a schema newer than `max_schema`, and the app must not be
/// installed yet; the stage is renamed into place.  Every failure after the staging
/// directory exists drops it.  An event that does not belong to the step
/// fails with its text.
pub open spec fn spec_git_step(
    step: GitStep,
    root: Seq<char>,
    git_ref: Option<Seq<char>>,
    id: Seq<char>,
    max_schema: u64,
    event: GitEvent,
) -> (GitStep, (int, Seq<char>, bool)) {
    match (step, event) {
        (GitStep::CreateRoot, GitEvent::Succeeded) => (GitStep::CreateStage, (0, seq![], false)),
        (GitStep::CreateRoot, GitEvent::Failed(e)) => git_fail(false, "create apps dir "@ + root + ": "@ + e@),
        (GitStep::CreateStage, GitEvent::Succeeded) => (GitStep::Clone, (1, seq![], false)),
        (GitStep::CreateStage, GitEvent::Failed(e)) => git_fail(false, "create staging dir: "@ + e@),
        (GitStep::Clone, GitEvent::Succeeded) => match git_ref {
            Some(r) => (GitStep::Checkout, (2, r, false)),
            None => (GitStep::ReadManifest, (3, seq![], false)),
        },
        (GitStep::Checkout, GitEvent::Succeeded) => (GitStep::ReadManifest, (3, seq![], false)),
        (GitStep::ReadManifest, GitEvent::Manifest { id: i, schema_version: v }) => if v > max_schema {
            git_fail(true, schema_too_new_message(v, max_schema))
        } else {
            (GitStep::CheckDest, (4, i@, false))
        },
        (GitStep::ReadManifest, GitEvent::ManifestUnreadable { path, error }) => git_fail(
            true,
            "no manifest.toml at repo root ("@ + path@ + "): "@ + error@,
        ),
        (GitStep::ReadManifest, GitEvent::ManifestInvalid(e)) => git_fail(true, "manifest.toml invalid: "@ + e@),
        (GitStep::CheckDest, GitEvent::DestExists(true)) => git_fail(
            true,
            "app '"@ + id + "' already installed at "@ + crate::channel::path_join(root, id) + "; run `plexi uninstall "@ + id
                + "` or `plexi update apps "@ + id + "` first"@,
        ),
        (GitStep::CheckDest, GitEvent::DestExists(false)) => (GitStep::Rename, (5, id, false)),
        (GitStep::Rename, GitEvent::Succeeded) => (GitStep::Done, (6, id, false)),
        (GitStep::Rename, GitEvent::Failed(e)) => git_fail(true, "install "@ + id + ": rename staging \u{2192} dest failed: "@ + e@),
        (_, GitEvent::Failed(e)) => git_fail(true, e@),
        (s, _) => git_fail(s != GitStep::CreateRoot && s != GitStep::CreateStage, "unexpected report for this install step"@),
    }
}

pub fn git_step(step: GitStep, root: &str, git_ref: Option<&str>, id: &str, max_schema: u64, event: GitEvent) -> (r: (
    GitStep,
    GitAction,
))
    ensures
        (r.0, git_action_view(r.1)) == spec_git_step(step, root@, match git_ref {
            Some(g) => Some(g@),
            None => None,
        }, id@, max_schema, event),
{
    match (step, event) {
        (GitStep::CreateRoot, GitEvent::Succeeded) => (GitStep::CreateStage, GitAction::CreateStage),
        (GitStep::CreateRoot, GitEvent::Failed(e)) => {
            let mut m = chars_of("create apps dir ");
            push_lit(&mut m, root);
            push_lit(&mut m, ": ");
            push_lit(&mut m, e.as_str());
            (GitStep::Done, GitAction::Fail { cleanup: false, message: string_of(&m) })
        },
        (GitStep::CreateStage, GitEvent::Succeeded) => (GitStep::Clone, GitAction::Clone),
        (GitStep::CreateStage, GitEvent::Failed(e)) => {
            let mut m = chars_of("create staging dir: ");
            push_lit(&mut m, e.as_str());
            (GitStep::Done, GitAction::Fail { cleanup: false, message: string_of(&m) })
        },
        (GitStep::Clone, GitEvent::Succeeded) => match git_ref {
            Some(r) => (GitStep::Checkout, GitAction::Checkout(r.to_owned())),
            None => (GitStep::ReadManifest, GitAction::ReadManifest),
        },
        (GitStep::Checkout, GitEvent::Succeeded) => (GitStep::ReadManifest, GitAction::ReadManifest),
        (GitStep::ReadManifest, GitEvent::Manifest { id: i, schema_version: v }) => {
            if v > max_schema {
                let mut m = chars_of("manifest schema_version = ");
                let vd = crate::text::decimal_chars(v);
                push_all(&mut m, &vd);
                push_lit(&mut m, " is newer than this Plexi build supports (max ");
                let md = crate::text::decimal_chars(max_schema);
                push_all(&mut m, &md);
                push_lit(&mut m, "); update Plexi to install this app");
                (GitStep::Done, GitAction::Fail { cleanup: true, message: string_of(&m) })
            } else {
                (GitStep::CheckDest, GitAction::CheckDest(i))
            }
        },
        (GitStep::ReadManifest, GitEvent::ManifestUnreadable { path, error }) => {
            let mut m = chars_of("no manifest.toml at repo root (");
            push_lit(&mut m, path.as_str());
            push_lit(&mut m, "): ");
            push_lit(&mut m, error.as_str());
            (GitStep::Done, GitAction::Fail { cleanup: true, message: string_of(&m) })
        },
        (GitStep::ReadManifest, GitEvent::ManifestInvalid(e)) => {
            let mut m = chars_of("manifest.toml invalid: ");
            push_lit(&mut m, e.as_str());
            (GitStep::Done, GitAction::Fail { cleanup: true, message: string_of(&m) })
        },
        (GitStep::CheckDest, GitEvent::DestExists(true)) => {
            let rc = chars_of(root);
            let ic = chars_of(id);
            let dest = crate::channel::join_path(&rc, &ic);
            let mut m = chars_of("app '");
            push_lit(&mut m, id);
            push_lit(&mut m, "' already installed at ");
            push_all(&mut m, &dest);
            push_lit(&mut m, "; run `plexi uninstall ");
            push_lit(&mut m, id);
            push_lit(&mut m, "` or `plexi update apps ");
            push_lit(&mut m, id);
            push_lit(&mut m, "` first");
            (GitStep::Done, GitAction::Fail { cleanup: true, message: string_of(&m) })
        },
        (GitStep::CheckDest, GitEvent::DestExists(false)) => (GitStep::Rename, GitAction::Rename(id.to_owned())),
        (GitStep::Rename, GitEvent::Succeeded) => (GitStep::Done, GitAction::Complete(id.to_owned())),
        (GitStep::Rename, GitEvent::Failed(e)) => {
            let mut m = chars_of("install ");
            push_lit(&mut m, id);
            push_lit(&mut m, ": rename staging \u{2192} dest failed: ");
            push_lit(&mut m, e.as_str());
            (GitStep::Done, GitAction::Fail { cleanup: true, message: string_of(&m) })
        },
        (_, GitEvent::Failed(e)) => (GitStep::Done, GitAction::Fail { cleanup: true, message: e }),
        (s, _) => (
            GitStep::Done,
            GitAction::Fail {
                cleanup: s != GitStep::CreateRoot && s != GitStep::CreateStage,
                message: "unexpected report for this install step".to_owned(),
            },
        ),
    }
}


/// An install from git that fails once the staging directory exists always
/// drops it, so no partial app is left behind; one that fails before leaves
/// nothing to drop.  An install completes only when the staged clone was
/// renamed into place.
pub proof fn lemma_git_failures_clean_the_stage(
    step: GitStep,
    root: Seq<char>,
    git_ref: Option<Seq<char>>,
    id: Seq<char>,
    max_schema: u64,
    event: GitEvent,
)
    ensures
        ({
            let (_, a) = spec_git_step(step, root, git_ref, id, max_schema, event);
            a.0 == 7 ==> (a.2 <==> (step != GitStep::CreateRoot && step != GitStep::CreateStage))
        }),
        spec_git_step(step, root, git_ref, id, max_schema, event).1.0 == 6 ==> step == GitStep::Rename
            && event is Succeeded,
{
}

// ── applying a pack ─────────────────────────────────────────────────────────

/// A pack entry: the app's id, the version asked for, and its source as
/// parsed (or the parser's error).
pub struct PackItem {
    pub id: String,
    pub version: String,
    pub source: Result<SourceSpec, String>,
}

/// The version installed under an id: the first record of it.
pub open spec fn inst_of(installed: Seq<(String, String)>, id: Seq<char>) -> Option<Seq<char>>
    decreases installed.len(),
{
    if installed.len() == 0 {
        None
    } else if installed[0].0@ == id {
        Some(installed[0].1@)
    } else {
        inst_of(installed.skip(1), id)
    }
}

fn find_installed<'a>(installed: &'a Vec<(String, String)>, id: &String) -> (r: Option<&'a String>)
    ensures
        match r {
            Some(v) => inst_of(installed@, id@) == Some(v@),
            None => inst_of(installed@, id@) is None,
        },
{
    let idc = chars_of(id.as_str());
    let mut i: usize = 0;
    assert(installed@.skip(0) =~= installed@);
    while i < installed.len()
        invariant
            i <= installed@.len(),
            idc@ == id@,
            inst_of(installed@.skip(i as int), id@) == inst_of(installed@, id@),
        decreases installed@.len() - i,
    {
        let c = chars_of(installed[i].0.as_str());
        assert(installed@.skip(i as int)[0] == installed@[i as int]);
        assert(installed@.skip(i as int).skip(1) =~= installed@.skip(i + 1));
        if crate::text::eq_chars(&c, &idc) {
            return Some(&installed[i].1);
        }
        i = i + 1;
    }
    assert(installed@.skip(i as int).len() == 0);
    None
}

/// The outcome a pack entry gets without an install: the installed status
/// (up to date, or another version left alone), or the source's parse
/// error.
pub open spec fn entry_outcome_ok(o: InstallOutcome, it: PackItem, inst: Option<Seq<char>>) -> bool {
    o.id@ == it.id@ && match inst {
        Some(v) => if v == it.version@ {
            o.status == InstallStatus::AlreadyAtVersion
        } else {
            o.status matches InstallStatus::SkippedOtherVersion { installed: i, requested: q } && i@ == v && q@ == it.version@
        },
        None => match it.source {
            Err(e) => o.status == InstallStatus::Failed(e),
            Ok(_) => false,
        },
    }
}

/// Whether a pack entry is to be installed, and at which git ref (the
/// entry's version for a git source, none for a bundled one).
pub open spec fn entry_install(it: PackItem, inst: Option<Seq<char>>) -> Option<Option<Seq<char>>> {
    match inst {
        Some(_) => None,
        None => match it.source {
            Err(_) => None,
            Ok(SourceSpec::Git(_)) => Some(Some(it.version@)),
            Ok(SourceSpec::Local(_)) => Some(None),
        },
    }
}

/// The outcome an install result gives an entry: the install's own
/// outcome, or a failure carrying the error under the entry's id.
pub open spec fn finished_ok(o: InstallOutcome, id: Seq<char>, res: Result<InstallOutcome, String>) -> bool {
    match res {
        Ok(x) => o.id == x.id && o.status == x.status,
        Err(e) => o.id@ == id && o.status == InstallStatus::Failed(e),
    }
}

/// Drives the application of a pack, entry by entry, in order: every entry
/// gets exactly one outcome, and an entry whose install fails records the
/// failure while the rest still run.  `outcomes` holds those of the first
/// entries; `pending` is the result of installing the next one, when it was
/// asked for.  Entries that need no install are settled here; the call
/// stops at the next entry to install (its index and git ref) or, with
/// `None`, when every entry has its outcome.
pub fn pack_advance(
    items: &Vec<PackItem>,
    installed: &Vec<(String, String)>,
    outcomes: &mut Vec<InstallOutcome>,
    pending: Option<Result<InstallOutcome, String>>,
) -> (r: Option<(usize, Option<String>)>)
    requires
        old(outcomes)@.len() <= items@.len(),
        pending is Some ==> old(outcomes)@.len() < items@.len(),
    ensures
        final(outcomes)@.len() <= items@.len(),
        final(outcomes)@.subrange(0, old(outcomes)@.len() as int) == old(outcomes)@,
        match pending {
            Some(res) => final(outcomes)@.len() > old(outcomes)@.len() && finished_ok(
                final(outcomes)@[old(outcomes)@.len() as int],
                items@[old(outcomes)@.len() as int].id@,
                res,
            ),
            None => true,
        },
        forall|k: int|
            old(outcomes)@.len() + (if pending is Some { 1int } else { 0int }) <= k < final(outcomes)@.len()
                ==> entry_outcome_ok(#[trigger] final(outcomes)@[k], items@[k], inst_of(installed@, items@[k].id@)),
        match r {
            Some((k, g)) => k == final(outcomes)@.len() && k < items@.len()
                && entry_install(items@[k as int], inst_of(installed@, items@[k as int].id@)) == Some(match g {
                    Some(x) => Some(x@),
                    None => None::<Seq<char>>,
                }),
            None => final(outcomes)@.len() == items@.len(),
        },
{
    let ghost start = outcomes@;
    match pending {
        Some(res) => {
            let k = outcomes.len();
            let o = pack_entry_finish(&items[k].id, res);
            outcomes.push(o);
        },
        None => {},
    }
    let ghost first = outcomes@.len();
    assert(outcomes@.subrange(0, start.len() as int) =~= start);
    while outcomes.len() < items.len()
        invariant
            start == old(outcomes)@,
            first <= outcomes@.len() <= items@.len(),
            outcomes@.subrange(0, start.len() as int) == start,
            first == start.len() + (if pending is Some { 1int } else { 0int }),
            match pending {
                Some(res) => finished_ok(outcomes@[start.len() as int], items@[start.len() as int].id@, res),
                None => true,
            },
            forall|k: int| first <= k < outcomes@.len()
                ==> entry_outcome_ok(#[trigger] outcomes@[k], items@[k], inst_of(installed@, items@[k].id@)),
        decreases items@.len() - outcomes@.len(),
    {
        let k = outcomes.len();
        let it = &items[k];
        let inst = find_installed(installed, &it.id);
        match pack_entry_step(&it.id, &it.version, inst, &it.source) {
            PackEntryStep::Done(o) => {
                let ghost before = outcomes@;
                outcomes.push(o);
                assert(outcomes@.subrange(0, start.len() as int) =~= before.subrange(0, start.len() as int));
            },
            PackEntryStep::Install { git_ref } => {
                return Some((k, git_ref));
            },
        }
    }
    None
}

} // verus!
