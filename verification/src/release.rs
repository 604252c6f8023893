//! Channel-aware release resolution: release-tag parsing, SemVer-style
//! ordering, per-channel acceptance, best-candidate selection and
//! bundle/host version-skew detection.

use std::cmp::Ordering;
use vstd::prelude::*;
use vstd::std_specs::cmp::PartialOrdSpecImpl;
use crate::text::{
    chars_of, debug_quoted, debug_str, eq_lit, parse_u64, parse_u64_chars, push_all, slice_of, split,
    split_chars, split_once, split_once_chars, starts_with, starts_with_lit, string_of, strip_prefix,
    strip_prefix_lit,
};

verus! {

/// Prerelease scheme of a tag. The declaration order is the sort order:
/// disposable Windows dogfood tags sort below alpha, alpha below beta.
#[derive(Debug, Clone, Copy, PartialEq, Eq, PartialOrd, Ord, Structural)]
pub enum PreKind {
    Windows,
    Alpha,
    Beta,
}

#[derive(Debug, Clone, Copy, PartialEq, Eq, Structural)]
pub struct Prerelease {
    pub kind: PreKind,
    pub num: u64,
}

/// A parsed release tag (`vX.Y.Z` with an optional `-alpha.N`, `-beta.N` or
/// `-windows.N` suffix); `raw` is the tag exactly as given.
#[derive(Debug, Clone, PartialEq, Eq)]
pub struct ReleaseTag {
    pub major: u64,
    pub minor: u64,
    pub patch: u64,
    pub pre: Option<Prerelease>,
    pub raw: String,
}

/// Mathematical model of a `ReleaseTag`.
pub struct TagModel {
    pub major: u64,
    pub minor: u64,
    pub patch: u64,
    pub pre: Option<Prerelease>,
    pub raw: Seq<char>,
}

impl View for ReleaseTag {
    type V = TagModel;

    open spec fn view(&self) -> TagModel {
        TagModel {
            major: self.major,
            minor: self.minor,
            patch: self.patch,
            pre: self.pre,
            raw: self.raw@,
        }
    }
}

/// Which releases an update channel accepts.
#[derive(Debug, Clone, Copy, PartialEq, Eq, Structural)]
pub enum UpdateChannel {
    /// Only plain `vX.Y.Z`.
    Stable,
    /// Beta and stable, never alpha.
    Beta,
    /// Alpha, beta and stable.
    Alpha,
}

/// A release as listed by the GitHub releases endpoint.
#[derive(Debug, Clone)]
pub struct GithubRelease {
    pub tag_name: String,
    pub prerelease: bool,
    pub draft: bool,
}

pub struct GithubReleaseModel {
    pub tag_name: Seq<char>,
    pub prerelease: bool,
    pub draft: bool,
}

impl View for GithubRelease {
    type V = GithubReleaseModel;

    open spec fn view(&self) -> GithubReleaseModel {
        GithubReleaseModel {
            tag_name: self.tag_name@,
            prerelease: self.prerelease,
            draft: self.draft,
        }
    }
}

// ── parsing ────────────────────────────────────────────────────────────────

/// `X.Y.Z`: exactly three dot-separated parts, each a `u64`.
pub open spec fn spec_parse_version(v: Seq<char>) -> Option<(u64, u64, u64)> {
    let parts = split(v, '.');
    if parts.len() == 3 && parse_u64(parts[0]) is Some && parse_u64(parts[1]) is Some
        && parse_u64(parts[2]) is Some {
        Some((parse_u64(parts[0])->0, parse_u64(parts[1])->0, parse_u64(parts[2])->0))
    } else {
        None
    }
}

pub open spec fn spec_pre_kind(s: Seq<char>) -> Option<PreKind> {
    if s == "alpha"@ {
        Some(PreKind::Alpha)
    } else if s == "beta"@ {
        Some(PreKind::Beta)
    } else if s == "windows"@ {
        Some(PreKind::Windows)
    } else {
        None
    }
}

/// The prerelease part after the first `-`: `<kind>.<num>`.
pub open spec fn spec_parse_pre(p: Seq<char>) -> Option<Prerelease> {
    match split_once(p, '.') {
        None => None,
        Some((k, n)) => match spec_pre_kind(k) {
            None => None,
            Some(kind) => match parse_u64(n) {
                None => None,
                Some(num) => Some(Prerelease { kind, num }),
            },
        },
    }
}

/// The tag with one leading `v` removed, if there is one.
pub open spec fn tag_body(tag: Seq<char>) -> Seq<char> {
    match strip_prefix(tag, seq!['v']) {
        Some(b) => b,
        None => tag,
    }
}

/// What `ReleaseTag::parse` returns for `tag`.
pub open spec fn spec_parse_tag(tag: Seq<char>) -> Option<TagModel> {
    let body = tag_body(tag);
    let version = match split_once(body, '-') {
        Some((v, _)) => v,
        None => body,
    };
    match spec_parse_version(version) {
        None => None,
        Some((major, minor, patch)) => match split_once(body, '-') {
            None => Some(TagModel { major, minor, patch, pre: None, raw: tag }),
            Some((_, p)) => match spec_parse_pre(p) {
                None => None,
                Some(pre) => Some(TagModel { major, minor, patch, pre: Some(pre), raw: tag }),
            },
        },
    }
}

fn parse_version(v: &Vec<char>) -> (r: Option<(u64, u64, u64)>)
    ensures
        r == spec_parse_version(v@),
{
    let parts = split_chars(v, '.');
    if parts.len() != 3 {
        return None;
    }
    let a = parse_u64_chars(&parts[0]);
    let b = parse_u64_chars(&parts[1]);
    let c = parse_u64_chars(&parts[2]);
    match (a, b, c) {
        (Some(x), Some(y), Some(z)) => Some((x, y, z)),
        _ => None,
    }
}

fn parse_pre(p: &Vec<char>) -> (r: Option<Prerelease>)
    ensures
        r == spec_parse_pre(p@),
{
    match split_once_chars(p, '.') {
        None => None,
        Some((k, n)) => {
            let kind = if eq_lit(&k, "alpha") {
                PreKind::Alpha
            } else if eq_lit(&k, "beta") {
                PreKind::Beta
            } else if eq_lit(&k, "windows") {
                PreKind::Windows
            } else {
                return None;
            };
            match parse_u64_chars(&n) {
                None => None,
                Some(num) => Some(Prerelease { kind, num }),
            }
        },
    }
}

impl ReleaseTag {
    /// Parses `vX.Y.Z`, `vX.Y.Z-alpha.N`, `vX.Y.Z-beta.N` and
    /// `vX.Y.Z-windows.N` (the leading `v` is optional). Malformed tags and
    /// unrecognized prerelease schemes (such as old `-rc1` tags) give `None`.
    pub fn parse(tag: &str) -> (r: Option<ReleaseTag>)
        ensures
            match r {
                Some(t) => spec_parse_tag(tag@) == Some(t@),
                None => spec_parse_tag(tag@) is None,
            },
    {
        let cs = chars_of(tag);
        let body = if cs.len() > 0 && cs[0] == 'v' {
            slice_of(&cs, 1, cs.len())
        } else {
            slice_of(&cs, 0, cs.len())
        };
        assert(body@ == tag_body(tag@)) by {
            if cs@.len() > 0 && cs@[0] == 'v' {
                assert(tag@.take(1) =~= seq!['v']);
            } else {
                if tag@.len() >= 1 {
                    assert(tag@.take(1)[0] == tag@[0]);
                }
                assert(cs@.subrange(0, cs@.len() as int) == cs@);
            }
        }
        let split = split_once_chars(&body, '-');
        let version = match &split {
            Some((v, _)) => {
                assert(v@.subrange(0, v@.len() as int) == v@);
                slice_of(v, 0, v.len())
            },
            None => {
                assert(body@.subrange(0, body@.len() as int) == body@);
                slice_of(&body, 0, body.len())
            },
        };
        let (major, minor, patch) = match parse_version(&version) {
            Some(v) => v,
            None => return None,
        };
        let pre = match &split {
            None => None,
            Some((_, p)) => match parse_pre(p) {
                None => return None,
                Some(pre) => Some(pre),
            },
        };
        Some(ReleaseTag { major, minor, patch, pre, raw: tag.to_owned() })
    }
}

// ── ordering ───────────────────────────────────────────────────────────────

pub open spec fn kind_rank(k: PreKind) -> int {
    match k {
        PreKind::Windows => 0,
        PreKind::Alpha => 1,
        PreKind::Beta => 2,
    }
}

/// Prerelease order: any prerelease sorts below the plain release of the
/// same base version (SemVer §11); prereleases compare by kind, then number.
pub open spec fn pre_lt(a: Option<Prerelease>, b: Option<Prerelease>) -> bool {
    match (a, b) {
        (None, _) => false,
        (Some(_), None) => true,
        (Some(x), Some(y)) => kind_rank(x.kind) < kind_rank(y.kind) || (x.kind == y.kind
            && x.num < y.num),
    }
}

/// `a < b` in release order. The raw text takes no part in the order.
pub open spec fn tag_lt(a: TagModel, b: TagModel) -> bool {
    ||| a.major < b.major
    ||| a.major == b.major && a.minor < b.minor
    ||| a.major == b.major && a.minor == b.minor && a.patch < b.patch
    ||| a.major == b.major && a.minor == b.minor && a.patch == b.patch && pre_lt(a.pre, b.pre)
}

/// Equal in release order (same version and prerelease, any raw text).
pub open spec fn tag_same(a: TagModel, b: TagModel) -> bool {
    a.major == b.major && a.minor == b.minor && a.patch == b.patch && a.pre == b.pre
}

/// Release order is a strict total order on versions: irreflexive,
/// transitive, and any two tags are ordered one way or the other unless
/// they name the same version.
pub proof fn lemma_tag_order(a: TagModel, b: TagModel, c: TagModel)
    ensures
        !tag_lt(a, a),
        tag_lt(a, b) && tag_lt(b, c) ==> tag_lt(a, c),
        tag_lt(a, b) ==> !tag_lt(b, a),
        tag_lt(a, b) || tag_lt(b, a) || tag_same(a, b),
{
    if a.pre is Some && b.pre is Some && a.pre->0.kind == b.pre->0.kind && a.pre->0.num
        == b.pre->0.num {
        assert(a.pre == b.pre);
    }
}

fn kind_rank_exec(k: PreKind) -> (r: u8)
    ensures
        r as int == kind_rank(k),
{
    match k {
        PreKind::Windows => 0,
        PreKind::Alpha => 1,
        PreKind::Beta => 2,
    }
}

fn pre_less(a: &Option<Prerelease>, b: &Option<Prerelease>) -> (r: bool)
    ensures
        r == pre_lt(*a, *b),
{
    match (a, b) {
        (None, _) => false,
        (Some(_), None) => true,
        (Some(x), Some(y)) => {
            let kx = kind_rank_exec(x.kind);
            let ky = kind_rank_exec(y.kind);
            kx < ky || (kx == ky && x.num < y.num)
        },
    }
}

/// `a < b` in release order.
pub fn tag_less(a: &ReleaseTag, b: &ReleaseTag) -> (r: bool)
    ensures
        r == tag_lt(a@, b@),
{
    if a.major != b.major {
        return a.major < b.major;
    }
    if a.minor != b.minor {
        return a.minor < b.minor;
    }
    if a.patch != b.patch {
        return a.patch < b.patch;
    }
    pre_less(&a.pre, &b.pre)
}

impl PartialOrd for ReleaseTag {
    fn partial_cmp(&self, other: &Self) -> (r: Option<Ordering>) {
        if tag_less(self, other) {
            Some(Ordering::Less)
        } else if tag_less(other, self) {
            Some(Ordering::Greater)
        } else {
            Some(Ordering::Equal)
        }
    }
}

impl PartialOrdSpecImpl for ReleaseTag {
    open spec fn obeys_partial_cmp_spec() -> bool {
        true
    }

    open spec fn partial_cmp_spec(&self, other: &Self) -> Option<Ordering> {
        if tag_lt(self@, other@) {
            Some(Ordering::Less)
        } else if tag_lt(other@, self@) {
            Some(Ordering::Greater)
        } else {
            Some(Ordering::Equal)
        }
    }
}

// ── channels ───────────────────────────────────────────────────────────────

/// The channel a binary name selects: `plexi` is stable, `plexi-beta` beta,
/// `plexi-alpha` and `plexi-pr-*` alpha; anything else stable.
pub open spec fn spec_channel_of(name: Seq<char>) -> UpdateChannel {
    let suffix = match strip_prefix(name, "plexi"@) {
        Some(s) => match strip_prefix(s, seq!['-']) {
            Some(t) => t,
            None => seq![],
        },
        None => seq![],
    };
    if suffix.len() == 0 {
        UpdateChannel::Stable
    } else if suffix == "beta"@ {
        UpdateChannel::Beta
    } else if suffix == "alpha"@ || starts_with(suffix, "pr-"@) {
        UpdateChannel::Alpha
    } else {
        UpdateChannel::Stable
    }
}

/// Channel policy: every channel accepts plain releases; stable accepts no
/// prerelease; beta accepts only beta prereleases; alpha accepts all.
pub open spec fn spec_accepts(ch: UpdateChannel, t: TagModel) -> bool {
    match t.pre {
        None => true,
        Some(p) => match ch {
            UpdateChannel::Stable => false,
            UpdateChannel::Beta => p.kind == PreKind::Beta,
            UpdateChannel::Alpha => true,
        },
    }
}

impl UpdateChannel {
    /// `plexi` → Stable, `plexi-beta` → Beta, `plexi-alpha`/`plexi-pr-*` →
    /// Alpha. Unknown channels default to Stable.
    pub fn from_binary_name(name: &str) -> (r: UpdateChannel)
        ensures
            r == spec_channel_of(name@),
    {
        let cs = chars_of(name);
        let suffix = match strip_prefix_lit(&cs, "plexi") {
            Some(s) => {
                if s.len() > 0 && s[0] == '-' {
                    proof {
                        assert(s@.take(1) =~= seq!['-']);
                    }
                    slice_of(&s, 1, s.len())
                } else {
                    proof {
                        if s@.len() >= 1 {
                            assert(s@.take(1)[0] == s@[0]);
                        }
                    }
                    Vec::new()
                }
            },
            None => Vec::new(),
        };
        if suffix.len() == 0 {
            UpdateChannel::Stable
        } else if eq_lit(&suffix, "beta") {
            UpdateChannel::Beta
        } else if eq_lit(&suffix, "alpha") || starts_with_lit(&suffix, "pr-") {
            UpdateChannel::Alpha
        } else {
            UpdateChannel::Stable
        }
    }

    /// Whether this channel's policy admits `tag`.
    pub fn accepts(&self, tag: &ReleaseTag) -> (r: bool)
        ensures
            r == spec_accepts(*self, tag@),
    {
        match (self, &tag.pre) {
            (_, None) => true,
            (UpdateChannel::Stable, Some(_)) => false,
            (UpdateChannel::Beta, Some(p)) => p.kind == PreKind::Beta,
            (UpdateChannel::Alpha, Some(_)) => true,
        }
    }
}

// ── best candidate ─────────────────────────────────────────────────────────

pub open spec fn is_windows(p: Option<Prerelease>) -> bool {
    p matches Some(x) && x.kind == PreKind::Windows
}

/// The tag `r` offers as an update from `current` on `channel`, if any: it is
/// not a draft, parses, passes the channel policy (a release GitHub flags as
/// prerelease never reaches Stable, whatever its tag says), stays on the
/// Windows track iff `current` is on it, and is strictly newer than `current`.
pub open spec fn spec_candidate(
    r: GithubReleaseModel,
    channel: UpdateChannel,
    current: TagModel,
) -> Option<TagModel> {
    if r.draft {
        None
    } else {
        match spec_parse_tag(r.tag_name) {
            None => None,
            Some(t) => {
                let channel_ok = if r.prerelease && t.pre is None {
                    channel != UpdateChannel::Stable
                } else {
                    spec_accepts(channel, t)
                };
                if channel_ok && is_windows(current.pre) == is_windows(t.pre) && tag_lt(
                    current,
                    t,
                ) {
                    Some(t)
                } else {
                    None
                }
            },
        }
    }
}

/// The maximum candidate among the first `n` releases; among candidates of
/// the same version the later one wins (as `Iterator::max` does).
pub open spec fn spec_best_prefix(
    rs: Seq<GithubReleaseModel>,
    channel: UpdateChannel,
    current: TagModel,
    n: int,
) -> Option<TagModel>
    decreases n,
{
    if n <= 0 {
        None
    } else {
        let prev = spec_best_prefix(rs, channel, current, n - 1);
        match spec_candidate(rs[n - 1], channel, current) {
            None => prev,
            Some(t) => match prev {
                None => Some(t),
                Some(p) => if tag_lt(t, p) {
                    Some(p)
                } else {
                    Some(t)
                },
            },
        }
    }
}

pub open spec fn spec_resolve_best(
    rs: Seq<GithubReleaseModel>,
    channel: UpdateChannel,
    current: TagModel,
) -> Option<TagModel> {
    spec_best_prefix(rs, channel, current, rs.len() as int)
}

pub open spec fn releases_model(rs: Seq<GithubRelease>) -> Seq<GithubReleaseModel> {
    rs.map_values(|r: GithubRelease| r@)
}

fn candidate(r: &GithubRelease, channel: UpdateChannel, current: &ReleaseTag) -> (res: Option<
    ReleaseTag,
>)
    ensures
        match res {
            Some(t) => spec_candidate(r@, channel, current@) == Some(t@),
            None => spec_candidate(r@, channel, current@) is None,
        },
{
    if r.draft {
        return None;
    }
    let t = match ReleaseTag::parse(r.tag_name.as_str()) {
        Some(t) => t,
        None => return None,
    };
    let channel_ok = if r.prerelease && t.pre.is_none() {
        channel != UpdateChannel::Stable
    } else {
        channel.accepts(&t)
    };
    let current_windows = match &current.pre {
        Some(p) => p.kind == PreKind::Windows,
        None => false,
    };
    let candidate_windows = match &t.pre {
        Some(p) => p.kind == PreKind::Windows,
        None => false,
    };
    if channel_ok && current_windows == candidate_windows && tag_less(current, &t) {
        Some(t)
    } else {
        None
    }
}

/// The best update for `channel` that is strictly newer than `current`.
pub fn resolve_best(releases: &[GithubRelease], channel: UpdateChannel, current: &ReleaseTag) -> (r:
    Option<ReleaseTag>)
    ensures
        match r {
            Some(t) => spec_resolve_best(releases_model(releases@), channel, current@) == Some(
                t@,
            ),
            None => spec_resolve_best(releases_model(releases@), channel, current@) is None,
        },
{
    let ghost rs = releases_model(releases@);
    let mut best: Option<ReleaseTag> = None;
    let mut i: usize = 0;
    while i < releases.len()
        invariant
            i <= releases@.len(),
            rs == releases_model(releases@),
            match best {
                Some(t) => spec_best_prefix(rs, channel, current@, i as int) == Some(t@),
                None => spec_best_prefix(rs, channel, current@, i as int) is None,
            },
        decreases releases@.len() - i,
    {
        let c = candidate(&releases[i], channel, current);
        assert(rs[i as int] == releases@[i as int]@);
        match c {
            None => {},
            Some(t) => {
                let keep_old = match &best {
                    None => false,
                    Some(p) => tag_less(&t, p),
                };
                if !keep_old {
                    best = Some(t);
                }
            },
        }
        i = i + 1;
    }
    best
}

/// Whichever release `resolve_best` picks is a candidate (not a draft,
/// accepted by the channel, on the same Windows track and strictly newer than
/// `current`) and no candidate is newer than it; it picks nothing exactly
/// when there is no candidate.
pub proof fn lemma_resolve_best_is_max(
    rs: Seq<GithubReleaseModel>,
    channel: UpdateChannel,
    current: TagModel,
)
    ensures
        spec_resolve_best(rs, channel, current) is None <==> (forall|i: int|
            0 <= i < rs.len() ==> #[trigger] spec_candidate(rs[i], channel, current) is None),
        spec_resolve_best(rs, channel, current) matches Some(b) ==> {
            &&& exists|i: int|
                0 <= i < rs.len() && #[trigger] spec_candidate(rs[i], channel, current) == Some(b)
            &&& forall|i: int|
                0 <= i < rs.len() && #[trigger] spec_candidate(rs[i], channel, current) is Some
                    ==> !tag_lt(b, spec_candidate(rs[i], channel, current)->0)
        },
{
    lemma_best_prefix(rs, channel, current, rs.len() as int);
}

proof fn lemma_best_prefix(rs: Seq<GithubReleaseModel>, channel: UpdateChannel, current: TagModel, n: int)
    requires
        0 <= n <= rs.len(),
    ensures
        spec_best_prefix(rs, channel, current, n) is None <==> (forall|i: int|
            0 <= i < n ==> #[trigger] spec_candidate(rs[i], channel, current) is None),
        spec_best_prefix(rs, channel, current, n) matches Some(b) ==> {
            &&& exists|i: int|
                0 <= i < n && #[trigger] spec_candidate(rs[i], channel, current) == Some(b)
            &&& forall|i: int|
                0 <= i < n && #[trigger] spec_candidate(rs[i], channel, current) is Some
                    ==> !tag_lt(b, spec_candidate(rs[i], channel, current)->0)
        },
    decreases n,
{
    if n > 0 {
        lemma_best_prefix(rs, channel, current, n - 1);
        let prev = spec_best_prefix(rs, channel, current, n - 1);
        match spec_candidate(rs[n - 1], channel, current) {
            None => {},
            Some(t) => {
                match prev {
                    None => {
                        assert forall|i: int|
                            0 <= i < n && #[trigger] spec_candidate(rs[i], channel, current) is Some
                            implies !tag_lt(t, spec_candidate(rs[i], channel, current)->0) by {
                            lemma_tag_order(t, t, t);
                        }
                    },
                    Some(p) => {
                        if tag_lt(t, p) {
                            assert forall|i: int|
                                0 <= i < n && #[trigger] spec_candidate(rs[i], channel, current)
                                    is Some implies !tag_lt(
                                p,
                                spec_candidate(rs[i], channel, current)->0,
                            ) by {
                                if i == n - 1 {
                                    lemma_tag_order(t, p, t);
                                }
                            }
                        } else {
                            assert forall|i: int|
                                0 <= i < n && #[trigger] spec_candidate(rs[i], channel, current)
                                    is Some implies !tag_lt(
                                t,
                                spec_candidate(rs[i], channel, current)->0,
                            ) by {
                                let c = spec_candidate(rs[i], channel, current)->0;
                                lemma_tag_order(t, p, c);
                                lemma_tag_order(p, c, t);
                                lemma_tag_order(t, c, p);
                                if tag_same(t, p) {
                                    if tag_lt(t, c) {
                                        assert(tag_lt(p, c));
                                    }
                                }
                            }
                        }
                    },
                }
            },
        }
    }
}

// ── version skew ───────────────────────────────────────────────────────────

/// Comparison of the version installed on disk with the version a running
/// host was launched with.
#[derive(Debug, Clone, PartialEq, Eq)]
pub enum SkewStatus {
    /// The running host matches or is newer than the on-disk bundle.
    InSync,
    /// The running host is older than the on-disk bundle.
    Skewed { bundle: String, running: String },
    /// One of the versions did not parse as a release tag.
    Unknown { reason: String },
}

pub open spec fn bundle_reason(bundle: Seq<char>) -> Seq<char> {
    "could not parse bundle version "@ + debug_quoted(bundle)
}

pub open spec fn running_reason(running: Seq<char>) -> Seq<char> {
    "could not parse running host version "@ + debug_quoted(running)
}

/// Compares the on-disk bundle version with a running host's version: only
/// `running < bundle` (in release order) is `Skewed`; a newer running host is
/// in sync; a version that does not parse gives `Unknown` naming which one.
pub fn detect_version_skew(bundle_raw: &str, running_raw: &str) -> (r: SkewStatus)
    ensures
        match r {
            SkewStatus::Unknown { reason } => {
                ||| spec_parse_tag(bundle_raw@) is None && reason@ == bundle_reason(bundle_raw@)
                ||| spec_parse_tag(bundle_raw@) is Some && spec_parse_tag(running_raw@) is None
                    && reason@ == running_reason(running_raw@)
            },
            SkewStatus::Skewed { bundle, running } => {
                &&& spec_parse_tag(bundle_raw@) matches Some(b)
                &&& spec_parse_tag(running_raw@) matches Some(h)
                &&& tag_lt(h, b)
                &&& bundle@ == bundle_raw@
                &&& running@ == running_raw@
            },
            SkewStatus::InSync => {
                &&& spec_parse_tag(bundle_raw@) matches Some(b)
                &&& spec_parse_tag(running_raw@) matches Some(h)
                &&& !tag_lt(h, b)
            },
        },
{
    let bundle = match ReleaseTag::parse(bundle_raw) {
        Some(t) => t,
        None => {
            let mut reason = chars_of("could not parse bundle version ");
            let q = debug_str(bundle_raw);
            push_all(&mut reason, &q);
            return SkewStatus::Unknown { reason: string_of(&reason) };
        },
    };
    let running = match ReleaseTag::parse(running_raw) {
        Some(t) => t,
        None => {
            let mut reason = chars_of("could not parse running host version ");
            let q = debug_str(running_raw);
            push_all(&mut reason, &q);
            return SkewStatus::Unknown { reason: string_of(&reason) };
        },
    };
    if tag_less(&running, &bundle) {
        SkewStatus::Skewed { bundle: bundle_raw.to_owned(), running: running_raw.to_owned() }
    } else {
        SkewStatus::InSync
    }
}

} // verus!
