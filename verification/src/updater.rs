//! The background update check: whether the cached check is fresh for this
//! build's channel, whether a release is newer than the running one, and the
//! cache record a check leaves.

use vstd::prelude::*;
use crate::cloud_runtime::{json_quote, json_quoted};
use crate::release::{spec_parse_tag, tag_less, tag_lt, ReleaseTag, UpdateChannel};
use crate::text::{
    chars_of, decimal, decimal_chars, eq_chars, opt_text, push_all, push_lit, string_of,
    strip_prefix, strip_prefix_lit, trim, trim_chars,
};

verus! {

/// How long a check stays fresh, in seconds (a day).
pub const CHECK_INTERVAL_SECS: u64 = 86400;

/// The name a channel is recorded under in the cache.
pub open spec fn spec_channel_key(channel: UpdateChannel) -> Seq<char> {
    match channel {
        UpdateChannel::Stable => "stable"@,
        UpdateChannel::Beta => "beta"@,
        UpdateChannel::Alpha => "alpha"@,
    }
}

pub fn channel_key(channel: UpdateChannel) -> (r: &'static str)
    ensures
        r@ == spec_channel_key(channel),
{
    match channel {
        UpdateChannel::Stable => "stable",
        UpdateChannel::Beta => "beta",
        UpdateChannel::Alpha => "alpha",
    }
}

/// The `checked_at` number, the `channel` string and the `latest` string of
/// cache bytes that parse as JSON (each `None` when absent or of another
/// type); `None` when the bytes are not JSON.
pub uninterp spec fn json_cache_fields(bytes: Seq<u8>) -> Option<(Option<u64>, Option<Seq<char>>, Option<Seq<char>>)>;

/// `serde_json::from_slice` into a JSON value, then its `checked_at` as a
/// `u64`, its `channel` and `latest` as strings.
#[verifier::external_body]
fn cache_fields(bytes: &[u8]) -> (r: Option<(Option<u64>, Option<String>, Option<String>)>)
    ensures
        match r {
            Some((c, ch, l)) => json_cache_fields(bytes@) == Some((c, opt_text(ch), opt_text(l))),
            None => json_cache_fields(bytes@) is None,
        },
{
    match serde_json::from_slice::<serde_json::Value>(bytes) {
        Ok(j) => Some((
            j["checked_at"].as_u64(),
            j["channel"].as_str().map(str::to_owned),
            j["latest"].as_str().map(str::to_owned),
        )),
        Err(_) => None,
    }
}

/// A cache record is fresh for `channel` at `now` when it was written less
/// than a day earlier (a missing time counts as 0) and names that channel.
pub open spec fn spec_fields_fresh(checked_at: Option<u64>, cached_channel: Option<Seq<char>>, channel: UpdateChannel, now: u64) -> bool {
    let at: u64 = match checked_at {
        Some(t) => t,
        None => 0,
    };
    let age: int = if now >= at {
        now - at
    } else {
        0
    };
    &&& age < CHECK_INTERVAL_SECS
    &&& match cached_channel {
        Some(c) => c,
        None => Seq::<char>::empty(),
    } == spec_channel_key(channel)
}

pub fn cached_json_fresh_for_channel(checked_at: Option<u64>, cached_channel: Option<&str>, channel: UpdateChannel, now: u64) -> (r: bool)
    ensures
        r == spec_fields_fresh(
            checked_at,
            match cached_channel {
                Some(c) => Some(c@),
                None => None,
            },
            channel,
            now,
        ),
{
    let at = match checked_at {
        Some(t) => t,
        None => 0,
    };
    let fresh = now.saturating_sub(at) < CHECK_INTERVAL_SECS;
    let cached = match cached_channel {
        Some(c) => chars_of(c),
        None => Vec::new(),
    };
    let key = chars_of(channel_key(channel));
    fresh && eq_chars(&cached, &key)
}

/// Whether cache bytes (none when the file could not be read) hold a record
/// fresh for `channel` at `now`.
pub open spec fn spec_cache_fresh(cache: Option<Seq<u8>>, channel: UpdateChannel, now: u64) -> bool {
    match cache {
        Some(b) => match json_cache_fields(b) {
            Some((c, ch, _)) => spec_fields_fresh(c, ch, channel, now),
            None => false,
        },
        None => false,
    }
}

pub fn update_cache_fresh_for_channel(cache: Option<&[u8]>, channel: UpdateChannel, now: u64) -> (r: bool)
    ensures
        r == spec_cache_fresh(
            match cache {
                Some(b) => Some(b@),
                None => None,
            },
            channel,
            now,
        ),
{
    match cache {
        Some(b) => match cache_fields(b) {
            Some((c, ch, _)) => {
                let chs = match &ch {
                    Some(s) => Some(s.as_str()),
                    None => None,
                };
                cached_json_fresh_for_channel(c, chs, channel, now)
            },
            None => false,
        },
        None => false,
    }
}

/// The cached answer, when the cache is fresh: `Some(latest)` (itself none
/// when the check found no candidate); `None` when a fetch is due.
pub fn cached_latest(cache: Option<&[u8]>, channel: UpdateChannel, now: u64) -> (r: Option<Option<String>>)
    ensures
        match r {
            Some(l) => {
                &&& spec_cache_fresh(
                    match cache {
                        Some(b) => Some(b@),
                        None => None,
                    },
                    channel,
                    now,
                )
                &&& cache matches Some(b) && json_cache_fields(b@) matches Some((_, _, latest)) && opt_text(l) == latest
            },
            None => !spec_cache_fresh(
                match cache {
                    Some(b) => Some(b@),
                    None => None,
                },
                channel,
                now,
            ),
        },
{
    match cache {
        Some(b) => match cache_fields(b) {
            Some((c, ch, latest)) => {
                let chs = match &ch {
                    Some(s) => Some(s.as_str()),
                    None => None,
                };
                if cached_json_fresh_for_channel(c, chs, channel, now) {
                    Some(latest)
                } else {
                    None
                }
            },
            None => None,
        },
        None => None,
    }
}

/// The cache record a check writes: `{"channel":C,"checked_at":N,"latest":L}`,
/// L being the best tag as a JSON string, or `null`.
pub open spec fn spec_cache_json(now: u64, channel: UpdateChannel, latest: Option<Seq<char>>) -> Seq<char> {
    "{\"channel\":\""@ + spec_channel_key(channel) + "\",\"checked_at\":"@ + decimal(now as nat)
        + ",\"latest\":"@ + match latest {
        Some(l) => json_quoted(l),
        None => "null"@,
    } + "}"@
}

pub fn cache_json(now: u64, channel: UpdateChannel, latest: &Option<String>) -> (r: String)
    ensures
        r@ == spec_cache_json(now, channel, opt_text(*latest)),
{
    let mut out: Vec<char> = Vec::new();
    push_lit(&mut out, "{\"channel\":\"");
    push_lit(&mut out, channel_key(channel));
    push_lit(&mut out, "\",\"checked_at\":");
    let d = decimal_chars(now);
    push_all(&mut out, &d);
    push_lit(&mut out, ",\"latest\":");
    match latest {
        Some(l) => {
            let q = json_quote(l.as_str());
            push_lit(&mut out, q.as_str());
        },
        None => push_lit(&mut out, "null"),
    }
    push_lit(&mut out, "}");
    string_of(&out)
}

/// Whether `latest` is a newer release than `current`: both parse as
/// release tags and `current` orders before `latest`.
pub open spec fn spec_is_newer(latest: Seq<char>, current: Seq<char>) -> bool {
    match (spec_parse_tag(latest), spec_parse_tag(current)) {
        (Some(l), Some(c)) => tag_lt(c, l),
        _ => false,
    }
}

pub fn is_newer(latest: &str, current: &str) -> (r: bool)
    ensures
        r == spec_is_newer(latest@, current@),
{
    match (ReleaseTag::parse(latest), ReleaseTag::parse(current)) {
        (Some(l), Some(c)) => tag_less(&c, &l),
        _ => false,
    }
}

/// The running release: the installed tag file's text, trimmed, when it
/// parses as a release tag; else `v` and the crate version.
pub fn installed_tag_choice(tag_file: Option<String>, cargo_version: &str) -> (r: String)
    ensures
        r@ == match tag_file {
            Some(t) => if spec_parse_tag(trim(t@)) is Some {
                trim(t@)
            } else {
                seq!['v'] + cargo_version@
            },
            None => seq!['v'] + cargo_version@,
        },
{
    match tag_file {
        Some(t) => {
            let tc = chars_of(t.as_str());
            let trimmed = trim_chars(&tc);
            let ts = string_of(&trimmed);
            if ReleaseTag::parse(ts.as_str()).is_some() {
                return ts;
            }
        },
        None => {},
    }
    let mut out: Vec<char> = Vec::new();
    out.push('v');
    push_lit(&mut out, cargo_version);
    string_of(&out)
}

/// The channel a build is installed as: `main` for `plexi`, else the name
/// after `plexi-` (`main` when there is no such prefix).
pub open spec fn spec_build_channel(binary_name: Seq<char>) -> Seq<char> {
    if binary_name == "plexi"@ {
        "main"@
    } else {
        match strip_prefix(binary_name, "plexi-"@) {
            Some(rest) => rest,
            None => "main"@,
        }
    }
}

pub fn build_channel_of(binary_name: &str) -> (r: String)
    ensures
        r@ == spec_build_channel(binary_name@),
{
    let b = chars_of(binary_name);
    if crate::text::eq_lit(&b, "plexi") {
        return "main".to_owned();
    }
    match strip_prefix_lit(&b, "plexi-") {
        Some(rest) => string_of(&rest),
        None => "main".to_owned(),
    }
}

// ── self-update ───────────────────────────────────────────────────────────

/// `plexi update` refuses to run from a pane of another channel: a
/// non-empty `PLEXI_CHANNEL` that differs from this build's channel
/// (`main` for a build without one).
pub open spec fn spec_channel_mismatch(pty_channel: Option<Seq<char>>, build_channel: Option<Seq<char>>, binary_name: Seq<char>) -> Option<Seq<char>> {
    let channel = match build_channel {
        Some(c) => c,
        None => "main"@,
    };
    match pty_channel {
        Some(p) => if p.len() > 0 && p != channel {
            Some(
                "error: PLEXI_CHANNEL="@ + p + " but this binary is '"@ + binary_name + "' (channel "@ + channel
                    + ").\nRun the matching channel binary to self-update."@,
            )
        } else {
            None
        },
        None => None,
    }
}

pub fn channel_mismatch(pty_channel: Option<&str>, build_channel: Option<&str>, binary_name: &str) -> (r: Option<String>)
    ensures
        opt_text(r) == spec_channel_mismatch(
            match pty_channel {
                Some(p) => Some(p@),
                None => None,
            },
            match build_channel {
                Some(c) => Some(c@),
                None => None,
            },
            binary_name@,
        ),
{
    let channel: String = match build_channel {
        Some(c) => c.to_owned(),
        None => "main".to_owned(),
    };
    match pty_channel {
        Some(p) => {
            let pc = chars_of(p);
            let cc = chars_of(channel.as_str());
            if pc.len() > 0 && !eq_chars(&pc, &cc) {
                let mut out: Vec<char> = Vec::new();
                push_lit(&mut out, "error: PLEXI_CHANNEL=");
                push_lit(&mut out, p);
                push_lit(&mut out, " but this binary is '");
                push_lit(&mut out, binary_name);
                push_lit(&mut out, "' (channel ");
                push_lit(&mut out, channel.as_str());
                push_lit(&mut out, ").\nRun the matching channel binary to self-update.");
                Some(string_of(&out))
            } else {
                None
            }
        },
        None => None,
    }
}

/// `s` without every leading `c` (`str::trim_start_matches` with a char).
pub open spec fn trim_leading(s: Seq<char>, c: char) -> Seq<char>
    decreases s.len(),
{
    if s.len() > 0 && s[0] == c {
        trim_leading(s.drop_first(), c)
    } else {
        s
    }
}

/// A release's version: its tag without leading `v`s.
pub fn release_version(tag: &str) -> (r: String)
    ensures
        r@ == trim_leading(tag@, 'v'),
{
    let t = chars_of(tag);
    let mut i: usize = 0;
    assert(t@.skip(0) =~= t@);
    while i < t.len() && t[i] == 'v'
        invariant
            i <= t@.len(),
            trim_leading(t@, 'v') == trim_leading(t@.skip(i as int), 'v'),
        decreases t@.len() - i,
    {
        assert(t@.skip(i as int).drop_first() =~= t@.skip(i + 1));
        i = i + 1;
    }
    let rest = crate::text::slice_of(&t, i, t.len());
    assert(rest@ =~= t@.skip(i as int));
    string_of(&rest)
}

/// Where the install script of a release is fetched from.
pub fn install_script_url(tag: &str) -> (r: String)
    ensures
        r@ == "https://raw.githubusercontent.com/ianjamesburke/PLEXI/"@ + tag@ + "/scripts/install.sh"@,
{
    let mut out: Vec<char> = Vec::new();
    push_lit(&mut out, "https://raw.githubusercontent.com/ianjamesburke/PLEXI/");
    push_lit(&mut out, tag);
    push_lit(&mut out, "/scripts/install.sh");
    string_of(&out)
}

/// What `plexi update` reports: no newer release, or the one installed.
pub fn self_update_result(current: &str, installed_version: Option<&str>) -> (r: String)
    ensures
        r@ == match installed_version {
            Some(v) => "Installed v"@ + v@ + ". Restart Plexi to apply."@,
            None => "Already up to date ("@ + current@ + ")."@,
        },
{
    let mut out: Vec<char> = Vec::new();
    match installed_version {
        Some(v) => {
            push_lit(&mut out, "Installed v");
            push_lit(&mut out, v);
            push_lit(&mut out, ". Restart Plexi to apply.");
        },
        None => {
            push_lit(&mut out, "Already up to date (");
            push_lit(&mut out, current);
            push_lit(&mut out, ").");
        },
    }
    string_of(&out)
}

} // verus!
