//! `plexi open github:owner/repo`: the source is parsed into its owner and
//! repository, cloned into a cache, and opened by path — through the command
//! socket inside a Plexi pane, or through the spawn queue outside one.  This
//! module holds what that decides: the parse, the clone URL and the two JSON
//! requests.  It also reads the host's replies to `pane send --submit` and
//! `pane slot wait`.

use vstd::prelude::*;
use vstd::string::StringSliceAdditionalSpecFns;
use crate::cloud_runtime::json_quoted;
use crate::open::{SlotWaitOutcome, SubmitOutcome};
use crate::install::{trim_end_all, trim_end_all_lit};
use crate::notify::{member_if, push_member_num, push_member_quoted, push_quoted};
use crate::text::{
    chars_of, decimal, push_all, push_lit, slice_of, split_once, split_once_chars, string_of,
    strip_prefix, strip_prefix_lit, opt_text, parse_u64, parse_u64_chars,
};

verus! {

/// The error for a source that is not `github:owner/repo`.
pub open spec fn github_source_error(source: Seq<char>) -> Seq<char> {
    "invalid github source '"@ + source + "'; expected 'github:owner/repo'"@
}

/// `github:owner/repo` (the prefix optional) split at its first `/`; both
/// parts must be non-empty, and the repository loses every trailing `.git`.
pub open spec fn spec_github_source(source: Seq<char>) -> Result<(Seq<char>, Seq<char>), Seq<char>> {
    let rest = match strip_prefix(source, "github:"@) {
        Some(r) => r,
        None => source,
    };
    match split_once(rest, '/') {
        Some((owner, repo)) => if owner.len() == 0 || repo.len() == 0 {
            Err(github_source_error(source))
        } else {
            Ok((owner, trim_end_all(repo, ".git"@)))
        },
        None => Err(github_source_error(source)),
    }
}

pub fn github_source_parts(source: &str) -> (r: Result<(String, String), String>)
    ensures
        match r {
            Ok((o, p)) => spec_github_source(source@) == Ok::<(Seq<char>, Seq<char>), Seq<char>>((o@, p@)),
            Err(e) => spec_github_source(source@) == Err::<(Seq<char>, Seq<char>), Seq<char>>(e@),
        },
{
    let s = chars_of(source);
    let rest = match strip_prefix_lit(&s, "github:") {
        Some(r) => r,
        None => slice_of(&s, 0, s.len()),
    };
    proof {
        assert(s@.subrange(0, s@.len() as int) =~= s@);
    }
    let mut err: Vec<char> = Vec::new();
    push_lit(&mut err, "invalid github source '");
    push_lit(&mut err, source);
    push_lit(&mut err, "'; expected 'github:owner/repo'");
    match split_once_chars(&rest, '/') {
        Some((owner, repo)) => {
            if owner.len() == 0 || repo.len() == 0 {
                Err(string_of(&err))
            } else {
                proof {
                    reveal_strlit(".git");
                }
                let trimmed = trim_end_all_lit(&repo, ".git");
                Ok((string_of(&owner), string_of(&trimmed)))
            }
        },
        None => Err(string_of(&err)),
    }
}

/// The URL the repository is cloned from.
pub open spec fn spec_github_clone_url(owner: Seq<char>, repo: Seq<char>) -> Seq<char> {
    "https://github.com/"@ + owner + "/"@ + repo + ".git"@
}

pub fn github_clone_url(owner: &str, repo: &str) -> (r: String)
    ensures
        r@ == spec_github_clone_url(owner@, repo@),
{
    let mut out: Vec<char> = Vec::new();
    push_lit(&mut out, "https://github.com/");
    push_lit(&mut out, owner);
    push_lit(&mut out, "/");
    push_lit(&mut out, repo);
    push_lit(&mut out, ".git");
    string_of(&out)
}

/// An optional string as a JSON value: quoted, or `null`.
pub open spec fn json_opt_str(v: Option<Seq<char>>) -> Seq<char> {
    match v {
        Some(s) => json_quoted(s),
        None => "null"@,
    }
}

pub open spec fn quoted_opt(v: Option<Seq<char>>) -> Option<Seq<char>> {
    match v {
        Some(s) => Some(json_quoted(s)),
        None => None,
    }
}

pub open spec fn number_opt(v: Option<u64>) -> Option<Seq<char>> {
    match v {
        Some(n) => Some(decimal(n as nat)),
        None => None,
    }
}

pub open spec fn opt_str(v: Option<&str>) -> Option<Seq<char>> {
    match v {
        Some(s) => Some(s@),
        None => None,
    }
}

/// An object from its members, each written with a leading comma.
pub open spec fn object_of(members: Seq<char>) -> Seq<char> {
    "{"@ + members.skip(1) + "}"@
}

/// The `spawn_pane` request sent over the command socket, members in key
/// order: cwd, from_pane_id, layout (`null` when unset), path,
/// response_file, type, type_id (empty), workspace_root; the optional
/// members appear only when set.
pub open spec fn spec_github_spawn_payload(
    path: Seq<char>,
    layout: Option<Seq<char>>,
    response_file: Seq<char>,
    from_pane_id: Option<u64>,
    workspace_root: Option<Seq<char>>,
    cwd: Option<Seq<char>>,
) -> Seq<char> {
    object_of(
        member_if("cwd"@, quoted_opt(cwd)) + member_if("from_pane_id"@, number_opt(from_pane_id))
            + ",\"layout\":"@ + json_opt_str(layout) + ",\"path\":"@ + json_quoted(path)
            + ",\"response_file\":"@ + json_quoted(response_file)
            + ",\"type\":\"spawn_pane\",\"type_id\":\"\""@ + member_if(
            "workspace_root"@,
            quoted_opt(workspace_root),
        ),
    )
}

pub(crate) fn push_json_opt(out: &mut Vec<char>, v: Option<&str>)
    ensures
        final(out)@ == old(out)@ + json_opt_str(opt_str(v)),
{
    match v {
        Some(s) => push_quoted(out, s),
        None => push_lit(out, "null"),
    }
}

pub(crate) fn object_from(members: &Vec<char>) -> (r: String)
    requires
        members@.len() > 0,
    ensures
        r@ == object_of(members@),
{
    let mut out: Vec<char> = Vec::new();
    push_lit(&mut out, "{");
    let tail = slice_of(members, 1, members.len());
    push_all(&mut out, &tail);
    push_lit(&mut out, "}");
    proof {
        assert(tail@ =~= members@.skip(1));
    }
    string_of(&out)
}

pub fn github_spawn_payload(
    path: &str,
    layout: Option<&str>,
    response_file: &str,
    from_pane_id: Option<u64>,
    workspace_root: Option<&str>,
    cwd: Option<&str>,
) -> (r: String)
    ensures
        r@ == spec_github_spawn_payload(
            path@,
            opt_str(layout),
            response_file@,
            from_pane_id,
            opt_str(workspace_root),
            opt_str(cwd),
        ),
{
    let mut m: Vec<char> = Vec::new();
    push_member_quoted(&mut m, "cwd", cwd);
    push_member_num(&mut m, "from_pane_id", from_pane_id);
    push_lit(&mut m, ",\"layout\":");
    push_json_opt(&mut m, layout);
    push_lit(&mut m, ",\"path\":");
    push_quoted(&mut m, path);
    push_lit(&mut m, ",\"response_file\":");
    push_quoted(&mut m, response_file);
    push_lit(&mut m, ",\"type\":\"spawn_pane\",\"type_id\":\"\"");
    push_member_quoted(&mut m, "workspace_root", workspace_root);
    proof {
        let ghost want = member_if("cwd"@, quoted_opt(opt_str(cwd))) + member_if(
            "from_pane_id"@,
            number_opt(from_pane_id),
        ) + ",\"layout\":"@ + json_opt_str(opt_str(layout)) + ",\"path\":"@ + json_quoted(path@)
            + ",\"response_file\":"@ + json_quoted(response_file@)
            + ",\"type\":\"spawn_pane\",\"type_id\":\"\""@ + member_if(
            "workspace_root"@,
            quoted_opt(opt_str(workspace_root)),
        );
        assert(m@ =~= want);
        reveal_strlit(",\"layout\":");
    }
    object_from(&m)
}

/// The request queued for a running host when no command socket is at
/// hand, members in key order: cwd, layout (`null` when unset), origin
/// (`open github`), path, queued_at_ms, type_id (empty), workspace_root.
pub open spec fn spec_github_queue_payload(
    path: Seq<char>,
    layout: Option<Seq<char>>,
    queued_at_ms: u64,
    workspace_root: Option<Seq<char>>,
    cwd: Option<Seq<char>>,
) -> Seq<char> {
    object_of(
        member_if("cwd"@, quoted_opt(cwd)) + ",\"layout\":"@ + json_opt_str(layout)
            + ",\"origin\":\"open github\",\"path\":"@ + json_quoted(path) + ",\"queued_at_ms\":"@
            + decimal(queued_at_ms as nat) + ",\"type_id\":\"\""@ + member_if(
            "workspace_root"@,
            quoted_opt(workspace_root),
        ),
    )
}

pub fn github_queue_payload(
    path: &str,
    layout: Option<&str>,
    queued_at_ms: u64,
    workspace_root: Option<&str>,
    cwd: Option<&str>,
) -> (r: String)
    ensures
        r@ == spec_github_queue_payload(
            path@,
            opt_str(layout),
            queued_at_ms,
            opt_str(workspace_root),
            opt_str(cwd),
        ),
{
    let mut m: Vec<char> = Vec::new();
    push_member_quoted(&mut m, "cwd", cwd);
    push_lit(&mut m, ",\"layout\":");
    push_json_opt(&mut m, layout);
    push_lit(&mut m, ",\"origin\":\"open github\",\"path\":");
    push_quoted(&mut m, path);
    push_lit(&mut m, ",\"queued_at_ms\":");
    let d = crate::text::decimal_chars(queued_at_ms);
    push_all(&mut m, &d);
    push_lit(&mut m, ",\"type_id\":\"\"");
    push_member_quoted(&mut m, "workspace_root", workspace_root);
    proof {
        let ghost want = member_if("cwd"@, quoted_opt(opt_str(cwd))) + ",\"layout\":"@
            + json_opt_str(opt_str(layout)) + ",\"origin\":\"open github\",\"path\":"@
            + json_quoted(path@) + ",\"queued_at_ms\":"@ + decimal(queued_at_ms as nat)
            + ",\"type_id\":\"\""@ + member_if("workspace_root"@, quoted_opt(opt_str(workspace_root)));
        assert(m@ =~= want);
        reveal_strlit(",\"layout\":");
    }
    object_from(&m)
}

/// What the command prints once the request is queued.
pub open spec fn spec_github_queued_message(owner: Seq<char>, repo: Seq<char>) -> Seq<char> {
    "queued: open github:"@ + owner + "/"@ + repo
}

pub fn github_queued_message(owner: &str, repo: &str) -> (r: String)
    ensures
        r@ == spec_github_queued_message(owner@, repo@),
{
    let mut out: Vec<char> = Vec::new();
    push_lit(&mut out, "queued: open github:");
    push_lit(&mut out, owner);
    push_lit(&mut out, "/");
    push_lit(&mut out, repo);
    string_of(&out)
}

// ── host replies ────────────────────────────────────────────────────────────

/// The members of a host reply that parses as JSON: `pane_id` as a `u64`,
/// `error` as a string, `timeout`, `ok` and `retried` as booleans, and the
/// items of the `input_line` array each as a string (`None` for an item of
/// another type); a member is `None` when absent or of another type.  The
/// whole is `None` when the bytes are not JSON.
pub uninterp spec fn json_reply(raw: Seq<u8>) -> Option<(Option<u64>, Option<Seq<char>>, Option<bool>, Option<bool>, Option<bool>, Option<Seq<Option<Seq<char>>>>)>;

pub open spec fn opt_texts(v: Option<Vec<Option<String>>>) -> Option<Seq<Option<Seq<char>>>> {
    match v {
        Some(items) => Some(items@.map_values(|x: Option<String>| opt_text(x))),
        None => None,
    }
}

/// The members a host reply is read by, as parsed: `pane_id`, `error`,
/// `timeout`, `ok`, `retried` and the `input_line` items.
pub type ReplyMembers = (Option<u64>, Option<String>, Option<bool>, Option<bool>, Option<bool>, Option<Vec<Option<String>>>);

pub open spec fn members_view(m: Option<ReplyMembers>) -> Option<(Option<u64>, Option<Seq<char>>, Option<bool>, Option<bool>, Option<bool>, Option<Seq<Option<Seq<char>>>>)> {
    match m {
        Some((p, e, t, o, re, l)) => Some((p, opt_text(e), t, o, re, opt_texts(l))),
        None => None,
    }
}

/// `serde_json::from_slice` into a JSON value, then the members a reply is
/// read by.
#[verifier::external_body]
pub(crate) fn reply_fields(raw: &[u8]) -> (r: Option<ReplyMembers>)
    ensures
        json_reply(raw@) == members_view(r),
{
    match serde_json::from_slice::<serde_json::Value>(raw) {
        Ok(j) => Some((
            j["pane_id"].as_u64(),
            j["error"].as_str().map(str::to_owned),
            j["timeout"].as_bool(),
            j["ok"].as_bool(),
            j["retried"].as_bool(),
            j["input_line"].as_array().map(|a| a.iter().map(|x| x.as_str().map(str::to_owned)).collect()),
        )),
        Err(_) => None,
    }
}

/// The strings among the items, in order.
pub open spec fn strings_of(items: Seq<Option<Seq<char>>>) -> Seq<Seq<char>>
    decreases items.len(),
{
    if items.len() == 0 {
        seq![]
    } else {
        let rest = strings_of(items.drop_last());
        match items.last() {
            Some(s) => rest.push(s),
            None => rest,
        }
    }
}

fn strings_in(items: &Vec<Option<String>>) -> (r: Vec<String>)
    ensures
        crate::text::texts_of(r@) == strings_of(items@.map_values(|x: Option<String>| opt_text(x))),
{
    let ghost its = items@.map_values(|x: Option<String>| opt_text(x));
    let mut out: Vec<String> = Vec::new();
    let mut i: usize = 0;
    while i < items.len()
        invariant
            i <= items@.len(),
            its == items@.map_values(|x: Option<String>| opt_text(x)),
            crate::text::texts_of(out@) == strings_of(its.take(i as int)),
        decreases items@.len() - i,
    {
        proof {
            assert(its.take(i + 1).drop_last() =~= its.take(i as int));
        }
        match &items[i] {
            Some(s) => {
                let ghost before = out@;
                out.push(s.clone());
                assert(crate::text::texts_of(out@) =~= crate::text::texts_of(before).push(s@));
            },
            None => {},
        }
        i = i + 1;
    }
    proof {
        assert(its.take(items@.len() as int) =~= its);
    }
    out
}

/// What a `pane send --submit` reply means: confirmed only when it says
/// `"ok": true` (with whether the host had to retry); otherwise
/// unconfirmed, with the host's error (or a default) and the input line it
/// observed.  A reply that is not JSON is unconfirmed too.
pub open spec fn spec_submit_outcome(reply: Seq<char>, fields: Option<(Option<u64>, Option<Seq<char>>, Option<bool>, Option<bool>, Option<bool>, Option<Seq<Option<Seq<char>>>>)>) -> (bool, bool, Seq<char>, Seq<Seq<char>>) {
    match fields {
        None => (false, false, "invalid submit response from host: "@ + reply, seq![]),
        Some((_, error, _, ok, retried, input_line)) => if ok == Some(true) {
            (true, retried == Some(true), seq![], seq![])
        } else {
            (
                false,
                false,
                match error {
                    Some(e) => e,
                    None => "submission not confirmed"@,
                },
                match input_line {
                    Some(items) => strings_of(items),
                    None => seq![],
                },
            )
        },
    }
}

pub open spec fn submit_view(o: SubmitOutcome) -> (bool, bool, Seq<char>, Seq<Seq<char>>) {
    match o {
        SubmitOutcome::Confirmed { retried } => (true, retried, seq![], seq![]),
        SubmitOutcome::Unconfirmed { message, input_line } => (false, false, message@, crate::text::texts_of(input_line@)),
    }
}

pub fn submit_outcome(reply: &str) -> (r: SubmitOutcome)
    ensures
        submit_view(r) == spec_submit_outcome(reply@, json_reply(reply.spec_bytes())),
{
    submit_outcome_of(reply, reply_fields(reply.as_bytes()))
}

/// `submit_outcome` for a reply whose members were read (`None` when it is
/// not JSON).
pub fn submit_outcome_of(reply: &str, fields: Option<ReplyMembers>) -> (r: SubmitOutcome)
    ensures
        submit_view(r) == spec_submit_outcome(reply@, members_view(fields)),
{
    match fields {
        None => {
            let mut m: Vec<char> = Vec::new();
            push_lit(&mut m, "invalid submit response from host: ");
            push_lit(&mut m, reply);
            let out = SubmitOutcome::Unconfirmed { message: string_of(&m), input_line: Vec::new() };
            proof {
                assert(crate::text::texts_of(Seq::<String>::empty()) =~= Seq::<Seq<char>>::empty());
            }
            out
        },
        Some((_, error, _, ok, retried, input_line)) => {
            let retried_b = match retried {
                Some(b) => b,
                None => false,
            };
            if ok == Some(true) {
                return SubmitOutcome::Confirmed { retried: retried_b };
            }
            let message = match error {
                Some(e) => e,
                None => "submission not confirmed".to_owned(),
            };
            let lines = match &input_line {
                Some(items) => strings_in(items),
                None => {
                    let v: Vec<String> = Vec::new();
                    assert(crate::text::texts_of(v@) =~= Seq::<Seq<char>>::empty());
                    v
                },
            };
            SubmitOutcome::Unconfirmed { message, input_line: lines }
        },
    }
}

/// The reply a `pane slot wait` got: the slot's bytes, or an error body.
pub enum SlotReply {
    Data(Vec<u8>),
    ErrorBody(Vec<u8>),
}

/// Why no reply came: the client-side wait ran out, or another failure
/// with its message.
pub enum PollFailure {
    TimedOut,
    Other(String),
}

pub open spec fn slot_wait_view(o: SlotWaitOutcome) -> (int, Seq<u8>, Seq<char>) {
    match o {
        SlotWaitOutcome::Matched(b) => (0, b@, seq![]),
        SlotWaitOutcome::Failed(m) => (1, seq![], m@),
        SlotWaitOutcome::TimedOut(m) => (2, seq![], m@),
    }
}

/// What a `pane slot wait` reply means: the bytes of a match; for an error
/// body that parses, its message (or a default), a timeout when it says
/// `"timeout": true` and a failure otherwise; an error body that does not
/// parse, or no reply at all, is a failure.
pub open spec fn spec_slot_wait(reply: Result<SlotReply, PollFailure>) -> (int, Seq<u8>, Seq<char>) {
    match reply {
        Ok(SlotReply::Data(b)) => (0, b@, seq![]),
        Ok(SlotReply::ErrorBody(b)) => spec_slot_error(json_reply(b@)),
        Err(PollFailure::TimedOut) => (
            1,
            seq![],
            "no response from host within the slot wait window — the host may not be running"@,
        ),
        Err(PollFailure::Other(m)) => (1, seq![], m@),
    }
}

/// What an error body of a slot wait means, by its members (`None` when it
/// is not JSON): its message (or a default), a timeout when it says
/// `"timeout": true` and a failure otherwise; a body that does not parse is
/// a failure.
pub open spec fn spec_slot_error(fields: Option<(Option<u64>, Option<Seq<char>>, Option<bool>, Option<bool>, Option<bool>, Option<Seq<Option<Seq<char>>>>)>) -> (int, Seq<u8>, Seq<char>) {
    match fields {
        None => (1, seq![], "invalid slot wait error response"@),
        Some((_, error, timeout, _, _, _)) => {
            let m = match error {
                Some(e) => e,
                None => "slot wait failed"@,
            };
            if timeout == Some(true) {
                (2, seq![], m)
            } else {
                (1, seq![], m)
            }
        },
    }
}

pub fn slot_error_outcome(fields: Option<ReplyMembers>) -> (r: SlotWaitOutcome)
    ensures
        slot_wait_view(r) == spec_slot_error(members_view(fields)),
{
    match fields {
        None => SlotWaitOutcome::Failed("invalid slot wait error response".to_owned()),
        Some((_, error, timeout, _, _, _)) => {
            let m = match error {
                Some(e) => e,
                None => "slot wait failed".to_owned(),
            };
            if timeout == Some(true) {
                SlotWaitOutcome::TimedOut(m)
            } else {
                SlotWaitOutcome::Failed(m)
            }
        },
    }
}

pub fn slot_wait_outcome(reply: Result<SlotReply, PollFailure>) -> (r: SlotWaitOutcome)
    ensures
        slot_wait_view(r) == spec_slot_wait(reply),
{
    match reply {
        Ok(SlotReply::Data(b)) => SlotWaitOutcome::Matched(b),
        Ok(SlotReply::ErrorBody(b)) => slot_error_outcome(reply_fields(b.as_slice())),
        Err(PollFailure::TimedOut) => SlotWaitOutcome::Failed(
            "no response from host within the slot wait window — the host may not be running".to_owned(),
        ),
        Err(PollFailure::Other(m)) => SlotWaitOutcome::Failed(m),
    }
}


// ── the pane a command acts on ──────────────────────────────────────────────

pub open spec fn pane_unset_message() -> Seq<char> {
    "pane_id not provided and PLEXI_PANE_ID is not set — run inside a Plexi pane or pass a pane ID"@
}

pub open spec fn pane_env_invalid_message(raw: Seq<char>) -> Seq<char> {
    "PLEXI_PANE_ID is not a valid number: "@ + raw
}

/// The pane a command acts on: the one given, else the value of
/// `PLEXI_PANE_ID`, which must be set and hold a `u64`.
pub open spec fn spec_resolve_pane_id(pane_id: Option<u64>, env: Option<Seq<char>>) -> Result<u64, Seq<char>> {
    match pane_id {
        Some(id) => Ok(id),
        None => match env {
            None => Err(pane_unset_message()),
            Some(raw) => match parse_u64(raw) {
                Some(id) => Ok(id),
                None => Err(pane_env_invalid_message(raw)),
            },
        },
    }
}

pub fn resolve_pane_id(pane_id: Option<u64>, env: Option<&str>) -> (r: Result<u64, String>)
    ensures
        match (r, spec_resolve_pane_id(pane_id, opt_str(env))) {
            (Ok(a), Ok(b)) => a == b,
            (Err(a), Err(b)) => a@ == b,
            _ => false,
        },
{
    match pane_id {
        Some(id) => Ok(id),
        None => match env {
            None => Err(
                "pane_id not provided and PLEXI_PANE_ID is not set — run inside a Plexi pane or pass a pane ID".to_owned(),
            ),
            Some(raw) => {
                let cs = chars_of(raw);
                match parse_u64_chars(&cs) {
                    Some(id) => Ok(id),
                    None => {
                        let mut m: Vec<char> = Vec::new();
                        push_lit(&mut m, "PLEXI_PANE_ID is not a valid number: ");
                        push_lit(&mut m, raw);
                        Err(string_of(&m))
                    },
                }
            },
        },
    }
}


/// `PLEXI_PANE_ID` as a pane: `unset` when it is not set, an error naming
/// the value when it is not a `u64`.
pub open spec fn spec_env_pane_id(env: Option<Seq<char>>, unset: Seq<char>) -> Result<u64, Seq<char>> {
    match env {
        None => Err(unset),
        Some(raw) => match parse_u64(raw) {
            Some(id) => Ok(id),
            None => Err(pane_env_invalid_message(raw)),
        },
    }
}

pub fn env_pane_id(env: Option<&str>, unset: &str) -> (r: Result<u64, String>)
    ensures
        match (r, spec_env_pane_id(opt_str(env), unset@)) {
            (Ok(a), Ok(b)) => a == b,
            (Err(a), Err(b)) => a@ == b,
            _ => false,
        },
{
    match env {
        None => Err(unset.to_owned()),
        Some(raw) => {
            let cs = chars_of(raw);
            match parse_u64_chars(&cs) {
                Some(id) => Ok(id),
                None => {
                    let mut m: Vec<char> = Vec::new();
                    push_lit(&mut m, "PLEXI_PANE_ID is not a valid number: ");
                    push_lit(&mut m, raw);
                    Err(string_of(&m))
                },
            }
        },
    }
}

/// The error a reply reports: its `error` string, when the reply is JSON
/// that says `"ok": false`.
pub open spec fn spec_response_error(content: Seq<u8>) -> Option<Seq<char>> {
    match json_reply(content) {
        Some((_, error, _, ok, _, _)) => if ok == Some(false) {
            error
        } else {
            None
        },
        None => None,
    }
}

pub fn response_error(content: &[u8]) -> (r: Option<String>)
    ensures
        opt_text(r) == spec_response_error(content@),
{
    match reply_fields(content) {
        Some((_, error, _, ok, _, _)) => if ok == Some(false) {
            error
        } else {
            None
        },
        None => None,
    }
}


/// The error a host reply carries: its `error` string, when the reply is
/// JSON with one.
pub open spec fn spec_host_error(content: Seq<u8>) -> Option<Seq<char>> {
    match json_reply(content) {
        Some((_, error, _, _, _, _)) => error,
        None => None,
    }
}

pub fn host_error(content: &str) -> (r: Option<String>)
    ensures
        opt_text(r) == spec_host_error(content.spec_bytes()),
{
    match reply_fields(content.as_bytes()) {
        Some((_, error, _, _, _, _)) => error,
        None => None,
    }
}

/// A tip for stderr: shown unless the configuration turns tips off (they
/// are on by default), dimmed unless `NO_COLOR` is set.
pub open spec fn spec_tip_line(msg: Seq<char>, tips: Option<bool>, no_color: bool) -> Option<Seq<char>> {
    if tips == Some(false) {
        None
    } else if no_color {
        Some("tip: "@ + msg)
    } else {
        Some("\x1b[2mtip: "@ + msg + "\x1b[0m"@)
    }
}

pub fn tip_line(msg: &str, tips: Option<bool>, no_color: bool) -> (r: Option<String>)
    ensures
        opt_text(r) == spec_tip_line(msg@, tips, no_color),
{
    if tips == Some(false) {
        return None;
    }
    let mut m: Vec<char> = Vec::new();
    if no_color {
        push_lit(&mut m, "tip: ");
        push_lit(&mut m, msg);
    } else {
        push_lit(&mut m, "\x1b[2mtip: ");
        push_lit(&mut m, msg);
        push_lit(&mut m, "\x1b[0m");
    }
    Some(string_of(&m))
}

pub open spec fn retried_tip() -> Seq<char> {
    "the prompt was still parked as a collapsed paste; a second Enter submitted it"@
}

/// What `pane send --submit` writes to stderr for an outcome: for a submit
/// the host had to retry, the tip saying so; for an unconfirmed one, the
/// error and then each observed input line indented by two spaces.
pub open spec fn spec_submit_report(o: (bool, bool, Seq<char>, Seq<Seq<char>>), tips: Option<bool>, no_color: bool) -> Seq<Seq<char>> {
    if o.0 {
        if o.1 {
            match spec_tip_line(retried_tip(), tips, no_color) {
                Some(t) => seq![t],
                None => seq![],
            }
        } else {
            seq![]
        }
    } else {
        seq!["error: "@ + o.2] + o.3.map_values(|l: Seq<char>| "  "@ + l)
    }
}

pub fn submit_report(outcome: &SubmitOutcome, tips: Option<bool>, no_color: bool) -> (r: Vec<String>)
    ensures
        crate::text::texts_of(r@) == spec_submit_report(submit_view(*outcome), tips, no_color),
{
    let mut out: Vec<String> = Vec::new();
    match outcome {
        SubmitOutcome::Confirmed { retried } => {
            if *retried {
                match tip_line("the prompt was still parked as a collapsed paste; a second Enter submitted it", tips, no_color) {
                    Some(t) => {
                        out.push(t);
                        assert(crate::text::texts_of(out@) =~= seq![crate::text::texts_of(out@)[0]]);
                    },
                    None => {
                        assert(crate::text::texts_of(out@) =~= Seq::<Seq<char>>::empty());
                    },
                }
            } else {
                assert(crate::text::texts_of(out@) =~= Seq::<Seq<char>>::empty());
            }
        },
        SubmitOutcome::Unconfirmed { message, input_line } => {
            let mut m: Vec<char> = Vec::new();
            push_lit(&mut m, "error: ");
            push_lit(&mut m, message.as_str());
            out.push(string_of(&m));
            let ghost lv = crate::text::texts_of(input_line@);
            let mut i: usize = 0;
            assert(crate::text::texts_of(out@) =~= seq!["error: "@ + message@] + lv.take(0).map_values(|l: Seq<char>| "  "@ + l));
            while i < input_line.len()
                invariant
                    i <= input_line@.len(),
                    lv == crate::text::texts_of(input_line@),
                    crate::text::texts_of(out@) == seq!["error: "@ + message@] + lv.take(i as int).map_values(|l: Seq<char>| "  "@ + l),
                decreases input_line@.len() - i,
            {
                let mut l: Vec<char> = Vec::new();
                push_lit(&mut l, "  ");
                push_lit(&mut l, input_line[i].as_str());
                let ghost before = crate::text::texts_of(out@);
                out.push(string_of(&l));
                assert(crate::text::texts_of(out@) =~= before.push("  "@ + lv[i as int]));
                assert(lv.take(i + 1).map_values(|l: Seq<char>| "  "@ + l) =~= lv.take(i as int).map_values(|l: Seq<char>| "  "@ + l).push("  "@ + lv[i as int]));
                i = i + 1;
            }
            assert(lv.take(input_line@.len() as int) =~= lv);
        },
    }
    out
}

} // verus!
