//! Named leases arbitrated by the host.  A lease is held on behalf of a
//! pane; this module decides which pane a lock command speaks for, writes
//! the release and status requests, and reads what the host answers.

use vstd::prelude::*;
use crate::cloud_runtime::json_quoted;
use crate::notify::push_quoted;
use crate::pane::{json_reply, reply_fields, SlotReply};
use crate::text::{chars_of, decimal, decimal_chars, parse_u64, parse_u64_chars, push_all, push_lit, string_of};

verus! {

pub open spec fn pane_required_message() -> Seq<char> {
    "PLEXI_PANE_ID is required — run lock commands from a Plexi pane"@
}

/// The pane a lock command speaks for: the value of `PLEXI_PANE_ID`, which
/// must be set and hold a `u64`.
pub fn lock_pane_id(env: Option<&str>) -> (r: Result<u64, String>)
    ensures
        match r {
            Ok(id) => env is Some && parse_u64(env.unwrap()@) == Some(id),
            Err(m) => m@ == pane_required_message() && (env is None || parse_u64(env.unwrap()@) is None),
        },
{
    match env {
        Some(v) => {
            let cs = chars_of(v);
            match parse_u64_chars(&cs) {
                Some(id) => Ok(id),
                None => Err("PLEXI_PANE_ID is required — run lock commands from a Plexi pane".to_owned()),
            }
        },
        None => Err("PLEXI_PANE_ID is required — run lock commands from a Plexi pane".to_owned()),
    }
}

/// The request that gives a lease back, members in key order: name,
/// pane_id, response_file, type.
pub open spec fn spec_release_request(name: Seq<char>, pane_id: u64, response_file: Seq<char>) -> Seq<char> {
    "{\"name\":"@ + json_quoted(name) + ",\"pane_id\":"@ + decimal(pane_id as nat) + ",\"response_file\":"@
        + json_quoted(response_file) + ",\"type\":\"lock_release\"}"@
}

pub fn release_request(name: &str, pane_id: u64, response_file: &str) -> (r: String)
    ensures
        r@ == spec_release_request(name@, pane_id, response_file@),
{
    let mut out: Vec<char> = Vec::new();
    push_lit(&mut out, "{\"name\":");
    push_quoted(&mut out, name);
    push_lit(&mut out, ",\"pane_id\":");
    let d = decimal_chars(pane_id);
    push_all(&mut out, &d);
    push_lit(&mut out, ",\"response_file\":");
    push_quoted(&mut out, response_file);
    push_lit(&mut out, ",\"type\":\"lock_release\"}");
    string_of(&out)
}

/// The request that asks who holds a lease, members in key order: name,
/// response_file, type.
pub open spec fn spec_status_request(name: Seq<char>, response_file: Seq<char>) -> Seq<char> {
    "{\"name\":"@ + json_quoted(name) + ",\"response_file\":"@ + json_quoted(response_file)
        + ",\"type\":\"lock_status\"}"@
}

pub fn status_request(name: &str, response_file: &str) -> (r: String)
    ensures
        r@ == spec_status_request(name@, response_file@),
{
    let mut out: Vec<char> = Vec::new();
    push_lit(&mut out, "{\"name\":");
    push_quoted(&mut out, name);
    push_lit(&mut out, ",\"response_file\":");
    push_quoted(&mut out, response_file);
    push_lit(&mut out, ",\"type\":\"lock_status\"}");
    string_of(&out)
}

/// What the host answered a lock request.
pub enum LockReply {
    /// The reply said `"ok": true`.
    Granted,
    /// The reply parsed but did not say `"ok": true`; its bytes.
    Refused(Vec<u8>),
    /// The reply was not JSON; its bytes.
    Invalid(Vec<u8>),
    /// An error reply, or no reply: the message, and whether the host said
    /// the wait timed out.
    Failed { message: String, timed_out: bool },
}

pub open spec fn lock_reply_view(r: LockReply) -> (int, Seq<u8>, Seq<char>, bool) {
    match r {
        LockReply::Granted => (0, seq![], seq![], false),
        LockReply::Refused(b) => (1, b@, seq![], false),
        LockReply::Invalid(b) => (2, b@, seq![], false),
        LockReply::Failed { message, timed_out } => (3, seq![], message@, timed_out),
    }
}

/// What a reply to a lock request means.  A data reply grants the lease
/// only when it says `"ok": true`.  An error reply carries the host's
/// message (`lock request failed` when it has none, `invalid lock error`
/// when it is not JSON) and whether it says `"timeout": true`.  A reply
/// that never came carries the reason.
pub open spec fn spec_lock_reply(reply: Result<SlotReply, String>) -> (int, Seq<u8>, Seq<char>, bool) {
    match reply {
        Ok(SlotReply::Data(b)) => match json_reply(b@) {
            None => (2, b@, seq![], false),
            Some((_, _, _, ok, _, _)) => if ok == Some(true) {
                (0, seq![], seq![], false)
            } else {
                (1, b@, seq![], false)
            },
        },
        Ok(SlotReply::ErrorBody(b)) => match json_reply(b@) {
            None => (3, seq![], "invalid lock error"@, false),
            Some((_, error, timeout, _, _, _)) => (
                3,
                seq![],
                match error {
                    Some(e) => e,
                    None => "lock request failed"@,
                },
                timeout == Some(true),
            ),
        },
        Err(m) => (3, seq![], "lock host reply failed: "@ + m@, false),
    }
}

pub fn lock_reply(reply: Result<SlotReply, String>) -> (r: LockReply)
    ensures
        lock_reply_view(r) == spec_lock_reply(reply),
{
    match reply {
        Ok(SlotReply::Data(b)) => match reply_fields(b.as_slice()) {
            None => LockReply::Invalid(b),
            Some((_, _, _, ok, _, _)) => if ok == Some(true) {
                LockReply::Granted
            } else {
                LockReply::Refused(b)
            },
        },
        Ok(SlotReply::ErrorBody(b)) => match reply_fields(b.as_slice()) {
            None => LockReply::Failed { message: "invalid lock error".to_owned(), timed_out: false },
            Some((_, error, timeout, _, _, _)) => {
                let message = match error {
                    Some(e) => e,
                    None => "lock request failed".to_owned(),
                };
                LockReply::Failed { message, timed_out: timeout == Some(true) }
            },
        },
        Err(m) => {
            let mut out: Vec<char> = Vec::new();
            push_lit(&mut out, "lock host reply failed: ");
            push_lit(&mut out, m.as_str());
            LockReply::Failed { message: string_of(&out), timed_out: false }
        },
    }
}

impl LockReply {
    /// The exit status: 0 when granted, 2 when the host's wait timed out,
    /// 1 otherwise.
    pub fn exit_code(&self) -> (r: i32)
        ensures
            r == (match *self {
                LockReply::Granted => 0i32,
                LockReply::Failed { timed_out, .. } => if timed_out { 2i32 } else { 1i32 },
                _ => 1i32,
            }),
    {
        match self {
            LockReply::Granted => 0,
            LockReply::Failed { timed_out, .. } => if *timed_out { 2 } else { 1 },
            _ => 1,
        }
    }
}

} // verus!
