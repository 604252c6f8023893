//! The JSON requests the `plexi pane` commands send over the command
//! socket.  Each is one line of JSON whose members appear in key order, as
//! `serde_json` writes an object; strings are quoted by `serde_json`.

use vstd::prelude::*;
use crate::cloud_runtime::json_quoted;
use crate::notify::push_quoted;
use crate::text::{chars_of, decimal, decimal_chars, join_with, parse_u64, parse_u64_chars, push_all, push_lit, string_of};

verus! {

pub open spec fn json_bool(b: bool) -> Seq<char> {
    if b {
        "true"@
    } else {
        "false"@
    }
}

fn push_bool(out: &mut Vec<char>, b: bool)
    ensures
        final(out)@ == old(out)@ + json_bool(b),
{
    if b {
        push_lit(out, "true");
    } else {
        push_lit(out, "false");
    }
}

fn push_num(out: &mut Vec<char>, n: u64)
    ensures
        final(out)@ == old(out)@ + decimal(n as nat),
{
    let d = decimal_chars(n);
    push_all(out, &d);
}

/// `set_pane_title`: name, pane_id, type.
pub open spec fn spec_set_title_request(pane_id: u64, name: Seq<char>) -> Seq<char> {
    "{\"name\":"@ + json_quoted(name) + ",\"pane_id\":"@ + decimal(pane_id as nat) + ",\"type\":\"set_pane_title\"}"@
}

pub fn set_title_request(pane_id: u64, name: &str) -> (r: String)
    ensures
        r@ == spec_set_title_request(pane_id, name@),
{
    let mut m: Vec<char> = Vec::new();
    push_lit(&mut m, "{\"name\":");
    push_quoted(&mut m, name);
    push_lit(&mut m, ",\"pane_id\":");
    push_num(&mut m, pane_id);
    push_lit(&mut m, ",\"type\":\"set_pane_title\"}");
    string_of(&m)
}

/// A request naming a pane, a slot and the reply file: pane_id,
/// response_file, slot_name, type (`slot_read` or `slot_delete`).
pub open spec fn spec_slot_request(kind: Seq<char>, pane_id: u64, name: Seq<char>, response_file: Seq<char>) -> Seq<char> {
    "{\"pane_id\":"@ + decimal(pane_id as nat) + ",\"response_file\":"@ + json_quoted(response_file)
        + ",\"slot_name\":"@ + json_quoted(name) + ",\"type\":\""@ + kind + "\"}"@
}

fn slot_request(kind: &str, pane_id: u64, name: &str, response_file: &str) -> (r: String)
    ensures
        r@ == spec_slot_request(kind@, pane_id, name@, response_file@),
{
    let mut m: Vec<char> = Vec::new();
    push_lit(&mut m, "{\"pane_id\":");
    push_num(&mut m, pane_id);
    push_lit(&mut m, ",\"response_file\":");
    push_quoted(&mut m, response_file);
    push_lit(&mut m, ",\"slot_name\":");
    push_quoted(&mut m, name);
    push_lit(&mut m, ",\"type\":\"");
    push_lit(&mut m, kind);
    push_lit(&mut m, "\"}");
    string_of(&m)
}

pub fn slot_read_request(pane_id: u64, name: &str, response_file: &str) -> (r: String)
    ensures
        r@ == spec_slot_request("slot_read"@, pane_id, name@, response_file@),
{
    slot_request("slot_read", pane_id, name, response_file)
}

pub fn slot_delete_request(pane_id: u64, name: &str, response_file: &str) -> (r: String)
    ensures
        r@ == spec_slot_request("slot_delete"@, pane_id, name@, response_file@),
{
    slot_request("slot_delete", pane_id, name, response_file)
}

/// A request naming a pane and the reply file: pane_id, response_file,
/// type (`slot_list`, `get_pane_info` or `get_pane_state`).
pub open spec fn spec_pane_request(kind: Seq<char>, pane_id: u64, response_file: Seq<char>) -> Seq<char> {
    "{\"pane_id\":"@ + decimal(pane_id as nat) + ",\"response_file\":"@ + json_quoted(response_file)
        + ",\"type\":\""@ + kind + "\"}"@
}

fn pane_request(kind: &str, pane_id: u64, response_file: &str) -> (r: String)
    ensures
        r@ == spec_pane_request(kind@, pane_id, response_file@),
{
    let mut m: Vec<char> = Vec::new();
    push_lit(&mut m, "{\"pane_id\":");
    push_num(&mut m, pane_id);
    push_lit(&mut m, ",\"response_file\":");
    push_quoted(&mut m, response_file);
    push_lit(&mut m, ",\"type\":\"");
    push_lit(&mut m, kind);
    push_lit(&mut m, "\"}");
    string_of(&m)
}

pub fn slot_list_request(pane_id: u64, response_file: &str) -> (r: String)
    ensures
        r@ == spec_pane_request("slot_list"@, pane_id, response_file@),
{
    pane_request("slot_list", pane_id, response_file)
}

pub fn pane_info_request(pane_id: u64, response_file: &str) -> (r: String)
    ensures
        r@ == spec_pane_request("get_pane_info"@, pane_id, response_file@),
{
    pane_request("get_pane_info", pane_id, response_file)
}

pub fn pane_state_request(pane_id: u64, response_file: &str) -> (r: String)
    ensures
        r@ == spec_pane_request("get_pane_state"@, pane_id, response_file@),
{
    pane_request("get_pane_state", pane_id, response_file)
}

/// `get_previous_pane_info`: response_file, steps, type.
pub open spec fn spec_previous_pane_request(steps: u64, response_file: Seq<char>) -> Seq<char> {
    "{\"response_file\":"@ + json_quoted(response_file) + ",\"steps\":"@ + decimal(steps as nat)
        + ",\"type\":\"get_previous_pane_info\"}"@
}

pub fn previous_pane_request(steps: u64, response_file: &str) -> (r: String)
    ensures
        r@ == spec_previous_pane_request(steps, response_file@),
{
    let mut m: Vec<char> = Vec::new();
    push_lit(&mut m, "{\"response_file\":");
    push_quoted(&mut m, response_file);
    push_lit(&mut m, ",\"steps\":");
    push_num(&mut m, steps);
    push_lit(&mut m, ",\"type\":\"get_previous_pane_info\"}");
    string_of(&m)
}

/// A fire-and-forget request naming a pane: pane_id, type (`focus_pane`
/// or `close_pane`).
pub open spec fn spec_pane_only_request(kind: Seq<char>, pane_id: u64) -> Seq<char> {
    "{\"pane_id\":"@ + decimal(pane_id as nat) + ",\"type\":\""@ + kind + "\"}"@
}

fn pane_only_request(kind: &str, pane_id: u64) -> (r: String)
    ensures
        r@ == spec_pane_only_request(kind@, pane_id),
{
    let mut m: Vec<char> = Vec::new();
    push_lit(&mut m, "{\"pane_id\":");
    push_num(&mut m, pane_id);
    push_lit(&mut m, ",\"type\":\"");
    push_lit(&mut m, kind);
    push_lit(&mut m, "\"}");
    string_of(&m)
}

pub fn focus_request(pane_id: u64) -> (r: String)
    ensures
        r@ == spec_pane_only_request("focus_pane"@, pane_id),
{
    pane_only_request("focus_pane", pane_id)
}

pub fn close_request(pane_id: u64) -> (r: String)
    ensures
        r@ == spec_pane_only_request("close_pane"@, pane_id),
{
    pane_only_request("close_pane", pane_id)
}

/// `list_panes`: context_id (when given), response_file, type.
pub open spec fn spec_list_panes_request(context_id: Option<u64>, response_file: Seq<char>) -> Seq<char> {
    "{"@ + match context_id {
        Some(c) => "\"context_id\":"@ + decimal(c as nat) + ","@,
        None => seq![],
    } + "\"response_file\":"@ + json_quoted(response_file) + ",\"type\":\"list_panes\"}"@
}

pub fn list_panes_request(context_id: Option<u64>, response_file: &str) -> (r: String)
    ensures
        r@ == spec_list_panes_request(context_id, response_file@),
{
    let mut m: Vec<char> = Vec::new();
    push_lit(&mut m, "{");
    let ghost start = m@;
    match context_id {
        Some(c) => {
            push_lit(&mut m, "\"context_id\":");
            push_num(&mut m, c);
            push_lit(&mut m, ",");
        },
        None => {
            assert(m@ =~= start + Seq::<char>::empty());
        },
    }
    push_lit(&mut m, "\"response_file\":");
    push_quoted(&mut m, response_file);
    push_lit(&mut m, ",\"type\":\"list_panes\"}");
    string_of(&m)
}

/// `send_to_pane`: pane_id, response_file, submit, text, type.
pub open spec fn spec_send_request(pane_id: u64, text: Seq<char>, submit: bool, response_file: Seq<char>) -> Seq<char> {
    "{\"pane_id\":"@ + decimal(pane_id as nat) + ",\"response_file\":"@ + json_quoted(response_file)
        + ",\"submit\":"@ + json_bool(submit) + ",\"text\":"@ + json_quoted(text) + ",\"type\":\"send_to_pane\"}"@
}

pub fn send_request(pane_id: u64, text: &str, submit: bool, response_file: &str) -> (r: String)
    ensures
        r@ == spec_send_request(pane_id, text@, submit, response_file@),
{
    let mut m: Vec<char> = Vec::new();
    push_lit(&mut m, "{\"pane_id\":");
    push_num(&mut m, pane_id);
    push_lit(&mut m, ",\"response_file\":");
    push_quoted(&mut m, response_file);
    push_lit(&mut m, ",\"submit\":");
    push_bool(&mut m, submit);
    push_lit(&mut m, ",\"text\":");
    push_quoted(&mut m, text);
    push_lit(&mut m, ",\"type\":\"send_to_pane\"}");
    string_of(&m)
}

/// `key_pane`: key, pane_id, response_file, type.
pub open spec fn spec_key_request(pane_id: u64, key: Seq<char>, response_file: Seq<char>) -> Seq<char> {
    "{\"key\":"@ + json_quoted(key) + ",\"pane_id\":"@ + decimal(pane_id as nat) + ",\"response_file\":"@
        + json_quoted(response_file) + ",\"type\":\"key_pane\"}"@
}

pub fn key_request(pane_id: u64, key: &str, response_file: &str) -> (r: String)
    ensures
        r@ == spec_key_request(pane_id, key@, response_file@),
{
    let mut m: Vec<char> = Vec::new();
    push_lit(&mut m, "{\"key\":");
    push_quoted(&mut m, key);
    push_lit(&mut m, ",\"pane_id\":");
    push_num(&mut m, pane_id);
    push_lit(&mut m, ",\"response_file\":");
    push_quoted(&mut m, response_file);
    push_lit(&mut m, ",\"type\":\"key_pane\"}");
    string_of(&m)
}

/// `drop_file`: pane_id, path_or_url, response_file, type.
pub open spec fn spec_drop_request(pane_id: u64, path_or_url: Seq<char>, response_file: Seq<char>) -> Seq<char> {
    "{\"pane_id\":"@ + decimal(pane_id as nat) + ",\"path_or_url\":"@ + json_quoted(path_or_url)
        + ",\"response_file\":"@ + json_quoted(response_file) + ",\"type\":\"drop_file\"}"@
}

pub fn drop_request(pane_id: u64, path_or_url: &str, response_file: &str) -> (r: String)
    ensures
        r@ == spec_drop_request(pane_id, path_or_url@, response_file@),
{
    let mut m: Vec<char> = Vec::new();
    push_lit(&mut m, "{\"pane_id\":");
    push_num(&mut m, pane_id);
    push_lit(&mut m, ",\"path_or_url\":");
    push_quoted(&mut m, path_or_url);
    push_lit(&mut m, ",\"response_file\":");
    push_quoted(&mut m, response_file);
    push_lit(&mut m, ",\"type\":\"drop_file\"}");
    string_of(&m)
}

/// `click_pane_node`: button, node_id, pane_id, response_file, type.
pub open spec fn spec_click_node_request(pane_id: u64, node_id: Seq<char>, button: Seq<char>, response_file: Seq<char>) -> Seq<char> {
    "{\"button\":"@ + json_quoted(button) + ",\"node_id\":"@ + json_quoted(node_id) + ",\"pane_id\":"@
        + decimal(pane_id as nat) + ",\"response_file\":"@ + json_quoted(response_file)
        + ",\"type\":\"click_pane_node\"}"@
}

pub fn click_node_request(pane_id: u64, node_id: &str, button: &str, response_file: &str) -> (r: String)
    ensures
        r@ == spec_click_node_request(pane_id, node_id@, button@, response_file@),
{
    let mut m: Vec<char> = Vec::new();
    push_lit(&mut m, "{\"button\":");
    push_quoted(&mut m, button);
    push_lit(&mut m, ",\"node_id\":");
    push_quoted(&mut m, node_id);
    push_lit(&mut m, ",\"pane_id\":");
    push_num(&mut m, pane_id);
    push_lit(&mut m, ",\"response_file\":");
    push_quoted(&mut m, response_file);
    push_lit(&mut m, ",\"type\":\"click_pane_node\"}");
    string_of(&m)
}

/// `capture_pane`: from_cursor (when given), full_output, lines, pane_id,
/// response_file, type.
pub open spec fn spec_capture_request(pane_id: u64, lines: u64, full_output: bool, from_cursor: Option<u64>, response_file: Seq<char>) -> Seq<char> {
    "{"@ + match from_cursor {
        Some(c) => "\"from_cursor\":"@ + decimal(c as nat) + ","@,
        None => seq![],
    } + "\"full_output\":"@ + json_bool(full_output) + ",\"lines\":"@ + decimal(lines as nat) + ",\"pane_id\":"@
        + decimal(pane_id as nat) + ",\"response_file\":"@ + json_quoted(response_file)
        + ",\"type\":\"capture_pane\"}"@
}

pub fn capture_request(pane_id: u64, lines: u64, full_output: bool, from_cursor: Option<u64>, response_file: &str) -> (r: String)
    ensures
        r@ == spec_capture_request(pane_id, lines, full_output, from_cursor, response_file@),
{
    let mut m: Vec<char> = Vec::new();
    push_lit(&mut m, "{");
    let ghost start = m@;
    match from_cursor {
        Some(c) => {
            push_lit(&mut m, "\"from_cursor\":");
            push_num(&mut m, c);
            push_lit(&mut m, ",");
        },
        None => {
            assert(m@ =~= start + Seq::<char>::empty());
        },
    }
    push_lit(&mut m, "\"full_output\":");
    push_bool(&mut m, full_output);
    push_lit(&mut m, ",\"lines\":");
    push_num(&mut m, lines);
    push_lit(&mut m, ",\"pane_id\":");
    push_num(&mut m, pane_id);
    push_lit(&mut m, ",\"response_file\":");
    push_quoted(&mut m, response_file);
    push_lit(&mut m, ",\"type\":\"capture_pane\"}");
    string_of(&m)
}

/// Bytes as a JSON array of numbers.
pub open spec fn json_bytes(b: Seq<u8>) -> Seq<char> {
    "["@ + join_with(b.map_values(|x: u8| decimal(x as nat)), ","@) + "]"@
}

fn push_bytes(out: &mut Vec<char>, b: &[u8])
    ensures
        final(out)@ == old(out)@ + json_bytes(b@),
{
    let ghost start = out@;
    push_lit(out, "[");
    let mut i: usize = 0;
    while i < b.len()
        invariant
            i <= b@.len(),
            out@ == start + "["@ + join_with(b@.take(i as int).map_values(|x: u8| decimal(x as nat)), ","@),
        decreases b@.len() - i,
    {
        let ghost parts = b@.take(i as int).map_values(|x: u8| decimal(x as nat));
        let ghost next = b@.take(i + 1).map_values(|x: u8| decimal(x as nat));
        if i > 0 {
            push_lit(out, ",");
        }
        push_num(out, b[i] as u64);
        proof {
            assert(next.drop_last() =~= parts);
            assert(next.last() == decimal(b@[i as int] as nat));
            if i == 0 {
                assert(next =~= seq![decimal(b@[0] as nat)]);
            }
        }
        i = i + 1;
    }
    push_lit(out, "]");
    assert(b@.take(b@.len() as int) =~= b@);
}

/// `slot_write`: append, content (the bytes as numbers), pane_id, replace,
/// response_file, slot_name, type.
pub open spec fn spec_slot_write_request(pane_id: u64, name: Seq<char>, content: Seq<u8>, append: bool, replace: bool, response_file: Seq<char>) -> Seq<char> {
    "{\"append\":"@ + json_bool(append) + ",\"content\":"@ + json_bytes(content) + ",\"pane_id\":"@
        + decimal(pane_id as nat) + ",\"replace\":"@ + json_bool(replace) + ",\"response_file\":"@
        + json_quoted(response_file) + ",\"slot_name\":"@ + json_quoted(name) + ",\"type\":\"slot_write\"}"@
}

pub fn slot_write_request(pane_id: u64, name: &str, content: &[u8], append: bool, replace: bool, response_file: &str) -> (r: String)
    ensures
        r@ == spec_slot_write_request(pane_id, name@, content@, append, replace, response_file@),
{
    let mut m: Vec<char> = Vec::new();
    push_lit(&mut m, "{\"append\":");
    push_bool(&mut m, append);
    push_lit(&mut m, ",\"content\":");
    push_bytes(&mut m, content);
    push_lit(&mut m, ",\"pane_id\":");
    push_num(&mut m, pane_id);
    push_lit(&mut m, ",\"replace\":");
    push_bool(&mut m, replace);
    push_lit(&mut m, ",\"response_file\":");
    push_quoted(&mut m, response_file);
    push_lit(&mut m, ",\"slot_name\":");
    push_quoted(&mut m, name);
    push_lit(&mut m, ",\"type\":\"slot_write\"}");
    string_of(&m)
}

// ── which panes `pane list` asks for ────────────────────────────────────────

/// With `--current`, the context in `PLEXI_CONTEXT_ID`, which must be set
/// and hold a `u64`; otherwise the context given, if any.
pub open spec fn spec_list_context(context: Option<u64>, current: bool, env: Option<Seq<char>>) -> Result<Option<u64>, Seq<char>> {
    if current {
        match env {
            None => Err("PLEXI_CONTEXT_ID is not set — run this inside a Plexi terminal pane"@),
            Some(raw) => match parse_u64(raw) {
                Some(n) => Ok(Some(n)),
                None => Err("PLEXI_CONTEXT_ID is not a valid number: "@ + raw),
            },
        }
    } else {
        Ok(context)
    }
}

pub fn list_context(context: Option<u64>, current: bool, env: Option<&str>) -> (r: Result<Option<u64>, String>)
    ensures
        match (r, spec_list_context(context, current, match env {
            Some(e) => Some(e@),
            None => None,
        })) {
            (Ok(a), Ok(b)) => a == b,
            (Err(a), Err(b)) => a@ == b,
            _ => false,
        },
{
    if !current {
        return Ok(context);
    }
    match env {
        None => Err("PLEXI_CONTEXT_ID is not set — run this inside a Plexi terminal pane".to_owned()),
        Some(raw) => {
            let cs = chars_of(raw);
            match parse_u64_chars(&cs) {
                Some(n) => Ok(Some(n)),
                None => {
                    let mut m: Vec<char> = Vec::new();
                    push_lit(&mut m, "PLEXI_CONTEXT_ID is not a valid number: ");
                    push_lit(&mut m, raw);
                    Err(string_of(&m))
                },
            }
        },
    }
}

} // verus!
