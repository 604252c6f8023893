//! `plexi notify`: the `--choice` and `--scope` grammar, the checks made
//! before sending, the JSON line sent to the host, and the exit status.

use vstd::prelude::*;
use crate::cloud_runtime::{json_quote, json_quoted};
use crate::text::{
    opt_text, chars_of, debug_quoted, debug_str, decimal, decimal_chars, eq_lit, push_all, push_lit,
    slice_of, split_once, split_once_chars, string_of, trim, trim_chars,
};

verus! {

/// `str::splitn(n, c)`: at most `n` pieces, the last holding the rest;
/// none for `n == 0`.
pub open spec fn splitn(s: Seq<char>, c: char, n: nat) -> Seq<Seq<char>>
    decreases n,
{
    if n == 0 {
        seq![]
    } else if n == 1 {
        seq![s]
    } else {
        match split_once(s, c) {
            None => seq![s],
            Some((a, b)) => seq![a] + splitn(b, c, (n - 1) as nat),
        }
    }
}

/// `str::splitn`.
pub fn splitn_chars(s: &Vec<char>, c: char, n: usize) -> (r: Vec<Vec<char>>)
    ensures
        r@.len() == splitn(s@, c, n as nat).len(),
        forall|i: int| 0 <= i < r@.len() ==> #[trigger] r@[i]@ == splitn(s@, c, n as nat)[i],
{
    if n == 0 {
        return Vec::new();
    }
    let mut r: Vec<Vec<char>> = Vec::new();
    let mut rest = slice_of(s, 0, s.len());
    assert(s@.subrange(0, s@.len() as int) == s@);
    let mut left: usize = n;
    let ghost mut acc: Seq<Seq<char>> = seq![];
    loop
        invariant
            1 <= left <= n,
            acc + splitn(rest@, c, left as nat) == splitn(s@, c, n as nat),
            r@.len() == acc.len(),
            forall|i: int| 0 <= i < r@.len() ==> #[trigger] r@[i]@ == acc[i],
        decreases left,
    {
        if left == 1 {
            proof {
                acc = acc.push(rest@);
            }
            r.push(rest);
            assert(acc == splitn(s@, c, n as nat));
            return r;
        }
        match split_once_chars(&rest, c) {
            None => {
                proof {
                    acc = acc.push(rest@);
                }
                r.push(rest);
                assert(acc == splitn(s@, c, n as nat));
                return r;
            },
            Some((a, b)) => {
                proof {
                    assert(splitn(rest@, c, left as nat) == seq![a@] + splitn(
                        b@,
                        c,
                        (left - 1) as nat,
                    ));
                    acc = acc.push(a@);
                    assert(acc + splitn(b@, c, (left - 1) as nat) == splitn(s@, c, n as nat));
                }
                r.push(a);
                rest = b;
                left = left - 1;
            },
        }
    }
}

/// The `--choice` parse: `key:Label`, `Label:action_type:action_arg` (the
/// label is also the key), or `key:Label:action_type:action_arg`; the action
/// is `action_type:action_arg`. Any other number of colon-separated segments
/// (counting at most five) is rejected with a message naming the count.
pub open spec fn spec_notify_choice(raw: Seq<char>) -> Result<
    (Seq<char>, Seq<char>, Option<Seq<char>>),
    Seq<char>,
> {
    let segs = splitn(raw, ':', 5);
    if segs.len() == 4 {
        Ok((segs[0], segs[1], Some(segs[2] + ":"@ + segs[3])))
    } else if segs.len() == 3 {
        Ok((segs[0], segs[0], Some(segs[1] + ":"@ + segs[2])))
    } else if segs.len() == 2 {
        Ok((segs[0], segs[1], None))
    } else {
        Err(
            "error: --choice requires 2, 3, or 4 colon-separated segments (key:Label / Label:action:arg / key:Label:action:arg) — got "@
                + decimal(segs.len()) + " in "@ + debug_quoted(raw),
        )
    }
}

fn join_colon(a: &Vec<char>, b: &Vec<char>) -> (r: String)
    ensures
        r@ == a@ + ":"@ + b@,
{
    let mut out = slice_of(a, 0, a.len());
    assert(a@.subrange(0, a@.len() as int) == a@);
    push_lit(&mut out, ":");
    push_all(&mut out, b);
    string_of(&out)
}

/// Parses a `--choice` value into `(key, label, action)`.
pub fn parse_notify_choice(raw: &str) -> (r: Result<(String, String, Option<String>), String>)
    ensures
        match r {
            Ok((k, l, a)) => spec_notify_choice(raw@) == Ok::<
                (Seq<char>, Seq<char>, Option<Seq<char>>),
                Seq<char>,
            >((
                k@,
                l@,
                match a {
                    Some(x) => Some(x@),
                    None => None,
                },
            )),
            Err(e) => spec_notify_choice(raw@) == Err::<
                (Seq<char>, Seq<char>, Option<Seq<char>>),
                Seq<char>,
            >(e@),
        },
{
    let cs = chars_of(raw);
    let segs = splitn_chars(&cs, ':', 5);
    if segs.len() == 4 {
        Ok((string_of(&segs[0]), string_of(&segs[1]), Some(join_colon(&segs[2], &segs[3]))))
    } else if segs.len() == 3 {
        Ok((string_of(&segs[0]), string_of(&segs[0]), Some(join_colon(&segs[1], &segs[2]))))
    } else if segs.len() == 2 {
        Ok((string_of(&segs[0]), string_of(&segs[1]), None))
    } else {
        let mut e = chars_of(
            "error: --choice requires 2, 3, or 4 colon-separated segments (key:Label / Label:action:arg / key:Label:action:arg) — got ",
        );
        let n = decimal_chars(segs.len() as u64);
        push_all(&mut e, &n);
        push_lit(&mut e, " in ");
        let q = debug_str(raw);
        push_all(&mut e, &q);
        Err(string_of(&e))
    }
}

/// Where a notification surfaces.
#[derive(Debug, Clone, Copy, PartialEq, Eq, Structural)]
pub enum NotifyScope {
    Window,
    Context,
    Global,
}

/// The `--scope` parse: absent stays absent (the host applies its default);
/// every named scope, `global` included, is explicit.
pub open spec fn spec_notify_scope(scope: Option<Seq<char>>) -> Result<
    Option<NotifyScope>,
    Seq<char>,
> {
    match scope {
        None => Ok(None),
        Some(s) => if s == "window"@ {
            Ok(Some(NotifyScope::Window))
        } else if s == "context"@ {
            Ok(Some(NotifyScope::Context))
        } else if s == "global"@ {
            Ok(Some(NotifyScope::Global))
        } else {
            Err("error: --scope must be window, context, or global — got "@ + debug_quoted(s))
        },
    }
}

/// Parses the `--scope` flag into an explicit wire scope.
pub fn parse_notify_scope(scope: Option<&str>) -> (r: Result<Option<NotifyScope>, String>)
    ensures
        match r {
            Ok(x) => spec_notify_scope(crate::channel::opt_str(scope)) == Ok::<
                Option<NotifyScope>,
                Seq<char>,
            >(x),
            Err(e) => spec_notify_scope(crate::channel::opt_str(scope)) == Err::<
                Option<NotifyScope>,
                Seq<char>,
            >(e@),
        },
{
    match scope {
        None => Ok(None),
        Some(s) => {
            let cs = chars_of(s);
            if eq_lit(&cs, "window") {
                Ok(Some(NotifyScope::Window))
            } else if eq_lit(&cs, "context") {
                Ok(Some(NotifyScope::Context))
            } else if eq_lit(&cs, "global") {
                Ok(Some(NotifyScope::Global))
            } else {
                let mut e = chars_of("error: --scope must be window, context, or global — got ");
                let q = debug_str(s);
                push_all(&mut e, &q);
                Err(string_of(&e))
            }
        },
    }
}


// ── sending ─────────────────────────────────────────────────────────────────

/// The error for a `window` or `context` scope without the caller's context.
pub open spec fn spec_scope_error(scope: Option<NotifyScope>, source_context_id: Option<u64>) -> Option<Seq<char>> {
    match (scope, source_context_id) {
        (Some(NotifyScope::Window), None) => Some(scope_error_text("window"@)),
        (Some(NotifyScope::Context), None) => Some(scope_error_text("context"@)),
        _ => None,
    }
}

pub open spec fn scope_error_text(name: Seq<char>) -> Seq<char> {
    "error: --scope "@ + name
        + " requires a caller context — PLEXI_CONTEXT_ID is not set; run this inside a Plexi pane or use --scope global"@
}

/// The refusal, if any, of a scope that needs the caller's context.
pub fn scope_error(scope: Option<NotifyScope>, source_context_id: Option<u64>) -> (r: Option<String>)
    ensures
        opt_text(r) == spec_scope_error(scope, source_context_id),
{
    let name = match (scope, source_context_id) {
        (Some(NotifyScope::Window), None) => "window",
        (Some(NotifyScope::Context), None) => "context",
        _ => {
            return None;
        },
    };
    let mut out: Vec<char> = Vec::new();
    push_lit(&mut out, "error: --scope ");
    push_lit(&mut out, name);
    push_lit(&mut out, " requires a caller context — PLEXI_CONTEXT_ID is not set; run this inside a Plexi pane or use --scope global");
    Some(string_of(&out))
}

/// The wire name of a scope.
pub open spec fn scope_name(s: NotifyScope) -> Seq<char> {
    match s {
        NotifyScope::Window => "window"@,
        NotifyScope::Context => "context"@,
        NotifyScope::Global => "global"@,
    }
}

fn scope_str(s: NotifyScope) -> (r: &'static str)
    ensures
        r@ == scope_name(s),
{
    match s {
        NotifyScope::Window => "window",
        NotifyScope::Context => "context",
        NotifyScope::Global => "global",
    }
}

/// The id of a notification sent from the CLI: `cli:<pane or 0>:<uuid>`.
pub open spec fn spec_notify_id(source_pane_id: Option<u64>, uuid: Seq<char>) -> Seq<char> {
    "cli:"@ + decimal(
        match source_pane_id {
            Some(p) => p as nat,
            None => 0nat,
        },
    ) + ":"@ + uuid
}

pub fn notify_id(source_pane_id: Option<u64>, uuid: &str) -> (r: String)
    ensures
        r@ == spec_notify_id(source_pane_id, uuid@),
{
    let mut out: Vec<char> = Vec::new();
    push_lit(&mut out, "cli:");
    let p = match source_pane_id {
        Some(p) => p,
        None => 0,
    };
    let d = decimal_chars(p);
    push_all(&mut out, &d);
    push_lit(&mut out, ":");
    push_lit(&mut out, uuid);
    string_of(&out)
}

/// A choice as a JSON object: `{"host_action":H,"label":L,"shortcut":K,"value":K}`,
/// without `host_action` when the choice has none.
pub open spec fn option_json(key: Seq<char>, label: Seq<char>, host_action: Option<Seq<char>>) -> Seq<char> {
    "{"@ + match host_action {
        Some(h) => "\"host_action\":"@ + json_quoted(h) + ","@,
        None => seq![],
    } + "\"label\":"@ + json_quoted(label) + ",\"shortcut\":"@ + json_quoted(key) + ",\"value\":"@
        + json_quoted(key) + "}"@
}

pub open spec fn choice_view(c: (String, String, Option<String>)) -> (Seq<char>, Seq<char>, Option<Seq<char>>) {
    (c.0@, c.1@, opt_text(c.2))
}

/// The choices as a JSON array.
pub open spec fn options_json(cs: Seq<(Seq<char>, Seq<char>, Option<Seq<char>>)>) -> Seq<char>
    decreases cs.len(),
{
    if cs.len() == 0 {
        "[]"@
    } else {
        "["@ + options_items(cs) + "]"@
    }
}

pub open spec fn options_items(cs: Seq<(Seq<char>, Seq<char>, Option<Seq<char>>)>) -> Seq<char>
    decreases cs.len(),
{
    if cs.len() == 0 {
        seq![]
    } else if cs.len() == 1 {
        option_json(cs[0].0, cs[0].1, cs[0].2)
    } else {
        options_items(cs.drop_last()) + ","@ + option_json(cs.last().0, cs.last().1, cs.last().2)
    }
}

/// A JSON member `,"name":value` when the value is present.
pub open spec fn member_if(name: Seq<char>, value: Option<Seq<char>>) -> Seq<char> {
    match value {
        Some(v) => ",\""@ + name + "\":"@ + v,
        None => seq![],
    }
}

/// The JSON line `plexi notify` sends, members in key order: body, kind
/// (`message` without choices, else `choice`), level, notify_id, options,
/// priority (50), response_file, scope, source_context_id, source_pane_id,
/// timeout_secs (only when positive), title, type (`notify`); optional
/// members appear only when set.
pub open spec fn spec_notify_payload(
    notify_id: Seq<char>,
    level: Seq<char>,
    title: Seq<char>,
    body: Seq<char>,
    choices: Seq<(Seq<char>, Seq<char>, Option<Seq<char>>)>,
    display_timeout_secs: u64,
    response_file: Option<Seq<char>>,
    scope: Option<NotifyScope>,
    source_context_id: Option<u64>,
    source_pane_id: Option<u64>,
) -> Seq<char> {
    "{\"body\":"@ + json_quoted(body) + ",\"kind\":"@ + (if choices.len() == 0 {
        "\"message\""@
    } else {
        "\"choice\""@
    }) + ",\"level\":"@ + json_quoted(level) + ",\"notify_id\":"@ + json_quoted(notify_id)
        + ",\"options\":"@ + options_json(choices) + ",\"priority\":50"@ + member_if(
        "response_file"@,
        match response_file {
            Some(f) => Some(json_quoted(f)),
            None => None,
        },
    ) + member_if(
        "scope"@,
        match scope {
            Some(s) => Some(json_quoted(scope_name(s))),
            None => None,
        },
    ) + member_if(
        "source_context_id"@,
        match source_context_id {
            Some(c) => Some(decimal(c as nat)),
            None => None,
        },
    ) + member_if(
        "source_pane_id"@,
        match source_pane_id {
            Some(p) => Some(decimal(p as nat)),
            None => None,
        },
    ) + member_if(
        "timeout_secs"@,
        if display_timeout_secs > 0 {
            Some(decimal(display_timeout_secs as nat))
        } else {
            None
        },
    ) + ",\"title\":"@ + json_quoted(title) + ",\"type\":\"notify\"}"@
}

pub(crate) fn push_quoted(out: &mut Vec<char>, s: &str)
    ensures
        final(out)@ == old(out)@ + json_quoted(s@),
{
    let q = json_quote(s);
    push_lit(out, q.as_str());
}

pub(crate) fn push_member_num(out: &mut Vec<char>, name: &str, v: Option<u64>)
    ensures
        final(out)@ == old(out)@ + member_if(
            name@,
            match v {
                Some(n) => Some(decimal(n as nat)),
                None => None,
            },
        ),
{
    match v {
        Some(n) => {
            let mut piece: Vec<char> = Vec::new();
            push_lit(&mut piece, ",\"");
            push_lit(&mut piece, name);
            push_lit(&mut piece, "\":");
            let d = decimal_chars(n);
            push_all(&mut piece, &d);
            assert(piece@ =~= ",\""@ + name@ + "\":"@ + decimal(n as nat));
            push_all(out, &piece);
        },
        None => {
            assert(out@ =~= out@ + Seq::<char>::empty());
        },
    }
}

pub open spec fn choices_view(cs: Seq<(String, String, Option<String>)>) -> Seq<(Seq<char>, Seq<char>, Option<Seq<char>>)> {
    cs.map_values(|c: (String, String, Option<String>)| choice_view(c))
}

fn push_option(out: &mut Vec<char>, c: &(String, String, Option<String>))
    ensures
        final(out)@ == old(out)@ + option_json(c.0@, c.1@, opt_text(c.2)),
{
    let ghost start = out@;
    let mut piece: Vec<char> = Vec::new();
    push_lit(&mut piece, "{");
    match &c.2 {
        Some(h) => {
            push_lit(&mut piece, "\"host_action\":");
            push_quoted(&mut piece, h.as_str());
            push_lit(&mut piece, ",");
        },
        None => {},
    }
    push_lit(&mut piece, "\"label\":");
    push_quoted(&mut piece, c.1.as_str());
    push_lit(&mut piece, ",\"shortcut\":");
    push_quoted(&mut piece, c.0.as_str());
    push_lit(&mut piece, ",\"value\":");
    push_quoted(&mut piece, c.0.as_str());
    push_lit(&mut piece, "}");
    assert(piece@ =~= option_json(c.0@, c.1@, opt_text(c.2)));
    push_all(out, &piece);
}

fn push_options(out: &mut Vec<char>, choices: &[(String, String, Option<String>)])
    ensures
        final(out)@ == old(out)@ + options_json(choices_view(choices@)),
{
    let ghost start = out@;
    let ghost cv = choices_view(choices@);
    if choices.len() == 0 {
        push_lit(out, "[]");
        return ;
    }
    let mut items: Vec<char> = Vec::new();
    let mut i: usize = 0;
    while i < choices.len()
        invariant
            i <= choices@.len(),
            cv == choices_view(choices@),
            cv.len() == choices@.len(),
            items@ == options_items(cv.take(i as int)),
        decreases choices@.len() - i,
    {
        let ghost before = items@;
        if i > 0 {
            push_lit(&mut items, ",");
        }
        push_option(&mut items, &choices[i]);
        proof {
            let c = cv[i as int];
            assert(c == choice_view(choices@[i as int]));
            assert(cv.take(i + 1).drop_last() =~= cv.take(i as int));
            if i == 0 {
                assert(cv.take(1) =~= seq![c]);
                assert(items@ =~= option_json(c.0, c.1, c.2));
            }
        }
        i = i + 1;
    }
    proof {
        assert(cv.take(choices@.len() as int) =~= cv);
    }
    let mut piece: Vec<char> = Vec::new();
    push_lit(&mut piece, "[");
    push_all(&mut piece, &items);
    push_lit(&mut piece, "]");
    assert(piece@ =~= options_json(cv));
    push_all(out, &piece);
}

pub(crate) fn push_member_quoted(out: &mut Vec<char>, name: &str, v: Option<&str>)
    ensures
        final(out)@ == old(out)@ + member_if(
            name@,
            match v {
                Some(f) => Some(json_quoted(f@)),
                None => None,
            },
        ),
{
    match v {
        Some(f) => {
            let mut piece: Vec<char> = Vec::new();
            push_lit(&mut piece, ",\"");
            push_lit(&mut piece, name);
            push_lit(&mut piece, "\":");
            push_quoted(&mut piece, f);
            assert(piece@ =~= ",\""@ + name@ + "\":"@ + json_quoted(f@));
            push_all(out, &piece);
        },
        None => {
            assert(out@ =~= out@ + Seq::<char>::empty());
        },
    }
}

/// The JSON line (without its newline) to send for a notification.
pub fn notify_payload(
    notify_id: &str,
    level: &str,
    title: &str,
    body: &str,
    choices: &[(String, String, Option<String>)],
    display_timeout_secs: u64,
    response_file: Option<&str>,
    scope: Option<NotifyScope>,
    source_context_id: Option<u64>,
    source_pane_id: Option<u64>,
) -> (r: String)
    ensures
        r@ == spec_notify_payload(
            notify_id@,
            level@,
            title@,
            body@,
            choices_view(choices@),
            display_timeout_secs,
            match response_file {
                Some(f) => Some(f@),
                None => None,
            },
            scope,
            source_context_id,
            source_pane_id,
        ),
{
    let mut out: Vec<char> = Vec::new();
    push_lit(&mut out, "{\"body\":");
    assert(out@ =~= "{\"body\":"@);
    push_quoted(&mut out, body);
    push_lit(&mut out, ",\"kind\":");
    if choices.len() == 0 {
        push_lit(&mut out, "\"message\"");
    } else {
        push_lit(&mut out, "\"choice\"");
    }
    push_lit(&mut out, ",\"level\":");
    push_quoted(&mut out, level);
    push_lit(&mut out, ",\"notify_id\":");
    push_quoted(&mut out, notify_id);
    push_lit(&mut out, ",\"options\":");
    push_options(&mut out, choices);
    push_lit(&mut out, ",\"priority\":50");
    push_member_quoted(&mut out, "response_file", response_file);
    let sc = match scope {
        Some(s) => Some(scope_str(s)),
        None => None,
    };
    push_member_quoted(&mut out, "scope", sc);
    push_member_num(&mut out, "source_context_id", source_context_id);
    push_member_num(&mut out, "source_pane_id", source_pane_id);
    let t = if display_timeout_secs > 0 {
        Some(display_timeout_secs)
    } else {
        None
    };
    push_member_num(&mut out, "timeout_secs", t);
    push_lit(&mut out, ",\"title\":");
    push_quoted(&mut out, title);
    push_lit(&mut out, ",\"type\":\"notify\"}");
    string_of(&out)
}

/// How waiting for a choice ended.
#[derive(Debug, Clone, PartialEq, Eq)]
pub enum WaitOutcome {
    /// The chosen key.
    Answered(String),
    TimedOut,
    Failed(String),
}

/// The exit status after waiting: 0 with an answer, 2 on timeout, else 1.
pub fn wait_exit_code(outcome: &WaitOutcome) -> (r: i32)
    ensures
        r == match outcome {
            WaitOutcome::Answered(_) => 0i32,
            WaitOutcome::TimedOut => 2i32,
            WaitOutcome::Failed(_) => 1i32,
        },
{
    match outcome {
        WaitOutcome::Answered(_) => 0,
        WaitOutcome::TimedOut => 2,
        WaitOutcome::Failed(_) => 1,
    }
}


// ── dismissing a notification ───────────────────────────────────────────────

/// The request that dismisses a notification, members in key order:
/// notify_id, response_file, source_context_id, source_pane_id, type.  A
/// caller outside a pane (no context or no pane) cannot dismiss.
pub open spec fn spec_dismiss_request(notify_id: Seq<char>, context: Option<u64>, pane: Option<u64>, response_file: Seq<char>) -> Result<Seq<char>, Seq<char>> {
    match (context, pane) {
        (Some(c), Some(p)) => Ok(
            "{\"notify_id\":"@ + json_quoted(notify_id) + ",\"response_file\":"@ + json_quoted(response_file)
                + ",\"source_context_id\":"@ + decimal(c as nat) + ",\"source_pane_id\":"@ + decimal(p as nat)
                + ",\"type\":\"dismiss_notification\"}"@,
        ),
        _ => Err("error: notify dismiss requires a caller pane and context"@),
    }
}

pub fn dismiss_request(notify_id: &str, context: Option<u64>, pane: Option<u64>, response_file: &str) -> (r: Result<String, String>)
    ensures
        match (r, spec_dismiss_request(notify_id@, context, pane, response_file@)) {
            (Ok(a), Ok(b)) => a@ == b,
            (Err(a), Err(b)) => a@ == b,
            _ => false,
        },
{
    match (context, pane) {
        (Some(c), Some(p)) => {
            let mut m: Vec<char> = Vec::new();
            push_lit(&mut m, "{\"notify_id\":");
            push_quoted(&mut m, notify_id);
            push_lit(&mut m, ",\"response_file\":");
            push_quoted(&mut m, response_file);
            push_lit(&mut m, ",\"source_context_id\":");
            let dc = decimal_chars(c);
            push_all(&mut m, &dc);
            push_lit(&mut m, ",\"source_pane_id\":");
            let dp = decimal_chars(p);
            push_all(&mut m, &dp);
            push_lit(&mut m, ",\"type\":\"dismiss_notification\"}");
            Ok(string_of(&m))
        },
        _ => Err("error: notify dismiss requires a caller pane and context".to_owned()),
    }
}

/// What the host's answer to a dismissal means: `dismissed` (trimmed) is
/// success; anything else is an error naming the answer.
pub open spec fn spec_dismiss_outcome(answer: Seq<char>) -> (i32, Option<Seq<char>>) {
    if trim(answer) == "dismissed"@ {
        (0, None)
    } else {
        (1, Some("error: "@ + trim(answer)))
    }
}

pub fn dismiss_outcome(answer: &str) -> (r: (i32, Option<String>))
    ensures
        (r.0, opt_text(r.1)) == spec_dismiss_outcome(answer@),
{
    let c = chars_of(answer);
    let t = trim_chars(&c);
    if eq_lit(&t, "dismissed") {
        (0, None)
    } else {
        let mut m: Vec<char> = Vec::new();
        push_lit(&mut m, "error: ");
        push_all(&mut m, &t);
        (1, Some(string_of(&m)))
    }
}

} // verus!
