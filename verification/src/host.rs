//! Declarative boot state for `plexi host start`: the `--pane` flag grammar,
//! the placement → spawn-queue layout mapping, and the environment filter for
//! the launched host process.

use vstd::prelude::*;
use crate::cloud_runtime::{json_quote, json_quoted};
use crate::text::{
    parse_u64, parse_u64_chars, chars_of, debug_quoted, debug_str, eq_chars, eq_lit, push_all, push_lit, split, split_chars,
    split_once, split_once_chars, string_of, trim, trim_chars,
};

verus! {

/// One declarative pane to seed on `host start`.
#[derive(Debug, Clone, PartialEq)]
pub struct PaneSpec {
    pub cwd: Option<String>,
    pub cmd: Option<String>,
    pub placement: Option<String>,
}

pub struct PaneModel {
    pub cwd: Option<Seq<char>>,
    pub cmd: Option<Seq<char>>,
    pub placement: Option<Seq<char>>,
}

pub open spec fn opt_view(o: Option<String>) -> Option<Seq<char>> {
    match o {
        Some(s) => Some(s@),
        None => None,
    }
}

impl View for PaneSpec {
    type V = PaneModel;

    open spec fn view(&self) -> PaneModel {
        PaneModel {
            cwd: opt_view(self.cwd),
            cmd: opt_view(self.cmd),
            placement: opt_view(self.placement),
        }
    }
}

impl Default for PaneSpec {
    fn default() -> (r: Self)
        ensures
            r.cwd is None && r.cmd is None && r.placement is None,
    {
        PaneSpec { cwd: None, cmd: None, placement: None }
    }
}

/// `malformed --pane spec "<s>": <what>`.
pub open spec fn pane_error(s: Seq<char>, what: Seq<char>) -> Seq<char> {
    "malformed --pane spec "@ + debug_quoted(s) + ": "@ + what
}

/// One comma-separated segment applied to the spec built so far.
pub open spec fn pane_step(s: Seq<char>, acc: PaneModel, raw: Seq<char>) -> Result<
    PaneModel,
    Seq<char>,
> {
    let seg = trim(raw);
    if seg.len() == 0 {
        Err(pane_error(s, "empty segment"@))
    } else {
        match split_once(seg, '=') {
            Some((key, value)) => {
                let k = trim(key);
                if k == "cwd"@ {
                    if acc.cwd is Some {
                        Err(pane_error(s, "duplicate cwd"@))
                    } else {
                        Ok(PaneModel { cwd: Some(value), ..acc })
                    }
                } else if k == "cmd"@ {
                    if acc.cmd is Some {
                        Err(pane_error(s, "duplicate cmd"@))
                    } else {
                        Ok(PaneModel { cmd: Some(value), ..acc })
                    }
                } else {
                    Err(
                        pane_error(
                            s,
                            "unknown key "@ + debug_quoted(k) + " (expected cwd or cmd)"@,
                        ),
                    )
                }
            },
            None => {
                if seg == "tab"@ || seg == "window"@ {
                    if acc.placement is Some {
                        Err(pane_error(s, "duplicate placement token"@))
                    } else {
                        Ok(PaneModel { placement: Some(seg), ..acc })
                    }
                } else {
                    Err(
                        pane_error(
                            s,
                            "unrecognized token "@ + debug_quoted(seg)
                                + " (expected key=value or tab/window)"@,
                        ),
                    )
                }
            },
        }
    }
}

/// The first `n` segments applied left to right; the first error wins.
pub open spec fn pane_fold(s: Seq<char>, segs: Seq<Seq<char>>, n: int) -> Result<
    PaneModel,
    Seq<char>,
>
    decreases n,
{
    if n <= 0 {
        Ok(PaneModel { cwd: None, cmd: None, placement: None })
    } else {
        match pane_fold(s, segs, n - 1) {
            Err(e) => Err(e),
            Ok(acc) => pane_step(s, acc, segs[n - 1]),
        }
    }
}

/// What `parse_pane_flag` returns for `s`.
pub open spec fn spec_parse_pane_flag(s: Seq<char>) -> Result<PaneModel, Seq<char>> {
    let segs = split(s, ',');
    match pane_fold(s, segs, segs.len() as int) {
        Err(e) => Err(e),
        Ok(m) => if m.cwd is None {
            Err(pane_error(s, "cwd=<dir> is required"@))
        } else {
            Ok(m)
        },
    }
}

proof fn lemma_pane_fold_err(s: Seq<char>, segs: Seq<Seq<char>>, i: int, n: int)
    requires
        0 <= i <= n,
        pane_fold(s, segs, i) is Err,
    ensures
        pane_fold(s, segs, n) == pane_fold(s, segs, i),
    decreases n - i,
{
    if n > i {
        lemma_pane_fold_err(s, segs, i, n - 1);
    }
}

fn pane_err(s: &str, what: Vec<char>) -> (r: String)
    ensures
        r@ == pane_error(s@, what@),
{
    let mut out = chars_of("malformed --pane spec ");
    let q = debug_str(s);
    push_all(&mut out, &q);
    push_lit(&mut out, ": ");
    push_all(&mut out, &what);
    string_of(&out)
}

fn debug_chars(cs: &Vec<char>) -> (r: Vec<char>)
    ensures
        r@ == debug_quoted(cs@),
{
    let s = string_of(cs);
    debug_str(s.as_str())
}

/// Parses a `--pane 'cwd=<dir>[,cmd=<command>][,tab|window]'` flag:
/// comma-separated `key=value` pairs (`cwd`, `cmd`) plus a bare `tab` or
/// `window` placement token. `cwd` is required; no key or token may repeat.
/// The format has no escaping, so a comma always ends a segment.
pub fn parse_pane_flag(s: &str) -> (r: Result<PaneSpec, String>)
    ensures
        match r {
            Ok(spec) => spec_parse_pane_flag(s@) matches Ok(m) && spec@ == m,
            Err(e) => spec_parse_pane_flag(s@) matches Err(m) && e@ == m,
        },
{
    let cs = chars_of(s);
    let segs = split_chars(&cs, ',');
    let ghost gsegs = split(s@, ',');
    let mut spec = PaneSpec { cwd: None, cmd: None, placement: None };
    let mut i: usize = 0;
    while i < segs.len()
        invariant
            i <= segs@.len(),
            cs@ == s@,
            gsegs == split(s@, ','),
            segs@.len() == gsegs.len(),
            forall|j: int| 0 <= j < segs@.len() ==> #[trigger] segs@[j]@ == gsegs[j],
            pane_fold(s@, gsegs, i as int) matches Ok(m) && spec@ == m,
        decreases segs@.len() - i,
    {
        let seg = trim_chars(&segs[i]);
        assert(seg@ == trim(gsegs[i as int]));
        if seg.len() == 0 {
            let e = pane_err(s, chars_of("empty segment"));
            proof {
                lemma_pane_fold_err(s@, gsegs, i + 1, gsegs.len() as int);
            }
            return Err(e);
        }
        match split_once_chars(&seg, '=') {
            Some((key, value)) => {
                let k = trim_chars(&key);
                if eq_lit(&k, "cwd") {
                    if spec.cwd.is_some() {
                        let e = pane_err(s, chars_of("duplicate cwd"));
                        proof {
                            lemma_pane_fold_err(s@, gsegs, i + 1, gsegs.len() as int);
                        }
                        return Err(e);
                    }
                    spec.cwd = Some(string_of(&value));
                } else if eq_lit(&k, "cmd") {
                    if spec.cmd.is_some() {
                        let e = pane_err(s, chars_of("duplicate cmd"));
                        proof {
                            lemma_pane_fold_err(s@, gsegs, i + 1, gsegs.len() as int);
                        }
                        return Err(e);
                    }
                    spec.cmd = Some(string_of(&value));
                } else {
                    let mut what = chars_of("unknown key ");
                    let q = debug_chars(&k);
                    push_all(&mut what, &q);
                    push_lit(&mut what, " (expected cwd or cmd)");
                    let e = pane_err(s, what);
                    proof {
                        lemma_pane_fold_err(s@, gsegs, i + 1, gsegs.len() as int);
                    }
                    return Err(e);
                }
            },
            None => {
                if eq_lit(&seg, "tab") || eq_lit(&seg, "window") {
                    if spec.placement.is_some() {
                        let e = pane_err(s, chars_of("duplicate placement token"));
                        proof {
                            lemma_pane_fold_err(s@, gsegs, i + 1, gsegs.len() as int);
                        }
                        return Err(e);
                    }
                    spec.placement = Some(string_of(&seg));
                } else {
                    let mut what = chars_of("unrecognized token ");
                    let q = debug_chars(&seg);
                    push_all(&mut what, &q);
                    push_lit(&mut what, " (expected key=value or tab/window)");
                    let e = pane_err(s, what);
                    proof {
                        lemma_pane_fold_err(s@, gsegs, i + 1, gsegs.len() as int);
                    }
                    return Err(e);
                }
            },
        }
        i = i + 1;
    }
    if spec.cwd.is_none() {
        return Err(pane_err(s, chars_of("cwd=<dir> is required")));
    }
    Ok(spec)
}

/// The spawn-queue `"layout"` value for a placement: none → `split_h`,
/// `tab` → `tab`, `window` → `new_window`; anything else is an error.
pub open spec fn spec_placement_to_layout(p: Option<Seq<char>>) -> Result<Seq<char>, Seq<char>> {
    match p {
        None => Ok("split_h"@),
        Some(x) => if x == "tab"@ {
            Ok("tab"@)
        } else if x == "window"@ {
            Ok("new_window"@)
        } else {
            Err(
                "invalid pane placement "@ + debug_quoted(x)
                    + ": expected \"tab\" or \"window\" (omit for default split)"@,
            )
        },
    }
}

/// Maps `PaneSpec.placement` to the spawn-queue `"layout"` field.
pub fn placement_to_layout(spec: &PaneSpec) -> (r: Result<&'static str, String>)
    ensures
        match r {
            Ok(l) => spec_placement_to_layout(spec@.placement) == Ok::<Seq<char>, Seq<char>>(l@),
            Err(e) => spec_placement_to_layout(spec@.placement) == Err::<Seq<char>, Seq<char>>(
                e@,
            ),
        },
{
    match &spec.placement {
        None => Ok("split_h"),
        Some(p) => {
            let pc = chars_of(p.as_str());
            if eq_lit(&pc, "tab") {
                Ok("tab")
            } else if eq_lit(&pc, "window") {
                Ok("new_window")
            } else {
                let mut e = chars_of("invalid pane placement ");
                let q = debug_str(p.as_str());
                push_all(&mut e, &q);
                push_lit(&mut e, ": expected \"tab\" or \"window\" (omit for default split)");
                Err(string_of(&e))
            }
        },
    }
}

/// The pane/context-scoped variables that never reach a launched host; the
/// channel variable is among them and is set again explicitly.
pub open spec fn is_stripped_var(k: Seq<char>) -> bool {
    ||| k == "PLEXI_SOCKET"@
    ||| k == "PLEXI_PANE_ID"@
    ||| k == "PLEXI_CONTEXT_ID"@
    ||| k == "PLEXI_CONTEXT_ROOT"@
    ||| k == "PLEXI_RUNNING"@
    ||| k == "PLEXI_CHANNEL"@
}

fn stripped_var(k: &Vec<char>) -> (r: bool)
    ensures
        r == is_stripped_var(k@),
{
    eq_lit(k, "PLEXI_SOCKET") || eq_lit(k, "PLEXI_PANE_ID") || eq_lit(k, "PLEXI_CONTEXT_ID")
        || eq_lit(k, "PLEXI_CONTEXT_ROOT") || eq_lit(k, "PLEXI_RUNNING") || eq_lit(
        k,
        "PLEXI_CHANNEL",
    )
}

pub open spec fn env_model(v: Seq<(String, String)>) -> Seq<(Seq<char>, Seq<char>)> {
    v.map_values(|p: (String, String)| (p.0@, p.1@))
}

/// The variables of `env` that are kept, in order.
pub open spec fn kept_env(env: Seq<(Seq<char>, Seq<char>)>) -> Seq<(Seq<char>, Seq<char>)>
    decreases env.len(),
{
    if env.len() == 0 {
        seq![]
    } else {
        let rest = kept_env(env.drop_last());
        if is_stripped_var(env.last().0) {
            rest
        } else {
            rest.push(env.last())
        }
    }
}

/// The launched child's environment: the parent's, in order, without the
/// stripped variables, then `PLEXI_CHANNEL=<channel>` when a channel is given.
pub open spec fn spec_child_env(
    parent: Seq<(Seq<char>, Seq<char>)>,
    channel: Option<Seq<char>>,
) -> Seq<(Seq<char>, Seq<char>)> {
    match channel {
        Some(c) => kept_env(parent).push(("PLEXI_CHANNEL"@, c)),
        None => kept_env(parent),
    }
}

/// Builds the launched child's environment from the parent's.
pub fn filter_child_env(parent_env: Vec<(String, String)>, channel: Option<&str>) -> (r: Vec<
    (String, String),
>)
    ensures
        env_model(r@) == spec_child_env(
            env_model(parent_env@),
            match channel {
                Some(c) => Some(c@),
                None => None,
            },
        ),
{
    let ghost parent = env_model(parent_env@);
    let mut out: Vec<(String, String)> = Vec::new();
    let mut i: usize = 0;
    while i < parent_env.len()
        invariant
            i <= parent_env@.len(),
            parent == env_model(parent_env@),
            env_model(out@) == kept_env(parent.take(i as int)),
        decreases parent_env@.len() - i,
    {
        let k = chars_of(parent_env[i].0.as_str());
        assert(parent.take(i + 1).drop_last() == parent.take(i as int));
        assert(parent.take(i + 1).last() == parent[i as int]);
        if !stripped_var(&k) {
            let pair = (parent_env[i].0.clone(), parent_env[i].1.clone());
            let ghost before = out@;
            out.push(pair);
            assert(env_model(out@) == env_model(before).push((pair.0@, pair.1@)));
        }
        i = i + 1;
    }
    assert(parent.take(parent_env@.len() as int) == parent);
    match channel {
        Some(c) => {
            let ghost before = out@;
            out.push(("PLEXI_CHANNEL".to_owned(), c.to_owned()));
            assert(env_model(out@) == env_model(before).push(("PLEXI_CHANNEL"@, c@)));
        },
        None => {},
    }
    out
}


// ── layouts, seeding and the running host ───────────────────────────────────

/// A `--layout` file: its `[[pane]]` tables.
#[derive(Debug, Clone, PartialEq)]
pub struct LayoutFile {
    pub pane: Vec<PaneSpec>,
}

pub open spec fn panes_view(v: Seq<PaneSpec>) -> Seq<PaneModel> {
    v.map_values(|p: PaneSpec| p@)
}

/// The panes of a layout file, then those of the `--pane` flags in order;
/// the first malformed flag's error otherwise.
pub open spec fn spec_collect(layout: Seq<PaneModel>, flags: Seq<Seq<char>>, k: int) -> Result<Seq<PaneModel>, Seq<char>>
    decreases k,
{
    if k <= 0 || k > flags.len() {
        Ok(layout)
    } else {
        match spec_collect(layout, flags, k - 1) {
            Err(e) => Err(e),
            Ok(acc) => match spec_parse_pane_flag(flags[k - 1]) {
                Ok(p) => Ok(acc.push(p)),
                Err(e) => Err(e),
            },
        }
    }
}

pub open spec fn flags_view(v: Seq<String>) -> Seq<Seq<char>> {
    v.map_values(|s: String| s@)
}

/// The ordered panes `host start` seeds.
pub fn collect_pane_specs(layout: Option<LayoutFile>, panes: &[String]) -> (r: Result<Vec<PaneSpec>, String>)
    ensures
        match r {
            Ok(v) => spec_collect(
                match layout {
                    Some(l) => panes_view(l.pane@),
                    None => Seq::<PaneModel>::empty(),
                },
                flags_view(panes@),
                panes@.len() as int,
            ) == Ok::<Seq<PaneModel>, Seq<char>>(panes_view(v@)),
            Err(e) => spec_collect(
                match layout {
                    Some(l) => panes_view(l.pane@),
                    None => Seq::<PaneModel>::empty(),
                },
                flags_view(panes@),
                panes@.len() as int,
            ) == Err::<Seq<PaneModel>, Seq<char>>(e@),
        },
{
    let ghost base = match &layout {
        Some(l) => panes_view(l.pane@),
        None => Seq::<PaneModel>::empty(),
    };
    let mut specs: Vec<PaneSpec> = match layout {
        Some(l) => l.pane,
        None => Vec::new(),
    };
    assert(panes_view(specs@) =~= base);
    let mut i: usize = 0;
    while i < panes.len()
        invariant
            i <= panes@.len(),
            spec_collect(base, flags_view(panes@), i as int) == Ok::<Seq<PaneModel>, Seq<char>>(panes_view(specs@)),
            base == match layout {
                Some(l) => panes_view(l.pane@),
                None => Seq::<PaneModel>::empty(),
            },
        decreases panes@.len() - i,
    {
        assert(flags_view(panes@)[i as int] == panes@[i as int]@);
        match parse_pane_flag(panes[i].as_str()) {
            Ok(p) => {
                let ghost before = specs@;
                specs.push(p);
                assert(panes_view(specs@) =~= panes_view(before).push(p@));
            },
            Err(e) => {
                proof {
                    assert(spec_collect(base, flags_view(panes@), i as int + 1) == Err::<Seq<PaneModel>, Seq<char>>(e@));
                    lemma_collect_err(base, flags_view(panes@), i as int + 1, e@);
                }
                return Err(e);
            },
        }
        i = i + 1;
    }
    Ok(specs)
}

proof fn lemma_collect_err(base: Seq<PaneModel>, flags: Seq<Seq<char>>, k: int, e: Seq<char>)
    requires
        0 < k <= flags.len(),
        spec_collect(base, flags, k) == Err::<Seq<PaneModel>, Seq<char>>(e),
    ensures
        spec_collect(base, flags, flags.len() as int) == Err::<Seq<PaneModel>, Seq<char>>(e),
    decreases flags.len() - k,
{
    if k < flags.len() {
        lemma_collect_err(base, flags, k + 1, e);
    }
}

/// The spawn-queue record seeding one pane:
/// `{"args":[CMD],"cwd":CWD,"layout":L,"type_id":"terminal"}`, with no
/// argument when the pane runs no command and `null` for an unset directory.
pub open spec fn spec_seed_payload(p: PaneModel, layout: Seq<char>) -> Seq<char> {
    "{\"args\":["@ + match p.cmd {
        Some(c) => json_quoted(c),
        None => seq![],
    } + "],\"cwd\":"@ + match p.cwd {
        Some(d) => json_quoted(d),
        None => "null"@,
    } + ",\"layout\":"@ + json_quoted(layout) + ",\"type_id\":\"terminal\"}"@
}

/// The record for one pane, or the placement error.
pub fn seed_payload(spec: &PaneSpec) -> (r: Result<String, String>)
    ensures
        match r {
            Ok(t) => spec_placement_to_layout(spec@.placement) matches Ok(l) && t@ == spec_seed_payload(spec@, l),
            Err(e) => spec_placement_to_layout(spec@.placement) == Err::<Seq<char>, Seq<char>>(e@),
        },
{
    let layout = match placement_to_layout(spec) {
        Ok(l) => l,
        Err(e) => {
            return Err(e);
        },
    };
    let mut out: Vec<char> = Vec::new();
    push_lit(&mut out, "{\"args\":[");
    match &spec.cmd {
        Some(c) => {
            let q = json_quote(c.as_str());
            push_lit(&mut out, q.as_str());
        },
        None => {},
    }
    push_lit(&mut out, "],\"cwd\":");
    match &spec.cwd {
        Some(d) => {
            let q = json_quote(d.as_str());
            push_lit(&mut out, q.as_str());
        },
        None => push_lit(&mut out, "null"),
    }
    push_lit(&mut out, ",\"layout\":");
    let q = json_quote(layout);
    push_lit(&mut out, q.as_str());
    push_lit(&mut out, ",\"type_id\":\"terminal\"}");
    let t = string_of(&out);
    assert(t@ =~= spec_seed_payload(spec@, layout@));
    Ok(t)
}

/// The pid `lsof -t` prints: its first line, trimmed, as a `u32`.
pub open spec fn spec_lsof_pid(out: Seq<char>) -> Option<u32> {
    let first = crate::text::split(out, '\n')[0];
    let line = if first.len() > 0 && first.last() == '\r' {
        first.drop_last()
    } else {
        first
    };
    if out.len() == 0 {
        None
    } else {
        match parse_u64(trim(line)) {
            Some(v) => if v <= u32::MAX {
                Some(v as u32)
            } else {
                None
            },
            None => None,
        }
    }
}

pub fn lsof_pid(out: &str) -> (r: Option<u32>)
    ensures
        r == spec_lsof_pid(out@),
{
    let c = chars_of(out);
    if c.len() == 0 {
        return None;
    }
    let parts = split_chars(&c, '\n');
    proof {
        crate::crawl::lemma_split_nonempty_pub(c@, '\n');
    }
    let first = &parts[0];
    let line = if first.len() > 0 && first[first.len() - 1] == '\r' {
        crate::text::slice_of(first, 0, first.len() - 1)
    } else {
        crate::text::slice_of(first, 0, first.len())
    };
    proof {
        assert(line@ =~= (if first@.len() > 0 && first@.last() == '\r' {
            first@.drop_last()
        } else {
            first@
        }));
    }
    let t = trim_chars(&line);
    match parse_u64_chars(&t) {
        Some(v) => if v <= 0xFFFF_FFFF {
            Some(v as u32)
        } else {
            None
        },
        None => None,
    }
}

/// The refusal when a host for the channel already runs.
pub open spec fn spec_already_running(pid: Option<u32>, socket: Seq<char>) -> Seq<char> {
    "error: a Plexi host for this channel is already running (pid "@ + match pid {
        Some(p) => crate::text::decimal(p as nat),
        None => "unknown"@,
    } + ", socket "@ + socket + ")"@
}

pub fn already_running_message(pid: Option<u32>, socket: &str) -> (r: String)
    ensures
        r@ == spec_already_running(pid, socket@),
{
    let mut out: Vec<char> = Vec::new();
    push_lit(&mut out, "error: a Plexi host for this channel is already running (pid ");
    match pid {
        Some(p) => {
            let d = crate::text::decimal_chars(p as u64);
            push_all(&mut out, &d);
        },
        None => push_lit(&mut out, "unknown"),
    }
    push_lit(&mut out, ", socket ");
    push_lit(&mut out, socket);
    push_lit(&mut out, ")");
    string_of(&out)
}


// ── channel paths and status ────────────────────────────────────────────────

/// What `host start` says when the bundle or its binary is missing.
pub fn not_installed_message(bundle: &str) -> (r: String)
    ensures
        r@ == "error: Plexi is not installed for this channel (expected "@ + bundle@ + ")"@,
{
    let mut out: Vec<char> = Vec::new();
    push_lit(&mut out, "error: Plexi is not installed for this channel (expected ");
    push_lit(&mut out, bundle);
    push_lit(&mut out, ")");
    string_of(&out)
}

pub fn binary_missing_message(binary: &str) -> (r: String)
    ensures
        r@ == "error: Plexi binary missing inside bundle (expected "@ + binary@ + ")"@,
{
    let mut out: Vec<char> = Vec::new();
    push_lit(&mut out, "error: Plexi binary missing inside bundle (expected ");
    push_lit(&mut out, binary);
    push_lit(&mut out, ")");
    string_of(&out)
}

/// What `host start` prints once the host answers.
pub fn started_message(pid: u32, pane_count: usize) -> (r: String)
    ensures
        r@ == "Plexi host started (pid "@ + crate::text::decimal(pid as nat) + "), "@ + crate::text::decimal(
            pane_count as nat,
        ) + " pane(s) ready."@,
{
    let mut out: Vec<char> = Vec::new();
    push_lit(&mut out, "Plexi host started (pid ");
    let d = crate::text::decimal_chars(pid as u64);
    push_all(&mut out, &d);
    push_lit(&mut out, "), ");
    let n = crate::text::decimal_chars(pane_count as u64);
    push_all(&mut out, &n);
    push_lit(&mut out, " pane(s) ready.");
    string_of(&out)
}

/// What `host status` prints: a JSON object (members in key order:
/// pane_count, pid, ready, socket; `null` for an unknown number), or a line
/// saying whether the host runs.
pub open spec fn spec_status_report(json: bool, pid: Option<u32>, pane_count: Option<usize>, socket: Seq<char>) -> Seq<char> {
    if json {
        "{\"pane_count\":"@ + match pane_count {
            Some(n) => crate::text::decimal(n as nat),
            None => "null"@,
        } + ",\"pid\":"@ + match pid {
            Some(p) => crate::text::decimal(p as nat),
            None => "null"@,
        } + ",\"ready\":"@ + (if pane_count is Some {
            "true"@
        } else {
            "false"@
        }) + ",\"socket\":"@ + json_quoted(socket) + "}"@
    } else if pane_count is Some {
        "Plexi host is running (pid "@ + match pid {
            Some(p) => crate::text::decimal(p as nat),
            None => "unknown"@,
        } + "), "@ + crate::text::decimal(pane_count->0 as nat) + " pane(s), socket "@ + socket
    } else {
        "Plexi host is not running (socket "@ + socket + ")"@
    }
}

fn push_num_or(out: &mut Vec<char>, v: Option<u64>, none: &str)
    ensures
        final(out)@ == old(out)@ + match v {
            Some(n) => crate::text::decimal(n as nat),
            None => none@,
        },
{
    match v {
        Some(n) => {
            let d = crate::text::decimal_chars(n);
            push_all(out, &d);
        },
        None => push_lit(out, none),
    }
}

pub fn status_report(json: bool, pid: Option<u32>, pane_count: Option<usize>, socket: &str) -> (r: String)
    ensures
        r@ == spec_status_report(json, pid, pane_count, socket@),
{
    let pid64: Option<u64> = match pid {
        Some(p) => Some(p as u64),
        None => None,
    };
    let count64: Option<u64> = match pane_count {
        Some(n) => Some(n as u64),
        None => None,
    };
    let mut out: Vec<char> = Vec::new();
    if json {
        push_lit(&mut out, "{\"pane_count\":");
        push_num_or(&mut out, count64, "null");
        push_lit(&mut out, ",\"pid\":");
        push_num_or(&mut out, pid64, "null");
        push_lit(&mut out, ",\"ready\":");
        if pane_count.is_some() {
            push_lit(&mut out, "true");
        } else {
            push_lit(&mut out, "false");
        }
        push_lit(&mut out, ",\"socket\":");
        let q = json_quote(socket);
        push_lit(&mut out, q.as_str());
        push_lit(&mut out, "}");
    } else if pane_count.is_some() {
        push_lit(&mut out, "Plexi host is running (pid ");
        push_num_or(&mut out, pid64, "unknown");
        push_lit(&mut out, "), ");
        let n = crate::text::decimal_chars(count64.unwrap());
        push_all(&mut out, &n);
        push_lit(&mut out, " pane(s), socket ");
        push_lit(&mut out, socket);
    } else {
        push_lit(&mut out, "Plexi host is not running (socket ");
        push_lit(&mut out, socket);
        push_lit(&mut out, ")");
    }
    string_of(&out)
}

// ── stopping the host ───────────────────────────────────────────────────────

/// Where `plexi host stop` stands: asking the host to shut down over its
/// socket, waiting for it to exit, or falling back to SIGTERM.
#[derive(Clone, Copy, PartialEq, Eq, Structural)]
pub enum StopState {
    Connecting,
    Sending,
    Waiting,
    Killing,
    Done,
}

/// What a fresh connect to the socket found while waiting: refused (the
/// host has exited), no socket file, or still answering.
#[derive(Clone, Copy, PartialEq, Eq, Structural)]
pub enum Probe {
    Refused,
    Gone,
    Alive,
}

/// What the outside work reported.
pub enum StopEvent {
    Connected(bool),
    Sent(bool),
    /// A probe, and whether the wait's deadline has passed after it.
    Probed(Probe, bool),
    /// `kill -TERM` exited successfully.
    Killed,
    /// `kill -TERM` ran and failed: its exit status as text.
    KillFailed(String),
    /// `kill` could not be run: the error as text.
    KillNotRun(String),
}

/// What to do next.
pub enum StopAction {
    Connect,
    SendShutdown,
    Probe,
    SleepThenProbe,
    Kill(u32),
    /// Finish: the exit code, a line for stdout or stderr, and whether to
    /// remove the socket file first.
    Finish { code: i32, stdout: Option<String>, stderr: Option<String>, remove_socket: bool },
}

pub open spec fn stop_action_view(a: StopAction) -> (int, Option<u32>, int, Option<Seq<char>>, Option<Seq<char>>, bool) {
    match a {
        StopAction::Connect => (0, None, 0, None, None, false),
        StopAction::SendShutdown => (1, None, 0, None, None, false),
        StopAction::Probe => (2, None, 0, None, None, false),
        StopAction::SleepThenProbe => (3, None, 0, None, None, false),
        StopAction::Kill(p) => (4, Some(p), 0, None, None, false),
        StopAction::Finish { code, stdout, stderr, remove_socket } => (
            5,
            None,
            code as int,
            crate::text::opt_text(stdout),
            crate::text::opt_text(stderr),
            remove_socket,
        ),
    }
}

pub open spec fn finish(code: int, stdout: Option<Seq<char>>, stderr: Option<Seq<char>>, remove: bool) -> (int, Option<u32>, int, Option<Seq<char>>, Option<Seq<char>>, bool) {
    (5, None, code, stdout, stderr, remove)
}

/// Without a clean shutdown: SIGTERM to the host's pid, or an error when no
/// host runs.
pub open spec fn spec_fallback(pid: Option<u32>) -> (StopState, (int, Option<u32>, int, Option<Seq<char>>, Option<Seq<char>>, bool)) {
    match pid {
        Some(p) => (StopState::Killing, (4, Some(p), 0, None, None, false)),
        None => (StopState::Done, finish(1, None, Some("error: no Plexi host is running for this channel"@), false)),
    }
}

pub open spec fn clean_stop_message() -> Seq<char> {
    "Plexi host stopped (clean shutdown)."@
}

/// One step of `plexi host stop`.  A connected host is sent the shutdown
/// request, then probed until a connect is refused (its socket file is then
/// removed) or the socket is gone; a failed connect or write, or a wait past
/// its deadline, falls back to SIGTERM, which reports its outcome.  An event
/// that does not belong to the state finishes with an error code.
pub open spec fn spec_stop_step(state: StopState, pid: Option<u32>, event: StopEvent) -> (StopState, (int, Option<u32>, int, Option<Seq<char>>, Option<Seq<char>>, bool)) {
    match (state, event) {
        (StopState::Connecting, StopEvent::Connected(true)) => (StopState::Sending, (1, None, 0, None, None, false)),
        (StopState::Connecting, StopEvent::Connected(false)) => spec_fallback(pid),
        (StopState::Sending, StopEvent::Sent(true)) => (StopState::Waiting, (2, None, 0, None, None, false)),
        (StopState::Sending, StopEvent::Sent(false)) => spec_fallback(pid),
        (StopState::Waiting, StopEvent::Probed(Probe::Refused, _)) => (StopState::Done, finish(0, Some(clean_stop_message()), None, true)),
        (StopState::Waiting, StopEvent::Probed(Probe::Gone, _)) => (StopState::Done, finish(0, Some(clean_stop_message()), None, false)),
        (StopState::Waiting, StopEvent::Probed(Probe::Alive, late)) => if late {
            spec_fallback(pid)
        } else {
            (StopState::Waiting, (3, None, 0, None, None, false))
        },
        (StopState::Killing, StopEvent::Killed) => match pid {
            Some(p) => (StopState::Done, finish(0, Some("Plexi host stopped (SIGTERM sent to pid "@ + crate::text::decimal(p as nat) + ")."@), None, false)),
            None => (StopState::Done, finish(1, None, None, false)),
        },
        (StopState::Killing, StopEvent::KillFailed(status)) => match pid {
            Some(p) => (StopState::Done, finish(1, None, Some("error: could not stop process "@ + crate::text::decimal(p as nat) + " (kill exited with "@ + status@ + ")"@), false)),
            None => (StopState::Done, finish(1, None, None, false)),
        },
        (StopState::Killing, StopEvent::KillNotRun(e)) => (StopState::Done, finish(1, None, Some("error: could not run kill: "@ + e@), false)),
        _ => (StopState::Done, finish(1, None, None, false)),
    }
}

fn fallback(pid: Option<u32>) -> (r: (StopState, StopAction))
    ensures
        (r.0, stop_action_view(r.1)) == spec_fallback(pid),
{
    match pid {
        Some(p) => (StopState::Killing, StopAction::Kill(p)),
        None => (
            StopState::Done,
            StopAction::Finish {
                code: 1,
                stdout: None,
                stderr: Some("error: no Plexi host is running for this channel".to_owned()),
                remove_socket: false,
            },
        ),
    }
}

fn pid_text(p: u32) -> (r: Vec<char>)
    ensures
        r@ == crate::text::decimal(p as nat),
{
    crate::text::decimal_chars(p as u64)
}

/// The first step: connect to the host's socket.
pub fn stop_start() -> (r: (StopState, StopAction))
    ensures
        r.0 == StopState::Connecting,
        r.1 is Connect,
{
    (StopState::Connecting, StopAction::Connect)
}

pub fn stop_step(state: StopState, pid: Option<u32>, event: StopEvent) -> (r: (StopState, StopAction))
    ensures
        (r.0, stop_action_view(r.1)) == spec_stop_step(state, pid, event),
{
    let clean = "Plexi host stopped (clean shutdown).";
    match (state, event) {
        (StopState::Connecting, StopEvent::Connected(true)) => (StopState::Sending, StopAction::SendShutdown),
        (StopState::Connecting, StopEvent::Connected(false)) => fallback(pid),
        (StopState::Sending, StopEvent::Sent(true)) => (StopState::Waiting, StopAction::Probe),
        (StopState::Sending, StopEvent::Sent(false)) => fallback(pid),
        (StopState::Waiting, StopEvent::Probed(Probe::Refused, _)) => (
            StopState::Done,
            StopAction::Finish { code: 0, stdout: Some(clean.to_owned()), stderr: None, remove_socket: true },
        ),
        (StopState::Waiting, StopEvent::Probed(Probe::Gone, _)) => (
            StopState::Done,
            StopAction::Finish { code: 0, stdout: Some(clean.to_owned()), stderr: None, remove_socket: false },
        ),
        (StopState::Waiting, StopEvent::Probed(Probe::Alive, late)) => if late {
            fallback(pid)
        } else {
            (StopState::Waiting, StopAction::SleepThenProbe)
        },
        (StopState::Killing, StopEvent::Killed) => match pid {
            Some(p) => {
                let mut m: Vec<char> = Vec::new();
                push_lit(&mut m, "Plexi host stopped (SIGTERM sent to pid ");
                let d = pid_text(p);
                push_all(&mut m, &d);
                push_lit(&mut m, ").");
                (StopState::Done, StopAction::Finish { code: 0, stdout: Some(string_of(&m)), stderr: None, remove_socket: false })
            },
            None => (StopState::Done, StopAction::Finish { code: 1, stdout: None, stderr: None, remove_socket: false }),
        },
        (StopState::Killing, StopEvent::KillFailed(status)) => match pid {
            Some(p) => {
                let mut m: Vec<char> = Vec::new();
                push_lit(&mut m, "error: could not stop process ");
                let d = pid_text(p);
                push_all(&mut m, &d);
                push_lit(&mut m, " (kill exited with ");
                push_lit(&mut m, status.as_str());
                push_lit(&mut m, ")");
                (StopState::Done, StopAction::Finish { code: 1, stdout: None, stderr: Some(string_of(&m)), remove_socket: false })
            },
            None => (StopState::Done, StopAction::Finish { code: 1, stdout: None, stderr: None, remove_socket: false }),
        },
        (StopState::Killing, StopEvent::KillNotRun(e)) => {
            let mut m: Vec<char> = Vec::new();
            push_lit(&mut m, "error: could not run kill: ");
            push_lit(&mut m, e.as_str());
            (StopState::Done, StopAction::Finish { code: 1, stdout: None, stderr: Some(string_of(&m)), remove_socket: false })
        },
        _ => (StopState::Done, StopAction::Finish { code: 1, stdout: None, stderr: None, remove_socket: false }),
    }
}

/// `plexi host stop` signals only the pid it was given, reports success
/// only after a clean shutdown or a delivered SIGTERM, and removes the
/// socket file only once a connect to it is refused.
pub proof fn lemma_stop_step_safe(state: StopState, pid: Option<u32>, event: StopEvent)
    ensures
        ({
            let (next, a) = spec_stop_step(state, pid, event);
            &&& a.0 == 4 ==> pid == Some(a.1.unwrap())
            &&& (a.0 == 5 && a.2 == 0) ==> ((state == StopState::Waiting && (event matches StopEvent::Probed(Probe::Refused, _) || event matches StopEvent::Probed(Probe::Gone, _))) || (state == StopState::Killing && event is Killed))
            &&& (a.0 == 5 && a.5) ==> (state == StopState::Waiting && event matches StopEvent::Probed(Probe::Refused, _))
            &&& (a.0 == 5) <==> next == StopState::Done
        }),
{
}

} // verus!
