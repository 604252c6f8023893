//! The command palette's model: which entries a query shows and in what
//! order, how the keyboard moves the selection, and what choosing an entry
//! does.  Windows are described by plain values (their context, their
//! focused pane and the names of their terminal panes); drawing the palette
//! is the GUI's business.

use vstd::prelude::*;
use crate::install::{lowercase_of, str_to_lowercase};
use crate::setup::{contains_lit_text, contains_text};
use crate::text::{chars_of, opt_text};

verus! {

// ── matching ────────────────────────────────────────────────────────────────

/// The query as the palette matches it: lowercased.
pub fn palette_query(raw: &str) -> (r: String)
    ensures
        r@ == lowercase_of(raw@),
{
    str_to_lowercase(raw)
}

/// Whether a (lowercased) query hits a text: the empty query hits every
/// text; otherwise the lowercased text must contain it.
pub open spec fn hits(query: Seq<char>, text: Seq<char>) -> bool {
    query.len() == 0 || contains_text(lowercase_of(text), query)
}

pub fn query_hits(query: &str, text: &str) -> (r: bool)
    ensures
        r == hits(query@, text@),
{
    if query.unicode_len() == 0 {
        return true;
    }
    let lower = str_to_lowercase(text);
    let l = chars_of(lower.as_str());
    contains_lit_text(&l, query)
}

// ── looking things up ───────────────────────────────────────────────────────

/// The value of the first pair with key `k`.
pub open spec fn lookup(m: Seq<(u64, u64)>, k: u64) -> Option<u64>
    decreases m.len(),
{
    if m.len() == 0 {
        None
    } else if m[0].0 == k {
        Some(m[0].1)
    } else {
        lookup(m.skip(1), k)
    }
}

pub fn lookup_pair(m: &Vec<(u64, u64)>, k: u64) -> (r: Option<u64>)
    ensures
        r == lookup(m@, k),
{
    let mut i: usize = 0;
    assert(m@.skip(0) =~= m@);
    while i < m.len()
        invariant
            i <= m@.len(),
            lookup(m@, k) == lookup(m@.skip(i as int), k),
        decreases m@.len() - i,
    {
        assert(m@.skip(i as int).skip(1) =~= m@.skip(i + 1));
        if m[i].0 == k {
            return Some(m[i].1);
        }
        i = i + 1;
    }
    None
}

/// The first position of `x` in `s`.
pub open spec fn first_index(s: Seq<u64>, x: u64) -> Option<int>
    decreases s.len(),
{
    if s.len() == 0 {
        None
    } else if s[0] == x {
        Some(0)
    } else {
        match first_index(s.skip(1), x) {
            Some(p) => Some(p + 1),
            None => None,
        }
    }
}

proof fn lemma_first_index_step(s: Seq<u64>, x: u64, i: int)
    requires
        0 <= i < s.len(),
        forall|j: int| 0 <= j < i ==> s[j] != x,
    ensures
        s[i] == x ==> first_index(s, x) == Some(i),
        s[i] != x ==> (forall|j: int| 0 <= j <= i ==> s[j] != x),
    decreases i,
{
    if i > 0 {
        lemma_first_index_step(s.skip(1), x, i - 1);
    }
}

proof fn lemma_first_index_none(s: Seq<u64>, x: u64)
    requires
        forall|j: int| 0 <= j < s.len() ==> s[j] != x,
    ensures
        first_index(s, x) is None,
    decreases s.len(),
{
    if s.len() > 0 {
        lemma_first_index_none(s.skip(1), x);
    }
}

/// Where a window stands in the palette: the active window first (0), then
/// windows by how recently they were visited (1 for the latest), then the
/// rest (`usize::MAX`).
pub open spec fn window_rank(win: u64, active: u64, history: Seq<u64>) -> int {
    if win == active {
        0
    } else {
        match first_index(history, win) {
            Some(p) => p + 1,
            None => usize::MAX as int,
        }
    }
}

pub fn rank_of(win: u64, active: u64, history: &Vec<u64>) -> (r: usize)
    ensures
        r as int == window_rank(win, active, history@),
{
    if win == active {
        return 0;
    }
    let mut i: usize = 0;
    while i < history.len()
        invariant
            i <= history@.len(),
            win != active,
            forall|j: int| 0 <= j < i ==> history@[j] != win,
        decreases history@.len() - i,
    {
        proof {
            lemma_first_index_step(history@, win, i as int);
        }
        if history[i] == win {
            return i + 1;
        }
        i = i + 1;
    }
    proof {
        lemma_first_index_none(history@, win);
    }
    usize::MAX
}

// ── windows and their context entries ──────────────────────────────────────

/// A window as the palette sees it.
pub struct PaletteWindow {
    pub context_id: u64,
    pub window_id: u64,
    /// The name of the window's context (empty when it has none).
    pub context_name: String,
    /// The pane of the focused tile, when that tile is a pane.
    pub focused_pane: Option<u64>,
    /// The window's panes in the order they are walked, each with its
    /// terminal name (none for an unnamed terminal or any other pane).
    pub panes: Vec<(u64, Option<String>)>,
}

pub struct WindowView {
    pub context_id: u64,
    pub window_id: u64,
    pub name: Seq<char>,
    pub focused: Option<u64>,
    pub panes: Seq<(u64, Option<Seq<char>>)>,
}

pub open spec fn pane_view(p: (u64, Option<String>)) -> (u64, Option<Seq<char>>) {
    (p.0, opt_text(p.1))
}

pub open spec fn window_view(w: PaletteWindow) -> WindowView {
    WindowView {
        context_id: w.context_id,
        window_id: w.window_id,
        name: w.context_name@,
        focused: w.focused_pane,
        panes: w.panes@.map_values(|p: (u64, Option<String>)| pane_view(p)),
    }
}

pub open spec fn windows_view(ws: Seq<PaletteWindow>) -> Seq<WindowView> {
    ws.map_values(|w: PaletteWindow| window_view(w))
}

pub open spec fn window_ids(ws: Seq<WindowView>) -> Seq<u64> {
    ws.map_values(|w: WindowView| w.window_id)
}

/// The first window with id `id`.
pub open spec fn window_index(ws: Seq<WindowView>, id: u64) -> Option<int> {
    first_index(window_ids(ws), id)
}

pub open spec fn pane_ids(ps: Seq<(u64, Option<Seq<char>>)>) -> Seq<u64> {
    ps.map_values(|p: (u64, Option<Seq<char>>)| p.0)
}

/// The terminal name of the first pane with id `pid`.
pub open spec fn pane_name(ps: Seq<(u64, Option<Seq<char>>)>, pid: u64) -> Option<Seq<char>> {
    match first_index(pane_ids(ps), pid) {
        Some(j) => ps[j].1,
        None => None,
    }
}

/// The named active pane of a context: the context's active window, its
/// focused pane, and that pane's terminal name; none when any is missing.
pub open spec fn active_pane_for(ws: Seq<WindowView>, cav: Seq<(u64, u64)>, ctx: u64) -> Option<(int, u64, u64, Seq<char>)> {
    match lookup(cav, ctx) {
        None => None,
        Some(awid) => match window_index(ws, awid) {
            None => None,
            Some(wi) => match ws[wi].focused {
                None => None,
                Some(pid) => match pane_name(ws[wi].panes, pid) {
                    None => None,
                    Some(n) => Some((wi, awid, pid, n)),
                },
            },
        },
    }
}

/// A context entry: the window's index, the window id, the name shown, the
/// context name shown before it (empty for none), and the pane to focus.
pub struct ContextEntry {
    pub ctx_idx: usize,
    pub context_id: u64,
    pub name: String,
    pub workspace_name: String,
    pub pane_id: Option<u64>,
}

pub open spec fn ctx_view(e: ContextEntry) -> (int, u64, Seq<char>, Seq<char>, Option<u64>) {
    (e.ctx_idx as int, e.context_id, e.name@, e.workspace_name@, e.pane_id)
}

pub open spec fn ctx_views(es: Seq<ContextEntry>) -> Seq<(int, u64, Seq<char>, Seq<char>, Option<u64>)> {
    es.map_values(|e: ContextEntry| ctx_view(e))
}

/// The one entry a context gets for its first window, when the query hits
/// it: its named active pane (shown under the context's name), else the
/// context itself, in its active window when that window is found.
pub open spec fn primary_entries(ws: Seq<WindowView>, cav: Seq<(u64, u64)>, q: Seq<char>, ci: int) -> Seq<(int, u64, Seq<char>, Seq<char>, Option<u64>)> {
    let w = ws[ci];
    match active_pane_for(ws, cav, w.context_id) {
        Some((wi, awid, pid, n)) => if hits(q, n) || hits(q, w.name) {
            seq![(wi, awid, n, w.name, Some(pid))]
        } else {
            seq![]
        },
        None => {
            let fb = match lookup(cav, w.context_id) {
                Some(id) => match window_index(ws, id) {
                    Some(i) => (i, id),
                    None => (ci, w.window_id),
                },
                None => (ci, w.window_id),
            };
            if hits(q, w.name) {
                seq![(fb.0, fb.1, w.name, Seq::<char>::empty(), None::<u64>)]
            } else {
                seq![]
            }
        },
    }
}

/// The entries for the named panes among the first `k` of a window, when
/// the query hits the pane or its context, leaving out the context's
/// active pane in its active window (that one is the primary entry).
pub open spec fn secondary_entries(w: WindowView, ci: int, cav: Seq<(u64, u64)>, q: Seq<char>, k: int) -> Seq<(int, u64, Seq<char>, Seq<char>, Option<u64>)>
    decreases k,
{
    if k <= 0 {
        seq![]
    } else {
        let rest = secondary_entries(w, ci, cav, q, k - 1);
        let pid = w.panes[k - 1].0;
        let awin: u64 = match lookup(cav, w.context_id) {
            Some(a) => a,
            None => 0,
        };
        match w.panes[k - 1].1 {
            None => rest,
            Some(n) => if w.window_id == awin && w.focused == Some(pid) {
                rest
            } else if hits(q, n) || hits(q, w.name) {
                rest.push((ci, w.window_id, n, w.name, Some(pid)))
            } else {
                rest
            },
        }
    }
}

pub open spec fn seen_before(ws: Seq<WindowView>, ci: int) -> bool {
    exists|j: int| 0 <= j < ci && #[trigger] ws[j].context_id == ws[ci].context_id
}

/// The context entries of the first `n` windows, window by window.
pub open spec fn spec_context_entries(ws: Seq<WindowView>, cav: Seq<(u64, u64)>, q: Seq<char>, n: int) -> Seq<(int, u64, Seq<char>, Seq<char>, Option<u64>)>
    decreases n,
{
    if n <= 0 {
        seq![]
    } else {
        spec_context_entries(ws, cav, q, n - 1) + (if seen_before(ws, n - 1) {
            seq![]
        } else {
            primary_entries(ws, cav, q, n - 1)
        }) + secondary_entries(ws[n - 1], n - 1, cav, q, ws[n - 1].panes.len() as int)
    }
}

fn window_index_of(ws: &Vec<PaletteWindow>, id: u64) -> (r: Option<usize>)
    ensures
        match r {
            Some(i) => window_index(windows_view(ws@), id) == Some(i as int) && i < ws@.len(),
            None => window_index(windows_view(ws@), id) is None,
        },
{
    let ghost ids = window_ids(windows_view(ws@));
    let mut i: usize = 0;
    while i < ws.len()
        invariant
            i <= ws@.len(),
            ids == window_ids(windows_view(ws@)),
            ids.len() == ws@.len(),
            forall|j: int| 0 <= j < i ==> ids[j] != id,
        decreases ws@.len() - i,
    {
        assert(ids[i as int] == ws@[i as int].window_id);
        proof {
            lemma_first_index_step(ids, id, i as int);
        }
        if ws[i].window_id == id {
            return Some(i);
        }
        i = i + 1;
    }
    proof {
        lemma_first_index_none(ids, id);
    }
    None
}

fn pane_name_of(w: &PaletteWindow, pid: u64) -> (r: Option<String>)
    ensures
        opt_text(r) == pane_name(window_view(*w).panes, pid),
{
    let ghost ps = window_view(*w).panes;
    let ghost ids = pane_ids(ps);
    let mut i: usize = 0;
    while i < w.panes.len()
        invariant
            i <= w.panes@.len(),
            ps == window_view(*w).panes,
            ids == pane_ids(ps),
            ids.len() == w.panes@.len(),
            forall|j: int| 0 <= j < i ==> ids[j] != pid,
        decreases w.panes@.len() - i,
    {
        assert(ids[i as int] == w.panes@[i as int].0);
        proof {
            lemma_first_index_step(ids, pid, i as int);
        }
        if w.panes[i].0 == pid {
            return match &w.panes[i].1 {
                Some(n) => Some(n.clone()),
                None => None,
            };
        }
        i = i + 1;
    }
    proof {
        lemma_first_index_none(ids, pid);
    }
    None
}

fn active_pane_of(ws: &Vec<PaletteWindow>, cav: &Vec<(u64, u64)>, ctx: u64) -> (r: Option<(usize, u64, u64, String)>)
    ensures
        match r {
            Some((wi, awid, pid, n)) => active_pane_for(windows_view(ws@), cav@, ctx) == Some((wi as int, awid, pid, n@)),
            None => active_pane_for(windows_view(ws@), cav@, ctx) is None,
        },
{
    let awid = match lookup_pair(cav, ctx) {
        Some(a) => a,
        None => return None,
    };
    let wi = match window_index_of(ws, awid) {
        Some(i) => i,
        None => return None,
    };
    assert(windows_view(ws@)[wi as int] == window_view(ws@[wi as int]));
    let pid = match ws[wi].focused_pane {
        Some(p) => p,
        None => return None,
    };
    match pane_name_of(&ws[wi], pid) {
        Some(n) => Some((wi, awid, pid, n)),
        None => None,
    }
}

fn seen_context_before(ws: &Vec<PaletteWindow>, ci: usize) -> (r: bool)
    requires
        ci < ws@.len(),
    ensures
        r == seen_before(windows_view(ws@), ci as int),
{
    let ghost wv = windows_view(ws@);
    let mut j: usize = 0;
    while j < ci
        invariant
            j <= ci < ws@.len(),
            wv == windows_view(ws@),
            forall|k: int| 0 <= k < j ==> wv[k].context_id != wv[ci as int].context_id,
        decreases ci - j,
    {
        if ws[j].context_id == ws[ci].context_id {
            assert(wv[j as int].context_id == wv[ci as int].context_id);
            return true;
        }
        j = j + 1;
    }
    false
}

fn push_entry(out: &mut Vec<ContextEntry>, ctx_idx: usize, context_id: u64, name: String, workspace_name: String, pane_id: Option<u64>)
    ensures
        ctx_views(final(out)@) == ctx_views(old(out)@).push((ctx_idx as int, context_id, name@, workspace_name@, pane_id)),
{
    let ghost before = out@;
    out.push(ContextEntry { ctx_idx, context_id, name, workspace_name, pane_id });
    assert(ctx_views(out@) =~= ctx_views(before).push((ctx_idx as int, context_id, name@, workspace_name@, pane_id)));
}

fn push_primary(out: &mut Vec<ContextEntry>, ws: &Vec<PaletteWindow>, cav: &Vec<(u64, u64)>, query: &str, ci: usize)
    requires
        ci < ws@.len(),
    ensures
        ctx_views(final(out)@) == ctx_views(old(out)@) + primary_entries(windows_view(ws@), cav@, query@, ci as int),
{
    let ghost wv = windows_view(ws@);
    assert(wv[ci as int] == window_view(ws@[ci as int]));
    let w = &ws[ci];
    match active_pane_of(ws, cav, w.context_id) {
        Some((wi, awid, pid, n)) => {
            if query_hits(query, n.as_str()) || query_hits(query, w.context_name.as_str()) {
                push_entry(out, wi, awid, n, w.context_name.clone(), Some(pid));
            } else {
                assert(ctx_views(out@) =~= ctx_views(out@) + Seq::<(int, u64, Seq<char>, Seq<char>, Option<u64>)>::empty());
            }
        },
        None => {
            let fb: (usize, u64) = match lookup_pair(cav, w.context_id) {
                Some(id) => match window_index_of(ws, id) {
                    Some(i) => (i, id),
                    None => (ci, w.window_id),
                },
                None => (ci, w.window_id),
            };
            if query_hits(query, w.context_name.as_str()) {
                push_entry(out, fb.0, fb.1, w.context_name.clone(), String::new(), None);
            } else {
                assert(ctx_views(out@) =~= ctx_views(out@) + Seq::<(int, u64, Seq<char>, Seq<char>, Option<u64>)>::empty());
            }
        },
    }
}

fn push_secondary(out: &mut Vec<ContextEntry>, w: &PaletteWindow, ci: usize, cav: &Vec<(u64, u64)>, query: &str)
    ensures
        ctx_views(final(out)@) == ctx_views(old(out)@) + secondary_entries(window_view(*w), ci as int, cav@, query@, w.panes@.len() as int),
{
    let ghost start = ctx_views(out@);
    let ghost wv = window_view(*w);
    let awin: u64 = match lookup_pair(cav, w.context_id) {
        Some(a) => a,
        None => 0,
    };
    let mut k: usize = 0;
    while k < w.panes.len()
        invariant
            k <= w.panes@.len(),
            wv == window_view(*w),
            wv.panes.len() == w.panes@.len(),
            awin == match lookup(cav@, w.context_id) {
                Some(a) => a,
                None => 0u64,
            },
            ctx_views(out@) == start + secondary_entries(wv, ci as int, cav@, query@, k as int),
        decreases w.panes@.len() - k,
    {
        assert(wv.panes[k as int] == pane_view(w.panes@[k as int]));
        let pid = w.panes[k].0;
        match &w.panes[k].1 {
            None => {},
            Some(n) => {
                if w.window_id == awin && w.focused_pane == Some(pid) {
                } else if query_hits(query, n.as_str()) || query_hits(query, w.context_name.as_str()) {
                    push_entry(out, ci, w.window_id, n.clone(), w.context_name.clone(), Some(pid));
                }
            },
        }
        k = k + 1;
    }
}

/// The context entries a query shows, window by window, before ranking.
pub fn context_entries(windows: &Vec<PaletteWindow>, active_windows: &Vec<(u64, u64)>, query: &str) -> (r: Vec<ContextEntry>)
    ensures
        ctx_views(r@) == spec_context_entries(windows_view(windows@), active_windows@, query@, windows@.len() as int),
{
    let ghost wv = windows_view(windows@);
    let mut out: Vec<ContextEntry> = Vec::new();
    let mut ci: usize = 0;
    assert(ctx_views(out@) =~= Seq::<(int, u64, Seq<char>, Seq<char>, Option<u64>)>::empty());
    while ci < windows.len()
        invariant
            ci <= windows@.len(),
            wv == windows_view(windows@),
            ctx_views(out@) == spec_context_entries(wv, active_windows@, query@, ci as int),
        decreases windows@.len() - ci,
    {
        let ghost before = ctx_views(out@);
        let seen = seen_context_before(windows, ci);
        if !seen {
            push_primary(&mut out, windows, active_windows, query, ci);
        }
        let ghost mid = ctx_views(out@);
        push_secondary(&mut out, &windows[ci], ci, active_windows, query);
        proof {
            assert(wv[ci as int] == window_view(windows@[ci as int]));
            if seen {
                assert(mid == before);
            }
            assert(ctx_views(out@) =~= spec_context_entries(wv, active_windows@, query@, ci + 1));
        }
        ci = ci + 1;
    }
    out
}

// ── ranking ─────────────────────────────────────────────────────────────────

/// The entries whose window has rank `r`, in their order.
pub open spec fn with_rank(es: Seq<(int, u64, Seq<char>, Seq<char>, Option<u64>)>, active: u64, hist: Seq<u64>, r: int) -> Seq<(int, u64, Seq<char>, Seq<char>, Option<u64>)>
    decreases es.len(),
{
    if es.len() == 0 {
        seq![]
    } else {
        let rest = with_rank(es.drop_last(), active, hist, r);
        if window_rank(es.last().1, active, hist) == r {
            rest.push(es.last())
        } else {
            rest
        }
    }
}

/// The entries with rank at most `r`, by rank, each rank in entry order.
pub open spec fn ranked_upto(es: Seq<(int, u64, Seq<char>, Seq<char>, Option<u64>)>, active: u64, hist: Seq<u64>, r: int) -> Seq<(int, u64, Seq<char>, Seq<char>, Option<u64>)>
    decreases r + 1,
{
    if r < 0 {
        seq![]
    } else {
        ranked_upto(es, active, hist, r - 1) + with_rank(es, active, hist, r)
    }
}

/// The entries sorted by the rank of their window, keeping the entry order
/// among equal ranks (a stable sort): a rank is at most the history's
/// length, or `usize::MAX`.
pub open spec fn ranked(es: Seq<(int, u64, Seq<char>, Seq<char>, Option<u64>)>, active: u64, hist: Seq<u64>) -> Seq<(int, u64, Seq<char>, Seq<char>, Option<u64>)> {
    if hist.len() < usize::MAX {
        ranked_upto(es, active, hist, hist.len() as int) + with_rank(es, active, hist, usize::MAX as int)
    } else {
        ranked_upto(es, active, hist, hist.len() as int)
    }
}

fn copy_entry(e: &ContextEntry) -> (r: ContextEntry)
    ensures
        ctx_view(r) == ctx_view(*e),
{
    ContextEntry {
        ctx_idx: e.ctx_idx,
        context_id: e.context_id,
        name: e.name.clone(),
        workspace_name: e.workspace_name.clone(),
        pane_id: e.pane_id,
    }
}

fn append_with_rank(out: &mut Vec<ContextEntry>, es: &Vec<ContextEntry>, ranks: &Vec<usize>, active: u64, history: &Vec<u64>, r: usize)
    requires
        ranks@.len() == es@.len(),
        forall|i: int| 0 <= i < es@.len() ==> ranks@[i] as int == window_rank(es@[i].context_id, active, history@),
    ensures
        ctx_views(final(out)@) == ctx_views(old(out)@) + with_rank(ctx_views(es@), active, history@, r as int),
{
    let ghost start = ctx_views(out@);
    let ghost vs = ctx_views(es@);
    let mut i: usize = 0;
    while i < es.len()
        invariant
            i <= es@.len(),
            vs == ctx_views(es@),
            ranks@.len() == es@.len(),
            forall|j: int| 0 <= j < es@.len() ==> ranks@[j] as int == window_rank(es@[j].context_id, active, history@),
            ctx_views(out@) == start + with_rank(vs.take(i as int), active, history@, r as int),
        decreases es@.len() - i,
    {
        proof {
            assert(vs.take(i + 1).drop_last() =~= vs.take(i as int));
            assert(vs.take(i + 1).last() == vs[i as int]);
        }
        if ranks[i] == r {
            let ghost before = out@;
            out.push(copy_entry(&es[i]));
            assert(ctx_views(out@) =~= ctx_views(before).push(vs[i as int]));
        }
        i = i + 1;
    }
    proof {
        assert(vs.take(es@.len() as int) =~= vs);
    }
}

/// The context entries in palette order: the active window's first, then
/// by how recently their window was visited, then the rest; entries of
/// equally ranked windows keep their order.
pub fn rank_context_entries(es: &Vec<ContextEntry>, active: u64, history: &Vec<u64>) -> (r: Vec<ContextEntry>)
    ensures
        ctx_views(r@) == ranked(ctx_views(es@), active, history@),
{
    let mut ranks: Vec<usize> = Vec::new();
    let mut i: usize = 0;
    while i < es.len()
        invariant
            i <= es@.len(),
            ranks@.len() == i,
            forall|j: int| 0 <= j < i ==> ranks@[j] as int == window_rank(es@[j].context_id, active, history@),
        decreases es@.len() - i,
    {
        ranks.push(rank_of(es[i].context_id, active, history));
        i = i + 1;
    }
    let h = history.len();
    let mut out: Vec<ContextEntry> = Vec::new();
    assert(ctx_views(out@) =~= Seq::<(int, u64, Seq<char>, Seq<char>, Option<u64>)>::empty());
    append_with_rank(&mut out, es, &ranks, active, history, 0);
    proof {
        let vs = ctx_views(es@);
        assert(ranked_upto(vs, active, history@, -1) == Seq::<(int, u64, Seq<char>, Seq<char>, Option<u64>)>::empty());
        assert(ranked_upto(vs, active, history@, 0) == ranked_upto(vs, active, history@, -1) + with_rank(vs, active, history@, 0));
        assert(ctx_views(out@) =~= ranked_upto(vs, active, history@, 0));
    }
    let mut r: usize = 0;
    while r < h
        invariant
            r <= h,
            h == history@.len(),
            ranks@.len() == es@.len(),
            forall|j: int| 0 <= j < es@.len() ==> ranks@[j] as int == window_rank(es@[j].context_id, active, history@),
            ctx_views(out@) == ranked_upto(ctx_views(es@), active, history@, r as int),
        decreases h - r,
    {
        r = r + 1;
        append_with_rank(&mut out, es, &ranks, active, history, r);
    }
    if h < usize::MAX {
        append_with_rank(&mut out, es, &ranks, active, history, usize::MAX);
    }
    out
}

// ── the whole list ──────────────────────────────────────────────────────────

/// A palette row.
pub enum PaletteEntry {
    /// A context, or a named pane in it.
    Context(ContextEntry),
    /// An installed app.
    App { id: String, name: String, description: String },
    /// A built-in action.
    Action { id: String, name: String, description: String },
}

pub enum EntryView {
    Context((int, u64, Seq<char>, Seq<char>, Option<u64>)),
    App(Seq<char>, Seq<char>, Seq<char>),
    Action(Seq<char>, Seq<char>, Seq<char>),
}

pub open spec fn entry_view(e: PaletteEntry) -> EntryView {
    match e {
        PaletteEntry::Context(c) => EntryView::Context(ctx_view(c)),
        PaletteEntry::App { id, name, description } => EntryView::App(id@, name@, description@),
        PaletteEntry::Action { id, name, description } => EntryView::Action(id@, name@, description@),
    }
}

pub open spec fn entry_views(es: Seq<PaletteEntry>) -> Seq<EntryView> {
    es.map_values(|e: PaletteEntry| entry_view(e))
}

pub open spec fn triple_view(t: (String, String, String)) -> (Seq<char>, Seq<char>, Seq<char>) {
    (t.0@, t.1@, t.2@)
}

pub open spec fn triples_view(ts: Seq<(String, String, String)>) -> Seq<(Seq<char>, Seq<char>, Seq<char>)> {
    ts.map_values(|t: (String, String, String)| triple_view(t))
}

/// The apps `(id, name, description)` the query hits by name, id or
/// description, in their order.
pub open spec fn app_entries(apps: Seq<(Seq<char>, Seq<char>, Seq<char>)>, q: Seq<char>) -> Seq<EntryView>
    decreases apps.len(),
{
    if apps.len() == 0 {
        seq![]
    } else {
        let rest = app_entries(apps.drop_last(), q);
        let (id, name, description) = apps.last();
        if hits(q, name) || hits(q, id) || hits(q, description) {
            rest.push(EntryView::App(id, name, description))
        } else {
            rest
        }
    }
}

/// The built-in actions `(id, name, description)`.
pub open spec fn palette_actions() -> Seq<(Seq<char>, Seq<char>, Seq<char>)> {
    seq![
        (
            "agent_workspace:modal"@,
            "New Agent Workspace…"@,
            "Open the picker with CLI dropdown, repo picker, and task prompt"@,
        ),
        (
            "agent_workspace:claude_code"@,
            "New Agent Workspace: claude_code"@,
            "Spawn claude_code in a fresh git worktree"@,
        ),
        ("agent_workspace:codex"@, "New Agent Workspace: Codex"@, "Spawn Codex in a fresh git worktree"@),
        (
            "agent_workspace:gemini_cli"@,
            "New Agent Workspace: Gemini CLI"@,
            "Spawn Gemini CLI in a fresh git worktree"@,
        ),
    ]
}

/// The actions the query hits by name or id, in their order.
pub open spec fn action_entries(acts: Seq<(Seq<char>, Seq<char>, Seq<char>)>, q: Seq<char>) -> Seq<EntryView>
    decreases acts.len(),
{
    if acts.len() == 0 {
        seq![]
    } else {
        let rest = action_entries(acts.drop_last(), q);
        let (id, name, description) = acts.last();
        if hits(q, name) || hits(q, id) {
            rest.push(EntryView::Action(id, name, description))
        } else {
            rest
        }
    }
}

/// The palette for a (lowercased) query: the ranked context entries, then
/// the apps, then the built-in actions it hits.
pub open spec fn spec_palette(
    ws: Seq<WindowView>,
    cav: Seq<(u64, u64)>,
    q: Seq<char>,
    active: u64,
    hist: Seq<u64>,
    apps: Seq<(Seq<char>, Seq<char>, Seq<char>)>,
) -> Seq<EntryView> {
    ranked(spec_context_entries(ws, cav, q, ws.len() as int), active, hist).map_values(
        |c: (int, u64, Seq<char>, Seq<char>, Option<u64>)| EntryView::Context(c),
    ) + app_entries(apps, q) + action_entries(palette_actions(), q)
}

fn action_specs() -> (r: Vec<(String, String, String)>)
    ensures
        triples_view(r@) == palette_actions(),
{
    let mut v: Vec<(String, String, String)> = Vec::new();
    v.push((
        "agent_workspace:modal".to_owned(),
        "New Agent Workspace…".to_owned(),
        "Open the picker with CLI dropdown, repo picker, and task prompt".to_owned(),
    ));
    v.push((
        "agent_workspace:claude_code".to_owned(),
        "New Agent Workspace: claude_code".to_owned(),
        "Spawn claude_code in a fresh git worktree".to_owned(),
    ));
    v.push((
        "agent_workspace:codex".to_owned(),
        "New Agent Workspace: Codex".to_owned(),
        "Spawn Codex in a fresh git worktree".to_owned(),
    ));
    v.push((
        "agent_workspace:gemini_cli".to_owned(),
        "New Agent Workspace: Gemini CLI".to_owned(),
        "Spawn Gemini CLI in a fresh git worktree".to_owned(),
    ));
    assert(triples_view(v@) =~= palette_actions());
    v
}

fn push_apps(out: &mut Vec<PaletteEntry>, apps: &Vec<(String, String, String)>, query: &str)
    ensures
        entry_views(final(out)@) == entry_views(old(out)@) + app_entries(triples_view(apps@), query@),
{
    let ghost start = entry_views(out@);
    let ghost av = triples_view(apps@);
    let mut i: usize = 0;
    while i < apps.len()
        invariant
            i <= apps@.len(),
            av == triples_view(apps@),
            entry_views(out@) == start + app_entries(av.take(i as int), query@),
        decreases apps@.len() - i,
    {
        proof {
            assert(av.take(i + 1).drop_last() =~= av.take(i as int));
            assert(av.take(i + 1).last() == av[i as int]);
        }
        let (id, name, description) = (&apps[i].0, &apps[i].1, &apps[i].2);
        if query_hits(query, name.as_str()) || query_hits(query, id.as_str()) || query_hits(query, description.as_str()) {
            let ghost before = out@;
            out.push(PaletteEntry::App { id: id.clone(), name: name.clone(), description: description.clone() });
            assert(entry_views(out@) =~= entry_views(before).push(EntryView::App(id@, name@, description@)));
        }
        i = i + 1;
    }
    proof {
        assert(av.take(apps@.len() as int) =~= av);
    }
}

fn push_actions(out: &mut Vec<PaletteEntry>, query: &str)
    ensures
        entry_views(final(out)@) == entry_views(old(out)@) + action_entries(palette_actions(), query@),
{
    let acts = action_specs();
    let ghost start = entry_views(out@);
    let ghost av = triples_view(acts@);
    let mut i: usize = 0;
    while i < acts.len()
        invariant
            i <= acts@.len(),
            av == triples_view(acts@),
            av == palette_actions(),
            entry_views(out@) == start + action_entries(av.take(i as int), query@),
        decreases acts@.len() - i,
    {
        proof {
            assert(av.take(i + 1).drop_last() =~= av.take(i as int));
            assert(av.take(i + 1).last() == av[i as int]);
        }
        let (id, name, description) = (&acts[i].0, &acts[i].1, &acts[i].2);
        if query_hits(query, name.as_str()) || query_hits(query, id.as_str()) {
            let ghost before = out@;
            out.push(PaletteEntry::Action { id: id.clone(), name: name.clone(), description: description.clone() });
            assert(entry_views(out@) =~= entry_views(before).push(EntryView::Action(id@, name@, description@)));
        }
        i = i + 1;
    }
    proof {
        assert(av.take(acts@.len() as int) =~= av);
    }
}

/// The palette's rows for a (lowercased) query.
pub fn palette_entries(
    windows: &Vec<PaletteWindow>,
    active_windows: &Vec<(u64, u64)>,
    query: &str,
    active_window: u64,
    history: &Vec<u64>,
    apps: &Vec<(String, String, String)>,
) -> (r: Vec<PaletteEntry>)
    ensures
        entry_views(r@) == spec_palette(
            windows_view(windows@),
            active_windows@,
            query@,
            active_window,
            history@,
            triples_view(apps@),
        ),
{
    let raw = context_entries(windows, active_windows, query);
    let sorted = rank_context_entries(&raw, active_window, history);
    let ghost cs = ctx_views(sorted@);
    let mut out: Vec<PaletteEntry> = Vec::new();
    let mut i: usize = 0;
    while i < sorted.len()
        invariant
            i <= sorted@.len(),
            cs == ctx_views(sorted@),
            entry_views(out@) == cs.take(i as int).map_values(
                |c: (int, u64, Seq<char>, Seq<char>, Option<u64>)| EntryView::Context(c),
            ),
        decreases sorted@.len() - i,
    {
        let ghost before = out@;
        let e = copy_entry(&sorted[i]);
        assert(ctx_view(e) == cs[i as int]);
        out.push(PaletteEntry::Context(e));
        assert(entry_views(out@) =~= entry_views(before).push(EntryView::Context(cs[i as int])));
        assert(cs.take(i + 1).map_values(
            |c: (int, u64, Seq<char>, Seq<char>, Option<u64>)| EntryView::Context(c),
        ) =~= cs.take(i as int).map_values(
            |c: (int, u64, Seq<char>, Seq<char>, Option<u64>)| EntryView::Context(c),
        ).push(EntryView::Context(cs[i as int])));
        i = i + 1;
    }
    assert(cs.take(sorted@.len() as int) =~= cs);
    push_apps(&mut out, apps, query);
    push_actions(&mut out, query);
    out
}

// ── keyboard and choice ─────────────────────────────────────────────────────

/// The selection kept inside the list: past the end it moves to the last
/// row (an empty list keeps it).
pub fn clamp_selected(selected: usize, total: usize) -> (r: usize)
    ensures
        r == (if selected >= total && total > 0 {
            (total - 1) as usize
        } else {
            selected
        }),
{
    if selected >= total && total > 0 {
        total - 1
    } else {
        selected
    }
}

/// An arrow key in the palette.
#[derive(Debug, Clone, Copy, PartialEq, Eq, Structural)]
pub enum PaletteKey {
    Down,
    Up,
}

/// The selection after an arrow key: down stops at the last row, up at
/// the first.
pub fn move_selection(selected: usize, total: usize, key: PaletteKey) -> (r: usize)
    ensures
        r == match key {
            PaletteKey::Down => if total > 0 && selected < total - 1 {
                (selected + 1) as usize
            } else {
                selected
            },
            PaletteKey::Up => if selected > 0 {
                (selected - 1) as usize
            } else {
                selected
            },
        },
{
    match key {
        PaletteKey::Down => {
            if total > 0 && selected < total - 1 {
                selected + 1
            } else {
                selected
            }
        },
        PaletteKey::Up => {
            if selected > 0 {
                selected - 1
            } else {
                selected
            }
        },
    }
}

/// What choosing a row does.
#[derive(Debug, Clone, PartialEq, Eq)]
pub enum PaletteChoice {
    /// Go to the window (and focus the pane).
    JumpContext { ctx_idx: usize, context_id: u64, pane_id: Option<u64> },
    /// Launch the app with this id.
    LaunchApp(String),
    /// Run the built-in action with this id.
    RunAction(String),
}

/// The choice Enter makes: the selected row's, none past the end.
pub fn choose_entry(entries: &Vec<PaletteEntry>, selected: usize) -> (r: Option<PaletteChoice>)
    ensures
        selected >= entries@.len() ==> r is None,
        selected < entries@.len() ==> match entries@[selected as int] {
            PaletteEntry::Context(c) => r == Some(
                PaletteChoice::JumpContext { ctx_idx: c.ctx_idx, context_id: c.context_id, pane_id: c.pane_id },
            ),
            PaletteEntry::App { id, .. } => r matches Some(PaletteChoice::LaunchApp(x)) && x@ == id@,
            PaletteEntry::Action { id, .. } => r matches Some(PaletteChoice::RunAction(x)) && x@ == id@,
        },
{
    if selected >= entries.len() {
        return None;
    }
    match &entries[selected] {
        PaletteEntry::Context(c) => Some(
            PaletteChoice::JumpContext { ctx_idx: c.ctx_idx, context_id: c.context_id, pane_id: c.pane_id },
        ),
        PaletteEntry::App { id, .. } => Some(PaletteChoice::LaunchApp(id.clone())),
        PaletteEntry::Action { id, .. } => Some(PaletteChoice::RunAction(id.clone())),
    }
}

/// The agent CLIs a workspace can be spawned with.
#[derive(Debug, Clone, Copy, PartialEq, Eq, Structural)]
pub enum AgentCli {
    ClaudeCode,
    Codex,
    GeminiCli,
}

/// What a built-in action id runs.
#[derive(Debug, Clone, Copy, PartialEq, Eq, Structural)]
pub enum PaletteAction {
    /// Open the agent workspace picker.
    OpenModal,
    /// Spawn an agent workspace with this CLI.
    Spawn(AgentCli),
    /// Not an action id: logged and ignored.
    Unknown,
}

pub fn palette_action(id: &str) -> (r: PaletteAction)
    ensures
        r == (if id@ == "agent_workspace:modal"@ {
            PaletteAction::OpenModal
        } else if id@ == "agent_workspace:claude_code"@ {
            PaletteAction::Spawn(AgentCli::ClaudeCode)
        } else if id@ == "agent_workspace:codex"@ {
            PaletteAction::Spawn(AgentCli::Codex)
        } else if id@ == "agent_workspace:gemini_cli"@ {
            PaletteAction::Spawn(AgentCli::GeminiCli)
        } else {
            PaletteAction::Unknown
        }),
{
    let c = chars_of(id);
    if crate::text::eq_lit(&c, "agent_workspace:modal") {
        PaletteAction::OpenModal
    } else if crate::text::eq_lit(&c, "agent_workspace:claude_code") {
        PaletteAction::Spawn(AgentCli::ClaudeCode)
    } else if crate::text::eq_lit(&c, "agent_workspace:codex") {
        PaletteAction::Spawn(AgentCli::Codex)
    } else if crate::text::eq_lit(&c, "agent_workspace:gemini_cli") {
        PaletteAction::Spawn(AgentCli::GeminiCli)
    } else {
        PaletteAction::Unknown
    }
}

// ── laws ────────────────────────────────────────────────────────────────────

pub open spec fn sorted_by_rank(s: Seq<(int, u64, Seq<char>, Seq<char>, Option<u64>)>, active: u64, hist: Seq<u64>) -> bool {
    forall|i: int, j: int|
        0 <= i < j < s.len() ==> window_rank(#[trigger] s[i].1, active, hist) <= window_rank(#[trigger] s[j].1, active, hist)
}

proof fn lemma_with_rank_all(es: Seq<(int, u64, Seq<char>, Seq<char>, Option<u64>)>, active: u64, hist: Seq<u64>, r: int)
    ensures
        forall|k: int| 0 <= k < with_rank(es, active, hist, r).len() ==> window_rank(#[trigger] with_rank(es, active, hist, r)[k].1, active, hist) == r,
    decreases es.len(),
{
    if es.len() > 0 {
        lemma_with_rank_all(es.drop_last(), active, hist, r);
        let rest = with_rank(es.drop_last(), active, hist, r);
        let w = with_rank(es, active, hist, r);
        assert forall|k: int| 0 <= k < w.len() implies window_rank(#[trigger] w[k].1, active, hist) == r by {
            if k < rest.len() {
                assert(w[k] == rest[k]);
            } else {
                assert(w[k] == es.last());
            }
        }
    }
}

proof fn lemma_ranked_upto_sorted(es: Seq<(int, u64, Seq<char>, Seq<char>, Option<u64>)>, active: u64, hist: Seq<u64>, r: int)
    ensures
        sorted_by_rank(ranked_upto(es, active, hist, r), active, hist),
        forall|k: int| 0 <= k < ranked_upto(es, active, hist, r).len() ==> window_rank(#[trigger] ranked_upto(es, active, hist, r)[k].1, active, hist) <= r,
    decreases r + 1,
{
    if r >= 0 {
        lemma_ranked_upto_sorted(es, active, hist, r - 1);
        lemma_with_rank_all(es, active, hist, r);
        let a = ranked_upto(es, active, hist, r - 1);
        let b = with_rank(es, active, hist, r);
        let c = ranked_upto(es, active, hist, r);
        assert(c == a + b);
        assert forall|k: int| 0 <= k < c.len() implies window_rank(#[trigger] c[k].1, active, hist) <= r by {
            if k < a.len() {
                assert(c[k] == a[k]);
            } else {
                assert(c[k] == b[k - a.len()]);
            }
        }
        assert forall|i: int, j: int| 0 <= i < j < c.len() implies window_rank(#[trigger] c[i].1, active, hist) <= window_rank(#[trigger] c[j].1, active, hist) by {
            if j < a.len() {
                assert(c[i] == a[i] && c[j] == a[j]);
            } else if i >= a.len() {
                assert(c[i] == b[i - a.len()] && c[j] == b[j - a.len()]);
            } else {
                assert(c[i] == a[i] && c[j] == b[j - a.len()]);
            }
        }
    }
}

/// The palette lists contexts by window rank: the active window's entries
/// first, then those of windows by how recently they were visited, then
/// the rest.
pub proof fn lemma_context_order(es: Seq<(int, u64, Seq<char>, Seq<char>, Option<u64>)>, active: u64, hist: Seq<u64>)
    ensures
        sorted_by_rank(ranked(es, active, hist), active, hist),
{
    let h = hist.len() as int;
    lemma_ranked_upto_sorted(es, active, hist, h);
    if hist.len() < usize::MAX {
        lemma_with_rank_all(es, active, hist, usize::MAX as int);
        let a = ranked_upto(es, active, hist, h);
        let b = with_rank(es, active, hist, usize::MAX as int);
        let c = ranked(es, active, hist);
        assert(c == a + b);
        assert forall|i: int, j: int| 0 <= i < j < c.len() implies window_rank(#[trigger] c[i].1, active, hist) <= window_rank(#[trigger] c[j].1, active, hist) by {
            if j < a.len() {
                assert(c[i] == a[i] && c[j] == a[j]);
            } else if i >= a.len() {
                assert(c[i] == b[i - a.len()] && c[j] == b[j - a.len()]);
            } else {
                assert(c[i] == a[i] && c[j] == b[j - a.len()]);
            }
        }
    }
}

proof fn lemma_action_entries_lists(acts: Seq<(Seq<char>, Seq<char>, Seq<char>)>, q: Seq<char>, k: int)
    requires
        0 <= k < acts.len(),
        contains_text(lowercase_of(acts[k].1), q) || contains_text(lowercase_of(acts[k].0), q),
    ensures
        action_entries(acts, q).contains(EntryView::Action(acts[k].0, acts[k].1, acts[k].2)),
    decreases acts.len(),
{
    let rest = action_entries(acts.drop_last(), q);
    if k == acts.len() - 1 {
        let e = EntryView::Action(acts[k].0, acts[k].1, acts[k].2);
        assert(action_entries(acts, q) == rest.push(e));
        assert(rest.push(e)[rest.len() as int] == e);
    } else {
        lemma_action_entries_lists(acts.drop_last(), q, k);
        assert(acts.drop_last()[k] == acts[k]);
        let e = EntryView::Action(acts[k].0, acts[k].1, acts[k].2);
        let i = choose|i: int| 0 <= i < rest.len() && rest[i] == e;
        if hits(q, acts.last().1) || hits(q, acts.last().0) {
            assert(action_entries(acts, q)[i] == e);
        }
    }
}

proof fn lemma_action_entries_only_hits(acts: Seq<(Seq<char>, Seq<char>, Seq<char>)>, q: Seq<char>, e: EntryView)
    requires
        action_entries(acts, q).contains(e),
    ensures
        exists|k: int| 0 <= k < acts.len() && e == EntryView::Action(acts[k].0, acts[k].1, acts[k].2) && (hits(q, acts[k].1) || hits(q, acts[k].0)),
    decreases acts.len(),
{
    let rest = action_entries(acts.drop_last(), q);
    let last = acts.last();
    let k0 = acts.len() - 1;
    if hits(q, last.1) || hits(q, last.0) {
        if e == EntryView::Action(last.0, last.1, last.2) {
            assert(acts[k0] == last);
            return;
        }
        let i = choose|i: int| 0 <= i < action_entries(acts, q).len() && action_entries(acts, q)[i] == e;
        assert(rest.push(EntryView::Action(last.0, last.1, last.2))[i] == e);
        assert(i < rest.len());
        assert(rest[i] == e);
    }
    lemma_action_entries_only_hits(acts.drop_last(), q, e);
    let k = choose|k: int| 0 <= k < acts.drop_last().len() && e == EntryView::Action(acts.drop_last()[k].0, acts.drop_last()[k].1, acts.drop_last()[k].2) && (hits(q, acts.drop_last()[k].1) || hits(q, acts.drop_last()[k].0));
    assert(acts.drop_last()[k] == acts[k]);
}

proof fn lemma_app_entries_no_action(apps: Seq<(Seq<char>, Seq<char>, Seq<char>)>, q: Seq<char>, i: int)
    requires
        0 <= i < app_entries(apps, q).len(),
    ensures
        app_entries(apps, q)[i] is App,
    decreases apps.len(),
{
    let rest = app_entries(apps.drop_last(), q);
    if i < rest.len() {
        lemma_app_entries_no_action(apps.drop_last(), q, i);
    }
}

/// A built-in action whose name (or id), lowercased, contains the query is
/// listed in the palette, whatever the contexts and apps; and every action
/// listed is a built-in one the query hits that way (an empty query hits
/// every text).
pub proof fn lemma_palette_lists_actions_by_name(
    ws: Seq<WindowView>,
    cav: Seq<(u64, u64)>,
    q: Seq<char>,
    active: u64,
    hist: Seq<u64>,
    apps: Seq<(Seq<char>, Seq<char>, Seq<char>)>,
)
    ensures
        forall|k: int|
            0 <= k < palette_actions().len() && (contains_text(lowercase_of(palette_actions()[k].1), q) || contains_text(
                lowercase_of(palette_actions()[k].0),
                q,
            )) ==> spec_palette(ws, cav, q, active, hist, apps).contains(
                EntryView::Action(palette_actions()[k].0, palette_actions()[k].1, palette_actions()[k].2),
            ),
        forall|id: Seq<char>, name: Seq<char>, d: Seq<char>|
            #[trigger] spec_palette(ws, cav, q, active, hist, apps).contains(EntryView::Action(id, name, d)) ==> (
            palette_actions().contains((id, name, d)) && (q.len() == 0 || contains_text(lowercase_of(name), q)
                || contains_text(lowercase_of(id), q))),
{
    let ctx = ranked(spec_context_entries(ws, cav, q, ws.len() as int), active, hist).map_values(
        |c: (int, u64, Seq<char>, Seq<char>, Option<u64>)| EntryView::Context(c),
    );
    let ap = app_entries(apps, q);
    let ac = action_entries(palette_actions(), q);
    let all = spec_palette(ws, cav, q, active, hist, apps);
    assert(all == ctx + ap + ac);
    assert forall|k: int|
        0 <= k < palette_actions().len() && (contains_text(lowercase_of(palette_actions()[k].1), q) || contains_text(
            lowercase_of(palette_actions()[k].0),
            q,
        )) implies all.contains(EntryView::Action(palette_actions()[k].0, palette_actions()[k].1, palette_actions()[k].2)) by {
        lemma_action_entries_lists(palette_actions(), q, k);
        let e = EntryView::Action(palette_actions()[k].0, palette_actions()[k].1, palette_actions()[k].2);
        let i = choose|i: int| 0 <= i < ac.len() && ac[i] == e;
        assert(all[ctx.len() + ap.len() + i] == e);
    }
    assert forall|id: Seq<char>, name: Seq<char>, d: Seq<char>|
        #[trigger] all.contains(EntryView::Action(id, name, d)) implies (palette_actions().contains((id, name, d)) && (q.len()
            == 0 || contains_text(lowercase_of(name), q) || contains_text(lowercase_of(id), q))) by {
        let e = EntryView::Action(id, name, d);
        let i = choose|i: int| 0 <= i < all.len() && all[i] == e;
        if i < ctx.len() {
            assert(ctx[i] is Context);
        } else if i < ctx.len() + ap.len() {
            lemma_app_entries_no_action(apps, q, i - ctx.len());
            assert(ap[i - ctx.len()] == all[i]);
        } else {
            assert(ac[i - ctx.len() - ap.len()] == e);
            lemma_action_entries_only_hits(palette_actions(), q, e);
            let k = choose|k: int| 0 <= k < palette_actions().len() && e == EntryView::Action(palette_actions()[k].0, palette_actions()[k].1, palette_actions()[k].2) && (hits(q, palette_actions()[k].1) || hits(q, palette_actions()[k].0));
            assert(palette_actions()[k] == (id, name, d));
        }
    }
}

proof fn lemma_app_entries_lists(apps: Seq<(Seq<char>, Seq<char>, Seq<char>)>, q: Seq<char>, k: int)
    requires
        0 <= k < apps.len(),
        hits(q, apps[k].1) || hits(q, apps[k].0) || hits(q, apps[k].2),
    ensures
        app_entries(apps, q).contains(EntryView::App(apps[k].0, apps[k].1, apps[k].2)),
    decreases apps.len(),
{
    let rest = app_entries(apps.drop_last(), q);
    let e = EntryView::App(apps[k].0, apps[k].1, apps[k].2);
    if k == apps.len() - 1 {
        assert(app_entries(apps, q) == rest.push(e));
        assert(rest.push(e)[rest.len() as int] == e);
    } else {
        lemma_app_entries_lists(apps.drop_last(), q, k);
        assert(apps.drop_last()[k] == apps[k]);
        let i = choose|i: int| 0 <= i < rest.len() && rest[i] == e;
        let l = apps.last();
        if hits(q, l.1) || hits(q, l.0) || hits(q, l.2) {
            assert(app_entries(apps, q)[i] == e);
        }
    }
}

proof fn lemma_app_entries_only_hits(apps: Seq<(Seq<char>, Seq<char>, Seq<char>)>, q: Seq<char>, e: EntryView)
    requires
        app_entries(apps, q).contains(e),
    ensures
        exists|k: int| 0 <= k < apps.len() && e == EntryView::App(apps[k].0, apps[k].1, apps[k].2) && (hits(q, apps[k].1) || hits(q, apps[k].0) || hits(q, apps[k].2)),
    decreases apps.len(),
{
    let rest = app_entries(apps.drop_last(), q);
    let last = apps.last();
    let k0 = apps.len() - 1;
    if hits(q, last.1) || hits(q, last.0) || hits(q, last.2) {
        if e == EntryView::App(last.0, last.1, last.2) {
            assert(apps[k0] == last);
            return;
        }
        let i = choose|i: int| 0 <= i < app_entries(apps, q).len() && app_entries(apps, q)[i] == e;
        assert(rest.push(EntryView::App(last.0, last.1, last.2))[i] == e);
        assert(rest[i] == e);
    }
    lemma_app_entries_only_hits(apps.drop_last(), q, e);
    let k = choose|k: int| 0 <= k < apps.drop_last().len() && e == EntryView::App(apps.drop_last()[k].0, apps.drop_last()[k].1, apps.drop_last()[k].2) && (hits(q, apps.drop_last()[k].1) || hits(q, apps.drop_last()[k].0) || hits(q, apps.drop_last()[k].2));
    assert(apps.drop_last()[k] == apps[k]);
}

proof fn lemma_action_entries_no_app(acts: Seq<(Seq<char>, Seq<char>, Seq<char>)>, q: Seq<char>, i: int)
    requires
        0 <= i < action_entries(acts, q).len(),
    ensures
        action_entries(acts, q)[i] is Action,
    decreases acts.len(),
{
    let rest = action_entries(acts.drop_last(), q);
    if i < rest.len() {
        lemma_action_entries_no_app(acts.drop_last(), q, i);
    }
}

/// An app whose name, id or description, lowercased, contains the query is
/// listed in the palette, whatever the contexts; and every app listed is
/// one of the given apps that the query hits that way (an empty query hits
/// every text).
pub proof fn lemma_palette_lists_apps_by_text(
    ws: Seq<WindowView>,
    cav: Seq<(u64, u64)>,
    q: Seq<char>,
    active: u64,
    hist: Seq<u64>,
    apps: Seq<(Seq<char>, Seq<char>, Seq<char>)>,
)
    ensures
        forall|k: int|
            0 <= k < apps.len() && (q.len() == 0 || contains_text(lowercase_of(apps[k].1), q) || contains_text(
                lowercase_of(apps[k].0),
                q,
            ) || contains_text(lowercase_of(apps[k].2), q)) ==> #[trigger] spec_palette(ws, cav, q, active, hist, apps).contains(
                EntryView::App(apps[k].0, apps[k].1, apps[k].2),
            ),
        forall|id: Seq<char>, name: Seq<char>, d: Seq<char>|
            #[trigger] spec_palette(ws, cav, q, active, hist, apps).contains(EntryView::App(id, name, d)) ==> (apps.contains(
                (id, name, d),
            ) && (q.len() == 0 || contains_text(lowercase_of(name), q) || contains_text(lowercase_of(id), q)
                || contains_text(lowercase_of(d), q))),
{
    let ctx = ranked(spec_context_entries(ws, cav, q, ws.len() as int), active, hist).map_values(
        |c: (int, u64, Seq<char>, Seq<char>, Option<u64>)| EntryView::Context(c),
    );
    let ap = app_entries(apps, q);
    let ac = action_entries(palette_actions(), q);
    let all = spec_palette(ws, cav, q, active, hist, apps);
    assert(all == ctx + ap + ac);
    assert forall|k: int|
        0 <= k < apps.len() && (q.len() == 0 || contains_text(lowercase_of(apps[k].1), q) || contains_text(
            lowercase_of(apps[k].0),
            q,
        ) || contains_text(lowercase_of(apps[k].2), q)) implies #[trigger] all.contains(EntryView::App(apps[k].0, apps[k].1, apps[k].2)) by {
        lemma_app_entries_lists(apps, q, k);
        let e = EntryView::App(apps[k].0, apps[k].1, apps[k].2);
        let i = choose|i: int| 0 <= i < ap.len() && ap[i] == e;
        assert(all[ctx.len() + i] == e);
    }
    assert forall|id: Seq<char>, name: Seq<char>, d: Seq<char>|
        #[trigger] all.contains(EntryView::App(id, name, d)) implies (apps.contains((id, name, d)) && (q.len() == 0
            || contains_text(lowercase_of(name), q) || contains_text(lowercase_of(id), q) || contains_text(lowercase_of(d), q))) by {
        let e = EntryView::App(id, name, d);
        let i = choose|i: int| 0 <= i < all.len() && all[i] == e;
        if i < ctx.len() {
            assert(ctx[i] is Context);
        } else if i < ctx.len() + ap.len() {
            assert(ap[i - ctx.len()] == e);
            lemma_app_entries_only_hits(apps, q, e);
            let k = choose|k: int| 0 <= k < apps.len() && e == EntryView::App(apps[k].0, apps[k].1, apps[k].2) && (hits(q, apps[k].1) || hits(q, apps[k].0) || hits(q, apps[k].2));
            assert(apps[k] == (id, name, d));
        } else {
            lemma_action_entries_no_app(palette_actions(), q, i - ctx.len() - ap.len());
            assert(ac[i - ctx.len() - ap.len()] == all[i]);
        }
    }
}

/// The empty query hides nothing: every app and every built-in action is
/// listed, in order.
pub proof fn lemma_empty_query_lists_all(apps: Seq<(Seq<char>, Seq<char>, Seq<char>)>)
    ensures
        app_entries(apps, seq![]) == apps.map_values(
            |a: (Seq<char>, Seq<char>, Seq<char>)| EntryView::App(a.0, a.1, a.2),
        ),
        action_entries(palette_actions(), seq![]).len() == palette_actions().len(),
    decreases apps.len(),
{
    if apps.len() > 0 {
        lemma_empty_query_lists_all(apps.drop_last());
        assert(apps.map_values(|a: (Seq<char>, Seq<char>, Seq<char>)| EntryView::App(a.0, a.1, a.2)) =~= apps.drop_last().map_values(
            |a: (Seq<char>, Seq<char>, Seq<char>)| EntryView::App(a.0, a.1, a.2),
        ).push(EntryView::App(apps.last().0, apps.last().1, apps.last().2)));
    } else {
        assert(apps.map_values(|a: (Seq<char>, Seq<char>, Seq<char>)| EntryView::App(a.0, a.1, a.2)) =~= Seq::<EntryView>::empty());
    }
    lemma_all_actions(palette_actions(), palette_actions().len() as int);
}

proof fn lemma_all_actions(acts: Seq<(Seq<char>, Seq<char>, Seq<char>)>, n: int)
    requires
        n == acts.len(),
    ensures
        action_entries(acts, seq![]).len() == n,
    decreases acts.len(),
{
    if acts.len() > 0 {
        lemma_all_actions(acts.drop_last(), n - 1);
    }
}

} // verus!
