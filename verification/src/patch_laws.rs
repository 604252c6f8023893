//! The round trip of a patch: when the new tree's keys are present and
//! distinct and the root keeps its key, patching the old tree with the diff
//! gives the new tree.

use vstd::prelude::*;
use crate::cloud_protocol::{
    apply_ops, child_implicit, child_keys, diff_children, diff_pair, key_or, lemma_apply_diff_root_change,
    lemma_apply_diff_same, replace_in, replace_in_children, root_key, spec_diff, with_children,
    NodeModel, OpModel,
};

verus! {

// ── keys of a tree ──────────────────────────────────────────────────────────

/// The keys of a tree: its root's and those of all its descendants.
pub open spec fn key_set(t: NodeModel) -> Set<Seq<char>>
    decreases t, 1int,
{
    set![t.key].union(list_keys(t.children, t.children.len() as int))
}

/// The keys of the first `k` trees of a list.
pub open spec fn list_keys(cs: Seq<NodeModel>, k: int) -> Set<Seq<char>>
    decreases cs, k,
{
    if k <= 0 || k > cs.len() {
        Set::empty()
    } else {
        list_keys(cs, k - 1).union(key_set(cs[k - 1]))
    }
}

/// Every key of the tree is non-empty and occurs once.
pub open spec fn keys_distinct(t: NodeModel) -> bool
    decreases t, 1int,
{
    &&& t.key.len() > 0
    &&& !list_keys(t.children, t.children.len() as int).contains(t.key)
    &&& list_distinct(t.children, t.children.len() as int)
}

/// The first `k` trees of a list have distinct keys, within and across them.
pub open spec fn list_distinct(cs: Seq<NodeModel>, k: int) -> bool
    decreases cs, k,
{
    if k <= 0 || k > cs.len() {
        true
    } else {
        &&& list_distinct(cs, k - 1)
        &&& keys_distinct(cs[k - 1])
        &&& list_keys(cs, k - 1).disjoint(key_set(cs[k - 1]))
    }
}

proof fn lemma_list_keys_member(cs: Seq<NodeModel>, k: int, j: int)
    requires
        0 <= j < k <= cs.len(),
    ensures
        key_set(cs[j]).subset_of(list_keys(cs, k)),
    decreases k,
{
    if j < k - 1 {
        lemma_list_keys_member(cs, k - 1, j);
    }
}

proof fn lemma_list_distinct_prefix(cs: Seq<NodeModel>, k: int, m: int)
    requires
        0 <= m < k <= cs.len(),
        list_distinct(cs, k),
    ensures
        keys_distinct(cs[m]),
        list_keys(cs, m).disjoint(key_set(cs[m])),
    decreases k,
{
    if m < k - 1 {
        lemma_list_distinct_prefix(cs, k - 1, m);
    }
}

// ── applying steps to a list of siblings ────────────────────────────────────

/// The steps applied to a list of siblings, each `Replace` searching them
/// in order, depth first; `None` when some `Replace` finds no node, or on a
/// `Remove`.
pub open spec fn apply_list(cs: Seq<NodeModel>, ops: Seq<OpModel>) -> Option<Seq<NodeModel>>
    decreases ops.len(),
{
    if ops.len() == 0 {
        Some(cs)
    } else {
        match apply_list(cs, ops.drop_last()) {
            None => None,
            Some(c2) => match ops.last() {
                OpModel::Skip { .. } => Some(c2),
                OpModel::Replace { key, node } => {
                    let r = replace_in_children(c2, key, node, 0);
                    if r.0 {
                        Some(r.1)
                    } else {
                        None
                    }
                },
                OpModel::Remove { .. } => None,
            },
        }
    }
}

proof fn lemma_apply_list_concat(cs: Seq<NodeModel>, a: Seq<OpModel>, b: Seq<OpModel>)
    ensures
        apply_list(cs, a + b) == match apply_list(cs, a) {
            Some(c2) => apply_list(c2, b),
            None => None,
        },
    decreases b.len(),
{
    if b.len() == 0 {
        assert(a + b =~= a);
    } else {
        assert((a + b).drop_last() =~= a + b.drop_last());
        assert((a + b).last() == b.last());
        lemma_apply_list_concat(cs, a, b.drop_last());
    }
}

// ── searching ───────────────────────────────────────────────────────────────

proof fn lemma_not_found(t: NodeModel, k: Seq<char>, n: NodeModel)
    requires
        !key_set(t).contains(k),
    ensures
        replace_in(t, k, n) == (false, t),
    decreases t, 1int,
{
    lemma_not_found_list(t.children, k, n, 0);
}

proof fn lemma_not_found_list(cs: Seq<NodeModel>, k: Seq<char>, n: NodeModel, i: int)
    requires
        0 <= i,
        !list_keys(cs, cs.len() as int).contains(k),
    ensures
        replace_in_children(cs, k, n, i) == (false, cs),
    decreases cs, cs.len() - i,
{
    if i < cs.len() {
        lemma_list_keys_member(cs, cs.len() as int, i);
        assert(key_set(cs[i]).contains(cs[i].key));
        assert(decreases_to!(cs => cs[i]));
        lemma_not_found(cs[i], k, n);
        lemma_not_found_list(cs, k, n, i + 1);
    }
}

/// Searching siblings whose first `i` hold no `k`, where the `i`-th is keyed `k`.
proof fn lemma_found_at(cs: Seq<NodeModel>, k: Seq<char>, n: NodeModel, i: int, from: int)
    requires
        0 <= from <= i < cs.len(),
        forall|j: int| 0 <= j < i ==> !(#[trigger] key_set(cs[j])).contains(k),
        cs[i].key == k,
    ensures
        replace_in_children(cs, k, n, from) == (true, cs.update(i, n)),
    decreases i - from,
{
    if from < i {
        assert(key_set(cs[from]).contains(cs[from].key));
        lemma_not_found(cs[from], k, n);
        lemma_found_at(cs, k, n, i, from + 1);
    }
}

/// Searching siblings whose first `i` hold no `k`, where `k` is found inside
/// the `i`-th.
proof fn lemma_found_inside(cs: Seq<NodeModel>, k: Seq<char>, n: NodeModel, i: int, from: int)
    requires
        0 <= from <= i < cs.len(),
        forall|j: int| 0 <= j < i ==> !(#[trigger] key_set(cs[j])).contains(k),
        cs[i].key != k,
        replace_in(cs[i], k, n).0,
    ensures
        replace_in_children(cs, k, n, from) == (true, cs.update(i, replace_in(cs[i], k, n).1)),
    decreases i - from,
{
    if from < i {
        assert(key_set(cs[from]).contains(cs[from].key));
        lemma_not_found(cs[from], k, n);
        lemma_found_inside(cs, k, n, i, from + 1);
    }
}

// ── steps and their keys ────────────────────────────────────────────────────

/// The steps are `Skip`s and `Replace`s whose keys lie in `s`.
pub open spec fn ops_keys_in(ops: Seq<OpModel>, s: Set<Seq<char>>) -> bool {
    forall|x: int| 0 <= x < ops.len() ==> match #[trigger] ops[x] {
        OpModel::Skip { .. } => true,
        OpModel::Replace { key, .. } => s.contains(key),
        OpModel::Remove { .. } => false,
    }
}

proof fn lemma_ops_keys_concat(a: Seq<OpModel>, b: Seq<OpModel>, s: Set<Seq<char>>)
    requires
        ops_keys_in(a, s),
        ops_keys_in(b, s),
    ensures
        ops_keys_in(a + b, s),
{
    assert forall|x: int| 0 <= x < (a + b).len() implies match #[trigger] (a + b)[x] {
        OpModel::Skip { .. } => true,
        OpModel::Replace { key, .. } => s.contains(key),
        OpModel::Remove { .. } => false,
    } by {
        if x < a.len() {
            assert((a + b)[x] == a[x]);
        } else {
            assert((a + b)[x] == b[x - a.len()]);
        }
    }
}

proof fn lemma_ops_keys_widen(ops: Seq<OpModel>, s: Set<Seq<char>>, t: Set<Seq<char>>)
    requires
        ops_keys_in(ops, s),
        s.subset_of(t),
    ensures
        ops_keys_in(ops, t),
{
    assert forall|x: int| 0 <= x < ops.len() implies match #[trigger] ops[x] {
        OpModel::Skip { .. } => true,
        OpModel::Replace { key, .. } => t.contains(key),
        OpModel::Remove { .. } => false,
    } by {
        match ops[x] {
            OpModel::Replace { key, .. } => {
                assert(s.contains(key));
            },
            _ => {},
        }
    }
}

proof fn lemma_pair_keys(o: NodeModel, n: NodeModel, imp: Seq<char>)
    requires
        keys_distinct(n),
    ensures
        ops_keys_in(diff_pair(o, n, imp), key_set(n)),
    decreases n, 1int,
{
    if o == n {
    } else if o.kind != n.kind || o.props != n.props || o.key != n.key || child_keys(o.children)
        != child_keys(n.children) {
        assert(key_set(n).contains(n.key));
    } else {
        let len = n.children.len() as int;
        assert(child_keys(o.children).len() == o.children.len());
        lemma_children_keys(o.children, n.children, imp, len);
        assert(list_keys(n.children, len).subset_of(key_set(n)));
        lemma_ops_keys_widen(diff_children(o.children, n.children, imp, len), list_keys(n.children, len), key_set(n));
    }
}

proof fn lemma_children_keys(olds: Seq<NodeModel>, news: Seq<NodeModel>, imp: Seq<char>, k: int)
    requires
        0 <= k <= news.len(),
        k <= olds.len(),
        list_distinct(news, news.len() as int),
    ensures
        ops_keys_in(diff_children(olds, news, imp, k), list_keys(news, k)),
    decreases news, k,
{
    if k > 0 {
        lemma_children_keys(olds, news, imp, k - 1);
        lemma_list_distinct_prefix(news, news.len() as int, k - 1);
        assert(decreases_to!(news => news[k - 1]));
        lemma_pair_keys(olds[k - 1], news[k - 1], child_implicit(imp, (k - 1) as nat));
        assert(list_keys(news, k - 1).subset_of(list_keys(news, k)));
        assert(key_set(news[k - 1]).subset_of(list_keys(news, k)));
        lemma_ops_keys_widen(diff_children(olds, news, imp, k - 1), list_keys(news, k - 1), list_keys(news, k));
        lemma_ops_keys_widen(diff_pair(olds[k - 1], news[k - 1], child_implicit(imp, (k - 1) as nat)), key_set(news[k - 1]), list_keys(news, k));
        lemma_ops_keys_concat(
            diff_children(olds, news, imp, k - 1),
            diff_pair(olds[k - 1], news[k - 1], child_implicit(imp, (k - 1) as nat)),
            list_keys(news, k),
        );
    }
}


// ── lifting steps from a node's children to its siblings ────────────────────

proof fn lemma_lift(l: Seq<NodeModel>, i: int, c: NodeModel, ops: Seq<OpModel>, cs2: Seq<NodeModel>, s: Set<Seq<char>>)
    requires
        0 <= i < l.len(),
        l[i] == c,
        apply_list(c.children, ops) == Some(cs2),
        ops_keys_in(ops, s),
        !s.contains(c.key),
        forall|j: int, k: Seq<char>| 0 <= j < i && s.contains(k) ==> !#[trigger] key_set(l[j]).contains(k),
    ensures
        apply_list(l, ops) == Some(l.update(i, with_children(c, cs2))),
    decreases ops.len(),
{
    if ops.len() == 0 {
        assert(with_children(c, c.children) == c);
        assert(l.update(i, c) =~= l);
    } else {
        let front = ops.drop_last();
        assert(ops_keys_in(front, s)) by {
            assert forall|x: int| 0 <= x < front.len() implies match #[trigger] front[x] {
                OpModel::Skip { .. } => true,
                OpModel::Replace { key, .. } => s.contains(key),
                OpModel::Remove { .. } => false,
            } by {
                assert(front[x] == ops[x]);
            }
        }
        let m = apply_list(c.children, front).unwrap();
        lemma_lift(l, i, c, front, m, s);
        let l2 = l.update(i, with_children(c, m));
        assert(ops[ops.len() - 1] == ops.last());
        match ops.last() {
            OpModel::Skip { .. } => {},
            OpModel::Replace { key, node } => {
                let r = replace_in_children(m, key, node, 0);
                assert(s.contains(key));
                assert(replace_in(l2[i], key, node) == (true, with_children(l2[i], r.1)));
                assert forall|j: int| 0 <= j < i implies !(#[trigger] key_set(l2[j])).contains(key) by {
                    assert(l2[j] == l[j]);
                }
                lemma_found_inside(l2, key, node, i, 0);
                assert(l2.update(i, with_children(l2[i], r.1)) =~= l.update(i, with_children(c, cs2)));
            },
            OpModel::Remove { .. } => {},
        }
    }
}

// ── the round trip ──────────────────────────────────────────────────────────

/// The steps of `diff_pair(c, n, imp)`, applied to siblings `l` of which the
/// `i`-th is `c`, put `n` in its place, when `c` and `n` share their key, `n`
/// has distinct non-empty keys, and none of them occurs among the siblings
/// before `c`.
proof fn lemma_pair_round_trip(c: NodeModel, n: NodeModel, imp: Seq<char>, l: Seq<NodeModel>, i: int)
    requires
        0 <= i < l.len(),
        l[i] == c,
        c.key == n.key,
        keys_distinct(n),
        forall|j: int| 0 <= j < i ==> (#[trigger] key_set(l[j])).disjoint(key_set(n)),
    ensures
        apply_list(l, diff_pair(c, n, imp)) == Some(l.update(i, n)),
    decreases n, n.children.len() + 1,
{
    assert(key_set(n).contains(n.key));
    if c == n {
        reveal_with_fuel(apply_list, 2);
        assert(seq![OpModel::Skip { key: key_or(n, imp) }].drop_last() =~= Seq::<OpModel>::empty());
        assert(l.update(i, n) =~= l);
    } else if c.kind != n.kind || c.props != n.props || c.key != n.key || child_keys(c.children)
        != child_keys(n.children) {
        let op = OpModel::Replace { key: n.key, node: n };
        assert(diff_pair(c, n, imp) == seq![op]);
        reveal_with_fuel(apply_list, 2);
        assert(seq![op].drop_last() =~= Seq::<OpModel>::empty());
        assert forall|j: int| 0 <= j < i implies !(#[trigger] key_set(l[j])).contains(n.key) by {
            assert(key_set(l[j]).disjoint(key_set(n)));
        }
        lemma_found_at(l, n.key, n, i, 0);
    } else {
        let len = n.children.len() as int;
        assert(child_keys(c.children).len() == c.children.len());
        assert(child_keys(n.children).len() == n.children.len());
        lemma_children_round_trip(c, n, imp, len);
        assert(n.children.take(len) + c.children.skip(len) =~= n.children);
        let ops = diff_children(c.children, n.children, imp, len);
        lemma_children_keys(c.children, n.children, imp, len);
        let s = list_keys(n.children, len);
        assert forall|j: int, k: Seq<char>| 0 <= j < i && s.contains(k) implies !#[trigger] key_set(l[j]).contains(k) by {
            assert(key_set(l[j]).disjoint(key_set(n)));
            assert(key_set(n).contains(k));
        }
        lemma_lift(l, i, c, ops, n.children, s);
        assert(with_children(c, n.children) == n);
    }
}

/// The steps for the first `m` child pairs of `c` and `n` turn `c`'s
/// children into `n`'s first `m` followed by `c`'s rest.
proof fn lemma_children_round_trip(c: NodeModel, n: NodeModel, imp: Seq<char>, m: int)
    requires
        0 <= m <= n.children.len(),
        c.key == n.key,
        child_keys(c.children) == child_keys(n.children),
        keys_distinct(n),
    ensures
        apply_list(c.children, diff_children(c.children, n.children, imp, m)) == Some(
            n.children.take(m) + c.children.skip(m),
        ),
    decreases n, m,
{
    assert(child_keys(c.children).len() == c.children.len());
    assert(child_keys(n.children).len() == n.children.len());
    if m == 0 {
        assert(n.children.take(0) + c.children.skip(0) =~= c.children);
    } else {
        lemma_children_round_trip(c, n, imp, m - 1);
        let st = n.children.take(m - 1) + c.children.skip(m - 1);
        let cc = c.children[m - 1];
        let nn = n.children[m - 1];
        assert(st[m - 1] == cc);
        assert(cc.key == child_keys(c.children)[m - 1]);
        assert(nn.key == child_keys(n.children)[m - 1]);
        lemma_list_distinct_prefix(n.children, n.children.len() as int, m - 1);
        assert forall|j: int| 0 <= j < m - 1 implies (#[trigger] key_set(st[j])).disjoint(key_set(nn)) by {
            assert(st[j] == n.children[j]);
            lemma_list_keys_member(n.children, m - 1, j);
        }
        assert(decreases_to!(n => n.children));
        assert(decreases_to!(n.children => n.children[m - 1]));
        lemma_pair_round_trip(cc, nn, child_implicit(imp, (m - 1) as nat), st, m - 1);
        lemma_apply_list_concat(
            c.children,
            diff_children(c.children, n.children, imp, m - 1),
            diff_pair(cc, nn, child_implicit(imp, (m - 1) as nat)),
        );
        assert(st.update(m - 1, nn) =~= n.children.take(m) + c.children.skip(m));
    }
}

/// Steps whose keys differ from the root's, all found among its children,
/// act on the children alone.
proof fn lemma_root_steps(t: NodeModel, ops: Seq<OpModel>, cs2: Seq<NodeModel>, s: Set<Seq<char>>)
    requires
        apply_list(t.children, ops) == Some(cs2),
        ops_keys_in(ops, s),
        !s.contains(t.key),
    ensures
        apply_ops(t, ops) == with_children(t, cs2),
    decreases ops.len(),
{
    if ops.len() == 0 {
        assert(with_children(t, t.children) == t);
    } else {
        let front = ops.drop_last();
        assert(ops_keys_in(front, s)) by {
            assert forall|x: int| 0 <= x < front.len() implies match #[trigger] front[x] {
                OpModel::Skip { .. } => true,
                OpModel::Replace { key, .. } => s.contains(key),
                OpModel::Remove { .. } => false,
            } by {
                assert(front[x] == ops[x]);
            }
        }
        let m = apply_list(t.children, front).unwrap();
        lemma_root_steps(t, front, m, s);
        assert(ops[ops.len() - 1] == ops.last());
        match ops.last() {
            OpModel::Replace { key, node } => {
                assert(s.contains(key));
            },
            _ => {},
        }
    }
}

/// Patching a tree with its diff against a new tree gives the new tree, when
/// the root keeps its key and the new tree's keys are non-empty and distinct.
pub proof fn lemma_apply_diff_round_trip(prev: NodeModel, next: NodeModel)
    requires
        prev.key == next.key,
        keys_distinct(next),
    ensures
        apply_ops(prev, spec_diff(Some(prev), next)) == next,
{
    if prev == next {
        lemma_apply_diff_same(prev);
    } else if prev.kind != next.kind || prev.props != next.props || child_keys(prev.children)
        != child_keys(next.children) {
        lemma_apply_diff_root_change(prev, next);
    } else {
        let len = next.children.len() as int;
        assert(child_keys(prev.children).len() == prev.children.len());
        assert(child_keys(next.children).len() == next.children.len());
        lemma_children_round_trip(prev, next, root_key(), len);
        assert(next.children.take(len) + prev.children.skip(len) =~= next.children);
        lemma_children_keys(prev.children, next.children, root_key(), len);
        lemma_root_steps(prev, diff_children(prev.children, next.children, root_key(), len), next.children, list_keys(next.children, len));
        assert(with_children(prev, next.children) == next);
    }
}

} // verus!
