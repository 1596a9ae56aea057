//! Why a scheduled node can be evaluated from its first expression to its
//! last: the order that scheduling finds, and what it needs of the node.
use vstd::prelude::*;
use crate::compiled_expr::CExprModel;
use crate::expr_index::ExprIndex;
use crate::node_model::{CNodeModel, exprs_in_bounds};
use crate::schedule_model::{
    Walk, between_roots, follows, fresh_walk, lemma_index_upto,
    lemma_schedule_order_is_permutation, lemma_visit, lemma_visit_all, remap, remap_index,
    schedule_index, schedule_order, visit, visit_all, visit_roots, walked,
};

verus! {

/// Whether the node is causal: `rank` gives each expression a number that
/// is greater than that of every expression it reads within the instant,
/// that is, of every expression it refers to that is no `Pre`. Such a
/// ranking exists exactly when every cycle of references goes through a
/// `Pre`.
pub open spec fn causal(exprs: Seq<CExprModel>, rank: Seq<nat>) -> bool {
    &&& rank.len() == exprs.len()
    &&& forall|u: int, k: int|
        0 <= u < exprs.len() && 0 <= k < exprs[u].neighbours().len() && follows(
            exprs,
            (#[trigger] exprs[u].neighbours()[k]).index(),
        ) ==> rank[exprs[u].neighbours()[k].index()] < rank[u]
}

/// Whether the expressions stand in an order of evaluation: each refers
/// only to `Pre` expressions and to expressions that stand before it.
pub open spec fn ordered(exprs: Seq<CExprModel>) -> bool {
    forall|a: int, k: int|
        0 <= a < exprs.len() && 0 <= k < exprs[a].neighbours().len() ==> {
            let m = (#[trigger] exprs[a].neighbours()[k]).index();
            m < a || (m < exprs.len() && exprs[m] is Pre)
        }
}

/// How many expressions were not entered yet.
pub open spec fn undone(done: Seq<bool>) -> nat
    decreases done.len(),
{
    if done.len() == 0 {
        0
    } else {
        undone(done.drop_last()) + if done.last() {
            0nat
        } else {
            1nat
        }
    }
}

/// Entering an expression leaves one less to enter.
pub proof fn lemma_undone_update(done: Seq<bool>, i: int)
    requires
        0 <= i < done.len(),
        !done[i],
    ensures
        undone(done.update(i, true)) + 1 == undone(done),
    decreases done.len(),
{
    let after = done.update(i, true);
    if i == done.len() - 1 {
        assert(after.drop_last() =~= done.drop_last());
    } else {
        lemma_undone_update(done.drop_last(), i);
        assert(after.drop_last() =~= done.drop_last().update(i, true));
    }
}

/// Where nothing is forgotten, no more is left to enter.
pub proof fn lemma_undone_mono(before: Seq<bool>, after: Seq<bool>)
    requires
        before.len() == after.len(),
        forall|i: int| 0 <= i < before.len() && before[i] ==> after[i],
    ensures
        undone(after) <= undone(before),
    decreases before.len(),
{
    if before.len() > 0 {
        lemma_undone_mono(before.drop_last(), after.drop_last());
    }
}

/// What is left to enter is no more than there is.
pub proof fn lemma_undone_bound(done: Seq<bool>)
    ensures
        undone(done) <= done.len(),
    decreases done.len(),
{
    if done.len() > 0 {
        lemma_undone_bound(done.drop_last());
    }
}

/// Whether an expression is on the pile.
pub open spec fn piled(w: Walk, v: int) -> bool {
    exists|j: int| 0 <= j < w.pile.len() && w.pile[j] == v
}

/// Whether an expression was entered and not left yet.
pub open spec fn open_at(w: Walk, g: int) -> bool {
    0 <= g < w.done.len() && w.done[g] && !piled(w, g)
}

/// Whether what is on the pile is in order: each expression on it has
/// every expression that it reads within the instant before it.
pub open spec fn settled(exprs: Seq<CExprModel>, w: Walk) -> bool {
    &&& w.done.len() == exprs.len()
    &&& forall|j: int| 0 <= j < w.pile.len() ==> 0 <= #[trigger] w.pile[j] < exprs.len()
    &&& forall|j: int, k: int|
        0 <= j < w.pile.len() && 0 <= k < exprs[w.pile[j]].neighbours().len() && follows(
            exprs,
            (#[trigger] exprs[w.pile[j]].neighbours()[k]).index(),
        ) ==> exists|i: int|
            0 <= i < j && w.pile[i] == exprs[w.pile[j]].neighbours()[k].index()
}

/// What a stretch of the walk keeps of the pile: what was on it stays on
/// it, and the expressions that are open stay the same.
pub open spec fn kept(w: Walk, after: Walk) -> bool {
    &&& forall|v: int| piled(w, v) ==> piled(after, v)
    &&& forall|g: int| open_at(after, g) <==> open_at(w, g)
}

/// A stretch of the walk keeps the pile and the open expressions.
pub proof fn lemma_walked_kept(w: Walk, after: Walk, n: int)
    requires
        walked(w, after, n),
        forall|j: int| 0 <= j < w.pile.len() ==> 0 <= #[trigger] w.pile[j] < n && w.done[w.pile[j]],
    ensures
        kept(w, after),
        forall|j: int|
            0 <= j < after.pile.len() ==> 0 <= #[trigger] after.pile[j] < n
                && after.done[after.pile[j]],
{
    assert forall|v: int| piled(w, v) implies piled(after, v) by {
        let j = choose|j: int| 0 <= j < w.pile.len() && w.pile[j] == v;
        assert(after.pile[j] == v);
    }
    assert forall|j: int| 0 <= j < after.pile.len() implies 0 <= #[trigger] after.pile[j] < n
        && after.done[after.pile[j]] by {
        if j < w.pile.len() {
            assert(after.pile[j] == w.pile[j]);
        }
    }
    assert forall|g: int| open_at(after, g) <==> open_at(w, g) by {
        if open_at(after, g) {
            if !w.done[g] {
                let k = choose|k: int| w.pile.len() <= k < after.pile.len() && after.pile[k] == g;
                assert(piled(after, g));
            }
            if piled(w, g) {
                assert(piled(after, g));
            }
        }
        if open_at(w, g) {
            if piled(after, g) {
                let j = choose|j: int| 0 <= j < after.pile.len() && after.pile[j] == g;
                if j < w.pile.len() {
                    assert(w.pile[j] == g);
                    assert(piled(w, g));
                } else {
                    assert(!w.done[after.pile[j]]);
                }
            }
        }
    }
}

/// The state of a walk that is in order and whose budget of depth suffices.
pub open spec fn sound(exprs: Seq<CExprModel>, w: Walk, fuel: nat) -> bool {
    &&& settled(exprs, w)
    &&& forall|j: int| 0 <= j < w.pile.len() ==> w.done[#[trigger] w.pile[j]]
    &&& undone(w.done) <= fuel
}

/// In a causal node, a visit of an expression below which no open
/// expression ranks puts the expression on the pile and leaves the pile in
/// order.
pub proof fn lemma_visit_settles(
    exprs: Seq<CExprModel>,
    rank: Seq<nat>,
    start: int,
    w: Walk,
    fuel: nat,
)
    requires
        exprs_in_bounds(exprs, exprs.len() as int),
        causal(exprs, rank),
        0 <= start < exprs.len(),
        sound(exprs, w, fuel),
        forall|g: int| open_at(w, g) ==> rank[g] > rank[start],
    ensures
        sound(exprs, visit(exprs, start, w, fuel), fuel),
        kept(w, visit(exprs, start, w, fuel)),
        piled(visit(exprs, start, w, fuel), start),
    decreases fuel, 0int,
{
    let n = exprs.len() as int;
    let after = visit(exprs, start, w, fuel);
    lemma_visit(exprs, start, w, fuel);
    lemma_walked_kept(w, after, n);
    if w.done[start] {
        assert(after == w);
        if !piled(w, start) {
            assert(open_at(w, start));
        }
    } else {
        lemma_undone_update(w.done, start);
        assert(fuel > 0);
        let entered = Walk { done: w.done.update(start, true), pile: w.pile };
        let inner = (fuel - 1) as nat;
        let visited = visit_all(exprs, exprs[start].neighbours(), 0, entered, inner);
        assert(after == (Walk { done: visited.done, pile: visited.pile.push(start) }));
        assert(settled(exprs, entered));
        assert forall|g: int| open_at(entered, g) implies rank[g] >= rank[start] by {
            if g != start {
                if piled(w, g) {
                    let j = choose|j: int| 0 <= j < w.pile.len() && w.pile[j] == g;
                    assert(entered.pile[j] == g);
                }
                assert(open_at(w, g));
            }
        }
        lemma_visit_all_settles(exprs, rank, start, 0, entered, inner);
        lemma_visit_all(exprs, exprs[start].neighbours(), 0, entered, inner);
        assert(after.pile[visited.pile.len() as int] == start);
        assert(piled(after, start));
        assert forall|j: int, k: int|
            0 <= j < after.pile.len() && 0 <= k < exprs[after.pile[j]].neighbours().len()
                && follows(
                exprs,
                (#[trigger] exprs[after.pile[j]].neighbours()[k]).index(),
            ) implies exists|i: int|
            0 <= i < j && after.pile[i] == exprs[after.pile[j]].neighbours()[k].index() by {
            let v = exprs[after.pile[j]].neighbours()[k].index();
            if j < visited.pile.len() {
                assert(after.pile[j] == visited.pile[j]);
                let i = choose|i: int| 0 <= i < j && visited.pile[i] == v;
                assert(after.pile[i] == v);
            } else {
                assert(piled(visited, v));
                let i = choose|i: int| 0 <= i < visited.pile.len() && visited.pile[i] == v;
                assert(after.pile[i] == v);
            }
        }
        lemma_undone_mono(entered.done, visited.done);
        lemma_undone_mono(w.done, after.done);
    }
}

/// In a causal node, visiting the expressions that `u` refers to, from
/// position `k` on, puts on the pile each of them that is read within the
/// instant and leaves the pile in order.
pub proof fn lemma_visit_all_settles(
    exprs: Seq<CExprModel>,
    rank: Seq<nat>,
    u: int,
    k: int,
    w: Walk,
    fuel: nat,
)
    requires
        exprs_in_bounds(exprs, exprs.len() as int),
        causal(exprs, rank),
        0 <= u < exprs.len(),
        0 <= k,
        sound(exprs, w, fuel),
        forall|g: int| open_at(w, g) ==> rank[g] >= rank[u],
    ensures
        sound(exprs, visit_all(exprs, exprs[u].neighbours(), k, w, fuel), fuel),
        kept(w, visit_all(exprs, exprs[u].neighbours(), k, w, fuel)),
        forall|i: int|
            k <= i < exprs[u].neighbours().len() && follows(
                exprs,
                (#[trigger] exprs[u].neighbours()[i]).index(),
            ) ==> piled(
                visit_all(exprs, exprs[u].neighbours(), k, w, fuel),
                exprs[u].neighbours()[i].index(),
            ),
    decreases fuel, 1 + exprs[u].neighbours().len() - k,
{
    let n = exprs.len() as int;
    let neighbours = exprs[u].neighbours();
    if k >= neighbours.len() {
    } else {
        let v = neighbours[k].index();
        assert(exprs[u].in_bounds(n));
        assert(v < n);
        let next = if follows(exprs, v) {
            visit(exprs, v, w, fuel)
        } else {
            w
        };
        if follows(exprs, v) {
            assert(rank[v] < rank[u]);
            lemma_visit_settles(exprs, rank, v, w, fuel);
        }
        lemma_visit_all_settles(exprs, rank, u, k + 1, next, fuel);
        let last = visit_all(exprs, neighbours, k + 1, next, fuel);
        assert(last == visit_all(exprs, neighbours, k, w, fuel));
        assert forall|i: int|
            k <= i < neighbours.len() && follows(
                exprs,
                (#[trigger] neighbours[i]).index(),
            ) implies piled(last, neighbours[i].index()) by {
            if i == k {
                assert(piled(next, v));
            }
        }
    }
}

/// In a causal node, taking every root from `k` on leaves the pile in order.
pub proof fn lemma_visit_roots_settles(exprs: Seq<CExprModel>, rank: Seq<nat>, k: int, w: Walk)
    requires
        exprs_in_bounds(exprs, exprs.len() as int),
        causal(exprs, rank),
        0 <= k,
        settled(exprs, w),
        between_roots(w, exprs.len() as int, k),
    ensures
        settled(exprs, visit_roots(exprs, k, w)),
    decreases exprs.len() - k,
{
    let n = exprs.len();
    if k < exprs.len() {
        lemma_undone_bound(w.done);
        assert forall|g: int| open_at(w, g) implies rank[g] > rank[k] by {
            let j = choose|j: int| 0 <= j < w.pile.len() && w.pile[j] == g;
            assert(piled(w, g));
        }
        lemma_visit_settles(exprs, rank, k, w, n);
        let next = visit(exprs, k, w, n);
        crate::schedule_model::lemma_visit_roots_step(exprs, k, w);
        lemma_visit_roots_settles(exprs, rank, k + 1, next);
    }
}

/// The expression that stands at a new index refers to the new indices of
/// what the old expression referred to.
pub proof fn lemma_remap_neighbours(e: CExprModel, new_index: Seq<ExprIndex>)
    ensures
        remap(e, new_index).neighbours().len() == e.neighbours().len(),
        forall|k: int|
            0 <= k < e.neighbours().len() ==> #[trigger] remap(e, new_index).neighbours()[k]
                == remap_index(e.neighbours()[k], new_index),
        remap(e, new_index) is Pre <==> e is Pre,
{
}

/// The schedule of a causal node is an order of evaluation: in the
/// scheduled node each expression refers only to `Pre` expressions and to
/// expressions that stand before it.
pub proof fn lemma_schedule_orders(cn: CNodeModel, rank: Seq<nat>)
    requires
        cn.well_formed(),
        causal(cn.exprs, rank),
    ensures
        ordered(cn.scheduled().exprs),
{
    let exprs = cn.exprs;
    let n = exprs.len();
    let order = schedule_order(exprs);
    let new_index = schedule_index(exprs);
    let start = fresh_walk(n);
    lemma_schedule_order_is_permutation(exprs);
    lemma_index_upto(order, n, order.len() as int);
    lemma_visit_roots_settles(exprs, rank, 0, start);
    let last = visit_roots(exprs, 0, start);
    assert(last.pile == order);
    let s = cn.scheduled().exprs;
    assert forall|a: int, k: int| 0 <= a < s.len() && 0 <= k < s[a].neighbours().len() implies {
        let m = (#[trigger] s[a].neighbours()[k]).index();
        m < a || (m < s.len() && s[m] is Pre)
    } by {
        let u = order[a];
        let e = exprs[u];
        lemma_remap_neighbours(e, new_index);
        assert(s[a] == remap(e, new_index));
        let v = e.neighbours()[k].index();
        assert(e.in_bounds(n as int));
        assert(v < n);
        let m = s[a].neighbours()[k].index();
        assert(s[a].neighbours()[k] == remap_index(e.neighbours()[k], new_index));
        assert(m == new_index[v].index());
        assert(order.contains(v));
        let j = choose|j: int| 0 <= j < order.len() && order[j] == v;
        assert(new_index[order[j]].index() == j);
        assert(m == j);
        if follows(exprs, v) {
            let i = choose|i: int| 0 <= i < a && last.pile[i] == v;
            assert(new_index[order[i]].index() == i);
        } else {
            lemma_remap_neighbours(exprs[v], new_index);
            assert(s[j] == remap(exprs[order[j]], new_index));
        }
    }
}

/// Whether expression `u` refers to expression `v`.
pub open spec fn refers(exprs: Seq<CExprModel>, u: int, v: int) -> bool {
    exists|k: int|
        0 <= k < exprs[u].neighbours().len() && (#[trigger] exprs[u].neighbours()[k]).index() == v
}

/// Whether `path` is a cycle of references: each expression of it refers
/// to the next one, and the last one is the first.
pub open spec fn is_cycle(exprs: Seq<CExprModel>, path: Seq<int>) -> bool {
    &&& path.len() >= 2
    &&& path.first() == path.last()
    &&& forall|i: int| 0 <= i < path.len() ==> 0 <= #[trigger] path[i] < exprs.len()
    &&& forall|i: int|
        0 <= i < path.len() - 1 ==> refers(exprs, #[trigger] path[i], path[i + 1])
}

/// Along a path that meets no `Pre`, the indices of an ordered node go down.
proof fn lemma_path_descends(exprs: Seq<CExprModel>, path: Seq<int>, i: int)
    requires
        ordered(exprs),
        is_cycle(exprs, path),
        0 <= i < path.len(),
        forall|j: int| 0 < j < path.len() ==> !(exprs[#[trigger] path[j]] is Pre),
    ensures
        path[i] <= path[0] - i,
    decreases i,
{
    if i > 0 {
        lemma_path_descends(exprs, path, i - 1);
        assert(refers(exprs, path[i - 1], path[i - 1 + 1]));
        let k = choose|k: int|
            0 <= k < exprs[path[i - 1]].neighbours().len() && (
            #[trigger] exprs[path[i - 1]].neighbours()[k]).index() == path[i];
        let m = exprs[path[i - 1]].neighbours()[k].index();
        assert(m < path[i - 1] || (m < exprs.len() && exprs[m] is Pre));
    }
}

/// In a node whose expressions stand in an order of evaluation, every
/// cycle of references goes through a `Pre`.
pub proof fn lemma_cycles_pass_pre(exprs: Seq<CExprModel>, path: Seq<int>)
    requires
        ordered(exprs),
        is_cycle(exprs, path),
    ensures
        exists|j: int| 0 < j < path.len() && exprs[#[trigger] path[j]] is Pre,
{
    if forall|j: int| 0 < j < path.len() ==> !(exprs[#[trigger] path[j]] is Pre) {
        lemma_path_descends(exprs, path, path.len() - 1);
    }
}

} // verus!
