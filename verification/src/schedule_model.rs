//! The mathematical model of scheduling: a depth-first walk of the
//! expression graph in which the edges into `Pre` expressions are cut.
use vstd::prelude::*;
use vstd::set_lib::{lemma_int_range, set_int_range};
use crate::compiled_expr::CExprModel;
use crate::expr_index::ExprIndex;
use crate::instant::Instant;
use crate::node_model::CNodeModel;

verus! {

/// The state of the walk: which expressions were entered, and the pile of
/// those that were left, in the order in which they were left.
pub struct Walk {
    pub done: Seq<bool>,
    pub pile: Seq<int>,
}

/// Whether the walk follows the edge to expression `n`: it does unless `n`
/// is a `Pre`, whose value comes from the instant before.
pub open spec fn follows(exprs: Seq<CExprModel>, n: int) -> bool {
    !(0 <= n < exprs.len() && exprs[n] is Pre)
}

/// The walk after expression `start` was visited: if it was not entered
/// yet, it is entered, the expressions it refers to are visited in the
/// order of its operands, and it is put on the pile. `fuel` bounds the depth.
pub open spec fn visit(exprs: Seq<CExprModel>, start: int, w: Walk, fuel: nat) -> Walk
    decreases fuel, 0int,
{
    if start < 0 || start >= w.done.len() || start >= exprs.len() || w.done[start] || fuel == 0 {
        w
    } else {
        let entered = Walk { done: w.done.update(start, true), pile: w.pile };
        let after = visit_all(exprs, exprs[start].neighbours(), 0, entered, (fuel - 1) as nat);
        Walk { done: after.done, pile: after.pile.push(start) }
    }
}

/// The walk after the neighbours from position `k` on were visited in
/// order, those that are `Pre` expressions left out.
pub open spec fn visit_all(
    exprs: Seq<CExprModel>,
    neighbours: Seq<ExprIndex>,
    k: int,
    w: Walk,
    fuel: nat,
) -> Walk
    decreases fuel, 1 + neighbours.len() - k,
{
    if k < 0 || k >= neighbours.len() {
        w
    } else {
        let n = neighbours[k].index();
        let next = if follows(exprs, n) {
            visit(exprs, n, w, fuel)
        } else {
            w
        };
        visit_all(exprs, neighbours, k + 1, next, fuel)
    }
}

/// The walk after every expression from `k` on was taken as a root.
pub open spec fn visit_roots(exprs: Seq<CExprModel>, k: int, w: Walk) -> Walk
    decreases exprs.len() - k,
{
    if k < 0 || k >= exprs.len() {
        w
    } else {
        visit_roots(exprs, k + 1, visit(exprs, k, w, exprs.len()))
    }
}

/// The walk before anything was visited.
pub open spec fn fresh_walk(len: nat) -> Walk {
    Walk { done: Seq::new(len, |i: int| false), pile: Seq::empty() }
}

/// The order in which scheduling puts the expressions: position `k` of the
/// result holds the old index of the expression that comes `k`-th.
pub open spec fn schedule_order(exprs: Seq<CExprModel>) -> Seq<int> {
    visit_roots(exprs, 0, fresh_walk(exprs.len())).pile
}

/// The new index of each old index, from the first `k` entries of the order.
pub open spec fn index_upto(order: Seq<int>, len: nat, k: int) -> Seq<ExprIndex>
    decreases k,
{
    if k <= 0 || k > order.len() {
        Seq::new(len, |i: int| ExprIndex(0))
    } else {
        let before = index_upto(order, len, k - 1);
        if 0 <= order[k - 1] < before.len() {
            before.update(order[k - 1], ExprIndex((k - 1) as u32))
        } else {
            before
        }
    }
}

/// The new index of an old one.
pub open spec fn remap_index(i: ExprIndex, new_index: Seq<ExprIndex>) -> ExprIndex {
    if i.index() < new_index.len() {
        new_index[i.index()]
    } else {
        i
    }
}

/// The expression with every index it refers to replaced by its new index.
pub open spec fn remap(e: CExprModel, new_index: Seq<ExprIndex>) -> CExprModel {
    match e {
        CExprModel::Input => CExprModel::Input,
        CExprModel::Output => CExprModel::Output,
        CExprModel::Lit(v) => CExprModel::Lit(v),
        CExprModel::Pre { src } => CExprModel::Pre { src: remap_index(src, new_index) },
        CExprModel::Variable(i) => CExprModel::Variable(remap_index(i, new_index)),
        CExprModel::UnaryOp { op, rhs } => CExprModel::UnaryOp {
            op,
            rhs: remap_index(rhs, new_index),
        },
        CExprModel::BinOp { lhs, op, rhs } => CExprModel::BinOp {
            lhs: remap_index(lhs, new_index),
            op,
            rhs: remap_index(rhs, new_index),
        },
        CExprModel::If { cond, yes, no } => CExprModel::If {
            cond: remap_index(cond, new_index),
            yes: remap_index(yes, new_index),
            no: remap_index(no, new_index),
        },
    }
}

/// The new index of each old index under the schedule of `exprs`.
pub open spec fn schedule_index(exprs: Seq<CExprModel>) -> Seq<ExprIndex> {
    let order = schedule_order(exprs);
    index_upto(order, exprs.len(), order.len() as int)
}

impl CNodeModel {
    /// The scheduled node: the expressions and their tags in the order of
    /// the walk, every index replaced by the new one, all value slots
    /// empty, and the instant back at the initial one.
    pub open spec fn scheduled(self) -> CNodeModel {
        let order = schedule_order(self.exprs);
        let new_index = schedule_index(self.exprs);
        CNodeModel {
            exprs: Seq::new(
                order.len(),
                |k: int|
                    if 0 <= order[k] < self.exprs.len() {
                        remap(self.exprs[order[k]], new_index)
                    } else {
                        CExprModel::Input
                    },
            ),
            infos: Seq::new(
                order.len(),
                |k: int|
                    if 0 <= order[k] < self.infos.len() {
                        self.infos[order[k]]
                    } else {
                        Seq::empty()
                    },
            ),
            inputs: Seq::new(self.inputs.len(), |j: int| remap_index(self.inputs[j], new_index)),
            outputs: Seq::new(self.outputs.len(), |j: int| remap_index(self.outputs[j], new_index)),
            values: Seq::new(order.len(), |k: int| None),
            instant: Instant::Initial,
        }
    }
}

/// What a stretch of the walk from `w` to `after` keeps: the flags only
/// go up, the pile only grows, and what it grows by are exactly the
/// expressions that were entered meanwhile, each once.
pub open spec fn walked(w: Walk, after: Walk, n: int) -> bool {
    &&& w.done.len() == n
    &&& after.done.len() == n
    &&& w.pile.len() <= after.pile.len()
    &&& forall|k: int| 0 <= k < w.pile.len() ==> after.pile[k] == w.pile[k]
    &&& forall|i: int| 0 <= i < n && w.done[i] ==> after.done[i]
    &&& forall|i: int|
        0 <= i < n && after.done[i] && !w.done[i] ==> exists|k: int|
            w.pile.len() <= k < after.pile.len() && after.pile[k] == i
    &&& forall|k: int|
        w.pile.len() <= k < after.pile.len() ==> 0 <= #[trigger] after.pile[k] < n
            && !w.done[after.pile[k]] && after.done[after.pile[k]]
    &&& forall|k1: int, k2: int|
        w.pile.len() <= k1 < k2 < after.pile.len() ==> after.pile[k1] != after.pile[k2]
}

/// Two stretches of the walk, one after the other, make one stretch.
pub proof fn lemma_walked_trans(w: Walk, mid: Walk, after: Walk, n: int)
    requires
        walked(w, mid, n),
        walked(mid, after, n),
    ensures
        walked(w, after, n),
{
    assert forall|i: int| 0 <= i < n && after.done[i] && !w.done[i] implies exists|k: int|
        w.pile.len() <= k < after.pile.len() && after.pile[k] == i by {
        if mid.done[i] {
            let k = choose|k: int| w.pile.len() <= k < mid.pile.len() && mid.pile[k] == i;
            assert(after.pile[k] == i);
        } else {
            let k = choose|k: int| mid.pile.len() <= k < after.pile.len() && after.pile[k] == i;
            assert(after.pile[k] == i);
        }
    }
    assert forall|k: int| w.pile.len() <= k < after.pile.len() implies 0
        <= #[trigger] after.pile[k] < n && !w.done[after.pile[k]] && after.done[after.pile[k]] by {
        if k < mid.pile.len() {
            assert(after.pile[k] == mid.pile[k]);
        }
    }
    assert forall|k1: int, k2: int|
        w.pile.len() <= k1 < k2 < after.pile.len() implies after.pile[k1] != after.pile[k2] by {
        if k1 < mid.pile.len() {
            assert(after.pile[k1] == mid.pile[k1]);
            if k2 < mid.pile.len() {
                assert(after.pile[k2] == mid.pile[k2]);
            }
        }
    }
}

/// A visit is a stretch of the walk, and with fuel left it enters its start.
pub proof fn lemma_visit(exprs: Seq<CExprModel>, start: int, w: Walk, fuel: nat)
    requires
        w.done.len() == exprs.len(),
    ensures
        walked(w, visit(exprs, start, w, fuel), exprs.len() as int),
        0 <= start < exprs.len() && fuel > 0 ==> visit(exprs, start, w, fuel).done[start],
    decreases fuel, 0int,
{
    let n = exprs.len() as int;
    if start < 0 || start >= w.done.len() || start >= exprs.len() || w.done[start] || fuel == 0 {
    } else {
        let entered = Walk { done: w.done.update(start, true), pile: w.pile };
        let after = visit_all(exprs, exprs[start].neighbours(), 0, entered, (fuel - 1) as nat);
        lemma_visit_all(exprs, exprs[start].neighbours(), 0, entered, (fuel - 1) as nat);
        let last = Walk { done: after.done, pile: after.pile.push(start) };
        assert(last == visit(exprs, start, w, fuel));
        assert(entered.done[start]);
        assert forall|i: int| 0 <= i < n && last.done[i] && !w.done[i] implies exists|k: int|
            w.pile.len() <= k < last.pile.len() && last.pile[k] == i by {
            if i == start {
                assert(last.pile[after.pile.len() as int] == start);
            } else {
                assert(!entered.done[i]);
                let k = choose|k: int|
                    entered.pile.len() <= k < after.pile.len() && after.pile[k] == i;
                assert(last.pile[k] == i);
            }
        }
        assert forall|k: int| w.pile.len() <= k < last.pile.len() implies 0
            <= #[trigger] last.pile[k] < n && !w.done[last.pile[k]] && last.done[last.pile[k]] by {
            if k < after.pile.len() {
                assert(last.pile[k] == after.pile[k]);
                assert(!entered.done[after.pile[k]]);
            }
        }
        assert forall|k1: int, k2: int|
            w.pile.len() <= k1 < k2 < last.pile.len() implies last.pile[k1] != last.pile[k2] by {
            assert(last.pile[k1] == after.pile[k1]);
            assert(!entered.done[after.pile[k1]]);
            if k2 < after.pile.len() {
                assert(last.pile[k2] == after.pile[k2]);
            }
        }
    }
}

/// Visiting a list of neighbours is a stretch of the walk.
pub proof fn lemma_visit_all(
    exprs: Seq<CExprModel>,
    neighbours: Seq<ExprIndex>,
    k: int,
    w: Walk,
    fuel: nat,
)
    requires
        w.done.len() == exprs.len(),
    ensures
        walked(w, visit_all(exprs, neighbours, k, w, fuel), exprs.len() as int),
    decreases fuel, 1 + neighbours.len() - k,
{
    if k < 0 || k >= neighbours.len() {
    } else {
        let n = neighbours[k].index();
        let next = if follows(exprs, n) {
            visit(exprs, n, w, fuel)
        } else {
            w
        };
        if follows(exprs, n) {
            lemma_visit(exprs, n, w, fuel);
        }
        lemma_visit_all(exprs, neighbours, k + 1, next, fuel);
        lemma_walked_trans(
            w,
            next,
            visit_all(exprs, neighbours, k + 1, next, fuel),
            exprs.len() as int,
        );
    }
}

/// What holds between two roots: the pile holds exactly the entered
/// expressions, each once, and every expression before `k` was entered.
pub open spec fn between_roots(w: Walk, n: int, k: int) -> bool {
    &&& w.done.len() == n
    &&& forall|j: int| 0 <= j < w.pile.len() ==> 0 <= #[trigger] w.pile[j] < n && w.done[w.pile[j]]
    &&& forall|i: int| 0 <= i < n && w.done[i] ==> exists|j: int| 0 <= j < w.pile.len() && w.pile[j] == i
    &&& forall|j1: int, j2: int| 0 <= j1 < j2 < w.pile.len() ==> w.pile[j1] != w.pile[j2]
    &&& forall|i: int| 0 <= i < k && i < n ==> w.done[i]
}

/// Taking every root from `k` on leaves every expression entered and
/// on the pile once.
pub proof fn lemma_visit_roots(exprs: Seq<CExprModel>, k: int, w: Walk)
    requires
        0 <= k,
        between_roots(w, exprs.len() as int, k),
    ensures
        between_roots(visit_roots(exprs, k, w), exprs.len() as int, exprs.len() as int),
    decreases exprs.len() - k,
{
    if k >= exprs.len() {
    } else {
        let next = visit(exprs, k, w, exprs.len());
        lemma_visit_roots_step(exprs, k, w);
        lemma_visit_roots(exprs, k + 1, next);
    }
}

/// Taking a root keeps what holds between two roots.
pub proof fn lemma_visit_roots_step(exprs: Seq<CExprModel>, k: int, w: Walk)
    requires
        0 <= k < exprs.len(),
        between_roots(w, exprs.len() as int, k),
    ensures
        between_roots(visit(exprs, k, w, exprs.len()), exprs.len() as int, k + 1),
{
    let n = exprs.len() as int;
    let next = visit(exprs, k, w, exprs.len());
    lemma_visit(exprs, k, w, exprs.len());
    assert forall|j: int| 0 <= j < next.pile.len() implies 0 <= #[trigger] next.pile[j] < n
        && next.done[next.pile[j]] by {
        if j < w.pile.len() {
            assert(next.pile[j] == w.pile[j]);
        }
    }
    assert forall|i: int| 0 <= i < n && next.done[i] implies exists|j: int|
        0 <= j < next.pile.len() && next.pile[j] == i by {
        if w.done[i] {
            let j = choose|j: int| 0 <= j < w.pile.len() && w.pile[j] == i;
            assert(next.pile[j] == i);
        } else {
            let j = choose|j: int| w.pile.len() <= j < next.pile.len() && next.pile[j] == i;
            assert(next.pile[j] == i);
        }
    }
    assert forall|j1: int, j2: int| 0 <= j1 < j2 < next.pile.len() implies next.pile[j1]
        != next.pile[j2] by {
        if j1 < w.pile.len() {
            assert(next.pile[j1] == w.pile[j1]);
            if j2 < w.pile.len() {
                assert(next.pile[j2] == w.pile[j2]);
            }
        }
    }
    assert forall|i: int| 0 <= i < k + 1 && i < n implies next.done[i] by {}
}

/// Whether `order` is a permutation of the indices below `n`.
pub open spec fn is_permutation(order: Seq<int>, n: int) -> bool {
    &&& order.len() == n
    &&& forall|k: int| 0 <= k < order.len() ==> 0 <= #[trigger] order[k] < n
    &&& forall|k1: int, k2: int| 0 <= k1 < k2 < order.len() ==> order[k1] != order[k2]
    &&& forall|i: int| 0 <= i < n ==> #[trigger] order.contains(i)
}

/// The schedule is a permutation: every expression is put on the pile
/// exactly once.
pub proof fn lemma_schedule_order_is_permutation(exprs: Seq<CExprModel>)
    ensures
        is_permutation(schedule_order(exprs), exprs.len() as int),
{
    let n = exprs.len() as int;
    let w = fresh_walk(exprs.len());
    lemma_visit_roots(exprs, 0, w);
    let last = visit_roots(exprs, 0, w);
    let order = schedule_order(exprs);
    assert(order == last.pile);
    assert(between_roots(last, n, n));
    assert forall|i: int| 0 <= i < n implies #[trigger] order.contains(i) by {
        assert(last.done[i]);
        let j = choose|j: int| 0 <= j < last.pile.len() && last.pile[j] == i;
        assert(order[j] == i);
    }
    assert(order.no_duplicates());
    order.unique_seq_to_set();
    assert(order.to_set() =~= set_int_range(0, n)) by {
        assert forall|i: int| set_int_range(0, n).contains(i) implies order.to_set().contains(
            i,
        ) by {
            assert(order.contains(i));
        }
        assert forall|i: int| order.to_set().contains(i) implies set_int_range(0, n).contains(
            i,
        ) by {
            let j = choose|j: int| 0 <= j < order.len() && order[j] == i;
            assert(0 <= order[j] < n);
        }
    }
    lemma_int_range(0, n);
}

/// With a permutation as the order, the new index of the expression at
/// position `j` of the order is `j`, as far as the order was read.
pub proof fn lemma_index_upto(order: Seq<int>, n: nat, k: int)
    requires
        is_permutation(order, n as int),
        0 <= k <= order.len(),
        n <= u32::MAX,
    ensures
        index_upto(order, n, k).len() == n,
        forall|j: int| 0 <= j < k ==> (#[trigger] index_upto(order, n, k)[order[j]]).index() == j,
        forall|i: int| 0 <= i < n ==> (#[trigger] index_upto(order, n, k)[i]).index() < n
            || n == 0,
    decreases k,
{
    if k > 0 {
        lemma_index_upto(order, n, k - 1);
        let before = index_upto(order, n, k - 1);
        let now = index_upto(order, n, k);
        assert(now == before.update(order[k - 1], ExprIndex((k - 1) as u32)));
        assert forall|j: int| 0 <= j < k implies (#[trigger] now[order[j]]).index() == j by {
            if j < k - 1 {
                assert(order[j] != order[k - 1]);
            }
        }
    }
}

/// Scheduling keeps a well-formed node well-formed.
pub proof fn lemma_scheduled_well_formed(cn: CNodeModel)
    requires
        cn.well_formed(),
    ensures
        cn.scheduled().well_formed(),
        cn.scheduled().exprs.len() == cn.exprs.len(),
{
    let n = cn.exprs.len();
    let order = schedule_order(cn.exprs);
    let new_index = schedule_index(cn.exprs);
    lemma_schedule_order_is_permutation(cn.exprs);
    lemma_index_upto(order, n, order.len() as int);
    let s = cn.scheduled();
    assert forall|i: int| 0 <= i < s.exprs.len() implies (#[trigger] s.exprs[i]).in_bounds(
        n as int,
    ) by {
        let e = cn.exprs[order[i]];
        assert(e.in_bounds(n as int));
        let r = remap(e, new_index);
        assert forall|k: int| 0 <= k < r.neighbours().len() implies (
        #[trigger] r.neighbours()[k]).index() < n by {
            assert(e.neighbours().len() == r.neighbours().len());
            assert(e.neighbours()[k].index() < n);
            assert(r.neighbours()[k] == remap_index(e.neighbours()[k], new_index));
        }
    }
    assert forall|k: int| 0 <= k < s.inputs.len() implies (#[trigger] s.inputs[k]).index()
        < n by {
        assert(cn.inputs[k].index() < n);
    }
    assert forall|k: int| 0 <= k < s.outputs.len() implies (#[trigger] s.outputs[k]).index()
        < n by {
        assert(cn.outputs[k].index() < n);
    }
}

} // verus!
