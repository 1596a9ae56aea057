//! What holds of the evaluation of a compiled node, step after step.
use vstd::prelude::*;
use crate::compiled_expr::{CExprModel, slot};
use crate::expr_index::ExprIndex;
use crate::instant::Instant;
use crate::node_model::{
    CNodeModel, eval_upto, feed, lemma_eval_len, lemma_feed_len, min_len, read_outputs,
};
use crate::ops::{BinOp, UnaryOp, all_items, apply_items, apply_unary_items};
use crate::schedule_order::ordered;
use crate::value::ValueModel;

verus! {

/// `a -> b` is `a` at the initial instant and `b` at every later one; with
/// no instant given it has no value.
pub proof fn lemma_arrow_by_instant(a: ValueModel, b: ValueModel)
    ensures
        BinOp::Arrow.apply_spec(a, b, Some(Instant::Initial)) == Some(a),
        BinOp::Arrow.apply_spec(a, b, Some(Instant::NonInitial)) == Some(b),
        BinOp::Arrow.apply_spec(a, b, None) is None,
{
}

/// `pre a` has no value at the initial instant and is what it is given at
/// every later one.
pub proof fn lemma_pre_by_instant(a: ValueModel)
    ensures
        UnaryOp::Pre.apply_spec(a, Some(Instant::Initial)) is None,
        UnaryOp::Pre.apply_spec(a, Some(Instant::NonInitial)) == Some(a),
        UnaryOp::Pre.apply_spec(a, None) is None,
{
}

/// After a step the instant is never the initial one again.
pub proof fn lemma_step_leaves_initial(cn: CNodeModel, first: Seq<ValueModel>, second: Seq<ValueModel>)
    ensures
        cn.after_step(first).instant == Instant::NonInitial,
        cn.after_step(first).after_step(second).instant == Instant::NonInitial,
{
}

/// Evaluation of the first `m` expressions leaves the slots from `m` on alone.
pub proof fn lemma_eval_later_slots(
    exprs: Seq<CExprModel>,
    values: Seq<Option<ValueModel>>,
    instant: Instant,
    m: int,
    k: int,
)
    requires
        0 <= m <= k < values.len(),
    ensures
        eval_upto(exprs, values, instant, m)[k] == values[k],
    decreases m,
{
    lemma_eval_len(exprs, values, instant, m - 1);
    if 0 < m <= exprs.len() {
        lemma_eval_later_slots(exprs, values, instant, m - 1, k);
    }
}

/// Once an expression was evaluated, its slot keeps its value for the
/// rest of the step.
pub proof fn lemma_eval_settled_slot(
    exprs: Seq<CExprModel>,
    values: Seq<Option<ValueModel>>,
    instant: Instant,
    m: int,
    k: int,
)
    requires
        0 <= k < m <= exprs.len(),
        k < values.len(),
    ensures
        eval_upto(exprs, values, instant, m)[k] == eval_upto(exprs, values, instant, k + 1)[k],
    decreases m,
{
    if m > k + 1 {
        lemma_eval_len(exprs, values, instant, m - 1);
        lemma_eval_settled_slot(exprs, values, instant, m - 1, k);
    }
}

/// The value that a step leaves in the slot of an expression: what the
/// expression computes from the slots as they are when its turn comes.
pub proof fn lemma_eval_slot(
    exprs: Seq<CExprModel>,
    values: Seq<Option<ValueModel>>,
    instant: Instant,
    k: int,
)
    requires
        0 <= k < exprs.len(),
        values.len() == exprs.len(),
    ensures
        eval_upto(exprs, values, instant, exprs.len() as int)[k] == (if exprs[k] is Input {
            values[k]
        } else {
            exprs[k].compute(eval_upto(exprs, values, instant, k), instant)
        }),
{
    lemma_eval_settled_slot(exprs, values, instant, exprs.len() as int, k);
    lemma_eval_len(exprs, values, instant, k);
    lemma_eval_later_slots(exprs, values, instant, k, k);
}

/// When the turn of expression `m` comes, the slots before it hold the
/// values of this step and the slots from it on what they held before.
pub proof fn lemma_eval_at_turn(
    exprs: Seq<CExprModel>,
    values: Seq<Option<ValueModel>>,
    instant: Instant,
    m: int,
    i: ExprIndex,
)
    requires
        0 <= m <= exprs.len(),
        values.len() == exprs.len(),
        i.index() < exprs.len(),
    ensures
        slot(eval_upto(exprs, values, instant, m), i) == (if i.index() < m {
            eval_upto(exprs, values, instant, exprs.len() as int)[i.index()]
        } else {
            values[i.index()]
        }),
{
    lemma_eval_len(exprs, values, instant, m);
    if i.index() < m {
        lemma_eval_settled_slot(exprs, values, instant, m, i.index());
        lemma_eval_settled_slot(exprs, values, instant, exprs.len() as int, i.index());
    } else {
        lemma_eval_later_slots(exprs, values, instant, m, i.index());
    }
}

/// A step reads what was written: the value that a step leaves in the
/// slot of an expression that is no input slot is what the expression
/// computes from the values that the step leaves in the slots before it
/// and the values that the slots from it on held when the step began,
/// after the inputs were fed.
pub proof fn lemma_step_reads_what_was_written(cn: CNodeModel, inputs: Seq<ValueModel>, k: int)
    requires
        cn.well_formed(),
        0 <= k < cn.exprs.len(),
        !(cn.exprs[k] is Input),
    ensures
        cn.after_step(inputs).values[k] == cn.exprs[k].compute(
            Seq::new(
                cn.exprs.len(),
                |j: int|
                    if j < k {
                        cn.after_step(inputs).values[j]
                    } else {
                        cn.fed(inputs)[j]
                    },
            ),
            cn.instant,
        ),
{
    let fed = cn.fed(inputs);
    let n = cn.exprs.len() as int;
    lemma_feed_len(cn.values, cn.inputs, inputs, min_len(cn.inputs.len(), inputs.len()));
    lemma_eval_slot(cn.exprs, fed, cn.instant, k);
    lemma_eval_len(cn.exprs, fed, cn.instant, k);
    let at_turn = eval_upto(cn.exprs, fed, cn.instant, k);
    let mixed = Seq::new(
        cn.exprs.len(),
        |j: int|
            if j < k {
                cn.after_step(inputs).values[j]
            } else {
                fed[j]
            },
    );
    assert forall|j: int| 0 <= j < n implies at_turn[j] == mixed[j] by {
        if j < k {
            lemma_eval_settled_slot(cn.exprs, fed, cn.instant, k, j);
            lemma_eval_settled_slot(cn.exprs, fed, cn.instant, n, j);
        } else {
            lemma_eval_later_slots(cn.exprs, fed, cn.instant, k, j);
        }
    }
    assert(at_turn =~= mixed);
}

/// Feeding the inputs leaves alone every slot that no input index names.
pub proof fn lemma_feed_untouched(
    values: Seq<Option<ValueModel>>,
    indices: Seq<ExprIndex>,
    inputs: Seq<ValueModel>,
    n: int,
    i: int,
)
    requires
        0 <= i < values.len(),
        forall|j: int| 0 <= j < indices.len() ==> (#[trigger] indices[j]).index() != i,
    ensures
        feed(values, indices, inputs, n)[i] == values[i],
    decreases n,
{
    if !(n <= 0 || n > indices.len() || n > inputs.len()) {
        lemma_feed_untouched(values, indices, inputs, n - 1, i);
        lemma_feed_len(values, indices, inputs, n - 1);
    }
}

/// A slot that one of the first `n` input indices names holds, after the
/// inputs were fed, what they brought, whatever it held before.
pub proof fn lemma_feed_decides(
    first: Seq<Option<ValueModel>>,
    second: Seq<Option<ValueModel>>,
    indices: Seq<ExprIndex>,
    inputs: Seq<ValueModel>,
    n: int,
    i: int,
)
    requires
        first.len() == second.len(),
        0 <= i < first.len(),
        0 <= n <= indices.len(),
        n <= inputs.len(),
        exists|j: int| 0 <= j < n && (#[trigger] indices[j]).index() == i,
    ensures
        feed(first, indices, inputs, n)[i] == feed(second, indices, inputs, n)[i],
    decreases n,
{
    lemma_feed_len(first, indices, inputs, n - 1);
    lemma_feed_len(second, indices, inputs, n - 1);
    if indices[n - 1].index() != i {
        let j = choose|j: int| 0 <= j < n && (#[trigger] indices[j]).index() == i;
        assert(j < n - 1);
        lemma_feed_decides(first, second, indices, inputs, n - 1, i);
    }
}

/// Whether the node keeps to its slots: the input indices name input
/// slots only.
pub open spec fn inputs_are_slots(cn: CNodeModel) -> bool {
    forall|j: int|
        0 <= j < cn.inputs.len() ==> (#[trigger] cn.inputs[j]).index() < cn.exprs.len()
            && cn.exprs[cn.inputs[j].index()] is Input
}

/// Whether the delays of the node hold in its order: each expression
/// that reads a `Pre` stands before it, so that it reads what the `Pre`
/// kept at the step before.
pub open spec fn delays_hold(exprs: Seq<CExprModel>) -> bool {
    forall|a: int, k: int|
        0 <= a < exprs.len() && 0 <= k < exprs[a].neighbours().len() ==> {
            let m = (#[trigger] exprs[a].neighbours()[k]).index();
            m < exprs.len() && exprs[m] is Pre ==> a < m
        }
}

/// A `Pre` gives the value of the step before: in a node in an order of
/// evaluation in which the delays hold, what an expression reads at a
/// step from a `Pre` is what the source of the `Pre` held after the step
/// before, if the source is no `Pre` itself.
pub proof fn lemma_pre_gives_the_step_before(
    cn: CNodeModel,
    first: Seq<ValueModel>,
    second: Seq<ValueModel>,
    a: int,
    k: int,
)
    requires
        cn.well_formed(),
        inputs_are_slots(cn),
        ordered(cn.exprs),
        delays_hold(cn.exprs),
        0 <= a < cn.exprs.len(),
        0 <= k < cn.exprs[a].neighbours().len(),
        cn.exprs[cn.exprs[a].neighbours()[k].index()] is Pre,
        !(cn.exprs[cn.exprs[cn.exprs[a].neighbours()[k].index()]->Pre_src.index()] is Pre),
    ensures
        ({
            let p = cn.exprs[a].neighbours()[k];
            let source = cn.exprs[p.index()]->Pre_src;
            let before = cn.after_step(first);
            slot(
                eval_upto(before.exprs, before.fed(second), before.instant, a),
                p,
            ) == before.values[source.index()]
        }),
{
    let n = cn.exprs.len() as int;
    let exprs = cn.exprs;
    let p = exprs[a].neighbours()[k];
    assert(exprs[a].in_bounds(n));
    assert(p.index() < n);
    let source = exprs[p.index()]->Pre_src;
    assert(exprs[p.index()].neighbours()[0] == source);
    assert(exprs[p.index()].in_bounds(n));
    assert(source.index() < n);
    assert(a < p.index());
    assert(source.index() < p.index());
    let fed1 = cn.fed(first);
    lemma_feed_len(cn.values, cn.inputs, first, min_len(cn.inputs.len(), first.len()));
    let s1 = cn.after_step(first);
    lemma_eval_len(exprs, fed1, cn.instant, n);
    lemma_eval_slot(exprs, fed1, cn.instant, p.index());
    lemma_eval_at_turn(exprs, fed1, cn.instant, p.index(), source);
    let fed2 = s1.fed(second);
    lemma_feed_len(s1.values, s1.inputs, second, min_len(s1.inputs.len(), second.len()));
    lemma_feed_untouched(
        s1.values,
        s1.inputs,
        second,
        min_len(s1.inputs.len(), second.len()),
        p.index(),
    );
    lemma_eval_at_turn(exprs, fed2, s1.instant, a, p);
}

/// `c fby e`, which is compiled to `c -> pre e`: in a node where the
/// arrow at `a` reads `c` before it and the `Pre` at `p` after it, and the
/// `Pre` reads `e` before it, the arrow is `c` at the initial instant, and
/// at a later step it is what `e` was at the step before, as far as `c`
/// has a value.
pub proof fn lemma_fby_delays(
    cn: CNodeModel,
    first: Seq<ValueModel>,
    second: Seq<ValueModel>,
    a: int,
    c: ExprIndex,
    p: ExprIndex,
    e: ExprIndex,
)
    requires
        cn.well_formed(),
        inputs_are_slots(cn),
        0 <= a < cn.exprs.len(),
        p.index() < cn.exprs.len(),
        cn.exprs[a] == (CExprModel::BinOp { lhs: c, op: BinOp::Arrow, rhs: p }),
        cn.exprs[p.index()] == (CExprModel::Pre { src: e }),
        c.index() < a < p.index(),
        e.index() < p.index(),
    ensures
        cn.instant == Instant::Initial ==> cn.after_step(first).values[a] == cn.after_step(
            first,
        ).values[c.index()],
        cn.after_step(first).after_step(second).values[a] == (if cn.after_step(first).after_step(
            second,
        ).values[c.index()] is Some {
            cn.after_step(first).values[e.index()]
        } else {
            None
        }),
{
    let n = cn.exprs.len() as int;
    let exprs = cn.exprs;
    let fed1 = cn.fed(first);
    lemma_feed_len(cn.values, cn.inputs, first, min_len(cn.inputs.len(), first.len()));
    let s1 = cn.after_step(first);
    lemma_eval_len(exprs, fed1, cn.instant, n);
    // the first step
    lemma_eval_slot(exprs, fed1, cn.instant, a);
    lemma_eval_at_turn(exprs, fed1, cn.instant, a, c);
    lemma_eval_slot(exprs, fed1, cn.instant, p.index());
    lemma_eval_at_turn(exprs, fed1, cn.instant, p.index(), e);
    assert(s1.values[p.index()] == s1.values[e.index()]);
    // the second step
    let fed2 = s1.fed(second);
    lemma_feed_len(s1.values, s1.inputs, second, min_len(s1.inputs.len(), second.len()));
    lemma_feed_untouched(
        s1.values,
        s1.inputs,
        second,
        min_len(s1.inputs.len(), second.len()),
        p.index(),
    );
    let s2 = s1.after_step(second);
    lemma_eval_slot(exprs, fed2, Instant::NonInitial, a);
    lemma_eval_at_turn(exprs, fed2, Instant::NonInitial, a, c);
    lemma_eval_at_turn(exprs, fed2, Instant::NonInitial, a, p);
}

/// Whether no expression of the node depends on the instant or on an
/// earlier instant: none is a `Pre`, and no operator is `->` or `pre`.
pub open spec fn timeless(exprs: Seq<CExprModel>) -> bool {
    forall|k: int|
        0 <= k < exprs.len() ==> match #[trigger] exprs[k] {
            CExprModel::Pre { .. } => false,
            CExprModel::BinOp { op, .. } => op != BinOp::Arrow,
            CExprModel::UnaryOp { op, .. } => op != UnaryOp::Pre,
            _ => true,
        }
}

/// An operator other than `->` gives the same at every instant.
pub proof fn lemma_binary_timeless(
    op: BinOp,
    l: ValueModel,
    r: ValueModel,
    first: Option<Instant>,
    second: Option<Instant>,
)
    requires
        op != BinOp::Arrow,
    ensures
        op.apply_spec(l, r, first) == op.apply_spec(l, r, second),
    decreases l, 0int,
{
    match (l, r) {
        (ValueModel::Tuple(a), ValueModel::Tuple(b)) => {
            lemma_binary_items_timeless(op, a, b, first, second, a.len() as int);
        },
        (ValueModel::Array(a), ValueModel::Array(b)) => {
            lemma_binary_items_timeless(op, a, b, first, second, a.len() as int);
        },
        _ => {},
    }
}

/// An operator other than `->` gives the same on lists at every instant.
pub proof fn lemma_binary_items_timeless(
    op: BinOp,
    l: Seq<ValueModel>,
    r: Seq<ValueModel>,
    first: Option<Instant>,
    second: Option<Instant>,
    n: int,
)
    requires
        op != BinOp::Arrow,
    ensures
        apply_items(op, l, r, first, n) == apply_items(op, l, r, second, n),
        all_items(op, l, r, first, n) == all_items(op, l, r, second, n),
    decreases l, n,
{
    if !(n <= 0 || n > l.len() || n > r.len()) {
        lemma_binary_items_timeless(op, l, r, first, second, n - 1);
        lemma_binary_timeless(op, l[n - 1], r[n - 1], first, second);
    }
}

/// An operator other than `pre` gives the same at every instant.
pub proof fn lemma_unary_timeless(
    op: UnaryOp,
    v: ValueModel,
    first: Option<Instant>,
    second: Option<Instant>,
)
    requires
        op != UnaryOp::Pre,
    ensures
        op.apply_spec(v, first) == op.apply_spec(v, second),
    decreases v, 0int,
{
    match v {
        ValueModel::Tuple(a) => {
            lemma_unary_items_timeless(op, a, first, second, a.len() as int);
        },
        ValueModel::Array(a) => {
            lemma_unary_items_timeless(op, a, first, second, a.len() as int);
        },
        _ => {},
    }
}

/// An operator other than `pre` gives the same on a list at every instant.
pub proof fn lemma_unary_items_timeless(
    op: UnaryOp,
    l: Seq<ValueModel>,
    first: Option<Instant>,
    second: Option<Instant>,
    n: int,
)
    requires
        op != UnaryOp::Pre,
    ensures
        apply_unary_items(op, l, first, n) == apply_unary_items(op, l, second, n),
    decreases l, n,
{
    if !(n <= 0 || n > l.len()) {
        lemma_unary_items_timeless(op, l, first, second, n - 1);
        lemma_unary_timeless(op, l[n - 1], first, second);
    }
}

/// Whether each input slot of the node is named by one of the input
/// indices that a step on `count` inputs feeds.
pub open spec fn inputs_are_fed(cn: CNodeModel, count: nat) -> bool {
    forall|i: int|
        0 <= i < cn.exprs.len() && cn.exprs[i] is Input ==> exists|j: int|
            0 <= j < min_len(cn.inputs.len(), count) && (#[trigger] cn.inputs[j]).index() == i
}

/// In a timeless node in an order of evaluation, the first `m` slots
/// after evaluation do not depend on what the slots held before the
/// inputs were fed, nor on the instant.
proof fn lemma_eval_agrees(
    exprs: Seq<CExprModel>,
    first: Seq<Option<ValueModel>>,
    second: Seq<Option<ValueModel>>,
    one: Instant,
    other: Instant,
    m: int,
)
    requires
        0 <= m <= exprs.len(),
        first.len() == exprs.len(),
        second.len() == exprs.len(),
        ordered(exprs),
        timeless(exprs),
        forall|i: int| 0 <= i < exprs.len() && exprs[i] is Input ==> first[i] == second[i],
    ensures
        forall|k: int|
            0 <= k < m ==> eval_upto(exprs, first, one, m)[k] == eval_upto(
                exprs,
                second,
                other,
                m,
            )[k],
    decreases m,
{
    if m > 0 {
        lemma_eval_agrees(exprs, first, second, one, other, m - 1);
        let a = eval_upto(exprs, first, one, m - 1);
        let b = eval_upto(exprs, second, other, m - 1);
        lemma_eval_len(exprs, first, one, m - 1);
        lemma_eval_len(exprs, second, other, m - 1);
        let e = exprs[m - 1];
        if e is Input {
            lemma_eval_later_slots(exprs, first, one, m - 1, m - 1);
            lemma_eval_later_slots(exprs, second, other, m - 1, m - 1);
        } else {
            assert forall|k: int| 0 <= k < e.neighbours().len() implies slot(
                a,
                #[trigger] e.neighbours()[k],
            ) == slot(b, e.neighbours()[k]) by {
                let v = e.neighbours()[k].index();
                assert(v < m - 1 || (v < exprs.len() && exprs[v] is Pre));
            }
            match e {
                CExprModel::BinOp { lhs, op, rhs } => {
                    assert(e.neighbours()[0] == lhs);
                    assert(e.neighbours()[1] == rhs);
                    if slot(a, lhs) is Some && slot(a, rhs) is Some {
                        lemma_binary_timeless(
                            op,
                            slot(a, lhs)->0,
                            slot(a, rhs)->0,
                            Some(one),
                            Some(other),
                        );
                    }
                },
                CExprModel::UnaryOp { op, rhs } => {
                    assert(e.neighbours()[0] == rhs);
                    if slot(a, rhs) is Some {
                        lemma_unary_timeless(op, slot(a, rhs)->0, Some(one), Some(other));
                    }
                },
                CExprModel::If { cond, yes, no } => {
                    assert(e.neighbours()[0] == cond);
                    assert(e.neighbours()[1] == yes);
                    assert(e.neighbours()[2] == no);
                },
                CExprModel::Variable(i) => {
                    assert(e.neighbours()[0] == i);
                },
                _ => {},
            }
            assert(e.compute(a, one) == e.compute(b, other));
        }
    }
}

/// Slots that agree where the outputs read give the same outputs.
proof fn lemma_read_outputs_agree(
    first: Seq<Option<ValueModel>>,
    second: Seq<Option<ValueModel>>,
    outputs: Seq<ExprIndex>,
    n: int,
)
    requires
        first.len() == second.len(),
        forall|j: int|
            0 <= j < outputs.len() ==> (#[trigger] outputs[j]).index() < first.len()
                && first[outputs[j].index()] == second[outputs[j].index()],
    ensures
        read_outputs(first, outputs, n) == read_outputs(second, outputs, n),
    decreases n,
{
    if !(n <= 0 || n > outputs.len()) {
        lemma_read_outputs_agree(first, second, outputs, n - 1);
        assert(outputs[n - 1].index() < first.len());
    }
}

/// A step of a node that has no `pre`, `fby` or `->` is pure in its
/// inputs: two nodes of the same expressions in an order of evaluation,
/// whatever their slots hold and whatever their instants are, give the
/// same outputs on the same inputs, if the inputs fill every input slot.
pub proof fn lemma_timeless_step_is_pure(first: CNodeModel, second: CNodeModel, inputs: Seq<ValueModel>)
    requires
        first.well_formed(),
        second.well_formed(),
        first.exprs == second.exprs,
        first.inputs == second.inputs,
        first.outputs == second.outputs,
        ordered(first.exprs),
        timeless(first.exprs),
        inputs_are_fed(first, inputs.len()),
    ensures
        first.step_outputs(inputs) == second.step_outputs(inputs),
{
    let exprs = first.exprs;
    let n = exprs.len() as int;
    let count = min_len(first.inputs.len(), inputs.len());
    let a = first.fed(inputs);
    let b = second.fed(inputs);
    lemma_feed_len(first.values, first.inputs, inputs, count);
    lemma_feed_len(second.values, second.inputs, inputs, count);
    assert forall|i: int| 0 <= i < exprs.len() && exprs[i] is Input implies a[i] == b[i] by {
        lemma_feed_decides(first.values, second.values, first.inputs, inputs, count, i);
    }
    lemma_eval_agrees(exprs, a, b, first.instant, second.instant, n);
    lemma_eval_len(exprs, a, first.instant, n);
    lemma_eval_len(exprs, b, second.instant, n);
    lemma_read_outputs_agree(
        first.after_step(inputs).values,
        second.after_step(inputs).values,
        first.outputs,
        first.outputs.len() as int,
    );
}

} // verus!
