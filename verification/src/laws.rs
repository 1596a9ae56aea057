//! Laws that relate the parts of the analysis to each other.
use vstd::prelude::*;
use crate::ast::Ast;
use crate::ast::ExprModel;
use crate::check_model::{Checking, Ctx, binary_type, type_expr, unary_type};
use crate::propagate_model::{Folding, fold_expr};
use crate::diagnostic::{Diagnostic, InlayHint, diagnostic_views, hint_views};
use crate::instant::Instant;
use crate::node_model::{CNodeModel, read_outputs};
use crate::ops::{BinOp, UnaryOp, apply_items, apply_unary_items};
use crate::propagate_model::{column_inputs, extend_columns, run_columns};
use crate::schedule_model::{
    is_permutation, lemma_index_upto, lemma_schedule_order_is_permutation, remap, schedule_index,
    schedule_order,
};
use crate::span::SpanModel;
use crate::types::{InferLen, InnerTypeModel, VarTypeModel, merge_items};
use crate::value::{ValueModel, item_kinds};

verus! {

/// Checking is idempotent: two checks of one program give the same
/// diagnostics and the same hints.
pub proof fn lemma_check_is_idempotent(
    ast: Ast,
    first: (Vec<Diagnostic>, Vec<InlayHint>),
    second: (Vec<Diagnostic>, Vec<InlayHint>),
)
    requires
        diagnostic_views(first.0@) == ast@.checked().0,
        hint_views(first.1@) == ast@.checked().1,
        diagnostic_views(second.0@) == ast@.checked().0,
        hint_views(second.1@) == ast@.checked().1,
    ensures
        diagnostic_views(first.0@) == diagnostic_views(second.0@),
        hint_views(first.1@) == hint_views(second.1@),
{
}

/// Scheduling permutes the expressions: the scheduled node has as many
/// expressions as the node, each old index stands at exactly one
/// position of the order, the expression at a position is the old one
/// with its indices replaced, and the new index of the expression at a
/// position is that position.
pub proof fn lemma_schedule_permutes(cn: CNodeModel)
    requires
        cn.well_formed(),
    ensures
        is_permutation(schedule_order(cn.exprs), cn.exprs.len() as int),
        cn.scheduled().exprs.len() == cn.exprs.len(),
        forall|k: int|
            0 <= k < cn.exprs.len() ==> #[trigger] cn.scheduled().exprs[k] == remap(
                cn.exprs[schedule_order(cn.exprs)[k]],
                schedule_index(cn.exprs),
            ),
        forall|k: int|
            0 <= k < cn.exprs.len() ==> (#[trigger] schedule_index(cn.exprs)[schedule_order(
                cn.exprs,
            )[k]]).index() == k,
{
    let order = schedule_order(cn.exprs);
    lemma_schedule_order_is_permutation(cn.exprs);
    lemma_index_upto(order, cn.exprs.len(), order.len() as int);
}

/// The items of a list in another order: position `k` holds the item that
/// the order names there.
pub open spec fn reordered<A>(s: Seq<A>, order: Seq<int>) -> Seq<A> {
    Seq::new(order.len(), |k: int| s[order[k]])
}

/// A list in the order of a permutation holds the same items, each as
/// often as before.
pub proof fn lemma_reordered_multiset<A>(s: Seq<A>, order: Seq<int>)
    requires
        is_permutation(order, s.len() as int),
    ensures
        reordered(s, order).to_multiset() == s.to_multiset(),
    decreases s.len(),
{
    broadcast use vstd::multiset::group_multiset_axioms;

    let n = s.len() as int;
    let r = reordered(s, order);
    if n == 0 {
        assert(r =~= s);
    } else {
        let j = order[n - 1];
        let rest = s.remove(j);
        let shorter = Seq::new(
            (n - 1) as nat,
            |k: int|
                if order[k] < j {
                    order[k]
                } else {
                    order[k] - 1
                },
        );
        assert forall|k: int| 0 <= k < n - 1 implies order[k] != j by {}
        assert forall|i: int| 0 <= i < n - 1 implies #[trigger] shorter.contains(i) by {
            let wanted = if i < j {
                i
            } else {
                i + 1
            };
            assert(order.contains(wanted));
            let k = choose|k: int| 0 <= k < order.len() && order[k] == wanted;
            assert(shorter[k] == i);
        }
        assert(is_permutation(shorter, n - 1));
        lemma_reordered_multiset(rest, shorter);
        assert(reordered(rest, shorter) =~= r.drop_last());
        assert(r =~= r.drop_last().push(s[j]));
        vstd::seq_lib::to_multiset_build(r.drop_last(), s[j]);
        vstd::seq_lib::to_multiset_remove(s, j);
        s.to_multiset_ensures();
        assert(s.to_multiset().count(s[j]) > 0);
        assert(r.to_multiset() =~= s.to_multiset());
    }
}

/// Scheduling keeps the expressions: the expressions of the node taken in
/// the order of the schedule are the same, each as often as before, and
/// the scheduled node holds them with their indices replaced.
pub proof fn lemma_schedule_keeps_expressions(cn: CNodeModel)
    requires
        cn.well_formed(),
    ensures
        reordered(cn.exprs, schedule_order(cn.exprs)).to_multiset() == cn.exprs.to_multiset(),
        cn.scheduled().exprs.len() == cn.exprs.len(),
        forall|k: int|
            0 <= k < cn.exprs.len() ==> #[trigger] cn.scheduled().exprs[k] == remap(
                reordered(cn.exprs, schedule_order(cn.exprs))[k],
                schedule_index(cn.exprs),
            ),
{
    lemma_schedule_permutes(cn);
    lemma_reordered_multiset(cn.exprs, schedule_order(cn.exprs));
}

/// The outputs that are read are as many as the output slots.
pub proof fn lemma_read_outputs_len(
    values: Seq<Option<ValueModel>>,
    outputs: Seq<crate::expr_index::ExprIndex>,
    n: int,
)
    requires
        0 <= n <= outputs.len(),
    ensures
        read_outputs(values, outputs, n) matches Some(outs) ==> outs.len() == n,
    decreases n,
{
    if n > 0 {
        lemma_read_outputs_len(values, outputs, n - 1);
    }
}

/// The node after the first `k` steps of a lifted call on the rows.
pub open spec fn after_steps(cn: CNodeModel, rows: Seq<Seq<ValueModel>>, k: int) -> CNodeModel
    decreases k,
{
    if k <= 0 {
        cn
    } else {
        let before = after_steps(cn, rows, k - 1);
        match column_inputs(rows, k - 1, rows.len() as int) {
            Some(inputs) => before.after_step(inputs),
            None => before,
        }
    }
}

/// What step `k` of a lifted call gives out: the outputs of the node,
/// after the steps before, on item `k` of each row.
pub open spec fn step_result(cn: CNodeModel, rows: Seq<Seq<ValueModel>>, k: int) -> Option<
    Seq<ValueModel>,
> {
    match column_inputs(rows, k, rows.len() as int) {
        Some(inputs) => after_steps(cn, rows, k).step_outputs(inputs),
        None => None,
    }
}

/// Whether item `j` of each column is the output of step `j` for that column.
pub open spec fn holds_step(
    cn: CNodeModel,
    rows: Seq<Seq<ValueModel>>,
    columns: Seq<Seq<ValueModel>>,
    j: int,
) -> bool {
    match step_result(cn, rows, j) {
        Some(outs) => outs.len() == columns.len() && forall|i: int|
            0 <= i < columns.len() ==> (#[trigger] columns[i])[j] == outs[i],
        None => false,
    }
}

/// Whether the columns hold the outputs of the first `k` steps.
pub open spec fn records(
    cn: CNodeModel,
    rows: Seq<Seq<ValueModel>>,
    columns: Seq<Seq<ValueModel>>,
    k: int,
) -> bool {
    &&& k > 0 ==> columns.len() == cn.outputs.len()
    &&& k == 0 ==> columns.len() == 0
    &&& forall|i: int| 0 <= i < columns.len() ==> (#[trigger] columns[i]).len() == k
    &&& forall|j: int| 0 <= j < k ==> #[trigger] holds_step(cn, rows, columns, j)
}

/// The steps of a step-by-step run keep the output slots of the node.
pub proof fn lemma_after_steps_outputs(cn: CNodeModel, rows: Seq<Seq<ValueModel>>, k: int)
    ensures
        after_steps(cn, rows, k).outputs == cn.outputs,
    decreases k,
{
    if k > 0 {
        lemma_after_steps_outputs(cn, rows, k - 1);
    }
}

proof fn lemma_run_records(
    start: CNodeModel,
    rows: Seq<Seq<ValueModel>>,
    k: int,
    n: int,
    so_far: Seq<Seq<ValueModel>>,
    columns: Seq<Seq<ValueModel>>,
)
    requires
        0 <= k <= n,
        records(start, rows, so_far, k),
        run_columns(after_steps(start, rows, k), rows, k, n, so_far) == Some(columns),
    ensures
        records(start, rows, columns, n),
    decreases n - k,
{
    if k < n {
        let cn = after_steps(start, rows, k);
        let inputs = column_inputs(rows, k, rows.len() as int)->0;
        let outs = cn.step_outputs(inputs)->0;
        lemma_after_steps_outputs(start, rows, k);
        lemma_read_outputs_len(cn.after_step(inputs).values, cn.outputs, cn.outputs.len() as int);
        let next = extend_columns(so_far, outs);
        assert(after_steps(start, rows, k + 1) == cn.after_step(inputs));
        assert(step_result(start, rows, k) == Some(outs));
        assert forall|j: int| 0 <= j < k + 1 implies #[trigger] holds_step(
            start,
            rows,
            next,
            j,
        ) by {
            if j < k {
                assert(holds_step(start, rows, so_far, j));
                let o = step_result(start, rows, j)->0;
                assert forall|i: int| 0 <= i < next.len() implies (#[trigger] next[i])[j]
                    == o[i] by {
                    assert(next[i] == so_far[i].push(outs[i]));
                    assert(so_far[i][j] == o[i]);
                }
            }
        }
        lemma_run_records(start, rows, k + 1, n, next, columns);
    }
}

/// Lifting distributes over the call: a lifted call steps the node once
/// per item, on that item of each argument, and column `k` of each output
/// array is the output of step `k`.
pub proof fn lemma_lifted_call_steps_itemwise(
    cn: CNodeModel,
    rows: Seq<Seq<ValueModel>>,
    n: int,
    columns: Seq<Seq<ValueModel>>,
)
    requires
        0 <= n,
        run_columns(cn, rows, 0, n, Seq::empty()) == Some(columns),
    ensures
        forall|i: int| 0 <= i < columns.len() ==> (#[trigger] columns[i]).len() == n,
        forall|k: int| 0 <= k < n ==> #[trigger] holds_step(cn, rows, columns, k),
{
    lemma_run_records(cn, rows, 0, n, Seq::empty(), columns);
}

/// Where an operator applies to the first `n` pairs of two lists, it
/// applies to each of the pairs, with the results that the list holds.
pub proof fn lemma_apply_items(
    op: BinOp,
    l: Seq<ValueModel>,
    r: Seq<ValueModel>,
    instant: Option<Instant>,
    n: int,
)
    requires
        0 <= n <= l.len(),
        n <= r.len(),
        apply_items(op, l, r, instant, n) is Some,
    ensures
        apply_items(op, l, r, instant, n)->0.len() == n,
        forall|i: int|
            0 <= i < n ==> op.apply_spec(l[i], r[i], instant) == Some(
                #[trigger] apply_items(op, l, r, instant, n)->0[i],
            ),
    decreases n,
{
    if n > 0 {
        lemma_apply_items(op, l, r, instant, n - 1);
    }
}

/// The kinds of the items of a list of values.
pub proof fn lemma_item_kinds(items: Seq<ValueModel>, n: int)
    requires
        0 <= n <= items.len(),
    ensures
        item_kinds(items, n).len() == n,
        forall|i: int| 0 <= i < n ==> #[trigger] item_kinds(items, n)[i] == items[i].kind(),
    decreases n,
{
    if n > 0 {
        lemma_item_kinds(items, n - 1);
    }
}

/// Where the first `n` pairs of two lists of kinds merge, each pair merges.
pub proof fn lemma_merge_items(l: Seq<InnerTypeModel>, r: Seq<InnerTypeModel>, n: int)
    requires
        0 <= n <= l.len(),
        n <= r.len(),
        merge_items(l, r, n) is Some,
    ensures
        merge_items(l, r, n)->0.len() == n,
        forall|i: int|
            0 <= i < n ==> l[i].merge(r[i]) == Some(#[trigger] merge_items(l, r, n)->0[i]),
    decreases n,
{
    if n > 0 {
        lemma_merge_items(l, r, n - 1);
    }
}

/// An arithmetic operator keeps the kind: where it applies to two values
/// whose kinds merge, its result has the merged kind.
pub proof fn lemma_arithmetic_keeps_kind(
    op: BinOp,
    l: ValueModel,
    r: ValueModel,
    instant: Option<Instant>,
)
    requires
        op.is_arithmetic(),
        op.apply_spec(l, r, instant) is Some,
        l.kind().merge(r.kind()) is Some,
    ensures
        op.apply_spec(l, r, instant)->0.kind() == l.kind().merge(r.kind())->0,
    decreases l,
{
    match (l, r) {
        (ValueModel::Tuple(a), ValueModel::Tuple(b)) => {
            let n = a.len() as int;
            let s = apply_items(op, a, b, instant, n)->0;
            lemma_apply_items(op, a, b, instant, n);
            if n > 0 {
                let ka = item_kinds(a, n);
                let kb = item_kinds(b, n);
                lemma_item_kinds(a, n);
                lemma_item_kinds(b, n);
                lemma_item_kinds(s, n);
                lemma_merge_items(ka, kb, n);
                let merged = merge_items(ka, kb, n)->0;
                assert forall|i: int| 0 <= i < n implies item_kinds(s, n)[i] == merged[i] by {
                    assert(op.apply_spec(a[i], b[i], instant) == Some(s[i]));
                    assert(ka[i].merge(kb[i]) == Some(merged[i]));
                    lemma_arithmetic_keeps_kind(op, a[i], b[i], instant);
                }
                assert(item_kinds(s, n) =~= merged);
            }
            assert(a.len() == b.len());
            assert(s.len() == n);
            assert(op.apply_spec(l, r, instant)->0 == ValueModel::Tuple(s));
            assert(ValueModel::Tuple(s).kind() == l.kind().merge(r.kind())->0);
        },
        (ValueModel::Array(a), ValueModel::Array(b)) => {
            let n = a.len() as int;
            let s = apply_items(op, a, b, instant, n)->0;
            lemma_apply_items(op, a, b, instant, n);
            if n > 0 {
                assert(op.apply_spec(a[0], b[0], instant) == Some(s[0]));
                lemma_arithmetic_keeps_kind(op, a[0], b[0], instant);
            }
            assert(a.len() == b.len());
            assert(s.len() == n);
            assert(InnerTypeModel::Unit.merge(InnerTypeModel::Unit) == Some(InnerTypeModel::Unit));
            assert(InferLen::Known(n as usize).merge_spec(InferLen::Known(n as usize)) == Some(
                InferLen::Known(n as usize),
            ));
            assert(op.apply_spec(l, r, instant)->0 == ValueModel::Array(s));
            assert(ValueModel::Array(s).kind() == l.kind().merge(r.kind())->0);
        },
        _ => {},
    }
}

/// A comparison that applies gives a boolean.
pub proof fn lemma_comparison_is_boolean(
    op: BinOp,
    l: ValueModel,
    r: ValueModel,
    instant: Option<Instant>,
)
    requires
        op.is_comparison(),
        op.apply_spec(l, r, instant) is Some,
    ensures
        op.apply_spec(l, r, instant)->0 is Bool,
{
}

/// Constant folding of a binary operation keeps the type: where the
/// operator applies to two values without an instant and the operation
/// has a type, the result has that type. `or` and `and` are meant on
/// booleans: on tuples and arrays they apply item by item, while the type
/// of the operation is boolean.
pub proof fn lemma_folded_operation_keeps_type(
    op: BinOp,
    span_op: SpanModel,
    l: ValueModel,
    r: ValueModel,
)
    requires
        op.apply_spec(l, r, None) is Some,
        binary_type(op, span_op, l.type_of(), r.type_of()) is Ok,
        (op == BinOp::Or || op == BinOp::And) ==> l is Bool,
    ensures
        op.apply_spec(l, r, None)->0.type_of() == binary_type(
            op,
            span_op,
            l.type_of(),
            r.type_of(),
        )->Ok_0,
{
    if op.is_arithmetic() {
        lemma_arithmetic_keeps_kind(op, l, r, None);
    } else if op.is_comparison() {
        lemma_comparison_is_boolean(op, l, r, None);
    }
}

/// Constant folding is type-preserving on an operation on two literals:
/// where the operation has a type and what it folds to has a type, the
/// two types are the same. `or` and `and` are meant on booleans.
pub proof fn lemma_folding_keeps_type(
    ctx: Ctx,
    checking: Checking,
    folding: Folding,
    op: BinOp,
    span_op: SpanModel,
    l: ValueModel,
    r: ValueModel,
)
    requires
        (op == BinOp::Or || op == BinOp::And) ==> l is Bool,
    ensures
        ({
            let e = ExprModel::BinOp {
                lhs: Box::new(ExprModel::Lit(l)),
                op,
                span_op,
                rhs: Box::new(ExprModel::Lit(r)),
            };
            let folded = fold_expr(ctx, folding, e).1;
            type_expr(ctx, checking, e).1 is Some && type_expr(ctx, checking, folded).1 is Some
                ==> type_expr(ctx, checking, folded).1 == type_expr(ctx, checking, e).1
        }),
{
    let e = ExprModel::BinOp {
        lhs: Box::new(ExprModel::Lit(l)),
        op,
        span_op,
        rhs: Box::new(ExprModel::Lit(r)),
    };
    let folded = fold_expr(ctx, folding, e).1;
    assert(ExprModel::Lit(l).value() == Some(l));
    assert(ExprModel::Lit(r).value() == Some(r));
    assert(fold_expr(ctx, folding, ExprModel::Lit(l)) == (folding, ExprModel::Lit(l)));
    assert(fold_expr(ctx, folding.capped(folding.budget), ExprModel::Lit(r)) == (
        folding.capped(folding.budget),
        ExprModel::Lit(r),
    ));
    assert(type_expr(ctx, checking, ExprModel::Lit(l)) == (checking, Some(l.type_of())));
    assert(type_expr(ctx, checking.capped(checking.budget), ExprModel::Lit(r)) == (
        checking.capped(checking.budget),
        Some(r.type_of()),
    ));
    if op.apply_spec(l, r, None) is Some {
        let v = op.apply_spec(l, r, None)->0;
        assert(type_expr(ctx, checking, ExprModel::Lit(v)) == (checking, Some(v.type_of())));
        assert(folded == ExprModel::Lit(op.apply_spec(l, r, None)->0));
        if type_expr(ctx, checking, e).1 is Some {
            assert(binary_type(op, span_op, l.type_of(), r.type_of()) is Ok);
            lemma_folded_operation_keeps_type(op, span_op, l, r);
        }
    } else {
        assert(folded == e);
    }
}

/// Where an operator applies to the first `n` values of a list, it
/// applies to each of them, with the results that the list holds.
pub proof fn lemma_apply_unary_items(op: UnaryOp, l: Seq<ValueModel>, instant: Option<Instant>, n: int)
    requires
        0 <= n <= l.len(),
        apply_unary_items(op, l, instant, n) is Some,
    ensures
        apply_unary_items(op, l, instant, n)->0.len() == n,
        forall|i: int|
            0 <= i < n ==> op.apply_spec(l[i], instant) == Some(
                #[trigger] apply_unary_items(op, l, instant, n)->0[i],
            ),
    decreases n,
{
    if n > 0 {
        lemma_apply_unary_items(op, l, instant, n - 1);
    }
}

/// Constant folding of a unary operation keeps the type: where the
/// operator applies to a value, the result has the kind of the value.
pub proof fn lemma_folded_unary_keeps_type(op: UnaryOp, span_op: SpanModel, v: ValueModel)
    requires
        op.apply_spec(v, None) is Some,
    ensures
        unary_type(op, span_op, v.type_of()) == Ok::<VarTypeModel, crate::diagnostic::DiagnosticModel>(
            op.apply_spec(v, None)->0.type_of(),
        ),
    decreases v,
{
    match v {
        ValueModel::Tuple(a) => {
            let n = a.len() as int;
            let s = apply_unary_items(op, a, None, n)->0;
            lemma_apply_unary_items(op, a, None, n);
            lemma_item_kinds(a, n);
            lemma_item_kinds(s, n);
            assert forall|i: int| 0 <= i < n implies item_kinds(s, n)[i] == item_kinds(a, n)[i] by {
                assert(op.apply_spec(a[i], None) == Some(s[i]));
                lemma_folded_unary_keeps_type(op, span_op, a[i]);
            }
            assert(item_kinds(s, n) =~= item_kinds(a, n));
        },
        ValueModel::Array(a) => {
            let n = a.len() as int;
            let s = apply_unary_items(op, a, None, n)->0;
            lemma_apply_unary_items(op, a, None, n);
            if n > 0 {
                assert(op.apply_spec(a[0], None) == Some(s[0]));
                lemma_folded_unary_keeps_type(op, span_op, a[0]);
            }
        },
        _ => {},
    }
}

} // verus!
