//! Constant folding keeps the types of closed expressions: expressions
//! that hold no variable and no call.
use vstd::prelude::*;
use crate::ast::{ExprModel, values_upto};
use crate::check_model::{
    Checking, Ctx, binary_type, type_array, type_expr, type_tuple, unary_type,
};
use crate::ops::BinOp;
use crate::propagate_model::{Folding, fold_expr, fold_items};
use crate::types::{InferLen, InnerTypeModel, VarTypeModel};
use crate::value::{ValueModel, item_kinds};

verus! {

/// Whether an expression is closed: made of literals, operators, `if`,
/// arrays and tuples of at least one item, without a variable or a call.
pub open spec fn closed(e: ExprModel) -> bool
    decreases e,
{
    match e {
        ExprModel::Lit(_) => true,
        ExprModel::BinOp { lhs, op, span_op, rhs } => closed(*lhs) && closed(*rhs),
        ExprModel::UnaryOp { op, span_op, rhs } => closed(*rhs),
        ExprModel::If { cond, yes, no } => closed(*cond) && closed(*yes) && closed(*no),
        ExprModel::Tuple(items) => items.len() > 0 && forall|i: int|
            0 <= i < items.len() ==> closed(#[trigger] items[i]),
        ExprModel::Array(items) => forall|i: int|
            0 <= i < items.len() ==> closed(#[trigger] items[i]),
        _ => false,
    }
}

/// A state of the type checker that knows no name.
pub open spec fn blank() -> Checking {
    Checking { locals: Seq::empty(), diags: Seq::empty(), budget: 0 }
}

/// The type of a closed expression, which no state of the check bears on.
pub open spec fn type_of(ctx: Ctx, e: ExprModel) -> Option<VarTypeModel> {
    type_expr(ctx, blank(), e).1
}

/// The type of an array from the types of its items, from item `k` on.
pub open spec fn array_type(
    types: Seq<Option<VarTypeModel>>,
    k: int,
    first: Option<VarTypeModel>,
    initialized: bool,
) -> Option<VarTypeModel>
    decreases types.len() - k,
{
    if k < 0 || k >= types.len() {
        Some(
            VarTypeModel {
                inner: InnerTypeModel::Array {
                    t: Box::new(
                        match first {
                            Some(t) => t.inner,
                            None => InnerTypeModel::Unit,
                        },
                    ),
                    len: InferLen::Known(types.len() as usize),
                },
                initialized,
            },
        )
    } else {
        match types[k] {
            None => None,
            Some(t) => match first {
                None => array_type(types, k + 1, Some(t), initialized && t.initialized),
                Some(f) => if t.equal_without_pre(f) {
                    array_type(types, k + 1, first, initialized && t.initialized)
                } else {
                    None
                },
            },
        }
    }
}

/// The type of a tuple from the types of its items, from item `k` on.
pub open spec fn tuple_type(
    types: Seq<Option<VarTypeModel>>,
    k: int,
    kinds: Seq<InnerTypeModel>,
    initialized: bool,
) -> Option<VarTypeModel>
    decreases types.len() - k,
{
    if k < 0 || k >= types.len() {
        Some(VarTypeModel { inner: InnerTypeModel::Tuple(kinds), initialized })
    } else {
        match types[k] {
            None => None,
            Some(t) => tuple_type(types, k + 1, kinds.push(t.inner), initialized && t.initialized),
        }
    }
}

/// The types of the items of a list of closed expressions.
pub open spec fn types_of(ctx: Ctx, items: Seq<ExprModel>) -> Seq<Option<VarTypeModel>> {
    Seq::new(items.len(), |i: int| type_of(ctx, items[i]))
}

/// The type of a closed expression is the same in every state of the check.
pub proof fn lemma_closed_type(ctx: Ctx, st: Checking, e: ExprModel)
    requires
        closed(e),
    ensures
        type_expr(ctx, st, e).1 == type_of(ctx, e),
    decreases e, 0int,
{
    match e {
        ExprModel::BinOp { lhs, op, span_op, rhs } => {
            lemma_closed_type(ctx, st, *lhs);
            let st1 = type_expr(ctx, st, *lhs).0;
            let b1 = type_expr(ctx, blank(), *lhs).0;
            lemma_closed_type(ctx, st1.capped(st.budget), *rhs);
            lemma_closed_type(ctx, b1.capped(blank().budget), *rhs);
        },
        ExprModel::UnaryOp { op, span_op, rhs } => {
            lemma_closed_type(ctx, st, *rhs);
        },
        ExprModel::If { cond, yes, no } => {
            lemma_closed_type(ctx, st, *cond);
            let st1 = type_expr(ctx, st, *cond).0;
            let b1 = type_expr(ctx, blank(), *cond).0;
            lemma_closed_type(ctx, st1.capped(st.budget), *yes);
            lemma_closed_type(ctx, b1.capped(blank().budget), *yes);
            let st2 = type_expr(ctx, st1.capped(st.budget), *yes).0;
            let b2 = type_expr(ctx, b1.capped(blank().budget), *yes).0;
            lemma_closed_type(ctx, st2.capped(st.budget), *no);
            lemma_closed_type(ctx, b2.capped(blank().budget), *no);
        },
        ExprModel::Array(items) => {
            lemma_closed_array(ctx, st, items, 0, None, true);
            lemma_closed_array(ctx, blank(), items, 0, None, true);
        },
        ExprModel::Tuple(items) => {
            lemma_closed_tuple(ctx, st, items, 0, Seq::empty(), true);
            lemma_closed_tuple(ctx, blank(), items, 0, Seq::empty(), true);
        },
        _ => {},
    }
}

/// The type of an array of closed expressions follows from the types of
/// its items.
pub proof fn lemma_closed_array(
    ctx: Ctx,
    st: Checking,
    items: Seq<ExprModel>,
    k: int,
    first: Option<VarTypeModel>,
    initialized: bool,
)
    requires
        0 <= k,
        forall|i: int| 0 <= i < items.len() ==> closed(#[trigger] items[i]),
    ensures
        type_array(ctx, st, items, k, first, initialized).1 == array_type(
            types_of(ctx, items),
            k,
            first,
            initialized,
        ),
    decreases items, items.len() - k,
{
    if k < items.len() {
        lemma_closed_type(ctx, st, items[k]);
        let (st1, t) = type_expr(ctx, st, items[k]);
        assert(types_of(ctx, items)[k] == t);
        match t {
            None => {},
            Some(t) => match first {
                None => {
                    lemma_closed_array(
                        ctx,
                        st1.capped(st.budget),
                        items,
                        k + 1,
                        Some(t),
                        initialized && t.initialized,
                    );
                },
                Some(f) => {
                    if t.equal_without_pre(f) {
                        lemma_closed_array(
                            ctx,
                            st1.capped(st.budget),
                            items,
                            k + 1,
                            first,
                            initialized && t.initialized,
                        );
                    }
                },
            },
        }
    }
}

/// The type of a tuple of closed expressions follows from the types of
/// its items.
pub proof fn lemma_closed_tuple(
    ctx: Ctx,
    st: Checking,
    items: Seq<ExprModel>,
    k: int,
    kinds: Seq<InnerTypeModel>,
    initialized: bool,
)
    requires
        0 <= k,
        forall|i: int| 0 <= i < items.len() ==> closed(#[trigger] items[i]),
    ensures
        type_tuple(ctx, st, items, k, kinds, initialized).1 == tuple_type(
            types_of(ctx, items),
            k,
            kinds,
            initialized,
        ),
    decreases items, items.len() - k,
{
    if k < items.len() {
        lemma_closed_type(ctx, st, items[k]);
        let (st1, t) = type_expr(ctx, st, items[k]);
        assert(types_of(ctx, items)[k] == t);
        match t {
            None => {},
            Some(t) => {
                lemma_closed_tuple(
                    ctx,
                    st1.capped(st.budget),
                    items,
                    k + 1,
                    kinds.push(t.inner),
                    initialized && t.initialized,
                );
            },
        }
    }
}

/// A state of the folding that has looked at nothing.
pub open spec fn untouched() -> Folding {
    Folding { equations: Seq::empty(), seen: Seq::empty(), hints: Seq::empty(), budget: 0 }
}

/// What a closed expression folds to, which no state of the folding
/// bears on.
pub open spec fn fold_of(ctx: Ctx, e: ExprModel) -> ExprModel {
    fold_expr(ctx, untouched(), e).1
}

/// What the items of a list of closed expressions fold to.
pub open spec fn folded(ctx: Ctx, items: Seq<ExprModel>) -> Seq<ExprModel> {
    Seq::new(items.len(), |i: int| fold_of(ctx, items[i]))
}

/// A closed expression folds to the same in every state of the folding.
pub proof fn lemma_closed_fold(ctx: Ctx, f: Folding, e: ExprModel)
    requires
        closed(e),
    ensures
        fold_expr(ctx, f, e).1 == fold_of(ctx, e),
    decreases e, 0int,
{
    match e {
        ExprModel::BinOp { lhs, op, span_op, rhs } => {
            lemma_closed_fold(ctx, f, *lhs);
            let f1 = fold_expr(ctx, f, *lhs).0;
            let u1 = fold_expr(ctx, untouched(), *lhs).0;
            lemma_closed_fold(ctx, f1.capped(f.budget), *rhs);
            lemma_closed_fold(ctx, u1.capped(untouched().budget), *rhs);
        },
        ExprModel::UnaryOp { op, span_op, rhs } => {
            lemma_closed_fold(ctx, f, *rhs);
        },
        ExprModel::Array(items) => {
            lemma_closed_fold_items(ctx, f, items, 0, Seq::empty());
            lemma_closed_fold_items(ctx, untouched(), items, 0, Seq::empty());
        },
        ExprModel::Tuple(items) => {
            lemma_closed_fold_items(ctx, f, items, 0, Seq::empty());
            lemma_closed_fold_items(ctx, untouched(), items, 0, Seq::empty());
        },
        _ => {},
    }
}

/// The items of a list of closed expressions fold one by one.
pub proof fn lemma_closed_fold_items(
    ctx: Ctx,
    f: Folding,
    items: Seq<ExprModel>,
    k: int,
    done: Seq<ExprModel>,
)
    requires
        0 <= k <= items.len(),
        forall|i: int| 0 <= i < items.len() ==> closed(#[trigger] items[i]),
    ensures
        fold_items(ctx, f, items, k, done).1 == done + folded(ctx, items).subrange(
            k,
            items.len() as int,
        ),
    decreases items, items.len() - k,
{
    let rest = folded(ctx, items).subrange(k, items.len() as int);
    if k < items.len() {
        lemma_closed_fold(ctx, f, items[k]);
        let (f1, e) = fold_expr(ctx, f, items[k]);
        lemma_closed_fold_items(ctx, f1.capped(f.budget), items, k + 1, done.push(e));
        assert(done.push(e) + folded(ctx, items).subrange(k + 1, items.len() as int) =~= done
            + rest);
    } else {
        assert(done + rest =~= done);
    }
}

/// Where the first `n` expressions of a list have values, each has the
/// value that the list of values holds.
pub proof fn lemma_values_upto(items: Seq<ExprModel>, n: int)
    requires
        0 <= n <= items.len(),
        values_upto(items, n) is Some,
    ensures
        values_upto(items, n)->0.len() == n,
        forall|i: int|
            0 <= i < n ==> (#[trigger] items[i]).value() == Some(values_upto(items, n)->0[i]),
    decreases n,
{
    if n > 0 {
        lemma_values_upto(items, n - 1);
    }
}

/// Where a tuple has a type, each of its items from `k` on has one, and
/// the type of the tuple is made of the kinds of the items.
pub proof fn lemma_tuple_type(
    types: Seq<Option<VarTypeModel>>,
    k: int,
    kinds: Seq<InnerTypeModel>,
    initialized: bool,
)
    requires
        0 <= k <= types.len(),
        tuple_type(types, k, kinds, initialized) is Some,
    ensures
        forall|i: int| k <= i < types.len() ==> (#[trigger] types[i]) is Some,
        tuple_type(types, k, kinds, initialized)->0.inner == InnerTypeModel::Tuple(
            kinds + Seq::new((types.len() - k) as nat, |j: int| types[k + j]->0.inner),
        ),
        tuple_type(types, k, kinds, initialized)->0.initialized == (initialized && forall|i: int|
            k <= i < types.len() ==> (#[trigger] types[i])->0.initialized),
    decreases types.len() - k,
{
    let tail = Seq::new((types.len() - k) as nat, |j: int| types[k + j]->0.inner);
    if k < types.len() {
        let t = types[k]->0;
        lemma_tuple_type(types, k + 1, kinds.push(t.inner), initialized && t.initialized);
        let next = Seq::new((types.len() - k - 1) as nat, |j: int| types[k + 1 + j]->0.inner);
        assert(kinds.push(t.inner) + next =~= kinds + tail);
    } else {
        assert(kinds + tail =~= kinds);
    }
}

/// Where an array has a type, each of its items from `k` on has one, all
/// of the kind of the first, and the type of the array is that kind with
/// the number of the items.
pub proof fn lemma_array_type(
    types: Seq<Option<VarTypeModel>>,
    k: int,
    first: Option<VarTypeModel>,
    initialized: bool,
)
    requires
        0 <= k <= types.len(),
        array_type(types, k, first, initialized) is Some,
    ensures
        forall|i: int| k <= i < types.len() ==> (#[trigger] types[i]) is Some,
        array_type(types, k, first, initialized)->0.inner == (InnerTypeModel::Array {
            t: Box::new(
                match first {
                    Some(f) => f.inner,
                    None => if k < types.len() {
                        types[k]->0.inner
                    } else {
                        InnerTypeModel::Unit
                    },
                },
            ),
            len: InferLen::Known(types.len() as usize),
        }),
        array_type(types, k, first, initialized)->0.initialized == (initialized && forall|i: int|
            k <= i < types.len() ==> (#[trigger] types[i])->0.initialized),
    decreases types.len() - k,
{
    if k < types.len() {
        let t = types[k]->0;
        match first {
            None => {
                lemma_array_type(types, k + 1, Some(t), initialized && t.initialized);
            },
            Some(f) => {
                lemma_array_type(types, k + 1, first, initialized && t.initialized);
            },
        }
    }
}

/// A value of the kind of booleans is a boolean.
pub proof fn lemma_boolean_kind(v: ValueModel)
    requires
        v.kind() == InnerTypeModel::Bool,
    ensures
        v is Bool,
{
}

/// A closed constant has the type of its value: where a closed
/// expression has a value and a type, the type is that of the value.
pub proof fn lemma_constant_type(ctx: Ctx, c: ExprModel)
    requires
        closed(c),
        c.value() is Some,
        type_of(ctx, c) is Some,
    ensures
        type_of(ctx, c) == Some(c.value()->0.type_of()),
    decreases c,
{
    match c {
        ExprModel::Tuple(items) => {
            let n = items.len() as int;
            let vals = values_upto(items, n)->0;
            let types = types_of(ctx, items);
            lemma_values_upto(items, n);
            lemma_closed_tuple(ctx, blank(), items, 0, Seq::empty(), true);
            lemma_tuple_type(types, 0, Seq::empty(), true);
            crate::laws::lemma_item_kinds(vals, n);
            assert forall|i: int| 0 <= i < n implies types[i] == Some(vals[i].type_of()) by {
                assert(types[i] is Some);
                assert(items[i].value() == Some(vals[i]));
                lemma_constant_type(ctx, items[i]);
            }
            let kinds = Seq::new(n as nat, |j: int| types[0 + j]->0.inner);
            assert(Seq::<InnerTypeModel>::empty() + kinds =~= item_kinds(vals, n));
        },
        ExprModel::Array(items) => {
            let n = items.len() as int;
            let vals = values_upto(items, n)->0;
            let types = types_of(ctx, items);
            lemma_values_upto(items, n);
            lemma_closed_array(ctx, blank(), items, 0, None, true);
            lemma_array_type(types, 0, None, true);
            assert forall|i: int| 0 <= i < n implies types[i] == Some(vals[i].type_of()) by {
                assert(types[i] is Some);
                assert(items[i].value() == Some(vals[i]));
                lemma_constant_type(ctx, items[i]);
            }
        },
        _ => {},
    }
}

/// Whether `or` and `and` stand on booleans only: the left operand of
/// each has, where it has a type, the kind of booleans.
pub open spec fn logic_on_booleans(ctx: Ctx, e: ExprModel) -> bool
    decreases e,
{
    match e {
        ExprModel::BinOp { lhs, op, span_op, rhs } => {
            &&& logic_on_booleans(ctx, *lhs)
            &&& logic_on_booleans(ctx, *rhs)
            &&& (op == BinOp::Or || op == BinOp::And) ==> (type_of(ctx, *lhs) matches Some(t)
                ==> t.inner == InnerTypeModel::Bool)
        },
        ExprModel::UnaryOp { op, span_op, rhs } => logic_on_booleans(ctx, *rhs),
        ExprModel::If { cond, yes, no } => logic_on_booleans(ctx, *cond) && logic_on_booleans(
            ctx,
            *yes,
        ) && logic_on_booleans(ctx, *no),
        ExprModel::Tuple(items) => forall|i: int|
            0 <= i < items.len() ==> logic_on_booleans(ctx, #[trigger] items[i]),
        ExprModel::Array(items) => forall|i: int|
            0 <= i < items.len() ==> logic_on_booleans(ctx, #[trigger] items[i]),
        _ => true,
    }
}

/// Constant folding is type-preserving on closed expressions: a closed
/// expression that has a type folds to a closed expression of the same
/// type, if its `or` and `and` stand on booleans.
pub proof fn lemma_folding_keeps_type_of_closed(ctx: Ctx, e: ExprModel)
    requires
        closed(e),
        logic_on_booleans(ctx, e),
        type_of(ctx, e) is Some,
    ensures
        closed(fold_of(ctx, e)),
        type_of(ctx, fold_of(ctx, e)) == type_of(ctx, e),
    decreases e,
{
    match e {
        ExprModel::BinOp { lhs, op, span_op, rhs } => {
            let (s1, lt) = type_expr(ctx, blank(), *lhs);
            lemma_closed_type(ctx, s1.capped(blank().budget), *rhs);
            assert(lt is Some);
            assert(type_of(ctx, *rhs) is Some);
            let tl = lt->0;
            let tr = type_of(ctx, *rhs)->0;
            assert(binary_type(op, span_op, tl, tr) is Ok);
            lemma_folding_keeps_type_of_closed(ctx, *lhs);
            lemma_folding_keeps_type_of_closed(ctx, *rhs);
            let l = fold_of(ctx, *lhs);
            let r = fold_of(ctx, *rhs);
            let f1 = fold_expr(ctx, untouched(), *lhs).0;
            lemma_closed_fold(ctx, f1.capped(untouched().budget), *rhs);
            let rebuilt = ExprModel::BinOp { lhs: Box::new(l), op, span_op, rhs: Box::new(r) };
            let applied = match (l.value(), r.value()) {
                (Some(lv), Some(rv)) => op.apply_spec(lv, rv, None),
                _ => None,
            };
            if applied is Some {
                let lv = l.value()->0;
                let rv = r.value()->0;
                let v = applied->0;
                assert(fold_of(ctx, e) == ExprModel::Lit(v));
                lemma_constant_type(ctx, l);
                lemma_constant_type(ctx, r);
                if op == BinOp::Or || op == BinOp::And {
                    lemma_boolean_kind(lv);
                }
                crate::laws::lemma_folded_operation_keeps_type(op, span_op, lv, rv);
                assert(type_expr(ctx, blank(), ExprModel::Lit(v)).1 == Some(v.type_of()));
            } else {
                assert(fold_of(ctx, e) == rebuilt);
                let (b1, lt2) = type_expr(ctx, blank(), l);
                lemma_closed_type(ctx, b1.capped(blank().budget), r);
                assert(type_of(ctx, rebuilt) == type_of(ctx, e));
            }
        },
        ExprModel::UnaryOp { op, span_op, rhs } => {
            assert(type_of(ctx, *rhs) is Some);
            let t = type_of(ctx, *rhs)->0;
            lemma_folding_keeps_type_of_closed(ctx, *rhs);
            let r = fold_of(ctx, *rhs);
            let rebuilt = ExprModel::UnaryOp { op, span_op, rhs: Box::new(r) };
            let applied = match r.value() {
                Some(rv) => op.apply_spec(rv, None),
                None => None,
            };
            if applied is Some {
                let rv = r.value()->0;
                let v = applied->0;
                assert(fold_of(ctx, e) == ExprModel::Lit(v));
                lemma_constant_type(ctx, r);
                crate::laws::lemma_folded_unary_keeps_type(op, span_op, rv);
                assert(type_expr(ctx, blank(), ExprModel::Lit(v)).1 == Some(v.type_of()));
            } else {
                assert(fold_of(ctx, e) == rebuilt);
                assert(type_of(ctx, rebuilt) == type_of(ctx, e));
            }
        },
        ExprModel::Tuple(items) => {
            let types = types_of(ctx, items);
            lemma_closed_tuple(ctx, blank(), items, 0, Seq::empty(), true);
            lemma_tuple_type(types, 0, Seq::empty(), true);
            lemma_closed_fold_items(ctx, untouched(), items, 0, Seq::empty());
            let after = folded(ctx, items);
            assert(Seq::<ExprModel>::empty() + after.subrange(0, items.len() as int) =~= after);
            assert(fold_of(ctx, e) == ExprModel::Tuple(after));
            assert forall|i: int| 0 <= i < items.len() implies closed(#[trigger] after[i])
                && type_of(ctx, after[i]) == types[i] by {
                assert(types[i] is Some);
                lemma_folding_keeps_type_of_closed(ctx, items[i]);
            }
            assert(types_of(ctx, after) =~= types);
            lemma_closed_tuple(ctx, blank(), after, 0, Seq::empty(), true);
        },
        ExprModel::Array(items) => {
            let types = types_of(ctx, items);
            lemma_closed_array(ctx, blank(), items, 0, None, true);
            lemma_array_type(types, 0, None, true);
            lemma_closed_fold_items(ctx, untouched(), items, 0, Seq::empty());
            let after = folded(ctx, items);
            assert(Seq::<ExprModel>::empty() + after.subrange(0, items.len() as int) =~= after);
            assert(fold_of(ctx, e) == ExprModel::Array(after));
            assert forall|i: int| 0 <= i < items.len() implies closed(#[trigger] after[i])
                && type_of(ctx, after[i]) == types[i] by {
                assert(types[i] is Some);
                lemma_folding_keeps_type_of_closed(ctx, items[i]);
            }
            assert(types_of(ctx, after) =~= types);
            lemma_closed_array(ctx, blank(), after, 0, None, true);
        },
        _ => {},
    }
}

} // verus!
