//! The mathematical model of constant propagation.
use vstd::prelude::*;
use crate::ast::{AstModel, ExprModel, NodeModel};
use crate::check_model::Ctx;
use crate::compile_model::find_equation;
use crate::diagnostic::{HintKind, HintModel};
use crate::function_type::FunctionCallType;
use crate::messages::value_label;
use crate::node_model::CNodeModel;
use crate::span::SpanModel;
use crate::value::{ValueModel, unwrap_arrays};

verus! {

/// The state of the folding of one node: the equations of the new node
/// so far, what each name that was looked at folds to, the hints so far,
/// and how many equations may still be opened.
pub struct Folding {
    pub equations: Seq<(SpanModel, ExprModel)>,
    pub seen: Seq<(Seq<char>, Option<ValueModel>)>,
    pub hints: Seq<HintModel>,
    pub budget: nat,
}

/// The position of the first entry from `from` on for the name.
pub open spec fn find_seen(seen: Seq<(Seq<char>, Option<ValueModel>)>, name: Seq<char>, from: int) -> Option<
    int,
>
    decreases seen.len() - from,
{
    if from < 0 || from >= seen.len() {
        None
    } else if seen[from].0 == name {
        Some(from)
    } else {
        find_seen(seen, name, from + 1)
    }
}

/// The hint that shows the value of an equation after its semicolon.
pub open spec fn value_hint(semicolon: SpanModel, v: ValueModel) -> HintModel {
    HintModel { position: semicolon.position_end(), label: value_label(v), kind: HintKind::Value }
}

impl Folding {
    /// The state with its budget no higher than `bound`.
    pub open spec fn capped(self, bound: nat) -> Folding {
        Folding {
            budget: if self.budget <= bound {
                self.budget
            } else {
                bound
            },
            ..self
        }
    }

    /// The state in which `name` folds to `v`.
    pub open spec fn mark(self, name: Seq<char>, v: Option<ValueModel>) -> Folding {
        Folding {
            seen: match find_seen(self.seen, name, 0) {
                Some(i) => self.seen.update(i, (name, v)),
                None => self.seen.push((name, v)),
            },
            ..self
        }
    }

    /// The state with one more equation in the new node.
    pub open spec fn keep(self, name: SpanModel, e: ExprModel) -> Folding {
        Folding { equations: self.equations.push((name, e)), ..self }
    }

    /// The state with a value hint for equation `i` of the node, if the
    /// node has the span of its semicolon.
    pub open spec fn show(self, node: NodeModel, i: int, v: ValueModel) -> Folding {
        if 0 <= i < node.span_semicolon_equations.len() {
            Folding {
                hints: self.hints.push(value_hint(node.span_semicolon_equations[i], v)),
                ..self
            }
        } else {
            self
        }
    }
}

/// The inputs of step `k` of a lifted call: item `k` of each of the first
/// `n` rows, or `None` when one of them has no such item.
pub open spec fn column_inputs(rows: Seq<Seq<ValueModel>>, k: int, n: int) -> Option<Seq<ValueModel>>
    decreases n,
{
    if n <= 0 || n > rows.len() {
        Some(Seq::empty())
    } else {
        match column_inputs(rows, k, n - 1) {
            Some(s) => if 0 <= k < rows[n - 1].len() {
                Some(s.push(rows[n - 1][k]))
            } else {
                None
            },
            None => None,
        }
    }
}

/// The columns with the outputs of one more step: output `i` is added to
/// column `i`.
pub open spec fn extend_columns(columns: Seq<Seq<ValueModel>>, outs: Seq<ValueModel>) -> Seq<
    Seq<ValueModel>,
> {
    Seq::new(
        outs.len(),
        |i: int|
            if i < columns.len() {
                columns[i].push(outs[i])
            } else {
                seq![outs[i]]
            },
    )
}

/// The columns of outputs after the steps from `k` up to `n` of a lifted
/// call, or `None` when a step has no inputs or gives no outputs.
pub open spec fn run_columns(
    cn: CNodeModel,
    rows: Seq<Seq<ValueModel>>,
    k: int,
    n: int,
    columns: Seq<Seq<ValueModel>>,
) -> Option<Seq<Seq<ValueModel>>>
    decreases n - k,
{
    if k < 0 || k >= n {
        Some(columns)
    } else {
        match column_inputs(rows, k, rows.len() as int) {
            None => None,
            Some(inputs) => match cn.step_outputs(inputs) {
                None => None,
                Some(outs) => run_columns(
                    cn.after_step(inputs),
                    rows,
                    k + 1,
                    n,
                    extend_columns(columns, outs),
                ),
            },
        }
    }
}

/// Each column as an array.
pub open spec fn as_arrays(columns: Seq<Seq<ValueModel>>) -> Seq<ValueModel> {
    Seq::new(columns.len(), |i: int| ValueModel::Array(columns[i]))
}

impl AstModel {
    /// The value of a call of the node `name` on constant arguments: the
    /// node is compiled and stepped, once on the arguments of a simple
    /// call, once per item on the items of the arrays of a lifted call,
    /// whose outputs are gathered in one array per output. `None` where
    /// the node does not exist, the arguments do not fit, the node does
    /// not compile or a step gives no outputs.
    pub open spec fn call_value(self, name: Seq<char>, inputs: Seq<ValueModel>) -> Option<ValueModel> {
        match self.find_node(name, 0) {
            None => None,
            Some(i) => match (self.nodes[i].signature().call_type(inputs), self.compiled(name)) {
                (Some(FunctionCallType::Simple), Ok(cn)) => match cn.step_outputs(inputs) {
                    Some(outs) => Some(ValueModel::tuple_from_seq(outs)),
                    None => None,
                },
                (Some(FunctionCallType::Array), Ok(cn)) => match unwrap_arrays(
                    inputs,
                    inputs.len() as int,
                ) {
                    Some(rows) => if rows.len() == 0 {
                        None
                    } else {
                        match run_columns(cn, rows, 0, rows[0].len() as int, Seq::empty()) {
                            Some(columns) => Some(ValueModel::tuple_from_seq(as_arrays(columns))),
                            None => None,
                        }
                    },
                    None => None,
                },
                _ => None,
            },
        }
    }
}

/// Whether a call has no argument but unit, which is not folded.
pub open spec fn only_unit(args: Seq<ExprModel>) -> bool {
    args.len() == 1 && args[0] == ExprModel::lit_unit()
}

/// What folding an expression gives: the new state and the expression.
pub type Folded = (Folding, ExprModel);

/// An expression with its constant parts folded.
///
/// An operation whose operands fold to values and to which the operator
/// applies without an instant becomes the literal of the result; else it
/// is rebuilt over the folded operands. The items of a tuple or array are
/// folded. A call whose arguments all fold to values, and are not just
/// unit, becomes the literal of its value where it has one. A variable
/// whose equation folds to a value becomes that literal. `if` and
/// literals are left as they are.
pub open spec fn fold_expr(ctx: Ctx, st: Folding, e: ExprModel) -> Folded
    decreases st.budget, 1int, e, 0int,
{
    match e {
        ExprModel::BinOp { lhs, op, span_op, rhs } => {
            let (st1, l) = fold_expr(ctx, st, *lhs);
            let (st2, r) = fold_expr(ctx, st1.capped(st.budget), *rhs);
            let rebuilt = ExprModel::BinOp { lhs: Box::new(l), op, span_op, rhs: Box::new(r) };
            match (l.value(), r.value()) {
                (Some(lv), Some(rv)) => match op.apply_spec(lv, rv, None) {
                    Some(v) => (st2, ExprModel::Lit(v)),
                    None => (st2, rebuilt),
                },
                _ => (st2, rebuilt),
            }
        },
        ExprModel::UnaryOp { op, span_op, rhs } => {
            let (st1, r) = fold_expr(ctx, st, *rhs);
            let rebuilt = ExprModel::UnaryOp { op, span_op, rhs: Box::new(r) };
            match r.value() {
                Some(rv) => match op.apply_spec(rv, None) {
                    Some(v) => (st1, ExprModel::Lit(v)),
                    None => (st1, rebuilt),
                },
                None => (st1, rebuilt),
            }
        },
        ExprModel::Tuple(items) => {
            let (st1, folded) = fold_items(ctx, st, items, 0, Seq::empty());
            (st1, ExprModel::Tuple(folded))
        },
        ExprModel::Array(items) => {
            let (st1, folded) = fold_items(ctx, st, items, 0, Seq::empty());
            (st1, ExprModel::Array(folded))
        },
        ExprModel::FCall { name, args } => {
            let (st1, folded) = fold_items(ctx, st, args, 0, Seq::empty());
            let rebuilt = ExprModel::FCall { name, args: folded };
            if only_unit(folded) {
                (st1, rebuilt)
            } else {
                match crate::ast::values_upto(folded, folded.len() as int) {
                    None => (st1, rebuilt),
                    Some(inputs) => match ctx.ast.call_value(name.fragment, inputs) {
                        Some(v) => (st1, ExprModel::Lit(v)),
                        None => (st1, rebuilt),
                    },
                }
            }
        },
        ExprModel::Variable(name) => {
            let (st1, v) = fold_var(ctx, st, name);
            match v {
                Some(v) => (st1, ExprModel::Lit(v)),
                None => (st1, e),
            }
        },
        _ => (st, e),
    }
}

/// The items of a list from position `k` on folded; `folded` holds the
/// folded items before `k`.
pub open spec fn fold_items(
    ctx: Ctx,
    st: Folding,
    items: Seq<ExprModel>,
    k: int,
    folded: Seq<ExprModel>,
) -> (Folding, Seq<ExprModel>)
    decreases st.budget, 1int, items, items.len() - k,
{
    if k < 0 || k >= items.len() {
        (st, folded)
    } else {
        let (st1, e) = fold_expr(ctx, st, items[k]);
        fold_items(ctx, st1.capped(st.budget), items, k + 1, folded.push(e))
    }
}

/// The value that a variable folds to, if any. What was found for a name
/// is kept. The first equation of a name that was not looked at is
/// folded: where it folds to a value, the value is shown after the
/// equation; where it does not, the folded equation goes to the new node.
/// A name without equation has no value.
pub open spec fn fold_var(ctx: Ctx, st: Folding, name: SpanModel) -> (Folding, Option<ValueModel>)
    decreases st.budget, 0int,
{
    match find_seen(st.seen, name.fragment, 0) {
        Some(i) => (st, st.seen[i].1),
        None => match find_equation(ctx.node.let_bindings, name.fragment, 0) {
            None => (st, None),
            Some(i) => if st.budget == 0 {
                (st.mark(name.fragment, None), None)
            } else {
                let opened = Folding {
                    budget: (st.budget - 1) as nat,
                    ..st.mark(name.fragment, None)
                };
                let (st1, e) = fold_expr(ctx, opened, ctx.node.let_bindings[i].1);
                match e.value() {
                    Some(v) => (st1.show(ctx.node, i, v).mark(name.fragment, Some(v)), Some(v)),
                    None => (
                        st1.keep(ctx.node.let_bindings[i].0, e).mark(name.fragment, None),
                        None,
                    ),
                }
            },
        },
    }
}

/// The state after the equations of the first `n` outputs were folded:
/// the folded equation of each output goes to the new node, with its
/// value shown where it folds to one.
pub open spec fn fold_outputs(ctx: Ctx, st: Folding, n: int) -> Folding
    decreases n,
{
    if n <= 0 || n > ctx.node.outputs.len() {
        st
    } else {
        let before = fold_outputs(ctx, st, n - 1);
        let name = ctx.node.outputs[n - 1].0;
        match find_equation(ctx.node.let_bindings, name.fragment, 0) {
            None => before,
            Some(i) => {
                let opened = Folding {
                    budget: ctx.node.let_bindings.len(),
                    ..before.mark(name.fragment, None)
                };
                let (st1, e) = fold_expr(ctx, opened, ctx.node.let_bindings[i].1);
                let shown = match e.value() {
                    Some(v) => st1.show(ctx.node, i, v),
                    None => st1,
                };
                shown.mark(name.fragment, e.value()).keep(ctx.node.let_bindings[i].0, e)
            },
        }
    }
}

impl AstModel {
    /// The folding of one node, starting with the hints `hints`.
    pub open spec fn node_folding(self, node: NodeModel, hints: Seq<HintModel>) -> Folding {
        fold_outputs(
            Ctx { ast: self, node },
            Folding {
                equations: Seq::empty(),
                seen: Seq::empty(),
                hints,
                budget: node.let_bindings.len(),
            },
            node.outputs.len() as int,
        )
    }

    /// The node with its equations folded.
    pub open spec fn node_folded(self, node: NodeModel, hints: Seq<HintModel>) -> NodeModel {
        NodeModel { let_bindings: self.node_folding(node, hints).equations, ..node }
    }

    /// The hints after the folding of one node: the value hints, and for
    /// a node that is tagged as a test its verdict after the tag.
    pub open spec fn node_hints(self, node: NodeModel, hints: Seq<HintModel>) -> Seq<HintModel> {
        let folded = self.node_folded(node, hints);
        let shown = self.node_folding(node, hints).hints;
        match folded.tag {
            Some((span, _)) => shown.push(
                HintModel {
                    position: span.position_end(),
                    label: folded.verdict_label(),
                    kind: HintKind::Verdict,
                },
            ),
            None => shown,
        }
    }

    /// The new nodes and the hints after the first `n` nodes were folded.
    pub open spec fn nodes_folded(self, n: int) -> (Seq<NodeModel>, Seq<HintModel>)
        decreases n,
    {
        if n <= 0 || n > self.nodes.len() {
            (Seq::empty(), Seq::empty())
        } else {
            let (nodes, hints) = self.nodes_folded(n - 1);
            (
                nodes.push(self.node_folded(self.nodes[n - 1], hints)),
                self.node_hints(self.nodes[n - 1], hints),
            )
        }
    }

    /// The program with its constants propagated, and the hints that show
    /// the values found and the verdicts of the tests.
    pub open spec fn propagated(self) -> (AstModel, Seq<HintModel>) {
        let (nodes, hints) = self.nodes_folded(self.nodes.len() as int);
        (AstModel { nodes }, hints)
    }
}

} // verus!
