//! The mathematical model of lowering a node to a compiled node.
use vstd::prelude::*;
use crate::ast::{AstModel, ExprModel, NodeModel};
use crate::compiled_expr::CExprModel;
use crate::expr_index::ExprIndex;
use crate::instant::Instant;
use crate::node_model::{CNodeModel, push_position};
use crate::ops::{BinOp, UnaryOp};
use crate::span::SpanModel;
use crate::types::VarTypeModel;

verus! {

/// Why a node could not be lowered.
#[derive(Debug, Clone, Copy, PartialEq, Eq, Structural)]
pub enum CompileError {
    /// No node has the name that was asked for, or that a call names.
    UnknownNode,
    /// A variable is neither a parameter nor defined by an equation.
    UnknownVariable,
    /// The equations of a node define a variable by itself without going
    /// through an output.
    CyclicDefinition,
    /// The calls between nodes are nested deeper than there are nodes: a
    /// node calls itself, directly or through others.
    RecursiveCall,
    /// The node needs more expressions than an index can count.
    TooManyExpressions,
    /// The equation of an output gives no value at all.
    NoValue,
}

/// The expressions of a node under construction, each with its tag.
pub struct Graph {
    pub exprs: Seq<CExprModel>,
    pub infos: Seq<Seq<char>>,
}

impl Graph {
    /// No expression yet.
    pub open spec fn empty() -> Graph {
        Graph { exprs: Seq::empty(), infos: Seq::empty() }
    }

    /// The graph with one more expression and its tag at the end.
    pub open spec fn appended(self, e: CExprModel, info: Seq<char>) -> Graph {
        Graph { exprs: self.exprs.push(e), infos: self.infos.push(info) }
    }

    /// The graph after a memoizing push: a new expression comes last with
    /// its tag, and one that is not new changes nothing.
    pub open spec fn pushed(self, e: CExprModel, info: Seq<char>) -> Graph {
        if push_position(self.exprs, e) == self.exprs.len() {
            self.appended(e, info)
        } else {
            self
        }
    }
}

/// The state of the lowering of one node: the expressions so far and
/// their tags, the indices of the equations already lowered, by name, and
/// how many equations may still be opened.
pub struct Lowering {
    pub exprs: Seq<CExprModel>,
    pub infos: Seq<Seq<char>>,
    pub memo: Seq<(Seq<char>, Seq<ExprIndex>)>,
    pub budget: nat,
}

/// What one step of lowering gives: the new state and the indices of the
/// values of what was lowered.
pub type Lowered = Result<(Lowering, Seq<ExprIndex>), CompileError>;

impl Lowering {
    /// The expressions of the state and their tags.
    pub open spec fn graph(self) -> Graph {
        Graph { exprs: self.exprs, infos: self.infos }
    }

    /// The state with other expressions and tags.
    pub open spec fn with(self, g: Graph) -> Lowering {
        Lowering { exprs: g.exprs, infos: g.infos, ..self }
    }
}

/// The tag of an input or output slot: `IN` or `OUT`, and the name.
pub open spec fn slot_info(input: bool, name: Seq<char>) -> Seq<char> {
    (if input {
        "IN"@
    } else {
        "OUT"@
    }) + " : "@ + name
}

/// The tag of a `Pre` expression: `set`, and what it keeps.
pub open spec fn pre_info(kept: ExprModel) -> Seq<char> {
    "set "@ + kept.text()
}

/// The state with its budget no higher than `bound`.
pub open spec fn capped(st: Lowering, bound: nat) -> Lowering {
    Lowering {
        budget: if st.budget <= bound {
            st.budget
        } else {
            bound
        },
        ..st
    }
}

/// The position of the first parameter from `from` on with the name.
pub open spec fn find_param(params: Seq<(SpanModel, VarTypeModel)>, name: Seq<char>, from: int) -> Option<
    int,
>
    decreases params.len() - from,
{
    if from < 0 || from >= params.len() {
        None
    } else if params[from].0.fragment == name {
        Some(from)
    } else {
        find_param(params, name, from + 1)
    }
}

/// The position of the first equation from `from` on that defines the name.
pub open spec fn find_equation(bindings: Seq<(SpanModel, ExprModel)>, name: Seq<char>, from: int) -> Option<
    int,
>
    decreases bindings.len() - from,
{
    if from < 0 || from >= bindings.len() {
        None
    } else if bindings[from].0.fragment == name {
        Some(from)
    } else {
        find_equation(bindings, name, from + 1)
    }
}

/// The position of the first entry from `from` on that is kept under the name.
pub open spec fn find_memo(memo: Seq<(Seq<char>, Seq<ExprIndex>)>, name: Seq<char>, from: int) -> Option<
    int,
>
    decreases memo.len() - from,
{
    if from < 0 || from >= memo.len() {
        None
    } else if memo[from].0 == name {
        Some(from)
    } else {
        find_memo(memo, name, from + 1)
    }
}

/// A memoizing push of one expression with its tag: the graph after it and
/// the index at which the expression stands.
pub open spec fn push_one(g: Graph, e: CExprModel, info: Seq<char>) -> Result<
    (Graph, ExprIndex),
    CompileError,
> {
    if g.exprs.len() >= u32::MAX {
        Err(CompileError::TooManyExpressions)
    } else {
        Ok((g.pushed(e, info), ExprIndex(push_position(g.exprs, e) as u32)))
    }
}

/// The expression that combines the values at position `k` of up to
/// three lists of indices.
#[derive(Debug, Clone, Copy)]
pub enum Shape {
    /// The value before, of each index of the first list.
    Pre,
    /// A unary operator on each index of the first list.
    Unary(UnaryOp),
    /// A binary operator on each pair of the first and second list.
    Binary(BinOp),
    /// A choice between the second and third list by the first.
    If,
}

impl Shape {
    /// How many items the shape makes of the lists: as many as the
    /// shortest list that it reads has.
    pub open spec fn count(self, a: Seq<ExprIndex>, b: Seq<ExprIndex>, c: Seq<ExprIndex>) -> int {
        match self {
            Shape::Pre | Shape::Unary(_) => a.len() as int,
            Shape::Binary(_) => if a.len() <= b.len() {
                a.len() as int
            } else {
                b.len() as int
            },
            Shape::If => {
                let ab = if a.len() <= b.len() {
                    a.len() as int
                } else {
                    b.len() as int
                };
                if ab <= c.len() {
                    ab
                } else {
                    c.len() as int
                }
            },
        }
    }

    /// The expression for position `k`.
    pub open spec fn at(self, a: Seq<ExprIndex>, b: Seq<ExprIndex>, c: Seq<ExprIndex>, k: int) -> CExprModel {
        match self {
            Shape::Pre => CExprModel::Pre { src: a[k] },
            Shape::Unary(op) => CExprModel::UnaryOp { op, rhs: a[k] },
            Shape::Binary(op) => CExprModel::BinOp { lhs: a[k], op, rhs: b[k] },
            Shape::If => CExprModel::If { cond: a[k], yes: b[k], no: c[k] },
        }
    }
}

/// The memoizing pushes of the first `n` expressions of a shape, all with
/// one tag: the graph after them and the indices at which they stand.
pub open spec fn push_shaped(
    g: Graph,
    shape: Shape,
    a: Seq<ExprIndex>,
    b: Seq<ExprIndex>,
    c: Seq<ExprIndex>,
    info: Seq<char>,
    n: int,
) -> Result<(Graph, Seq<ExprIndex>), CompileError>
    decreases n,
{
    if n <= 0 || n > shape.count(a, b, c) {
        Ok((g, Seq::empty()))
    } else {
        match push_shaped(g, shape, a, b, c, info, n - 1) {
            Err(e) => Err(e),
            Ok((before, indices)) => match push_one(before, shape.at(a, b, c, n - 1), info) {
                Err(e) => Err(e),
                Ok((after, i)) => Ok((after, indices.push(i))),
            },
        }
    }
}

/// All the expressions of a shape pushed with one tag, as a step of lowering.
pub open spec fn shaped(
    st: Lowering,
    shape: Shape,
    a: Seq<ExprIndex>,
    b: Seq<ExprIndex>,
    c: Seq<ExprIndex>,
    info: Seq<char>,
) -> Lowered {
    match push_shaped(st.graph(), shape, a, b, c, info, shape.count(a, b, c)) {
        Err(e) => Err(e),
        Ok((g, indices)) => Ok((st.with(g), indices)),
    }
}

/// One slot pushed at the end for each of the first `n` parameters, input
/// slots if `input` and output slots else, each tagged with the name of
/// its parameter: the graph after it and the indices of the slots.
pub open spec fn push_slots(
    g: Graph,
    input: bool,
    params: Seq<(SpanModel, VarTypeModel)>,
    n: int,
) -> Result<(Graph, Seq<ExprIndex>), CompileError>
    decreases n,
{
    if n <= 0 || n > params.len() {
        Ok((g, Seq::empty()))
    } else {
        match push_slots(g, input, params, n - 1) {
            Err(e) => Err(e),
            Ok((before, indices)) => if before.exprs.len() >= u32::MAX {
                Err(CompileError::TooManyExpressions)
            } else {
                Ok(
                    (
                        before.appended(
                            if input {
                                CExprModel::Input
                            } else {
                                CExprModel::Output
                            },
                            slot_info(input, params[n - 1].0.fragment),
                        ),
                        indices.push(ExprIndex(before.exprs.len() as u32)),
                    ),
                )
            },
        }
    }
}

/// The expressions after the first `n` input slots of an inlined node
/// were made to forward the arguments of the call.
pub open spec fn splice(exprs: Seq<CExprModel>, slots: Seq<ExprIndex>, args: Seq<ExprIndex>, n: int) -> Seq<
    CExprModel,
>
    decreases n,
{
    if n <= 0 || n > slots.len() || n > args.len() {
        exprs
    } else {
        let before = splice(exprs, slots, args, n - 1);
        if slots[n - 1].index() < before.len() {
            before.update(slots[n - 1].index(), CExprModel::Variable(args[n - 1]))
        } else {
            before
        }
    }
}

/// The context of the lowering of one node: the program, the node, and
/// the indices of its input and output slots.
pub struct Scope {
    pub ast: AstModel,
    pub node: NodeModel,
    pub inputs: Seq<ExprIndex>,
    pub outputs: Seq<ExprIndex>,
}

/// The lowering of an expression.
///
/// A literal is pushed. A variable is the slot of the output or input of
/// that name, else the lowering of its equation. `a fby b` becomes
/// `a -> pre b`; `pre` becomes a `Pre` expression; the other operators and
/// `if` are pushed over the values of their operands, pair by pair. The
/// items of a tuple or array follow each other. A call inlines the called
/// node: its input slots forward the arguments and its output slots are
/// the values of the call. `depth` bounds the nesting of calls.
pub open spec fn lower_expr(scope: Scope, st: Lowering, e: ExprModel, depth: nat) -> Lowered
    decreases depth, st.budget, 1int, e, 0int,
{
    match e {
        ExprModel::Lit(v) => match push_one(st.graph(), CExprModel::Lit(v), v.text()) {
            Err(err) => Err(err),
            Ok((g, i)) => Ok((st.with(g), seq![i])),
        },
        ExprModel::Variable(name) => match find_param(scope.node.outputs, name.fragment, 0) {
            Some(i) => if i < scope.outputs.len() {
                Ok((st, seq![scope.outputs[i]]))
            } else {
                Err(CompileError::UnknownVariable)
            },
            None => match find_param(scope.node.inputs, name.fragment, 0) {
                Some(i) => if i < scope.inputs.len() {
                    Ok((st, seq![scope.inputs[i]]))
                } else {
                    Err(CompileError::UnknownVariable)
                },
                None => lower_var(scope, st, name.fragment, depth),
            },
        },
        ExprModel::BinOp { lhs, op, span_op, rhs } => match lower_expr(scope, st, *lhs, depth) {
            Err(err) => Err(err),
            Ok((st1, l)) => match lower_expr(scope, capped(st1, st.budget), *rhs, depth) {
                Err(err) => Err(err),
                Ok((st2, r)) => if op == BinOp::Fby {
                    match shaped(st2, Shape::Pre, r, r, r, pre_info(*rhs)) {
                        Err(err) => Err(err),
                        Ok((st3, p)) => shaped(
                            st3,
                            Shape::Binary(BinOp::Arrow),
                            l,
                            p,
                            p,
                            e.text(),
                        ),
                    }
                } else {
                    shaped(st2, Shape::Binary(op), l, r, r, e.text())
                },
            },
        },
        ExprModel::UnaryOp { op, span_op, rhs } => match lower_expr(scope, st, *rhs, depth) {
            Err(err) => Err(err),
            Ok((st1, r)) => if op == UnaryOp::Pre {
                shaped(st1, Shape::Pre, r, r, r, pre_info(*rhs))
            } else {
                shaped(st1, Shape::Unary(op), r, r, r, e.text())
            },
        },
        ExprModel::If { cond, yes, no } => match lower_expr(scope, st, *cond, depth) {
            Err(err) => Err(err),
            Ok((st1, c)) => match lower_expr(scope, capped(st1, st.budget), *yes, depth) {
                Err(err) => Err(err),
                Ok((st2, y)) => match lower_expr(scope, capped(st2, st.budget), *no, depth) {
                    Err(err) => Err(err),
                    Ok((st3, n)) => shaped(st3, Shape::If, c, y, n, e.text()),
                },
            },
        },
        ExprModel::Array(items) => lower_list(scope, st, items, 0, Seq::empty(), depth),
        ExprModel::Tuple(items) => lower_list(scope, st, items, 0, Seq::empty(), depth),
        ExprModel::FCall { name, args } => match lower_list(
            scope,
            st,
            args,
            0,
            Seq::empty(),
            depth,
        ) {
            Err(err) => Err(err),
            Ok((st1, given)) => match scope.ast.find_node(name.fragment, 0) {
                None => Err(CompileError::UnknownNode),
                Some(callee) => if depth == 0 {
                    Err(CompileError::RecursiveCall)
                } else {
                    match lower_node(
                        scope.ast,
                        scope.ast.nodes[callee],
                        st1.graph(),
                        (depth - 1) as nat,
                    ) {
                        Err(err) => Err(err),
                        Ok((g, slots, results)) => Ok(
                            (
                                Lowering {
                                    infos: g.infos,
                                    exprs: splice(
                                        g.exprs,
                                        slots,
                                        given,
                                        if slots.len() <= given.len() {
                                            slots.len() as int
                                        } else {
                                            given.len() as int
                                        },
                                    ),
                                    ..st1
                                },
                                results,
                            ),
                        ),
                    }
                },
            },
        },
    }
}

/// The lowering of the items of a list from position `k` on, one after
/// the other; `found` holds the indices of the items before `k`.
pub open spec fn lower_list(
    scope: Scope,
    st: Lowering,
    items: Seq<ExprModel>,
    k: int,
    found: Seq<ExprIndex>,
    depth: nat,
) -> Lowered
    decreases depth, st.budget, 1int, items, items.len() - k,
{
    if k < 0 || k >= items.len() {
        Ok((st, found))
    } else {
        match lower_expr(scope, st, items[k], depth) {
            Err(err) => Err(err),
            Ok((st1, indices)) => lower_list(
                scope,
                capped(st1, st.budget),
                items,
                k + 1,
                found + indices,
                depth,
            ),
        }
    }
}

/// The lowering of a variable that is defined by an equation: what was
/// kept under its name, else the lowering of its first equation, which is
/// then kept. Each equation that is opened takes one from the budget.
pub open spec fn lower_var(scope: Scope, st: Lowering, name: Seq<char>, depth: nat) -> Lowered
    decreases depth, st.budget, 0int,
{
    match find_memo(st.memo, name, 0) {
        Some(i) => Ok((st, st.memo[i].1)),
        None => match find_equation(scope.node.let_bindings, name, 0) {
            None => Err(CompileError::UnknownVariable),
            Some(i) => if st.budget == 0 {
                Err(CompileError::CyclicDefinition)
            } else {
                match lower_expr(
                    scope,
                    Lowering { budget: (st.budget - 1) as nat, ..st },
                    scope.node.let_bindings[i].1,
                    depth,
                ) {
                    Err(err) => Err(err),
                    Ok((st1, indices)) => Ok(
                        (Lowering { memo: st1.memo.push((name, indices)), ..st1 }, indices),
                    ),
                }
            },
        },
    }
}

/// The lowering of the outputs of a node from position `k` on: the
/// equation of each is lowered and its slot made to forward the first
/// value of the equation.
pub open spec fn lower_outputs(scope: Scope, st: Lowering, k: int, depth: nat) -> Result<
    Lowering,
    CompileError,
>
    decreases depth, st.budget, 1int, scope.node.outputs.len() - k,
{
    if k < 0 || k >= scope.node.outputs.len() || k >= scope.outputs.len() {
        Ok(st)
    } else {
        match lower_var(scope, st, scope.node.outputs[k].0.fragment, depth) {
            Err(err) => Err(err),
            Ok((st1, indices)) => if indices.len() == 0 {
                Err(CompileError::NoValue)
            } else if scope.outputs[k].index() >= st1.exprs.len() {
                Err(CompileError::NoValue)
            } else {
                lower_outputs(
                    scope,
                    capped(
                        Lowering {
                            exprs: st1.exprs.update(
                                scope.outputs[k].index(),
                                CExprModel::Variable(indices[0]),
                            ),
                            ..st1
                        },
                        st.budget,
                    ),
                    k + 1,
                    depth,
                )
            },
        }
    }
}

/// The lowering of the equations of a node from position `k` on, in the
/// order in which they are written: each is lowered under its name, once.
pub open spec fn lower_equations(scope: Scope, st: Lowering, k: int, depth: nat) -> Result<
    Lowering,
    CompileError,
>
    decreases depth, st.budget, 1int, scope.node.let_bindings.len() - k,
{
    if k < 0 || k >= scope.node.let_bindings.len() {
        Ok(st)
    } else {
        match lower_var(scope, st, scope.node.let_bindings[k].0.fragment, depth) {
            Err(err) => Err(err),
            Ok((st1, _)) => lower_equations(scope, capped(st1, st.budget), k + 1, depth),
        }
    }
}

/// The lowering of a node after the expressions `exprs`: one input slot
/// per input and one output slot per output are pushed, the equations
/// are lowered, and each output slot is made to forward the value of the
/// equation of its output. Gives the expressions and the indices of the
/// slots.
pub open spec fn lower_node(ast: AstModel, node: NodeModel, g: Graph, depth: nat) -> Result<
    (Graph, Seq<ExprIndex>, Seq<ExprIndex>),
    CompileError,
>
    decreases depth, node.let_bindings.len() + 1, 0int,
{
    match push_slots(g, true, node.inputs, node.inputs.len() as int) {
        Err(err) => Err(err),
        Ok((with_inputs, inputs)) => match push_slots(
            with_inputs,
            false,
            node.outputs,
            node.outputs.len() as int,
        ) {
            Err(err) => Err(err),
            Ok((with_outputs, outputs)) => match lower_equations(
                Scope { ast, node, inputs, outputs },
                Lowering {
                    exprs: with_outputs.exprs,
                    infos: with_outputs.infos,
                    memo: Seq::empty(),
                    budget: node.let_bindings.len(),
                },
                0,
                depth,
            ) {
                Err(err) => Err(err),
                Ok(lowered) => match lower_outputs(
                    Scope { ast, node, inputs, outputs },
                    capped(lowered, node.let_bindings.len()),
                    0,
                    depth,
                ) {
                    Err(err) => Err(err),
                    Ok(st) => Ok((st.graph(), inputs, outputs)),
                },
            },
        },
    }
}

impl AstModel {
    /// The node of the given name lowered, before scheduling.
    pub open spec fn lowered(self, name: Seq<char>) -> Result<CNodeModel, CompileError> {
        match self.find_node(name, 0) {
            None => Err(CompileError::UnknownNode),
            Some(i) => match lower_node(self, self.nodes[i], Graph::empty(), self.nodes.len()) {
                Err(err) => Err(err),
                Ok((g, inputs, outputs)) => Ok(
                    CNodeModel {
                        exprs: g.exprs,
                        infos: g.infos,
                        inputs,
                        outputs,
                        values: Seq::new(g.exprs.len(), |i: int| None),
                        instant: Instant::Initial,
                    },
                ),
            },
        }
    }

    /// The node of the given name compiled: lowered, then scheduled.
    pub open spec fn compiled(self, name: Seq<char>) -> Result<CNodeModel, CompileError> {
        match self.lowered(name) {
            Err(err) => Err(err),
            Ok(cn) => Ok(cn.scheduled()),
        }
    }
}

} // verus!
