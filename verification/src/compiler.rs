//! Lowering of a node of the syntax tree to a compiled node.
use vstd::prelude::*;
use vstd::string::*;
use crate::ast::{Ast, Expr, Node, binding_views, expr_views, lemma_expr_items_view, param_views};
use crate::compile_model::{
    CompileError, Graph, Lowering, Scope, Shape, capped, find_equation, find_memo, find_param,
    lower_equations, lower_expr, lower_list, lower_node, lower_outputs, lower_var, pre_info,
    push_one, push_shaped, push_slots, slot_info, splice,
};
use crate::compiled_expr::{CExprModel, CompiledExpr};
use crate::compiled_node::CompiledNode;
use crate::expr_index::ExprIndex;
use crate::node_model::{CNodeModel, indices_below, push_position};
use crate::ops::{BinOp, UnaryOp};
use crate::span::{Ident, Span, SpanModel};
use crate::types::{VarType, VarTypeModel};

verus! {

/// Builds a compiled node, one expression after the other.
pub struct Compiler {
    pub ast: CompiledNode,
}

/// The indices kept for the equations already lowered, by name.
pub type Memo = Vec<(String, Vec<ExprIndex>)>;

/// The model of the memo.
pub open spec fn memo_view(memo: Seq<(String, Vec<ExprIndex>)>) -> Seq<(Seq<char>, Seq<ExprIndex>)> {
    Seq::new(memo.len(), |i: int| (memo[i].0@, memo[i].1@))
}

/// Whether every index that the memo keeps is below `len`.
pub open spec fn memo_below(memo: Seq<(String, Vec<ExprIndex>)>, len: int) -> bool {
    forall|i: int| 0 <= i < memo.len() ==> indices_below((#[trigger] memo[i]).1@, len)
}

/// The state of the lowering that a compiler, a memo and a budget stand for.
pub open spec fn state_of(
    node: CompiledNode,
    memo: Seq<(String, Vec<ExprIndex>)>,
    budget: usize,
) -> Lowering {
    Lowering {
        exprs: node@.exprs,
        infos: node@.infos,
        memo: memo_view(memo),
        budget: budget as nat,
    }
}

/// The expressions of a node and their tags.
pub open spec fn graph_of(node: CompiledNode) -> Graph {
    Graph { exprs: node@.exprs, infos: node@.infos }
}

/// What lowering needs of its state: a well-formed node, and slots and
/// kept indices that are indices of its expressions.
pub open spec fn ready(
    node: CompiledNode,
    inputs: Seq<ExprIndex>,
    outputs: Seq<ExprIndex>,
    memo: Seq<(String, Vec<ExprIndex>)>,
) -> bool {
    &&& node.wf()
    &&& indices_below(inputs, node@.exprs.len() as int)
    &&& indices_below(outputs, node@.exprs.len() as int)
    &&& memo_below(memo, node@.exprs.len() as int)
}

/// Whether a result and the state after it are what the model gives.
pub open spec fn agrees(
    r: Result<Vec<ExprIndex>, CompileError>,
    expected: Result<(Lowering, Seq<ExprIndex>), CompileError>,
    node: CompiledNode,
    memo: Seq<(String, Vec<ExprIndex>)>,
    budget: usize,
) -> bool {
    match expected {
        Ok((st, indices)) => {
            &&& r matches Ok(v)
            &&& v@ == indices
            &&& state_of(node, memo, budget) == st
            &&& indices_below(v@, st.exprs.len() as int)
            &&& memo_below(memo, st.exprs.len() as int)
        },
        Err(e) => r matches Err(x) && x == e,
    }
}

fn find_in_params(params: &Vec<(Ident, VarType)>, name: &Span) -> (r: Option<usize>)
    ensures
        match r {
            Some(i) => find_param(param_views(params@), name@.fragment, 0) == Some(i as int) && i
                < params.len(),
            None => find_param(param_views(params@), name@.fragment, 0) is None,
        },
{
    let mut i: usize = 0;
    while i < params.len()
        invariant
            i <= params.len(),
            find_param(param_views(params@), name@.fragment, 0) == find_param(
                param_views(params@),
                name@.fragment,
                i as int,
            ),
        decreases params.len() - i,
    {
        if params[i].0.same_name(name) {
            return Some(i);
        }
        i += 1;
    }
    None
}

fn find_in_equations(bindings: &Vec<(Ident, Expr)>, name: &Span) -> (r: Option<usize>)
    ensures
        match r {
            Some(i) => find_equation(binding_views(bindings@), name@.fragment, 0) == Some(i as int)
                && i < bindings.len(),
            None => find_equation(binding_views(bindings@), name@.fragment, 0) is None,
        },
{
    let mut i: usize = 0;
    while i < bindings.len()
        invariant
            i <= bindings.len(),
            find_equation(binding_views(bindings@), name@.fragment, 0) == find_equation(
                binding_views(bindings@),
                name@.fragment,
                i as int,
            ),
        decreases bindings.len() - i,
    {
        if bindings[i].0.same_name(name) {
            return Some(i);
        }
        i += 1;
    }
    None
}

fn find_in_memo(memo: &Memo, name: &Span) -> (r: Option<usize>)
    ensures
        match r {
            Some(i) => find_memo(memo_view(memo@), name@.fragment, 0) == Some(i as int) && i
                < memo.len(),
            None => find_memo(memo_view(memo@), name@.fragment, 0) is None,
        },
{
    let mut i: usize = 0;
    let text = name.fragment();
    while i < memo.len()
        invariant
            i <= memo.len(),
            text@ == name@.fragment,
            find_memo(memo_view(memo@), name@.fragment, 0) == find_memo(
                memo_view(memo@),
                name@.fragment,
                i as int,
            ),
        decreases memo.len() - i,
    {
        if memo[i].0 == text {
            return Some(i);
        }
        i += 1;
    }
    None
}

fn copy_indices(v: &Vec<ExprIndex>) -> (r: Vec<ExprIndex>)
    ensures
        r@ == v@,
{
    let mut r: Vec<ExprIndex> = Vec::new();
    let mut i: usize = 0;
    while i < v.len()
        invariant
            i <= v.len(),
            r.len() == i,
            forall|j: int| 0 <= j < i ==> r[j] == v[j],
        decreases v.len() - i,
    {
        r.push(v[i]);
        i += 1;
    }
    assert(r@ =~= v@);
    r
}

fn slot_tag(input: bool, name: &Span) -> (s: String)
    ensures
        s@ == slot_info(input, name@.fragment),
{
    let mut s = if input {
        String::from_str("IN")
    } else {
        String::from_str("OUT")
    };
    s.append(" : ");
    s.append(name.text());
    s
}

impl Compiler {
    /// A compiler with nothing compiled yet.
    pub fn new() -> (r: Compiler)
        ensures
            r.ast@ == CNodeModel::empty(),
            r.ast.wf(),
    {
        Compiler { ast: CompiledNode::new() }
    }

    /// What was compiled, scheduled.
    pub fn schedule(&self) -> (r: CompiledNode)
        requires
            self.ast.wf(),
        ensures
            r@ == self.ast@.scheduled(),
            r.wf(),
    {
        self.ast.schedule()
    }

    fn push(&mut self, expr: CompiledExpr, info: String) -> (r: Result<ExprIndex, CompileError>)
        requires
            old(self).ast.wf(),
            expr@.in_bounds(old(self).ast@.exprs.len() as int),
        ensures
            final(self).ast.wf(),
            old(self).ast@.exprs.len() <= final(self).ast@.exprs.len(),
            final(self).ast@.instant == old(self).ast@.instant,
            match push_one(graph_of(old(self).ast), expr@, info@) {
                Ok((g, i)) => r == Ok::<ExprIndex, CompileError>(i) && graph_of(final(self).ast)
                    == g && i.index() < g.exprs.len(),
                Err(e) => r == Err::<ExprIndex, CompileError>(e) && *final(self) == *old(self),
            },
    {
        if self.ast.len() >= u32::MAX as usize {
            return Err(CompileError::TooManyExpressions);
        }
        proof {
            self.ast.lemma_wf();
        }
        let i = self.ast.push_expr(expr, info);
        assert(i == ExprIndex(push_position(old(self).ast@.exprs, expr@) as u32));
        Ok(i)
    }

    #[verifier::loop_isolation(false)]
    fn push_shape(
        &mut self,
        shape: Shape,
        a: &Vec<ExprIndex>,
        b: &Vec<ExprIndex>,
        c: &Vec<ExprIndex>,
        info: &str,
    ) -> (r: Result<Vec<ExprIndex>, CompileError>)
        requires
            old(self).ast.wf(),
            indices_below(a@, old(self).ast@.exprs.len() as int),
            indices_below(b@, old(self).ast@.exprs.len() as int),
            indices_below(c@, old(self).ast@.exprs.len() as int),
        ensures
            final(self).ast.wf(),
            old(self).ast@.exprs.len() <= final(self).ast@.exprs.len(),
            final(self).ast@.instant == old(self).ast@.instant,
            match push_shaped(
                graph_of(old(self).ast),
                shape,
                a@,
                b@,
                c@,
                info@,
                shape.count(a@, b@, c@),
            ) {
                Ok((g, indices)) => r matches Ok(v) && v@ == indices && graph_of(final(self).ast)
                    == g && indices_below(v@, g.exprs.len() as int),
                Err(e) => r matches Err(x) && x == e,
            },
    {
        let count = match shape {
            Shape::Pre | Shape::Unary(_) => a.len(),
            Shape::Binary(_) => if a.len() <= b.len() {
                a.len()
            } else {
                b.len()
            },
            Shape::If => {
                let ab = if a.len() <= b.len() {
                    a.len()
                } else {
                    b.len()
                };
                if ab <= c.len() {
                    ab
                } else {
                    c.len()
                }
            },
        };
        let ghost start = graph_of(self.ast);
        let mut out: Vec<ExprIndex> = Vec::new();
        let mut k: usize = 0;
        while k < count
            invariant
                k <= count,
                count == shape.count(a@, b@, c@),
                self.ast.wf(),
                self.ast@.instant == old(self).ast@.instant,
                start.exprs.len() <= self.ast@.exprs.len(),
                indices_below(a@, start.exprs.len() as int),
                indices_below(b@, start.exprs.len() as int),
                indices_below(c@, start.exprs.len() as int),
                push_shaped(start, shape, a@, b@, c@, info@, k as int) == Ok::<
                    (Graph, Seq<ExprIndex>),
                    CompileError,
                >((graph_of(self.ast), out@)),
                indices_below(out@, self.ast@.exprs.len() as int),
            decreases count - k,
        {
            let expr = match shape {
                Shape::Pre => CompiledExpr::Pre { src: a[k] },
                Shape::Unary(op) => CompiledExpr::UnaryOp { op, rhs: a[k] },
                Shape::Binary(op) => CompiledExpr::BinOp { lhs: a[k], op, rhs: b[k] },
                Shape::If => CompiledExpr::If { cond: a[k], yes: b[k], no: c[k] },
            };
            assert(expr@ == shape.at(a@, b@, c@, k as int));
            assert(expr@.in_bounds(self.ast@.exprs.len() as int)) by {
                assert(a@[k as int].index() < start.exprs.len());
                if shape is Binary || shape is If {
                    assert(b@[k as int].index() < start.exprs.len());
                }
                if shape is If {
                    assert(c@[k as int].index() < start.exprs.len());
                }
            }
            match self.push(expr, String::from_str(info)) {
                Ok(i) => {
                    out.push(i);
                },
                Err(e) => {
                    proof {
                        lemma_push_shaped_err(
                            start,
                            shape,
                            a@,
                            b@,
                            c@,
                            info@,
                            k + 1,
                            count as int,
                        );
                    }
                    return Err(e);
                },
            }
            k += 1;
        }
        Ok(out)
    }

    #[verifier::loop_isolation(false)]
    fn push_slots_of(&mut self, input: bool, params: &Vec<(Ident, VarType)>) -> (r: Result<
        Vec<ExprIndex>,
        CompileError,
    >)
        requires
            old(self).ast.wf(),
        ensures
            final(self).ast.wf(),
            old(self).ast@.exprs.len() <= final(self).ast@.exprs.len(),
            final(self).ast@.instant == old(self).ast@.instant,
            match push_slots(
                graph_of(old(self).ast),
                input,
                param_views(params@),
                params.len() as int,
            ) {
                Ok((g, indices)) => r matches Ok(v) && v@ == indices && graph_of(final(self).ast)
                    == g && indices_below(v@, g.exprs.len() as int),
                Err(e) => r matches Err(x) && x == e,
            },
    {
        let ghost start = graph_of(self.ast);
        let ghost models = param_views(params@);
        let mut out: Vec<ExprIndex> = Vec::new();
        let mut k: usize = 0;
        while k < params.len()
            invariant
                k <= params.len(),
                self.ast.wf(),
                self.ast@.instant == old(self).ast@.instant,
                start.exprs.len() <= self.ast@.exprs.len(),
                push_slots(start, input, models, k as int) == Ok::<
                    (Graph, Seq<ExprIndex>),
                    CompileError,
                >((graph_of(self.ast), out@)),
                indices_below(out@, self.ast@.exprs.len() as int),
            decreases params.len() - k,
        {
            if self.ast.len() >= u32::MAX as usize {
                proof {
                    lemma_push_slots_err(start, input, models, k + 1, params.len() as int);
                }
                return Err(CompileError::TooManyExpressions);
            }
            let expr = if input {
                CompiledExpr::Input
            } else {
                CompiledExpr::Output
            };
            let tag = slot_tag(input, &params[k].0);
            assert(models[k as int].0 == params[k as int].0@);
            proof {
                self.ast.lemma_wf();
            }
            let i = self.ast.push_expr_core(expr, tag);
            assert(i == ExprIndex((self.ast@.exprs.len() - 1) as u32));
            out.push(i);
            k += 1;
        }
        Ok(out)
    }

    fn compile_lit(
        &mut self,
        inputs: &Vec<ExprIndex>,
        outputs: &Vec<ExprIndex>,
        vars: &Memo,
        budget: usize,
        value: &crate::value::Value,
    ) -> (r: Result<Vec<ExprIndex>, CompileError>)
        requires
            ready(old(self).ast, inputs@, outputs@, vars@),
        ensures
            final(self).ast.wf(),
            old(self).ast@.exprs.len() <= final(self).ast@.exprs.len(),
            final(self).ast@.instant == old(self).ast@.instant,
            match push_one(graph_of(old(self).ast), CExprModel::Lit(value@), value@.text()) {
                Err(err) => r matches Err(x) && x == err,
                Ok((g, i)) => agrees(
                    r,
                    Ok((state_of(old(self).ast, vars@, budget).with(g), seq![i])),
                    final(self).ast,
                    vars@,
                    budget,
                ),
            },
    {
        let ghost before = self.ast@.exprs.len();
        let info = value.to_text();
        match self.push(CompiledExpr::Lit(value.copy()), info) {
            Ok(i) => {
                let mut out: Vec<ExprIndex> = Vec::new();
                out.push(i);
                assert(out@ =~= seq![i]);
                proof {
                    lemma_memo_below_grows(vars@, before as int, self.ast@.exprs.len() as int);
                }
                Ok(out)
            },
            Err(e) => Err(e),
        }
    }

    fn compile_binop(
        &mut self,
        ast: &Ast,
        node: &Node,
        inputs: &Vec<ExprIndex>,
        outputs: &Vec<ExprIndex>,
        vars: &mut Memo,
        budget: &mut usize,
        depth: usize,
        expr: &Expr,
    ) -> (r: Result<Vec<ExprIndex>, CompileError>)
        requires
            expr is BinOp,
            ready(old(self).ast, inputs@, outputs@, old(vars)@),
        ensures
            final(self).ast.wf(),
            old(self).ast@.exprs.len() <= final(self).ast@.exprs.len(),
            final(self).ast@.instant == old(self).ast@.instant,
            *final(budget) <= *old(budget),
            agrees(
                r,
                lower_expr(
                    Scope { ast: ast@, node: node@, inputs: inputs@, outputs: outputs@ },
                    state_of(old(self).ast, old(vars)@, *old(budget)),
                    expr@,
                    depth as nat,
                ),
                final(self).ast,
                final(vars)@,
                *final(budget),
            ),
        decreases depth, *old(budget), 1int, expr, 0int,
    {
        let ghost st0 = state_of(self.ast, vars@, *budget);
        match expr {
            Expr::BinOp { lhs, op, span_op: _, rhs } => {
                let l = match self.compile_expr(ast, node, inputs, outputs, vars, budget, depth, lhs) {
                    Ok(l) => l,
                    Err(e) => {
                        return Err(e);
                    },
                };
                let ghost st1 = state_of(self.ast, vars@, *budget);
                assert(capped(st1, st0.budget) == st1);
                let r = match self.compile_expr(ast, node, inputs, outputs, vars, budget, depth, rhs) {
                    Ok(r) => r,
                    Err(e) => {
                        return Err(e);
                    },
                };
                let ghost before = self.ast@.exprs.len();
                let fby = match op {
                    BinOp::Fby => true,
                    _ => false,
                };
                let info = expr.to_text();
                if fby {
                    let mut set = String::from_str("set ");
                    set.append(rhs.to_text().as_str());
                    assert(set@ == pre_info(rhs@));
                    let p = match self.push_shape(Shape::Pre, &r, &r, &r, set.as_str()) {
                        Ok(p) => p,
                        Err(e) => {
                            return Err(e);
                        },
                    };
                    let out = match self.push_shape(
                        Shape::Binary(BinOp::Arrow),
                        &l,
                        &p,
                        &p,
                        info.as_str(),
                    ) {
                        Ok(out) => out,
                        Err(e) => {
                            return Err(e);
                        },
                    };
                    proof {
                        lemma_memo_below_grows(vars@, before as int, self.ast@.exprs.len() as int);
                    }
                    Ok(out)
                } else {
                    let out = match self.push_shape(Shape::Binary(*op), &l, &r, &r, info.as_str()) {
                        Ok(out) => out,
                        Err(e) => {
                            return Err(e);
                        },
                    };
                    proof {
                        lemma_memo_below_grows(vars@, before as int, self.ast@.exprs.len() as int);
                    }
                    Ok(out)
                }
            },
            _ => Err(CompileError::NoValue),
        }
    }

    fn compile_unop(
        &mut self,
        ast: &Ast,
        node: &Node,
        inputs: &Vec<ExprIndex>,
        outputs: &Vec<ExprIndex>,
        vars: &mut Memo,
        budget: &mut usize,
        depth: usize,
        expr: &Expr,
    ) -> (r: Result<Vec<ExprIndex>, CompileError>)
        requires
            expr is UnaryOp,
            ready(old(self).ast, inputs@, outputs@, old(vars)@),
        ensures
            final(self).ast.wf(),
            old(self).ast@.exprs.len() <= final(self).ast@.exprs.len(),
            final(self).ast@.instant == old(self).ast@.instant,
            *final(budget) <= *old(budget),
            agrees(
                r,
                lower_expr(
                    Scope { ast: ast@, node: node@, inputs: inputs@, outputs: outputs@ },
                    state_of(old(self).ast, old(vars)@, *old(budget)),
                    expr@,
                    depth as nat,
                ),
                final(self).ast,
                final(vars)@,
                *final(budget),
            ),
        decreases depth, *old(budget), 1int, expr, 0int,
    {
        match expr {
            Expr::UnaryOp { op, span_op: _, rhs } => {
                let r = match self.compile_expr(ast, node, inputs, outputs, vars, budget, depth, rhs) {
                    Ok(r) => r,
                    Err(e) => {
                        return Err(e);
                    },
                };
                let ghost before = self.ast@.exprs.len();
                let shape = match op {
                    UnaryOp::Pre => Shape::Pre,
                    _ => Shape::Unary(*op),
                };
                let info = match op {
                    UnaryOp::Pre => {
                        let mut set = String::from_str("set ");
                        set.append(rhs.to_text().as_str());
                        set
                    },
                    _ => expr.to_text(),
                };
                let out = match self.push_shape(shape, &r, &r, &r, info.as_str()) {
                    Ok(out) => out,
                    Err(e) => {
                        return Err(e);
                    },
                };
                proof {
                    lemma_memo_below_grows(vars@, before as int, self.ast@.exprs.len() as int);
                }
                Ok(out)
            },
            _ => Err(CompileError::NoValue),
        }
    }

    fn compile_if(
        &mut self,
        ast: &Ast,
        node: &Node,
        inputs: &Vec<ExprIndex>,
        outputs: &Vec<ExprIndex>,
        vars: &mut Memo,
        budget: &mut usize,
        depth: usize,
        expr: &Expr,
    ) -> (r: Result<Vec<ExprIndex>, CompileError>)
        requires
            expr is If,
            ready(old(self).ast, inputs@, outputs@, old(vars)@),
        ensures
            final(self).ast.wf(),
            old(self).ast@.exprs.len() <= final(self).ast@.exprs.len(),
            final(self).ast@.instant == old(self).ast@.instant,
            *final(budget) <= *old(budget),
            agrees(
                r,
                lower_expr(
                    Scope { ast: ast@, node: node@, inputs: inputs@, outputs: outputs@ },
                    state_of(old(self).ast, old(vars)@, *old(budget)),
                    expr@,
                    depth as nat,
                ),
                final(self).ast,
                final(vars)@,
                *final(budget),
            ),
        decreases depth, *old(budget), 1int, expr, 0int,
    {
        let ghost st0 = state_of(self.ast, vars@, *budget);
        match expr {
            Expr::If { cond, yes, no } => {
                let c = match self.compile_expr(ast, node, inputs, outputs, vars, budget, depth, cond) {
                    Ok(c) => c,
                    Err(e) => {
                        return Err(e);
                    },
                };
                let ghost st1 = state_of(self.ast, vars@, *budget);
                assert(capped(st1, st0.budget) == st1);
                let y = match self.compile_expr(ast, node, inputs, outputs, vars, budget, depth, yes) {
                    Ok(y) => y,
                    Err(e) => {
                        return Err(e);
                    },
                };
                let ghost st2 = state_of(self.ast, vars@, *budget);
                assert(capped(st2, st0.budget) == st2);
                let n = match self.compile_expr(ast, node, inputs, outputs, vars, budget, depth, no) {
                    Ok(n) => n,
                    Err(e) => {
                        return Err(e);
                    },
                };
                let ghost before = self.ast@.exprs.len();
                let out = match self.push_shape(Shape::If, &c, &y, &n, expr.to_text().as_str()) {
                    Ok(out) => out,
                    Err(e) => {
                        return Err(e);
                    },
                };
                proof {
                    lemma_memo_below_grows(vars@, before as int, self.ast@.exprs.len() as int);
                }
                Ok(out)
            },
            _ => Err(CompileError::NoValue),
        }
    }

    #[verifier::loop_isolation(false)]
    fn compile_call(
        &mut self,
        ast: &Ast,
        node: &Node,
        inputs: &Vec<ExprIndex>,
        outputs: &Vec<ExprIndex>,
        vars: &mut Memo,
        budget: &mut usize,
        depth: usize,
        expr: &Expr,
    ) -> (r: Result<Vec<ExprIndex>, CompileError>)
        requires
            expr is FCall,
            ready(old(self).ast, inputs@, outputs@, old(vars)@),
        ensures
            final(self).ast.wf(),
            old(self).ast@.exprs.len() <= final(self).ast@.exprs.len(),
            final(self).ast@.instant == old(self).ast@.instant,
            *final(budget) <= *old(budget),
            agrees(
                r,
                lower_expr(
                    Scope { ast: ast@, node: node@, inputs: inputs@, outputs: outputs@ },
                    state_of(old(self).ast, old(vars)@, *old(budget)),
                    expr@,
                    depth as nat,
                ),
                final(self).ast,
                final(vars)@,
                *final(budget),
            ),
        decreases depth, *old(budget), 1int, expr, 0int,
    {
        proof {
            lemma_expr_items_view(*expr);
        }
        match expr {
            Expr::FCall { name, args } => {
                let given = match self.compile_list(
                    ast,
                    node,
                    inputs,
                    outputs,
                    vars,
                    budget,
                    depth,
                    args,
                ) {
                    Ok(given) => given,
                    Err(e) => {
                        return Err(e);
                    },
                };
                let callee = match ast.find_node(name) {
                    Some(callee) => callee,
                    None => {
                        return Err(CompileError::UnknownNode);
                    },
                };
                if depth == 0 {
                    return Err(CompileError::RecursiveCall);
                }
                let ghost before = self.ast@.exprs.len();
                let (slots, results) = match self.compile_node(ast, &ast.nodes[callee], depth - 1) {
                    Ok(pair) => pair,
                    Err(e) => {
                        return Err(e);
                    },
                };
                proof {
                    lemma_memo_below_grows(vars@, before as int, self.ast@.exprs.len() as int);
                }
                let count = if slots.len() <= given.len() {
                    slots.len()
                } else {
                    given.len()
                };
                let ghost inlined = self.ast@.exprs;
                let ghost tags = self.ast@.infos;
                let mut k: usize = 0;
                while k < count
                    invariant
                        k <= count,
                        self.ast.wf(),
                        self.ast@.instant == old(self).ast@.instant,
                        self.ast@.exprs.len() == inlined.len(),
                        self.ast@.infos == tags,
                        self.ast@.exprs == splice(inlined, slots@, given@, k as int),
                    decreases count - k,
                {
                    assert(slots@[k as int].index() < inlined.len());
                    assert(given@[k as int].index() < before);
                    self.ast.replace_expr(CompiledExpr::Variable(given[k]), slots[k]);
                    k += 1;
                }
                Ok(results)
            },
            _ => Err(CompileError::NoValue),
        }
    }

    fn compile_variable(
        &mut self,
        ast: &Ast,
        node: &Node,
        inputs: &Vec<ExprIndex>,
        outputs: &Vec<ExprIndex>,
        vars: &mut Memo,
        budget: &mut usize,
        depth: usize,
        expr: &Expr,
    ) -> (r: Result<Vec<ExprIndex>, CompileError>)
        requires
            expr is Variable,
            ready(old(self).ast, inputs@, outputs@, old(vars)@),
        ensures
            final(self).ast.wf(),
            old(self).ast@.exprs.len() <= final(self).ast@.exprs.len(),
            final(self).ast@.instant == old(self).ast@.instant,
            *final(budget) <= *old(budget),
            agrees(
                r,
                lower_expr(
                    Scope { ast: ast@, node: node@, inputs: inputs@, outputs: outputs@ },
                    state_of(old(self).ast, old(vars)@, *old(budget)),
                    expr@,
                    depth as nat,
                ),
                final(self).ast,
                final(vars)@,
                *final(budget),
            ),
        decreases depth, *old(budget), 1int, expr, 0int,
    {
        match expr {
            Expr::Variable(var) => match find_in_params(&node.outputs, var) {
                Some(i) => {
                    if i < outputs.len() {
                        let mut out: Vec<ExprIndex> = Vec::new();
                        out.push(outputs[i]);
                        assert(out@ =~= seq![outputs@[i as int]]);
                        Ok(out)
                    } else {
                        Err(CompileError::UnknownVariable)
                    }
                },
                None => match find_in_params(&node.inputs, var) {
                    Some(i) => {
                        if i < inputs.len() {
                            let mut out: Vec<ExprIndex> = Vec::new();
                            out.push(inputs[i]);
                            assert(out@ =~= seq![inputs@[i as int]]);
                            Ok(out)
                        } else {
                            Err(CompileError::UnknownVariable)
                        }
                    },
                    None => self.compile_var(ast, node, inputs, outputs, vars, budget, depth, var),
                },
            },
            _ => Err(CompileError::NoValue),
        }
    }

    /// Lowers an expression of `node` and gives the indices of its values.
    /// `vars` keeps what was lowered for the equations of the node,
    /// `budget` is the number of equations that may still be opened and
    /// `depth` the number of calls that may still be nested.
    pub fn compile_expr(
        &mut self,
        ast: &Ast,
        node: &Node,
        inputs: &Vec<ExprIndex>,
        outputs: &Vec<ExprIndex>,
        vars: &mut Memo,
        budget: &mut usize,
        depth: usize,
        expr: &Expr,
    ) -> (r: Result<Vec<ExprIndex>, CompileError>)
        requires
            ready(old(self).ast, inputs@, outputs@, old(vars)@),
        ensures
            final(self).ast.wf(),
            old(self).ast@.exprs.len() <= final(self).ast@.exprs.len(),
            final(self).ast@.instant == old(self).ast@.instant,
            *final(budget) <= *old(budget),
            agrees(
                r,
                lower_expr(
                    Scope { ast: ast@, node: node@, inputs: inputs@, outputs: outputs@ },
                    state_of(old(self).ast, old(vars)@, *old(budget)),
                    expr@,
                    depth as nat,
                ),
                final(self).ast,
                final(vars)@,
                *final(budget),
            ),
        decreases depth, *old(budget), 1int, expr, 1int,
    {
        proof {
            lemma_expr_items_view(*expr);
        }
        match expr {
            Expr::Lit(value) => self.compile_lit(inputs, outputs, vars, *budget, value),
            Expr::Variable(_) => self.compile_variable(
                ast,
                node,
                inputs,
                outputs,
                vars,
                budget,
                depth,
                expr,
            ),
            Expr::BinOp { .. } => self.compile_binop(
                ast,
                node,
                inputs,
                outputs,
                vars,
                budget,
                depth,
                expr,
            ),
            Expr::UnaryOp { .. } => self.compile_unop(
                ast,
                node,
                inputs,
                outputs,
                vars,
                budget,
                depth,
                expr,
            ),
            Expr::If { .. } => self.compile_if(ast, node, inputs, outputs, vars, budget, depth, expr),
            Expr::Array(items) => self.compile_list(
                ast,
                node,
                inputs,
                outputs,
                vars,
                budget,
                depth,
                items,
            ),
            Expr::Tuple(items) => self.compile_list(
                ast,
                node,
                inputs,
                outputs,
                vars,
                budget,
                depth,
                items,
            ),
            Expr::FCall { .. } => self.compile_call(
                ast,
                node,
                inputs,
                outputs,
                vars,
                budget,
                depth,
                expr,
            ),
        }
    }

    /// Lowers the items of a list one after the other and gives the
    /// indices of all their values.
    #[verifier::loop_isolation(false)]
    fn compile_list(
        &mut self,
        ast: &Ast,
        node: &Node,
        inputs: &Vec<ExprIndex>,
        outputs: &Vec<ExprIndex>,
        vars: &mut Memo,
        budget: &mut usize,
        depth: usize,
        items: &Vec<Expr>,
    ) -> (r: Result<Vec<ExprIndex>, CompileError>)
        requires
            ready(old(self).ast, inputs@, outputs@, old(vars)@),
        ensures
            final(self).ast.wf(),
            old(self).ast@.exprs.len() <= final(self).ast@.exprs.len(),
            final(self).ast@.instant == old(self).ast@.instant,
            *final(budget) <= *old(budget),
            agrees(
                r,
                lower_list(
                    Scope { ast: ast@, node: node@, inputs: inputs@, outputs: outputs@ },
                    state_of(old(self).ast, old(vars)@, *old(budget)),
                    expr_views(items@),
                    0,
                    Seq::empty(),
                    depth as nat,
                ),
                final(self).ast,
                final(vars)@,
                *final(budget),
            ),
        decreases depth, *old(budget), 1int, items, items.len(),
    {
        let ghost scope = Scope { ast: ast@, node: node@, inputs: inputs@, outputs: outputs@ };
        let ghost st0 = state_of(self.ast, vars@, *budget);
        let ghost models = expr_views(items@);
        let mut found: Vec<ExprIndex> = Vec::new();
        let mut k: usize = 0;
        while k < items.len()
            invariant
                k <= items.len(),
                self.ast.wf(),
                self.ast@.instant == old(self).ast@.instant,
                st0.exprs.len() <= self.ast@.exprs.len(),
                *budget <= st0.budget,
                ready(self.ast, inputs@, outputs@, vars@),
                indices_below(found@, self.ast@.exprs.len() as int),
                lower_list(scope, st0, models, 0, Seq::empty(), depth as nat) == lower_list(
                    scope,
                    state_of(self.ast, vars@, *budget),
                    models,
                    k as int,
                    found@,
                    depth as nat,
                ),
            decreases items.len() - k,
        {
            let ghost st = state_of(self.ast, vars@, *budget);
            let ghost before = found@;
            let indices = match self.compile_expr(
                ast,
                node,
                inputs,
                outputs,
                vars,
                budget,
                depth,
                &items[k],
            ) {
                Ok(indices) => indices,
                Err(e) => {
                    return Err(e);
                },
            };
            let ghost st1 = state_of(self.ast, vars@, *budget);
            assert(capped(st1, st.budget) == st1);
            let mut j: usize = 0;
            while j < indices.len()
                invariant
                    j <= indices.len(),
                    found@ == before + indices@.subrange(0, j as int),
                decreases indices.len() - j,
            {
                found.push(indices[j]);
                assert(found@ =~= before + indices@.subrange(0, j + 1));
                j += 1;
            }
            assert(indices@.subrange(0, indices.len() as int) =~= indices@);
            assert(indices_below(found@, self.ast@.exprs.len() as int)) by {
                assert forall|i: int| 0 <= i < found@.len() implies (#[trigger] found@[i]).index()
                    < self.ast@.exprs.len() by {
                    if i < before.len() {
                        assert(found@[i] == before[i]);
                    } else {
                        assert(found@[i] == indices@[i - before.len()]);
                    }
                }
            }
            proof {
                lemma_indices_below_grows(inputs@, st.exprs.len() as int, self.ast@.exprs.len() as int);
                lemma_indices_below_grows(outputs@, st.exprs.len() as int, self.ast@.exprs.len() as int);
            }
            k += 1;
        }
        Ok(found)
    }

    /// Lowers a variable that an equation defines, once: what was kept for
    /// it is given again.
    pub fn compile_var(
        &mut self,
        ast: &Ast,
        node: &Node,
        inputs: &Vec<ExprIndex>,
        outputs: &Vec<ExprIndex>,
        vars: &mut Memo,
        budget: &mut usize,
        depth: usize,
        var: &Span,
    ) -> (r: Result<Vec<ExprIndex>, CompileError>)
        requires
            ready(old(self).ast, inputs@, outputs@, old(vars)@),
        ensures
            final(self).ast.wf(),
            old(self).ast@.exprs.len() <= final(self).ast@.exprs.len(),
            final(self).ast@.instant == old(self).ast@.instant,
            *final(budget) <= *old(budget),
            agrees(
                r,
                lower_var(
                    Scope { ast: ast@, node: node@, inputs: inputs@, outputs: outputs@ },
                    state_of(old(self).ast, old(vars)@, *old(budget)),
                    var@.fragment,
                    depth as nat,
                ),
                final(self).ast,
                final(vars)@,
                *final(budget),
            ),
        decreases depth, *old(budget), 0int,
    {
        match find_in_memo(vars, var) {
            Some(i) => {
                let out = copy_indices(&vars[i].1);
                assert(indices_below(vars@[i as int].1@, self.ast@.exprs.len() as int));
                return Ok(out);
            },
            None => {},
        }
        let i = match find_in_equations(&node.let_bindings, var) {
            Some(i) => i,
            None => {
                return Err(CompileError::UnknownVariable);
            },
        };
        if *budget == 0 {
            return Err(CompileError::CyclicDefinition);
        }
        *budget = *budget - 1;
        let indices = match self.compile_expr(
            ast,
            node,
            inputs,
            outputs,
            vars,
            budget,
            depth,
            &node.let_bindings[i].1,
        ) {
            Ok(indices) => indices,
            Err(e) => {
                return Err(e);
            },
        };
        let ghost before = vars@;
        let kept = copy_indices(&indices);
        vars.push((var.fragment(), kept));
        assert(memo_view(vars@) =~= memo_view(before).push((var@.fragment, indices@)));
        assert(memo_below(vars@, self.ast@.exprs.len() as int)) by {
            assert forall|j: int| 0 <= j < vars@.len() implies indices_below(
                (#[trigger] vars@[j]).1@,
                self.ast@.exprs.len() as int,
            ) by {
                if j < before.len() {
                    assert(vars@[j] == before[j]);
                }
            }
        }
        Ok(indices)
    }

    /// Lowers a node after what is compiled already: pushes its input and
    /// output slots, lowers its equations and makes the slot of each
    /// output forward the first value of the equation of the output.
    /// Gives the indices of the input slots and of the output slots.
    #[verifier::loop_isolation(false)]
    pub fn compile_node(&mut self, ast: &Ast, node: &Node, depth: usize) -> (r: Result<
        (Vec<ExprIndex>, Vec<ExprIndex>),
        CompileError,
    >)
        requires
            old(self).ast.wf(),
        ensures
            final(self).ast.wf(),
            old(self).ast@.exprs.len() <= final(self).ast@.exprs.len(),
            final(self).ast@.instant == old(self).ast@.instant,
            match lower_node(ast@, node@, graph_of(old(self).ast), depth as nat) {
                Ok((g, inputs, outputs)) => {
                    &&& r matches Ok(pair)
                    &&& pair.0@ == inputs
                    &&& pair.1@ == outputs
                    &&& graph_of(final(self).ast) == g
                    &&& indices_below(inputs, g.exprs.len() as int)
                    &&& indices_below(outputs, g.exprs.len() as int)
                },
                Err(e) => r matches Err(x) && x == e,
            },
        decreases depth, node.let_bindings.len() + 1, 0int,
    {
        let ghost start = self.ast@.exprs;
        let inputs = match self.push_slots_of(true, &node.inputs) {
            Ok(inputs) => inputs,
            Err(e) => {
                return Err(e);
            },
        };
        let ghost with_inputs = self.ast@.exprs.len();
        let outputs = match self.push_slots_of(false, &node.outputs) {
            Ok(outputs) => outputs,
            Err(e) => {
                return Err(e);
            },
        };
        proof {
            lemma_indices_below_grows(inputs@, with_inputs as int, self.ast@.exprs.len() as int);
        }
        let ghost scope = Scope { ast: ast@, node: node@, inputs: inputs@, outputs: outputs@ };
        let mut vars: Memo = Vec::new();
        assert(memo_view(vars@) =~= Seq::empty());
        let mut budget: usize = node.let_bindings.len();
        let ghost entered = state_of(self.ast, vars@, budget);
        let mut e: usize = 0;
        while e < node.let_bindings.len()
            invariant
                self.ast.wf(),
                self.ast@.instant == old(self).ast@.instant,
                start.len() <= self.ast@.exprs.len(),
                budget <= node.let_bindings.len(),
                ready(self.ast, inputs@, outputs@, vars@),
                lower_equations(scope, entered, 0, depth as nat) == lower_equations(
                    scope,
                    state_of(self.ast, vars@, budget),
                    e as int,
                    depth as nat,
                ),
            decreases node.let_bindings.len() - e,
        {
            let ghost st = state_of(self.ast, vars@, budget);
            assert(scope.node.let_bindings[e as int].0 == node.let_bindings[e as int].0@);
            match self.compile_var(
                ast,
                node,
                &inputs,
                &outputs,
                &mut vars,
                &mut budget,
                depth,
                &node.let_bindings[e].0,
            ) {
                Ok(_) => {},
                Err(err) => {
                    return Err(err);
                },
            }
            proof {
                lemma_indices_below_grows(inputs@, st.exprs.len() as int, self.ast@.exprs.len() as int);
                lemma_indices_below_grows(outputs@, st.exprs.len() as int, self.ast@.exprs.len() as int);
            }
            let ghost st1 = state_of(self.ast, vars@, budget);
            assert(capped(st1, st.budget) == st1);
            e += 1;
        }
        let ghost st0 = state_of(self.ast, vars@, budget);
        assert(capped(st0, node.let_bindings.len() as nat) == st0);
        let mut k: usize = 0;
        while k < node.outputs.len() && k < outputs.len()
            invariant
                self.ast.wf(),
                self.ast@.instant == old(self).ast@.instant,
                start.len() <= self.ast@.exprs.len(),
                budget <= node.let_bindings.len(),
                ready(self.ast, inputs@, outputs@, vars@),
                lower_outputs(scope, st0, 0, depth as nat) == lower_outputs(
                    scope,
                    state_of(self.ast, vars@, budget),
                    k as int,
                    depth as nat,
                ),
            decreases node.outputs.len() - k,
        {
            let ghost st = state_of(self.ast, vars@, budget);
            let indices = match self.compile_var(
                ast,
                node,
                &inputs,
                &outputs,
                &mut vars,
                &mut budget,
                depth,
                &node.outputs[k].0,
            ) {
                Ok(indices) => indices,
                Err(e) => {
                    return Err(e);
                },
            };
            if indices.len() == 0 {
                return Err(CompileError::NoValue);
            }
            proof {
                lemma_indices_below_grows(inputs@, st.exprs.len() as int, self.ast@.exprs.len() as int);
                lemma_indices_below_grows(outputs@, st.exprs.len() as int, self.ast@.exprs.len() as int);
            }
            assert(outputs@[k as int].index() < self.ast@.exprs.len());
            assert(indices@[0].index() < self.ast@.exprs.len());
            self.ast.replace_expr(CompiledExpr::Variable(indices[0]), outputs[k]);
            let ghost st1 = state_of(self.ast, vars@, budget);
            assert(capped(st1, st.budget) == st1);
            k += 1;
        }
        Ok((inputs, outputs))
    }

    /// Lowers the node of the given name into an empty compiler and sets
    /// the inputs and outputs of what was compiled.
    pub fn compile_ast(&mut self, ast: &Ast, node_name: &Span) -> (r: Result<(), CompileError>)
        requires
            old(self).ast.wf(),
            old(self).ast@ == CNodeModel::empty(),
        ensures
            final(self).ast.wf(),
            match ast@.lowered(node_name@.fragment) {
                Ok(cn) => r is Ok && final(self).ast@ == cn,
                Err(e) => r matches Err(x) && x == e,
            },
    {
        let i = match ast.find_node(node_name) {
            Some(i) => i,
            None => {
                return Err(CompileError::UnknownNode);
            },
        };
        let (inputs, outputs) = match self.compile_node(ast, &ast.nodes[i], ast.nodes.len()) {
            Ok(pair) => pair,
            Err(e) => {
                return Err(e);
            },
        };
        self.ast.set_inputs(inputs);
        self.ast.set_outputs(outputs);
        self.ast.set_values_to_none();
        Ok(())
    }
}

/// Indices that are below a length are below every greater length.
pub proof fn lemma_indices_below_grows(indices: Seq<ExprIndex>, len: int, more: int)
    requires
        indices_below(indices, len),
        len <= more,
    ensures
        indices_below(indices, more),
{
    assert forall|k: int| 0 <= k < indices.len() implies (#[trigger] indices[k]).index() < more by {
        assert(indices[k].index() < len);
    }
}

/// Kept indices that are below a length are below every greater length.
pub proof fn lemma_memo_below_grows(memo: Seq<(String, Vec<ExprIndex>)>, len: int, more: int)
    requires
        memo_below(memo, len),
        len <= more,
    ensures
        memo_below(memo, more),
{
    assert forall|i: int| 0 <= i < memo.len() implies indices_below((#[trigger] memo[i]).1@, more) by {
        assert(indices_below(memo[i].1@, len));
    }
}

/// Once a push of a shape fails, every longer run of pushes fails alike.
pub proof fn lemma_push_shaped_err(
    g: Graph,
    shape: Shape,
    a: Seq<ExprIndex>,
    b: Seq<ExprIndex>,
    c: Seq<ExprIndex>,
    info: Seq<char>,
    n: int,
    m: int,
)
    requires
        0 < n <= m <= shape.count(a, b, c),
        push_shaped(g, shape, a, b, c, info, n) is Err,
    ensures
        push_shaped(g, shape, a, b, c, info, m) == push_shaped(g, shape, a, b, c, info, n),
    decreases m - n,
{
    if n < m {
        lemma_push_shaped_err(g, shape, a, b, c, info, n, m - 1);
    }
}

/// Once a push of a slot fails, every longer run of pushes fails alike.
pub proof fn lemma_push_slots_err(
    g: Graph,
    input: bool,
    params: Seq<(SpanModel, VarTypeModel)>,
    n: int,
    m: int,
)
    requires
        0 < n <= m <= params.len(),
        push_slots(g, input, params, n) is Err,
    ensures
        push_slots(g, input, params, m) == push_slots(g, input, params, n),
    decreases m - n,
{
    if n < m {
        lemma_push_slots_err(g, input, params, n, m - 1);
    }
}

impl Ast {
    /// Compiles the node of the given name: lowers it to a flat graph of
    /// expressions and schedules the graph.
    pub fn compile(&self, node_name: &Span) -> (r: Result<CompiledNode, CompileError>)
        ensures
            match self@.compiled(node_name@.fragment) {
                Ok(cn) => r matches Ok(node) && node@ == cn && node.wf() && cn.well_formed(),
                Err(e) => r matches Err(x) && x == e,
            },
    {
        let mut compiler = Compiler::new();
        match compiler.compile_ast(self, node_name) {
            Ok(()) => {
                let node = compiler.schedule();
                proof {
                    node.lemma_wf();
                }
                Ok(node)
            },
            Err(e) => Err(e),
        }
    }
}

} // verus!
