//! Constant propagation: folds the constant parts of a program, runs the
//! calls on constants and tells which tests pass.
use vstd::prelude::*;
use vstd::string::*;
use crate::ast::{Ast, Expr, Node, NodeModel, binding_views, expr_views, lemma_expr_items_view};
use crate::check_model::Ctx;
use crate::compile_model::find_equation;
use crate::compiled_node::CompiledNode;
use crate::diagnostic::{HintKind, HintModel, InlayHint, hint_views};
use crate::function_type::{FunctionCallType, FunctionType};
use crate::messages::value_hint_label;
use crate::propagate_model::{
    Folding, as_arrays, column_inputs, extend_columns, find_seen, fold_expr, fold_items,
    fold_outputs, fold_var, only_unit, run_columns, value_hint,
};
use crate::span::{Ident, Span};
use crate::value::{
    Value, ValueModel, copy_values, lemma_value_items_view, option_value_view, value_rows_view,
    value_views,
};

verus! {

/// The models of what the names of a node fold to.
pub open spec fn seen_views(v: Seq<(String, Option<Value>)>) -> Seq<(Seq<char>, Option<ValueModel>)> {
    Seq::new(v.len(), |i: int| (v[i].0@, option_value_view(v[i].1)))
}

/// The state of constant propagation: the new program, the equations of
/// the node that is being folded, what its names fold to, and the hints.
pub struct PropagaterConst {
    pub ast: Ast,
    pub equations: Vec<(Ident, Expr)>,
    pub seen_equations: Vec<(String, Option<Value>)>,
    pub hints: Vec<InlayHint>,
    pub budget: usize,
}

impl View for PropagaterConst {
    type V = Folding;

    open spec fn view(&self) -> Folding {
        Folding {
            equations: binding_views(self.equations@),
            seen: seen_views(self.seen_equations@),
            hints: hint_views(self.hints@),
            budget: self.budget as nat,
        }
    }
}

fn find_equation_in(node: &Node, name: &Span) -> (r: Option<usize>)
    ensures
        match r {
            Some(i) => find_equation(node@.let_bindings, name@.fragment, 0) == Some(i as int) && i
                < node.let_bindings.len(),
            None => find_equation(node@.let_bindings, name@.fragment, 0) is None,
        },
{
    let mut i: usize = 0;
    while i < node.let_bindings.len()
        invariant
            i <= node.let_bindings.len(),
            find_equation(node@.let_bindings, name@.fragment, 0) == find_equation(
                node@.let_bindings,
                name@.fragment,
                i as int,
            ),
        decreases node.let_bindings.len() - i,
    {
        if node.let_bindings[i].0.same_name(name) {
            return Some(i);
        }
        i += 1;
    }
    None
}

fn inputs_of_step(rows: &Vec<Vec<Value>>, k: usize) -> (r: Option<Vec<Value>>)
    ensures
        match r {
            Some(v) => column_inputs(value_rows_view(rows@), k as int, rows.len() as int) == Some(
                value_views(v@),
            ),
            None => column_inputs(value_rows_view(rows@), k as int, rows.len() as int) is None,
        },
{
    let ghost models = value_rows_view(rows@);
    let mut out: Vec<Value> = Vec::new();
    let mut i: usize = 0;
    while i < rows.len()
        invariant
            i <= rows.len(),
            models == value_rows_view(rows@),
            column_inputs(models, k as int, i as int) == Some(value_views(out@)),
        decreases rows.len() - i,
    {
        if k < rows[i].len() {
            let ghost before = value_views(out@);
            out.push(rows[i][k].copy());
            assert(value_views(out@) =~= before.push(models[i as int][k as int]));
        } else {
            proof {
                lemma_column_inputs_none(models, k as int, i + 1, rows.len() as int);
            }
            return None;
        }
        i += 1;
    }
    Some(out)
}

/// Once a row has no item for a step, no longer list of rows has inputs.
pub proof fn lemma_column_inputs_none(rows: Seq<Seq<ValueModel>>, k: int, n: int, m: int)
    requires
        0 < n <= m <= rows.len(),
        column_inputs(rows, k, n) is None,
    ensures
        column_inputs(rows, k, m) is None,
    decreases m - n,
{
    if n < m {
        lemma_column_inputs_none(rows, k, n, m - 1);
    }
}

fn extend(columns: &Vec<Vec<Value>>, outs: &Vec<Value>) -> (r: Vec<Vec<Value>>)
    ensures
        value_rows_view(r@) == extend_columns(value_rows_view(columns@), value_views(outs@)),
{
    let ghost expected = extend_columns(value_rows_view(columns@), value_views(outs@));
    let mut r: Vec<Vec<Value>> = Vec::new();
    let mut i: usize = 0;
    while i < outs.len()
        invariant
            i <= outs.len(),
            r.len() == i,
            expected == extend_columns(value_rows_view(columns@), value_views(outs@)),
            forall|j: int| 0 <= j < i ==> value_views(r[j]@) == expected[j],
        decreases outs.len() - i,
    {
        let mut column = if i < columns.len() {
            copy_values(&columns[i])
        } else {
            Vec::new()
        };
        let ghost before = value_views(column@);
        column.push(outs[i].copy());
        assert(value_views(column@) =~= before.push(outs[i as int]@));
        assert(value_views(column@) =~= expected[i as int]);
        r.push(column);
        i += 1;
    }
    assert(value_rows_view(r@) =~= expected);
    r
}

fn columns_as_arrays(columns: Vec<Vec<Value>>) -> (r: Vec<Value>)
    ensures
        value_views(r@) == as_arrays(value_rows_view(columns@)),
{
    let mut r: Vec<Value> = Vec::new();
    let mut i: usize = 0;
    while i < columns.len()
        invariant
            i <= columns.len(),
            r.len() == i,
            forall|j: int| 0 <= j < i ==> r[j]@ == ValueModel::Array(value_views(columns[j]@)),
        decreases columns.len() - i,
    {
        let array = Value::Array(copy_values(&columns[i]));
        proof {
            lemma_value_items_view(array);
        }
        r.push(array);
        i += 1;
    }
    assert(value_views(r@) =~= as_arrays(value_rows_view(columns@)));
    r
}

fn run_lifted(node: &mut CompiledNode, rows: &Vec<Vec<Value>>, count: usize) -> (r: Option<
    Vec<Vec<Value>>,
>)
    ensures
        match r {
            Some(columns) => run_columns(
                old(node)@,
                value_rows_view(rows@),
                0,
                count as int,
                Seq::empty(),
            ) == Some(value_rows_view(columns@)),
            None => run_columns(old(node)@, value_rows_view(rows@), 0, count as int, Seq::empty())
                is None,
        },
{
    let ghost models = value_rows_view(rows@);
    let mut columns: Vec<Vec<Value>> = Vec::new();
    assert(value_rows_view(columns@) =~= Seq::empty());
    let mut k: usize = 0;
    while k < count
        invariant
            k <= count,
            models == value_rows_view(rows@),
            run_columns(old(node)@, models, 0, count as int, Seq::empty()) == run_columns(
                node@,
                models,
                k as int,
                count as int,
                value_rows_view(columns@),
            ),
        decreases count - k,
    {
        let inputs = match inputs_of_step(rows, k) {
            Some(inputs) => inputs,
            None => {
                return None;
            },
        };
        let outs = match node.try_step(inputs) {
            Some(outs) => outs,
            None => {
                return None;
            },
        };
        columns = extend(&columns, &outs);
        k += 1;
    }
    Some(columns)
}

impl Ast {
    /// The value of a call of the node `name` on constant arguments, if it
    /// has one: the node is compiled and stepped on the arguments, item by
    /// item where the call is lifted.
    pub fn eval_call(&self, name: &Span, inputs: Vec<Value>) -> (r: Option<Value>)
        ensures
            option_value_view(r) == self@.call_value(name@.fragment, value_views(inputs@)),
    {
        let i = match self.find_node(name) {
            Some(i) => i,
            None => {
                return None;
            },
        };
        let (signature, _) = FunctionType::get_function_type(&self.nodes[i]);
        let call_type = match signature.function_call_type(&inputs) {
            Some(call_type) => call_type,
            None => {
                return None;
            },
        };
        let mut node = match self.compile(name) {
            Ok(node) => node,
            Err(_) => {
                return None;
            },
        };
        match call_type {
            FunctionCallType::Simple => match node.try_step(inputs) {
                Some(outs) => Some(Value::tuple_from_vec(outs)),
                None => None,
            },
            FunctionCallType::Array => {
                let rows = match Value::unwrap_array(inputs) {
                    Some(rows) => rows,
                    None => {
                        return None;
                    },
                };
                if rows.len() == 0 {
                    return None;
                }
                let count = rows[0].len();
                assert(value_rows_view(rows@)[0].len() == count);
                match run_lifted(&mut node, &rows, count) {
                    Some(columns) => Some(Value::tuple_from_vec(columns_as_arrays(columns))),
                    None => None,
                }
            },
        }
    }
}

impl PropagaterConst {
    /// A propagator that has folded nothing.
    pub fn new() -> (r: PropagaterConst)
        ensures
            r@ == (Folding {
                equations: Seq::empty(),
                seen: Seq::empty(),
                hints: Seq::empty(),
                budget: 0,
            }),
            r.ast@.nodes == Seq::<NodeModel>::empty(),
    {
        let r = PropagaterConst {
            ast: Ast::new(),
            equations: Vec::new(),
            seen_equations: Vec::new(),
            hints: Vec::new(),
            budget: 0,
        };
        assert(r@.equations =~= Seq::empty());
        assert(r@.seen =~= Seq::empty());
        assert(r@.hints =~= Seq::empty());
        r
    }

    fn find(&self, name: &Span) -> (r: Option<usize>)
        ensures
            match r {
                Some(i) => find_seen(self@.seen, name@.fragment, 0) == Some(i as int) && i
                    < self.seen_equations.len(),
                None => find_seen(self@.seen, name@.fragment, 0) is None,
            },
    {
        let text = name.fragment();
        let mut i: usize = 0;
        while i < self.seen_equations.len()
            invariant
                i <= self.seen_equations.len(),
                text@ == name@.fragment,
                find_seen(self@.seen, name@.fragment, 0) == find_seen(
                    self@.seen,
                    name@.fragment,
                    i as int,
                ),
            decreases self.seen_equations.len() - i,
        {
            if self.seen_equations[i].0 == text {
                return Some(i);
            }
            i += 1;
        }
        None
    }

    fn mark(&mut self, name: &Span, v: Option<Value>)
        ensures
            final(self)@ == old(self)@.mark(name@.fragment, option_value_view(v)),
            final(self).ast == old(self).ast,
    {
        let ghost before = self@.seen;
        match self.find(name) {
            Some(i) => {
                self.seen_equations.set(i, (name.fragment(), v));
                assert(self@.seen =~= before.update(
                    i as int,
                    (name@.fragment, option_value_view(v)),
                ));
            },
            None => {
                self.seen_equations.push((name.fragment(), v));
                assert(self@.seen =~= before.push((name@.fragment, option_value_view(v))));
            },
        }
    }

    fn keep(&mut self, name: Span, e: Expr)
        ensures
            final(self)@ == old(self)@.keep(name@, e@),
            final(self).ast == old(self).ast,
    {
        let ghost before = self@.equations;
        self.equations.push((name, e));
        assert(self@.equations =~= before.push((name@, e@)));
    }

    fn push_hint(&mut self, hint: InlayHint)
        ensures
            final(self)@ == (Folding { hints: old(self)@.hints.push(hint@), ..old(self)@ }),
            final(self).ast == old(self).ast,
    {
        let ghost before = self@.hints;
        self.hints.push(hint);
        assert(self@.hints =~= before.push(hint@));
    }

    fn show(&mut self, node: &Node, i: usize, v: &Value)
        ensures
            final(self)@ == old(self)@.show(node@, i as int, v@),
            final(self).ast == old(self).ast,
    {
        if i < node.span_semicolon_equations.len() {
            let hint = InlayHint {
                position: node.span_semicolon_equations[i].position_end(),
                label: value_hint_label(v),
                kind: HintKind::Value,
            };
            assert(hint@ == value_hint(node@.span_semicolon_equations[i as int], v@));
            self.push_hint(hint);
        }
    }

    fn fold_binop(&mut self, ast: &Ast, node: &Node, expr: &Expr) -> (r: Expr)
        requires
            expr is BinOp,
        ensures
            (final(self)@, r@) == fold_expr(Ctx { ast: ast@, node: node@ }, old(self)@, expr@),
            final(self).budget <= old(self).budget,
            final(self).ast == old(self).ast,
        decreases old(self).budget, 1int, expr, 0int,
    {
        let ghost st0 = self@;
        match expr {
            Expr::BinOp { lhs, op, span_op, rhs } => {
                let l = self.const_expr(ast, node, lhs);
                assert(self@.capped(st0.budget) == self@);
                let r = self.const_expr(ast, node, rhs);
                let folded = match (l.get_value(), r.get_value()) {
                    (Some(lv), Some(rv)) => op.apply(&lv, &rv, None),
                    _ => None,
                };
                match folded {
                    Some(v) => Expr::Lit(v),
                    None => Expr::BinOp {
                        lhs: Box::new(l),
                        op: *op,
                        span_op: span_op.copy(),
                        rhs: Box::new(r),
                    },
                }
            },
            _ => expr.copy(),
        }
    }

    fn fold_unop(&mut self, ast: &Ast, node: &Node, expr: &Expr) -> (r: Expr)
        requires
            expr is UnaryOp,
        ensures
            (final(self)@, r@) == fold_expr(Ctx { ast: ast@, node: node@ }, old(self)@, expr@),
            final(self).budget <= old(self).budget,
            final(self).ast == old(self).ast,
        decreases old(self).budget, 1int, expr, 0int,
    {
        match expr {
            Expr::UnaryOp { op, span_op, rhs } => {
                let r = self.const_expr(ast, node, rhs);
                let folded = match r.get_value() {
                    Some(rv) => op.apply(&rv, None),
                    None => None,
                };
                match folded {
                    Some(v) => Expr::Lit(v),
                    None => Expr::UnaryOp { op: *op, span_op: span_op.copy(), rhs: Box::new(r) },
                }
            },
            _ => expr.copy(),
        }
    }

    #[verifier::loop_isolation(false)]
    fn fold_list(&mut self, ast: &Ast, node: &Node, items: &Vec<Expr>) -> (r: Vec<Expr>)
        ensures
            (final(self)@, expr_views(r@)) == fold_items(
                Ctx { ast: ast@, node: node@ },
                old(self)@,
                expr_views(items@),
                0,
                Seq::empty(),
            ),
            final(self).budget <= old(self).budget,
            final(self).ast == old(self).ast,
        decreases old(self).budget, 1int, items, items.len(),
    {
        let ghost ctx = Ctx { ast: ast@, node: node@ };
        let ghost st0 = self@;
        let ghost models = expr_views(items@);
        let mut out: Vec<Expr> = Vec::new();
        assert(expr_views(out@) =~= Seq::empty());
        let mut k: usize = 0;
        while k < items.len()
            invariant
                k <= items.len(),
                self.budget <= st0.budget,
                self.ast == old(self).ast,
                fold_items(ctx, st0, models, 0, Seq::empty()) == fold_items(
                    ctx,
                    self@,
                    models,
                    k as int,
                    expr_views(out@),
                ),
            decreases items.len() - k,
        {
            let ghost st = self@;
            let ghost before = expr_views(out@);
            let e = self.const_expr(ast, node, &items[k]);
            assert(self@.capped(st.budget) == self@);
            out.push(e);
            assert(expr_views(out@) =~= before.push(e@));
            k += 1;
        }
        out
    }

    fn fold_call(&mut self, ast: &Ast, node: &Node, expr: &Expr) -> (r: Expr)
        requires
            expr is FCall,
        ensures
            (final(self)@, r@) == fold_expr(Ctx { ast: ast@, node: node@ }, old(self)@, expr@),
            final(self).budget <= old(self).budget,
            final(self).ast == old(self).ast,
        decreases old(self).budget, 1int, expr, 0int,
    {
        proof {
            lemma_expr_items_view(*expr);
        }
        match expr {
            Expr::FCall { name, args } => {
                let folded = self.fold_list(ast, node, args);
                let unit = folded.len() == 1 && folded[0].is_lit_unit();
                assert(unit == only_unit(expr_views(folded@)));
                let value = if unit {
                    None
                } else {
                    match Expr::get_values(&folded) {
                        Some(inputs) => ast.eval_call(name, inputs),
                        None => None,
                    }
                };
                match value {
                    Some(v) => Expr::Lit(v),
                    None => {
                        let r = Expr::FCall { name: name.copy(), args: folded };
                        proof {
                            lemma_expr_items_view(r);
                        }
                        r
                    },
                }
            },
            _ => expr.copy(),
        }
    }

    /// The expression with its constant parts folded.
    pub fn const_expr(&mut self, ast: &Ast, node: &Node, expr: &Expr) -> (r: Expr)
        ensures
            (final(self)@, r@) == fold_expr(Ctx { ast: ast@, node: node@ }, old(self)@, expr@),
            final(self).budget <= old(self).budget,
            final(self).ast == old(self).ast,
        decreases old(self).budget, 1int, expr, 1int,
    {
        proof {
            lemma_expr_items_view(*expr);
        }
        match expr {
            Expr::BinOp { .. } => self.fold_binop(ast, node, expr),
            Expr::UnaryOp { .. } => self.fold_unop(ast, node, expr),
            Expr::Tuple(items) => {
                let r = Expr::Tuple(self.fold_list(ast, node, items));
                proof {
                    lemma_expr_items_view(r);
                }
                r
            },
            Expr::Array(items) => {
                let r = Expr::Array(self.fold_list(ast, node, items));
                proof {
                    lemma_expr_items_view(r);
                }
                r
            },
            Expr::FCall { .. } => self.fold_call(ast, node, expr),
            Expr::Variable(var) => match self.const_var(ast, node, var) {
                Some(v) => Expr::Lit(v),
                None => expr.copy(),
            },
            Expr::Lit(_) => expr.copy(),
            Expr::If { .. } => expr.copy(),
        }
    }

    /// The value that a variable folds to, if any; what is found is kept
    /// for the name.
    pub fn const_var(&mut self, ast: &Ast, node: &Node, var: &Span) -> (r: Option<Value>)
        ensures
            (final(self)@, option_value_view(r)) == fold_var(
                Ctx { ast: ast@, node: node@ },
                old(self)@,
                var@,
            ),
            final(self).budget <= old(self).budget,
            final(self).ast == old(self).ast,
        decreases old(self).budget, 0int,
    {
        match self.find(var) {
            Some(i) => {
                assert(self@.seen[i as int].1 == option_value_view(self.seen_equations[i as int].1));
                return match &self.seen_equations[i].1 {
                    Some(v) => Some(v.copy()),
                    None => None,
                };
            },
            None => {},
        }
        let i = match find_equation_in(node, var) {
            Some(i) => i,
            None => {
                return None;
            },
        };
        self.mark(var, None);
        if self.budget == 0 {
            return None;
        }
        self.budget = self.budget - 1;
        let e = self.const_expr(ast, node, &node.let_bindings[i].1);
        match e.get_value() {
            Some(v) => {
                self.show(node, i, &v);
                self.mark(var, Some(v.copy()));
                Some(v)
            },
            None => {
                self.keep(node.let_bindings[i].0.copy(), e);
                self.mark(var, None);
                None
            },
        }
    }

    /// Folds a node: the equation of each output is folded and goes to
    /// the new node, which is added to the new program; a test gets the
    /// hint of its verdict.
    pub fn const_node(&mut self, ast: &Ast, node: &Node)
        ensures
            final(self).ast@.nodes == old(self).ast@.nodes.push(
                ast@.node_folded(node@, old(self)@.hints),
            ),
            final(self)@.hints == ast@.node_hints(node@, old(self)@.hints),
    {
        self.equations = Vec::new();
        self.seen_equations = Vec::new();
        self.budget = node.let_bindings.len();
        assert(self@.equations =~= Seq::empty());
        assert(self@.seen =~= Seq::empty());
        let ghost ctx = Ctx { ast: ast@, node: node@ };
        let ghost start = self@;
        let mut k: usize = 0;
        while k < node.outputs.len()
            invariant
                k <= node.outputs.len(),
                ctx == (Ctx { ast: ast@, node: node@ }),
                self.ast == old(self).ast,
                self@ == fold_outputs(ctx, start, k as int),
            decreases node.outputs.len() - k,
        {
            let out = &node.outputs[k].0;
            assert(ctx.node.outputs[k as int].0 == out@);
            match find_equation_in(node, out) {
                None => {},
                Some(i) => {
                    self.mark(out, None);
                    self.budget = node.let_bindings.len();
                    let e = self.const_expr(ast, node, &node.let_bindings[i].1);
                    let value = e.get_value();
                    match &value {
                        Some(v) => {
                            self.show(node, i, v);
                        },
                        None => {},
                    }
                    self.mark(out, value);
                    self.keep(node.let_bindings[i].0.copy(), e);
                },
            }
            k += 1;
        }
        let mut folded = node.shell_from_node();
        let mut equations: Vec<(Ident, Expr)> = Vec::new();
        std::mem::swap(&mut equations, &mut self.equations);
        folded.let_bindings = equations;
        assert(folded@ == ast@.node_folded(node@, old(self)@.hints));
        match folded.hint_reduced() {
            Some((position, label)) => {
                self.push_hint(InlayHint { position, label, kind: HintKind::Verdict });
            },
            None => {},
        }
        self.ast.push_node(folded);
    }

    /// Folds every node of a program into the new program.
    pub fn const_ast(&mut self, ast: &Ast)
        requires
            old(self).ast@.nodes == Seq::<NodeModel>::empty(),
            old(self)@.hints == Seq::<HintModel>::empty(),
        ensures
            (final(self).ast@, final(self)@.hints) == ast@.propagated(),
    {
        let mut k: usize = 0;
        while k < ast.nodes.len()
            invariant
                k <= ast.nodes.len(),
                (self.ast@.nodes, self@.hints) == ast@.nodes_folded(k as int),
            decreases ast.nodes.len() - k,
        {
            self.const_node(ast, &ast.nodes[k]);
            k += 1;
        }
    }
}

impl Ast {
    /// Propagates the constants of the program: gives the program with
    /// the equation of each output folded as far as it goes, and the hints
    /// that show the values found and which tests pass. Nothing is
    /// reported as an error: what does not fold is left as it is.
    pub fn propagate_const(&self) -> (r: (Ast, Vec<InlayHint>))
        ensures
            (r.0@, hint_views(r.1@)) == self@.propagated(),
    {
        let mut propagater = PropagaterConst::new();
        propagater.const_ast(self);
        (propagater.ast, propagater.hints)
    }
}

} // verus!
