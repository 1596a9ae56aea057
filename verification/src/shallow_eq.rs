//! Comparison of two programs by what they say, wherever it stands in
//! the text.
use vstd::prelude::*;
use crate::ast::{Ast, AstModel, Expr, ExprModel, Node, NodeModel, Tag};
use crate::ops::BinOp;
use crate::span::{Ident, Span, SpanModel};
use crate::types::{VarType, VarTypeModel};
use crate::value::{Value, ValueModel};

verus! {

/// Whether two literals are the same integer, the same floating-point
/// text or the same boolean.
pub open spec fn same_literal(a: ValueModel, b: ValueModel) -> bool {
    match (a, b) {
        (ValueModel::Int(x), ValueModel::Int(y)) => x == y,
        (ValueModel::Float(x), ValueModel::Float(y)) => x == y,
        (ValueModel::Bool(x), ValueModel::Bool(y)) => x == y,
        _ => false,
    }
}

/// Whether two expressions agree as far as the comparison looks: two
/// binary operations must have the same operator and operands that
/// agree, two literals must be the same; any other pair passes.
pub open spec fn same_expr(a: ExprModel, b: ExprModel) -> bool
    decreases a,
{
    match (a, b) {
        (
            ExprModel::BinOp { lhs: alhs, op: aop, span_op: _, rhs: arhs },
            ExprModel::BinOp { lhs: blhs, op: bop, span_op: _, rhs: brhs },
        ) => same_expr(*alhs, *blhs) && aop == bop && same_expr(*arhs, *brhs),
        (ExprModel::Lit(x), ExprModel::Lit(y)) => same_literal(x, y),
        _ => true,
    }
}

/// Whether two lists of typed names have the same names and types.
pub open spec fn same_params(a: Seq<(SpanModel, VarTypeModel)>, b: Seq<(SpanModel, VarTypeModel)>) -> bool {
    &&& a.len() == b.len()
    &&& forall|i: int|
        0 <= i < a.len() ==> (#[trigger] a[i]).0.fragment == b[i].0.fragment && a[i].1 == b[i].1
}

/// Whether two lists of equations define the same names by expressions
/// that agree.
pub open spec fn same_bindings(a: Seq<(SpanModel, ExprModel)>, b: Seq<(SpanModel, ExprModel)>) -> bool {
    &&& a.len() == b.len()
    &&& forall|i: int|
        0 <= i < a.len() ==> (#[trigger] a[i]).0.fragment == b[i].0.fragment && same_expr(
            a[i].1,
            b[i].1,
        )
}

/// Whether two nodes agree: both tagged alike, of one name, with the same
/// parameters and with equations that agree.
pub open spec fn same_node(a: NodeModel, b: NodeModel) -> bool {
    &&& match (a.tag, b.tag) {
        (None, None) => true,
        (Some((_, s)), Some((_, t))) => s == t,
        _ => false,
    }
    &&& a.name.fragment == b.name.fragment
    &&& same_params(a.inputs, b.inputs)
    &&& same_params(a.outputs, b.outputs)
    &&& same_params(a.vars, b.vars)
    &&& same_bindings(a.let_bindings, b.let_bindings)
}

/// Whether two programs agree: as many nodes, which agree one by one.
pub open spec fn same_ast(a: AstModel, b: AstModel) -> bool {
    &&& a.nodes.len() == b.nodes.len()
    &&& forall|i: int| 0 <= i < a.nodes.len() ==> same_node(#[trigger] a.nodes[i], b.nodes[i])
}

/// A comparison under way: whether everything compared so far agreed.
pub struct ShallowEq {
    pub is_equal: bool,
}

impl ShallowEq {
    /// A comparison that has found no difference yet.
    pub fn new() -> (r: ShallowEq)
        ensures
            r.is_equal,
    {
        ShallowEq { is_equal: true }
    }

    /// Takes in the result of one more comparison.
    pub fn and(&mut self, b: bool)
        ensures
            final(self).is_equal == (old(self).is_equal && b),
    {
        self.is_equal = self.is_equal && b;
    }

    /// Sets the result.
    pub fn set(&mut self, b: bool)
        ensures
            final(self).is_equal == b,
    {
        self.is_equal = b;
    }

    /// Whether everything compared so far agreed.
    pub fn is_eq(&self) -> (b: bool)
        ensures
            b == self.is_equal,
    {
        self.is_equal
    }

    /// Compares two tags.
    pub fn visit_tag(&mut self, a: &Tag, b: &Tag)
        ensures
            final(self).is_equal == (old(self).is_equal && *a == *b),
    {
        self.and(*a == *b);
    }

    /// Compares two types.
    pub fn visit_var_type(&mut self, a: &VarType, b: &VarType)
        ensures
            final(self).is_equal == (old(self).is_equal && a@ == b@),
    {
        self.and(a.same(b));
    }

    /// Compares two operators.
    pub fn visit_bin_op(&mut self, a: &BinOp, b: &BinOp)
        ensures
            final(self).is_equal == (old(self).is_equal && *a == *b),
    {
        self.and(*a == *b);
    }

    /// Compares the texts of two spans.
    pub fn visit_span(&mut self, a: &Span, b: &Span)
        ensures
            final(self).is_equal == (old(self).is_equal && a@.fragment == b@.fragment),
    {
        self.and(a.same_name(b));
    }

    /// Compares two literals.
    pub fn visit_literal(&mut self, a: &Value, b: &Value)
        ensures
            final(self).is_equal == (old(self).is_equal && same_literal(a@, b@)),
    {
        match (a, b) {
            (Value::Int(x), Value::Int(y)) => {
                self.and(*x == *y);
            },
            (Value::Float(x), Value::Float(y)) => {
                self.and(*x == *y);
            },
            (Value::Bool(x), Value::Bool(y)) => {
                self.and(*x == *y);
            },
            _ => {
                self.set(false);
            },
        }
    }

    /// Compares two expressions as far as the comparison looks.
    pub fn visit_expr(&mut self, a: &Expr, b: &Expr)
        ensures
            final(self).is_equal == (old(self).is_equal && same_expr(a@, b@)),
        decreases a,
    {
        match (a, b) {
            (
                Expr::BinOp { lhs: alhs, op: aop, span_op: _, rhs: arhs },
                Expr::BinOp { lhs: blhs, op: bop, span_op: _, rhs: brhs },
            ) => {
                self.visit_expr(alhs, blhs);
                self.visit_bin_op(aop, bop);
                self.visit_expr(arhs, brhs);
            },
            (Expr::Lit(x), Expr::Lit(y)) => {
                self.visit_literal(x, y);
            },
            _ => {},
        }
    }

    fn visit_params(&mut self, a: &Vec<(Ident, VarType)>, b: &Vec<(Ident, VarType)>)
        ensures
            final(self).is_equal == (old(self).is_equal && same_params(
                crate::ast::param_views(a@),
                crate::ast::param_views(b@),
            )),
    {
        if a.len() != b.len() {
            self.set(false);
            return ;
        }
        let ghost am = crate::ast::param_views(a@);
        let ghost bm = crate::ast::param_views(b@);
        let mut i: usize = 0;
        while i < a.len()
            invariant
                i <= a.len(),
                a.len() == b.len(),
                am == crate::ast::param_views(a@),
                bm == crate::ast::param_views(b@),
                self.is_equal == (old(self).is_equal && forall|j: int|
                    0 <= j < i ==> (#[trigger] am[j]).0.fragment == bm[j].0.fragment && am[j].1
                        == bm[j].1),
            decreases a.len() - i,
        {
            self.visit_span(&a[i].0, &b[i].0);
            self.visit_var_type(&a[i].1, &b[i].1);
            assert(am[i as int] == (a[i as int].0@, a[i as int].1@));
            assert(bm[i as int] == (b[i as int].0@, b[i as int].1@));
            i += 1;
        }
    }

    fn visit_bindings(&mut self, a: &Vec<(Ident, Expr)>, b: &Vec<(Ident, Expr)>)
        ensures
            final(self).is_equal == (old(self).is_equal && same_bindings(
                crate::ast::binding_views(a@),
                crate::ast::binding_views(b@),
            )),
    {
        if a.len() != b.len() {
            self.set(false);
            return ;
        }
        let ghost am = crate::ast::binding_views(a@);
        let ghost bm = crate::ast::binding_views(b@);
        let mut i: usize = 0;
        while i < a.len()
            invariant
                i <= a.len(),
                a.len() == b.len(),
                am == crate::ast::binding_views(a@),
                bm == crate::ast::binding_views(b@),
                self.is_equal == (old(self).is_equal && forall|j: int|
                    0 <= j < i ==> (#[trigger] am[j]).0.fragment == bm[j].0.fragment && same_expr(
                        am[j].1,
                        bm[j].1,
                    )),
            decreases a.len() - i,
        {
            self.visit_span(&a[i].0, &b[i].0);
            self.visit_expr(&a[i].1, &b[i].1);
            assert(am[i as int] == (a[i as int].0@, a[i as int].1@));
            assert(bm[i as int] == (b[i as int].0@, b[i as int].1@));
            i += 1;
        }
    }

    /// Compares two nodes.
    pub fn visit_node(&mut self, a: &Node, b: &Node)
        ensures
            final(self).is_equal == (old(self).is_equal && same_node(a@, b@)),
    {
        match (&a.tag, &b.tag) {
            (None, None) => {},
            (Some((_, s)), Some((_, t))) => {
                self.visit_tag(s, t);
            },
            _ => {
                self.set(false);
            },
        }
        self.visit_span(&a.name, &b.name);
        self.visit_params(&a.inputs, &b.inputs);
        self.visit_params(&a.outputs, &b.outputs);
        self.visit_params(&a.vars, &b.vars);
        self.visit_bindings(&a.let_bindings, &b.let_bindings);
    }

    /// Compares two programs.
    pub fn visit_ast(&mut self, a: &Ast, b: &Ast)
        ensures
            final(self).is_equal == (old(self).is_equal && same_ast(a@, b@)),
    {
        if a.nodes.len() != b.nodes.len() {
            self.set(false);
            return ;
        }
        let mut i: usize = 0;
        while i < a.nodes.len()
            invariant
                i <= a.nodes.len(),
                a.nodes.len() == b.nodes.len(),
                self.is_equal == (old(self).is_equal && forall|j: int|
                    0 <= j < i ==> same_node(#[trigger] a@.nodes[j], b@.nodes[j])),
            decreases a.nodes.len() - i,
        {
            self.visit_node(&a.nodes[i], &b.nodes[i]);
            assert(a@.nodes[i as int] == a.nodes[i as int]@);
            assert(b@.nodes[i as int] == b.nodes[i as int]@);
            i += 1;
        }
    }

    /// Compares two programs.
    pub fn walk(&mut self, a: &Ast, b: &Ast)
        ensures
            final(self).is_equal == (old(self).is_equal && same_ast(a@, b@)),
    {
        self.visit_ast(a, b);
    }
}

} // verus!
