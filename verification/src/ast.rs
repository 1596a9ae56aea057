//! The syntax tree: expressions, nodes and programs.
use vstd::prelude::*;
use vstd::string::*;
use crate::ops::{BinOp, UnaryOp};
use crate::span::{Ident, Position, Span, SpanModel};
use crate::types::{VarType, VarTypeModel};
use crate::value::{Value, ValueModel, lemma_value_items_view, value_views};

verus! {

/// What a node is tagged with.
#[derive(Debug, Clone, Copy, PartialEq, Eq, Structural)]
pub enum Tag {
    Test,
}

impl Tag {
    /// The tag as it is written between `#[` and `]`.
    pub open spec fn text(self) -> Seq<char> {
        "test"@
    }

    /// The tag as it is written between `#[` and `]`.
    pub fn to_text(&self) -> (s: String)
        ensures
            s@ == self.text(),
    {
        String::from_str("test")
    }
}

/// The mathematical model of an expression.
pub enum ExprModel {
    BinOp { lhs: Box<ExprModel>, op: BinOp, span_op: SpanModel, rhs: Box<ExprModel> },
    UnaryOp { op: UnaryOp, span_op: SpanModel, rhs: Box<ExprModel> },
    If { cond: Box<ExprModel>, yes: Box<ExprModel>, no: Box<ExprModel> },
    Array(Seq<ExprModel>),
    Tuple(Seq<ExprModel>),
    FCall { name: SpanModel, args: Seq<ExprModel> },
    Variable(SpanModel),
    Lit(ValueModel),
}

/// An expression of the source language. A binary or unary operation
/// carries the span of its operator.
#[derive(Debug)]
pub enum Expr {
    BinOp { lhs: Box<Expr>, op: BinOp, span_op: Span, rhs: Box<Expr> },
    UnaryOp { op: UnaryOp, span_op: Span, rhs: Box<Expr> },
    If { cond: Box<Expr>, yes: Box<Expr>, no: Box<Expr> },
    Array(Vec<Expr>),
    Tuple(Vec<Expr>),
    FCall { name: Ident, args: Vec<Expr> },
    Variable(Span),
    Lit(Value),
}

impl Expr {
    /// The model of the expression.
    pub open spec fn model(self) -> ExprModel
        decreases self,
    {
        match self {
            Expr::BinOp { lhs, op, span_op, rhs } => ExprModel::BinOp {
                lhs: Box::new((*lhs).model()),
                op,
                span_op: span_op@,
                rhs: Box::new((*rhs).model()),
            },
            Expr::UnaryOp { op, span_op, rhs } => ExprModel::UnaryOp {
                op,
                span_op: span_op@,
                rhs: Box::new((*rhs).model()),
            },
            Expr::If { cond, yes, no } => ExprModel::If {
                cond: Box::new((*cond).model()),
                yes: Box::new((*yes).model()),
                no: Box::new((*no).model()),
            },
            Expr::Array(v) => ExprModel::Array(
                Seq::new(
                    v.len() as nat,
                    |i: int|
                        if 0 <= i < v.len() {
                            v[i].model()
                        } else {
                            ExprModel::Lit(ValueModel::Unit)
                        },
                ),
            ),
            Expr::Tuple(v) => ExprModel::Tuple(
                Seq::new(
                    v.len() as nat,
                    |i: int|
                        if 0 <= i < v.len() {
                            v[i].model()
                        } else {
                            ExprModel::Lit(ValueModel::Unit)
                        },
                ),
            ),
            Expr::FCall { name, args } => ExprModel::FCall {
                name: name@,
                args: Seq::new(
                    args.len() as nat,
                    |i: int|
                        if 0 <= i < args.len() {
                            args[i].model()
                        } else {
                            ExprModel::Lit(ValueModel::Unit)
                        },
                ),
            },
            Expr::Variable(s) => ExprModel::Variable(s@),
            Expr::Lit(v) => ExprModel::Lit(v@),
        }
    }
}

impl View for Expr {
    type V = ExprModel;

    open spec fn view(&self) -> ExprModel {
        self.model()
    }
}

/// The models of a list of expressions.
pub open spec fn expr_views(v: Seq<Expr>) -> Seq<ExprModel> {
    Seq::new(v.len(), |i: int| v[i]@)
}

/// The model of an expression that holds a list is made of the models of
/// the items.
pub proof fn lemma_expr_items_view(e: Expr)
    ensures
        e matches Expr::Array(items) ==> e@ == ExprModel::Array(expr_views(items@)),
        e matches Expr::Tuple(items) ==> e@ == ExprModel::Tuple(expr_views(items@)),
        e matches Expr::FCall { name, args } ==> e@ == (ExprModel::FCall {
            name: name@,
            args: expr_views(args@),
        }),
{
    match e {
        Expr::Array(items) => {
            assert(e@->Array_0 =~= expr_views(items@));
        },
        Expr::Tuple(items) => {
            assert(e@->Tuple_0 =~= expr_views(items@));
        },
        Expr::FCall { name, args } => {
            assert(e@->FCall_args =~= expr_views(args@));
        },
        _ => {},
    }
}

/// The values of the first `n` expressions of a list, or `None` when one
/// of them is no constant.
pub open spec fn values_upto(items: Seq<ExprModel>, n: int) -> Option<Seq<ValueModel>>
    decreases items, n,
{
    if n <= 0 || n > items.len() {
        Some(Seq::empty())
    } else {
        match (values_upto(items, n - 1), items[n - 1].value()) {
            (Some(s), Some(v)) => Some(s.push(v)),
            _ => None,
        }
    }
}

impl ExprModel {
    /// The value of a constant expression: a literal, or a tuple or array
    /// of constant expressions. `None` for any other expression.
    pub open spec fn value(self) -> Option<ValueModel>
        decreases self, 0int,
    {
        match self {
            ExprModel::Lit(v) => Some(v),
            ExprModel::Tuple(items) => match values_upto(items, items.len() as int) {
                Some(s) => Some(ValueModel::Tuple(s)),
                None => None,
            },
            ExprModel::Array(items) => match values_upto(items, items.len() as int) {
                Some(s) => Some(ValueModel::Array(s)),
                None => None,
            },
            _ => None,
        }
    }

    /// The literal `true`.
    pub open spec fn lit_true() -> ExprModel {
        ExprModel::Lit(ValueModel::Bool(true))
    }

    /// The unit literal.
    pub open spec fn lit_unit() -> ExprModel {
        ExprModel::Lit(ValueModel::Unit)
    }
}

/// Once an expression is no constant, no longer prefix has values.
pub proof fn lemma_values_upto_none(items: Seq<ExprModel>, n: int, m: int)
    requires
        0 < n <= m <= items.len(),
        values_upto(items, n) is None,
    ensures
        values_upto(items, m) is None,
    decreases m - n,
{
    if n < m {
        lemma_values_upto_none(items, n, m - 1);
    }
}

/// Copies a list of expressions.
pub fn copy_exprs(v: &Vec<Expr>) -> (out: Vec<Expr>)
    ensures
        expr_views(out@) == expr_views(v@),
    decreases v,
{
    let mut out: Vec<Expr> = Vec::new();
    let mut i: usize = 0;
    while i < v.len()
        invariant
            i <= v.len(),
            out.len() == i,
            forall|j: int| 0 <= j < i ==> out[j]@ == v[j]@,
        decreases v.len() - i,
    {
        out.push(v[i].copy());
        i += 1;
    }
    assert(expr_views(out@) =~= expr_views(v@));
    out
}

impl Expr {
    /// A deep copy.
    pub fn copy(&self) -> (r: Expr)
        ensures
            r@ == self@,
        decreases self,
    {
        proof {
            lemma_expr_items_view(*self);
        }
        match self {
            Expr::BinOp { lhs, op, span_op, rhs } => Expr::BinOp {
                lhs: Box::new(lhs.copy()),
                op: *op,
                span_op: span_op.copy(),
                rhs: Box::new(rhs.copy()),
            },
            Expr::UnaryOp { op, span_op, rhs } => Expr::UnaryOp {
                op: *op,
                span_op: span_op.copy(),
                rhs: Box::new(rhs.copy()),
            },
            Expr::If { cond, yes, no } => Expr::If {
                cond: Box::new(cond.copy()),
                yes: Box::new(yes.copy()),
                no: Box::new(no.copy()),
            },
            Expr::Array(v) => {
                let r = Expr::Array(copy_exprs(v));
                proof {
                    lemma_expr_items_view(r);
                }
                r
            },
            Expr::Tuple(v) => {
                let r = Expr::Tuple(copy_exprs(v));
                proof {
                    lemma_expr_items_view(r);
                }
                r
            },
            Expr::FCall { name, args } => {
                let r = Expr::FCall { name: name.copy(), args: copy_exprs(args) };
                proof {
                    lemma_expr_items_view(r);
                }
                r
            },
            Expr::Variable(s) => Expr::Variable(s.copy()),
            Expr::Lit(v) => Expr::Lit(v.copy()),
        }
    }

    /// The values of a list of constant expressions. `None` when one of
    /// them is no constant.
    #[verifier::loop_isolation(false)]
    pub fn get_values(items: &Vec<Expr>) -> (r: Option<Vec<Value>>)
        ensures
            match r {
                Some(v) => values_upto(expr_views(items@), items.len() as int) == Some(
                    value_views(v@),
                ),
                None => values_upto(expr_views(items@), items.len() as int) is None,
            },
        decreases items,
    {
        let ghost models = expr_views(items@);
        let mut out: Vec<Value> = Vec::new();
        let mut i: usize = 0;
        while i < items.len()
            invariant
                i <= items.len(),
                values_upto(models, i as int) == Some(value_views(out@)),
            decreases items.len() - i,
        {
            match items[i].get_value() {
                Some(v) => {
                    let ghost before = value_views(out@);
                    out.push(v);
                    assert(value_views(out@) =~= before.push(v@));
                },
                None => {
                    proof {
                        lemma_values_upto_none(models, i + 1, items.len() as int);
                    }
                    return None;
                },
            }
            i += 1;
        }
        Some(out)
    }

    /// The value of a constant expression: a literal, or a tuple or array
    /// of constant expressions. `None` for any other expression.
    pub fn get_value(&self) -> (r: Option<Value>)
        ensures
            crate::value::option_value_view(r) == self@.value(),
        decreases self,
    {
        proof {
            lemma_expr_items_view(*self);
        }
        match self {
            Expr::Tuple(items) => match Expr::get_values(items) {
                Some(v) => {
                    let r = Value::Tuple(v);
                    proof {
                        lemma_value_items_view(r);
                    }
                    Some(r)
                },
                None => None,
            },
            Expr::Array(items) => match Expr::get_values(items) {
                Some(v) => {
                    let r = Value::Array(v);
                    proof {
                        lemma_value_items_view(r);
                    }
                    Some(r)
                },
                None => None,
            },
            Expr::Lit(v) => Some(v.copy()),
            _ => None,
        }
    }

    /// Whether the expression is the literal `true`.
    pub fn is_lit_true(&self) -> (b: bool)
        ensures
            b == (self@ == ExprModel::lit_true()),
    {
        match self {
            Expr::Lit(Value::Bool(b)) => *b,
            _ => false,
        }
    }

    /// Whether the expression is the unit literal.
    pub fn is_lit_unit(&self) -> (b: bool)
        ensures
            b == (self@ == ExprModel::lit_unit()),
    {
        match self {
            Expr::Lit(Value::Unit) => true,
            _ => false,
        }
    }
}

impl Clone for Expr {
    fn clone(&self) -> (r: Expr)
        ensures
            r@ == self@,
    {
        self.copy()
    }
}

/// The mathematical model of a node.
pub struct NodeModel {
    pub span_node: SpanModel,
    pub span_returns: SpanModel,
    pub span_let: SpanModel,
    pub span_tel: SpanModel,
    pub span_semicolon: SpanModel,
    pub tag: Option<(SpanModel, Tag)>,
    pub name: SpanModel,
    pub inputs: Seq<(SpanModel, VarTypeModel)>,
    pub vars: Seq<(SpanModel, VarTypeModel)>,
    pub outputs: Seq<(SpanModel, VarTypeModel)>,
    pub let_bindings: Seq<(SpanModel, ExprModel)>,
    pub span_semicolon_equations: Seq<SpanModel>,
}

/// A node: a named reactive function with typed inputs and outputs and
/// the equations that define its streams. `span_semicolon_equations` holds
/// the span of the semicolon that ends each equation.
#[derive(Debug)]
pub struct Node {
    pub span_node: Span,
    pub span_returns: Span,
    pub span_let: Span,
    pub span_tel: Span,
    pub span_semicolon: Span,
    pub tag: Option<(Span, Tag)>,
    pub name: Span,
    pub inputs: Vec<(Ident, VarType)>,
    pub vars: Vec<(Ident, VarType)>,
    pub outputs: Vec<(Ident, VarType)>,
    pub let_bindings: Vec<(Ident, Expr)>,
    pub span_semicolon_equations: Vec<Span>,
}

/// The models of a list of typed names.
pub open spec fn param_views(v: Seq<(Ident, VarType)>) -> Seq<(SpanModel, VarTypeModel)> {
    Seq::new(v.len(), |i: int| (v[i].0@, v[i].1@))
}

/// The models of a list of equations.
pub open spec fn binding_views(v: Seq<(Ident, Expr)>) -> Seq<(SpanModel, ExprModel)> {
    Seq::new(v.len(), |i: int| (v[i].0@, v[i].1@))
}

/// The models of a list of spans.
pub open spec fn span_views(v: Seq<Span>) -> Seq<SpanModel> {
    Seq::new(v.len(), |i: int| v[i]@)
}

/// The model of an optional tag.
pub open spec fn tag_view(t: Option<(Span, Tag)>) -> Option<(SpanModel, Tag)> {
    match t {
        Some((s, tag)) => Some((s@, tag)),
        None => None,
    }
}

impl View for Node {
    type V = NodeModel;

    open spec fn view(&self) -> NodeModel {
        NodeModel {
            span_node: self.span_node@,
            span_returns: self.span_returns@,
            span_let: self.span_let@,
            span_tel: self.span_tel@,
            span_semicolon: self.span_semicolon@,
            tag: tag_view(self.tag),
            name: self.name@,
            inputs: param_views(self.inputs@),
            vars: param_views(self.vars@),
            outputs: param_views(self.outputs@),
            let_bindings: binding_views(self.let_bindings@),
            span_semicolon_equations: span_views(self.span_semicolon_equations@),
        }
    }
}

impl NodeModel {
    /// Whether the node is a test: it is tagged and has one output.
    pub open spec fn is_test(self) -> bool {
        self.tag is Some && self.outputs.len() == 1
    }

    /// Whether the node is reduced to one equation that gives its sole
    /// output the literal `true`.
    pub open spec fn is_only_true_equations(self) -> bool {
        &&& self.let_bindings.len() == 1
        &&& self.outputs.len() == 1
        &&& self.let_bindings[0].0.fragment == self.outputs[0].0.fragment
        &&& self.let_bindings[0].1 == ExprModel::lit_true()
    }

    /// The label that tells whether the test passed.
    pub open spec fn verdict_label(self) -> Seq<char> {
        if self.is_only_true_equations() {
            " ✅"@
        } else {
            " ❌"@
        }
    }

    /// The node without its equations.
    pub open spec fn shell(self) -> NodeModel {
        NodeModel { let_bindings: Seq::empty(), ..self }
    }

    /// The node with one more equation at the end.
    pub open spec fn with_equation(self, name: SpanModel, expr: ExprModel) -> NodeModel {
        NodeModel { let_bindings: self.let_bindings.push((name, expr)), ..self }
    }
}

fn copy_params(v: &Vec<(Ident, VarType)>) -> (out: Vec<(Ident, VarType)>)
    ensures
        param_views(out@) == param_views(v@),
{
    let mut out: Vec<(Ident, VarType)> = Vec::new();
    let mut i: usize = 0;
    while i < v.len()
        invariant
            i <= v.len(),
            out.len() == i,
            forall|j: int| 0 <= j < i ==> out[j].0@ == v[j].0@ && out[j].1@ == v[j].1@,
        decreases v.len() - i,
    {
        out.push((v[i].0.copy(), v[i].1.copy()));
        i += 1;
    }
    assert(param_views(out@) =~= param_views(v@));
    out
}

fn copy_bindings(v: &Vec<(Ident, Expr)>) -> (out: Vec<(Ident, Expr)>)
    ensures
        binding_views(out@) == binding_views(v@),
{
    let mut out: Vec<(Ident, Expr)> = Vec::new();
    let mut i: usize = 0;
    while i < v.len()
        invariant
            i <= v.len(),
            out.len() == i,
            forall|j: int| 0 <= j < i ==> out[j].0@ == v[j].0@ && out[j].1@ == v[j].1@,
        decreases v.len() - i,
    {
        out.push((v[i].0.copy(), v[i].1.copy()));
        i += 1;
    }
    assert(binding_views(out@) =~= binding_views(v@));
    out
}

fn copy_spans(v: &Vec<Span>) -> (out: Vec<Span>)
    ensures
        span_views(out@) == span_views(v@),
{
    let mut out: Vec<Span> = Vec::new();
    let mut i: usize = 0;
    while i < v.len()
        invariant
            i <= v.len(),
            out.len() == i,
            forall|j: int| 0 <= j < i ==> out[j]@ == v[j]@,
        decreases v.len() - i,
    {
        out.push(v[i].copy());
        i += 1;
    }
    assert(span_views(out@) =~= span_views(v@));
    out
}

impl Node {
    /// Whether the node is a test: it is tagged and has one output.
    pub fn is_test(&self) -> (b: bool)
        ensures
            b == self@.is_test(),
    {
        self.tag.is_some() && self.outputs.len() == 1
    }

    /// Whether the node is reduced to one equation that gives its sole
    /// output the literal `true`.
    pub fn is_only_true_equations(&self) -> (b: bool)
        ensures
            b == self@.is_only_true_equations(),
    {
        self.let_bindings.len() == 1 && self.outputs.len() == 1 && self.let_bindings[0].0.same_name(
            &self.outputs[0].0,
        ) && self.let_bindings[0].1.is_lit_true()
    }

    /// The verdict of a test, to be shown after its tag: a check mark when
    /// the node is reduced to `output = true`, a cross when it is not.
    /// `None` when the node has no tag.
    pub fn hint_reduced(&self) -> (r: Option<(Position, String)>)
        ensures
            match r {
                Some((position, label)) => {
                    &&& self@.tag matches Some((span, _))
                    &&& position == span.position_end()
                    &&& label@ == self@.verdict_label()
                },
                None => self@.tag is None,
            },
    {
        match &self.tag {
            Some((span, _)) => {
                let label = if self.is_only_true_equations() {
                    String::from_str(" ✅")
                } else {
                    String::from_str(" ❌")
                };
                Some((span.position_end(), label))
            },
            None => None,
        }
    }

    /// Adds an equation at the end.
    pub fn push_expr(&mut self, name: Span, expr: Expr)
        ensures
            final(self)@ == old(self)@.with_equation(name@, expr@),
    {
        let ghost before = binding_views(self.let_bindings@);
        self.let_bindings.push((name, expr));
        assert(binding_views(self.let_bindings@) =~= before.push((name@, expr@)));
    }

    /// A copy of the node without its equations.
    pub fn shell_from_node(&self) -> (r: Node)
        ensures
            r@ == self@.shell(),
    {
        let tag = match &self.tag {
            Some((s, t)) => Some((s.copy(), *t)),
            None => None,
        };
        let r = Node {
            span_node: self.span_node.copy(),
            span_returns: self.span_returns.copy(),
            span_let: self.span_let.copy(),
            span_tel: self.span_tel.copy(),
            span_semicolon: self.span_semicolon.copy(),
            tag,
            name: self.name.copy(),
            inputs: copy_params(&self.inputs),
            vars: copy_params(&self.vars),
            outputs: copy_params(&self.outputs),
            let_bindings: Vec::new(),
            span_semicolon_equations: copy_spans(&self.span_semicolon_equations),
        };
        assert(r@.let_bindings =~= Seq::empty());
        r
    }

    /// A deep copy.
    pub fn copy(&self) -> (r: Node)
        ensures
            r@ == self@,
    {
        let mut r = self.shell_from_node();
        r.let_bindings = copy_bindings(&self.let_bindings);
        r
    }
}

impl Clone for Node {
    fn clone(&self) -> (r: Node)
        ensures
            r@ == self@,
    {
        self.copy()
    }
}

/// The mathematical model of a program.
pub struct AstModel {
    pub nodes: Seq<NodeModel>,
}

/// A program: its nodes, in the order of the source.
#[derive(Debug)]
pub struct Ast {
    pub nodes: Vec<Node>,
}

/// The models of a list of nodes.
pub open spec fn node_views(v: Seq<Node>) -> Seq<NodeModel> {
    Seq::new(v.len(), |i: int| v[i]@)
}

impl View for Ast {
    type V = AstModel;

    open spec fn view(&self) -> AstModel {
        AstModel { nodes: node_views(self.nodes@) }
    }
}

impl AstModel {
    /// Whether the last node is a test.
    pub open spec fn last_is_test(self) -> bool {
        self.nodes.len() > 0 && self.nodes.last().is_test()
    }

    /// The program with one more equation in its last node; unchanged when
    /// it has no node.
    pub open spec fn with_equation(self, name: SpanModel, expr: ExprModel) -> AstModel {
        if self.nodes.len() == 0 {
            self
        } else {
            AstModel {
                nodes: self.nodes.update(
                    self.nodes.len() - 1,
                    self.nodes.last().with_equation(name, expr),
                ),
            }
        }
    }

    /// The position of the first node from `from` on that has the name.
    pub open spec fn find_node(self, name: Seq<char>, from: int) -> Option<int>
        decreases self.nodes.len() - from,
    {
        if from < 0 || from >= self.nodes.len() {
            None
        } else if self.nodes[from].name.fragment == name {
            Some(from)
        } else {
            self.find_node(name, from + 1)
        }
    }
}

impl Ast {
    /// The empty program.
    pub fn new() -> (r: Ast)
        ensures
            r@.nodes == Seq::<NodeModel>::empty(),
    {
        let r = Ast { nodes: Vec::new() };
        assert(r@.nodes =~= Seq::empty());
        r
    }

    /// Whether the last node is a test.
    pub fn last_nodes_is_test(&self) -> (b: bool)
        ensures
            b == self@.last_is_test(),
    {
        if self.nodes.len() == 0 {
            false
        } else {
            self.nodes[self.nodes.len() - 1].is_test()
        }
    }

    /// The verdict of the last node, if it has a tag.
    pub fn hint_last_node_reduced(&self) -> (r: Option<(Position, String)>)
        ensures
            match r {
                Some((position, label)) => {
                    &&& self@.nodes.len() > 0
                    &&& self@.nodes.last().tag matches Some((span, _))
                    &&& position == span.position_end()
                    &&& label@ == self@.nodes.last().verdict_label()
                },
                None => self@.nodes.len() == 0 || self@.nodes.last().tag is None,
            },
    {
        if self.nodes.len() == 0 {
            None
        } else {
            self.nodes[self.nodes.len() - 1].hint_reduced()
        }
    }

    /// Adds an equation to the last node; nothing happens when there is none.
    pub fn push_expr(&mut self, name: Span, expr: Expr)
        ensures
            final(self)@ == old(self)@.with_equation(name@, expr@),
    {
        let n = self.nodes.len();
        if n > 0 {
            let ghost before = self@.nodes;
            let mut last = self.nodes[n - 1].copy();
            last.push_expr(name, expr);
            self.nodes.set(n - 1, last);
            assert(self@.nodes =~= before.update(
                n - 1,
                before.last().with_equation(name@, expr@),
            ));
        }
    }

    /// Adds a node at the end.
    pub fn push_node(&mut self, node: Node)
        ensures
            final(self)@.nodes == old(self)@.nodes.push(node@),
    {
        let ghost before = self@.nodes;
        self.nodes.push(node);
        assert(self@.nodes =~= before.push(node@));
    }

    /// The position of the first node with the given name.
    pub fn find_node(&self, name: &Span) -> (r: Option<usize>)
        ensures
            match r {
                Some(i) => self@.find_node(name@.fragment, 0) == Some(i as int) && i
                    < self.nodes.len(),
                None => self@.find_node(name@.fragment, 0) is None,
            },
    {
        let mut i: usize = 0;
        while i < self.nodes.len()
            invariant
                i <= self.nodes.len(),
                self@.find_node(name@.fragment, 0) == self@.find_node(name@.fragment, i as int),
            decreases self.nodes.len() - i,
        {
            if self.nodes[i].name.same_name(name) {
                return Some(i);
            }
            i += 1;
        }
        None
    }
}

} // verus!
