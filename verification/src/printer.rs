//! Writing a program out as source text.
use vstd::prelude::*;
use vstd::string::*;
use crate::ast::{
    Ast, AstModel, Expr, ExprModel, Node, NodeModel, binding_views, expr_views,
    lemma_expr_items_view, param_views,
};
use crate::ops::BinOp;
use crate::span::{Ident, SpanModel};
use crate::types::{InnerTypeModel, InnerVarType, VarType, VarTypeModel};

verus! {

/// A word where `present`, else nothing.
pub open spec fn maybe(present: bool, word: Seq<char>) -> Seq<char> {
    if present {
        word
    } else {
        Seq::empty()
    }
}

/// Whether a binary operation of `op` needs parentheses as an operand of
/// `parent`: where `op` binds less tightly, and on the right side also
/// where it binds as tightly, since the operators group to the left.
pub open spec fn needs_parentheses(parent: Option<BinOp>, right: bool, op: BinOp) -> bool {
    match parent {
        Some(p) => p.precedence_spec() < op.precedence_spec() || (right && p.precedence_spec()
            == op.precedence_spec()),
        None => false,
    }
}

/// The text of the first `n` expressions of a list, separated by commas.
pub open spec fn list_text(items: Seq<ExprModel>, n: int) -> Seq<char>
    decreases items, n,
{
    if n <= 0 || n > items.len() {
        Seq::empty()
    } else {
        list_text(items, n - 1) + maybe(n > 1, ", "@) + items[n - 1].text_under(None, false)
    }
}

impl ExprModel {
    /// The expression as source text, as an operand of `parent` if there
    /// is one, on its right side if `right`.
    pub open spec fn text_under(self, parent: Option<BinOp>, right: bool) -> Seq<char>
        decreases self, 0int,
    {
        match self {
            ExprModel::BinOp { lhs, op, span_op, rhs } => maybe(
                needs_parentheses(parent, right, op),
                "("@,
            ) + lhs.text_under(Some(op), false) + " "@ + op.text() + " "@ + rhs.text_under(
                Some(op),
                true,
            ) + maybe(needs_parentheses(parent, right, op), ")"@),
            ExprModel::Variable(name) => name.fragment,
            ExprModel::UnaryOp { op, span_op, rhs } => op.text() + " "@ + rhs.text_under(
                None,
                false,
            ),
            ExprModel::Lit(v) => v.text(),
            ExprModel::FCall { name, args } => name.fragment + "("@ + maybe(
                !crate::propagate_model::only_unit(args),
                list_text(args, args.len() as int),
            ) + ")"@,
            ExprModel::Tuple(items) => "("@ + list_text(items, items.len() as int) + ")"@,
            ExprModel::Array(items) => "["@ + list_text(items, items.len() as int) + "]"@,
            ExprModel::If { cond, yes, no } => "if "@ + cond.text_under(parent, right)
                + " then (\n"@ + yes.text_under(parent, right) + ") else (\n"@ + no.text_under(
                parent,
                right,
            ) + "\n)"@,
        }
    }

    /// The expression as source text.
    pub open spec fn text(self) -> Seq<char> {
        self.text_under(None, false)
    }
}

/// The text of the first `n` parameters, each a name, a colon and a type,
/// separated by commas.
pub open spec fn params_text(params: Seq<(SpanModel, VarTypeModel)>, n: int) -> Seq<char>
    decreases n,
{
    if n <= 0 || n > params.len() {
        Seq::empty()
    } else {
        params_text(params, n - 1) + maybe(n > 1, ", "@) + params[n - 1].0.fragment + " : "@
            + params[n - 1].1.text()
    }
}

/// The text of the first `n` equations, one per line after a tab.
pub open spec fn equations_text(bindings: Seq<(SpanModel, ExprModel)>, n: int) -> Seq<char>
    decreases n,
{
    if n <= 0 || n > bindings.len() {
        Seq::empty()
    } else {
        equations_text(bindings, n - 1) + "\t"@ + bindings[n - 1].0.fragment + " = "@
            + bindings[n - 1].1.text() + ";\n"@
    }
}

impl NodeModel {
    /// Whether the node has the one input unit, which is written `()`.
    pub open spec fn takes_unit(self) -> bool {
        self.inputs.len() == 1 && self.inputs[0].1.inner == InnerTypeModel::Unit
    }

    /// The node as source text: its tag if it has one, its declaration,
    /// and one equation per line between `let` and `tel`.
    pub open spec fn text(self) -> Seq<char> {
        maybe(self.tag is Some, "#[test]\n"@) + "node "@ + self.name.fragment + "("@ + maybe(
            !self.takes_unit(),
            params_text(self.inputs, self.inputs.len() as int),
        ) + ") returns ("@ + params_text(self.outputs, self.outputs.len() as int) + ");\n"@
            + "let\n"@ + equations_text(self.let_bindings, self.let_bindings.len() as int)
            + "tel"@
    }
}

impl AstModel {
    /// The text of the first `n` nodes: an empty line between two nodes,
    /// and the end of the line after the last node.
    pub open spec fn text_upto(self, n: int) -> Seq<char>
        decreases n,
    {
        if n <= 0 || n > self.nodes.len() {
            Seq::empty()
        } else {
            self.text_upto(n - 1) + self.nodes[n - 1].text() + if n == self.nodes.len() {
                "\n"@
            } else {
                "\n\n"@
            }
        }
    }

    /// The program as source text.
    pub open spec fn text(self) -> Seq<char> {
        self.text_upto(self.nodes.len() as int)
    }
}

fn append_list(s: &mut String, items: &Vec<Expr>)
    ensures
        final(s)@ == old(s)@ + list_text(expr_views(items@), items.len() as int),
    decreases items,
{
    let ghost start = s@;
    let ghost models = expr_views(items@);
    let mut i: usize = 0;
    assert(s@ =~= start + list_text(models, 0));
    while i < items.len()
        invariant
            i <= items.len(),
            models == expr_views(items@),
            s@ == start + list_text(models, i as int),
        decreases items.len() - i,
    {
        proof {
            broadcast use vstd::std_specs::vec::axiom_vec_index_decreases;

        }
        let ghost before = s@;
        if i != 0 {
            s.append(", ");
        }
        assert(s@ =~= before + maybe(i + 1 > 1, ", "@));
        s.append(items[i].to_text().as_str());
        assert(s@ =~= start + list_text(models, i + 1));
        i += 1;
    }
}

fn append_params(s: &mut String, params: &Vec<(Ident, VarType)>)
    ensures
        final(s)@ == old(s)@ + params_text(param_views(params@), params.len() as int),
{
    let ghost start = s@;
    let ghost models = param_views(params@);
    let mut i: usize = 0;
    assert(s@ =~= start + params_text(models, 0));
    while i < params.len()
        invariant
            i <= params.len(),
            models == param_views(params@),
            s@ == start + params_text(models, i as int),
        decreases params.len() - i,
    {
        let ghost before = s@;
        if i != 0 {
            s.append(", ");
        }
        assert(s@ =~= before + maybe(i + 1 > 1, ", "@));
        s.append(params[i].0.text());
        s.append(" : ");
        s.append(params[i].1.to_text().as_str());
        assert(models[i as int] == (params[i as int].0@, params[i as int].1@));
        assert(s@ =~= start + params_text(models, i + 1));
        i += 1;
    }
}

impl Expr {
    /// The expression as source text, as an operand of `parent` if there
    /// is one, on its right side if `right`: a binary operation is put in
    /// parentheses where its operator binds less tightly than `parent`,
    /// and on the right side also where it binds as tightly, since the
    /// operators group to the left.
    pub fn to_text_under(&self, parent: Option<BinOp>, right: bool) -> (s: String)
        ensures
            s@ == self@.text_under(parent, right),
        decreases self, 0int,
    {
        proof {
            lemma_expr_items_view(*self);
        }
        match self {
            Expr::BinOp { lhs, op, span_op: _, rhs } => {
                let parentheses = match parent {
                    Some(p) => p.precedence() < op.precedence() || (right && p.precedence()
                        == op.precedence()),
                    None => false,
                };
                let mut s = String::new();
                if parentheses {
                    s.append("(");
                }
                assert(s@ =~= maybe(parentheses, "("@));
                s.append(lhs.to_text_under(Some(*op), false).as_str());
                s.append(" ");
                s.append(op.as_str());
                s.append(" ");
                s.append(rhs.to_text_under(Some(*op), true).as_str());
                let ghost before = s@;
                if parentheses {
                    s.append(")");
                }
                assert(s@ =~= before + maybe(parentheses, ")"@));
                s
            },
            Expr::Variable(name) => name.fragment(),
            Expr::UnaryOp { op, span_op: _, rhs } => {
                let mut s = String::from_str(op.as_str());
                s.append(" ");
                s.append(rhs.to_text().as_str());
                s
            },
            Expr::Lit(v) => v.to_text(),
            Expr::FCall { name, args } => {
                let mut s = name.fragment();
                s.append("(");
                let ghost before = s@;
                let unit = args.len() == 1 && args[0].is_lit_unit();
                assert(unit == crate::propagate_model::only_unit(expr_views(args@)));
                if !unit {
                    append_list(&mut s, args);
                }
                assert(s@ =~= before + maybe(
                    !unit,
                    list_text(expr_views(args@), args.len() as int),
                ));
                s.append(")");
                s
            },
            Expr::Tuple(items) => {
                let mut s = String::from_str("(");
                append_list(&mut s, items);
                s.append(")");
                s
            },
            Expr::Array(items) => {
                let mut s = String::from_str("[");
                append_list(&mut s, items);
                s.append("]");
                s
            },
            Expr::If { cond, yes, no } => {
                let mut s = String::from_str("if ");
                s.append(cond.to_text_under(parent, right).as_str());
                s.append(" then (\n");
                s.append(yes.to_text_under(parent, right).as_str());
                s.append(") else (\n");
                s.append(no.to_text_under(parent, right).as_str());
                s.append("\n)");
                s
            },
        }
    }

    /// The expression as source text.
    pub fn to_text(&self) -> (s: String)
        ensures
            s@ == self@.text(),
        decreases self, 1int,
    {
        self.to_text_under(None, false)
    }
}

impl Node {
    /// The node as source text: its tag if it has one, its declaration,
    /// and one equation per line between `let` and `tel`.
    pub fn to_text(&self) -> (s: String)
        ensures
            s@ == self@.text(),
    {
        let mut s = String::new();
        if self.tag.is_some() {
            s.append("#[test]\n");
        }
        assert(s@ =~= maybe(self@.tag is Some, "#[test]\n"@));
        s.append("node ");
        s.append(self.name.text());
        s.append("(");
        let unit = self.inputs.len() == 1 && match &self.inputs[0].1.inner {
            InnerVarType::Unit => true,
            _ => false,
        };
        assert(unit == self@.takes_unit());
        let ghost before = s@;
        if !unit {
            append_params(&mut s, &self.inputs);
        }
        assert(s@ =~= before + maybe(
            !unit,
            params_text(self@.inputs, self@.inputs.len() as int),
        ));
        s.append(") returns (");
        append_params(&mut s, &self.outputs);
        s.append(");\n");
        s.append("let\n");
        let ghost start = s@;
        let ghost models = binding_views(self.let_bindings@);
        let mut i: usize = 0;
        assert(s@ =~= start + equations_text(models, 0));
        while i < self.let_bindings.len()
            invariant
                i <= self.let_bindings.len(),
                models == binding_views(self.let_bindings@),
                s@ == start + equations_text(models, i as int),
            decreases self.let_bindings.len() - i,
        {
            s.append("\t");
            s.append(self.let_bindings[i].0.text());
            s.append(" = ");
            s.append(self.let_bindings[i].1.to_text().as_str());
            s.append(";\n");
            assert(models[i as int] == (self.let_bindings[i as int].0@, self.let_bindings[i as int].1@));
            assert(s@ =~= start + equations_text(models, i + 1));
            i += 1;
        }
        s.append("tel");
        s
    }
}

impl Ast {
    /// The program as source text: its nodes, an empty line between two
    /// of them.
    pub fn to_text(&self) -> (s: String)
        ensures
            s@ == self@.text(),
    {
        let mut s = String::new();
        let mut i: usize = 0;
        assert(s@ =~= self@.text_upto(0));
        while i < self.nodes.len()
            invariant
                i <= self.nodes.len(),
                s@ == self@.text_upto(i as int),
            decreases self.nodes.len() - i,
        {
            s.append(self.nodes[i].to_text().as_str());
            if i != self.nodes.len() - 1 {
                s.append("\n\n");
            } else {
                s.append("\n");
            }
            i += 1;
        }
        s
    }
}

} // verus!
