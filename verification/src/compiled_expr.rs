//! The expressions of a compiled node.
use vstd::prelude::*;
use vstd::string::*;
use crate::expr_index::ExprIndex;
use crate::instant::Instant;
use crate::ops::{BinOp, UnaryOp};
use crate::value::{Value, ValueModel, option_value_view, option_value_views};

verus! {

/// The mathematical model of a compiled expression.
pub enum CExprModel {
    Input,
    Output,
    Pre { src: ExprIndex },
    BinOp { lhs: ExprIndex, op: BinOp, rhs: ExprIndex },
    UnaryOp { op: UnaryOp, rhs: ExprIndex },
    If { cond: ExprIndex, yes: ExprIndex, no: ExprIndex },
    Variable(ExprIndex),
    Lit(ValueModel),
}

/// One expression of a compiled node. Its operands are indices of other
/// expressions of the same node.
///
/// `Pre` is the only memory: it reads what its source held before. An
/// `Output` is a placeholder that compilation replaces by a `Variable`,
/// which forwards the value of another expression.
#[derive(Debug, PartialEq)]
pub enum CompiledExpr {
    Input,
    Output,
    Pre { src: ExprIndex },
    BinOp { lhs: ExprIndex, op: BinOp, rhs: ExprIndex },
    UnaryOp { op: UnaryOp, rhs: ExprIndex },
    If { cond: ExprIndex, yes: ExprIndex, no: ExprIndex },
    Variable(ExprIndex),
    Lit(Value),
}

impl View for CompiledExpr {
    type V = CExprModel;

    open spec fn view(&self) -> CExprModel {
        match self {
            CompiledExpr::Input => CExprModel::Input,
            CompiledExpr::Output => CExprModel::Output,
            CompiledExpr::Pre { src } => CExprModel::Pre { src: *src },
            CompiledExpr::BinOp { lhs, op, rhs } => CExprModel::BinOp {
                lhs: *lhs,
                op: *op,
                rhs: *rhs,
            },
            CompiledExpr::UnaryOp { op, rhs } => CExprModel::UnaryOp { op: *op, rhs: *rhs },
            CompiledExpr::If { cond, yes, no } => CExprModel::If {
                cond: *cond,
                yes: *yes,
                no: *no,
            },
            CompiledExpr::Variable(i) => CExprModel::Variable(*i),
            CompiledExpr::Lit(v) => CExprModel::Lit(v@),
        }
    }
}

/// The models of a list of compiled expressions.
pub open spec fn cexpr_views(v: Seq<CompiledExpr>) -> Seq<CExprModel> {
    Seq::new(v.len(), |i: int| v[i]@)
}

/// The value at a slot, or nothing where the slot does not exist.
pub open spec fn slot(values: Seq<Option<ValueModel>>, i: ExprIndex) -> Option<ValueModel> {
    if i.index() < values.len() {
        values[i.index()]
    } else {
        None
    }
}

impl CExprModel {
    /// The indices that the expression refers to, in the order of its operands.
    pub open spec fn neighbours(self) -> Seq<ExprIndex> {
        match self {
            CExprModel::Lit(_) | CExprModel::Input | CExprModel::Output => Seq::empty(),
            CExprModel::Variable(i) => seq![i],
            CExprModel::UnaryOp { op, rhs } => seq![rhs],
            CExprModel::Pre { src } => seq![src],
            CExprModel::BinOp { lhs, op, rhs } => seq![lhs, rhs],
            CExprModel::If { cond, yes, no } => seq![cond, yes, no],
        }
    }

    /// The expression as it is written when a compiled node is shown.
    pub open spec fn text(self) -> Seq<char> {
        match self {
            CExprModel::BinOp { lhs, op, rhs } => lhs.text() + " "@ + op.text() + " "@ + rhs.text(),
            CExprModel::UnaryOp { op, rhs } => op.text() + " "@ + rhs.text(),
            CExprModel::Variable(i) => i.text(),
            CExprModel::Lit(v) => "val "@ + v.text(),
            CExprModel::Input => "IN"@,
            CExprModel::Output => "OUT"@,
            CExprModel::Pre { src } => " = "@ + src.text(),
            CExprModel::If { cond, yes, no } => "if "@ + cond.text() + " then "@ + yes.text()
                + " else "@ + no.text(),
        }
    }

    /// Whether every index that the expression refers to is below `len`.
    pub open spec fn in_bounds(self, len: int) -> bool {
        forall|k: int|
            0 <= k < self.neighbours().len() ==> (#[trigger] self.neighbours()[k]).index() < len
    }

    /// The value of the expression for one instant, from the values that
    /// the slots hold.
    ///
    /// `Pre` and `Variable` give what their source holds. A binary operator
    /// needs its left operand; `Arrow` at the initial instant gives it
    /// without looking at the right one. `If` needs all three operands and
    /// picks by the condition. `Input` and `Output` give nothing: an input
    /// slot is filled from outside.
    pub open spec fn compute(self, values: Seq<Option<ValueModel>>, instant: Instant) -> Option<
        ValueModel,
    > {
        match self {
            CExprModel::Input => None,
            CExprModel::Output => None,
            CExprModel::Pre { src } => slot(values, src),
            CExprModel::BinOp { lhs, op, rhs } => match slot(values, lhs) {
                None => None,
                Some(lv) => if op == BinOp::Arrow && instant == Instant::Initial {
                    Some(lv)
                } else {
                    match slot(values, rhs) {
                        None => None,
                        Some(rv) => op.apply_spec(lv, rv, Some(instant)),
                    }
                },
            },
            CExprModel::UnaryOp { op, rhs } => match slot(values, rhs) {
                None => None,
                Some(rv) => op.apply_spec(rv, Some(instant)),
            },
            CExprModel::Variable(i) => slot(values, i),
            CExprModel::Lit(v) => Some(v),
            CExprModel::If { cond, yes, no } => match (
                slot(values, cond),
                slot(values, yes),
                slot(values, no),
            ) {
                (Some(ValueModel::Bool(c)), Some(y), Some(n)) => if c {
                    Some(y)
                } else {
                    Some(n)
                },
                _ => None,
            },
        }
    }
}

fn read_slot(values: &Vec<Option<Value>>, i: ExprIndex) -> (r: Option<Value>)
    ensures
        option_value_view(r) == slot(option_value_views(values@), i),
{
    let k = i.to_usize();
    if k < values.len() {
        match &values[k] {
            Some(v) => Some(v.copy()),
            None => None,
        }
    } else {
        None
    }
}

impl CompiledExpr {
    /// A deep copy.
    pub fn copy(&self) -> (r: CompiledExpr)
        ensures
            r@ == self@,
    {
        match self {
            CompiledExpr::Input => CompiledExpr::Input,
            CompiledExpr::Output => CompiledExpr::Output,
            CompiledExpr::Pre { src } => CompiledExpr::Pre { src: *src },
            CompiledExpr::BinOp { lhs, op, rhs } => CompiledExpr::BinOp {
                lhs: *lhs,
                op: *op,
                rhs: *rhs,
            },
            CompiledExpr::UnaryOp { op, rhs } => CompiledExpr::UnaryOp { op: *op, rhs: *rhs },
            CompiledExpr::If { cond, yes, no } => CompiledExpr::If {
                cond: *cond,
                yes: *yes,
                no: *no,
            },
            CompiledExpr::Variable(i) => CompiledExpr::Variable(*i),
            CompiledExpr::Lit(v) => CompiledExpr::Lit(v.copy()),
        }
    }

    /// The expression as it is written when a compiled node is shown.
    pub fn to_text(&self) -> (s: String)
        ensures
            s@ == self@.text(),
    {
        match self {
            CompiledExpr::BinOp { lhs, op, rhs } => {
                let mut s = lhs.to_text();
                s.append(" ");
                s.append(op.as_str());
                s.append(" ");
                s.append(rhs.to_text().as_str());
                s
            },
            CompiledExpr::UnaryOp { op, rhs } => {
                let mut s = String::from_str(op.as_str());
                s.append(" ");
                s.append(rhs.to_text().as_str());
                s
            },
            CompiledExpr::Variable(i) => i.to_text(),
            CompiledExpr::Lit(v) => {
                let mut s = String::from_str("val ");
                s.append(v.to_text().as_str());
                s
            },
            CompiledExpr::Input => String::from_str("IN"),
            CompiledExpr::Output => String::from_str("OUT"),
            CompiledExpr::Pre { src } => {
                let mut s = String::from_str(" = ");
                s.append(src.to_text().as_str());
                s
            },
            CompiledExpr::If { cond, yes, no } => {
                let mut s = String::from_str("if ");
                s.append(cond.to_text().as_str());
                s.append(" then ");
                s.append(yes.to_text().as_str());
                s.append(" else ");
                s.append(no.to_text().as_str());
                s
            },
        }
    }

    /// Whether two expressions are equal.
    pub fn same(&self, other: &CompiledExpr) -> (b: bool)
        ensures
            b == (self@ == other@),
    {
        match (self, other) {
            (CompiledExpr::Input, CompiledExpr::Input) => true,
            (CompiledExpr::Output, CompiledExpr::Output) => true,
            (CompiledExpr::Pre { src: a }, CompiledExpr::Pre { src: b }) => a.0 == b.0,
            (
                CompiledExpr::BinOp { lhs: l1, op: o1, rhs: r1 },
                CompiledExpr::BinOp { lhs: l2, op: o2, rhs: r2 },
            ) => l1.0 == l2.0 && *o1 == *o2 && r1.0 == r2.0,
            (
                CompiledExpr::UnaryOp { op: o1, rhs: r1 },
                CompiledExpr::UnaryOp { op: o2, rhs: r2 },
            ) => *o1 == *o2 && r1.0 == r2.0,
            (
                CompiledExpr::If { cond: c1, yes: y1, no: n1 },
                CompiledExpr::If { cond: c2, yes: y2, no: n2 },
            ) => c1.0 == c2.0 && y1.0 == y2.0 && n1.0 == n2.0,
            (CompiledExpr::Variable(a), CompiledExpr::Variable(b)) => a.0 == b.0,
            (CompiledExpr::Lit(a), CompiledExpr::Lit(b)) => a.same(b),
            _ => false,
        }
    }

    /// The indices that the expression refers to, in the order of its operands.
    pub fn get_neighbours(&self) -> (r: Vec<ExprIndex>)
        ensures
            r@ == self@.neighbours(),
    {
        let mut r: Vec<ExprIndex> = Vec::new();
        match self {
            CompiledExpr::Lit(_) | CompiledExpr::Input | CompiledExpr::Output => {},
            CompiledExpr::Variable(i) => {
                r.push(*i);
            },
            CompiledExpr::UnaryOp { op: _, rhs } => {
                r.push(*rhs);
            },
            CompiledExpr::Pre { src } => {
                r.push(*src);
            },
            CompiledExpr::BinOp { lhs, op: _, rhs } => {
                r.push(*lhs);
                r.push(*rhs);
            },
            CompiledExpr::If { cond, yes, no } => {
                r.push(*cond);
                r.push(*yes);
                r.push(*no);
            },
        }
        assert(r@ =~= self@.neighbours());
        r
    }

    /// The value of the expression for one instant, from the values that
    /// the slots hold; a slot that does not exist holds nothing.
    pub fn compute_one_step(&self, values: &Vec<Option<Value>>, instant: &Instant) -> (r: Option<
        Value,
    >)
        ensures
            option_value_view(r) == self@.compute(option_value_views(values@), *instant),
    {
        match self {
            CompiledExpr::Input => None,
            CompiledExpr::Output => None,
            CompiledExpr::Pre { src } => read_slot(values, *src),
            CompiledExpr::BinOp { lhs, op, rhs } => {
                match read_slot(values, *lhs) {
                    None => None,
                    Some(lv) => {
                        let arrow = match op {
                            BinOp::Arrow => true,
                            _ => false,
                        };
                        if arrow && instant.is_init() {
                            Some(lv)
                        } else {
                            match read_slot(values, *rhs) {
                                None => None,
                                Some(rv) => op.apply(&lv, &rv, Some(*instant)),
                            }
                        }
                    },
                }
            },
            CompiledExpr::UnaryOp { op, rhs } => match read_slot(values, *rhs) {
                None => None,
                Some(rv) => op.apply(&rv, Some(*instant)),
            },
            CompiledExpr::Variable(i) => read_slot(values, *i),
            CompiledExpr::Lit(v) => Some(v.copy()),
            CompiledExpr::If { cond, yes, no } => {
                let cv = read_slot(values, *cond);
                let yv = read_slot(values, *yes);
                let nv = read_slot(values, *no);
                match (cv, yv, nv) {
                    (Some(Value::Bool(c)), Some(y), Some(n)) => if c {
                        Some(y)
                    } else {
                        Some(n)
                    },
                    _ => None,
                }
            },
        }
    }
}

impl Clone for CompiledExpr {
    fn clone(&self) -> (r: CompiledExpr)
        ensures
            r@ == self@,
    {
        self.copy()
    }
}

} // verus!
