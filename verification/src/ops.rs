//! Binary and unary operators and how they apply to values.
use vstd::prelude::*;
use crate::instant::Instant;
use crate::value::{Value, ValueModel, lemma_value_items_view, option_value_view, value_views};

verus! {

/// A binary operator.
#[derive(Debug, Clone, Copy, PartialEq, Eq, Structural)]
pub enum BinOp {
    Add,
    Sub,
    Mult,
    Div,
    Fby,
    Arrow,
    Eq,
    Neq,
    Or,
    And,
}

/// A unary operator.
#[derive(Debug, Clone, Copy, PartialEq, Eq, Structural)]
pub enum UnaryOp {
    Neg,
    Pre,
    Not,
}

/// The results of a binary operator on the first `n` pairs of two lists, or
/// `None` when it does not apply to one pair.
pub open spec fn apply_items(
    op: BinOp,
    l: Seq<ValueModel>,
    r: Seq<ValueModel>,
    instant: Option<Instant>,
    n: int,
) -> Option<Seq<ValueModel>>
    decreases l, n,
{
    if n <= 0 || n > l.len() || n > r.len() {
        Some(Seq::empty())
    } else {
        match (apply_items(op, l, r, instant, n - 1), op.apply_spec(l[n - 1], r[n - 1], instant)) {
            (Some(s), Some(v)) => Some(s.push(v)),
            _ => None,
        }
    }
}

/// Whether a comparison holds of each of the first `n` pairs of two lists,
/// or `None` when it does not apply to one pair.
pub open spec fn all_items(
    op: BinOp,
    l: Seq<ValueModel>,
    r: Seq<ValueModel>,
    instant: Option<Instant>,
    n: int,
) -> Option<bool>
    decreases l, n,
{
    if n <= 0 || n > l.len() || n > r.len() {
        Some(true)
    } else {
        match (all_items(op, l, r, instant, n - 1), op.apply_spec(l[n - 1], r[n - 1], instant)) {
            (Some(b), Some(ValueModel::Bool(c))) => Some(b && c),
            _ => None,
        }
    }
}

/// The results of a unary operator on the first `n` values of a list, or
/// `None` when it does not apply to one of them.
pub open spec fn apply_unary_items(
    op: UnaryOp,
    l: Seq<ValueModel>,
    instant: Option<Instant>,
    n: int,
) -> Option<Seq<ValueModel>>
    decreases l, n,
{
    if n <= 0 || n > l.len() {
        Some(Seq::empty())
    } else {
        match (apply_unary_items(op, l, instant, n - 1), op.apply_spec(l[n - 1], instant)) {
            (Some(s), Some(v)) => Some(s.push(v)),
            _ => None,
        }
    }
}

/// An integer result as a value, when the operation did not overflow.
pub open spec fn int_result(r: Option<i64>) -> Option<ValueModel> {
    match r {
        Some(i) => Some(ValueModel::Int(i)),
        None => None,
    }
}

impl BinOp {
    /// Whether the operator is one of the four arithmetic ones.
    pub open spec fn is_arithmetic(self) -> bool {
        self == BinOp::Add || self == BinOp::Sub || self == BinOp::Mult || self == BinOp::Div
    }

    /// Whether the operator combines its operands item by item.
    pub open spec fn is_pointwise(self) -> bool {
        self.is_arithmetic() || self == BinOp::Or || self == BinOp::And
    }

    /// Whether the operator is a comparison.
    pub open spec fn is_comparison(self) -> bool {
        self == BinOp::Eq || self == BinOp::Neq
    }

    /// The operator on two integers: `None` on overflow and on division by zero.
    pub open spec fn on_ints(self, l: i64, r: i64) -> Option<ValueModel> {
        match self {
            BinOp::Add => int_result(l.checked_add(r)),
            BinOp::Sub => int_result(l.checked_sub(r)),
            BinOp::Mult => int_result(l.checked_mul(r)),
            BinOp::Div => int_result(l.checked_div(r)),
            BinOp::Eq => Some(ValueModel::Bool(l == r)),
            BinOp::Neq => Some(ValueModel::Bool(l != r)),
            _ => None,
        }
    }

    /// The operator on two booleans.
    pub open spec fn on_bools(self, l: bool, r: bool) -> Option<ValueModel> {
        match self {
            BinOp::Or => Some(ValueModel::Bool(l || r)),
            BinOp::And => Some(ValueModel::Bool(l && r)),
            BinOp::Eq => Some(ValueModel::Bool(l == r)),
            BinOp::Neq => Some(ValueModel::Bool(l != r)),
            _ => None,
        }
    }

    /// The operator on two lists of one length: a comparison holds when it
    /// holds of every pair, another operator gives the list of its results.
    pub open spec fn on_lists(
        self,
        l: Seq<ValueModel>,
        r: Seq<ValueModel>,
        instant: Option<Instant>,
    ) -> Option<Seq<ValueModel>>
        decreases l, l.len() + 1,
    {
        if l.len() != r.len() {
            None
        } else if self.is_comparison() {
            match all_items(self, l, r, instant, l.len() as int) {
                Some(b) => Some(seq![ValueModel::Bool(b)]),
                None => None,
            }
        } else if self.is_pointwise() {
            apply_items(self, l, r, instant, l.len() as int)
        } else {
            None
        }
    }

    /// What the operator gives on two values at an instant, or `None` where
    /// it does not apply.
    ///
    /// `Arrow` gives the left value at the initial instant and the right one
    /// later; with no instant it gives nothing. Arithmetic is that of 64-bit
    /// integers and gives nothing on overflow or division by zero.
    /// Comparisons are on integers, booleans, characters and strings. Tuples
    /// and arrays of one length combine item by item, a comparison into one
    /// boolean. `Fby` gives nothing: it is lowered before evaluation.
    pub open spec fn apply_spec(self, l: ValueModel, r: ValueModel, instant: Option<Instant>) -> Option<
        ValueModel,
    >
        decreases l, 0int,
    {
        if self == BinOp::Arrow {
            match instant {
                Some(Instant::Initial) => Some(l),
                Some(Instant::NonInitial) => Some(r),
                None => None,
            }
        } else {
            match (l, r) {
                (ValueModel::Int(a), ValueModel::Int(b)) => self.on_ints(a, b),
                (ValueModel::Bool(a), ValueModel::Bool(b)) => self.on_bools(a, b),
                (ValueModel::Char(a), ValueModel::Char(b)) => match self {
                    BinOp::Eq => Some(ValueModel::Bool(a == b)),
                    BinOp::Neq => Some(ValueModel::Bool(a != b)),
                    _ => None,
                },
                (ValueModel::String(a), ValueModel::String(b)) => match self {
                    BinOp::Eq => Some(ValueModel::Bool(a == b)),
                    BinOp::Neq => Some(ValueModel::Bool(a != b)),
                    _ => None,
                },
                (ValueModel::Tuple(a), ValueModel::Tuple(b)) => match self.on_lists(a, b, instant) {
                    Some(s) => if self.is_comparison() {
                        Some(s[0])
                    } else {
                        Some(ValueModel::Tuple(s))
                    },
                    None => None,
                },
                (ValueModel::Array(a), ValueModel::Array(b)) => match self.on_lists(a, b, instant) {
                    Some(s) => if self.is_comparison() {
                        Some(s[0])
                    } else {
                        Some(ValueModel::Array(s))
                    },
                    None => None,
                },
                _ => None,
            }
        }
    }

    /// How tightly the operator binds when an expression is written out: a
    /// smaller number binds tighter.
    pub open spec fn precedence_spec(self) -> usize {
        match self {
            BinOp::Arrow => 5,
            BinOp::Eq | BinOp::Neq | BinOp::Or | BinOp::And => 4,
            BinOp::Add | BinOp::Sub => 3,
            BinOp::Mult | BinOp::Fby | BinOp::Div => 2,
        }
    }

    /// The operator as it is written.
    pub open spec fn text(self) -> Seq<char> {
        match self {
            BinOp::Add => "+"@,
            BinOp::Sub => "-"@,
            BinOp::Mult => "*"@,
            BinOp::Div => "/"@,
            BinOp::Fby => "fby"@,
            BinOp::Arrow => "->"@,
            BinOp::Eq => "=="@,
            BinOp::Neq => "!="@,
            BinOp::Or => "or"@,
            BinOp::And => "and"@,
        }
    }

    /// How tightly the operator binds: a smaller number binds tighter.
    pub fn precedence(&self) -> (p: usize)
        ensures
            p == self.precedence_spec(),
    {
        match self {
            BinOp::Arrow => 5,
            BinOp::Eq | BinOp::Neq | BinOp::Or | BinOp::And => 4,
            BinOp::Add | BinOp::Sub => 3,
            BinOp::Mult | BinOp::Fby | BinOp::Div => 2,
        }
    }

    /// The operator as it is written.
    pub fn as_str(&self) -> (s: &'static str)
        ensures
            s@ == self.text(),
    {
        match self {
            BinOp::Add => "+",
            BinOp::Sub => "-",
            BinOp::Mult => "*",
            BinOp::Div => "/",
            BinOp::Fby => "fby",
            BinOp::Arrow => "->",
            BinOp::Eq => "==",
            BinOp::Neq => "!=",
            BinOp::Or => "or",
            BinOp::And => "and",
        }
    }

    fn compares(&self) -> (b: bool)
        ensures
            b == self.is_comparison(),
    {
        match self {
            BinOp::Eq | BinOp::Neq => true,
            _ => false,
        }
    }

    fn is_pointwise_op(&self) -> (b: bool)
        ensures
            b == self.is_pointwise(),
    {
        match self {
            BinOp::Add | BinOp::Sub | BinOp::Mult | BinOp::Div | BinOp::Or | BinOp::And => true,
            _ => false,
        }
    }

    fn apply_ints(self, l: i64, r: i64) -> (res: Option<Value>)
        ensures
            option_value_view(res) == self.on_ints(l, r),
    {
        match self {
            BinOp::Add => match l.checked_add(r) {
                Some(i) => Some(Value::Int(i)),
                None => None,
            },
            BinOp::Sub => match l.checked_sub(r) {
                Some(i) => Some(Value::Int(i)),
                None => None,
            },
            BinOp::Mult => match l.checked_mul(r) {
                Some(i) => Some(Value::Int(i)),
                None => None,
            },
            BinOp::Div => match l.checked_div(r) {
                Some(i) => Some(Value::Int(i)),
                None => None,
            },
            BinOp::Eq => Some(Value::Bool(l == r)),
            BinOp::Neq => Some(Value::Bool(l != r)),
            _ => None,
        }
    }

    fn apply_bools(self, l: bool, r: bool) -> (res: Option<Value>)
        ensures
            option_value_view(res) == self.on_bools(l, r),
    {
        match self {
            BinOp::Or => Some(Value::Bool(l || r)),
            BinOp::And => Some(Value::Bool(l && r)),
            BinOp::Eq => Some(Value::Bool(l == r)),
            BinOp::Neq => Some(Value::Bool(l != r)),
            _ => None,
        }
    }

    #[verifier::loop_isolation(false)]
    fn apply_lists(self, l: &Vec<Value>, r: &Vec<Value>, instant: Option<Instant>) -> (res: Option<
        Vec<Value>,
    >)
        ensures
            match res {
                Some(v) => self.on_lists(value_views(l@), value_views(r@), instant) == Some(
                    value_views(v@),
                ),
                None => self.on_lists(value_views(l@), value_views(r@), instant) is None,
            },
        decreases l,
    {
        let ghost lm = value_views(l@);
        let ghost rm = value_views(r@);
        if l.len() != r.len() {
            return None;
        }
        if self.compares() {
            let mut all = true;
            let mut i: usize = 0;
            while i < l.len()
                invariant
                    i <= l.len(),
                    l.len() == r.len(),
                    all_items(self, lm, rm, instant, i as int) == Some(all),
                decreases l.len() - i,
            {
                match self.apply(&l[i], &r[i], instant) {
                    Some(Value::Bool(b)) => {
                        all = all && b;
                    },
                    _ => {
                        proof {
                            lemma_all_items_none(self, lm, rm, instant, i + 1, l.len() as int);
                        }
                        return None;
                    },
                }
                i += 1;
            }
            let mut out: Vec<Value> = Vec::new();
            out.push(Value::Bool(all));
            assert(value_views(out@) =~= seq![ValueModel::Bool(all)]);
            Some(out)
        } else if self.is_pointwise_op() {
            let mut out: Vec<Value> = Vec::new();
            let mut i: usize = 0;
            while i < l.len()
                invariant
                    i <= l.len(),
                    l.len() == r.len(),
                    apply_items(self, lm, rm, instant, i as int) == Some(value_views(out@)),
                decreases l.len() - i,
            {
                match self.apply(&l[i], &r[i], instant) {
                    Some(v) => {
                        let ghost before = value_views(out@);
                        out.push(v);
                        assert(value_views(out@) =~= before.push(v@));
                    },
                    None => {
                        proof {
                            lemma_apply_items_none(self, lm, rm, instant, i + 1, l.len() as int);
                        }
                        return None;
                    },
                }
                i += 1;
            }
            Some(out)
        } else {
            None
        }
    }

    /// Applies the operator to two values at an instant; with no instant
    /// given, `Arrow` is left alone. `None` where the operator does not apply.
    pub fn apply(self, lhs: &Value, rhs: &Value, instant: Option<Instant>) -> (res: Option<Value>)
        ensures
            option_value_view(res) == self.apply_spec(lhs@, rhs@, instant),
        decreases lhs,
    {
        proof {
            lemma_value_items_view(*lhs);
            lemma_value_items_view(*rhs);
        }
        if let BinOp::Arrow = self {
            return match instant {
                Some(Instant::Initial) => Some(lhs.copy()),
                Some(Instant::NonInitial) => Some(rhs.copy()),
                None => None,
            };
        }
        match (lhs, rhs) {
            (Value::Int(a), Value::Int(b)) => self.apply_ints(*a, *b),
            (Value::Bool(a), Value::Bool(b)) => self.apply_bools(*a, *b),
            (Value::Char(a), Value::Char(b)) => match self {
                BinOp::Eq => Some(Value::Bool(*a == *b)),
                BinOp::Neq => Some(Value::Bool(*a != *b)),
                _ => None,
            },
            (Value::String(a), Value::String(b)) => match self {
                BinOp::Eq => Some(Value::Bool(*a == *b)),
                BinOp::Neq => Some(Value::Bool(!(*a == *b))),
                _ => None,
            },
            (Value::Tuple(a), Value::Tuple(b)) => match self.apply_lists(a, b, instant) {
                Some(v) => if self.compares() {
                    assert(value_views(v@).len() == 1);
                    assert(value_views(v@)[0] == v[0]@);
                    Some(v[0].copy())
                } else {
                    let t = Value::Tuple(v);
                    proof {
                        lemma_value_items_view(t);
                    }
                    Some(t)
                },
                None => None,
            },
            (Value::Array(a), Value::Array(b)) => match self.apply_lists(a, b, instant) {
                Some(v) => if self.compares() {
                    assert(value_views(v@).len() == 1);
                    assert(value_views(v@)[0] == v[0]@);
                    Some(v[0].copy())
                } else {
                    let t = Value::Array(v);
                    proof {
                        lemma_value_items_view(t);
                    }
                    Some(t)
                },
                None => None,
            },
            _ => None,
        }
    }
}

/// Once the operator fails on a pair, no longer prefix has a result.
pub proof fn lemma_apply_items_none(
    op: BinOp,
    l: Seq<ValueModel>,
    r: Seq<ValueModel>,
    instant: Option<Instant>,
    n: int,
    m: int,
)
    requires
        0 < n <= m <= l.len(),
        m <= r.len(),
        apply_items(op, l, r, instant, n) is None,
    ensures
        apply_items(op, l, r, instant, m) is None,
    decreases m - n,
{
    if n < m {
        lemma_apply_items_none(op, l, r, instant, n, m - 1);
    }
}

/// Once a comparison fails to apply to a pair, no longer prefix has a result.
pub proof fn lemma_all_items_none(
    op: BinOp,
    l: Seq<ValueModel>,
    r: Seq<ValueModel>,
    instant: Option<Instant>,
    n: int,
    m: int,
)
    requires
        0 < n <= m <= l.len(),
        m <= r.len(),
        all_items(op, l, r, instant, n) is None,
    ensures
        all_items(op, l, r, instant, m) is None,
    decreases m - n,
{
    if n < m {
        lemma_all_items_none(op, l, r, instant, n, m - 1);
    }
}

/// Once the operator fails on a value, no longer prefix has a result.
pub proof fn lemma_apply_unary_items_none(
    op: UnaryOp,
    l: Seq<ValueModel>,
    instant: Option<Instant>,
    n: int,
    m: int,
)
    requires
        0 < n <= m <= l.len(),
        apply_unary_items(op, l, instant, n) is None,
    ensures
        apply_unary_items(op, l, instant, m) is None,
    decreases m - n,
{
    if n < m {
        lemma_apply_unary_items_none(op, l, instant, n, m - 1);
    }
}

impl UnaryOp {
    /// What the operator gives on a value at an instant, or `None` where it
    /// does not apply.
    ///
    /// `Pre` gives the value itself after the initial instant and nothing at
    /// the initial instant or with no instant. `Neg` negates an integer and
    /// gives nothing on overflow, `Not` negates a boolean; both go through
    /// tuples and arrays item by item.
    pub open spec fn apply_spec(self, v: ValueModel, instant: Option<Instant>) -> Option<ValueModel>
        decreases v, 0int,
    {
        if self == UnaryOp::Pre {
            match instant {
                Some(Instant::NonInitial) => Some(v),
                _ => None,
            }
        } else {
            match v {
                ValueModel::Int(i) => if self == UnaryOp::Neg {
                    int_result(0i64.checked_sub(i))
                } else {
                    None
                },
                ValueModel::Bool(b) => if self == UnaryOp::Not {
                    Some(ValueModel::Bool(!b))
                } else {
                    None
                },
                ValueModel::Tuple(items) => match apply_unary_items(
                    self,
                    items,
                    instant,
                    items.len() as int,
                ) {
                    Some(s) => Some(ValueModel::Tuple(s)),
                    None => None,
                },
                ValueModel::Array(items) => match apply_unary_items(
                    self,
                    items,
                    instant,
                    items.len() as int,
                ) {
                    Some(s) => Some(ValueModel::Array(s)),
                    None => None,
                },
                _ => None,
            }
        }
    }

    /// How tightly the operator binds: tighter than every binary operator.
    pub open spec fn precedence_spec(self) -> usize {
        1
    }

    /// The operator as it is written.
    pub open spec fn text(self) -> Seq<char> {
        match self {
            UnaryOp::Neg => "-"@,
            UnaryOp::Pre => "pre"@,
            UnaryOp::Not => "not"@,
        }
    }

    /// How tightly the operator binds.
    pub fn precedence(&self) -> (p: usize)
        ensures
            p == self.precedence_spec(),
    {
        1
    }

    /// The operator as it is written.
    pub fn as_str(&self) -> (s: &'static str)
        ensures
            s@ == self.text(),
    {
        match self {
            UnaryOp::Neg => "-",
            UnaryOp::Pre => "pre",
            UnaryOp::Not => "not",
        }
    }

    #[verifier::loop_isolation(false)]
    fn apply_list(&self, l: &Vec<Value>, instant: Option<Instant>) -> (res: Option<Vec<Value>>)
        ensures
            match res {
                Some(v) => apply_unary_items(*self, value_views(l@), instant, l.len() as int)
                    == Some(value_views(v@)),
                None => apply_unary_items(*self, value_views(l@), instant, l.len() as int) is None,
            },
        decreases l,
    {
        let ghost lm = value_views(l@);
        let mut out: Vec<Value> = Vec::new();
        let mut i: usize = 0;
        while i < l.len()
            invariant
                i <= l.len(),
                apply_unary_items(*self, lm, instant, i as int) == Some(value_views(out@)),
            decreases l.len() - i,
        {
            match self.apply(&l[i], instant) {
                Some(v) => {
                    let ghost before = value_views(out@);
                    out.push(v);
                    assert(value_views(out@) =~= before.push(v@));
                },
                None => {
                    proof {
                        lemma_apply_unary_items_none(*self, lm, instant, i + 1, l.len() as int);
                    }
                    return None;
                },
            }
            i += 1;
        }
        Some(out)
    }

    /// Applies the operator to a value at an instant. `None` where the
    /// operator does not apply.
    pub fn apply(&self, rhs: &Value, instant: Option<Instant>) -> (res: Option<Value>)
        ensures
            option_value_view(res) == self.apply_spec(rhs@, instant),
        decreases rhs,
    {
        proof {
            lemma_value_items_view(*rhs);
        }
        if let UnaryOp::Pre = self {
            return match instant {
                Some(Instant::NonInitial) => Some(rhs.copy()),
                _ => None,
            };
        }
        match rhs {
            Value::Int(i) => match self {
                UnaryOp::Neg => match 0i64.checked_sub(*i) {
                    Some(n) => Some(Value::Int(n)),
                    None => None,
                },
                _ => None,
            },
            Value::Bool(b) => match self {
                UnaryOp::Not => Some(Value::Bool(!*b)),
                _ => None,
            },
            Value::Tuple(l) => match self.apply_list(l, instant) {
                Some(v) => {
                    let t = Value::Tuple(v);
                    proof {
                        lemma_value_items_view(t);
                    }
                    Some(t)
                },
                None => None,
            },
            Value::Array(l) => match self.apply_list(l, instant) {
                Some(v) => {
                    let t = Value::Array(v);
                    proof {
                        lemma_value_items_view(t);
                    }
                    Some(t)
                },
                None => None,
            },
            _ => None,
        }
    }
}

} // verus!
