//! Runtime values.
use vstd::prelude::*;
use vstd::string::*;
use crate::text::{int_text, int_to_text, push_char};
use crate::types::{InferLen, InnerTypeModel, InnerVarType, VarType, VarTypeModel};

verus! {

/// The mathematical model of a runtime value.
pub enum ValueModel {
    Unit,
    Int(i64),
    Float(Seq<char>),
    Bool(bool),
    Char(char),
    String(Seq<char>),
    Tuple(Seq<ValueModel>),
    Array(Seq<ValueModel>),
}

/// A runtime value.
///
/// A floating-point value is kept as the text of its literal: the library
/// carries such values and does no arithmetic on them.
#[derive(Debug, PartialEq)]
pub enum Value {
    Unit,
    Int(i64),
    Float(String),
    Bool(bool),
    Char(char),
    String(String),
    Tuple(Vec<Value>),
    Array(Vec<Value>),
}

impl Value {
    /// The model of the value.
    pub open spec fn model(self) -> ValueModel
        decreases self,
    {
        match self {
            Value::Unit => ValueModel::Unit,
            Value::Int(i) => ValueModel::Int(i),
            Value::Float(s) => ValueModel::Float(s@),
            Value::Bool(b) => ValueModel::Bool(b),
            Value::Char(c) => ValueModel::Char(c),
            Value::String(s) => ValueModel::String(s@),
            Value::Tuple(v) => ValueModel::Tuple(
                Seq::new(
                    v.len() as nat,
                    |i: int|
                        if 0 <= i < v.len() {
                            v[i].model()
                        } else {
                            ValueModel::Unit
                        },
                ),
            ),
            Value::Array(v) => ValueModel::Array(
                Seq::new(
                    v.len() as nat,
                    |i: int|
                        if 0 <= i < v.len() {
                            v[i].model()
                        } else {
                            ValueModel::Unit
                        },
                ),
            ),
        }
    }
}

impl View for Value {
    type V = ValueModel;

    open spec fn view(&self) -> ValueModel {
        self.model()
    }
}

/// The models of a list of values.
pub open spec fn value_views(v: Seq<Value>) -> Seq<ValueModel> {
    Seq::new(v.len(), |i: int| v[i]@)
}

/// The model of an optional value.
pub open spec fn option_value_view(o: Option<Value>) -> Option<ValueModel> {
    match o {
        Some(v) => Some(v@),
        None => None,
    }
}

/// The models of a list of optional values.
pub open spec fn option_value_views(v: Seq<Option<Value>>) -> Seq<Option<ValueModel>> {
    Seq::new(v.len(), |i: int| option_value_view(v[i]))
}

/// The models of a list of lists of values.
pub open spec fn value_rows_view(v: Seq<Vec<Value>>) -> Seq<Seq<ValueModel>> {
    Seq::new(v.len(), |i: int| value_views(v[i]@))
}

/// The kinds of the first `n` values of a list.
pub open spec fn item_kinds(items: Seq<ValueModel>, n: int) -> Seq<InnerTypeModel>
    decreases items, n,
{
    if n <= 0 || n > items.len() {
        Seq::empty()
    } else {
        item_kinds(items, n - 1).push(items[n - 1].kind())
    }
}

/// The items of the first `n` values of a list, which must all be arrays.
pub open spec fn unwrap_arrays(inputs: Seq<ValueModel>, n: int) -> Option<Seq<Seq<ValueModel>>>
    decreases n,
{
    if n <= 0 || n > inputs.len() {
        Some(Seq::empty())
    } else {
        match (unwrap_arrays(inputs, n - 1), inputs[n - 1]) {
            (Some(rows), ValueModel::Array(items)) => Some(rows.push(items)),
            _ => None,
        }
    }
}

impl ValueModel {
    /// The kind of a value. An empty tuple has the kind of unit; an array
    /// has the kind of its first item, or of unit when it is empty, and a
    /// known length.
    pub open spec fn kind(self) -> InnerTypeModel
        decreases self, 0int,
    {
        match self {
            ValueModel::Unit => InnerTypeModel::Unit,
            ValueModel::Int(_) => InnerTypeModel::Int,
            ValueModel::Float(_) => InnerTypeModel::Float,
            ValueModel::Bool(_) => InnerTypeModel::Bool,
            ValueModel::Char(_) => InnerTypeModel::Char,
            ValueModel::String(_) => InnerTypeModel::String,
            ValueModel::Tuple(items) => if items.len() == 0 {
                InnerTypeModel::Unit
            } else {
                InnerTypeModel::Tuple(item_kinds(items, items.len() as int))
            },
            ValueModel::Array(items) => InnerTypeModel::Array {
                t: Box::new(
                    if items.len() == 0 {
                        InnerTypeModel::Unit
                    } else {
                        items[0].kind()
                    },
                ),
                len: InferLen::Known(items.len() as usize),
            },
        }
    }

    /// The type of a value: its kind, initialized.
    pub open spec fn type_of(self) -> VarTypeModel {
        VarTypeModel { inner: self.kind(), initialized: true }
    }

    /// A group of values as one value: the value itself when there is one,
    /// else the tuple of them.
    pub open spec fn tuple_from_seq(v: Seq<ValueModel>) -> ValueModel {
        if v.len() == 1 {
            v[0]
        } else {
            ValueModel::Tuple(v)
        }
    }

    /// The text of the first `n` values of a list, separated by commas.
    pub open spec fn items_text(items: Seq<ValueModel>, n: int) -> Seq<char>
        decreases items, n,
    {
        if n <= 0 || n > items.len() {
            Seq::empty()
        } else if n == 1 {
            items[0].text()
        } else {
            Self::items_text(items, n - 1) + ", "@ + items[n - 1].text()
        }
    }

    /// The text of a value, as it is written in hints.
    pub open spec fn text(self) -> Seq<char>
        decreases self, 0int,
    {
        match self {
            ValueModel::Unit => "()"@,
            ValueModel::Int(i) => int_text(i as int),
            ValueModel::Float(s) => s,
            ValueModel::Bool(b) => if b {
                "true"@
            } else {
                "false"@
            },
            ValueModel::Char(c) => seq![c],
            ValueModel::String(s) => s,
            ValueModel::Tuple(items) => if items.len() == 0 {
                "()"@
            } else {
                "("@ + Self::items_text(items, items.len() as int) + ")"@
            },
            ValueModel::Array(items) => "["@ + Self::items_text(items, items.len() as int) + "]"@,
        }
    }
}

/// Copies a list of values.
pub fn copy_values(v: &Vec<Value>) -> (out: Vec<Value>)
    ensures
        value_views(out@) == value_views(v@),
{
    let mut out: Vec<Value> = Vec::new();
    let mut i: usize = 0;
    while i < v.len()
        invariant
            i <= v.len(),
            out.len() == i,
            forall|j: int| 0 <= j < i ==> out[j]@ == v[j]@,
        decreases v.len() - i,
    {
        out.push(v[i].copy());
        i += 1;
    }
    assert(value_views(out@) =~= value_views(v@));
    out
}

/// The model of a tuple is the tuple of the models of its items, and
/// likewise for an array.
pub proof fn lemma_value_items_view(v: Value)
    ensures
        v matches Value::Tuple(items) ==> v@ == ValueModel::Tuple(value_views(items@)),
        v matches Value::Array(items) ==> v@ == ValueModel::Array(value_views(items@)),
{
    match v {
        Value::Tuple(items) => {
            assert(v@->Tuple_0 =~= value_views(items@));
        },
        Value::Array(items) => {
            assert(v@->Array_0 =~= value_views(items@));
        },
        _ => {},
    }
}

impl Value {
    /// A deep copy.
    #[verifier::loop_isolation(false)]
    pub fn copy(&self) -> (r: Value)
        ensures
            r@ == self@,
        decreases self,
    {
        match self {
            Value::Unit => Value::Unit,
            Value::Int(i) => Value::Int(*i),
            Value::Float(s) => Value::Float(s.clone()),
            Value::Bool(b) => Value::Bool(*b),
            Value::Char(c) => Value::Char(*c),
            Value::String(s) => Value::String(s.clone()),
            Value::Tuple(v) => {
                let mut out: Vec<Value> = Vec::new();
                let mut i: usize = 0;
                while i < v.len()
                    invariant
                        i <= v.len(),
                        out.len() == i,
                        forall|j: int| 0 <= j < i ==> out[j]@ == v[j]@,
                    decreases v.len() - i,
                {
                    out.push(v[i].copy());
                    i += 1;
                }
                let r = Value::Tuple(out);
                assert(r@->Tuple_0 =~= self@->Tuple_0);
                r
            },
            Value::Array(v) => {
                let mut out: Vec<Value> = Vec::new();
                let mut i: usize = 0;
                while i < v.len()
                    invariant
                        i <= v.len(),
                        out.len() == i,
                        forall|j: int| 0 <= j < i ==> out[j]@ == v[j]@,
                    decreases v.len() - i,
                {
                    out.push(v[i].copy());
                    i += 1;
                }
                let r = Value::Array(out);
                assert(r@->Array_0 =~= self@->Array_0);
                r
            },
        }
    }

    /// Whether the first `l1.len()` items of two lists of one length are equal.
    #[verifier::loop_isolation(false)]
    fn same_items(l1: &Vec<Value>, l2: &Vec<Value>) -> (b: bool)
        ensures
            b == (value_views(l1@) == value_views(l2@)),
        decreases l1,
    {
        if l1.len() != l2.len() {
            assert(value_views(l1@).len() != value_views(l2@).len());
            return false;
        }
        let mut i: usize = 0;
        while i < l1.len()
            invariant
                i <= l1.len(),
                l1.len() == l2.len(),
                forall|j: int| 0 <= j < i ==> l1[j]@ == l2[j]@,
            decreases l1.len() - i,
        {
            if !l1[i].same(&l2[i]) {
                assert(value_views(l1@)[i as int] != value_views(l2@)[i as int]);
                return false;
            }
            i += 1;
        }
        assert(value_views(l1@) =~= value_views(l2@));
        true
    }

    /// Whether two values are equal.
    pub fn same(&self, other: &Value) -> (b: bool)
        ensures
            b == (self@ == other@),
        decreases self,
    {
        proof {
            lemma_value_items_view(*self);
            lemma_value_items_view(*other);
        }
        match (self, other) {
            (Value::Unit, Value::Unit) => true,
            (Value::Int(a), Value::Int(b)) => *a == *b,
            (Value::Float(a), Value::Float(b)) => *a == *b,
            (Value::Bool(a), Value::Bool(b)) => *a == *b,
            (Value::Char(a), Value::Char(b)) => *a == *b,
            (Value::String(a), Value::String(b)) => *a == *b,
            (Value::Tuple(l1), Value::Tuple(l2)) => Value::same_items(l1, l2),
            (Value::Array(l1), Value::Array(l2)) => Value::same_items(l1, l2),
            _ => false,
        }
    }

    /// A group of values as one value: the sole value as itself, any other
    /// number of them as a tuple.
    pub fn tuple_from_vec(v: Vec<Value>) -> (r: Value)
        ensures
            r@ == ValueModel::tuple_from_seq(value_views(v@)),
    {
        if v.len() == 1 {
            v[0].copy()
        } else {
            let r = Value::Tuple(v);
            proof {
                lemma_value_items_view(r);
            }
            r
        }
    }

    /// The items of each array of the list, or `None` when one of the values
    /// is not an array.
    pub fn unwrap_array(inputs: Vec<Value>) -> (r: Option<Vec<Vec<Value>>>)
        ensures
            match r {
                Some(rows) => unwrap_arrays(value_views(inputs@), inputs.len() as int) == Some(
                    value_rows_view(rows@),
                ),
                None => unwrap_arrays(value_views(inputs@), inputs.len() as int) is None,
            },
    {
        let ghost models = value_views(inputs@);
        let mut res: Vec<Vec<Value>> = Vec::new();
        let mut i: usize = 0;
        while i < inputs.len()
            invariant
                i <= inputs.len(),
                models == value_views(inputs@),
                unwrap_arrays(models, i as int) == Some(value_rows_view(res@)),
            decreases inputs.len() - i,
        {
            proof {
                lemma_value_items_view(inputs[i as int]);
            }
            match &inputs[i] {
                Value::Array(values) => {
                    let ghost before = value_rows_view(res@);
                    let row = copy_values(values);
                    res.push(row);
                    assert(value_rows_view(res@) =~= before.push(value_views(values@)));
                },
                _ => {
                    proof {
                        lemma_unwrap_arrays_none(models, i + 1, inputs.len() as int);
                    }
                    return None;
                },
            }
            i += 1;
        }
        Some(res)
    }

    /// The kind of the value.
    #[verifier::loop_isolation(false)]
    pub fn kind(&self) -> (r: InnerVarType)
        ensures
            r@ == self@.kind(),
        decreases self,
    {
        proof {
            lemma_value_items_view(*self);
        }
        match self {
            Value::Unit => InnerVarType::Unit,
            Value::Int(_) => InnerVarType::Int,
            Value::Float(_) => InnerVarType::Float,
            Value::Bool(_) => InnerVarType::Bool,
            Value::Char(_) => InnerVarType::Char,
            Value::String(_) => InnerVarType::String,
            Value::Tuple(v) => {
                if v.len() == 0 {
                    InnerVarType::Unit
                } else {
                    let ghost items = value_views(v@);
                    let mut kinds: Vec<InnerVarType> = Vec::new();
                    let mut i: usize = 0;
                    while i < v.len()
                        invariant
                            i <= v.len(),
                            item_kinds(items, i as int) == crate::types::inner_views(kinds@),
                        decreases v.len() - i,
                    {
                        let ghost before = crate::types::inner_views(kinds@);
                        kinds.push(v[i].kind());
                        i += 1;
                        assert(crate::types::inner_views(kinds@) =~= before.push(
                            items[i - 1].kind(),
                        ));
                    }
                    let r = InnerVarType::Tuple(kinds);
                    proof {
                        crate::types::lemma_tuple_view(r);
                    }
                    r
                }
            },
            Value::Array(v) => {
                let t = if v.len() == 0 {
                    InnerVarType::Unit
                } else {
                    v[0].kind()
                };
                InnerVarType::Array { t: Box::new(t), len: InferLen::Known(v.len()) }
            },
        }
    }

    /// The type of the value: its kind, initialized.
    pub fn get_type(&self) -> (r: VarType)
        ensures
            r@ == self@.type_of(),
    {
        VarType { inner: self.kind(), initialized: true }
    }

    /// Renders the first items of a list, separated by commas, after `s`.
    #[verifier::loop_isolation(false)]
    fn append_items(s: &mut String, v: &Vec<Value>)
        ensures
            final(s)@ == old(s)@ + ValueModel::items_text(value_views(v@), v.len() as int),
        decreases v,
    {
        let ghost items = value_views(v@);
        let ghost start = s@;
        let mut i: usize = 0;
        while i < v.len()
            invariant
                i <= v.len(),
                s@ == start + ValueModel::items_text(items, i as int),
            decreases v.len() - i,
        {
            let ghost before = ValueModel::items_text(items, i as int);
            if i != 0 {
                s.append(", ");
            }
            let item = v[i].to_text();
            s.append(item.as_str());
            i += 1;
            assert(s@ =~= start + ValueModel::items_text(items, i as int)) by {
                if i == 1 {
                    assert(before =~= Seq::<char>::empty());
                }
            }
        }
    }

    /// Renders the value.
    pub fn to_text(&self) -> (s: String)
        ensures
            s@ == self@.text(),
        decreases self,
    {
        proof {
            lemma_value_items_view(*self);
        }
        match self {
            Value::Unit => String::from_str("()"),
            Value::Int(i) => int_to_text(*i),
            Value::Float(f) => f.clone(),
            Value::Bool(b) => if *b {
                String::from_str("true")
            } else {
                String::from_str("false")
            },
            Value::Char(c) => {
                let mut s = String::new();
                push_char(&mut s, *c);
                assert(s@ =~= seq![*c]);
                s
            },
            Value::String(t) => t.clone(),
            Value::Tuple(v) => {
                if v.len() == 0 {
                    String::from_str("()")
                } else {
                    let mut s = String::from_str("(");
                    Value::append_items(&mut s, v);
                    s.append(")");
                    s
                }
            },
            Value::Array(v) => {
                let mut s = String::from_str("[");
                Value::append_items(&mut s, v);
                s.append("]");
                s
            },
        }
    }
}

/// Once a value is not an array, no longer prefix unwraps.
pub proof fn lemma_unwrap_arrays_none(inputs: Seq<ValueModel>, n: int, m: int)
    requires
        0 < n <= m <= inputs.len(),
        unwrap_arrays(inputs, n) is None,
    ensures
        unwrap_arrays(inputs, m) is None,
    decreases m - n,
{
    if n < m {
        lemma_unwrap_arrays_none(inputs, n, m - 1);
    }
}

impl Clone for Value {
    fn clone(&self) -> (r: Value)
        ensures
            r@ == self@,
    {
        self.copy()
    }
}

} // verus!
