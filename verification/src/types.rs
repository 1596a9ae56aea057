//! Value types: a structural inner kind and an initialization bit.
use vstd::prelude::*;
use vstd::string::*;
use crate::text::{nat_text, nat_to_text};

verus! {

/// The length of an array type: known, or still to be inferred.
#[derive(Debug, Clone, Copy, PartialEq, Eq, Structural)]
pub enum InferLen {
    Unknown,
    Known(usize),
}

impl InferLen {
    /// What `merge` computes: an unknown length unifies with any length, two
    /// known lengths only when they are equal.
    pub open spec fn merge_spec(self, other: InferLen) -> Option<InferLen> {
        match (self, other) {
            (InferLen::Unknown, _) => Some(other),
            (_, InferLen::Unknown) => Some(self),
            (InferLen::Known(a), InferLen::Known(b)) => if a == b {
                Some(self)
            } else {
                None
            },
        }
    }

    /// The text of a length.
    pub open spec fn text(self) -> Seq<char> {
        match self {
            InferLen::Unknown => "Unknown Length"@,
            InferLen::Known(n) => nat_text(n as nat),
        }
    }

    /// Unifies two lengths: `None` when both are known and differ.
    pub fn merge(self, other: InferLen) -> (r: Option<InferLen>)
        ensures
            r == self.merge_spec(other),
    {
        match (self, other) {
            (InferLen::Unknown, _) => Some(other),
            (_, InferLen::Unknown) => Some(self),
            (InferLen::Known(a), InferLen::Known(b)) => if a == b {
                Some(self)
            } else {
                None
            },
        }
    }

    /// Renders the length.
    pub fn to_text(&self) -> (s: String)
        ensures
            s@ == self.text(),
    {
        match self {
            InferLen::Unknown => String::from_str("Unknown Length"),
            InferLen::Known(n) => nat_to_text(*n as u64),
        }
    }
}

/// The mathematical model of an inner kind.
pub enum InnerTypeModel {
    Unit,
    Int,
    Float,
    Bool,
    Char,
    String,
    Tuple(Seq<InnerTypeModel>),
    Array { t: Box<InnerTypeModel>, len: InferLen },
}

/// The mathematical model of a value type.
pub struct VarTypeModel {
    pub inner: InnerTypeModel,
    pub initialized: bool,
}

/// The structural part of a value type.
#[derive(Debug, PartialEq, Eq)]
pub enum InnerVarType {
    Unit,
    Int,
    Float,
    Bool,
    Char,
    String,
    Tuple(Vec<InnerVarType>),
    Array { t: Box<InnerVarType>, len: InferLen },
}

/// A value type: the inner kind, and whether the stream has a value at the
/// initial instant.
#[derive(Debug, PartialEq, Eq)]
pub struct VarType {
    pub inner: InnerVarType,
    pub initialized: bool,
}

impl InnerVarType {
    /// The model of the kind.
    pub open spec fn model(self) -> InnerTypeModel
        decreases self,
    {
        match self {
            InnerVarType::Unit => InnerTypeModel::Unit,
            InnerVarType::Int => InnerTypeModel::Int,
            InnerVarType::Float => InnerTypeModel::Float,
            InnerVarType::Bool => InnerTypeModel::Bool,
            InnerVarType::Char => InnerTypeModel::Char,
            InnerVarType::String => InnerTypeModel::String,
            InnerVarType::Tuple(v) => InnerTypeModel::Tuple(
                Seq::new(
                    v.len() as nat,
                    |i: int|
                        if 0 <= i < v.len() {
                            v[i].model()
                        } else {
                            InnerTypeModel::Unit
                        },
                ),
            ),
            InnerVarType::Array { t, len } => InnerTypeModel::Array {
                t: Box::new((*t).model()),
                len: len,
            },
        }
    }
}

impl View for InnerVarType {
    type V = InnerTypeModel;

    open spec fn view(&self) -> InnerTypeModel {
        self.model()
    }
}

impl View for VarType {
    type V = VarTypeModel;

    open spec fn view(&self) -> VarTypeModel {
        VarTypeModel { inner: self.inner@, initialized: self.initialized }
    }
}

/// The models of a list of inner kinds.
pub open spec fn inner_views(v: Seq<InnerVarType>) -> Seq<InnerTypeModel> {
    Seq::new(v.len(), |i: int| v[i]@)
}

/// The models of a list of value types.
pub open spec fn type_views(v: Seq<VarType>) -> Seq<VarTypeModel> {
    Seq::new(v.len(), |i: int| v[i]@)
}

/// The inner kinds of a list of value types.
pub open spec fn inners_of(v: Seq<VarTypeModel>) -> Seq<InnerTypeModel> {
    Seq::new(v.len(), |i: int| v[i].inner)
}

/// The first `n` items of `l1` and `l2` merged pairwise, or `None` when one
/// pair does not merge.
pub open spec fn merge_items(l1: Seq<InnerTypeModel>, l2: Seq<InnerTypeModel>, n: int) -> Option<
    Seq<InnerTypeModel>,
>
    decreases l1, n,
{
    if n <= 0 || n > l1.len() || n > l2.len() {
        Some(Seq::empty())
    } else {
        match (merge_items(l1, l2, n - 1), l1[n - 1].merge(l2[n - 1])) {
            (Some(s), Some(t)) => Some(s.push(t)),
            _ => None,
        }
    }
}

impl InnerTypeModel {
    /// The merge of two kinds: both must have the same structure, and an
    /// unknown array length unifies with any length.
    pub open spec fn merge(self, rhs: InnerTypeModel) -> Option<InnerTypeModel>
        decreases self, 0int,
    {
        match (self, rhs) {
            (InnerTypeModel::Unit, InnerTypeModel::Unit) => Some(self),
            (InnerTypeModel::Int, InnerTypeModel::Int) => Some(self),
            (InnerTypeModel::Float, InnerTypeModel::Float) => Some(self),
            (InnerTypeModel::Bool, InnerTypeModel::Bool) => Some(self),
            (InnerTypeModel::Char, InnerTypeModel::Char) => Some(self),
            (InnerTypeModel::String, InnerTypeModel::String) => Some(self),
            (InnerTypeModel::Tuple(l1), InnerTypeModel::Tuple(l2)) => if l1.len() == l2.len() {
                match merge_items(l1, l2, l1.len() as int) {
                    Some(s) => Some(InnerTypeModel::Tuple(s)),
                    None => None,
                }
            } else {
                None
            },
            (
                InnerTypeModel::Array { t: t1, len: len1 },
                InnerTypeModel::Array { t: t2, len: len2 },
            ) => match (t1.merge(*t2), len1.merge_spec(len2)) {
                (Some(t), Some(len)) => Some(InnerTypeModel::Array { t: Box::new(t), len }),
                _ => None,
            },
            _ => None,
        }
    }

    /// The text of the first `n` items of a tuple type, separated by commas.
    pub open spec fn items_text(items: Seq<InnerTypeModel>, n: int) -> Seq<char>
        decreases items, n,
    {
        if n <= 0 || n > items.len() {
            Seq::empty()
        } else if n == 1 {
            items[0].text()
        } else {
            Self::items_text(items, n - 1) + ", "@ + items[n - 1].text()
        }
    }

    /// The text of a kind, as it is written in diagnostics and hints.
    pub open spec fn text(self) -> Seq<char>
        decreases self, 0int,
    {
        match self {
            InnerTypeModel::Unit => "()"@,
            InnerTypeModel::Int => "int"@,
            InnerTypeModel::Float => "float"@,
            InnerTypeModel::Bool => "bool"@,
            InnerTypeModel::Char => "char"@,
            InnerTypeModel::String => "string"@,
            InnerTypeModel::Tuple(items) => "("@ + Self::items_text(items, items.len() as int)
                + ")"@,
            InnerTypeModel::Array { t, len } => "["@ + t.text() + "]^"@ + len.text(),
        }
    }
}

impl VarTypeModel {
    /// The merge of two types: the kinds merge, and the result is
    /// initialized only if both are.
    pub open spec fn merge(self, rhs: VarTypeModel) -> Option<VarTypeModel> {
        match self.inner.merge(rhs.inner) {
            Some(inner) => Some(
                VarTypeModel { inner, initialized: self.initialized && rhs.initialized },
            ),
            None => None,
        }
    }

    /// Equality of the kinds, whatever the initialization.
    pub open spec fn equal_without_pre(self, rhs: VarTypeModel) -> bool {
        self.inner == rhs.inner
    }

    /// Whether `self` is an array whose items have the kind of `item`.
    pub open spec fn equal_array_of(self, item: VarTypeModel) -> bool {
        match self.inner {
            InnerTypeModel::Array { t, len } => *t == item.inner,
            _ => false,
        }
    }

    /// The same kind, initialized.
    pub open spec fn remove_one_pre(self) -> VarTypeModel {
        VarTypeModel { inner: self.inner, initialized: true }
    }

    /// The type of a group of values: unit for none, the type itself for
    /// one, and an initialized tuple of the kinds for more.
    pub open spec fn tuple_from_seq(types: Seq<VarTypeModel>) -> VarTypeModel {
        if types.len() == 0 {
            VarTypeModel { inner: InnerTypeModel::Unit, initialized: true }
        } else if types.len() == 1 {
            types[0]
        } else {
            VarTypeModel { inner: InnerTypeModel::Tuple(inners_of(types)), initialized: true }
        }
    }

    /// The text of a type: the kind, after `pre` when it is not initialized.
    pub open spec fn text(self) -> Seq<char> {
        if self.initialized {
            self.inner.text()
        } else {
            "pre "@ + self.inner.text()
        }
    }
}

impl InnerVarType {
    /// A deep copy.
    #[verifier::loop_isolation(false)]
    pub fn copy(&self) -> (r: InnerVarType)
        ensures
            r@ == self@,
        decreases self,
    {
        match self {
            InnerVarType::Unit => InnerVarType::Unit,
            InnerVarType::Int => InnerVarType::Int,
            InnerVarType::Float => InnerVarType::Float,
            InnerVarType::Bool => InnerVarType::Bool,
            InnerVarType::Char => InnerVarType::Char,
            InnerVarType::String => InnerVarType::String,
            InnerVarType::Tuple(v) => {
                let mut out: Vec<InnerVarType> = Vec::new();
                let mut i: usize = 0;
                while i < v.len()
                    invariant
                        i <= v.len(),
                        out.len() == i,
                        forall|j: int| 0 <= j < i ==> out[j]@ == v[j]@,
                    decreases v.len() - i,
                {
                    out.push(v[i].copy());
                    i += 1;
                }
                let r = InnerVarType::Tuple(out);
                assert(r@->Tuple_0 =~= self@->Tuple_0);
                r
            },
            InnerVarType::Array { t, len } => InnerVarType::Array {
                t: Box::new(t.copy()),
                len: *len,
            },
        }
    }

    /// Whether two kinds are equal.
    #[verifier::loop_isolation(false)]
    pub fn same(&self, other: &InnerVarType) -> (b: bool)
        ensures
            b == (self@ == other@),
        decreases self,
    {
        match (self, other) {
            (InnerVarType::Unit, InnerVarType::Unit) => true,
            (InnerVarType::Int, InnerVarType::Int) => true,
            (InnerVarType::Float, InnerVarType::Float) => true,
            (InnerVarType::Bool, InnerVarType::Bool) => true,
            (InnerVarType::Char, InnerVarType::Char) => true,
            (InnerVarType::String, InnerVarType::String) => true,
            (InnerVarType::Tuple(l1), InnerVarType::Tuple(l2)) => {
                if l1.len() != l2.len() {
                    assert(self@->Tuple_0.len() != other@->Tuple_0.len());
                    return false;
                }
                let mut i: usize = 0;
                while i < l1.len()
                    invariant
                        i <= l1.len(),
                        l1.len() == l2.len(),
                        forall|j: int| 0 <= j < i ==> l1[j]@ == l2[j]@,
                    decreases l1.len() - i,
                {
                    if !l1[i].same(&l2[i]) {
                        assert(self@->Tuple_0[i as int] != other@->Tuple_0[i as int]);
                        return false;
                    }
                    i += 1;
                }
                assert(self@->Tuple_0 =~= other@->Tuple_0);
                true
            },
            (
                InnerVarType::Array { t: t1, len: len1 },
                InnerVarType::Array { t: t2, len: len2 },
            ) => {
                let b = t1.same(t2) && *len1 == *len2;
                b
            },
            _ => false,
        }
    }

    /// Merges two kinds of the same structure; an unknown array length
    /// unifies with any length. `None` when the structures differ.
    #[verifier::loop_isolation(false)]
    pub fn merge(self, rhs: InnerVarType) -> (r: Option<InnerVarType>)
        ensures
            option_inner_view(r) == self@.merge(rhs@),
        decreases self,
    {
        self.merge_ref(&rhs)
    }

    /// As `merge`, on borrowed kinds.
    #[verifier::loop_isolation(false)]
    pub fn merge_ref(&self, rhs: &InnerVarType) -> (r: Option<InnerVarType>)
        ensures
            option_inner_view(r) == self@.merge(rhs@),
        decreases self,
    {
        match (self, rhs) {
            (InnerVarType::Unit, InnerVarType::Unit) => Some(InnerVarType::Unit),
            (InnerVarType::Int, InnerVarType::Int) => Some(InnerVarType::Int),
            (InnerVarType::Float, InnerVarType::Float) => Some(InnerVarType::Float),
            (InnerVarType::Bool, InnerVarType::Bool) => Some(InnerVarType::Bool),
            (InnerVarType::Char, InnerVarType::Char) => Some(InnerVarType::Char),
            (InnerVarType::String, InnerVarType::String) => Some(InnerVarType::String),
            (InnerVarType::Tuple(l1), InnerVarType::Tuple(l2)) => {
                if l1.len() != l2.len() {
                    return None;
                }
                let ghost m1 = self@->Tuple_0;
                let ghost m2 = rhs@->Tuple_0;
                let mut out: Vec<InnerVarType> = Vec::new();
                let mut i: usize = 0;
                while i < l1.len()
                    invariant
                        i <= l1.len(),
                        l1.len() == l2.len(),
                        m1.len() == l1.len(),
                        m2.len() == l2.len(),
                        merge_items(m1, m2, i as int) == Some(inner_views(out@)),
                    decreases l1.len() - i,
                {
                    match l1[i].merge_ref(&l2[i]) {
                        Some(t) => {
                            let ghost before = inner_views(out@);
                            out.push(t);
                            assert(inner_views(out@) =~= before.push(t@));
                        },
                        None => {
                            assert(merge_items(m1, m2, i + 1) is None);
                            proof {
                                lemma_merge_items_none(m1, m2, i + 1, l1.len() as int);
                            }
                            return None;
                        },
                    }
                    i += 1;
                }
                let r = InnerVarType::Tuple(out);
                assert(r@->Tuple_0 =~= inner_views(out@));
                Some(r)
            },
            (
                InnerVarType::Array { t: t1, len: len1 },
                InnerVarType::Array { t: t2, len: len2 },
            ) => {
                match (t1.merge_ref(t2), len1.merge(*len2)) {
                    (Some(t), Some(len)) => Some(InnerVarType::Array { t: Box::new(t), len }),
                    _ => None,
                }
            },
            _ => None,
        }
    }

    /// Renders the kind.
    #[verifier::loop_isolation(false)]
    pub fn to_text(&self) -> (s: String)
        ensures
            s@ == self@.text(),
        decreases self,
    {
        match self {
            InnerVarType::Unit => String::from_str("()"),
            InnerVarType::Int => String::from_str("int"),
            InnerVarType::Float => String::from_str("float"),
            InnerVarType::Bool => String::from_str("bool"),
            InnerVarType::Char => String::from_str("char"),
            InnerVarType::String => String::from_str("string"),
            InnerVarType::Tuple(v) => {
                let ghost items = self@->Tuple_0;
                let mut s = String::from_str("(");
                let mut i: usize = 0;
                while i < v.len()
                    invariant
                        i <= v.len(),
                        items.len() == v.len(),
                        s@ == "("@ + InnerTypeModel::items_text(items, i as int),
                    decreases v.len() - i,
                {
                    let ghost before = InnerTypeModel::items_text(items, i as int);
                    if i != 0 {
                        s.append(", ");
                    }
                    let item = v[i].to_text();
                    s.append(item.as_str());
                    i += 1;
                    assert(s@ =~= "("@ + InnerTypeModel::items_text(items, i as int)) by {
                        if i == 1 {
                            assert(before =~= Seq::<char>::empty());
                        }
                    }
                }
                s.append(")");
                s
            },
            InnerVarType::Array { t, len } => {
                let mut s = String::from_str("[");
                let item = t.to_text();
                s.append(item.as_str());
                s.append("]^");
                let l = len.to_text();
                s.append(l.as_str());
                s
            },
        }
    }
}

/// The model of a tuple kind is the tuple of the models of its items.
pub proof fn lemma_tuple_view(t: InnerVarType)
    requires
        t is Tuple,
    ensures
        t@ == InnerTypeModel::Tuple(inner_views(t->Tuple_0@)),
{
    assert(t@->Tuple_0 =~= inner_views(t->Tuple_0@));
}

/// Once a pair fails to merge, no longer prefix merges.
pub proof fn lemma_merge_items_none(
    l1: Seq<InnerTypeModel>,
    l2: Seq<InnerTypeModel>,
    n: int,
    m: int,
)
    requires
        0 < n <= m <= l1.len(),
        m <= l2.len(),
        merge_items(l1, l2, n) is None,
    ensures
        merge_items(l1, l2, m) is None,
    decreases m - n,
{
    if n < m {
        lemma_merge_items_none(l1, l2, n, m - 1);
    }
}

/// The model of an optional kind.
pub open spec fn option_inner_view(o: Option<InnerVarType>) -> Option<InnerTypeModel> {
    match o {
        Some(t) => Some(t@),
        None => None,
    }
}

/// The model of an optional type.
pub open spec fn option_type_view(o: Option<VarType>) -> Option<VarTypeModel> {
    match o {
        Some(t) => Some(t@),
        None => None,
    }
}

impl Clone for InnerVarType {
    fn clone(&self) -> (r: InnerVarType)
        ensures
            r@ == self@,
    {
        self.copy()
    }
}

impl Clone for VarType {
    fn clone(&self) -> (r: VarType)
        ensures
            r@ == self@,
    {
        self.copy()
    }
}

impl VarType {
    /// An initialized type of the given kind.
    pub fn initialized_of(inner: InnerVarType) -> (r: VarType)
        ensures
            r@ == (VarTypeModel { inner: inner@, initialized: true }),
    {
        VarType { inner, initialized: true }
    }

    /// A deep copy.
    pub fn copy(&self) -> (r: VarType)
        ensures
            r@ == self@,
    {
        VarType { inner: self.inner.copy(), initialized: self.initialized }
    }

    /// Whether two types are equal, initialization included.
    pub fn same(&self, other: &VarType) -> (b: bool)
        ensures
            b == (self@ == other@),
    {
        self.initialized == other.initialized && self.inner.same(&other.inner)
    }

    /// Marks the type as having no value at the initial instant.
    pub fn uninitialized(&mut self)
        ensures
            final(self)@ == (VarTypeModel { initialized: false, ..old(self)@ }),
    {
        self.initialized = false;
    }

    /// Whether the stream has a value at the initial instant.
    pub fn is_initialized(&self) -> (b: bool)
        ensures
            b == self@.initialized,
    {
        self.initialized
    }

    /// Whether the stream has no value at the initial instant.
    pub fn is_not_initialized(&self) -> (b: bool)
        ensures
            b == !self@.initialized,
    {
        !self.initialized
    }

    /// The initialization of a merge: both sides must be initialized.
    pub fn merge_initialization(left: bool, right: bool) -> (b: bool)
        ensures
            b == (left && right),
    {
        left && right
    }

    /// Merges two types. `None` when the kinds do not merge.
    pub fn merge(self, rhs: VarType) -> (r: Option<VarType>)
        ensures
            option_type_view(r) == self@.merge(rhs@),
    {
        match self.inner.merge_ref(&rhs.inner) {
            Some(inner) => Some(
                VarType {
                    inner,
                    initialized: VarType::merge_initialization(self.initialized, rhs.initialized),
                },
            ),
            None => None,
        }
    }

    /// Whether the kinds are equal, whatever the initialization.
    pub fn equal_without_pre(&self, rhs: &VarType) -> (b: bool)
        ensures
            b == self@.equal_without_pre(rhs@),
    {
        self.inner.same(&rhs.inner)
    }

    /// Whether `self` is an array whose items have the kind of `lhs`.
    pub fn equal_array_of(&self, lhs: &VarType) -> (b: bool)
        ensures
            b == self@.equal_array_of(lhs@),
    {
        match &self.inner {
            InnerVarType::Array { t, len: _ } => t.same(&lhs.inner),
            _ => false,
        }
    }

    /// The same kind, initialized.
    pub fn remove_one_pre(self) -> (r: VarType)
        ensures
            r@ == self@.remove_one_pre(),
    {
        VarType { inner: self.inner, initialized: true }
    }

    /// The type of a group: unit for none, the type itself for one, an
    /// initialized tuple of the kinds for more.
    pub fn tuple_from_vec(vec: Vec<VarType>) -> (r: VarType)
        ensures
            r@ == VarTypeModel::tuple_from_seq(type_views(vec@)),
    {
        if vec.len() == 0 {
            VarType { inner: InnerVarType::Unit, initialized: true }
        } else if vec.len() == 1 {
            vec[0].copy()
        } else {
            let mut inners: Vec<InnerVarType> = Vec::new();
            let mut i: usize = 0;
            while i < vec.len()
                invariant
                    i <= vec.len(),
                    inners.len() == i,
                    forall|j: int| 0 <= j < i ==> inners[j]@ == vec[j]@.inner,
                decreases vec.len() - i,
            {
                inners.push(vec[i].inner.copy());
                i += 1;
            }
            let r = VarType { inner: InnerVarType::Tuple(inners), initialized: true };
            assert(r@.inner->Tuple_0 =~= inners_of(type_views(vec@)));
            r
        }
    }

    /// Renders the type.
    pub fn to_text(&self) -> (s: String)
        ensures
            s@ == self@.text(),
    {
        if self.initialized {
            self.inner.to_text()
        } else {
            let mut s = String::from_str("pre ");
            let inner = self.inner.to_text();
            s.append(inner.as_str());
            s
        }
    }
}

} // verus!
