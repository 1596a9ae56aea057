//! The signature of a node: its inputs and outputs, in order, by name.
use vstd::prelude::*;
use vstd::string::*;
use indexmap::IndexMap;
use crate::ast::{Node, NodeModel, param_views};
use crate::diagnostic::{Diagnostic, DiagnosticKind, DiagnosticModel, diagnostic_views, error_at};
use crate::span::{Ident, SpanModel};
use crate::types::{VarType, VarTypeModel};
use crate::value::{Value, ValueModel, value_views};

verus! {

/// The ordered map of the `indexmap` crate. Nothing of its inside is known
/// here: what it holds is named by `ordered_entries`.
#[verifier::external_type_specification]
#[verifier::external_body]
#[verifier::reject_recursive_types(K)]
#[verifier::reject_recursive_types(V)]
#[verifier::reject_recursive_types(S)]
pub struct ExIndexMap<K, V, S>(IndexMap<K, V, S>);

/// The entries of an ordered map of types by name, in the order of the map.
pub uninterp spec fn ordered_entries(m: IndexMap<String, VarType>) -> Seq<(Seq<char>, VarTypeModel)>;

/// The position of the first entry from `from` on whose key is `key`.
pub open spec fn key_position(entries: Seq<(Seq<char>, VarTypeModel)>, key: Seq<char>, from: int) -> Option<
    int,
>
    decreases entries.len() - from,
{
    if from < 0 || from >= entries.len() {
        None
    } else if entries[from].0 == key {
        Some(from)
    } else {
        key_position(entries, key, from + 1)
    }
}

/// Whether an entry has the key.
pub open spec fn has_key(entries: Seq<(Seq<char>, VarTypeModel)>, key: Seq<char>) -> bool {
    key_position(entries, key, 0) is Some
}

/// The entries after `key` was given `value`: an entry of that key keeps
/// its place and gets the value, a new entry comes last.
pub open spec fn entries_with(
    entries: Seq<(Seq<char>, VarTypeModel)>,
    key: Seq<char>,
    value: VarTypeModel,
) -> Seq<(Seq<char>, VarTypeModel)> {
    match key_position(entries, key, 0) {
        Some(i) => entries.update(i, (key, value)),
        None => entries.push((key, value)),
    }
}

/// An empty ordered map.
///
/// Wraps `IndexMap::new`, which creates a map without entries.
#[verifier::external_body]
fn entries_new() -> (m: IndexMap<String, VarType>)
    ensures
        ordered_entries(m) == Seq::<(Seq<char>, VarTypeModel)>::empty(),
{
    IndexMap::new()
}

/// Gives `key` the value `value`.
///
/// Wraps `IndexMap::insert`: where the map has the key, the entry keeps its
/// place in the order and gets the new value; where it has not, the new
/// entry comes last.
#[verifier::external_body]
fn entries_insert(m: &mut IndexMap<String, VarType>, key: String, value: VarType)
    ensures
        ordered_entries(*final(m)) == entries_with(ordered_entries(*old(m)), key@, value@),
{
    m.insert(key, value);
}

/// Whether the map has the key.
///
/// Wraps `IndexMap::contains_key`, which tells whether an entry with an
/// equal key exists.
#[verifier::external_body]
fn entries_contains_key(m: &IndexMap<String, VarType>, key: &String) -> (b: bool)
    ensures
        b == has_key(ordered_entries(*m), key@),
{
    m.contains_key(key)
}

/// The number of entries.
///
/// Wraps `IndexMap::len`.
#[verifier::external_body]
fn entries_len(m: &IndexMap<String, VarType>) -> (n: usize)
    ensures
        n == ordered_entries(*m).len(),
{
    m.len()
}

/// The entry at a position of the order.
///
/// Wraps `IndexMap::get_index`, which gives the key and the value at an
/// index below the length of the map and nothing at any other index.
#[verifier::external_body]
fn entries_get_index(m: &IndexMap<String, VarType>, index: usize) -> (r: Option<(&String, &VarType)>)
    ensures
        match r {
            Some((key, value)) => index < ordered_entries(*m).len() && ordered_entries(*m)[index as int]
                == (key@, value@),
            None => index >= ordered_entries(*m).len(),
        },
{
    m.get_index(index)
}

/// How the arguments of a call match the inputs of the called node.
#[derive(Debug, Clone, Copy, PartialEq, Eq, Structural)]
pub enum FunctionCallType {
    /// Each argument has the type of its input.
    Simple,
    /// Each argument is an array of the type of its input: the call is
    /// lifted and the node is applied item by item.
    Array,
}

/// The state of the classification of a call, argument by argument.
#[derive(Debug, Clone, Copy, PartialEq, Eq, Structural)]
pub enum Lifting {
    Unknown,
    Simple,
    Array,
    Mismatch,
}

impl Lifting {
    /// The state after an argument of type `given` for an input of type
    /// `expected`: the first argument decides between a simple and a lifted
    /// call, and every later one must agree.
    pub open spec fn next(self, given: VarTypeModel, expected: VarTypeModel) -> Lifting {
        match self {
            Lifting::Unknown => if given == expected {
                Lifting::Simple
            } else if given.equal_array_of(expected) {
                Lifting::Array
            } else {
                Lifting::Mismatch
            },
            Lifting::Simple => if given == expected {
                Lifting::Simple
            } else {
                Lifting::Mismatch
            },
            Lifting::Array => if given.equal_array_of(expected) {
                Lifting::Array
            } else {
                Lifting::Mismatch
            },
            Lifting::Mismatch => Lifting::Mismatch,
        }
    }

    /// The kind of call that the state stands for, if it stands for one.
    pub open spec fn call_type(self) -> Option<FunctionCallType> {
        match self {
            Lifting::Simple => Some(FunctionCallType::Simple),
            Lifting::Array => Some(FunctionCallType::Array),
            _ => None,
        }
    }

    /// The state after an argument.
    pub fn advance(self, given: &VarType, expected: &VarType) -> (r: Lifting)
        ensures
            r == self.next(given@, expected@),
    {
        match self {
            Lifting::Unknown => if given.same(expected) {
                Lifting::Simple
            } else if given.equal_array_of(expected) {
                Lifting::Array
            } else {
                Lifting::Mismatch
            },
            Lifting::Simple => if given.same(expected) {
                Lifting::Simple
            } else {
                Lifting::Mismatch
            },
            Lifting::Array => if given.equal_array_of(expected) {
                Lifting::Array
            } else {
                Lifting::Mismatch
            },
            Lifting::Mismatch => Lifting::Mismatch,
        }
    }
}

/// The classification after the first `n` values were held against the
/// first `n` inputs.
pub open spec fn classify_upto(
    args: Seq<ValueModel>,
    inputs: Seq<(Seq<char>, VarTypeModel)>,
    n: int,
) -> Lifting
    decreases n,
{
    if n <= 0 || n > args.len() || n > inputs.len() {
        Lifting::Unknown
    } else {
        classify_upto(args, inputs, n - 1).next(args[n - 1].type_of(), inputs[n - 1].1)
    }
}

/// The mathematical model of a signature.
pub struct FunctionTypeModel {
    pub inputs: Seq<(Seq<char>, VarTypeModel)>,
    pub outputs: Seq<(Seq<char>, VarTypeModel)>,
    pub vars: Seq<(Seq<char>, VarTypeModel)>,
}

/// The signature of a node: the types of its inputs and outputs by name,
/// in the order of the declaration, and those of its local variables.
pub struct FunctionType {
    inputs: IndexMap<String, VarType>,
    outputs: IndexMap<String, VarType>,
    vars: IndexMap<String, VarType>,
}

impl View for FunctionType {
    type V = FunctionTypeModel;

    closed spec fn view(&self) -> FunctionTypeModel {
        FunctionTypeModel {
            inputs: ordered_entries(self.inputs),
            outputs: ordered_entries(self.outputs),
            vars: ordered_entries(self.vars),
        }
    }
}

/// The entries and the diagnostics that the first `n` declared names
/// give: a name is entered with its type unless it was entered before,
/// which is reported with `message` at the name.
pub open spec fn declared_upto(
    params: Seq<(SpanModel, VarTypeModel)>,
    message: Seq<char>,
    n: int,
) -> (Seq<(Seq<char>, VarTypeModel)>, Seq<DiagnosticModel>)
    decreases n,
{
    if n <= 0 || n > params.len() {
        (Seq::empty(), Seq::empty())
    } else {
        let (entries, diags) = declared_upto(params, message, n - 1);
        let (name, t) = params[n - 1];
        if has_key(entries, name.fragment) {
            (entries, diags.push(error_at(DiagnosticKind::DuplicateName, name.to_range(), message)))
        } else {
            (entries.push((name.fragment, t)), diags)
        }
    }
}

/// The entries and diagnostics of a whole list of declared names.
pub open spec fn declared(params: Seq<(SpanModel, VarTypeModel)>, message: Seq<char>) -> (
    Seq<(Seq<char>, VarTypeModel)>,
    Seq<DiagnosticModel>,
) {
    declared_upto(params, message, params.len() as int)
}

impl NodeModel {
    /// The signature of the node.
    pub open spec fn signature(self) -> FunctionTypeModel {
        FunctionTypeModel {
            inputs: declared(self.inputs, "Input name already used."@).0,
            outputs: declared(self.outputs, "Output name already used."@).0,
            vars: declared(self.vars, "Var name already used."@).0,
        }
    }

    /// What the declaration of the node is reported for: each name that is
    /// used twice among the inputs, among the outputs or among the local
    /// variables.
    pub open spec fn signature_diagnostics(self) -> Seq<DiagnosticModel> {
        declared(self.inputs, "Input name already used."@).1 + declared(
            self.outputs,
            "Output name already used."@,
        ).1 + declared(self.vars, "Var name already used."@).1
    }
}

impl FunctionTypeModel {
    /// How a call with the given values matches the inputs: `None` when
    /// the values fit neither as they are nor item by item, or when there
    /// is nothing to hold against each other.
    pub open spec fn call_type(self, args: Seq<ValueModel>) -> Option<FunctionCallType> {
        classify_upto(
            args,
            self.inputs,
            if args.len() <= self.inputs.len() {
                args.len() as int
            } else {
                self.inputs.len() as int
            },
        ).call_type()
    }
}

fn declare(params: &Vec<(Ident, VarType)>, message: &str, diags: &mut Vec<Diagnostic>) -> (m: IndexMap<
    String,
    VarType,
>)
    ensures
        ordered_entries(m) == declared(param_views(params@), message@).0,
        diagnostic_views(final(diags)@) == diagnostic_views(old(diags)@) + declared(
            param_views(params@),
            message@,
        ).1,
{
    let ghost models = param_views(params@);
    let ghost before = diagnostic_views(diags@);
    let mut m = entries_new();
    let mut k: usize = 0;
    assert(diagnostic_views(diags@) =~= before + Seq::empty());
    while k < params.len()
        invariant
            k <= params.len(),
            models == param_views(params@),
            ordered_entries(m) == declared_upto(models, message@, k as int).0,
            diagnostic_views(diags@) == before + declared_upto(models, message@, k as int).1,
        decreases params.len() - k,
    {
        let name = params[k].0.fragment();
        if entries_contains_key(&m, &name) {
            let ghost reported = diagnostic_views(diags@);
            let d = Diagnostic::error(
                DiagnosticKind::DuplicateName,
                params[k].0.to_range(),
                String::from_str(message),
            );
            diags.push(d);
            assert(diagnostic_views(diags@) =~= reported.push(d@));
            assert(diagnostic_views(diags@) =~= before + declared_upto(
                models,
                message@,
                k + 1,
            ).1);
        } else {
            entries_insert(&mut m, name, params[k].1.copy());
        }
        k += 1;
    }
    m
}

impl FunctionType {
    /// The types of the inputs, in order.
    pub fn input_types(&self) -> (r: Vec<VarType>)
        ensures
            r.len() == self@.inputs.len(),
            forall|i: int| 0 <= i < r.len() ==> r[i]@ == self@.inputs[i].1,
    {
        FunctionType::types_of(&self.inputs)
    }

    /// The types of the outputs, in order.
    pub fn output_types(&self) -> (r: Vec<VarType>)
        ensures
            r.len() == self@.outputs.len(),
            forall|i: int| 0 <= i < r.len() ==> r[i]@ == self@.outputs[i].1,
    {
        FunctionType::types_of(&self.outputs)
    }

    fn types_of(m: &IndexMap<String, VarType>) -> (r: Vec<VarType>)
        ensures
            r.len() == ordered_entries(*m).len(),
            forall|i: int| 0 <= i < r.len() ==> r[i]@ == ordered_entries(*m)[i].1,
    {
        let n = entries_len(m);
        let mut r: Vec<VarType> = Vec::new();
        let mut i: usize = 0;
        while i < n
            invariant
                i <= n,
                n == ordered_entries(*m).len(),
                r.len() == i,
                forall|j: int| 0 <= j < i ==> r[j]@ == ordered_entries(*m)[j].1,
            decreases n - i,
        {
            match entries_get_index(m, i) {
                Some((_, t)) => {
                    r.push(t.copy());
                },
                None => {},
            }
            i += 1;
        }
        r
    }

    /// How a call with the given values matches the inputs of the node:
    /// as they are, or item by item when each value is an array of the
    /// type of its input. `None` when they fit neither way.
    pub fn function_call_type(self, args: &Vec<Value>) -> (r: Option<FunctionCallType>)
        ensures
            r == self@.call_type(value_views(args@)),
    {
        let expected = self.input_types();
        let count = if args.len() <= expected.len() {
            args.len()
        } else {
            expected.len()
        };
        let ghost models = value_views(args@);
        let mut state = Lifting::Unknown;
        let mut k: usize = 0;
        while k < count
            invariant
                k <= count,
                count <= args.len(),
                count <= expected.len(),
                expected.len() == self@.inputs.len(),
                models == value_views(args@),
                forall|i: int| 0 <= i < expected.len() ==> expected[i]@ == self@.inputs[i].1,
                state == classify_upto(models, self@.inputs, k as int),
            decreases count - k,
        {
            let given = args[k].get_type();
            state = state.advance(&given, &expected[k]);
            k += 1;
        }
        match state {
            Lifting::Simple => Some(FunctionCallType::Simple),
            Lifting::Array => Some(FunctionCallType::Array),
            _ => None,
        }
    }

    /// The signature of a node, and a diagnostic for each name that its
    /// declaration uses twice in one list.
    pub fn get_function_type(node: &Node) -> (r: (FunctionType, Vec<Diagnostic>))
        ensures
            r.0@ == node@.signature(),
            diagnostic_views(r.1@) == node@.signature_diagnostics(),
    {
        let mut diags: Vec<Diagnostic> = Vec::new();
        assert(diagnostic_views(diags@) =~= Seq::empty());
        let inputs = declare(&node.inputs, "Input name already used.", &mut diags);
        let outputs = declare(&node.outputs, "Output name already used.", &mut diags);
        let vars = declare(&node.vars, "Var name already used.", &mut diags);
        assert(diagnostic_views(diags@) =~= node@.signature_diagnostics());
        (FunctionType { inputs, outputs, vars }, diags)
    }
}

} // verus!
