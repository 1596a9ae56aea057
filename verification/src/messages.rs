//! The wording of diagnostics and hints.
use vstd::prelude::*;
use vstd::string::*;
use crate::text::{nat_text, nat_to_text};
use crate::types::{VarType, VarTypeModel};
use crate::value::{Value, ValueModel};

verus! {

/// The rank of an argument as it is written in messages.
pub open spec fn numeral_text(i: nat) -> Seq<char> {
    if i == 0 {
        "1st"@
    } else {
        nat_text(i + 1) + "nd"@
    }
}

/// The rank of the argument at position `i`, counted from zero.
pub fn numeral_string(i: usize) -> (s: String)
    requires
        i < usize::MAX,
    ensures
        s@ == numeral_text(i as nat),
{
    if i == 0 {
        String::from_str("1st")
    } else {
        let mut s = nat_to_text((i + 1) as u64);
        s.append("nd");
        s
    }
}

/// Two operands whose types should be the same and are not.
pub open spec fn different_types_text(left: VarTypeModel, right: VarTypeModel) -> Seq<char> {
    "Got type '"@ + left.text() + "' on the left and '"@ + right.text()
        + "' on the right\n but expected to have the same type."@
}

/// The left operand of `->` has no value at the first instant.
pub open spec fn not_initialized_text(left: VarTypeModel) -> Seq<char> {
    "Got type '"@ + left.text() + "' which is not initialized at first instant."@
}

/// `pre` of a stream that has no value at the first instant.
pub open spec fn pre_of_uninitialized_text() -> Seq<char> {
    "Using pre operator on a not initialized value. This cannot be recovered with any other operator."@
}

/// A variable that no equation defines.
pub open spec fn no_equation_text(name: Seq<char>) -> Seq<char> {
    "No equation found for '"@ + name + "'"@
}

/// A second equation for one name.
pub open spec fn equation_defined_text(name: Seq<char>) -> Seq<char> {
    "Equation for '"@ + name + "' already defined."@
}

/// A node that calls itself.
pub open spec fn recursive_call_text() -> Seq<char> {
    "Recursive function call are not allowed"@
}

/// A call of a node that does not exist.
pub open spec fn never_defined_text(name: Seq<char>) -> Seq<char> {
    "Function '"@ + name + "' never defined."@
}

/// A second node of one name.
pub open spec fn function_defined_text(name: Seq<char>) -> Seq<char> {
    "Function name '"@ + name + "' already defined in this file."@
}

/// A call with the wrong number of arguments.
pub open spec fn arity_text(expected: nat, name: Seq<char>, given: nat) -> Seq<char> {
    "Expected "@ + nat_text(expected) + " arguments for function '"@ + name + "' but got "@
        + nat_text(given) + " arguments."@
}

/// The start of each message about an argument.
pub open spec fn argument_text(i: nat, name: Seq<char>) -> Seq<char> {
    numeral_text(i) + " arguments of function "@ + name
}

/// An argument that has no type.
pub open spec fn argument_untyped_text(i: nat, name: Seq<char>) -> Seq<char> {
    argument_text(i, name) + " does not type check."@
}

/// A first argument that fits its input neither as it is nor as an array.
pub open spec fn argument_either_text(
    i: nat,
    name: Seq<char>,
    given: VarTypeModel,
    expected: VarTypeModel,
) -> Seq<char> {
    argument_text(i, name) + " of type '"@ + given.text() + "' but expected '"@ + expected.text()
        + "' or ['"@ + expected.text() + "']"@
}

/// An argument of a simple call that has not the type of its input.
pub open spec fn argument_simple_text(
    i: nat,
    name: Seq<char>,
    given: VarTypeModel,
    expected: VarTypeModel,
) -> Seq<char> {
    argument_text(i, name) + " of type '"@ + given.text() + "' but expected '"@ + expected.text()
        + "'"@
}

/// An argument of a lifted call that is no array of the type of its input.
pub open spec fn argument_array_text(
    i: nat,
    name: Seq<char>,
    given: VarTypeModel,
    expected: VarTypeModel,
) -> Seq<char> {
    argument_text(i, name) + " of type '"@ + given.text() + "' but expected ['"@
        + expected.text() + "']"@
}

/// An output whose equation has another type than was declared.
pub open spec fn output_type_text(name: Seq<char>, declared: VarTypeModel, found: VarTypeModel) -> Seq<
    char,
> {
    "'"@ + name + "' is supposed to be of type '"@ + declared.text() + "', found '"@
        + found.text() + "'."@
}

/// An output whose equation has no type.
pub open spec fn output_untyped_text(name: Seq<char>, declared: VarTypeModel) -> Seq<char> {
    "Error while checking the type of '"@ + name + "', expected : '"@ + declared.text() + "'."@
}

/// The label of a type hint.
pub open spec fn type_label(t: VarTypeModel) -> Seq<char> {
    ": "@ + t.text()
}

/// The label of a value hint.
pub open spec fn value_label(v: ValueModel) -> Seq<char> {
    " >> "@ + v.text()
}

pub fn different_types(left: &VarType, right: &VarType) -> (s: String)
    ensures
        s@ == different_types_text(left@, right@),
{
    let mut s = String::from_str("Got type '");
    s.append(left.to_text().as_str());
    s.append("' on the left and '");
    s.append(right.to_text().as_str());
    s.append("' on the right\n but expected to have the same type.");
    s
}

pub fn not_initialized(left: &VarType) -> (s: String)
    ensures
        s@ == not_initialized_text(left@),
{
    let mut s = String::from_str("Got type '");
    s.append(left.to_text().as_str());
    s.append("' which is not initialized at first instant.");
    s
}

pub fn pre_of_uninitialized() -> (s: String)
    ensures
        s@ == pre_of_uninitialized_text(),
{
    String::from_str(
        "Using pre operator on a not initialized value. This cannot be recovered with any other operator.",
    )
}

pub fn no_equation(name: &str) -> (s: String)
    ensures
        s@ == no_equation_text(name@),
{
    let mut s = String::from_str("No equation found for '");
    s.append(name);
    s.append("'");
    s
}

pub fn equation_defined(name: &str) -> (s: String)
    ensures
        s@ == equation_defined_text(name@),
{
    let mut s = String::from_str("Equation for '");
    s.append(name);
    s.append("' already defined.");
    s
}

pub fn recursive_call() -> (s: String)
    ensures
        s@ == recursive_call_text(),
{
    String::from_str("Recursive function call are not allowed")
}

pub fn never_defined(name: &str) -> (s: String)
    ensures
        s@ == never_defined_text(name@),
{
    let mut s = String::from_str("Function '");
    s.append(name);
    s.append("' never defined.");
    s
}

pub fn function_defined(name: &str) -> (s: String)
    ensures
        s@ == function_defined_text(name@),
{
    let mut s = String::from_str("Function name '");
    s.append(name);
    s.append("' already defined in this file.");
    s
}

pub fn arity(expected: usize, name: &str, given: usize) -> (s: String)
    ensures
        s@ == arity_text(expected as nat, name@, given as nat),
{
    let mut s = String::from_str("Expected ");
    s.append(nat_to_text(expected as u64).as_str());
    s.append(" arguments for function '");
    s.append(name);
    s.append("' but got ");
    s.append(nat_to_text(given as u64).as_str());
    s.append(" arguments.");
    s
}

fn argument(i: usize, name: &str) -> (s: String)
    requires
        i < usize::MAX,
    ensures
        s@ == argument_text(i as nat, name@),
{
    let mut s = numeral_string(i);
    s.append(" arguments of function ");
    s.append(name);
    s
}

pub fn argument_untyped(i: usize, name: &str) -> (s: String)
    requires
        i < usize::MAX,
    ensures
        s@ == argument_untyped_text(i as nat, name@),
{
    let mut s = argument(i, name);
    s.append(" does not type check.");
    s
}

pub fn argument_either(i: usize, name: &str, given: &VarType, expected: &VarType) -> (s: String)
    requires
        i < usize::MAX,
    ensures
        s@ == argument_either_text(i as nat, name@, given@, expected@),
{
    let mut s = argument(i, name);
    s.append(" of type '");
    s.append(given.to_text().as_str());
    s.append("' but expected '");
    s.append(expected.to_text().as_str());
    s.append("' or ['");
    s.append(expected.to_text().as_str());
    s.append("']");
    s
}

pub fn argument_simple(i: usize, name: &str, given: &VarType, expected: &VarType) -> (s: String)
    requires
        i < usize::MAX,
    ensures
        s@ == argument_simple_text(i as nat, name@, given@, expected@),
{
    let mut s = argument(i, name);
    s.append(" of type '");
    s.append(given.to_text().as_str());
    s.append("' but expected '");
    s.append(expected.to_text().as_str());
    s.append("'");
    s
}

pub fn argument_array(i: usize, name: &str, given: &VarType, expected: &VarType) -> (s: String)
    requires
        i < usize::MAX,
    ensures
        s@ == argument_array_text(i as nat, name@, given@, expected@),
{
    let mut s = argument(i, name);
    s.append(" of type '");
    s.append(given.to_text().as_str());
    s.append("' but expected ['");
    s.append(expected.to_text().as_str());
    s.append("']");
    s
}

pub fn output_type(name: &str, declared: &VarType, found: &VarType) -> (s: String)
    ensures
        s@ == output_type_text(name@, declared@, found@),
{
    let mut s = String::from_str("'");
    s.append(name);
    s.append("' is supposed to be of type '");
    s.append(declared.to_text().as_str());
    s.append("', found '");
    s.append(found.to_text().as_str());
    s.append("'.");
    s
}

pub fn output_untyped(name: &str, declared: &VarType) -> (s: String)
    ensures
        s@ == output_untyped_text(name@, declared@),
{
    let mut s = String::from_str("Error while checking the type of '");
    s.append(name);
    s.append("', expected : '");
    s.append(declared.to_text().as_str());
    s.append("'.");
    s
}

pub fn type_hint_label(t: &VarType) -> (s: String)
    ensures
        s@ == type_label(t@),
{
    let mut s = String::from_str(": ");
    s.append(t.to_text().as_str());
    s
}

pub fn value_hint_label(v: &Value) -> (s: String)
    ensures
        s@ == value_label(v@),
{
    let mut s = String::from_str(" >> ");
    s.append(v.to_text().as_str());
    s
}

} // verus!
