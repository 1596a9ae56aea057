//! The parser of the source language.
//!
//! A program is a list of nodes:
//! `[#[test]] node NAME ( args ) returns ( args ); let equations tel`.
//! Each function reads what the grammar gives at a place of the text.
use vstd::prelude::*;
use vstd::string::*;
use crate::ast::{
    Ast, Expr, ExprModel, Node, NodeModel, Tag, binding_views, expr_views, lemma_expr_items_view,
    param_views, span_views,
};
use crate::diagnostic::{Diagnostic, DiagnosticKind, Severity};
use crate::grammar::{
    Cursor, Parsed, arg_at, args_at, array_at, ast_at, binary_operator_at, binary_word_at,
    blanks_end, bool_at, climb_at, decimal_at, decimal_rest_end, digits_at, digits_value,
    equation_at, equations_at, exponent_at, expression_at, expressions_at, float_end_at, forward,
    func_call_at, holds_underscore, identifier_at, if_then_else_at, integer_at, is_blank, is_digit, is_letter,
    is_word, kind_at, literal_at, moved, moved_by, name_at, node_at, node_body_at, node_inputs_at,
    node_tag_at, nodes_at, one_at, onward, operand_at, parenthesized_at, plain, prefix_operator_at,
    prefix_word_at, program, span_of, start, symbol_at, tag_at, tuple_at, typed, unary_at,
    var_type_at, with_digit, word_end,
};
use crate::ops::{BinOp, UnaryOp};
use crate::span::{Ident, Position, Range, Span, SpanModel, clamp_u32};
use crate::text::{nat_text, nat_to_text, push_char};
use crate::types::{InnerTypeModel, InnerVarType, VarType, VarTypeModel};
use crate::value::{Value, ValueModel};

verus! {

/// The characters of a text.
pub fn chars_of(s: &str) -> (v: Vec<char>)
    ensures
        v@ == s@,
{
    let n = s.unicode_len();
    let mut v: Vec<char> = Vec::new();
    let mut i: usize = 0;
    while i < n
        invariant
            i <= n,
            n == s@.len(),
            v@ == s@.subrange(0, i as int),
        decreases n - i,
    {
        v.push(s.get_char(i));
        assert(v@ =~= s@.subrange(0, i + 1));
        i += 1;
    }
    assert(s@.subrange(0, n as int) =~= s@);
    v
}

fn blank(c: char) -> (b: bool)
    ensures
        b == is_blank(c),
{
    c == ' ' || c == '\t' || c == '\n' || c == '\r'
}

fn letter(c: char) -> (b: bool)
    ensures
        b == is_letter(c),
{
    (c >= 'a' && c <= 'z') || (c >= 'A' && c <= 'Z')
}

fn digit(c: char) -> (b: bool)
    ensures
        b == is_digit(c),
{
    c >= '0' && c <= '9'
}

fn word(c: char) -> (b: bool)
    ensures
        b == is_word(c),
{
    letter(c) || digit(c) || c == '_'
}

impl Cursor {
    /// The start of a text.
    pub fn start() -> (c: Cursor)
        ensures
            c == start(),
    {
        Cursor { pos: 0, line: 1, column: 1 }
    }

    /// The cursor after the character at which it stands: a line feed
    /// starts a new line at column 1.
    pub fn advance(self, input: &Vec<char>) -> (r: Cursor)
        requires
            self.pos < input.len(),
        ensures
            r == moved(input@, self),
            r.pos == self.pos + 1,
    {
        if input[self.pos] == '\n' {
            Cursor { pos: self.pos + 1, line: self.line.saturating_add(1), column: 1 }
        } else {
            Cursor {
                pos: self.pos + 1,
                line: self.line,
                column: if self.column < usize::MAX {
                    self.column + 1
                } else {
                    self.column
                },
            }
        }
    }
}

/// The text between two places.
pub fn slice_text(input: &Vec<char>, from: usize, to: usize) -> (s: String)
    requires
        from <= to <= input.len(),
    ensures
        s@ == input@.subrange(from as int, to as int),
{
    let mut s = String::new();
    let mut i: usize = from;
    assert(s@ =~= input@.subrange(from as int, from as int));
    while i < to
        invariant
            from <= i <= to,
            to <= input.len(),
            s@ == input@.subrange(from as int, i as int),
        decreases to - i,
    {
        push_char(&mut s, input[i]);
        assert(s@ =~= input@.subrange(from as int, i + 1));
        i += 1;
    }
    s
}

/// The span of the text between two places.
pub fn span_between(input: &Vec<char>, from: Cursor, to: Cursor) -> (s: Span)
    requires
        from.pos <= to.pos <= input.len(),
    ensures
        s@ == span_of(input@, from, to),
{
    Span::new(from.column, from.line, slice_text(input, from.pos, to.pos))
}

/// The place of the first character from `at` on that is not blank.
pub fn skip_blanks(input: &Vec<char>, at: Cursor) -> (r: Cursor)
    requires
        at.pos <= input.len(),
    ensures
        r == blanks_end(input@, at),
        onward(at, r, input@.len()),
        forall|i: int| at.pos <= i < r.pos ==> is_blank(input[i]),
        r.pos == input.len() || !is_blank(input[r.pos as int]),
{
    let mut cur = at;
    while cur.pos < input.len() && blank(input[cur.pos])
        invariant
            at.pos <= cur.pos <= input.len(),
            forall|i: int| at.pos <= i < cur.pos ==> is_blank(input[i]),
            blanks_end(input@, at) == blanks_end(input@, cur),
        decreases input.len() - cur.pos,
    {
        cur = cur.advance(input);
    }
    cur
}

/// Matches `word` at `at`: the place after it where the text goes on with
/// `word`, which is not empty.
pub fn tag(input: &Vec<char>, at: Cursor, word: &str) -> (r: Option<Cursor>)
    requires
        at.pos <= input.len(),
    ensures
        r == tag_at(input@, at, word@),
        r matches Some(to) ==> forward(at, to, input@.len()) && to.pos == at.pos + word@.len(),
{
    let n = word.unicode_len();
    if n == 0 || n > input.len() - at.pos {
        return None;
    }
    let mut cur = at;
    let mut i: usize = 0;
    while i < n
        invariant
            i <= n,
            n == word@.len(),
            at.pos + n <= input.len(),
            cur.pos == at.pos + i,
            cur == moved_by(input@, at, i as nat),
            input@.subrange(at.pos as int, cur.pos as int) == word@.subrange(0, i as int),
        decreases n - i,
    {
        if input[cur.pos] != word.get_char(i) {
            assert(input@.subrange(at.pos as int, at.pos + n)[i as int] != word@[i as int]);
            return None;
        }
        cur = cur.advance(input);
        assert(input@.subrange(at.pos as int, cur.pos as int) =~= word@.subrange(0, i + 1));
        i += 1;
    }
    assert(word@.subrange(0, n as int) =~= word@);
    Some(cur)
}

/// Matches `word` between blanks: its span and the place after the
/// blanks that follow it.
pub fn symbol(input: &Vec<char>, at: Cursor, word: &str) -> (r: Option<(Span, Cursor)>)
    requires
        at.pos <= input.len(),
    ensures
        match symbol_at(input@, at, word@) {
            Some((span, to)) => r matches Some((s, c)) && s@ == span && c == to,
            None => r is None,
        },
        r matches Some((_, to)) ==> forward(at, to, input@.len()),
{
    let from = skip_blanks(input, at);
    match tag(input, from, word) {
        Some(to) => Some((span_between(input, from, to), skip_blanks(input, to))),
        None => None,
    }
}

/// An identifier at `at`: a letter or an underscore, then letters, digits
/// and underscores as far as they go.
pub fn identifier(input: &Vec<char>, at: Cursor) -> (r: Option<(Span, Cursor)>)
    requires
        at.pos <= input.len(),
    ensures
        match identifier_at(input@, at) {
            Some((span, to)) => r matches Some((s, c)) && s@ == span && c == to,
            None => r is None,
        },
        r matches Some((_, to)) ==> {
            &&& forward(at, to, input@.len())
            &&& forall|i: int| at.pos <= i < to.pos ==> is_word(input[i])
            &&& to.pos == input.len() || !is_word(input[to.pos as int])
        },
{
    if at.pos >= input.len() {
        return None;
    }
    let first = input[at.pos];
    if !(letter(first) || first == '_') {
        return None;
    }
    let after = at.advance(input);
    let mut cur = after;
    while cur.pos < input.len() && word(input[cur.pos])
        invariant
            at.pos < cur.pos <= input.len(),
            forall|i: int| at.pos <= i < cur.pos ==> is_word(input[i]),
            word_end(input@, after) == word_end(input@, cur),
        decreases input.len() - cur.pos,
    {
        cur = cur.advance(input);
    }
    Some((span_between(input, at, cur), cur))
}

/// A non-negative integer at `at`: digits as far as they go, if they
/// write a number that a 64-bit integer holds.
pub fn integer(input: &Vec<char>, at: Cursor) -> (r: Option<(i64, Cursor)>)
    requires
        at.pos <= input.len(),
    ensures
        r == integer_at(input@, at),
        r matches Some((value, to)) ==> {
            &&& forward(at, to, input@.len())
            &&& forall|i: int| at.pos <= i < to.pos ==> is_digit(input[i])
            &&& to.pos == input.len() || !is_digit(input[to.pos as int])
            &&& value == digits_value(input@, at.pos as int, to.pos as int, 0)
        },
{
    if at.pos >= input.len() || !digit(input[at.pos]) {
        return None;
    }
    let mut cur = at;
    let mut value: i64 = 0;
    while cur.pos < input.len() && digit(input[cur.pos])
        invariant
            at.pos <= cur.pos <= input.len(),
            0 <= value,
            forall|i: int| at.pos <= i < cur.pos ==> is_digit(input[i]),
            digits_value(input@, at.pos as int, cur.pos as int, 0) == value,
            digits_at(input@, at, 0) == digits_at(input@, cur, value as int),
            cur.pos == at.pos ==> value == 0,
        decreases input.len() - cur.pos,
    {
        let d = (input[cur.pos] as u32 - '0' as u32) as i64;
        proof {
            lemma_digits_value_step(input@, at.pos as int, cur.pos as int, 0);
        }
        let next = match value.checked_mul(10) {
            Some(v) => v.checked_add(d),
            None => None,
        };
        match next {
            Some(v) => {
                value = v;
            },
            None => {
                return None;
            },
        }
        cur = cur.advance(input);
    }
    Some((value, cur))
}

/// Reading one more digit multiplies what was read by ten and adds the digit.
pub proof fn lemma_digits_value_step(text: Seq<char>, from: int, to: int, value: int)
    requires
        0 <= from <= to < text.len(),
    ensures
        digits_value(text, from, to + 1, value) == with_digit(
            digits_value(text, from, to, value),
            text[to],
        ),
    decreases to - from,
{
    if from < to {
        lemma_digits_value_step(text, from + 1, to, with_digit(value, text[from]));
    } else {
        assert(digits_value(text, to + 1, to + 1, with_digit(value, text[to])) == with_digit(
            value,
            text[to],
        ));
    }
}

/// `true` or `false` at `at`.
pub fn bool_parse(input: &Vec<char>, at: Cursor) -> (r: Option<(bool, Cursor)>)
    requires
        at.pos <= input.len(),
    ensures
        r == bool_at(input@, at),
        r matches Some((_, to)) ==> forward(at, to, input@.len()),
{
    match tag(input, at, "true") {
        Some(to) => Some((true, to)),
        None => match tag(input, at, "false") {
            Some(to) => Some((false, to)),
            None => None,
        },
    }
}

/// Digits and underscores after a first digit, as far as they go.
fn decimal(input: &Vec<char>, at: Cursor) -> (r: Option<Cursor>)
    requires
        at.pos <= input.len(),
    ensures
        r == decimal_at(input@, at),
        r matches Some(to) ==> forward(at, to, input@.len()),
{
    if at.pos >= input.len() || !digit(input[at.pos]) {
        return None;
    }
    let after = at.advance(input);
    let mut cur = after;
    while cur.pos < input.len() && (digit(input[cur.pos]) || input[cur.pos] == '_')
        invariant
            at.pos < cur.pos <= input.len(),
            decimal_rest_end(input@, after) == decimal_rest_end(input@, cur),
        decreases input.len() - cur.pos,
    {
        cur = cur.advance(input);
    }
    Some(cur)
}

/// One given character at `at`.
fn one(input: &Vec<char>, at: Cursor, c: char) -> (r: Option<Cursor>)
    requires
        at.pos <= input.len(),
    ensures
        r == one_at(input@, at, c),
        r matches Some(to) ==> forward(at, to, input@.len()),
{
    if at.pos < input.len() && input[at.pos] == c {
        Some(at.advance(input))
    } else {
        None
    }
}

/// An exponent at `at`: `e` or `E`, a sign if there is one, and digits.
fn exponent(input: &Vec<char>, at: Cursor) -> (r: Option<Cursor>)
    requires
        at.pos <= input.len(),
    ensures
        r == exponent_at(input@, at),
        r matches Some(to) ==> forward(at, to, input@.len()),
{
    let after_e = match one(input, at, 'e') {
        Some(to) => to,
        None => match one(input, at, 'E') {
            Some(to) => to,
            None => {
                return None;
            },
        },
    };
    let after_sign = match one(input, after_e, '+') {
        Some(to) => to,
        None => match one(input, after_e, '-') {
            Some(to) => to,
            None => after_e,
        },
    };
    decimal(input, after_sign)
}

/// The end of a floating-point literal at `at`, in one of the forms
/// `.42`, `42e1`, `42.42e1`, `42.` and `42.42`, the first with an
/// exponent or without.
fn float_end(input: &Vec<char>, at: Cursor) -> (r: Option<Cursor>)
    requires
        at.pos <= input.len(),
    ensures
        r == float_end_at(input@, at),
        r matches Some(to) ==> forward(at, to, input@.len()),
{
    match one(input, at, '.') {
        Some(after_dot) => {
            return match decimal(input, after_dot) {
                Some(to) => match exponent(input, to) {
                    Some(end) => Some(end),
                    None => Some(to),
                },
                None => None,
            };
        },
        None => {},
    }
    let whole = match decimal(input, at) {
        Some(to) => to,
        None => {
            return None;
        },
    };
    let fraction = match one(input, whole, '.') {
        Some(after_dot) => decimal(input, after_dot),
        None => None,
    };
    let mantissa = match fraction {
        Some(to) => to,
        None => whole,
    };
    match exponent(input, mantissa) {
        Some(end) => Some(end),
        None => match one(input, whole, '.') {
            Some(after_dot) => match decimal(input, after_dot) {
                Some(to) => Some(to),
                None => Some(after_dot),
            },
            None => None,
        },
    }
}

fn has_underscore(input: &Vec<char>, from: usize, to: usize) -> (b: bool)
    requires
        from <= to <= input.len(),
    ensures
        b == holds_underscore(input@, from as int, to as int),
{
    let mut i: usize = from;
    while i < to
        invariant
            from <= i <= to,
            to <= input.len(),
            forall|j: int| from <= j < i ==> input[j] != '_',
        decreases to - i,
    {
        if input[i] == '_' {
            return true;
        }
        i += 1;
    }
    false
}

/// The model of a value that was read, with the place after it.
pub open spec fn value_parsed(r: Option<(Value, Cursor)>) -> Parsed<ValueModel> {
    match r {
        Some((v, to)) => Some((v@, to)),
        None => None,
    }
}

/// A literal at `at`: unit, a floating-point number, an integer or a
/// boolean, tried in this order.
pub fn literal(input: &Vec<char>, at: Cursor) -> (r: Option<(Value, Cursor)>)
    requires
        at.pos <= input.len(),
    ensures
        value_parsed(r) == literal_at(input@, at),
        r matches Some((_, to)) ==> forward(at, to, input@.len()),
{
    match tag(input, at, "(") {
        Some(open) => {
            let inner = skip_blanks(input, open);
            match tag(input, inner, ")") {
                Some(to) => {
                    return Some((Value::Unit, to));
                },
                None => {},
            }
        },
        None => {},
    }
    match float_end(input, at) {
        Some(to) => {
            if !has_underscore(input, at.pos, to.pos) {
                return Some((Value::Float(slice_text(input, at.pos, to.pos)), to));
            }
        },
        None => {},
    }
    match integer(input, at) {
        Some((i, to)) => {
            return Some((Value::Int(i), to));
        },
        None => {},
    }
    match bool_parse(input, at) {
        Some((b, to)) => Some((Value::Bool(b), to)),
        None => None,
    }
}

/// The model of a type that was read, with the place after it.
pub open spec fn type_parsed(r: Option<(VarType, Cursor)>) -> Parsed<VarTypeModel> {
    match r {
        Some((t, to)) => Some((t@, to)),
        None => None,
    }
}

fn kind(input: &Vec<char>, at: Cursor, word: &str, inner: InnerVarType) -> (r: Option<
    (VarType, Cursor),
>)
    requires
        at.pos <= input.len(),
    ensures
        type_parsed(r) == kind_at(input@, at, word@, inner@),
        r matches Some((_, to)) ==> forward(at, to, input@.len()),
{
    match symbol(input, at, word) {
        Some((_, to)) => Some((VarType::initialized_of(inner), to)),
        None => None,
    }
}

/// A type name between blanks: `int`, `float` or `real`, `char`, `bool`
/// or `string`.
pub fn var_type(input: &Vec<char>, at: Cursor) -> (r: Option<(VarType, Cursor)>)
    requires
        at.pos <= input.len(),
    ensures
        type_parsed(r) == var_type_at(input@, at),
        r matches Some((_, to)) ==> forward(at, to, input@.len()),
{
    match kind(input, at, "int", InnerVarType::Int) {
        Some(found) => {
            return Some(found);
        },
        None => {},
    }
    match kind(input, at, "float", InnerVarType::Float) {
        Some(found) => {
            return Some(found);
        },
        None => {},
    }
    match kind(input, at, "real", InnerVarType::Float) {
        Some(found) => {
            return Some(found);
        },
        None => {},
    }
    match kind(input, at, "char", InnerVarType::Char) {
        Some(found) => {
            return Some(found);
        },
        None => {},
    }
    match kind(input, at, "bool", InnerVarType::Bool) {
        Some(found) => {
            return Some(found);
        },
        None => {},
    }
    kind(input, at, "string", InnerVarType::String)
}

/// The model of a span that was read, with the place after it.
pub open spec fn span_parsed(r: Option<(Span, Cursor)>) -> Parsed<SpanModel> {
    match r {
        Some((s, to)) => Some((s@, to)),
        None => None,
    }
}

/// An identifier between blanks.
pub fn name(input: &Vec<char>, at: Cursor) -> (r: Option<(Span, Cursor)>)
    requires
        at.pos <= input.len(),
    ensures
        span_parsed(r) == name_at(input@, at),
        r matches Some((_, to)) ==> forward(at, to, input@.len()),
{
    let from = skip_blanks(input, at);
    match identifier(input, from) {
        Some((span, to)) => Some((span, skip_blanks(input, to))),
        None => None,
    }
}

/// The model of a binary operator that was read.
pub open spec fn binary_parsed(r: Option<(BinOp, Span, Cursor)>) -> Option<(BinOp, SpanModel, Cursor)> {
    match r {
        Some((op, s, to)) => Some((op, s@, to)),
        None => None,
    }
}

fn binary_word(input: &Vec<char>, at: Cursor, word: &str, op: BinOp) -> (r: Option<
    (BinOp, Span, Cursor),
>)
    requires
        at.pos <= input.len(),
    ensures
        binary_parsed(r) == binary_word_at(input@, at, word@, op),
        r matches Some((_, _, to)) ==> forward(at, to, input@.len()),
{
    match symbol(input, at, word) {
        Some((span, to)) => Some((op, span, to)),
        None => None,
    }
}

/// A binary operator between blanks.
fn binary_operator(input: &Vec<char>, at: Cursor) -> (r: Option<(BinOp, Span, Cursor)>)
    requires
        at.pos <= input.len(),
    ensures
        binary_parsed(r) == binary_operator_at(input@, at),
        r matches Some((_, _, to)) ==> forward(at, to, input@.len()),
{
    match binary_word(input, at, "*", BinOp::Mult) {
        Some(found) => {
            return Some(found);
        },
        None => {},
    }
    match binary_word(input, at, "/", BinOp::Div) {
        Some(found) => {
            return Some(found);
        },
        None => {},
    }
    match binary_word(input, at, "->", BinOp::Arrow) {
        Some(found) => {
            return Some(found);
        },
        None => {},
    }
    match binary_word(input, at, "+", BinOp::Add) {
        Some(found) => {
            return Some(found);
        },
        None => {},
    }
    match binary_word(input, at, "-", BinOp::Sub) {
        Some(found) => {
            return Some(found);
        },
        None => {},
    }
    match binary_word(input, at, "fby", BinOp::Fby) {
        Some(found) => {
            return Some(found);
        },
        None => {},
    }
    match binary_word(input, at, "==", BinOp::Eq) {
        Some(found) => {
            return Some(found);
        },
        None => {},
    }
    match binary_word(input, at, "!=", BinOp::Neq) {
        Some(found) => {
            return Some(found);
        },
        None => {},
    }
    match binary_word(input, at, "or", BinOp::Or) {
        Some(found) => {
            return Some(found);
        },
        None => {},
    }
    binary_word(input, at, "and", BinOp::And)
}

/// The model of a prefix operator that was read.
pub open spec fn prefix_parsed(r: Option<(UnaryOp, Span, Cursor)>) -> Option<
    (UnaryOp, SpanModel, Cursor),
> {
    match r {
        Some((op, s, to)) => Some((op, s@, to)),
        None => None,
    }
}

fn prefix_word(input: &Vec<char>, at: Cursor, word: &str, op: UnaryOp) -> (r: Option<
    (UnaryOp, Span, Cursor),
>)
    requires
        at.pos <= input.len(),
    ensures
        prefix_parsed(r) == prefix_word_at(input@, at, word@, op),
        r matches Some((_, _, to)) ==> forward(at, to, input@.len()),
{
    match symbol(input, at, word) {
        Some((span, to)) => Some((op, span, to)),
        None => None,
    }
}

/// A prefix operator between blanks.
fn prefix_operator(input: &Vec<char>, at: Cursor) -> (r: Option<(UnaryOp, Span, Cursor)>)
    requires
        at.pos <= input.len(),
    ensures
        prefix_parsed(r) == prefix_operator_at(input@, at),
        r matches Some((_, _, to)) ==> forward(at, to, input@.len()),
{
    match prefix_word(input, at, "-", UnaryOp::Neg) {
        Some(found) => {
            return Some(found);
        },
        None => {},
    }
    match prefix_word(input, at, "pre", UnaryOp::Pre) {
        Some(found) => {
            return Some(found);
        },
        None => {},
    }
    prefix_word(input, at, "not", UnaryOp::Not)
}

/// The model of an expression that was read, with the place after it.
pub open spec fn expr_parsed(r: Option<(Expr, Cursor)>) -> Parsed<ExprModel> {
    match r {
        Some((e, to)) => Some((e@, to)),
        None => None,
    }
}

/// The models of expressions that were read, with the place after them.
pub open spec fn exprs_parsed(r: Option<(Vec<Expr>, Cursor)>) -> Parsed<Seq<ExprModel>> {
    match r {
        Some((items, to)) => Some((expr_views(items@), to)),
        None => None,
    }
}

/// The model of a call that was read, with the place after it.
pub open spec fn call_parsed(r: Option<((Span, Vec<Expr>), Cursor)>) -> Parsed<
    (SpanModel, Seq<ExprModel>),
> {
    match r {
        Some(((callee, args), to)) => Some(((callee@, expr_views(args@)), to)),
        None => None,
    }
}

/// Expressions separated by commas from `at` on, with or without a comma
/// after the last one: the expressions, how many of them a comma
/// follows, and the place after them.
fn expressions(input: &Vec<char>, at: Cursor) -> (r: (Vec<Expr>, usize, Cursor))
    requires
        at.pos <= input.len(),
    ensures
        (expr_views(r.0@), r.1 as nat, r.2) == expressions_at(input@, at, Seq::empty(), 0),
        onward(at, r.2, input@.len()),
    decreases input.len() - at.pos, 4int,
{
    let mut items: Vec<Expr> = Vec::new();
    let mut commas: usize = 0;
    let mut cur = at;
    assert(expr_views(items@) =~= Seq::empty());
    loop
        invariant
            at.pos <= cur.pos <= input.len(),
            commas <= cur.pos,
            expressions_at(input@, at, Seq::empty(), 0) == expressions_at(
                input@,
                cur,
                expr_views(items@),
                commas as nat,
            ),
        decreases input.len() - cur.pos,
    {
        let (e, after) = match expression(input, cur, 5) {
            Some(pair) => pair,
            None => {
                return (items, commas, cur);
            },
        };
        let ghost before = expr_views(items@);
        items.push(e);
        assert(expr_views(items@) =~= before.push(e@));
        match symbol(input, after, ",") {
            Some((_, next)) => {
                commas = commas + 1;
                cur = next;
            },
            None => {
                return (items, commas, skip_blanks(input, after));
            },
        }
    }
}

/// An expression in parentheses.
fn parenthesized(input: &Vec<char>, at: Cursor) -> (r: Option<(Expr, Cursor)>)
    requires
        at.pos <= input.len(),
    ensures
        expr_parsed(r) == parenthesized_at(input@, at),
        r matches Some((_, to)) ==> forward(at, to, input@.len()),
    decreases input.len() - at.pos, 0int,
{
    let open = match symbol(input, at, "(") {
        Some((_, to)) => to,
        None => {
            return None;
        },
    };
    let (e, after) = match expression(input, open, 5) {
        Some(pair) => pair,
        None => {
            return None;
        },
    };
    match symbol(input, after, ")") {
        Some((_, to)) => Some((e, to)),
        None => None,
    }
}

/// An array: expressions between brackets, separated by commas, with or
/// without a comma after the last one.
pub fn array(input: &Vec<char>, at: Cursor) -> (r: Option<(Vec<Expr>, Cursor)>)
    requires
        at.pos <= input.len(),
    ensures
        exprs_parsed(r) == array_at(input@, at),
        r matches Some((_, to)) ==> forward(at, to, input@.len()),
    decreases input.len() - at.pos, 0int,
{
    let open = match symbol(input, at, "[") {
        Some((_, to)) => to,
        None => {
            return None;
        },
    };
    let (items, _, after) = expressions(input, open);
    match symbol(input, after, "]") {
        Some((_, to)) => Some((items, to)),
        None => None,
    }
}

/// A tuple: expressions between parentheses, separated by commas, of
/// which there is at least one; with or without a comma after the last
/// expression.
pub fn tuple(input: &Vec<char>, at: Cursor) -> (r: Option<(Vec<Expr>, Cursor)>)
    requires
        at.pos <= input.len(),
    ensures
        exprs_parsed(r) == tuple_at(input@, at),
        r matches Some((_, to)) ==> forward(at, to, input@.len()),
    decreases input.len() - at.pos, 0int,
{
    let open = match symbol(input, at, "(") {
        Some((_, to)) => to,
        None => {
            return None;
        },
    };
    let (items, commas, after) = expressions(input, open);
    if commas == 0 {
        return None;
    }
    match symbol(input, after, ")") {
        Some((_, to)) => Some((items, to)),
        None => None,
    }
}

/// A call: a name and its arguments between parentheses, separated by
/// commas. An empty list of arguments stands for the one argument unit.
pub fn func_call(input: &Vec<char>, at: Cursor) -> (r: Option<((Span, Vec<Expr>), Cursor)>)
    requires
        at.pos <= input.len(),
    ensures
        call_parsed(r) == func_call_at(input@, at),
        r matches Some((_, to)) ==> forward(at, to, input@.len()),
    decreases input.len() - at.pos, 0int,
{
    let (callee, after_name) = match name(input, at) {
        Some(pair) => pair,
        None => {
            return None;
        },
    };
    let open = match symbol(input, after_name, "(") {
        Some((_, to)) => to,
        None => {
            return None;
        },
    };
    match symbol(input, open, ")") {
        Some((_, to)) => {
            let mut args: Vec<Expr> = Vec::new();
            args.push(Expr::Lit(Value::Unit));
            assert(expr_views(args@) =~= seq![ExprModel::lit_unit()]);
            return Some(((callee, args), to));
        },
        None => {},
    }
    let (args, _, after) = expressions(input, open);
    match symbol(input, after, ")") {
        Some((_, to)) => Some(((callee, args), to)),
        None => None,
    }
}

/// What stands where an operand is expected, tried in this order: an
/// expression in parentheses, an array, a tuple, a call, a literal, a
/// variable.
fn operand(input: &Vec<char>, at: Cursor) -> (r: Option<(Expr, Cursor)>)
    requires
        at.pos <= input.len(),
    ensures
        expr_parsed(r) == operand_at(input@, at),
        r matches Some((_, to)) ==> forward(at, to, input@.len()),
    decreases input.len() - at.pos, 1int,
{
    match parenthesized(input, at) {
        Some(found) => {
            return Some(found);
        },
        None => {},
    }
    match array(input, at) {
        Some((items, to)) => {
            let e = Expr::Array(items);
            proof {
                lemma_expr_items_view(e);
            }
            return Some((e, to));
        },
        None => {},
    }
    match tuple(input, at) {
        Some((items, to)) => {
            let e = Expr::Tuple(items);
            proof {
                lemma_expr_items_view(e);
            }
            return Some((e, to));
        },
        None => {},
    }
    match func_call(input, at) {
        Some(((callee, args), to)) => {
            let e = Expr::FCall { name: callee, args };
            proof {
                lemma_expr_items_view(e);
            }
            return Some((e, to));
        },
        None => {},
    }
    let from = skip_blanks(input, at);
    match literal(input, from) {
        Some((v, to)) => {
            return Some((Expr::Lit(v), skip_blanks(input, to)));
        },
        None => {},
    }
    match name(input, at) {
        Some((span, to)) => Some((Expr::Variable(span), to)),
        None => None,
    }
}

/// An operand after any number of prefix operators.
fn unary(input: &Vec<char>, at: Cursor) -> (r: Option<(Expr, Cursor)>)
    requires
        at.pos <= input.len(),
    ensures
        expr_parsed(r) == unary_at(input@, at),
        r matches Some((_, to)) ==> forward(at, to, input@.len()),
    decreases input.len() - at.pos, 2int,
{
    match prefix_operator(input, at) {
        Some((op, span_op, next)) => match unary(input, next) {
            Some((rhs, to)) => Some((Expr::UnaryOp { op, span_op, rhs: Box::new(rhs) }, to)),
            None => None,
        },
        None => operand(input, at),
    }
}

/// An expression made of operators that bind at least as tightly as
/// `limit`: operands joined by binary operators, which group to the left;
/// an operator of a smaller number binds tighter.
pub fn expression(input: &Vec<char>, at: Cursor, limit: usize) -> (r: Option<(Expr, Cursor)>)
    requires
        at.pos <= input.len(),
    ensures
        expr_parsed(r) == expression_at(input@, at, limit),
        r matches Some((_, to)) ==> forward(at, to, input@.len()),
    decreases input.len() - at.pos, 3int,
{
    let (mut lhs, mut cur) = match unary(input, at) {
        Some(pair) => pair,
        None => {
            return None;
        },
    };
    loop
        invariant
            at.pos < cur.pos <= input.len(),
            expression_at(input@, at, limit) == climb_at(input@, cur, lhs@, limit),
        decreases input.len() - cur.pos,
    {
        let (op, span_op, next) = match binary_operator(input, cur) {
            Some(found) => found,
            None => {
                return Some((lhs, cur));
            },
        };
        let binding = op.precedence();
        if binding > limit {
            return Some((lhs, cur));
        }
        let (rhs, after) = match expression(input, next, binding - 1) {
            Some(pair) => pair,
            None => {
                return None;
            },
        };
        lhs = Expr::BinOp { lhs: Box::new(lhs), op, span_op, rhs: Box::new(rhs) };
        cur = after;
    }
}

/// A choice: `if`, a condition, `then`, an expression, `else` and an
/// expression. Gives the condition and the two expressions.
pub fn ifthenelse(input: &Vec<char>, at: Cursor) -> (r: Option<((Expr, Expr, Expr), Cursor)>)
    requires
        at.pos <= input.len(),
    ensures
        match if_then_else_at(input@, at) {
            Some(((cond, yes, no), to)) => r matches Some(((c, y, n), end)) && c@ == cond && y@
                == yes && n@ == no && end == to,
            None => r is None,
        },
        r matches Some((_, to)) ==> forward(at, to, input@.len()),
{
    let after_if = match symbol(input, at, "if") {
        Some((_, to)) => to,
        None => {
            return None;
        },
    };
    let (cond, after_cond) = match expression(input, after_if, 5) {
        Some(pair) => pair,
        None => {
            return None;
        },
    };
    let after_then = match symbol(input, after_cond, "then") {
        Some((_, to)) => to,
        None => {
            return None;
        },
    };
    let (yes, after_yes) = match expression(input, after_then, 5) {
        Some(pair) => pair,
        None => {
            return None;
        },
    };
    let after_else = match symbol(input, after_yes, "else") {
        Some((_, to)) => to,
        None => {
            return None;
        },
    };
    match expression(input, after_else, 5) {
        Some((no, to)) => Some(((cond, yes, no), skip_blanks(input, to))),
        None => None,
    }
}

/// The model of an equation that was read, with the place after it.
pub open spec fn equation_parsed(r: Option<((Ident, Expr), Cursor)>) -> Parsed<(SpanModel, ExprModel)> {
    match r {
        Some(((name, e), to)) => Some(((name@, e@), to)),
        None => None,
    }
}

/// An equation: a name, `=` and an expression.
pub fn equation(input: &Vec<char>, at: Cursor) -> (r: Option<((Ident, Expr), Cursor)>)
    requires
        at.pos <= input.len(),
    ensures
        equation_parsed(r) == equation_at(input@, at),
        r matches Some((_, to)) ==> forward(at, to, input@.len()),
{
    let (defined, after_name) = match name(input, at) {
        Some(pair) => pair,
        None => {
            return None;
        },
    };
    let after_equal = match symbol(input, after_name, "=") {
        Some((_, to)) => to,
        None => {
            return None;
        },
    };
    match expression(input, after_equal, 5) {
        Some((e, to)) => Some(((defined, e), skip_blanks(input, to))),
        None => None,
    }
}

/// Equations, each followed by a semicolon, as far as they go: the
/// equations and the spans of their semicolons.
pub fn equations(input: &Vec<char>, at: Cursor) -> (r: (Vec<(Ident, Expr)>, Vec<Span>, Cursor))
    requires
        at.pos <= input.len(),
    ensures
        (binding_views(r.0@), span_views(r.1@), r.2) == equations_at(
            input@,
            at,
            Seq::empty(),
            Seq::empty(),
        ),
        onward(at, r.2, input@.len()),
        r.0.len() == r.1.len(),
{
    let mut found: Vec<(Ident, Expr)> = Vec::new();
    let mut semicolons: Vec<Span> = Vec::new();
    let mut cur = at;
    assert(binding_views(found@) =~= Seq::empty());
    assert(span_views(semicolons@) =~= Seq::empty());
    loop
        invariant
            at.pos <= cur.pos <= input.len(),
            found.len() == semicolons.len(),
            equations_at(input@, at, Seq::empty(), Seq::empty()) == equations_at(
                input@,
                cur,
                binding_views(found@),
                span_views(semicolons@),
            ),
        decreases input.len() - cur.pos,
    {
        let (eq, after) = match equation(input, cur) {
            Some(pair) => pair,
            None => {
                return (found, semicolons, cur);
            },
        };
        match symbol(input, after, ";") {
            Some((span, next)) => {
                let ghost before = binding_views(found@);
                let ghost spans = span_views(semicolons@);
                found.push(eq);
                semicolons.push(span);
                assert(binding_views(found@) =~= before.push((eq.0@, eq.1@)));
                assert(span_views(semicolons@) =~= spans.push(span@));
                cur = next;
            },
            None => {
                return (found, semicolons, cur);
            },
        }
    }
}

/// One group of parameters: names separated by commas, `:` and their type.
fn arg(input: &Vec<char>, at: Cursor) -> (r: Option<(Vec<Ident>, VarType, Cursor)>)
    requires
        at.pos <= input.len(),
    ensures
        match arg_at(input@, at, Seq::empty()) {
            Some((names, t, to)) => r matches Some((n, x, c)) && span_views(n@) == names && x@
                == t && c == to,
            None => r is None,
        },
        r matches Some((_, _, to)) ==> forward(at, to, input@.len()),
{
    let mut names: Vec<Ident> = Vec::new();
    let mut cur = at;
    assert(span_views(names@) =~= Seq::empty());
    loop
        invariant
            at.pos <= cur.pos <= input.len(),
            arg_at(input@, at, Seq::empty()) == arg_at(input@, cur, span_views(names@)),
        decreases input.len() - cur.pos,
    {
        let (ident, after) = match name(input, cur) {
            Some(pair) => pair,
            None => {
                return None;
            },
        };
        let ghost before = span_views(names@);
        names.push(ident);
        assert(span_views(names@) =~= before.push(ident@));
        match symbol(input, after, ",") {
            Some((_, next)) => {
                cur = next;
            },
            None => {
                let after_colon = match symbol(input, after, ":") {
                    Some((_, to)) => to,
                    None => {
                        return None;
                    },
                };
                return match var_type(input, after_colon) {
                    Some((t, to)) => Some((names, t, to)),
                    None => None,
                };
            },
        }
    }
}

/// Parameters: groups separated by commas, as far as they go, with or
/// without a comma after the last group. Each name gets the type of its
/// group.
pub fn args(input: &Vec<char>, at: Cursor) -> (r: (Vec<(Ident, VarType)>, Cursor))
    requires
        at.pos <= input.len(),
    ensures
        (param_views(r.0@), r.1) == args_at(input@, at, Seq::empty()),
        onward(at, r.1, input@.len()),
{
    let mut found: Vec<(Ident, VarType)> = Vec::new();
    let mut cur = at;
    assert(param_views(found@) =~= Seq::empty());
    loop
        invariant
            at.pos <= cur.pos <= input.len(),
            args_at(input@, at, Seq::empty()) == args_at(input@, cur, param_views(found@)),
        decreases input.len() - cur.pos,
    {
        let (names, t, after) = match arg(input, cur) {
            Some(group) => group,
            None => {
                return (found, cur);
            },
        };
        let ghost before = param_views(found@);
        let ghost group = typed(span_views(names@), t@);
        let mut i: usize = 0;
        while i < names.len()
            invariant
                i <= names.len(),
                group == typed(span_views(names@), t@),
                param_views(found@) == before + group.subrange(0, i as int),
            decreases names.len() - i,
        {
            let ghost so_far = param_views(found@);
            found.push((names[i].copy(), t.copy()));
            assert(param_views(found@) =~= so_far.push((names[i as int]@, t@)));
            assert(group[i as int] == (names[i as int]@, t@));
            assert(param_views(found@) =~= before + group.subrange(0, i + 1));
            i += 1;
        }
        assert(group.subrange(0, names.len() as int) =~= group);
        match symbol(input, after, ",") {
            Some((_, next)) => {
                cur = next;
            },
            None => {
                return (found, after);
            },
        }
    }
}

/// The models of parameters that were read, with the place after them.
pub open spec fn params_parsed(r: Option<(Vec<(Ident, VarType)>, Cursor)>) -> Parsed<
    Seq<(SpanModel, VarTypeModel)>,
> {
    match r {
        Some((params, to)) => Some((param_views(params@), to)),
        None => None,
    }
}

/// The inputs of a node: `()` stands for one input of type unit, named by
/// the parentheses.
fn node_inputs(input: &Vec<char>, at: Cursor) -> (r: Option<(Vec<(Ident, VarType)>, Cursor)>)
    requires
        at.pos <= input.len(),
    ensures
        params_parsed(r) == node_inputs_at(input@, at),
        r matches Some((_, to)) ==> forward(at, to, input@.len()),
{
    let from = skip_blanks(input, at);
    let open = match symbol(input, from, "(") {
        Some((_, to)) => to,
        None => {
            return None;
        },
    };
    match symbol(input, open, ")") {
        Some((_, to)) => {
            let mut inputs: Vec<(Ident, VarType)> = Vec::new();
            let span = span_between(input, from, to);
            let unit = VarType::initialized_of(InnerVarType::Unit);
            inputs.push((span, unit));
            assert(param_views(inputs@) =~= seq![
                (span_of(input@, from, to), plain(InnerTypeModel::Unit)),
            ]);
            return Some((inputs, to));
        },
        None => {},
    }
    let (inputs, after) = args(input, open);
    match symbol(input, after, ")") {
        Some((_, to)) => Some((inputs, to)),
        None => None,
    }
}

/// The model of a node that was read, with the place after it.
pub open spec fn node_parsed(r: Option<(Node, Cursor)>) -> Parsed<NodeModel> {
    match r {
        Some((n, to)) => Some((n@, to)),
        None => None,
    }
}

fn node_body(
    input: &Vec<char>,
    at: Cursor,
    tag: Option<(Span, Tag)>,
    span_node: Span,
    name: Span,
    inputs: Vec<(Ident, VarType)>,
    span_returns: Span,
    outputs: Vec<(Ident, VarType)>,
) -> (r: Option<(Node, Cursor)>)
    requires
        at.pos <= input.len(),
    ensures
        node_parsed(r) == node_body_at(
            input@,
            at,
            crate::ast::tag_view(tag),
            span_node@,
            name@,
            param_views(inputs@),
            span_returns@,
            param_views(outputs@),
        ),
        r matches Some((_, to)) ==> forward(at, to, input@.len()),
{
    let (span_semicolon, after_semicolon) = match symbol(input, at, ";") {
        Some(pair) => pair,
        None => {
            return None;
        },
    };
    let (span_let, after_let) = match symbol(input, after_semicolon, "let") {
        Some(pair) => pair,
        None => {
            return None;
        },
    };
    let (let_bindings, span_semicolon_equations, after_equations) = equations(input, after_let);
    let (span_tel, to) = match symbol(input, after_equations, "tel") {
        Some(pair) => pair,
        None => {
            return None;
        },
    };
    let vars: Vec<(Ident, VarType)> = Vec::new();
    assert(param_views(vars@) =~= Seq::empty());
    Some(
        (
            Node {
                span_node,
                span_returns,
                span_let,
                span_tel,
                span_semicolon,
                tag,
                name,
                inputs,
                vars,
                outputs,
                let_bindings,
                span_semicolon_equations,
            },
            to,
        ),
    )
}

/// A node: an optional `#[test]`, `node`, the name, the inputs, `returns`,
/// the outputs, `;`, and the equations between `let` and `tel`.
pub fn node(input: &Vec<char>, at: Cursor) -> (r: Option<(Node, Cursor)>)
    requires
        at.pos <= input.len(),
    ensures
        node_parsed(r) == node_at(input@, at),
        r matches Some((_, to)) ==> forward(at, to, input@.len()),
{
    let (tag, after_tag) = match symbol(input, at, "#[test]") {
        Some((span, to)) => (Some((span, Tag::Test)), to),
        None => (None, at),
    };
    assert((crate::ast::tag_view(tag), after_tag) == node_tag_at(input@, at));
    let (span_node, after_node) = match symbol(input, after_tag, "node") {
        Some(pair) => pair,
        None => {
            return None;
        },
    };
    let (node_name, after_name) = match name(input, after_node) {
        Some(pair) => pair,
        None => {
            return None;
        },
    };
    let (inputs, after_inputs) = match node_inputs(input, after_name) {
        Some(pair) => pair,
        None => {
            return None;
        },
    };
    let (span_returns, after_returns) = match symbol(input, after_inputs, "returns") {
        Some(pair) => pair,
        None => {
            return None;
        },
    };
    let open = match symbol(input, after_returns, "(") {
        Some((_, to)) => to,
        None => {
            return None;
        },
    };
    let (outputs, after_args) = args(input, open);
    let after_outputs = match symbol(input, after_args, ")") {
        Some((_, to)) => to,
        None => {
            return None;
        },
    };
    node_body(input, after_outputs, tag, span_node, node_name, inputs, span_returns, outputs)
}

/// A program: nodes as far as they go. The cursor stands where no node starts.
pub fn ast(input: &Vec<char>, at: Cursor) -> (r: (Ast, Cursor))
    requires
        at.pos <= input.len(),
    ensures
        (r.0@, r.1) == ast_at(input@, at),
        onward(at, r.1, input@.len()),
{
    let mut program = Ast::new();
    let first = skip_blanks(input, at);
    let mut cur = first;
    loop
        invariant
            at.pos <= cur.pos <= input.len(),
            first == blanks_end(input@, at),
            nodes_at(input@, first, Seq::empty()) == nodes_at(input@, cur, program@.nodes),
        decreases input.len() - cur.pos,
    {
        match node(input, cur) {
            Some((n, after)) => {
                program.push_node(n);
                cur = after;
            },
            None => {
                return (program, cur);
            },
        }
    }
}

/// The message of a parsing error at a place.
pub open spec fn parsing_error_text(at: Cursor) -> Seq<char> {
    "Parsing Error : at "@ + nat_text(at.column as nat) + ":"@ + nat_text(at.line as nat)
}

/// The zero-based position of a place of the text.
pub open spec fn position_of(at: Cursor) -> Position {
    Position { line: clamp_u32(at.line - 1), character: clamp_u32(at.column - 1) }
}

/// Parses a whole text as a program. Where the text is no program, gives
/// one error at the place where no node starts and the text has not ended.
pub fn lustre_parse(input: &str) -> (r: Result<Ast, Vec<Diagnostic>>)
    ensures
        match program(input@) {
            Ok(ast) => r matches Ok(x) && x@ == ast,
            Err(end) => r matches Err(diags) && diags.len() == 1 && diags[0]@
                == (crate::diagnostic::DiagnosticModel {
                severity: Severity::Error,
                range: Range { start: position_of(end), end: position_of(end) },
                kind: DiagnosticKind::Syntax,
                message: parsing_error_text(end),
            }),
        },
{
    let chars = chars_of(input);
    let (program, end) = ast(&chars, Cursor::start());
    if end.pos == chars.len() {
        Ok(program)
    } else {
        let mut message = String::from_str("Parsing Error : at ");
        message.append(nat_to_text(end.column as u64).as_str());
        message.append(":");
        message.append(nat_to_text(end.line as u64).as_str());
        let place = Position {
            line: end.line.saturating_sub(1),
            character: if end.column == 0 {
                0
            } else if end.column - 1 > u32::MAX as usize {
                u32::MAX
            } else {
                (end.column - 1) as u32
            },
        };
        let mut diags: Vec<Diagnostic> = Vec::new();
        diags.push(
            Diagnostic::error(DiagnosticKind::Syntax, Range { start: place, end: place }, message),
        );
        Err(diags)
    }
}

} // verus!
