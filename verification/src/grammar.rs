//! The grammar of the source language, as functions of the text and of a
//! place in it.
//!
//! Each function gives what is read at the place and the place after it,
//! or nothing where the text does not go on as the grammar wants. Words
//! are matched as prefixes of the text, and alternatives are tried in the
//! order in which they are written.
use vstd::prelude::*;
use crate::ast::{AstModel, ExprModel, NodeModel, Tag};
use crate::ops::{BinOp, UnaryOp};
use crate::span::SpanModel;
use crate::types::{InnerTypeModel, VarTypeModel};
use crate::value::ValueModel;

verus! {

/// A place in the text: the index of the next character, and the line and
/// column at which it stands, both counted from 1.
#[derive(Debug, Clone, Copy, PartialEq, Eq, Structural)]
pub struct Cursor {
    pub pos: usize,
    pub line: u32,
    pub column: usize,
}

/// Whether a character is blank.
pub open spec fn is_blank(c: char) -> bool {
    c == ' ' || c == '\t' || c == '\n' || c == '\r'
}

/// Whether a character is an ASCII letter.
pub open spec fn is_letter(c: char) -> bool {
    ('a' <= c && c <= 'z') || ('A' <= c && c <= 'Z')
}

/// Whether a character is a decimal digit.
pub open spec fn is_digit(c: char) -> bool {
    '0' <= c && c <= '9'
}

/// Whether a character may stand in an identifier.
pub open spec fn is_word(c: char) -> bool {
    is_letter(c) || is_digit(c) || c == '_'
}

/// Whether a parser that started at `at` and stopped at `to` went forward
/// and stayed within the text.
pub open spec fn forward(at: Cursor, to: Cursor, len: nat) -> bool {
    at.pos < to.pos <= len
}

/// Whether a parser that started at `at` and stopped at `to` did not go
/// back and stayed within the text.
pub open spec fn onward(at: Cursor, to: Cursor, len: nat) -> bool {
    at.pos <= to.pos <= len
}

/// The place after the character at `at`: a line feed starts a new line
/// at column 1.
pub open spec fn moved(text: Seq<char>, at: Cursor) -> Cursor {
    if at.pos < text.len() && text[at.pos as int] == '\n' {
        Cursor { pos: (at.pos + 1) as usize, line: at.line.saturating_add(1), column: 1 }
    } else {
        Cursor {
            pos: (at.pos + 1) as usize,
            line: at.line,
            column: if at.column < usize::MAX {
                (at.column + 1) as usize
            } else {
                at.column
            },
        }
    }
}

/// The place `n` characters after `at`.
pub open spec fn moved_by(text: Seq<char>, at: Cursor, n: nat) -> Cursor
    decreases n,
{
    if n == 0 {
        at
    } else {
        moved(text, moved_by(text, at, (n - 1) as nat))
    }
}

/// The place of the first character from `at` on that is not blank.
pub open spec fn blanks_end(text: Seq<char>, at: Cursor) -> Cursor
    decreases text.len() - at.pos,
{
    if at.pos < text.len() && at.pos < usize::MAX && is_blank(text[at.pos as int]) {
        blanks_end(text, moved(text, at))
    } else {
        at
    }
}

/// The place of the first character from `at` on that may not stand in
/// an identifier.
pub open spec fn word_end(text: Seq<char>, at: Cursor) -> Cursor
    decreases text.len() - at.pos,
{
    if at.pos < text.len() && at.pos < usize::MAX && is_word(text[at.pos as int]) {
        word_end(text, moved(text, at))
    } else {
        at
    }
}

/// The place of the first character from `at` on that is no digit.
pub open spec fn digits_end(text: Seq<char>, at: Cursor) -> Cursor
    decreases text.len() - at.pos,
{
    if at.pos < text.len() && at.pos < usize::MAX && is_digit(text[at.pos as int]) {
        digits_end(text, moved(text, at))
    } else {
        at
    }
}

/// The place of the first character from `at` on that is neither a digit
/// nor an underscore.
pub open spec fn decimal_rest_end(text: Seq<char>, at: Cursor) -> Cursor
    decreases text.len() - at.pos,
{
    if at.pos < text.len() && at.pos < usize::MAX && (is_digit(text[at.pos as int]) || text[at.pos as int] == '_') {
        decimal_rest_end(text, moved(text, at))
    } else {
        at
    }
}

/// The span of the text between two places.
pub open spec fn span_of(text: Seq<char>, from: Cursor, to: Cursor) -> SpanModel {
    SpanModel {
        column: from.column,
        line: from.line,
        fragment: text.subrange(from.pos as int, to.pos as int),
    }
}

/// The place after `word` where the text goes on with it at `at`; a word
/// that is empty matches nowhere.
pub open spec fn tag_at(text: Seq<char>, at: Cursor, word: Seq<char>) -> Option<Cursor> {
    if word.len() > 0 && at.pos + word.len() <= text.len() && text.subrange(
        at.pos as int,
        at.pos + word.len(),
    ) == word {
        Some(moved_by(text, at, word.len()))
    } else {
        None
    }
}

/// `word` between blanks: its span and the place after the blanks that
/// follow it.
pub open spec fn symbol_at(text: Seq<char>, at: Cursor, word: Seq<char>) -> Option<
    (SpanModel, Cursor),
> {
    let from = blanks_end(text, at);
    match tag_at(text, from, word) {
        Some(to) => Some((span_of(text, from, to), blanks_end(text, to))),
        None => None,
    }
}

/// An identifier: a letter or an underscore, then letters, digits and
/// underscores as far as they go.
pub open spec fn identifier_at(text: Seq<char>, at: Cursor) -> Option<(SpanModel, Cursor)> {
    if at.pos < text.len() && (is_letter(text[at.pos as int]) || text[at.pos as int] == '_') {
        let to = word_end(text, moved(text, at));
        Some((span_of(text, at, to), to))
    } else {
        None
    }
}

/// An identifier between blanks.
pub open spec fn name_at(text: Seq<char>, at: Cursor) -> Option<(SpanModel, Cursor)> {
    match identifier_at(text, blanks_end(text, at)) {
        Some((span, to)) => Some((span, blanks_end(text, to))),
        None => None,
    }
}

/// The value of a run of digits read so far as `value`, after one more digit.
pub open spec fn with_digit(value: int, c: char) -> int {
    value * 10 + (c as u32 - '0' as u32)
}

/// The number that the digits of `text` from `from` up to `to` write,
/// after the digits before `from` gave `value`.
pub open spec fn digits_value(text: Seq<char>, from: int, to: int, value: int) -> int
    decreases to - from,
{
    if from >= to || from < 0 || from >= text.len() {
        value
    } else {
        digits_value(text, from + 1, to, with_digit(value, text[from]))
    }
}

/// The number that the digits from `at` on write after the digits before
/// gave `value`, and the place after them; nothing where the number is
/// more than a 64-bit integer holds.
pub open spec fn digits_at(text: Seq<char>, at: Cursor, value: int) -> Option<(i64, Cursor)>
    decreases text.len() - at.pos,
{
    if at.pos < text.len() && at.pos < usize::MAX && is_digit(text[at.pos as int]) {
        if with_digit(value, text[at.pos as int]) > i64::MAX {
            None
        } else {
            digits_at(text, moved(text, at), with_digit(value, text[at.pos as int]))
        }
    } else if 0 <= value <= i64::MAX {
        Some((value as i64, at))
    } else {
        None
    }
}

/// A non-negative integer: digits as far as they go, if they write a
/// number that a 64-bit integer holds.
pub open spec fn integer_at(text: Seq<char>, at: Cursor) -> Option<(i64, Cursor)> {
    if at.pos < text.len() && is_digit(text[at.pos as int]) {
        digits_at(text, at, 0)
    } else {
        None
    }
}

/// `true` or `false`.
pub open spec fn bool_at(text: Seq<char>, at: Cursor) -> Option<(bool, Cursor)> {
    match tag_at(text, at, "true"@) {
        Some(to) => Some((true, to)),
        None => match tag_at(text, at, "false"@) {
            Some(to) => Some((false, to)),
            None => None,
        },
    }
}

/// A digit, then digits and underscores as far as they go.
pub open spec fn decimal_at(text: Seq<char>, at: Cursor) -> Option<Cursor> {
    if at.pos < text.len() && is_digit(text[at.pos as int]) {
        Some(decimal_rest_end(text, moved(text, at)))
    } else {
        None
    }
}

/// One given character.
pub open spec fn one_at(text: Seq<char>, at: Cursor, c: char) -> Option<Cursor> {
    if at.pos < text.len() && text[at.pos as int] == c {
        Some(moved(text, at))
    } else {
        None
    }
}

/// The first of two alternatives that is there.
pub open spec fn or_else<T>(first: Option<T>, second: Option<T>) -> Option<T> {
    match first {
        Some(x) => Some(x),
        None => second,
    }
}

/// An exponent: `e` or `E`, a sign if there is one, and digits.
pub open spec fn exponent_at(text: Seq<char>, at: Cursor) -> Option<Cursor> {
    match or_else(one_at(text, at, 'e'), one_at(text, at, 'E')) {
        None => None,
        Some(after_e) => decimal_at(
            text,
            match or_else(one_at(text, after_e, '+'), one_at(text, after_e, '-')) {
                Some(after_sign) => after_sign,
                None => after_e,
            },
        ),
    }
}

/// The end of a floating-point literal in one of the forms `.42` with an
/// exponent or without, `42e1`, `42.42e1`, `42.` and `42.42`.
pub open spec fn float_end_at(text: Seq<char>, at: Cursor) -> Option<Cursor> {
    match one_at(text, at, '.') {
        Some(after_dot) => match decimal_at(text, after_dot) {
            Some(to) => Some(
                match exponent_at(text, to) {
                    Some(end) => end,
                    None => to,
                },
            ),
            None => None,
        },
        None => match decimal_at(text, at) {
            None => None,
            Some(whole) => {
                let fraction = match one_at(text, whole, '.') {
                    Some(after_dot) => decimal_at(text, after_dot),
                    None => None,
                };
                let mantissa = match fraction {
                    Some(to) => to,
                    None => whole,
                };
                match exponent_at(text, mantissa) {
                    Some(end) => Some(end),
                    None => match one_at(text, whole, '.') {
                        Some(after_dot) => Some(
                            match decimal_at(text, after_dot) {
                                Some(to) => to,
                                None => after_dot,
                            },
                        ),
                        None => None,
                    },
                }
            },
        },
    }
}

/// Whether an underscore stands between two places.
pub open spec fn holds_underscore(text: Seq<char>, from: int, to: int) -> bool {
    exists|i: int| from <= i < to && 0 <= i < text.len() && text[i] == '_'
}

/// The unit literal: parentheses with nothing but blanks between them.
pub open spec fn unit_at(text: Seq<char>, at: Cursor) -> Option<Cursor> {
    match tag_at(text, at, "("@) {
        Some(open) => tag_at(text, blanks_end(text, open), ")"@),
        None => None,
    }
}

/// A floating-point literal: the text of one of the forms, without an
/// underscore.
pub open spec fn float_at(text: Seq<char>, at: Cursor) -> Option<(ValueModel, Cursor)> {
    match float_end_at(text, at) {
        Some(to) => if at.pos <= to.pos <= text.len() && !holds_underscore(
            text,
            at.pos as int,
            to.pos as int,
        ) {
            Some((ValueModel::Float(text.subrange(at.pos as int, to.pos as int)), to))
        } else {
            None
        },
        None => None,
    }
}

/// A literal: unit, a floating-point number, an integer or a boolean,
/// tried in this order.
pub open spec fn literal_at(text: Seq<char>, at: Cursor) -> Option<(ValueModel, Cursor)> {
    match unit_at(text, at) {
        Some(to) => Some((ValueModel::Unit, to)),
        None => match float_at(text, at) {
            Some(found) => Some(found),
            None => match integer_at(text, at) {
                Some((i, to)) => Some((ValueModel::Int(i), to)),
                None => match bool_at(text, at) {
                    Some((b, to)) => Some((ValueModel::Bool(b), to)),
                    None => None,
                },
            },
        },
    }
}

/// An initialized type of a kind.
pub open spec fn plain(inner: InnerTypeModel) -> VarTypeModel {
    VarTypeModel { inner, initialized: true }
}

/// The kind that `word` names where it stands between blanks at `at`.
pub open spec fn kind_at(text: Seq<char>, at: Cursor, word: Seq<char>, inner: InnerTypeModel) -> Option<
    (VarTypeModel, Cursor),
> {
    match symbol_at(text, at, word) {
        Some((_, to)) => Some((plain(inner), to)),
        None => None,
    }
}

/// A type name between blanks: `int`, `float` or `real`, `char`, `bool` or
/// `string`, tried in this order.
pub open spec fn var_type_at(text: Seq<char>, at: Cursor) -> Option<(VarTypeModel, Cursor)> {
    or_else(
        kind_at(text, at, "int"@, InnerTypeModel::Int),
        or_else(
            kind_at(text, at, "float"@, InnerTypeModel::Float),
            or_else(
                kind_at(text, at, "real"@, InnerTypeModel::Float),
                or_else(
                    kind_at(text, at, "char"@, InnerTypeModel::Char),
                    or_else(
                        kind_at(text, at, "bool"@, InnerTypeModel::Bool),
                        kind_at(text, at, "string"@, InnerTypeModel::String),
                    ),
                ),
            ),
        ),
    )
}

/// The operator that `word` writes where it stands between blanks at `at`.
pub open spec fn binary_word_at(text: Seq<char>, at: Cursor, word: Seq<char>, op: BinOp) -> Option<
    (BinOp, SpanModel, Cursor),
> {
    match symbol_at(text, at, word) {
        Some((span, to)) => Some((op, span, to)),
        None => None,
    }
}

/// A binary operator between blanks, of `*`, `/`, `->`, `+`, `-`, `fby`,
/// `==`, `!=`, `or` and `and`, tried in this order.
pub open spec fn binary_operator_at(text: Seq<char>, at: Cursor) -> Option<(BinOp, SpanModel, Cursor)> {
    or_else(
        binary_word_at(text, at, "*"@, BinOp::Mult),
        or_else(
            binary_word_at(text, at, "/"@, BinOp::Div),
            or_else(
                binary_word_at(text, at, "->"@, BinOp::Arrow),
                or_else(
                    binary_word_at(text, at, "+"@, BinOp::Add),
                    or_else(
                        binary_word_at(text, at, "-"@, BinOp::Sub),
                        or_else(
                            binary_word_at(text, at, "fby"@, BinOp::Fby),
                            or_else(
                                binary_word_at(text, at, "=="@, BinOp::Eq),
                                or_else(
                                    binary_word_at(text, at, "!="@, BinOp::Neq),
                                    or_else(
                                        binary_word_at(text, at, "or"@, BinOp::Or),
                                        binary_word_at(text, at, "and"@, BinOp::And),
                                    ),
                                ),
                            ),
                        ),
                    ),
                ),
            ),
        ),
    )
}

/// The operator that `word` writes where it stands between blanks at `at`.
pub open spec fn prefix_word_at(text: Seq<char>, at: Cursor, word: Seq<char>, op: UnaryOp) -> Option<
    (UnaryOp, SpanModel, Cursor),
> {
    match symbol_at(text, at, word) {
        Some((span, to)) => Some((op, span, to)),
        None => None,
    }
}

/// A prefix operator between blanks, of `-`, `pre` and `not`, tried in
/// this order.
pub open spec fn prefix_operator_at(text: Seq<char>, at: Cursor) -> Option<
    (UnaryOp, SpanModel, Cursor),
> {
    or_else(
        prefix_word_at(text, at, "-"@, UnaryOp::Neg),
        or_else(
            prefix_word_at(text, at, "pre"@, UnaryOp::Pre),
            prefix_word_at(text, at, "not"@, UnaryOp::Not),
        ),
    )
}

/// What a parser of one thing gives: the thing and the place after it.
pub type Parsed<T> = Option<(T, Cursor)>;

/// Expressions separated by commas from `at` on, with or without a comma
/// after the last one, after the expressions `items`, which `commas`
/// commas follow: all the expressions, the number of commas, and the
/// place after them.
pub open spec fn expressions_at(text: Seq<char>, at: Cursor, items: Seq<ExprModel>, commas: nat) -> (
    Seq<ExprModel>,
    nat,
    Cursor,
)
    decreases text.len() - at.pos, 4int,
{
    match expression_at(text, at, 5) {
        None => (items, commas, at),
        Some((e, after)) => if !forward(at, after, text.len()) {
            (items, commas, at)
        } else {
            match symbol_at(text, after, ","@) {
                Some((_, next)) => if forward(at, next, text.len()) {
                    expressions_at(text, next, items.push(e), commas + 1)
                } else {
                    (items.push(e), commas, after)
                },
                None => (items.push(e), commas, blanks_end(text, after)),
            }
        },
    }
}

/// The place after `word` between blanks, if it goes forward.
pub open spec fn after_symbol(text: Seq<char>, at: Cursor, word: Seq<char>) -> Option<Cursor> {
    match symbol_at(text, at, word) {
        Some((_, to)) => if forward(at, to, text.len()) {
            Some(to)
        } else {
            None
        },
        None => None,
    }
}

/// An expression in parentheses.
pub open spec fn parenthesized_at(text: Seq<char>, at: Cursor) -> Parsed<ExprModel>
    decreases text.len() - at.pos, 0int,
{
    match after_symbol(text, at, "("@) {
        None => None,
        Some(open) => match expression_at(text, open, 5) {
            None => None,
            Some((e, after)) => match symbol_at(text, after, ")"@) {
                Some((_, to)) => Some((e, to)),
                None => None,
            },
        },
    }
}

/// An array: expressions between brackets, separated by commas, with or
/// without a comma after the last one.
pub open spec fn array_at(text: Seq<char>, at: Cursor) -> Parsed<Seq<ExprModel>>
    decreases text.len() - at.pos, 0int,
{
    match after_symbol(text, at, "["@) {
        None => None,
        Some(open) => {
            let (items, _, after) = expressions_at(text, open, Seq::empty(), 0);
            match symbol_at(text, after, "]"@) {
                Some((_, to)) => Some((items, to)),
                None => None,
            }
        },
    }
}

/// A tuple: expressions between parentheses, separated by commas, of
/// which there is at least one.
pub open spec fn tuple_at(text: Seq<char>, at: Cursor) -> Parsed<Seq<ExprModel>>
    decreases text.len() - at.pos, 0int,
{
    match after_symbol(text, at, "("@) {
        None => None,
        Some(open) => {
            let (items, commas, after) = expressions_at(text, open, Seq::empty(), 0);
            if commas == 0 {
                None
            } else {
                match symbol_at(text, after, ")"@) {
                    Some((_, to)) => Some((items, to)),
                    None => None,
                }
            }
        },
    }
}

/// A call: a name and its arguments between parentheses, separated by
/// commas. An empty list of arguments stands for the one argument unit.
pub open spec fn func_call_at(text: Seq<char>, at: Cursor) -> Parsed<(SpanModel, Seq<ExprModel>)>
    decreases text.len() - at.pos, 0int,
{
    match name_at(text, at) {
        None => None,
        Some((callee, after_name)) => match symbol_at(text, after_name, "("@) {
            None => None,
            Some((_, open)) => if !forward(at, open, text.len()) {
                None
            } else {
                match symbol_at(text, open, ")"@) {
                    Some((_, to)) => Some(((callee, seq![ExprModel::lit_unit()]), to)),
                    None => {
                        let (args, _, after) = expressions_at(text, open, Seq::empty(), 0);
                        match symbol_at(text, after, ")"@) {
                            Some((_, to)) => Some(((callee, args), to)),
                            None => None,
                        }
                    },
                }
            },
        },
    }
}

/// What stands where an operand is expected, tried in this order: an
/// expression in parentheses, an array, a tuple, a call, a literal, a
/// variable.
pub open spec fn operand_at(text: Seq<char>, at: Cursor) -> Parsed<ExprModel>
    decreases text.len() - at.pos, 1int,
{
    match parenthesized_at(text, at) {
        Some(found) => Some(found),
        None => match array_at(text, at) {
            Some((items, to)) => Some((ExprModel::Array(items), to)),
            None => match tuple_at(text, at) {
                Some((items, to)) => Some((ExprModel::Tuple(items), to)),
                None => match func_call_at(text, at) {
                    Some(((name, args), to)) => Some((ExprModel::FCall { name, args }, to)),
                    None => match literal_at(text, blanks_end(text, at)) {
                        Some((v, to)) => Some((ExprModel::Lit(v), blanks_end(text, to))),
                        None => match name_at(text, at) {
                            Some((span, to)) => Some((ExprModel::Variable(span), to)),
                            None => None,
                        },
                    },
                },
            },
        },
    }
}

/// An operand after any number of prefix operators.
pub open spec fn unary_at(text: Seq<char>, at: Cursor) -> Parsed<ExprModel>
    decreases text.len() - at.pos, 2int,
{
    match prefix_operator_at(text, at) {
        Some((op, span_op, next)) => if !forward(at, next, text.len()) {
            None
        } else {
            match unary_at(text, next) {
                Some((rhs, to)) => Some(
                    (ExprModel::UnaryOp { op, span_op, rhs: Box::new(rhs) }, to),
                ),
                None => None,
            }
        },
        None => operand_at(text, at),
    }
}

/// The expression that begins with `lhs`, which ends at `at`, and goes on
/// with binary operators that bind at least as tightly as `limit` and
/// their right operands; an operator of a smaller number binds tighter,
/// and the operators group to the left.
pub open spec fn climb_at(text: Seq<char>, at: Cursor, lhs: ExprModel, limit: usize) -> Parsed<
    ExprModel,
>
    decreases text.len() - at.pos, 0int,
{
    match binary_operator_at(text, at) {
        None => Some((lhs, at)),
        Some((op, span_op, next)) => if op.precedence_spec() > limit {
            Some((lhs, at))
        } else if !forward(at, next, text.len()) {
            None
        } else {
            match expression_at(text, next, (op.precedence_spec() - 1) as usize) {
                None => None,
                Some((rhs, after)) => if !forward(next, after, text.len()) {
                    None
                } else {
                    climb_at(
                        text,
                        after,
                        ExprModel::BinOp { lhs: Box::new(lhs), op, span_op, rhs: Box::new(rhs) },
                        limit,
                    )
                },
            }
        },
    }
}

/// An expression made of operators that bind at least as tightly as `limit`.
pub open spec fn expression_at(text: Seq<char>, at: Cursor, limit: usize) -> Parsed<ExprModel>
    decreases text.len() - at.pos, 3int,
{
    match unary_at(text, at) {
        None => None,
        Some((lhs, after)) => if !forward(at, after, text.len()) {
            None
        } else {
            climb_at(text, after, lhs, limit)
        },
    }
}

/// A choice: `if`, a condition, `then`, an expression, `else` and an
/// expression. The three expressions are given in this order.
pub open spec fn if_then_else_at(text: Seq<char>, at: Cursor) -> Parsed<
    (ExprModel, ExprModel, ExprModel),
> {
    match symbol_at(text, at, "if"@) {
        None => None,
        Some((_, after_if)) => match expression_at(text, after_if, 5) {
            None => None,
            Some((cond, after_cond)) => match symbol_at(text, after_cond, "then"@) {
                None => None,
                Some((_, after_then)) => match expression_at(text, after_then, 5) {
                    None => None,
                    Some((yes, after_yes)) => match symbol_at(text, after_yes, "else"@) {
                        None => None,
                        Some((_, after_else)) => match expression_at(text, after_else, 5) {
                            None => None,
                            Some((no, to)) => Some(((cond, yes, no), blanks_end(text, to))),
                        },
                    },
                },
            },
        },
    }
}

/// An equation: a name, `=` and an expression.
pub open spec fn equation_at(text: Seq<char>, at: Cursor) -> Parsed<(SpanModel, ExprModel)> {
    match name_at(text, at) {
        None => None,
        Some((name, after_name)) => match symbol_at(text, after_name, "="@) {
            None => None,
            Some((_, after_equal)) => match expression_at(text, after_equal, 5) {
                Some((e, to)) => Some(((name, e), blanks_end(text, to))),
                None => None,
            },
        },
    }
}

/// Equations, each followed by a semicolon, as far as they go, after the
/// equations `found` with the semicolons `semicolons`.
pub open spec fn equations_at(
    text: Seq<char>,
    at: Cursor,
    found: Seq<(SpanModel, ExprModel)>,
    semicolons: Seq<SpanModel>,
) -> (Seq<(SpanModel, ExprModel)>, Seq<SpanModel>, Cursor)
    decreases text.len() - at.pos,
{
    match equation_at(text, at) {
        None => (found, semicolons, at),
        Some((eq, after)) => match symbol_at(text, after, ";"@) {
            None => (found, semicolons, at),
            Some((span, next)) => if forward(at, next, text.len()) {
                equations_at(text, next, found.push(eq), semicolons.push(span))
            } else {
                (found, semicolons, at)
            },
        },
    }
}

/// One group of parameters after the names `names`: more names separated
/// by commas, `:` and their type.
pub open spec fn arg_at(text: Seq<char>, at: Cursor, names: Seq<SpanModel>) -> Option<
    (Seq<SpanModel>, VarTypeModel, Cursor),
>
    decreases text.len() - at.pos,
{
    match name_at(text, at) {
        None => None,
        Some((name, after)) => match symbol_at(text, after, ","@) {
            Some((_, next)) => if forward(at, next, text.len()) {
                arg_at(text, next, names.push(name))
            } else {
                None
            },
            None => match symbol_at(text, after, ":"@) {
                None => None,
                Some((_, after_colon)) => match var_type_at(text, after_colon) {
                    Some((t, to)) => Some((names.push(name), t, to)),
                    None => None,
                },
            },
        },
    }
}

/// The names of a group, each with the type of the group.
pub open spec fn typed(names: Seq<SpanModel>, t: VarTypeModel) -> Seq<(SpanModel, VarTypeModel)> {
    Seq::new(names.len(), |i: int| (names[i], t))
}

/// Parameters after the parameters `found`: groups separated by commas,
/// as far as they go, with or without a comma after the last group.
pub open spec fn args_at(text: Seq<char>, at: Cursor, found: Seq<(SpanModel, VarTypeModel)>) -> (
    Seq<(SpanModel, VarTypeModel)>,
    Cursor,
)
    decreases text.len() - at.pos,
{
    match arg_at(text, at, Seq::empty()) {
        None => (found, at),
        Some((names, t, after)) => match symbol_at(text, after, ","@) {
            Some((_, next)) => if forward(at, next, text.len()) {
                args_at(text, next, found + typed(names, t))
            } else {
                (found + typed(names, t), after)
            },
            None => (found + typed(names, t), after),
        },
    }
}

/// The inputs of a node: `()` stands for one input of type unit, named by
/// the parentheses and the blanks after them.
pub open spec fn node_inputs_at(text: Seq<char>, at: Cursor) -> Parsed<Seq<(SpanModel, VarTypeModel)>> {
    let from = blanks_end(text, at);
    match symbol_at(text, from, "("@) {
        None => None,
        Some((_, open)) => match symbol_at(text, open, ")"@) {
            Some((_, to)) => Some(
                (seq![(span_of(text, from, to), plain(InnerTypeModel::Unit))], to),
            ),
            None => {
                let (inputs, after) = args_at(text, open, Seq::empty());
                match symbol_at(text, after, ")"@) {
                    Some((_, to)) => Some((inputs, to)),
                    None => None,
                }
            },
        },
    }
}

/// The equations of a node between `let` and `tel`, and what stands
/// around them.
pub open spec fn node_body_at(
    text: Seq<char>,
    at: Cursor,
    tag: Option<(SpanModel, Tag)>,
    span_node: SpanModel,
    name: SpanModel,
    inputs: Seq<(SpanModel, VarTypeModel)>,
    span_returns: SpanModel,
    outputs: Seq<(SpanModel, VarTypeModel)>,
) -> Parsed<NodeModel> {
    match symbol_at(text, at, ";"@) {
        None => None,
        Some((span_semicolon, after_semicolon)) => match symbol_at(text, after_semicolon, "let"@) {
            None => None,
            Some((span_let, after_let)) => {
                let (let_bindings, span_semicolon_equations, after_equations) = equations_at(
                    text,
                    after_let,
                    Seq::empty(),
                    Seq::empty(),
                );
                match symbol_at(text, after_equations, "tel"@) {
                    None => None,
                    Some((span_tel, to)) => Some(
                        (
                            NodeModel {
                                span_node,
                                span_returns,
                                span_let,
                                span_tel,
                                span_semicolon,
                                tag,
                                name,
                                inputs,
                                vars: Seq::empty(),
                                outputs,
                                let_bindings,
                                span_semicolon_equations,
                            },
                            to,
                        ),
                    ),
                }
            },
        },
    }
}

/// The optional tag of a node and the place after it.
pub open spec fn node_tag_at(text: Seq<char>, at: Cursor) -> (Option<(SpanModel, Tag)>, Cursor) {
    match symbol_at(text, at, "#[test]"@) {
        Some((span, to)) => (Some((span, Tag::Test)), to),
        None => (None, at),
    }
}

/// A node: an optional `#[test]`, `node`, the name, the inputs, `returns`,
/// the outputs, `;`, and the equations between `let` and `tel`.
pub open spec fn node_at(text: Seq<char>, at: Cursor) -> Parsed<NodeModel> {
    let (tag, after_tag) = node_tag_at(text, at);
    match symbol_at(text, after_tag, "node"@) {
        None => None,
        Some((span_node, after_node)) => match name_at(text, after_node) {
            None => None,
            Some((name, after_name)) => match node_inputs_at(text, after_name) {
                None => None,
                Some((inputs, after_inputs)) => match symbol_at(text, after_inputs, "returns"@) {
                    None => None,
                    Some((span_returns, after_returns)) => match symbol_at(
                        text,
                        after_returns,
                        "("@,
                    ) {
                        None => None,
                        Some((_, open)) => {
                            let (outputs, after_args) = args_at(text, open, Seq::empty());
                            match symbol_at(text, after_args, ")"@) {
                                None => None,
                                Some((_, after_outputs)) => node_body_at(
                                    text,
                                    after_outputs,
                                    tag,
                                    span_node,
                                    name,
                                    inputs,
                                    span_returns,
                                    outputs,
                                ),
                            }
                        },
                    },
                },
            },
        },
    }
}

/// Nodes as far as they go, after the nodes `found`.
pub open spec fn nodes_at(text: Seq<char>, at: Cursor, found: Seq<NodeModel>) -> (Seq<NodeModel>, Cursor)
    decreases text.len() - at.pos,
{
    match node_at(text, at) {
        Some((node, after)) => if forward(at, after, text.len()) {
            nodes_at(text, after, found.push(node))
        } else {
            (found, at)
        },
        None => (found, at),
    }
}

/// A program: blanks, then nodes as far as they go.
pub open spec fn ast_at(text: Seq<char>, at: Cursor) -> (AstModel, Cursor) {
    let (nodes, to) = nodes_at(text, blanks_end(text, at), Seq::empty());
    (AstModel { nodes }, to)
}

/// The place at which a text starts.
pub open spec fn start() -> Cursor {
    Cursor { pos: 0, line: 1, column: 1 }
}

/// The program that a whole text writes, or the place at which no node
/// starts and the text has not ended.
pub open spec fn program(text: Seq<char>) -> Result<AstModel, Cursor> {
    let (ast, end) = ast_at(text, start());
    if end.pos == text.len() {
        Ok(ast)
    } else {
        Err(end)
    }
}

} // verus!
