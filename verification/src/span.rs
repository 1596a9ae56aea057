//! Source positions: spans of text, and the positions and ranges that
//! diagnostics and hints are attached to.
use vstd::prelude::*;
use vstd::string::*;

verus! {

/// A zero-based position in a text document.
#[derive(Debug, Clone, Copy, PartialEq, Eq, Structural)]
pub struct Position {
    pub line: u32,
    pub character: u32,
}

/// A range of a text document, from `start` to `end`.
#[derive(Debug, Clone, Copy, PartialEq, Eq, Structural)]
pub struct Range {
    pub start: Position,
    pub end: Position,
}

/// What a span is, mathematically: a position and the text found there.
pub struct SpanModel {
    pub column: usize,
    pub line: u32,
    pub fragment: Seq<char>,
}

/// A fragment of the source text with its position.
///
/// The column starts at 1 and so does the line. Two spans name the same
/// thing when their fragments are equal: the position only serves diagnostics.
#[derive(Debug)]
pub struct Span {
    column: usize,
    line: u32,
    fragment: String,
}

/// An identifier is the span of its name.
pub type Ident = Span;

impl View for Span {
    type V = SpanModel;

    closed spec fn view(&self) -> SpanModel {
        SpanModel { column: self.column, line: self.line, fragment: self.fragment@ }
    }
}

/// `n` brought into the range of `u32`.
pub open spec fn clamp_u32(n: int) -> u32 {
    if n < 0 {
        0u32
    } else if n > u32::MAX {
        u32::MAX
    } else {
        n as u32
    }
}

impl SpanModel {
    /// The zero-based position just after the last character of the span.
    pub open spec fn position_end(self) -> Position {
        Position {
            line: clamp_u32(self.line - 1),
            character: clamp_u32(self.column + self.fragment.len() - 1),
        }
    }

    /// As `position_end`, one line further down.
    pub open spec fn position_end_next_line(self) -> Position {
        Position { line: self.line, character: clamp_u32(self.column + self.fragment.len() - 1) }
    }

    /// The zero-based range that the span covers, on one line.
    pub open spec fn to_range(self) -> Range {
        Range {
            start: Position { line: clamp_u32(self.line - 1), character: clamp_u32(self.column - 1) },
            end: self.position_end(),
        }
    }

    /// The span of the unit literal, which has no place in the source.
    pub open spec fn unit() -> SpanModel {
        SpanModel { column: 0, line: 0, fragment: "()"@ }
    }
}

fn clamp_to_u32(n: usize) -> (r: u32)
    ensures
        r == clamp_u32(n as int),
{
    if n > u32::MAX as usize {
        u32::MAX
    } else {
        n as u32
    }
}

impl Span {
    /// A span of `fragment` at the given column and line.
    pub fn new(column: usize, line: u32, fragment: String) -> (s: Span)
        ensures
            s@ == (SpanModel { column, line, fragment: fragment@ }),
    {
        Span { column, line, fragment }
    }

    /// The span that stands for an empty argument list.
    pub fn unit() -> (s: Span)
        ensures
            s@ == SpanModel::unit(),
    {
        Span { column: 0, line: 0, fragment: String::from_str("()") }
    }

    /// Replaces the text and keeps the position.
    pub fn change_text(&mut self, fragment: String)
        ensures
            final(self)@ == (SpanModel { fragment: fragment@, ..old(self)@ }),
    {
        self.fragment = fragment;
    }

    /// Equality of position and text, where `same_name` compares the text only.
    pub fn eq_exact(&self, lhs: &Span) -> (b: bool)
        ensures
            b == (self@ == lhs@),
    {
        let b = self.column == lhs.column && self.line == lhs.line && self.fragment == lhs.fragment;
        proof {
            if self.fragment@ == lhs.fragment@ && self.column == lhs.column && self.line
                == lhs.line {
                assert(self@ == lhs@);
            }
        }
        b
    }

    /// Whether both spans hold the same text, wherever they stand.
    pub fn same_name(&self, other: &Span) -> (b: bool)
        ensures
            b == (self@.fragment == other@.fragment),
    {
        self.fragment == other.fragment
    }

    /// A copy of the text.
    pub fn fragment(&self) -> (s: String)
        ensures
            s@ == self@.fragment,
    {
        self.fragment.clone()
    }

    /// The text, borrowed.
    pub fn text(&self) -> (s: &str)
        ensures
            s@ == self@.fragment,
    {
        self.fragment.as_str()
    }

    /// The line, starting at 1.
    pub fn location_line(&self) -> (l: u32)
        ensures
            l == self@.line,
    {
        self.line
    }

    /// The column, starting at 1.
    pub fn get_column(&self) -> (c: usize)
        ensures
            c == self@.column,
    {
        self.column
    }

    /// A copy of the span.
    pub fn copy(&self) -> (s: Span)
        ensures
            s@ == self@,
    {
        Span { column: self.column, line: self.line, fragment: self.fragment.clone() }
    }

    fn end_character(&self) -> (c: u32)
        ensures
            c == clamp_u32(self@.column + self@.fragment.len() - 1),
    {
        let len = self.fragment.as_str().unicode_len();
        if len == 0 {
            if self.column == 0 {
                0
            } else {
                clamp_to_u32(self.column - 1)
            }
        } else if self.column > usize::MAX - len {
            u32::MAX
        } else {
            clamp_to_u32(self.column + len - 1)
        }
    }

    /// The zero-based position just after the last character of the span.
    pub fn position_end(&self) -> (p: Position)
        ensures
            p == self@.position_end(),
    {
        Position { line: self.line.saturating_sub(1), character: self.end_character() }
    }

    /// As `position_end`, one line further down.
    pub fn position_end_next_line(&self) -> (p: Position)
        ensures
            p == self@.position_end_next_line(),
    {
        Position { line: self.line, character: self.end_character() }
    }

    /// The zero-based range that the span covers.
    pub fn to_range(&self) -> (r: Range)
        ensures
            r == self@.to_range(),
    {
        let start_character = if self.column == 0 {
            0
        } else {
            clamp_to_u32(self.column - 1)
        };
        Range {
            start: Position { line: self.line.saturating_sub(1), character: start_character },
            end: self.position_end(),
        }
    }
}

impl Clone for Span {
    fn clone(&self) -> (s: Span)
        ensures
            s@ == self@,
    {
        self.copy()
    }
}

} // verus!
