//! The edits that write a program out, line by line.
use vstd::prelude::*;

use crate::ast::{Ast, AstModel};
use crate::parser::{chars_of, slice_text};
use crate::span::{Position, Range, clamp_u32};

verus! {

/// What an edit is, mathematically.
pub struct TextEditModel {
    pub range: Range,
    pub new_text: Seq<char>,
}

/// A change of a text document: `new_text` takes the place of what stands
/// in `range`.
#[derive(Debug, PartialEq, Eq)]
pub struct TextEdit {
    pub range: Range,
    pub new_text: String,
}

impl View for TextEdit {
    type V = TextEditModel;

    open spec fn view(&self) -> TextEditModel {
        TextEditModel { range: self.range, new_text: self.new_text@ }
    }
}

/// The models of a list of edits.
pub open spec fn edit_views(v: Seq<TextEdit>) -> Seq<TextEditModel> {
    Seq::new(v.len(), |i: int| v[i]@)
}

/// The texts of a list of lines.
pub open spec fn line_views(v: Seq<String>) -> Seq<Seq<char>> {
    Seq::new(v.len(), |i: int| v[i]@)
}

/// The number of characters from `from` on that stand before the next
/// line feed, or before the end of the text.
pub open spec fn line_len(text: Seq<char>, from: int) -> nat
    decreases text.len() - from,
{
    if from < 0 || from >= text.len() || text[from] == '\n' {
        0
    } else {
        1 + line_len(text, from + 1)
    }
}

/// The line that stands from `from` to `end`, where it ends: without the
/// carriage return at its end if a line feed follows.
pub open spec fn line_between(text: Seq<char>, from: int, end: int) -> Seq<char> {
    if from < end && end < text.len() && text[end - 1] == '\r' {
        text.subrange(from, end - 1)
    } else {
        text.subrange(from, end)
    }
}

/// The lines of a text from `from` on. A line ends before a line feed, or
/// before a carriage return and a line feed, or at the end of the text;
/// after the last line feed no empty line follows.
pub open spec fn lines_from(text: Seq<char>, from: int) -> Seq<Seq<char>>
    decreases text.len() - from,
{
    if from < 0 || from >= text.len() {
        Seq::empty()
    } else {
        let end = from + line_len(text, from);
        if end < text.len() {
            seq![line_between(text, from, end)] + lines_from(text, end + 1)
        } else {
            seq![line_between(text, from, end)]
        }
    }
}

/// The lines of a text.
pub open spec fn lines(text: Seq<char>) -> Seq<Seq<char>> {
    lines_from(text, 0)
}

/// The edit that puts `line` at the start of line `k`, counted from 0.
pub open spec fn line_edit(k: int, line: Seq<char>) -> TextEditModel {
    let at = Position { line: clamp_u32(k), character: 0 };
    TextEditModel { range: Range { start: at, end: at }, new_text: line }
}

/// One edit for each line: it puts the line at the start of the line of
/// its number.
pub open spec fn line_edits(lines: Seq<Seq<char>>) -> Seq<TextEditModel> {
    Seq::new(lines.len(), |k: int| line_edit(k, lines[k]))
}

impl AstModel {
    /// The edits that write the program out.
    pub open spec fn text_edit(self) -> Seq<TextEditModel> {
        line_edits(lines(self.text()))
    }
}

/// The lines of a text.
pub fn lines_of(text: &str) -> (r: Vec<String>)
    ensures
        line_views(r@) == lines(text@),
{
    let chars = chars_of(text);
    let n = chars.len();
    let mut r: Vec<String> = Vec::new();
    let mut from: usize = 0;
    assert(line_views(r@) =~= Seq::empty());
    while from < n
        invariant
            chars@ == text@,
            n == chars.len(),
            from <= n,
            lines(text@) == line_views(r@) + lines_from(text@, from as int),
        decreases n - from,
    {
        let mut end: usize = from;
        while end < n && chars[end] != '\n'
            invariant
                chars@ == text@,
                n == chars.len(),
                from <= end <= n,
                line_len(text@, from as int) == (end - from) + line_len(text@, end as int),
            decreases n - end,
        {
            end += 1;
        }
        let stop: usize = if from < end && end < n && chars[end - 1] == '\r' {
            end - 1
        } else {
            end
        };
        let line = slice_text(&chars, from, stop);
        proof {
            assert(line@ == line_between(text@, from as int, end as int));
            assert(line_views(r@.push(line)) =~= line_views(r@) + seq![line@]);
            assert(line_views(r@) + lines_from(text@, from as int) =~= (line_views(r@) + seq![
                line@,
            ]) + lines_from(text@, if end < n {
                end + 1
            } else {
                n as int
            }));
        }
        r.push(line);
        from = if end < n {
            end + 1
        } else {
            n
        };
    }
    assert(line_views(r@) + Seq::<Seq<char>>::empty() =~= line_views(r@));
    r
}

impl Ast {
    /// The edits that write the program out: one for each line of its
    /// text, which puts the line at the start of the line of its number.
    pub fn text_edit(&self) -> (r: Vec<TextEdit>)
        ensures
            edit_views(r@) == self@.text_edit(),
    {
        let text = self.to_text();
        let found = lines_of(text.as_str());
        let ghost all = line_views(found@);
        let mut r: Vec<TextEdit> = Vec::new();
        let mut j: usize = 0;
        while j < found.len()
            invariant
                j <= found.len(),
                all == line_views(found@),
                r.len() == j,
                forall|i: int| 0 <= i < j ==> (#[trigger] r[i])@ == line_edit(i, all[i]),
            decreases found.len() - j,
        {
            let line_number: u32 = if j > 0xffff_ffff {
                0xffff_ffffu32
            } else {
                j as u32
            };
            let at = Position { line: line_number, character: 0 };
            r.push(TextEdit { range: Range { start: at, end: at }, new_text: found[j].clone() });
            j += 1;
        }
        assert(edit_views(r@) =~= line_edits(all));
        r
    }
}

} // verus!
