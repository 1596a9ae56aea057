//! Dense indices into the expression array of a compiled node.
use vstd::prelude::*;
use crate::text::{nat_text, nat_to_text};

verus! {

/// The index of an expression of a compiled node: the only way in which
/// compiled expressions refer to each other.
#[derive(Debug, Clone, Copy, PartialEq, Eq, Structural)]
pub struct ExprIndex(pub u32);

impl ExprIndex {
    /// The index as a mathematical integer.
    pub open spec fn index(self) -> int {
        self.0 as int
    }

    /// The index as it is written: in decimal.
    pub open spec fn text(self) -> Seq<char> {
        nat_text(self.0 as nat)
    }

    /// The index as it is written.
    pub fn to_text(&self) -> (s: String)
        ensures
            s@ == self.text(),
    {
        nat_to_text(self.0 as u64)
    }

    /// The index of position `i`.
    pub fn new(i: usize) -> (r: ExprIndex)
        requires
            i <= u32::MAX,
        ensures
            r.index() == i,
    {
        ExprIndex(i as u32)
    }

    /// The position that the index stands for.
    pub fn to_usize(&self) -> (i: usize)
        ensures
            i == self.index(),
    {
        self.0 as usize
    }

    /// Moves the index `offset` positions further.
    pub fn offset_index(&mut self, offset: usize)
        requires
            old(self).index() + offset <= u32::MAX,
        ensures
            final(self).index() == old(self).index() + offset,
    {
        *self = ExprIndex(self.0 + offset as u32);
    }
}

} // verus!
