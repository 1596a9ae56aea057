use vstd::prelude::*;
use vstd::string::*;

verus! {

/// A logical time step of the synchronous execution: only the first instant
/// is told apart from all the later ones.
#[derive(Debug, Clone, Copy, PartialEq, Eq, Structural)]
pub enum Instant {
    Initial,
    NonInitial,
}

impl Instant {
    /// Advances to the next instant: every instant but the first is `NonInitial`.
    pub fn step(&mut self)
        ensures
            *final(self) == Instant::NonInitial,
    {
        *self = Instant::NonInitial;
    }

    /// The instant as it is written.
    pub open spec fn text(self) -> Seq<char> {
        match self {
            Instant::Initial => "init"@,
            Instant::NonInitial => "not init"@,
        }
    }

    /// The instant as it is written.
    pub fn to_text(&self) -> (s: String)
        ensures
            s@ == self.text(),
    {
        match self {
            Instant::Initial => String::from_str("init"),
            Instant::NonInitial => String::from_str("not init"),
        }
    }

    /// Tells whether this is the first instant.
    pub fn is_init(&self) -> (b: bool)
        ensures
            b == (*self == Instant::Initial),
    {
        match self {
            Instant::Initial => true,
            Instant::NonInitial => false,
        }
    }
}

} // verus!
