//! Basic units shared by the parser, the evaluator and the compiler.

use vstd::prelude::*;

verus! {

/// A position of a node or symbol in a template.
///
/// Every offset counts characters, starting at zero.
#[derive(Clone, Copy, Debug, PartialEq, Eq, Structural)]
pub enum Position {
    /// Used when there is no way to calculate the exact or approximate position.
    Unknown,
    /// A position relative to the current function invocation.
    RelativeToInvocation(usize),
    /// A position relative to the start of the currently evaluated block of code.
    RelativeToCodeStart(usize),
    /// An absolute position in the current template.
    Absolute(usize),
}

impl Position {
    /// The bare offset carried by this position, if it has one.
    pub fn raw_value(&self) -> (r: Option<usize>)
        ensures
            r == match *self {
                Position::Unknown => Option::<usize>::None,
                Position::RelativeToInvocation(pos) => Some(pos),
                Position::RelativeToCodeStart(pos) => Some(pos),
                Position::Absolute(pos) => Some(pos),
            },
    {
        match self {
            Position::Unknown => None,
            Position::RelativeToInvocation(pos) => Some(*pos),
            Position::RelativeToCodeStart(pos) => Some(*pos),
            Position::Absolute(pos) => Some(*pos),
        }
    }
}

} // verus!
