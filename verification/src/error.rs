//! Failures that the engine reports to its caller.

use vstd::prelude::*;

verus! {

/// Why an operation of the engine was refused. A refused operation leaves the
/// engine as it was.
#[derive(Clone, Copy, Debug, PartialEq, Eq, Structural)]
pub enum EngineError {
    /// Two groups that both hold particles have no coefficient in the rule
    /// matrix.
    MissingRule,
    /// A particle would have moved to a coordinate that no `i32` holds.
    PositionOverflow,
    /// More particles per group were asked for than a group can hold on any
    /// machine.
    CountTooLarge,
}

impl EngineError {
    /// A sentence for the caller.
    pub fn message(&self) -> (text: String)
        ensures
            text@ == self.message_text(),
    {
        match self {
            EngineError::MissingRule => "the rule matrix has no coefficient for a pair of groups".to_owned(),
            EngineError::PositionOverflow => "a particle left the range of coordinates".to_owned(),
            EngineError::CountTooLarge => "too many particles per group were asked for".to_owned(),
        }
    }

    /// The text of [`EngineError::message`].
    pub open spec fn message_text(&self) -> Seq<char> {
        match self {
            EngineError::MissingRule => "the rule matrix has no coefficient for a pair of groups"@,
            EngineError::PositionOverflow => "a particle left the range of coordinates"@,
            EngineError::CountTooLarge => "too many particles per group were asked for"@,
        }
    }
}

} // verus!
