//! The action to perform on the surviving files, and its resolution from
//! the mutually exclusive request signals.

use vstd::prelude::*;

verus! {

/// The action to perform on matching files.
///
/// # Variants
/// - `MoveOrCopyTo` - Move or copy matching files to the specified directory
/// - `Delete` - Delete non-matching files
#[derive(Debug, Clone)]
pub enum Action {
    /// Copy or move matching files to the specified directory.
    MoveOrCopyTo(MoveOrCopy, String),
    /// Delete non-matching files.
    Delete,
}

impl Action {
    /// Construct a new action.
    ///
    /// Constructs an action to perform on matching files, depending on the
    /// request signals.
    ///
    /// The actions are prioritized as follows:
    /// - If `copy_to` is specified, the action is a copy to it.
    /// - Else, if `move_to` is specified, the action is a move to it.
    /// - Else, if `delete` is specified, the action is `Delete`.
    /// - With no signal at all, the action is a copy to the default
    ///   directory `selected`.
    pub fn new(copy_to: Option<String>, move_to: Option<String>, delete: bool) -> (r:
        Action)
        ensures
            copy_to matches Some(d) ==> r == Action::MoveOrCopyTo(
                MoveOrCopy::Copy,
                d,
            ),
            copy_to is None ==> (move_to matches Some(d) ==> r
                == Action::MoveOrCopyTo(MoveOrCopy::Move, d)),
            copy_to is None && move_to is None && delete ==> r == Action::Delete,
            copy_to is None && move_to is None && !delete ==> (r matches
                Action::MoveOrCopyTo(m, d) && m == MoveOrCopy::Copy && d@
                == "selected"@),
    {
        match (move_to, copy_to, delete) {
            (_, Some(path), _) => Action::MoveOrCopyTo(MoveOrCopy::Copy, path),
            (Some(path), _, _) => Action::MoveOrCopyTo(MoveOrCopy::Move, path),
            (None, None, false) => Action::MoveOrCopyTo(
                MoveOrCopy::Copy,
                String::from_str("selected"),
            ),
            (_, _, true) => Action::Delete,
        }
    }
}

/// The action to perform on matching files, as a move or copy operation.
#[derive(Debug, Clone, Copy, PartialEq, Eq, Structural)]
pub enum MoveOrCopy {
    /// Files will be moved.
    Move,
    /// Files will be copied.
    Copy,
}

impl MoveOrCopy {
    /// Get a description of the operation.
    pub fn description(&self) -> (r: &'static str)
        ensures
            *self == MoveOrCopy::Move ==> r@ == "moved"@,
            *self == MoveOrCopy::Copy ==> r@ == "copied"@,
    {
        match self {
            MoveOrCopy::Move => "moved",
            MoveOrCopy::Copy => "copied",
        }
    }
}

} // verus!
