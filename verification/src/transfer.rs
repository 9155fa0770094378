//! Carrying out one move: what to do next, given how the last thing went.
//!
//! The caller looks for the folder, creates it, and renames the file; after
//! each of these it says how it went and is told what comes next.

use vstd::prelude::*;
use crate::error::SortError;

verus! {

/// Where the move of one file stands. The first three say what the caller
/// has to do next; the last two end the move.
#[derive(Debug, Clone, Copy, PartialEq, Eq, Structural)]
pub enum MoveState {
    /// Look whether the folder of the category exists.
    CheckFolder,
    /// Create the folder of the category.
    CreateFolder,
    /// Rename the file into the folder.
    Rename,
    /// The file stands in the folder.
    Moved,
    /// The move was given up.
    Failed(SortError),
}

/// How the caller fared with what the state asked for.
#[derive(Debug, Clone, Copy, PartialEq, Eq, Structural)]
pub enum Reply {
    /// It went well; of a look for the folder: the folder is there.
    Success,
    /// What was to be created exists already.
    AlreadyExists,
    /// It did not go well; of a look for the folder: no folder was found.
    Failure,
}

impl MoveState {
    /// The move has ended.
    pub open spec fn is_final(self) -> bool {
        self is Moved || self is Failed
    }

    /// The state that follows `self` on `reply`. A folder that is not found is
    /// created; one that exists by the time it is to be created is as good as
    /// created; a folder that cannot be created and a file that cannot be
    /// renamed end the move. A move that has ended stays as it is.
    pub open spec fn after(self, reply: Reply) -> MoveState {
        match self {
            MoveState::CheckFolder => if reply is Success {
                MoveState::Rename
            } else {
                MoveState::CreateFolder
            },
            MoveState::CreateFolder => if reply is Failure {
                MoveState::Failed(SortError::DirectoryCreateFailed)
            } else {
                MoveState::Rename
            },
            MoveState::Rename => if reply is Success {
                MoveState::Moved
            } else {
                MoveState::Failed(SortError::MoveFailed)
            },
            MoveState::Moved => self,
            MoveState::Failed(_) => self,
        }
    }

    /// The state in which every move begins.
    pub fn start() -> (state: MoveState)
        ensures
            state == MoveState::CheckFolder,
    {
        MoveState::CheckFolder
    }

    /// Tells whether the move has ended.
    pub fn finished(&self) -> (r: bool)
        ensures
            r == self.is_final(),
    {
        match self {
            MoveState::Moved => true,
            MoveState::Failed(_) => true,
            _ => false,
        }
    }

    /// The state that follows on `reply`.
    pub fn next(self, reply: Reply) -> (state: MoveState)
        ensures
            state == self.after(reply),
    {
        match self {
            MoveState::CheckFolder => match reply {
                Reply::Success => MoveState::Rename,
                _ => MoveState::CreateFolder,
            },
            MoveState::CreateFolder => match reply {
                Reply::Failure => MoveState::Failed(SortError::DirectoryCreateFailed),
                _ => MoveState::Rename,
            },
            MoveState::Rename => match reply {
                Reply::Success => MoveState::Moved,
                _ => MoveState::Failed(SortError::MoveFailed),
            },
            done => done,
        }
    }
}

/// Every move ends with the third reply at the latest.
pub proof fn move_ends_in_three(first: Reply, second: Reply, third: Reply)
    ensures
        MoveState::CheckFolder.after(first).after(second).after(third).is_final(),
{
}

} // verus!
