//! The state of the pumpkin directory, and what is to be done about it.

use vstd::prelude::*;

verus! {

/// The name of the pumpkin directory. It lies directly under the directory
/// that the program is started in.
pub const PUMPKIN_DIR: &'static str = "pumpkins";

/// What one look at a path has shown.
#[derive(Debug)]
pub enum Probe {
    /// Something is there; `is_dir` tells whether it is a directory.
    Found { is_dir: bool },
    /// Nothing is there.
    NotFound,
    /// The look itself failed, for the reason given.
    Failed(String),
}

/// The state of the directory.
#[derive(Debug)]
pub enum I1 {
    /// The directory is there.
    IsDir,
    /// The path leads to something that is no directory.
    IsNotDir,
    /// Nothing is at the path.
    NotExist,
    /// The file system could not say; the text describes why.
    FSError(String),
}

/// What a state calls for.
#[derive(Clone, Copy, Debug, PartialEq, Eq, Structural)]
pub enum FollowUp {
    /// List the directory and pair its entries.
    Enumerate,
    /// Create the directory, one level, and say so.
    CreateDirectory,
    /// Say what was found, and touch nothing.
    Report,
}

/// The state that a probe stands for.
pub open spec fn state_of(probe: Probe) -> I1 {
    match probe {
        Probe::Found { is_dir } => if is_dir {
            I1::IsDir
        } else {
            I1::IsNotDir
        },
        Probe::NotFound => I1::NotExist,
        Probe::Failed(reason) => I1::FSError(reason),
    }
}

/// What is to be done in a state.
pub open spec fn follow_up_of(state: I1) -> FollowUp {
    match state {
        I1::IsDir => FollowUp::Enumerate,
        I1::NotExist => FollowUp::CreateDirectory,
        I1::IsNotDir => FollowUp::Report,
        I1::FSError(_) => FollowUp::Report,
    }
}

/// Classifies the directory from one probe of its path.
pub fn initial_scan(probe: Probe) -> (state: I1)
    ensures
        state == state_of(probe),
{
    match probe {
        Probe::Found { is_dir } => if is_dir {
            I1::IsDir
        } else {
            I1::IsNotDir
        },
        Probe::NotFound => I1::NotExist,
        Probe::Failed(reason) => I1::FSError(reason),
    }
}

impl I1 {
    /// What this state calls for.
    pub fn follow_up(&self) -> (action: FollowUp)
        ensures
            action == follow_up_of(*self),
    {
        match self {
            I1::IsDir => FollowUp::Enumerate,
            I1::NotExist => FollowUp::CreateDirectory,
            I1::IsNotDir => FollowUp::Report,
            I1::FSError(_) => FollowUp::Report,
        }
    }
}

/// The directory is created exactly when nothing was found at its path, and
/// listed exactly when a directory was found there. In every other case the
/// file system is left as it is.
pub proof fn lemma_follow_up(probe: Probe)
    ensures
        follow_up_of(state_of(probe)) == FollowUp::CreateDirectory <==> probe is NotFound,
        follow_up_of(state_of(probe)) == FollowUp::Enumerate <==> probe == (Probe::Found {
            is_dir: true,
        }),
        probe is NotFound ==> state_of(probe) is NotExist,
        probe == (Probe::Found { is_dir: false }) ==> state_of(probe) is IsNotDir
            && follow_up_of(state_of(probe)) == FollowUp::Report,
{
}

} // verus!
