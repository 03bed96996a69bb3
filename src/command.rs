use vstd::prelude::*;
use crate::snapshot::UserSnapshot;

verus! {

/// Which of the two listings of the account a page walker drives.
#[derive(Debug, Clone, Copy, PartialEq, Eq, Structural)]
pub enum UserType {
    /// The accounts that follow it.
    Followers,
    /// The accounts that it follows.
    Following,
}

/// What the fetch pipelines ask of the persistence manager.
#[derive(Debug, Clone, PartialEq, Eq)]
pub enum DatabaseCommand {
    /// Store a snapshot of one account.
    StoreSnapshot(UserSnapshot),
    /// Record an account id as a follower.
    StoreFollower(u64),
    /// Record an account id as followed.
    StoreFollowing(u64),
    /// A pipeline failed: the session must not finish as a success.
    FailedSession,
}

/// The edge command that records `id` in the listing `kind`.
pub open spec fn edge_command(kind: UserType, id: u64) -> DatabaseCommand {
    match kind {
        UserType::Followers => DatabaseCommand::StoreFollower(id),
        UserType::Following => DatabaseCommand::StoreFollowing(id),
    }
}

/// Builds the edge command that records `id` in the listing `kind`.
pub fn edge_for(kind: UserType, id: u64) -> (c: DatabaseCommand)
    ensures
        c == edge_command(kind, id),
{
    match kind {
        UserType::Followers => DatabaseCommand::StoreFollower(id),
        UserType::Following => DatabaseCommand::StoreFollowing(id),
    }
}

} // verus!
