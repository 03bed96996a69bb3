use vstd::prelude::*;

verus! {

/// An account record as the remote API reports it.
/// Its creation time is in seconds since the Unix epoch.
#[derive(Debug, Clone, PartialEq, Eq)]
pub struct Account {
    pub id: u64,
    pub created_at: i64,
    pub screen_name: String,
    pub location: Option<String>,
    pub description: Option<String>,
    pub url: Option<String>,
    pub followers_count: i32,
    pub friends_count: i32,
    pub statuses_count: i32,
    pub verified: bool,
}

/// A copy of one account's profile metadata, taken at `snapshot_time`
/// (seconds since the Unix epoch).
#[derive(Debug, Clone, PartialEq, Eq)]
pub struct UserSnapshot {
    /// The account's id at the remote API.
    pub user_id: u64,
    /// When the snapshot was taken.
    pub snapshot_time: i64,
    /// When the account was created.
    pub created_date: i64,
    pub screen_name: String,
    pub location: Option<String>,
    pub description: Option<String>,
    pub url: Option<String>,
    pub follower_count: i32,
    pub following_count: i32,
    pub status_count: i32,
    pub verified: bool,
}

/// The snapshot of `user` taken at `time`: every other field is the
/// record's own.
pub open spec fn snapshot_of(user: Account, time: i64) -> UserSnapshot {
    UserSnapshot {
        user_id: user.id,
        snapshot_time: time,
        created_date: user.created_at,
        screen_name: user.screen_name,
        location: user.location,
        description: user.description,
        url: user.url,
        follower_count: user.followers_count,
        following_count: user.friends_count,
        status_count: user.statuses_count,
        verified: user.verified,
    }
}

/// `s` is a snapshot of `user`, taken at some time.
pub open spec fn describes(s: UserSnapshot, user: Account) -> bool {
    s == snapshot_of(user, s.snapshot_time)
}

/// Maps an account record to its snapshot taken at `snapshot_time`.
pub fn user_snapshot(user: Account, snapshot_time: i64) -> (s: UserSnapshot)
    ensures
        s == snapshot_of(user, snapshot_time),
{
    UserSnapshot {
        user_id: user.id,
        snapshot_time,
        created_date: user.created_at,
        screen_name: user.screen_name,
        location: user.location,
        description: user.description,
        url: user.url,
        follower_count: user.followers_count,
        following_count: user.friends_count,
        status_count: user.statuses_count,
        verified: user.verified,
    }
}

} // verus!
