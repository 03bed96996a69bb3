use follower_log::command::{DatabaseCommand, UserType};
use follower_log::manager::{DbManager, StoreOp};
use follower_log::session::{combine_outcomes, Session, SessionOp, SessionState};
use follower_log::snapshot::Account;
use follower_log::walker::{PageResponse, PageWalker, WalkStep};

fn account(id: u64) -> Account {
    Account {
        id,
        created_at: 1_000,
        screen_name: format!("acct{}", id),
        location: None,
        description: None,
        url: None,
        followers_count: 0,
        friends_count: 0,
        statuses_count: 0,
        verified: false,
    }
}

/// Feeds the pages to a walker and returns its commands and its outcome.
fn walk(kind: UserType, pages: Vec<Vec<u64>>) -> (Vec<DatabaseCommand>, WalkStep) {
    let mut w = PageWalker::new(kind, 2);
    let mut all = Vec::new();
    let mut cursor: i64 = 100;
    for ids in pages {
        cursor += 1;
        let users = ids.into_iter().map(account).collect();
        let (cmds, _) = w.on_response(PageResponse::Page { users, next_cursor: cursor }, 50);
        all.extend(cmds);
    }
    (all, w.next_step())
}

fn outcome(step: WalkStep) -> Result<(), follower_log::error::Error> {
    match step {
        WalkStep::Done => Ok(()),
        WalkStep::Failed { error } => Err(error),
        WalkStep::Fetch { .. } => panic!("the walk has not ended"),
    }
}

#[test]
fn run_with_account_in_both_listings() {
    let (followers, f_step) = walk(UserType::Followers, vec![vec![10, 20], vec![30], vec![]]);
    let (following, g_step) = walk(UserType::Following, vec![vec![20], vec![]]);
    assert_eq!(f_step, WalkStep::Done);
    assert_eq!(g_step, WalkStep::Done);

    // interleave the two streams one command at a time
    let mut merged = Vec::new();
    let mut a = followers.into_iter();
    let mut b = following.into_iter();
    loop {
        let x = a.next();
        let y = b.next();
        if x.is_none() && y.is_none() {
            break;
        }
        merged.extend(x);
        merged.extend(y);
    }

    let mut manager = DbManager::new(5);
    let ops: Vec<StoreOp> = merged.into_iter().filter_map(|c| manager.apply(c)).collect();
    let snapshots_of_20 = ops
        .iter()
        .filter(|op| matches!(op, StoreOp::InsertSnapshot { snapshot, .. } if snapshot.user_id == 20))
        .count();
    assert_eq!(snapshots_of_20, 1);
    assert!(ops.contains(&StoreOp::InsertFollower { session_id: 5, user_id: 20 }));
    assert!(ops.contains(&StoreOp::InsertFollowing { session_id: 5, user_id: 20 }));
    assert_eq!(ops.len(), 3 + 3 + 1);

    let mut session = Session::start(5, 1);
    let result = combine_outcomes(combine_outcomes(outcome(f_step), outcome(g_step)), Ok(()));
    let op = session.conclude(result, &manager, 9);
    assert_eq!(
        op,
        Some(SessionOp::Finalize { session_id: 5, finish_time: 9, follower_count: 3, following_count: 1 })
    );
    assert_eq!(session.state(), SessionState::Finished);
}

#[test]
fn run_with_rate_limited_pipeline_fails() {
    let (followers, f_step) = walk(UserType::Followers, vec![vec![10], vec![]]);
    let mut w = PageWalker::new(UserType::Following, 2);
    let (following, g_step) = w.on_response(PageResponse::RateLimited { retry_at: 777 }, 50);

    let mut manager = DbManager::new(6);
    for c in followers.into_iter().chain(following) {
        manager.apply(c);
    }
    assert!(manager.failed());
    let mut session = Session::start(6, 1);
    let result = combine_outcomes(combine_outcomes(outcome(f_step), outcome(g_step)), Ok(()));
    assert_eq!(session.conclude(result, &manager, 9), Some(SessionOp::Fail { session_id: 6, finish_time: 9 }));
    assert_eq!(session.state(), SessionState::Failed);
    assert_eq!(session.conclude(Ok(()), &manager, 10), None);
    assert!(!session.finish(11, 1, 0));
    assert_eq!(session.state(), SessionState::Failed);
}
