use follower_log::command::{DatabaseCommand, UserType};
use follower_log::error::Error;
use follower_log::snapshot::Account;
use follower_log::walker::{PageResponse, PageWalker, WalkStep, START_CURSOR};

const NOW: i64 = 1_700_000_000;

fn account(id: u64, name: &str) -> Account {
    Account {
        id,
        created_at: 1_300_000_000 + id as i64,
        screen_name: name.to_string(),
        location: Some("Earth".to_string()),
        description: None,
        url: None,
        followers_count: 10,
        friends_count: 20,
        statuses_count: 30,
        verified: false,
    }
}

fn page(users: Vec<Account>, next_cursor: i64) -> PageResponse {
    PageResponse::Page { users, next_cursor }
}

fn edge_ids(cmds: &[DatabaseCommand]) -> Vec<u64> {
    cmds.iter()
        .filter_map(|c| match c {
            DatabaseCommand::StoreFollower(id) | DatabaseCommand::StoreFollowing(id) => Some(*id),
            _ => None,
        })
        .collect()
}

#[test]
fn walker_yields_all_pages_then_stops() {
    let mut w = PageWalker::new(UserType::Followers, 2);
    assert_eq!(w.page_size(), 2);
    assert_eq!(w.next_step(), WalkStep::Fetch { cursor: START_CURSOR });
    let mut all = Vec::new();

    let (cmds, step) = w.on_response(page(vec![account(1, "a"), account(2, "b")], 11), NOW);
    assert_eq!(step, WalkStep::Fetch { cursor: 11 });
    all.extend(cmds);
    let (cmds, step) = w.on_response(page(vec![account(3, "c")], 12), NOW);
    assert_eq!(step, WalkStep::Fetch { cursor: 12 });
    all.extend(cmds);
    let (cmds, step) = w.on_response(page(vec![], 0), NOW);
    assert_eq!(step, WalkStep::Done);
    assert!(cmds.is_empty());

    assert_eq!(all.len(), 6);
    assert_eq!(edge_ids(&all), vec![1, 2, 3]);
    for (i, expected) in [(0usize, 1u64), (2, 2), (4, 3)] {
        match &all[i] {
            DatabaseCommand::StoreSnapshot(s) => assert_eq!(s.user_id, expected),
            other => panic!("expected a snapshot, got {:?}", other),
        }
        assert_eq!(all[i + 1], DatabaseCommand::StoreFollower(expected));
    }
}

#[test]
fn walker_first_call_rate_limited() {
    let mut w = PageWalker::new(UserType::Following, 200);
    let (cmds, step) = w.on_response(PageResponse::RateLimited { retry_at: 1_700_000_123 }, NOW);
    assert_eq!(cmds, vec![DatabaseCommand::FailedSession]);
    assert_eq!(step, WalkStep::Failed { error: Error::RateLimited { retry_at: 1_700_000_123 } });
    assert_eq!(w.next_step(), step);
}

#[test]
fn walker_later_transport_failure_keeps_earlier_records() {
    let mut w = PageWalker::new(UserType::Following, 200);
    let (first, step) = w.on_response(page(vec![account(7, "g")], 5), NOW);
    assert_eq!(step, WalkStep::Fetch { cursor: 5 });
    assert_eq!(edge_ids(&first), vec![7]);
    assert_eq!(first[1], DatabaseCommand::StoreFollowing(7));
    let (cmds, step) = w.on_response(PageResponse::TransportFailure, NOW);
    assert_eq!(cmds, vec![DatabaseCommand::FailedSession]);
    assert_eq!(step, WalkStep::Failed { error: Error::TransportError });
}

#[test]
fn walker_later_rate_limit_is_reported() {
    let mut w = PageWalker::new(UserType::Followers, 200);
    let (_, step) = w.on_response(page(vec![account(1, "a")], 5), NOW);
    assert_eq!(step, WalkStep::Fetch { cursor: 5 });
    let (cmds, step) = w.on_response(PageResponse::RateLimited { retry_at: 99 }, NOW);
    assert_eq!(cmds, vec![DatabaseCommand::FailedSession]);
    assert_eq!(step, WalkStep::Failed { error: Error::RateLimited { retry_at: 99 } });
}

#[test]
fn walker_sends_nothing_after_it_ended() {
    let mut w = PageWalker::new(UserType::Followers, 200);
    let (_, step) = w.on_response(PageResponse::TransportFailure, NOW);
    assert_eq!(step, WalkStep::Failed { error: Error::TransportError });
    let (cmds, step) = w.on_response(page(vec![account(1, "a")], 5), NOW);
    assert!(cmds.is_empty());
    assert_eq!(step, WalkStep::Failed { error: Error::TransportError });

    let mut done = PageWalker::new(UserType::Followers, 200);
    let (cmds, step) = done.on_response(page(vec![], 0), NOW);
    assert!(cmds.is_empty());
    assert_eq!(step, WalkStep::Done);
    let (cmds, step) = done.on_response(PageResponse::RateLimited { retry_at: 1 }, NOW);
    assert!(cmds.is_empty());
    assert_eq!(step, WalkStep::Done);
}

#[test]
fn walker_snapshot_copies_the_record() {
    let mut w = PageWalker::new(UserType::Followers, 200);
    assert_eq!(w.kind(), UserType::Followers);
    let (cmds, _) = w.on_response(page(vec![account(42, "answer")], 3), NOW);
    match &cmds[0] {
        DatabaseCommand::StoreSnapshot(s) => {
            assert_eq!(s.user_id, 42);
            assert_eq!(s.snapshot_time, NOW);
            assert_eq!(s.screen_name, "answer");
            assert_eq!(s.created_date, 1_300_000_042);
            assert_eq!(s.location, Some("Earth".to_string()));
            assert_eq!(s.follower_count, 10);
            assert_eq!(s.following_count, 20);
            assert_eq!(s.status_count, 30);
        }
        other => panic!("expected a snapshot, got {:?}", other),
    }
}
