use follower_log::command::{edge_for, DatabaseCommand, UserType};
use follower_log::snapshot::{user_snapshot, Account};

fn sample() -> Account {
    Account {
        id: 12,
        created_at: 1_234_567_890,
        screen_name: "someone".to_string(),
        location: None,
        description: Some("hello".to_string()),
        url: Some("https://example.org".to_string()),
        followers_count: 5,
        friends_count: 6,
        statuses_count: 7,
        verified: true,
    }
}

#[test]
fn user_snapshot_copies_every_field() {
    let s = user_snapshot(sample(), 1_600_000_000);
    assert_eq!(s.user_id, 12);
    assert_eq!(s.snapshot_time, 1_600_000_000);
    assert_eq!(s.created_date, 1_234_567_890);
    assert_eq!(s.screen_name, "someone");
    assert_eq!(s.location, None);
    assert_eq!(s.description, Some("hello".to_string()));
    assert_eq!(s.url, Some("https://example.org".to_string()));
    assert_eq!(s.follower_count, 5);
    assert_eq!(s.following_count, 6);
    assert_eq!(s.status_count, 7);
    assert!(s.verified);
}

#[test]
fn edge_for_each_listing() {
    assert_eq!(edge_for(UserType::Followers, 3), DatabaseCommand::StoreFollower(3));
    assert_eq!(edge_for(UserType::Following, 3), DatabaseCommand::StoreFollowing(3));
}
