use webtiles_rs::auth::{format_cookie, LoginTokenStore};
use webtiles_rs::session::Moderation;

#[test]
fn token_issue_and_consume_round_trip() {
    let mut store = LoginTokenStore::new();
    let cookie = store.issue("alice", 1_000, 60_000);
    assert!(cookie.starts_with("alice%20"));
    let username = store.consume(&cookie, 2_000);
    assert_eq!(username.as_deref(), Some("alice"));
    assert!(store.consume(&cookie, 2_000).is_none());
}

#[test]
fn expired_tokens_are_purged() {
    let mut store = LoginTokenStore::new();
    let cookie = store.issue("bob", 1_000, 0);
    store.purge_expired(1_005);
    assert!(store.consume(&cookie, 1_005).is_none());
}

#[test]
fn expired_token_is_refused_and_used_up() {
    let mut store = LoginTokenStore::new();
    let cookie = store.issue("carol", 0, 10);
    assert!(store.consume(&cookie, 11).is_none());
    assert!(store.consume(&cookie, 5).is_none());
}

#[test]
fn forgotten_and_foreign_cookies_do_not_log_in() {
    let mut store = LoginTokenStore::new();
    let cookie = store.issue("dave", 0, 100);
    assert!(store.consume(&format_cookie("dave", 1), 1).is_none());
    assert!(store.consume("garbage", 1).is_none());
    store.forget(&cookie);
    assert!(store.consume(&cookie, 1).is_none());
}

#[test]
fn block_all_exempts_only_the_player() {
    let mut m = Moderation::new();
    m.block("[all]");
    assert!(m.is_blocked("alice", Some("bob"), 0));
    assert!(!m.is_blocked("alice", Some("alice"), 0));
    assert!(m.is_blocked("alice", None, 0));
}

#[test]
fn timed_kick_expires() {
    let mut m = Moderation::new();
    m.kick("bob", 0, 100);
    assert!(!m.is_blocked("alice", Some("bob"), 105));
}

#[test]
fn kick_lasts_its_minutes() {
    let mut m = Moderation::new();
    m.kick("bob", 1, 0);
    assert!(m.is_blocked("alice", Some("bob"), 59_999));
    assert!(!m.is_blocked("alice", Some("bob"), 60_000));
}

#[test]
fn anonymous_watchers_are_blocked_by_anon() {
    let mut m = Moderation::new();
    assert!(!m.is_blocked("alice", None, 0));
    m.block("[anon]");
    assert!(m.is_blocked("alice", None, 0));
    assert!(!m.is_blocked("alice", Some("bob"), 0));
}

#[test]
fn unblock_lifts_a_block() {
    let mut m = Moderation::new();
    m.block("bob");
    m.block("bob");
    assert!(m.is_blocked("alice", Some("bob"), 0));
    m.unblock("bob");
    assert!(!m.is_blocked("alice", Some("bob"), 0));
}
