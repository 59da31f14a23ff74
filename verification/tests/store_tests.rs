use gatelock::challenge::{ChallengeStore, CHALLENGE_LEN, TTL_SECONDS};

const PEER_A: [u8; 6] = [1, 2, 3, 4, 5, 6];
const PEER_B: [u8; 6] = [6, 5, 4, 3, 2, 1];

fn value(fill: u8) -> Vec<u8> {
    vec![fill; CHALLENGE_LEN]
}

#[test]
fn consume_matches_peer_and_value() {
    let mut store = ChallengeStore::new();
    store.issue(&PEER_A, 10, value(0x11));
    assert_eq!(store.consume(&PEER_A, &value(0x11)), Some(10));
    assert_eq!(store.len(), 0);
}

#[test]
fn consume_is_one_time() {
    let mut store = ChallengeStore::new();
    store.issue(&PEER_A, 10, value(0x11));
    assert_eq!(store.consume(&PEER_A, &value(0x11)), Some(10));
    assert_eq!(store.consume(&PEER_A, &value(0x11)), None);
}

#[test]
fn consume_rejects_other_value() {
    let mut store = ChallengeStore::new();
    store.issue(&PEER_A, 10, value(0x11));
    assert_eq!(store.consume(&PEER_A, &value(0x22)), None);
    assert_eq!(store.len(), 1);
}

#[test]
fn consume_rejects_other_peer() {
    let mut store = ChallengeStore::new();
    store.issue(&PEER_A, 10, value(0x11));
    assert_eq!(store.consume(&PEER_B, &value(0x11)), None);
    assert_eq!(store.len(), 1);
    assert_eq!(store.consume(&PEER_A, &value(0x11)), Some(10));
}

#[test]
fn consume_takes_first_match() {
    let mut store = ChallengeStore::new();
    store.issue(&PEER_A, 10, value(0x11));
    store.issue(&PEER_A, 20, value(0x11));
    assert_eq!(store.consume(&PEER_A, &value(0x11)), Some(10));
    assert_eq!(store.consume(&PEER_A, &value(0x11)), Some(20));
}

#[test]
fn evict_peer_removes_only_that_peer() {
    let mut store = ChallengeStore::new();
    store.issue(&PEER_A, 10, value(0x11));
    store.issue(&PEER_B, 11, value(0x22));
    store.issue(&PEER_A, 12, value(0x33));
    store.evict_peer(&PEER_A);
    assert_eq!(store.len(), 1);
    assert_eq!(store.consume(&PEER_A, &value(0x11)), None);
    assert_eq!(store.consume(&PEER_A, &value(0x33)), None);
    assert_eq!(store.consume(&PEER_B, &value(0x22)), Some(11));
}

#[test]
fn issue_fresh_returns_stored_value() {
    let mut store = ChallengeStore::new();
    let c = store.issue_fresh(&PEER_A, 7);
    assert_eq!(c.len(), CHALLENGE_LEN);
    assert_eq!(store.consume(&PEER_A, &c), Some(7));
}

#[test]
fn fresh_challenges_differ() {
    let mut store = ChallengeStore::new();
    let c1 = store.issue_fresh(&PEER_A, 1);
    let c2 = store.issue_fresh(&PEER_A, 2);
    assert_ne!(c1, c2);
}

#[test]
fn expiry_is_strict() {
    assert!(!ChallengeStore::is_expired(0, 0, TTL_SECONDS));
    assert!(!ChallengeStore::is_expired(0, 90, TTL_SECONDS));
    assert!(ChallengeStore::is_expired(0, 91, TTL_SECONDS));
    assert!(!ChallengeStore::is_expired(100, 150, TTL_SECONDS));
    assert!(ChallengeStore::is_expired(100, 191, TTL_SECONDS));
    // a clock reading before issuance is never expired
    assert!(!ChallengeStore::is_expired(100, 50, TTL_SECONDS));
}
