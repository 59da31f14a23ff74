use gatelock::attempt_log::{AttemptLog, LOG_CAPACITY, RECORD_BYTES};
use gatelock::codec::{LogEntry, LogEntryStatus};
use gatelock::feedback::{fault_pattern, success_pattern};
use gatelock::protocol::{
    record_dispatch_failure, record_lock_poisoned, record_success, LockProtocolHandler,
    WriteOutcome, ERR_DISPATCH, ERR_EXPIRED, ERR_INVALID_SIGNATURE, ERR_LOCK_POISONED,
    ERR_MALFORMED_SIGNATURE, ERR_SHORT_PAYLOAD, ERR_UNKNOWN_CHALLENGE,
};
use gatelock::sig::SignatureVerifier;
use k256::ecdsa::signature::Signer;
use k256::ecdsa::{Signature, SigningKey};

const PEER_A: [u8; 6] = [0x11, 0x22, 0x33, 0x44, 0x55, 0x66];
const PEER_B: [u8; 6] = [0x77, 0x88, 0x99, 0xaa, 0xbb, 0xcc];

fn signing_key() -> SigningKey {
    SigningKey::from_slice(&[7u8; 32]).unwrap()
}

fn verifier_for(sk: &SigningKey) -> SignatureVerifier {
    let sec1 = sk.verifying_key().to_sec1_bytes().to_vec();
    SignatureVerifier::new(sec1).unwrap()
}

fn handler() -> LockProtocolHandler {
    LockProtocolHandler::new(verifier_for(&signing_key()))
}

fn sign_der(sk: &SigningKey, msg: &[u8]) -> Vec<u8> {
    let sig: Signature = sk.sign(msg);
    sig.to_der().as_bytes().to_vec()
}

fn last_record(log: &AttemptLog) -> LogEntry {
    let snap = log.snapshot_encoded();
    assert!(snap.len() >= RECORD_BYTES);
    LogEntry::decode(&snap[snap.len() - RECORD_BYTES..]).unwrap()
}

#[test]
fn verifier_rejects_bad_key_bytes() {
    assert!(SignatureVerifier::new(vec![0u8; 3]).is_none());
    assert!(SignatureVerifier::new(vec![]).is_none());
    let sk = signing_key();
    assert!(SignatureVerifier::new(sk.verifying_key().to_sec1_bytes().to_vec()).is_some());
}

#[test]
fn read_issues_64_byte_challenge() {
    let mut h = handler();
    let c1 = h.on_read(&PEER_A, 0);
    let c2 = h.on_read(&PEER_A, 1);
    assert_eq!(c1.len(), 64);
    assert_eq!(c2.len(), 64);
    assert_ne!(c1, c2);
}

#[test]
fn end_to_end_success() {
    let sk = signing_key();
    let mut h = LockProtocolHandler::new(verifier_for(&sk));
    let mut log = AttemptLog::new();
    let challenge = h.on_read(&PEER_A, 5);
    let mut data = challenge.clone();
    data.extend_from_slice(&sign_der(&sk, &challenge));
    let outcome = h.on_write(&mut log, &PEER_A, 10, &data);
    assert_eq!(outcome, WriteOutcome::Authorized);
    // nothing recorded until the actuator has run
    assert_eq!(log.len(), 0);
    record_success(&mut log, &PEER_A, 10);
    assert_eq!(log.len(), 1);
    let rec = last_record(&log);
    assert_eq!(rec.time, 10);
    assert_eq!(rec.mac, PEER_A);
    assert_eq!(rec.status, LogEntryStatus::Successful);
}

#[test]
fn end_to_end_garbage_signature() {
    let mut h = handler();
    let mut log = AttemptLog::new();
    let challenge = h.on_read(&PEER_A, 0);
    let mut data = challenge.clone();
    data.extend_from_slice(&[0xde, 0xad, 0xbe, 0xef]);
    let outcome = h.on_write(&mut log, &PEER_A, 1, &data);
    assert_eq!(outcome, WriteOutcome::Rejected(ERR_MALFORMED_SIGNATURE));
    assert_eq!(log.len(), 1);
    assert_eq!(
        last_record(&log).status,
        LogEntryStatus::Failed(ERR_MALFORMED_SIGNATURE)
    );
}

#[test]
fn wrong_key_signature_is_invalid() {
    let sk = signing_key();
    let other = SigningKey::from_slice(&[9u8; 32]).unwrap();
    let mut h = LockProtocolHandler::new(verifier_for(&sk));
    let mut log = AttemptLog::new();
    let challenge = h.on_read(&PEER_A, 0);
    let mut data = challenge.clone();
    data.extend_from_slice(&sign_der(&other, &challenge));
    let outcome = h.on_write(&mut log, &PEER_A, 1, &data);
    assert_eq!(outcome, WriteOutcome::Rejected(ERR_INVALID_SIGNATURE));
    assert_eq!(
        last_record(&log).status,
        LogEntryStatus::Failed(ERR_INVALID_SIGNATURE)
    );
}

#[test]
fn short_payload_rejected() {
    let mut h = handler();
    let mut log = AttemptLog::new();
    let outcome = h.on_write(&mut log, &PEER_A, 0, &[0u8; 63]);
    assert_eq!(outcome, WriteOutcome::Rejected(ERR_SHORT_PAYLOAD));
    assert_eq!(
        last_record(&log).status,
        LogEntryStatus::Failed(ERR_SHORT_PAYLOAD)
    );
}

#[test]
fn replay_yields_unknown_challenge() {
    let sk = signing_key();
    let mut h = LockProtocolHandler::new(verifier_for(&sk));
    let mut log = AttemptLog::new();
    let challenge = h.on_read(&PEER_A, 0);
    let mut data = challenge.clone();
    data.extend_from_slice(&sign_der(&sk, &challenge));
    assert_eq!(h.on_write(&mut log, &PEER_A, 1, &data), WriteOutcome::Authorized);
    let replay = h.on_write(&mut log, &PEER_A, 2, &data);
    assert_eq!(replay, WriteOutcome::Rejected(ERR_UNKNOWN_CHALLENGE));
    assert_eq!(
        last_record(&log).status,
        LogEntryStatus::Failed(ERR_UNKNOWN_CHALLENGE)
    );
}

#[test]
fn expired_write_rejected_and_consumed() {
    let sk = signing_key();
    let mut h = LockProtocolHandler::new(verifier_for(&sk));
    let mut log = AttemptLog::new();
    let challenge = h.on_read(&PEER_A, 0);
    let mut data = challenge.clone();
    data.extend_from_slice(&sign_der(&sk, &challenge));
    // strictly after the 90 s time-to-live
    let outcome = h.on_write(&mut log, &PEER_A, 91, &data);
    assert_eq!(outcome, WriteOutcome::Rejected(ERR_EXPIRED));
    assert_eq!(last_record(&log).status, LogEntryStatus::Failed(ERR_EXPIRED));
    // the expired challenge was consumed: a replay is unknown, not expired
    let replay = h.on_write(&mut log, &PEER_A, 92, &data);
    assert_eq!(replay, WriteOutcome::Rejected(ERR_UNKNOWN_CHALLENGE));
}

#[test]
fn write_at_ttl_boundary_is_not_expired() {
    let sk = signing_key();
    let mut h = LockProtocolHandler::new(verifier_for(&sk));
    let mut log = AttemptLog::new();
    let challenge = h.on_read(&PEER_A, 0);
    let mut data = challenge.clone();
    data.extend_from_slice(&sign_der(&sk, &challenge));
    // exactly 90 s old: still acceptable
    assert_eq!(h.on_write(&mut log, &PEER_A, 90, &data), WriteOutcome::Authorized);
}

#[test]
fn peer_isolation() {
    let sk = signing_key();
    let mut h = LockProtocolHandler::new(verifier_for(&sk));
    let mut log = AttemptLog::new();
    let challenge = h.on_read(&PEER_A, 0);
    let mut data = challenge.clone();
    data.extend_from_slice(&sign_der(&sk, &challenge));
    // a write claiming another peer cannot consume A's challenge
    let outcome = h.on_write(&mut log, &PEER_B, 1, &data);
    assert_eq!(outcome, WriteOutcome::Rejected(ERR_UNKNOWN_CHALLENGE));
    // A's challenge is untouched and still usable
    assert_eq!(h.on_write(&mut log, &PEER_A, 2, &data), WriteOutcome::Authorized);
}

#[test]
fn disconnect_evicts_outstanding_challenges() {
    let sk = signing_key();
    let mut h = LockProtocolHandler::new(verifier_for(&sk));
    let mut log = AttemptLog::new();
    let challenge = h.on_read(&PEER_A, 0);
    let mut data = challenge.clone();
    data.extend_from_slice(&sign_der(&sk, &challenge));
    h.on_disconnect(&PEER_A);
    // still within the time-to-live, but evicted
    let outcome = h.on_write(&mut log, &PEER_A, 1, &data);
    assert_eq!(outcome, WriteOutcome::Rejected(ERR_UNKNOWN_CHALLENGE));
}

#[test]
fn disconnect_keeps_other_peers() {
    let sk = signing_key();
    let mut h = LockProtocolHandler::new(verifier_for(&sk));
    let mut log = AttemptLog::new();
    let challenge = h.on_read(&PEER_A, 0);
    let mut data = challenge.clone();
    data.extend_from_slice(&sign_der(&sk, &challenge));
    h.on_disconnect(&PEER_B);
    assert_eq!(h.on_write(&mut log, &PEER_A, 1, &data), WriteOutcome::Authorized);
}

#[test]
fn dispatch_failure_recorded() {
    let mut log = AttemptLog::new();
    let code = record_dispatch_failure(&mut log, &PEER_A, 3);
    assert_eq!(code, ERR_DISPATCH);
    assert_eq!(last_record(&log).status, LogEntryStatus::Failed(ERR_DISPATCH));
}

#[test]
fn lock_poisoned_recorded() {
    let mut log = AttemptLog::new();
    let code = record_lock_poisoned(&mut log, &PEER_A, 4);
    assert_eq!(code, ERR_LOCK_POISONED);
    assert_eq!(
        last_record(&log).status,
        LogEntryStatus::Failed(ERR_LOCK_POISONED)
    );
}

#[test]
fn log_bound_after_many_attempts() {
    let mut h = handler();
    let mut log = AttemptLog::new();
    // 40 short writes, each recorded, at times 0..39
    for t in 0..40u64 {
        let outcome = h.on_write(&mut log, &PEER_A, t, &[]);
        assert_eq!(outcome, WriteOutcome::Rejected(ERR_SHORT_PAYLOAD));
    }
    assert_eq!(log.len(), LOG_CAPACITY);
    let snap = log.snapshot_encoded();
    assert_eq!(snap.len(), LOG_CAPACITY * RECORD_BYTES);
    // the 32 most recent attempts, oldest to newest: times 8..39
    for i in 0..LOG_CAPACITY {
        let rec = LogEntry::decode(&snap[i * RECORD_BYTES..(i + 1) * RECORD_BYTES]).unwrap();
        assert_eq!(rec.time, (8 + i) as u64);
        assert_eq!(rec.mac, PEER_A);
        assert_eq!(rec.status, LogEntryStatus::Failed(ERR_SHORT_PAYLOAD));
    }
}

#[test]
fn feedback_patterns() {
    assert_eq!(success_pattern(), vec![true, true, true, true, true]);
    assert_eq!(fault_pattern(), vec![true, false, true, true, true]);
}
