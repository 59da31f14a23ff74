//! The authentication protocol: one exchange per connection event.
//!
//! A read issues a fresh challenge bound to the requesting peer. A write
//! carries `challenge (64 bytes) || signature (DER, remaining bytes)` and
//! is classified into success or a single-byte rejection code; the
//! matching challenge is consumed on the first write that names it, even
//! when it turns out to be expired. Every terminal outcome appends one
//! record to the audit log: rejections here, success once the actuator
//! has run, and dispatch or lock failures through the record helpers.

use crate::attempt_log::{spec_log_append, AttemptLog};
use crate::challenge::{
    entry_matches, spec_evict, spec_expired, spec_first_match, Challenge, ChallengeStore,
    lemma_disconnect_eviction, lemma_first_match_props, lemma_one_time_use, lemma_peer_isolation,
    CHALLENGE_LEN, TTL_SECONDS,
};
use crate::codec::{LogEntry, LogEntryStatus};
use crate::sig::{der_ok, sig_valid, SigCheck, SignatureVerifier};
use vstd::prelude::*;

verus! {

/// Write payload shorter than the 64-byte challenge.
pub const ERR_SHORT_PAYLOAD: u8 = 0x01;

/// Trailing bytes do not parse as a DER-encoded signature.
pub const ERR_MALFORMED_SIGNATURE: u8 = 0x02;

/// Signature cryptographically invalid for the key and message.
pub const ERR_INVALID_SIGNATURE: u8 = 0x04;

/// Shared-state lock unavailable (poisoned by an earlier panic).
pub const ERR_LOCK_POISONED: u8 = 0x05;

/// No matching outstanding challenge for this peer and value.
pub const ERR_UNKNOWN_CHALLENGE: u8 = 0x06;

/// Matching challenge found but past its time-to-live.
pub const ERR_EXPIRED: u8 = 0x07;

/// Authorization accepted but not deliverable to the actuator.
pub const ERR_DISPATCH: u8 = 0x08;

/// How one write ended: authorized for actuation, or rejected with the
/// single-byte code surfaced to the peer.
#[derive(Clone, Copy, Debug, PartialEq, Eq, Structural)]
pub enum WriteOutcome {
    Authorized,
    Rejected(u8),
}

/// The code a write classifies to: 0 for an authorized request, else the
/// rejection code, decided in the order the checks run.
pub open spec fn spec_write_code(
    s: Seq<Challenge>,
    key: Seq<u8>,
    peer: Seq<u8>,
    now: u64,
    data: Seq<u8>,
) -> u8 {
    if data.len() < CHALLENGE_LEN {
        ERR_SHORT_PAYLOAD
    } else {
        let value = data.subrange(0, CHALLENGE_LEN as int);
        let sig = data.subrange(CHALLENGE_LEN as int, data.len() as int);
        let fm = spec_first_match(s, peer, value);
        if fm == -1 {
            ERR_UNKNOWN_CHALLENGE
        } else if spec_expired(s[fm].issued_at, now, TTL_SECONDS) {
            ERR_EXPIRED
        } else if !der_ok(sig) {
            ERR_MALFORMED_SIGNATURE
        } else if !sig_valid(key, value, sig) {
            ERR_INVALID_SIGNATURE
        } else {
            0
        }
    }
}

/// The challenge store after a write: the first challenge matching the
/// claimed peer and echoed value is consumed whenever one exists, whatever
/// the write's outcome.
pub open spec fn spec_write_store(s: Seq<Challenge>, peer: Seq<u8>, data: Seq<u8>) -> Seq<
    Challenge,
> {
    if data.len() < CHALLENGE_LEN {
        s
    } else {
        let fm = spec_first_match(s, peer, data.subrange(0, CHALLENGE_LEN as int));
        if fm == -1 {
            s
        } else {
            s.remove(fm)
        }
    }
}

/// Orchestrates one authentication exchange per connection event over the
/// challenge store and the fixed-key verifier. The audit log is guarded
/// separately, so each operation takes it as an argument.
pub struct LockProtocolHandler {
    pub store: ChallengeStore,
    pub verifier: SignatureVerifier,
}

impl LockProtocolHandler {
    /// A handler with no outstanding challenges.
    pub fn new(verifier: SignatureVerifier) -> (r: LockProtocolHandler)
        ensures
            r.store@ == Seq::<Challenge>::empty(),
            r.verifier@ == verifier@,
    {
        LockProtocolHandler { store: ChallengeStore::new(), verifier }
    }

    /// On read: draw a fresh 64-byte challenge, bind it to the requesting
    /// peer at `now`, and return it as the read value.
    pub fn on_read(&mut self, peer: &[u8; 6], now: u64) -> (challenge: Vec<u8>)
        ensures
            challenge@.len() == CHALLENGE_LEN,
            final(self).verifier@ == old(self).verifier@,
            final(self).store@ == old(self).store@.push(final(self).store@.last()),
            final(self).store@.last().issued_at == now,
            final(self).store@.last().peer@ == peer@,
            final(self).store@.last().value@ == challenge@,
    {
        self.store.issue_fresh(peer, now)
    }

    /// On write: consume the matching challenge, check expiry and the
    /// signature, and classify. Every rejection appends one failure
    /// record; an authorized write appends nothing here (success is
    /// recorded once the actuator has run).
    pub fn on_write(
        &mut self,
        log: &mut AttemptLog,
        peer: &[u8; 6],
        now: u64,
        data: &[u8],
    ) -> (r: WriteOutcome)
        requires
            old(log).wf(),
        ensures
            final(log).wf(),
            final(self).verifier@ == old(self).verifier@,
            final(self).store@ == spec_write_store(old(self).store@, peer@, data@),
            ({
                let code = spec_write_code(old(self).store@, old(self).verifier@, peer@, now, data@);
                &&& (r == WriteOutcome::Authorized <==> code == 0)
                &&& (code != 0 ==> r == WriteOutcome::Rejected(code))
                &&& final(log)@ == (if code == 0 {
                    old(log)@
                } else {
                    spec_log_append(
                        old(log)@,
                        (LogEntry { time: now, mac: *peer, status: LogEntryStatus::Failed(code) }),
                    )
                })
            }),
    {
        if data.len() < CHALLENGE_LEN {
            log.append(
                LogEntry { time: now, mac: *peer, status: LogEntryStatus::Failed(ERR_SHORT_PAYLOAD) },
            );
            return WriteOutcome::Rejected(ERR_SHORT_PAYLOAD);
        }
        let value = vstd::slice::slice_subrange(data, 0, CHALLENGE_LEN);
        let sig_der = vstd::slice::slice_subrange(data, CHALLENGE_LEN, data.len());
        let issued_at = match self.store.consume(peer, value) {
            None => {
                log.append(
                    LogEntry {
                        time: now,
                        mac: *peer,
                        status: LogEntryStatus::Failed(ERR_UNKNOWN_CHALLENGE),
                    },
                );
                return WriteOutcome::Rejected(ERR_UNKNOWN_CHALLENGE);
            },
            Some(t) => t,
        };
        if ChallengeStore::is_expired(issued_at, now, TTL_SECONDS) {
            log.append(
                LogEntry { time: now, mac: *peer, status: LogEntryStatus::Failed(ERR_EXPIRED) },
            );
            return WriteOutcome::Rejected(ERR_EXPIRED);
        }
        match self.verifier.check(value, sig_der) {
            SigCheck::MalformedEncoding => {
                log.append(
                    LogEntry {
                        time: now,
                        mac: *peer,
                        status: LogEntryStatus::Failed(ERR_MALFORMED_SIGNATURE),
                    },
                );
                WriteOutcome::Rejected(ERR_MALFORMED_SIGNATURE)
            },
            SigCheck::InvalidSignature => {
                log.append(
                    LogEntry {
                        time: now,
                        mac: *peer,
                        status: LogEntryStatus::Failed(ERR_INVALID_SIGNATURE),
                    },
                );
                WriteOutcome::Rejected(ERR_INVALID_SIGNATURE)
            },
            SigCheck::Valid => WriteOutcome::Authorized,
        }
    }

    /// On disconnect: evict every outstanding challenge of the peer.
    pub fn on_disconnect(&mut self, peer: &[u8; 6])
        ensures
            final(self).verifier@ == old(self).verifier@,
            final(self).store@ == spec_evict(old(self).store@, peer@),
    {
        self.store.evict_peer(peer);
    }
}

/// Record the success of an actuated, authorized request.
pub fn record_success(log: &mut AttemptLog, peer: &[u8; 6], now: u64)
    requires
        old(log).wf(),
    ensures
        final(log).wf(),
        final(log)@ == spec_log_append(
            old(log)@,
            (LogEntry { time: now, mac: *peer, status: LogEntryStatus::Successful }),
        ),
{
    log.append(LogEntry { time: now, mac: *peer, status: LogEntryStatus::Successful });
}

/// Record that an authorized request could not be handed to the actuator,
/// and return the code to surface to the peer.
pub fn record_dispatch_failure(log: &mut AttemptLog, peer: &[u8; 6], now: u64) -> (code: u8)
    requires
        old(log).wf(),
    ensures
        final(log).wf(),
        code == ERR_DISPATCH,
        final(log)@ == spec_log_append(
            old(log)@,
            (LogEntry { time: now, mac: *peer, status: LogEntryStatus::Failed(ERR_DISPATCH) }),
        ),
{
    log.append(LogEntry { time: now, mac: *peer, status: LogEntryStatus::Failed(ERR_DISPATCH) });
    ERR_DISPATCH
}

/// Record that shared state was unavailable (a poisoned lock), and return
/// the code to surface to the peer.
pub fn record_lock_poisoned(log: &mut AttemptLog, peer: &[u8; 6], now: u64) -> (code: u8)
    requires
        old(log).wf(),
    ensures
        final(log).wf(),
        code == ERR_LOCK_POISONED,
        final(log)@ == spec_log_append(
            old(log)@,
            (LogEntry { time: now, mac: *peer, status: LogEntryStatus::Failed(ERR_LOCK_POISONED) }),
        ),
{
    log.append(
        LogEntry { time: now, mac: *peer, status: LogEntryStatus::Failed(ERR_LOCK_POISONED) },
    );
    ERR_LOCK_POISONED
}

/// One-time use: once a write has found and consumed its challenge, any
/// later write replaying the same peer and data finds none and is
/// rejected as unknown, provided the pair matched at most one stored
/// entry (values are 64 random bytes, so one pair is never issued twice
/// in practice).
pub proof fn lemma_write_consumes_replay(
    s: Seq<Challenge>,
    key: Seq<u8>,
    peer: Seq<u8>,
    data: Seq<u8>,
    now2: u64,
)
    requires
        data.len() >= CHALLENGE_LEN,
        spec_first_match(s, peer, data.subrange(0, CHALLENGE_LEN as int)) != -1,
        forall|i: int, j: int|
            0 <= i < s.len() && 0 <= j < s.len() && entry_matches(
                s[i],
                peer,
                data.subrange(0, CHALLENGE_LEN as int),
            ) && entry_matches(s[j], peer, data.subrange(0, CHALLENGE_LEN as int)) ==> i == j,
    ensures
        spec_write_store(s, peer, data) == s.remove(
            spec_first_match(s, peer, data.subrange(0, CHALLENGE_LEN as int)),
        ),
        spec_write_code(spec_write_store(s, peer, data), key, peer, now2, data)
            == ERR_UNKNOWN_CHALLENGE,
{
    let value = data.subrange(0, CHALLENGE_LEN as int);
    lemma_first_match_props(s, peer, value);
    lemma_one_time_use(s, peer, value);
}

/// Expiry: a write arriving strictly more than the time-to-live after
/// issuance is rejected as expired, and still consumes the challenge, so
/// a replay is rejected as unknown (under the same at-most-one-match
/// premise as one-time use).
pub proof fn lemma_expiry(
    s: Seq<Challenge>,
    key: Seq<u8>,
    peer: Seq<u8>,
    now: u64,
    data: Seq<u8>,
    now2: u64,
)
    requires
        data.len() >= CHALLENGE_LEN,
        spec_first_match(s, peer, data.subrange(0, CHALLENGE_LEN as int)) != -1,
        spec_expired(
            s[spec_first_match(s, peer, data.subrange(0, CHALLENGE_LEN as int))].issued_at,
            now,
            TTL_SECONDS,
        ),
        forall|i: int, j: int|
            0 <= i < s.len() && 0 <= j < s.len() && entry_matches(
                s[i],
                peer,
                data.subrange(0, CHALLENGE_LEN as int),
            ) && entry_matches(s[j], peer, data.subrange(0, CHALLENGE_LEN as int)) ==> i == j,
    ensures
        spec_write_code(s, key, peer, now, data) == ERR_EXPIRED,
        spec_write_code(spec_write_store(s, peer, data), key, peer, now2, data)
            == ERR_UNKNOWN_CHALLENGE,
{
    lemma_write_consumes_replay(s, key, peer, data, now2);
}

/// Peer isolation: when every stored challenge carrying the echoed value
/// was issued to peer `a`, a write claiming a different peer `b` is
/// rejected as unknown and consumes nothing.
pub proof fn lemma_peer_isolation_write(
    s: Seq<Challenge>,
    key: Seq<u8>,
    a: Seq<u8>,
    b: Seq<u8>,
    now: u64,
    data: Seq<u8>,
)
    requires
        data.len() >= CHALLENGE_LEN,
        a != b,
        forall|i: int|
            0 <= i < s.len() && (#[trigger] s[i]).value@ == data.subrange(
                0,
                CHALLENGE_LEN as int,
            ) ==> s[i].peer@ == a,
    ensures
        spec_write_code(s, key, b, now, data) == ERR_UNKNOWN_CHALLENGE,
        spec_write_store(s, b, data) == s,
{
    lemma_peer_isolation(s, a, b, data.subrange(0, CHALLENGE_LEN as int));
}

/// Disconnect eviction: after a peer's challenges are evicted, any write
/// of that peer is rejected as unknown, whatever data it carries, even
/// within the time-to-live.
pub proof fn lemma_disconnect_write(
    s: Seq<Challenge>,
    key: Seq<u8>,
    peer: Seq<u8>,
    now: u64,
    data: Seq<u8>,
)
    requires
        data.len() >= CHALLENGE_LEN,
    ensures
        spec_write_code(spec_evict(s, peer), key, peer, now, data) == ERR_UNKNOWN_CHALLENGE,
{
    lemma_disconnect_eviction(s, peer, data.subrange(0, CHALLENGE_LEN as int));
}

} // verus!
