//! Outstanding challenges and their lifecycle.
//!
//! A challenge binds a 64-byte random value to the peer it was issued to
//! and to the moment of issue. It is consumed by the first matching write
//! (one-time use, even when it turns out to be expired), and every
//! challenge of a peer is evicted when that peer disconnects. Expiry is
//! checked lazily against the time handed in by the caller.

use vstd::prelude::*;

verus! {

/// Length in bytes of a challenge value.
pub const CHALLENGE_LEN: usize = 64;

/// Time-to-live of a challenge, in seconds.
pub const TTL_SECONDS: u64 = 90;

/// One outstanding challenge: when it was issued (seconds since process
/// start), its random value, and the peer it was issued to.
pub struct Challenge {
    pub issued_at: u64,
    pub value: Vec<u8>,
    pub peer: [u8; 6],
}

/// Whether a stored challenge matches a write claiming this peer and value.
pub open spec fn entry_matches(c: Challenge, peer: Seq<u8>, value: Seq<u8>) -> bool {
    c.peer@ == peer && c.value@ == value
}

/// Index of the first stored challenge matching the peer and value, or -1
/// when none does.
pub open spec fn spec_first_match(s: Seq<Challenge>, peer: Seq<u8>, value: Seq<u8>) -> int
    decreases s.len(),
{
    if s.len() == 0 {
        -1
    } else if entry_matches(s[0], peer, value) {
        0
    } else {
        let rest = spec_first_match(s.drop_first(), peer, value);
        if rest == -1 {
            -1
        } else {
            rest + 1
        }
    }
}

/// The store after every challenge of one peer is removed, order kept.
pub open spec fn spec_evict(s: Seq<Challenge>, peer: Seq<u8>) -> Seq<Challenge>
    decreases s.len(),
{
    if s.len() == 0 {
        Seq::empty()
    } else {
        let rest = spec_evict(s.drop_last(), peer);
        if s.last().peer@ == peer {
            rest
        } else {
            rest.push(s.last())
        }
    }
}

/// Whether a challenge issued at `issued_at` is past its time-to-live at
/// `now`: strictly more than `ttl` seconds old. A `now` at or before
/// `issued_at` is never expired.
pub open spec fn spec_expired(issued_at: u64, now: u64, ttl: u64) -> bool {
    now - issued_at > ttl
}

/// If the challenges up to `i` do not match and the one at `i` does, then
/// `i` is the first match.
pub proof fn lemma_first_match_found(s: Seq<Challenge>, peer: Seq<u8>, value: Seq<u8>, i: int)
    requires
        0 <= i < s.len(),
        entry_matches(s[i], peer, value),
        forall|j: int| 0 <= j < i ==> !entry_matches(s[j], peer, value),
    ensures
        spec_first_match(s, peer, value) == i,
    decreases s.len(),
{
    if i > 0 {
        assert forall|j: int| 0 <= j < i - 1 implies !entry_matches(
            s.drop_first()[j],
            peer,
            value,
        ) by {
            assert(s.drop_first()[j] == s[j + 1]);
        }
        assert(s.drop_first()[i - 1] == s[i]);
        lemma_first_match_found(s.drop_first(), peer, value, i - 1);
    }
}

/// If no stored challenge matches, there is no first match.
pub proof fn lemma_first_match_none(s: Seq<Challenge>, peer: Seq<u8>, value: Seq<u8>)
    requires
        forall|j: int| 0 <= j < s.len() ==> !entry_matches(s[j], peer, value),
    ensures
        spec_first_match(s, peer, value) == -1,
    decreases s.len(),
{
    if s.len() > 0 {
        assert forall|j: int| 0 <= j < s.drop_first().len() implies !entry_matches(
            s.drop_first()[j],
            peer,
            value,
        ) by {
            assert(s.drop_first()[j] == s[j + 1]);
        }
        lemma_first_match_none(s.drop_first(), peer, value);
    }
}

/// What a first-match index means: either -1 and nothing matches, or it is
/// in range, matches, and nothing before it does.
pub proof fn lemma_first_match_props(s: Seq<Challenge>, peer: Seq<u8>, value: Seq<u8>)
    ensures
        spec_first_match(s, peer, value) == -1 ==> forall|j: int|
            0 <= j < s.len() ==> !entry_matches(s[j], peer, value),
        spec_first_match(s, peer, value) != -1 ==> {
            let i = spec_first_match(s, peer, value);
            &&& 0 <= i < s.len()
            &&& entry_matches(s[i], peer, value)
            &&& forall|j: int| 0 <= j < i ==> !entry_matches(s[j], peer, value)
        },
    decreases s.len(),
{
    if s.len() > 0 && !entry_matches(s[0], peer, value) {
        lemma_first_match_props(s.drop_first(), peer, value);
        let rest = spec_first_match(s.drop_first(), peer, value);
        if rest == -1 {
            assert forall|j: int| 0 <= j < s.len() implies !entry_matches(s[j], peer, value) by {
                if j > 0 {
                    assert(s.drop_first()[j - 1] == s[j]);
                }
            }
        } else {
            assert(s.drop_first()[rest] == s[rest + 1]);
            assert forall|j: int| 0 <= j < rest + 1 implies !entry_matches(s[j], peer, value) by {
                if j > 0 {
                    assert(s.drop_first()[j - 1] == s[j]);
                }
            }
        }
    }
}

/// Compare two MAC addresses byte for byte.
fn mac_eq(a: &[u8; 6], b: &[u8; 6]) -> (r: bool)
    ensures
        r == (a@ == b@),
{
    let r = a[0] == b[0] && a[1] == b[1] && a[2] == b[2] && a[3] == b[3] && a[4] == b[4] && a[5]
        == b[5];
    proof {
        if r {
            assert(a@ =~= b@);
        } else if a@ == b@ {
            assert(a@[0] == b@[0]);
            assert(a@[1] == b@[1]);
            assert(a@[2] == b@[2]);
            assert(a@[3] == b@[3]);
            assert(a@[4] == b@[4]);
            assert(a@[5] == b@[5]);
        }
    }
    r
}

/// Compare two byte strings for equality of contents.
fn bytes_eq(a: &[u8], b: &[u8]) -> (r: bool)
    ensures
        r == (a@ == b@),
{
    if a.len() != b.len() {
        return false;
    }
    let mut i: usize = 0;
    while i < a.len()
        invariant
            i <= a@.len(),
            a@.len() == b@.len(),
            forall|j: int| 0 <= j < i ==> a@[j] == b@[j],
        decreases a@.len() - i,
    {
        if a[i] != b[i] {
            return false;
        }
        i += 1;
    }
    proof {
        assert(a@ =~= b@);
    }
    true
}

/// Fills a fresh challenge value with 64 bytes from the thread-local
/// cryptographically secure generator.
///
/// Relies on `rand::Rng::fill` with `rand::thread_rng`: it fills the whole
/// buffer with random bytes. Nothing is promised of the values themselves.
#[verifier::external_body]
fn fresh_challenge_bytes() -> (r: Vec<u8>)
    ensures
        r@.len() == CHALLENGE_LEN,
{
    let mut bytes = [0u8; 64];
    rand::Rng::fill(&mut rand::thread_rng(), &mut bytes);
    bytes.to_vec()
}

/// The collection of outstanding challenges, keyed by (peer, value).
pub struct ChallengeStore {
    entries: Vec<Challenge>,
}

impl View for ChallengeStore {
    type V = Seq<Challenge>;

    closed spec fn view(&self) -> Seq<Challenge> {
        self.entries@
    }
}

impl ChallengeStore {
    /// An empty store.
    pub fn new() -> (r: ChallengeStore)
        ensures
            r@ == Seq::<Challenge>::empty(),
    {
        let r = ChallengeStore { entries: Vec::new() };
        proof {
            assert(r@ =~= Seq::<Challenge>::empty());
        }
        r
    }

    /// Record a challenge issued to `peer` at `now` with the given value.
    pub fn issue(&mut self, peer: &[u8; 6], now: u64, value: Vec<u8>)
        requires
            value@.len() == CHALLENGE_LEN,
        ensures
            final(self)@ == old(self)@.push(
                (Challenge { issued_at: now, value: value, peer: *peer }),
            ),
    {
        self.entries.push(Challenge { issued_at: now, value, peer: *peer });
    }

    /// Draw a fresh 64-byte random value, record it for `peer` at `now`,
    /// and return it so it can be sent as the read value.
    pub fn issue_fresh(&mut self, peer: &[u8; 6], now: u64) -> (challenge: Vec<u8>)
        ensures
            challenge@.len() == CHALLENGE_LEN,
            final(self)@ == old(self)@.push(final(self)@.last()),
            final(self)@.last().issued_at == now,
            final(self)@.last().peer@ == peer@,
            final(self)@.last().value@ == challenge@,
    {
        let value = fresh_challenge_bytes();
        let challenge = vstd::slice::slice_to_vec(value.as_slice());
        self.issue(peer, now, value);
        challenge
    }

    /// Remove the first challenge matching `(peer, value)` and return when
    /// it was issued; `None` and no change when none matches.
    pub fn consume(&mut self, peer: &[u8; 6], value: &[u8]) -> (r: Option<u64>)
        ensures
            spec_first_match(old(self)@, peer@, value@) == -1 ==> {
                &&& r is None
                &&& final(self)@ == old(self)@
            },
            spec_first_match(old(self)@, peer@, value@) != -1 ==> {
                let fm = spec_first_match(old(self)@, peer@, value@);
                &&& r == Some(old(self)@[fm].issued_at)
                &&& final(self)@ == old(self)@.remove(fm)
            },
    {
        let ghost s0 = self.entries@;
        let mut i: usize = 0;
        while i < self.entries.len()
            invariant
                old(self)@ == s0,
                self@ == s0,
                i <= s0.len(),
                forall|j: int| 0 <= j < i ==> !entry_matches(s0[j], peer@, value@),
            decreases s0.len() - i,
        {
            let matched = mac_eq(&self.entries[i].peer, peer) && bytes_eq(
                self.entries[i].value.as_slice(),
                value,
            );
            if matched {
                proof {
                    lemma_first_match_found(s0, peer@, value@, i as int);
                }
                let issued = self.entries[i].issued_at;
                self.entries.remove(i);
                return Some(issued);
            }
            i += 1;
        }
        proof {
            lemma_first_match_none(s0, peer@, value@);
        }
        None
    }

    /// Whether a challenge issued at `issued_at` is strictly more than
    /// `ttl` seconds old at `now`.
    pub fn is_expired(issued_at: u64, now: u64, ttl: u64) -> (r: bool)
        ensures
            r == spec_expired(issued_at, now, ttl),
    {
        now > issued_at && now - issued_at > ttl
    }

    /// Remove every challenge of one peer; called when it disconnects.
    pub fn evict_peer(&mut self, peer: &[u8; 6])
        ensures
            final(self)@ == spec_evict(old(self)@, peer@),
    {
        let ghost s0 = self.entries@;
        let mut i: usize = 0;
        let ghost mut k: int = 0;
        while i < self.entries.len()
            invariant
                0 <= k <= s0.len(),
                i == spec_evict(s0.take(k), peer@).len(),
                self.entries@ == spec_evict(s0.take(k), peer@) + s0.skip(k),
            decreases s0.len() - k,
        {
            let ghost pre = self.entries@;
            let ghost kept = spec_evict(s0.take(k), peer@);
            proof {
                assert(pre[i as int] == s0.skip(k)[0]);
                assert(s0.skip(k)[0] == s0[k]);
                assert(s0.take(k + 1).drop_last() =~= s0.take(k));
                assert(s0.take(k + 1).last() == s0[k]);
            }
            if mac_eq(&self.entries[i].peer, peer) {
                self.entries.remove(i);
                proof {
                    assert(self.entries@ =~= kept + s0.skip(k + 1));
                    k = k + 1;
                }
            } else {
                proof {
                    assert(spec_evict(s0.take(k + 1), peer@) == kept.push(s0[k]));
                    assert(self.entries@ =~= kept.push(s0[k]) + s0.skip(k + 1));
                    k = k + 1;
                }
                i += 1;
            }
        }
        proof {
            assert(k == s0.len());
            assert(s0.take(k) =~= s0);
            assert(self.entries@ =~= spec_evict(s0, peer@));
        }
    }

    /// How many challenges are outstanding.
    pub fn len(&self) -> (r: usize)
        ensures
            r == self@.len(),
    {
        self.entries.len()
    }
}

/// One-time use: once the first match of `(peer, value)` is consumed, no
/// further write replaying the same pair finds a challenge, provided the
/// pair matched at most one stored entry (values are 64 random bytes, so a
/// repeat of one pair is never issued in practice).
pub proof fn lemma_one_time_use(s: Seq<Challenge>, peer: Seq<u8>, value: Seq<u8>)
    requires
        spec_first_match(s, peer, value) != -1,
        forall|i: int, j: int|
            0 <= i < s.len() && 0 <= j < s.len() && entry_matches(s[i], peer, value)
                && entry_matches(s[j], peer, value) ==> i == j,
    ensures
        spec_first_match(s.remove(spec_first_match(s, peer, value)), peer, value) == -1,
{
    let fm = spec_first_match(s, peer, value);
    lemma_first_match_props(s, peer, value);
    let rest = s.remove(fm);
    assert forall|j: int| 0 <= j < rest.len() implies !entry_matches(rest[j], peer, value) by {
        if j < fm {
            assert(rest[j] == s[j]);
        } else {
            assert(rest[j] == s[j + 1]);
        }
    }
    lemma_first_match_none(rest, peer, value);
}

/// Peer isolation: when every stored challenge carrying `value` was issued
/// to peer `a`, a write claiming a different peer `b` finds no challenge.
pub proof fn lemma_peer_isolation(s: Seq<Challenge>, a: Seq<u8>, b: Seq<u8>, value: Seq<u8>)
    requires
        a != b,
        forall|i: int|
            0 <= i < s.len() && (#[trigger] s[i]).value@ == value ==> s[i].peer@ == a,
    ensures
        spec_first_match(s, b, value) == -1,
{
    assert forall|j: int| 0 <= j < s.len() implies !entry_matches(s[j], b, value) by {
        if s[j].value@ == value {
            assert(s[j].peer@ == a);
        }
    }
    lemma_first_match_none(s, b, value);
}

/// Eviction leaves no challenge of the evicted peer behind.
pub proof fn lemma_evict_no_peer(s: Seq<Challenge>, peer: Seq<u8>)
    ensures
        forall|i: int|
            0 <= i < spec_evict(s, peer).len() ==> (#[trigger] spec_evict(s, peer)[i]).peer@
                != peer,
    decreases s.len(),
{
    if s.len() > 0 {
        lemma_evict_no_peer(s.drop_last(), peer);
        let rest = spec_evict(s.drop_last(), peer);
        if s.last().peer@ != peer {
            assert(spec_evict(s, peer) == rest.push(s.last()));
            assert forall|i: int| 0 <= i < spec_evict(s, peer).len() implies (#[trigger] spec_evict(
                s,
                peer,
            )[i]).peer@ != peer by {
                if i < rest.len() {
                    assert(spec_evict(s, peer)[i] == rest[i]);
                } else {
                    assert(spec_evict(s, peer)[i] == s.last());
                }
            }
        }
    }
}

/// Disconnect eviction: after a peer's challenges are evicted, no write of
/// that peer finds a challenge, whatever value it replays.
pub proof fn lemma_disconnect_eviction(s: Seq<Challenge>, peer: Seq<u8>, value: Seq<u8>)
    ensures
        spec_first_match(spec_evict(s, peer), peer, value) == -1,
{
    lemma_evict_no_peer(s, peer);
    lemma_first_match_none(spec_evict(s, peer), peer, value);
}

} // verus!
