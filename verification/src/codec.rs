//! Attempt records and their fixed-width binary encoding.
//!
//! A record is 15 bytes on the wire: the time in seconds since process
//! start as a big-endian `u64` (8 bytes), the peer's MAC (6 raw bytes),
//! and one outcome byte (0 for success, else the rejection code).

use vstd::prelude::*;

verus! {

/// Outcome of one access attempt, as recorded in the log: success, or the
/// single-byte rejection code that ended the exchange.
#[derive(Clone, Copy, Debug, PartialEq, Eq, Structural)]
pub enum LogEntryStatus {
    Successful,
    Failed(u8),
}

/// The encoding of an outcome as its single wire byte.
pub open spec fn spec_status_code(s: LogEntryStatus) -> u8 {
    match s {
        LogEntryStatus::Successful => 0,
        LogEntryStatus::Failed(code) => code,
    }
}

/// The outcome a wire byte stands for: 0 is success, anything else the
/// rejection code that produced the failure.
pub open spec fn spec_status_of(code: u8) -> LogEntryStatus {
    if code == 0 {
        LogEntryStatus::Successful
    } else {
        LogEntryStatus::Failed(code)
    }
}

/// One access-attempt record: when it happened (seconds since process
/// start), who attempted (6 raw MAC bytes), and how it ended.
#[derive(Clone, Copy, Debug, PartialEq, Eq)]
pub struct LogEntry {
    pub time: u64,
    pub mac: [u8; 6],
    pub status: LogEntryStatus,
}

/// The eight big-endian bytes of a `u64`.
pub open spec fn spec_be_bytes(x: u64) -> Seq<u8> {
    seq![
        (x >> 56) as u8,
        (x >> 48) as u8,
        (x >> 40) as u8,
        (x >> 32) as u8,
        (x >> 24) as u8,
        (x >> 16) as u8,
        (x >> 8) as u8,
        x as u8,
    ]
}

/// The `u64` read back from eight big-endian bytes.
pub open spec fn spec_u64_from_be(b: Seq<u8>) -> u64
    recommends
        b.len() == 8,
{
    ((b[0] as u64) << 56) | ((b[1] as u64) << 48) | ((b[2] as u64) << 40) | ((b[3] as u64) << 32)
        | ((b[4] as u64) << 24) | ((b[5] as u64) << 16) | ((b[6] as u64) << 8) | (b[7] as u64)
}

/// The 15-byte wire form of a record.
pub open spec fn spec_encode(e: LogEntry) -> Seq<u8> {
    spec_be_bytes(e.time) + e.mac@ + seq![spec_status_code(e.status)]
}

impl LogEntry {
    /// Serialize this record into its fixed 15-byte wire form.
    pub fn encode(&self) -> (r: [u8; 15])
        ensures
            r@ == spec_encode(*self),
    {
        let t = self.time;
        let r: [u8; 15] = [
            #[verifier::truncate] ((t >> 56) as u8),
            #[verifier::truncate] ((t >> 48) as u8),
            #[verifier::truncate] ((t >> 40) as u8),
            #[verifier::truncate] ((t >> 32) as u8),
            #[verifier::truncate] ((t >> 24) as u8),
            #[verifier::truncate] ((t >> 16) as u8),
            #[verifier::truncate] ((t >> 8) as u8),
            #[verifier::truncate] (t as u8),
            self.mac[0],
            self.mac[1],
            self.mac[2],
            self.mac[3],
            self.mac[4],
            self.mac[5],
            match self.status {
                LogEntryStatus::Successful => 0,
                LogEntryStatus::Failed(code) => code,
            },
        ];
        proof {
            assert(r@ =~= spec_encode(*self));
        }
        r
    }

    /// Parse a 15-byte wire form back into a record. Returns `None` exactly
    /// when the input is not 15 bytes long.
    pub fn decode(bytes: &[u8]) -> (r: Option<LogEntry>)
        ensures
            r is Some <==> bytes@.len() == 15,
            r matches Some(e) ==> {
                &&& e.time == spec_u64_from_be(bytes@.subrange(0, 8))
                &&& e.mac@ == bytes@.subrange(8, 14)
                &&& e.status == spec_status_of(bytes@[14])
            },
    {
        if bytes.len() != 15 {
            return None;
        }
        let time: u64 = ((bytes[0] as u64) << 56) | ((bytes[1] as u64) << 48)
            | ((bytes[2] as u64) << 40) | ((bytes[3] as u64) << 32) | ((bytes[4] as u64) << 24)
            | ((bytes[5] as u64) << 16) | ((bytes[6] as u64) << 8) | (bytes[7] as u64);
        let mac: [u8; 6] = [bytes[8], bytes[9], bytes[10], bytes[11], bytes[12], bytes[13]];
        let status = if bytes[14] == 0 {
            LogEntryStatus::Successful
        } else {
            LogEntryStatus::Failed(bytes[14])
        };
        let e = LogEntry { time, mac, status };
        proof {
            assert(e.mac@ =~= bytes@.subrange(8, 14));
        }
        Some(e)
    }
}

/// Reading eight big-endian bytes back gives the `u64` they were made from.
pub proof fn lemma_be_round_trip(x: u64)
    ensures
        spec_u64_from_be(spec_be_bytes(x)) == x,
{
    assert(((((x >> 56) as u8) as u64) << 56) | ((((x >> 48) as u8) as u64) << 48)
        | ((((x >> 40) as u8) as u64) << 40) | ((((x >> 32) as u8) as u64) << 32)
        | ((((x >> 24) as u8) as u64) << 24) | ((((x >> 16) as u8) as u64) << 16)
        | ((((x >> 8) as u8) as u64) << 8) | ((x as u8) as u64) == x) by (bit_vector);
}

/// Decoding an encoded record restores every field: the time, the MAC, and
/// the outcome. The one exception is an outcome written `Failed(0)`: its
/// wire byte is 0, which reads back as `Successful`, so it is left out.
pub proof fn lemma_round_trip(e: LogEntry)
    requires
        e.status != LogEntryStatus::Failed(0u8),
    ensures
        spec_encode(e).len() == 15,
        spec_u64_from_be(spec_encode(e).subrange(0, 8)) == e.time,
        spec_encode(e).subrange(8, 14) == e.mac@,
        spec_status_of(spec_encode(e)[14]) == e.status,
{
    let b = spec_encode(e);
    assert(b.subrange(0, 8) =~= spec_be_bytes(e.time));
    lemma_be_round_trip(e.time);
    assert(b.subrange(8, 14) =~= e.mac@);
}

/// The hex character of one value below 16.
pub open spec fn spec_hex_digit(n: u8) -> char
    recommends
        n < 16,
{
    if n == 0 { '0' }
    else if n == 1 { '1' }
    else if n == 2 { '2' }
    else if n == 3 { '3' }
    else if n == 4 { '4' }
    else if n == 5 { '5' }
    else if n == 6 { '6' }
    else if n == 7 { '7' }
    else if n == 8 { '8' }
    else if n == 9 { '9' }
    else if n == 10 { 'a' }
    else if n == 11 { 'b' }
    else if n == 12 { 'c' }
    else if n == 13 { 'd' }
    else if n == 14 { 'e' }
    else { 'f' }
}

/// The lower-case hex text of a byte string, two characters per byte.
pub open spec fn spec_hex_of_bytes(b: Seq<u8>) -> Seq<char>
    decreases b.len(),
{
    if b.len() == 0 {
        Seq::empty()
    } else {
        spec_hex_of_bytes(b.drop_last())
            + seq![spec_hex_digit(b.last() / 16), spec_hex_digit(b.last() % 16)]
    }
}

/// The one-character string for a value below 16.
fn hex_digit_str(n: u8) -> (r: &'static str)
    requires
        n < 16,
    ensures
        r@ == seq![spec_hex_digit(n)],
{
    proof {
        reveal_strlit("0");
        reveal_strlit("1");
        reveal_strlit("2");
        reveal_strlit("3");
        reveal_strlit("4");
        reveal_strlit("5");
        reveal_strlit("6");
        reveal_strlit("7");
        reveal_strlit("8");
        reveal_strlit("9");
        reveal_strlit("a");
        reveal_strlit("b");
        reveal_strlit("c");
        reveal_strlit("d");
        reveal_strlit("e");
        reveal_strlit("f");
    }
    let r = if n == 0 { "0" }
    else if n == 1 { "1" }
    else if n == 2 { "2" }
    else if n == 3 { "3" }
    else if n == 4 { "4" }
    else if n == 5 { "5" }
    else if n == 6 { "6" }
    else if n == 7 { "7" }
    else if n == 8 { "8" }
    else if n == 9 { "9" }
    else if n == 10 { "a" }
    else if n == 11 { "b" }
    else if n == 12 { "c" }
    else if n == 13 { "d" }
    else if n == 14 { "e" }
    else { "f" };
    proof {
        assert(r@ =~= seq![spec_hex_digit(n)]);
    }
    r
}

/// Format a byte string as lower-case hex, two characters per byte.
pub fn bytes_to_hex_string(bytes: &[u8]) -> (r: String)
    ensures
        r@ == spec_hex_of_bytes(bytes@),
{
    let mut s = String::new();
    let mut i: usize = 0;
    while i < bytes.len()
        invariant
            i <= bytes@.len(),
            s@ == spec_hex_of_bytes(bytes@.take(i as int)),
        decreases bytes@.len() - i,
    {
        let b = bytes[i];
        s.append(hex_digit_str(b / 16));
        s.append(hex_digit_str(b % 16));
        proof {
            let pre = bytes@.take((i + 1) as int);
            assert(pre.drop_last() =~= bytes@.take(i as int));
            assert(pre.last() == bytes@[i as int]);
        }
        i += 1;
    }
    proof {
        assert(bytes@.take(bytes@.len() as int) =~= bytes@);
    }
    s
}

} // verus!
