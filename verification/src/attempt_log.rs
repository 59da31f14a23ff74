//! Bounded audit log of access attempts.
//!
//! The log keeps at most 32 records; appending to a full log evicts the
//! oldest (first-in, first-out). A snapshot concatenates the 15-byte
//! encoding of each retained record, oldest to newest, and is recomputed
//! on every read.

use crate::codec::{spec_encode, LogEntry};
use vstd::prelude::*;

verus! {

/// Most records the log retains.
pub const LOG_CAPACITY: usize = 32;

/// Bytes in the wire encoding of one record.
pub const RECORD_BYTES: usize = 15;

/// One append: push the record, evicting the oldest when the log is full.
pub open spec fn spec_log_append(s: Seq<LogEntry>, e: LogEntry) -> Seq<LogEntry> {
    if s.len() < LOG_CAPACITY {
        s.push(e)
    } else {
        s.drop_first().push(e)
    }
}

/// The concatenated 15-byte encodings of the records, oldest to newest.
pub open spec fn spec_encoded_log(s: Seq<LogEntry>) -> Seq<u8>
    decreases s.len(),
{
    if s.len() == 0 {
        Seq::empty()
    } else {
        spec_encoded_log(s.drop_last()) + spec_encode(s.last())
    }
}

/// A snapshot is exactly 15 bytes per record.
pub proof fn lemma_encoded_log_len(s: Seq<LogEntry>)
    ensures
        spec_encoded_log(s).len() == RECORD_BYTES * s.len(),
    decreases s.len(),
{
    if s.len() > 0 {
        lemma_encoded_log_len(s.drop_last());
    }
}

/// The audit log of attempts; never holds more than `LOG_CAPACITY` records.
pub struct AttemptLog {
    entries: Vec<LogEntry>,
}

impl View for AttemptLog {
    type V = Seq<LogEntry>;

    closed spec fn view(&self) -> Seq<LogEntry> {
        self.entries@
    }
}

impl AttemptLog {
    /// Well-formedness: the log is within its capacity. Constructors
    /// establish it and every method preserves it.
    pub open spec fn wf(self) -> bool {
        self@.len() <= LOG_CAPACITY
    }

    /// An empty log.
    pub fn new() -> (r: AttemptLog)
        ensures
            r@ == Seq::<LogEntry>::empty(),
            r.wf(),
    {
        let r = AttemptLog { entries: Vec::new() };
        proof {
            assert(r@ =~= Seq::<LogEntry>::empty());
        }
        r
    }

    /// How many records are retained.
    pub fn len(&self) -> (r: usize)
        ensures
            r == self@.len(),
    {
        self.entries.len()
    }

    /// Append one record, evicting the oldest when the log is full.
    pub fn append(&mut self, e: LogEntry)
        requires
            old(self).wf(),
        ensures
            final(self)@ == spec_log_append(old(self)@, e),
            final(self).wf(),
    {
        if self.entries.len() >= LOG_CAPACITY {
            self.entries.remove(0);
            proof {
                assert(old(self)@.remove(0) =~= old(self)@.drop_first());
            }
        }
        self.entries.push(e);
    }

    /// The wire snapshot: each retained record's 15-byte encoding, oldest
    /// to newest.
    pub fn snapshot_encoded(&self) -> (r: Vec<u8>)
        ensures
            r@ == spec_encoded_log(self@),
            r@.len() == RECORD_BYTES * self@.len(),
    {
        let mut r: Vec<u8> = Vec::new();
        let mut i: usize = 0;
        proof {
            assert(self@.take(0) =~= Seq::<LogEntry>::empty());
        }
        while i < self.entries.len()
            invariant
                i <= self.entries@.len(),
                self@ == self.entries@,
                r@ == spec_encoded_log(self.entries@.take(i as int)),
            decreases self.entries@.len() - i,
        {
            let enc = self.entries[i].encode();
            push_bytes(&mut r, enc.as_slice());
            proof {
                let pre = self.entries@.take((i + 1) as int);
                assert(pre.drop_last() =~= self.entries@.take(i as int));
                assert(pre.last() == self.entries@[i as int]);
            }
            i += 1;
        }
        proof {
            assert(self.entries@.take(self.entries@.len() as int) =~= self.entries@);
            lemma_encoded_log_len(self@);
        }
        r
    }
}

/// Append the bytes of a slice to a vector.
fn push_bytes(dst: &mut Vec<u8>, src: &[u8])
    ensures
        final(dst)@ == old(dst)@ + src@,
{
    let mut j: usize = 0;
    proof {
        assert(old(dst)@ + src@.take(0) =~= old(dst)@);
    }
    while j < src.len()
        invariant
            j <= src@.len(),
            dst@ == old(dst)@ + src@.take(j as int),
        decreases src@.len() - j,
    {
        dst.push(src[j]);
        proof {
            assert((old(dst)@ + src@.take(j as int)).push(src@[j as int]) =~= old(dst)@
                + src@.take((j + 1) as int));
        }
        j += 1;
    }
    proof {
        assert(src@.take(src@.len() as int) =~= src@);
    }
}

/// The log after a whole run of appends, in order.
pub open spec fn spec_append_all(init: Seq<LogEntry>, es: Seq<LogEntry>) -> Seq<LogEntry>
    decreases es.len(),
{
    if es.len() == 0 {
        init
    } else {
        spec_log_append(spec_append_all(init, es.drop_last()), es.last())
    }
}

/// Appending a run of records to an empty log keeps exactly the most
/// recent `LOG_CAPACITY` of them, in order.
pub proof fn lemma_append_all_window(es: Seq<LogEntry>)
    ensures
        es.len() <= LOG_CAPACITY ==> spec_append_all(Seq::empty(), es) == es,
        es.len() > LOG_CAPACITY ==> spec_append_all(Seq::empty(), es) == es.skip(
            es.len() - LOG_CAPACITY,
        ),
    decreases es.len(),
{
    if es.len() == 0 {
        assert(spec_append_all(Seq::empty(), es) =~= es);
    } else {
        let prefix = es.drop_last();
        lemma_append_all_window(prefix);
        let pre = spec_append_all(Seq::<LogEntry>::empty(), prefix);
        if es.len() <= LOG_CAPACITY {
            assert(pre.push(es.last()) =~= es);
        } else if es.len() == LOG_CAPACITY + 1 {
            assert(pre == prefix);
            assert(prefix.drop_first().push(es.last()) =~= es.skip(1));
        } else {
            assert(pre == prefix.skip(prefix.len() - LOG_CAPACITY));
            assert(pre.len() == LOG_CAPACITY);
            assert(pre.drop_first().push(es.last()) =~= es.skip(es.len() - LOG_CAPACITY));
        }
    }
}

/// Log bound: after more than `LOG_CAPACITY` appends into an empty log,
/// the log holds exactly the most recent `LOG_CAPACITY` records in
/// chronological order, and its snapshot is exactly `LOG_CAPACITY *
/// RECORD_BYTES` bytes.
pub proof fn lemma_log_bound(es: Seq<LogEntry>)
    requires
        es.len() > LOG_CAPACITY,
    ensures
        spec_append_all(Seq::empty(), es) == es.skip(es.len() - LOG_CAPACITY),
        spec_append_all(Seq::empty(), es).len() == LOG_CAPACITY,
        spec_encoded_log(spec_append_all(Seq::empty(), es)).len() == LOG_CAPACITY * RECORD_BYTES,
{
    lemma_append_all_window(es);
    lemma_encoded_log_len(spec_append_all(Seq::empty(), es));
}

} // verus!
