//! The per-worker oplog: an append-only journal of host-observed events.
//!
//! The oplog is the source of truth for replay.  Entries are 1-based,
//! strictly monotonic and gap-free, and immutable once appended.  Pruning
//! is left to an offline compaction tool outside the engine core, so
//! within the core the first entry always has index 1.

use vstd::prelude::*;

use crate::model::WrappedFunctionType;

verus! {

/// One recorded host-observed event: the position in the journal, the
/// host function that produced it, its durability kind, and the encoded
/// result the module observed.
#[derive(Clone, Debug)]
pub struct OplogEntry {
    /// 1-based position in the worker's journal.
    pub index: u64,
    /// The wrapped host function this entry records.
    pub function_name: String,
    /// Durability classification the entry was recorded under.
    pub kind: WrappedFunctionType,
    /// Encoded result returned to the module.
    pub payload: Vec<u8>,
}

impl OplogEntry {
    /// Mathematical equality of two entries: same position, same host
    /// function, same kind, same recorded bytes.
    pub open spec fn same_as(self, other: OplogEntry) -> bool {
        &&& self.index == other.index
        &&& self.function_name@ == other.function_name@
        &&& self.kind == other.kind
        &&& self.payload@ == other.payload@
    }

    /// A deep copy of the entry.
    pub fn duplicate(&self) -> (r: OplogEntry)
        ensures
            r.same_as(*self),
    {
        OplogEntry {
            index: self.index,
            function_name: self.function_name.clone(),
            kind: self.kind,
            payload: clone_bytes(&self.payload),
        }
    }
}

/// A deep copy of a byte vector.
pub fn clone_bytes(v: &Vec<u8>) -> (r: Vec<u8>)
    ensures
        r@ == v@,
{
    let mut r: Vec<u8> = Vec::new();
    let mut i: usize = 0;
    while i < v.len()
        invariant
            i <= v.len(),
            r@ =~= v@.subrange(0, i as int),
        decreases v.len() - i,
    {
        r.push(v[i]);
        i = i + 1;
    }
    proof {
        assert(v@.subrange(0, v@.len() as int) =~= v@);
    }
    r
}

/// One worker's journal.
pub struct Oplog {
    pub entries: Vec<OplogEntry>,
}

impl Oplog {
    /// Entry `i` of the journal sits at index `i + 1`: indices are
    /// 1-based, strictly increasing and gap-free.
    pub open spec fn wf(self) -> bool {
        forall|i: int| 0 <= i < self.entries@.len() ==> #[trigger] self.entries@[i].index == i + 1
    }

    /// An empty journal.
    pub fn new() -> (r: Oplog)
        ensures
            r.wf(),
            r.entries@.len() == 0,
    {
        Oplog { entries: Vec::new() }
    }

    /// Number of entries; equal to the index of the last entry.
    pub fn length(&self) -> (r: usize)
        ensures
            r == self.entries@.len(),
    {
        self.entries.len()
    }

    /// Appends one event at the tail and returns its 1-based index.
    /// Earlier entries are untouched: the journal is append-only.
    pub fn append(&mut self, function_name: String, kind: WrappedFunctionType, payload: Vec<u8>)
        -> (r: u64)
        requires
            old(self).wf(),
            old(self).entries@.len() < u64::MAX,
        ensures
            final (self).wf(),
            r == old(self).entries@.len() + 1,
            final (self).entries@.len() == old(self).entries@.len() + 1,
            forall|i: int|
                0 <= i < old(self).entries@.len() ==> final (self).entries@[i] == old(
                    self,
                ).entries@[i],
            final (self).entries@.last().index == r,
            final (self).entries@.last().function_name@ == function_name@,
            final (self).entries@.last().kind == kind,
            final (self).entries@.last().payload@ == payload@,
    {
        let index = self.entries.len() as u64 + 1;
        let entry = OplogEntry { index, function_name, kind, payload };
        self.entries.push(entry);
        index
    }

    /// Reads up to `limit` entries starting at 1-based index
    /// `from_index`, in journal order.
    pub fn read(&self, from_index: u64, limit: usize) -> (r: Vec<OplogEntry>)
        requires
            self.wf(),
            from_index >= 1,
        ensures
            forall|i: int|
                0 <= i < r@.len() ==> #[trigger] r@[i].same_as(
                    self.entries@[from_index - 1 + i],
                ),
            r@.len() == if from_index - 1 <= self.entries@.len() {
                vstd::math::min(limit as int, self.entries@.len() - (from_index - 1))
            } else {
                0
            },
    {
        let mut r: Vec<OplogEntry> = Vec::new();
        if from_index - 1 >= self.entries.len() as u64 {
            return r;
        }
        let start = (from_index - 1) as usize;
        let mut i: usize = start;
        while i < self.entries.len() && i - start < limit
            invariant
                start <= i <= self.entries@.len(),
                i - start <= limit,
                self.wf(),
                r@.len() == i - start,
                forall|j: int|
                    0 <= j < r@.len() ==> #[trigger] r@[j].same_as(self.entries@[start + j]),
            decreases self.entries@.len() - i,
        {
            r.push(self.entries[i].duplicate());
            i = i + 1;
        }
        r
    }
}

/// Within a worker, the journal's entry indices are gap-free and strictly
/// increasing: entry `i` has index `i + 1`, so each entry's index exceeds
/// its predecessor's by exactly one.
pub proof fn lemma_oplog_gap_free_and_increasing(log: Oplog)
    requires
        log.wf(),
    ensures
        forall|i: int| 0 <= i < log.entries@.len() ==> #[trigger] log.entries@[i].index == i + 1,
        forall|i: int|
            0 < i < log.entries@.len() ==> #[trigger] log.entries@[i].index == log.entries@[i
                - 1].index + 1,
{
}

} // verus!
