use vstd::prelude::*;
use crate::error::RecordStreamError;

verus! {

/// A position in the log: a topic and a partition of it.
pub type PartitionKey = (Seq<char>, i32);

/// The offset to commit next for one partition of one topic.
#[derive(Debug, Clone)]
pub struct PartitionOffset {
    pub topic: String,
    pub partition: i32,
    pub next_offset: i64,
}

impl PartitionOffset {
    pub open spec fn key(&self) -> PartitionKey {
        (self.topic@, self.partition)
    }
}

/// What the tracker holds after a record at `offset` of partition `k` was consumed:
/// the offset after it, unless the partition already stands at or beyond that.
pub open spec fn record_spec(m: Map<PartitionKey, i64>, k: PartitionKey, offset: i64) -> Map<PartitionKey, i64> {
    if !m.contains_key(k) || m[k] < offset + 1 {
        m.insert(k, (offset + 1) as i64)
    } else {
        m
    }
}

/// Per-partition "offset to commit next", updated on every consumed record
/// and read when the consumed records are committed.
pub struct OffsetTracker {
    entries: Vec<PartitionOffset>,
    offsets: Ghost<Map<PartitionKey, i64>>,
}

impl View for OffsetTracker {
    type V = Map<PartitionKey, i64>;

    closed spec fn view(&self) -> Map<PartitionKey, i64> {
        self.offsets@
    }
}

impl OffsetTracker {
    /// Each partition appears once in the entries, and the entries and the
    /// map hold the same offsets.
    pub closed spec fn wf(&self) -> bool {
        &&& forall|i: int| 0 <= i < self.entries@.len() ==>
            #[trigger] self.offsets@.contains_key(self.entries@[i].key())
                && self.offsets@[self.entries@[i].key()] == self.entries@[i].next_offset
        &&& forall|k: PartitionKey| #[trigger] self.offsets@.contains_key(k) ==>
            exists|i: int| 0 <= i < self.entries@.len() && self.entries@[i].key() == k
        &&& forall|i: int, j: int| 0 <= i < self.entries@.len() && 0 <= j < self.entries@.len() && i != j
            ==> #[trigger] self.entries@[i].key() != #[trigger] self.entries@[j].key()
    }

    /// An empty tracker.
    pub fn new() -> (r: OffsetTracker)
        ensures
            r.wf(),
            r@ == Map::<PartitionKey, i64>::empty(),
    {
        OffsetTracker { entries: Vec::new(), offsets: Ghost(Map::empty()) }
    }

    /// The tracked entries, one per partition.
    pub fn entries(&self) -> (r: &Vec<PartitionOffset>)
        requires
            self.wf(),
        ensures
            forall|i: int| #![trigger r@[i]] 0 <= i < r@.len() ==> self@.contains_key(r@[i].key())
                && self@[r@[i].key()] == r@[i].next_offset,
            forall|k: PartitionKey| #[trigger] self@.contains_key(k) ==>
                exists|i: int| 0 <= i < r@.len() && r@[i].key() == k,
    {
        let r = &self.entries;
        assert forall|i: int| #![trigger r@[i]] 0 <= i < r@.len() implies self@.contains_key(r@[i].key())
            && self@[r@[i].key()] == r@[i].next_offset by {
            assert(self.offsets@.contains_key(self.entries@[i].key()));
            assert(self@ == self.offsets@);
        }
        r
    }

    /// Records that the record at `offset` of `partition` in `topic` was consumed:
    /// the partition's offset to commit next becomes `offset + 1`, unless it
    /// already stands there or beyond, so that it never goes back.
    /// A negative offset, or one with no offset after it, is refused.
    pub fn record(&mut self, topic: &str, partition: i32, offset: i64) -> (r: Result<(), RecordStreamError>)
        requires
            old(self).wf(),
        ensures
            final(self).wf(),
            r is Err <==> (offset < 0 || offset == i64::MAX),
            r is Ok ==> final(self)@ == record_spec(old(self)@, (topic@, partition), offset),
            r is Err ==> final(self)@ == old(self)@ && r->Err_0 is OffsetStore,
    {
        if offset < 0 || offset == i64::MAX {
            return Err(RecordStreamError::OffsetStore(String::from_str("offset out of range")));
        }
        let next = offset + 1;
        let ghost k: PartitionKey = (topic@, partition);
        let mut i: usize = 0;
        while i < self.entries.len()
            invariant
                self.wf(),
                self@ == old(self)@,
                0 <= offset < i64::MAX,
                next == offset + 1,
                k == (topic@, partition),
                0 <= i <= self.entries@.len(),
                forall|j: int| 0 <= j < i ==> (#[trigger] self.entries@[j]).key() != k,
            decreases self.entries@.len() - i,
        {
            if self.entries[i].partition == partition && str_eq(self.entries[i].topic.as_str(), topic) {
                assert(self.entries@[i as int].key() == k);
                if self.entries[i].next_offset < next {
                    let ghost old_entries = self.entries@;
                    self.entries.set(i, PartitionOffset { topic: String::from_str(topic), partition, next_offset: next });
                    self.offsets = Ghost(self.offsets@.insert(k, next));
                    assert forall|a: int, b: int| 0 <= a < self.entries@.len() && 0 <= b < self.entries@.len() && a != b
                        implies #[trigger] self.entries@[a].key() != #[trigger] self.entries@[b].key() by {
                        assert(old_entries[a].key() != old_entries[b].key());
                    }
                    assert forall|kk: PartitionKey| #[trigger] self.offsets@.contains_key(kk) implies
                        exists|j: int| 0 <= j < self.entries@.len() && self.entries@[j].key() == kk by {
                        if kk != k {
                            let j = choose|j: int| 0 <= j < old_entries.len() && old_entries[j].key() == kk;
                            assert(self.entries@[j].key() == kk);
                        } else {
                            assert(self.entries@[i as int].key() == kk);
                        }
                    }
                    assert forall|a: int| 0 <= a < self.entries@.len() implies
                        #[trigger] self.offsets@.contains_key(self.entries@[a].key())
                            && self.offsets@[self.entries@[a].key()] == self.entries@[a].next_offset by {
                        if a != i {
                            assert(old_entries[a].key() != old_entries[i as int].key());
                            assert(old_entries[a] == self.entries@[a]);
                            assert(self.offsets@ == old(self).offsets@.insert(k, next));
                        }
                    }
                }
                return Ok(());
            }
            i = i + 1;
        }
        assert(!self@.contains_key(k));
        let ghost old_entries = self.entries@;
        self.entries.push(PartitionOffset { topic: String::from_str(topic), partition, next_offset: next });
        self.offsets = Ghost(self.offsets@.insert(k, next));
        assert forall|a: int, b: int| 0 <= a < self.entries@.len() && 0 <= b < self.entries@.len() && a != b
            implies #[trigger] self.entries@[a].key() != #[trigger] self.entries@[b].key() by {
            if a < old_entries.len() && b < old_entries.len() {
                assert(old_entries[a].key() != old_entries[b].key());
            }
        }
        assert forall|kk: PartitionKey| #[trigger] self.offsets@.contains_key(kk) implies
            exists|j: int| 0 <= j < self.entries@.len() && self.entries@[j].key() == kk by {
            if kk != k {
                let j = choose|j: int| 0 <= j < old_entries.len() && old_entries[j].key() == kk;
                assert(self.entries@[j].key() == kk);
            } else {
                assert(self.entries@[old_entries.len() as int].key() == kk);
            }
        }
        assert forall|a: int| 0 <= a < self.entries@.len() implies
            #[trigger] self.offsets@.contains_key(self.entries@[a].key())
                && self.offsets@[self.entries@[a].key()] == self.entries@[a].next_offset by {
            if a < old_entries.len() {
                assert(old_entries[a] == self.entries@[a]);
            }
        }
        Ok(())
    }
}

/// Whether two strings hold the same characters.
fn str_eq(a: &str, b: &str) -> (r: bool)
    ensures
        r == (a@ == b@),
{
    let x = String::from_str(a);
    let y = String::from_str(b);
    x.eq(&y)
}

} // verus!
