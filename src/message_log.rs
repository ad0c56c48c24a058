use vstd::prelude::*;
use crate::group_offset::{GroupOffsets, resume_after};
use crate::packet::copy_vec;

verus! {

/// A record of a topic's log: its offset and its encoded message.
#[derive(Clone, Debug)]
pub struct StoredRecord {
    pub offset: u64,
    pub data: Vec<u8>,
}

/// A topic's log: records in the order written, offsets counting up from 0.
pub struct TopicLog {
    records: Vec<StoredRecord>,
}

/// Number of records a read from `from` returns out of a log of `len`, at most `max`.
pub open spec fn batch_len(len: nat, from: nat, max: nat) -> nat {
    if from >= len {
        0
    } else if len - from < max {
        (len - from) as nat
    } else {
        max
    }
}

impl TopicLog {
    pub closed spec fn wf(&self) -> bool {
        forall|i: int| 0 <= i < self.records@.len() ==> #[trigger] self.records@[i].offset == i
    }

    /// The encoded messages, indexed by offset.
    pub closed spec fn contents(&self) -> Seq<Seq<u8>> {
        self.records@.map_values(|r: StoredRecord| r.data@)
    }

    pub fn new() -> (r: Self)
        ensures
            r.wf(),
            r.contents() == Seq::<Seq<u8>>::empty(),
    {
        let r = TopicLog { records: Vec::new() };
        proof {
            assert(r.contents() =~= Seq::<Seq<u8>>::empty());
        }
        r
    }

    pub fn len(&self) -> (r: u64)
        requires
            self.wf(),
            self.contents().len() <= u64::MAX,
        ensures
            r == self.contents().len(),
    {
        self.records.len() as u64
    }

    /// Appends `data` and returns its offset, the next after the last.
    pub fn append(&mut self, data: Vec<u8>) -> (r: u64)
        requires
            old(self).wf(),
            old(self).contents().len() < u64::MAX,
        ensures
            final(self).wf(),
            r == old(self).contents().len(),
            final(self).contents() == old(self).contents().push(data@),
    {
        let offset = self.records.len() as u64;
        let ghost d = data@;
        self.records.push(StoredRecord { offset, data });
        proof {
            assert(self.contents() =~= old(self).contents().push(d));
        }
        offset
    }

    /// Up to `max` contiguous records from offset `from`; none where the log ends
    /// before `from`.
    pub fn read(&self, from: u64, max: usize) -> (r: Vec<StoredRecord>)
        requires
            self.wf(),
        ensures
            r@.len() == batch_len(self.contents().len(), from as nat, max as nat),
            forall|k: int|
                0 <= k < r@.len() ==> #[trigger] r@[k].offset == from + k && r@[k].data@
                    == self.contents()[from + k],
    {
        let mut out: Vec<StoredRecord> = Vec::new();
        let n = self.records.len();
        if (from as u128) >= (n as u128) {
            return out;
        }
        let start = from as usize;
        let mut i: usize = start;
        while i < n && i - start < max
            invariant
                self.wf(),
                n == self.records@.len(),
                start == from,
                start <= i <= n,
                i - start <= max,
                out@.len() == i - start,
                forall|k: int|
                    0 <= k < out@.len() ==> #[trigger] out@[k].offset == from + k && out@[k].data@
                        == self.contents()[from + k],
            decreases n - i,
        {
            let rec = &self.records[i];
            let ghost before = out@;
            out.push(StoredRecord { offset: rec.offset, data: copy_vec(&rec.data) });
            proof {
                assert(self.records@[i as int].offset == i);
                assert forall|k: int|
                    0 <= k < out@.len() implies #[trigger] out@[k].offset == from + k && out@[k].data@
                    == self.contents()[from + k] by {
                    if k < before.len() {
                        assert(out@[k] == before[k]);
                    }
                }
            }
            i = i + 1;
        }
        out
    }
}

/// Reads up to `max_records` records of `topic_id` for consumer group `group_id`,
/// starting after the group's committed offset (from 0 where it never committed).
pub fn read_topic_message(
    log: &TopicLog,
    offsets: &GroupOffsets,
    topic_id: &String,
    group_id: &String,
    max_records: usize,
) -> (r: Vec<StoredRecord>)
    requires
        log.wf(),
        offsets.wf(),
    ensures
        ({
            let from = resume_after(offsets.committed(topic_id@, group_id@));
            &&& r@.len() == batch_len(log.contents().len(), from as nat, max_records as nat)
            &&& forall|k: int|
                0 <= k < r@.len() ==> #[trigger] r@[k].offset == from + k && r@[k].data@
                    == log.contents()[from + k]
        }),
{
    let from = offsets.resume_offset(topic_id, group_id);
    log.read(from, max_records)
}

} // verus!
