use vstd::prelude::*;
use crate::keyed::StrMap;

verus! {

/// Committed read positions, one per (topic, consumer group). A commit only moves
/// a position forward.
pub struct GroupOffsets {
    topics: StrMap<StrMap<u64>>,
}

/// Offset a reader resumes at after `committed` (the last record delivered).
pub open spec fn resume_after(committed: Option<u64>) -> u64 {
    match committed {
        Some(c) => if c < u64::MAX { (c + 1) as u64 } else { c },
        None => 0,
    }
}

/// Position after committing `offset` over `current`: the larger of the two.
pub open spec fn after_commit(current: Option<u64>, offset: u64) -> u64 {
    match current {
        Some(c) => if offset <= c { c } else { offset },
        None => offset,
    }
}

impl GroupOffsets {
    pub closed spec fn wf(&self) -> bool {
        &&& self.topics.wf()
        &&& forall|t: Seq<char>| #[trigger] self.topics@.contains_key(t) ==> self.topics@[t].wf()
    }

    /// Committed offset of `group` on `topic`, if it ever committed.
    pub closed spec fn committed(&self, topic: Seq<char>, group: Seq<char>) -> Option<u64> {
        if self.topics@.contains_key(topic) && self.topics@[topic]@.contains_key(group) {
            Some(self.topics@[topic]@[group])
        } else {
            None
        }
    }

    pub fn new() -> (r: Self)
        ensures
            r.wf(),
            forall|t: Seq<char>, g: Seq<char>| r.committed(t, g) is None,
    {
        GroupOffsets { topics: StrMap::new() }
    }

    pub fn get(&self, topic: &String, group: &String) -> (r: Option<u64>)
        requires
            self.wf(),
        ensures
            r == self.committed(topic@, group@),
    {
        match self.topics.get(topic) {
            Some(groups) => match groups.get(group) {
                Some(o) => Some(*o),
                None => None,
            },
            None => None,
        }
    }

    /// Offset a reader of `group` on `topic` starts at.
    pub fn resume_offset(&self, topic: &String, group: &String) -> (r: u64)
        requires
            self.wf(),
        ensures
            r == resume_after(self.committed(topic@, group@)),
    {
        match self.get(topic, group) {
            Some(c) => if c < u64::MAX { c + 1 } else { c },
            None => 0,
        }
    }

    /// Records `offset` as delivered for `group` on `topic`; an offset at or below the
    /// committed one changes nothing.
    pub fn commit(&mut self, topic: &String, group: &String, offset: u64)
        requires
            old(self).wf(),
        ensures
            final(self).wf(),
            final(self).committed(topic@, group@) == Some(
                after_commit(old(self).committed(topic@, group@), offset),
            ),
            old(self).committed(topic@, group@) matches Some(c) ==> final(self).committed(
                topic@,
                group@,
            )->Some_0 >= c,
            forall|t: Seq<char>, g: Seq<char>|
                !(t == topic@ && g == group@) ==> final(self).committed(t, g) == old(self).committed(
                    t,
                    g,
                ),
    {
        let mut groups = match self.topics.take(topic) {
            Some(g) => g,
            None => StrMap::new(),
        };
        let current = match groups.get(group) {
            Some(c) => Some(*c),
            None => None,
        };
        let next = match current {
            Some(c) => if offset <= c { c } else { offset },
            None => offset,
        };
        groups.insert(group.clone(), next);
        self.topics.insert(topic.clone(), groups);
        proof {
            assert forall|t: Seq<char>| #[trigger] self.topics@.contains_key(t) implies self.topics@[t].wf() by {
                if t != topic@ {
                    assert(old(self).topics@.contains_key(t));
                }
            }
            assert forall|t: Seq<char>, g: Seq<char>|
                !(t == topic@ && g == group@) implies self.committed(t, g) == old(self).committed(t, g) by {
                if t != topic@ {
                    assert(self.topics@[t] == old(self).topics@[t]);
                }
            }
        }
    }
}

/// A commit never moves a committed offset backwards.
pub proof fn lemma_commit_monotone(current: Option<u64>, offset: u64)
    ensures
        current matches Some(c) ==> after_commit(current, offset) >= c,
        after_commit(current, offset) >= offset,
{
}

} // verus!
