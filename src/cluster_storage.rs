use vstd::prelude::*;
use crate::keyed::StrMap;
use crate::packet::copy_vec;

verus! {

/// Key-value records of the cluster column family.
pub struct ClusterStorage {
    rds: StrMap<Vec<u8>>,
}

impl ClusterStorage {
    pub closed spec fn wf(&self) -> bool {
        self.rds.wf()
    }

    /// The stored records, each as its bytes.
    pub closed spec fn records(&self) -> Map<Seq<char>, Seq<u8>> {
        Map::new(|k: Seq<char>| self.rds@.contains_key(k), |k: Seq<char>| self.rds@[k]@)
    }

    pub fn new() -> (r: Self)
        ensures
            r.wf(),
            r.records() == Map::<Seq<char>, Seq<u8>>::empty(),
    {
        let r = ClusterStorage { rds: StrMap::new() };
        proof {
            assert(r.records() =~= Map::<Seq<char>, Seq<u8>>::empty());
        }
        r
    }

    pub fn save_broker_info(&self) {
    }

    pub fn get_broker_info(&self) {
    }

    pub fn set(&mut self, key: String, value: Vec<u8>)
        requires
            old(self).wf(),
        ensures
            final(self).wf(),
            final(self).records() == old(self).records().insert(key@, value@),
    {
        let ghost k = key@;
        let ghost v = value@;
        self.rds.insert(key, value);
        proof {
            assert(self.records() =~= old(self).records().insert(k, v));
        }
    }

    pub fn get(&self, key: String) -> (r: Option<Vec<u8>>)
        requires
            self.wf(),
        ensures
            match r {
                Some(v) => self.records().contains_key(key@) && v@ == self.records()[key@],
                None => !self.records().contains_key(key@),
            },
    {
        match self.rds.get(&key) {
            Some(v) => Some(copy_vec(v)),
            None => None,
        }
    }

    pub fn delete(&mut self, key: String)
        requires
            old(self).wf(),
        ensures
            final(self).wf(),
            final(self).records() == old(self).records().remove(key@),
    {
        self.rds.remove(&key);
        proof {
            assert(self.records() =~= old(self).records().remove(key@));
        }
    }

    pub fn key_exists(&self, key: String) -> (r: bool)
        requires
            self.wf(),
        ensures
            r == self.records().contains_key(key@),
    {
        self.rds.contains_key(&key)
    }
}

} // verus!
