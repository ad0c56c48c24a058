use vstd::prelude::*;

verus! {

/// RocksDB settings of the placement center.
#[derive(Clone, Copy, Debug, PartialEq, Eq, Structural)]
pub struct Rocksdb {
    pub max_open_files: Option<i32>,
}

impl Rocksdb {
    /// The settings used where none are configured: at most 100 open files.
    pub fn default_settings() -> (r: Rocksdb)
        ensures
            r.max_open_files == Some(100i32),
    {
        Rocksdb { max_open_files: Some(100) }
    }
}

} // verus!
