//! The per-block metadata record stored under each time-bucket key.

use vstd::prelude::*;
use vstd::slice::slice_to_vec;

use crate::block::Timestamp;

verus! {

/// One block's metadata: stored once per bucket, first write wins.
#[derive(Clone, Debug)]
pub struct BlockMeta {
    pub number: u64,
    pub hash: Vec<u8>,
    pub parent_hash: Vec<u8>,
    pub timestamp: Option<Timestamp>,
}

pub ghost struct BlockMetaView {
    pub number: u64,
    pub hash: Seq<u8>,
    pub parent_hash: Seq<u8>,
    pub timestamp: Option<Timestamp>,
}

impl View for BlockMeta {
    type V = BlockMetaView;

    open spec fn view(&self) -> BlockMetaView {
        BlockMetaView {
            number: self.number,
            hash: self.hash@,
            parent_hash: self.parent_hash@,
            timestamp: self.timestamp,
        }
    }
}

impl BlockMeta {
    /// A value-equal copy of the record.
    pub fn duplicate(&self) -> (r: BlockMeta)
        ensures
            r@ == self@,
    {
        BlockMeta {
            number: self.number,
            hash: slice_to_vec(self.hash.as_slice()),
            parent_hash: slice_to_vec(self.parent_hash.as_slice()),
            timestamp: self.timestamp,
        }
    }
}

} // verus!
