//! Plain models of the inbound block record: the fields of the raw block this
//! stage reads. The host converts its wire-format block into these values.

use vstd::prelude::*;

verus! {

/// Seconds and nanoseconds since the epoch, as the block header carries them.
#[derive(Clone, Copy, PartialEq, Eq, Structural, Debug)]
pub struct Timestamp {
    pub seconds: i64,
    pub nanos: i32,
}

/// The header fields this stage reads.
#[derive(Clone, Debug)]
pub struct BlockHeader {
    pub parent_hash: Vec<u8>,
    pub timestamp: Option<Timestamp>,
}

/// The block fields this stage reads.
#[derive(Clone, Debug)]
pub struct Block {
    pub number: u64,
    pub hash: Vec<u8>,
    pub header: Option<BlockHeader>,
}

pub ghost struct BlockHeaderView {
    pub parent_hash: Seq<u8>,
    pub timestamp: Option<Timestamp>,
}

pub ghost struct BlockView {
    pub number: u64,
    pub hash: Seq<u8>,
    pub header: Option<BlockHeaderView>,
}

impl View for BlockHeader {
    type V = BlockHeaderView;

    open spec fn view(&self) -> BlockHeaderView {
        BlockHeaderView { parent_hash: self.parent_hash@, timestamp: self.timestamp }
    }
}

impl View for Block {
    type V = BlockView;

    open spec fn view(&self) -> BlockView {
        BlockView {
            number: self.number,
            hash: self.hash@,
            header: match self.header {
                Some(ref h) => Some(h@),
                None => None,
            },
        }
    }
}

} // verus!
