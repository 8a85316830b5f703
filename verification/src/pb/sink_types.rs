//! Key-value pair shapes of the sink's generic query interface.

use vstd::prelude::*;

verus! {

#[derive(Clone, Debug)]
pub struct KvPairs {
    pub pairs: Vec<KvPair>,
}

#[derive(Clone, Debug)]
pub struct KvPair {
    pub key: String,
    pub value: Vec<u8>,
}

#[derive(Clone, Debug)]
pub struct KvKeys {
    pub keys: Vec<String>,
}

} // verus!
