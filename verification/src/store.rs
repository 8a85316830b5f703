//! An in-memory model of the injected first-write-wins store: a set-if-absent
//! write primitive over bucket keys, resolved by delivery order.

use vstd::prelude::*;

use crate::digits::str_eq;
use crate::pb::block_meta::{BlockMeta, BlockMetaView};

verus! {

/// One stored binding of a bucket key to the first metadata offered under it.
pub struct MetaEntry {
    pub key: String,
    pub value: BlockMeta,
}

pub ghost struct MetaEntryView {
    pub key: Seq<char>,
    pub value: BlockMetaView,
}

impl View for MetaEntry {
    type V = MetaEntryView;

    open spec fn view(&self) -> MetaEntryView {
        MetaEntryView { key: self.key@, value: self.value@ }
    }
}

/// Some entry binds `k`.
pub open spec fn store_contains(s: Seq<MetaEntryView>, k: Seq<char>) -> bool {
    exists|i: int| 0 <= i < s.len() && s[i].key == k
}

/// What one first-write-wins offer leaves behind: an occupied key keeps its
/// value, a free key takes the offered one.
pub open spec fn offer(st: Seq<MetaEntryView>, k: Seq<char>, v: BlockMetaView) -> Seq<
    MetaEntryView,
> {
    if store_contains(st, k) {
        st
    } else {
        st.push(MetaEntryView { key: k, value: v })
    }
}

/// A first-write-wins key-value store, viewed as its entries in the order
/// their keys were first written.
pub struct MetaStore {
    entries: Vec<MetaEntry>,
}

impl View for MetaStore {
    type V = Seq<MetaEntryView>;

    closed spec fn view(&self) -> Seq<MetaEntryView> {
        self.entries@.map_values(|e: MetaEntry| e@)
    }
}

impl MetaStore {
    /// An empty store.
    pub fn new() -> (r: MetaStore)
        ensures
            r@ == Seq::<MetaEntryView>::empty(),
    {
        let r = MetaStore { entries: Vec::new() };
        proof {
            assert(r@ =~= Seq::<MetaEntryView>::empty());
        }
        r
    }

    /// How many keys hold a value.
    pub fn len(&self) -> (r: usize)
        ensures
            r == self@.len(),
    {
        self.entries.len()
    }

    /// Whether `key` already holds a value.
    pub fn contains_key(&self, key: &str) -> (r: bool)
        ensures
            r == store_contains(self@, key@),
    {
        let mut i: usize = 0;
        while i < self.entries.len()
            invariant
                i <= self.entries.len(),
                forall|k: int| 0 <= k < i ==> self@[k].key != key@,
            decreases self.entries.len() - i,
        {
            proof {
                assert(self@[i as int] == self.entries@[i as int]@);
            }
            if str_eq(self.entries[i].key.as_str(), key) {
                return true;
            }
            i = i + 1;
        }
        false
    }

    /// The value stored under `key`, if any.
    pub fn get(&self, key: &str) -> (r: Option<&BlockMeta>)
        ensures
            match r {
                Some(v) => exists|i: int| 0 <= i < self@.len() && self@[i].key == key@
                    && self@[i].value == v@,
                None => !store_contains(self@, key@),
            },
    {
        let mut i: usize = 0;
        while i < self.entries.len()
            invariant
                i <= self.entries.len(),
                forall|k: int| 0 <= k < i ==> self@[k].key != key@,
            decreases self.entries.len() - i,
        {
            proof {
                assert(self@[i as int] == self.entries@[i as int]@);
            }
            if str_eq(self.entries[i].key.as_str(), key) {
                return Some(&self.entries[i].value);
            }
            i = i + 1;
        }
        None
    }

    /// Offers `value` under `key`, first write wins: a key that already holds
    /// a value keeps it, and the store is left exactly as it was. The ordinal
    /// is the host's ordering token; it does not influence arbitration, which
    /// goes by delivery order alone.
    pub fn set_if_not_exists(&mut self, ordinal: u64, key: String, value: &BlockMeta)
        ensures
            store_contains(old(self)@, key@) ==> final(self)@ == old(self)@,
            !store_contains(old(self)@, key@) ==> final(self)@ == old(self)@.push(
                MetaEntryView { key: key@, value: value@ },
            ),
    {
        let _ = ordinal;
        if self.contains_key(key.as_str()) {
            return;
        }
        let entry = MetaEntry { key, value: value.duplicate() };
        proof {
            assert(self.entries@.push(entry).map_values(|e: MetaEntry| e@) =~= self@.push(entry@));
        }
        self.entries.push(entry);
    }
}

} // verus!
