//! Derives canonical time-bucket keys from block timestamps, stores one
//! metadata record per bucket first-write-wins, and turns the store's delta
//! stream into a column-level changelog, one record per delta, in order.

use vstd::prelude::*;
use vstd::slice::slice_to_vec;

pub mod block;
pub mod block_timestamp;
pub mod changes;
pub mod datetime;
pub mod digits;
pub mod error;
pub mod pb;
pub mod store;

use crate::block::Block;
use crate::block_timestamp::{
    BlockTimestamp, civil_of_epoch, day_first_key_chars, epoch_in_key_range,
    month_first_key_chars, parse_key_spec,
};
use crate::changes::{
    DatabaseChanges, MutationDelta, MutationDeltaView, Operation, TableChangeView, create_record,
    push_create, push_update, update_record,
};
use crate::error::Error;
use crate::pb::block_meta::{BlockMeta, BlockMetaView};
use crate::store::{MetaStore, offer};

verus! {

/// The views of a delta sequence, in delivery order.
pub open spec fn delta_views(ds: Seq<MutationDelta>) -> Seq<MutationDeltaView> {
    ds.map_values(|d: MutationDelta| d@)
}

/// A delta the builder accepts: a creation carries a new value (with its
/// timestamp) under a parseable bucket key; an update carries both values.
/// Deletions and unset tags are contract violations of the upstream store.
pub open spec fn delta_valid(d: MutationDeltaView) -> bool {
    match d.operation {
        Operation::Create => parse_key_spec(d.key) is Some && (d.new_value matches Some(nv)
            && nv.timestamp is Some),
        Operation::Update => (d.old_value matches Some(ov) && ov.timestamp is Some) && (
        d.new_value matches Some(nv) && nv.timestamp is Some),
        _ => false,
    }
}

/// The error the first invalid delta aborts the block's processing with.
pub open spec fn delta_error(d: MutationDeltaView) -> Error {
    match d.operation {
        Operation::Create => if parse_key_spec(d.key) is None {
            Error::InvalidKey
        } else {
            Error::MissingField
        },
        Operation::Update => Error::MissingField,
        _ => Error::UnsupportedOperation,
    }
}

/// The change record a valid delta emits.
pub open spec fn record_of(d: MutationDeltaView) -> TableChangeView {
    if d.operation == Operation::Create {
        match (parse_key_spec(d.key), d.new_value) {
            (Some(dt), Some(nv)) => create_record(d.key, dt, d.ordinal, nv),
            _ => vstd::pervasive::arbitrary(),
        }
    } else {
        match (d.old_value, d.new_value) {
            (Some(ov), Some(nv)) => update_record(d.key, d.ordinal, ov, nv),
            _ => vstd::pervasive::arbitrary(),
        }
    }
}

/// The records of a delta sequence, one per delta, in the same order.
pub open spec fn records_of(ds: Seq<MutationDeltaView>) -> Seq<TableChangeView> {
    ds.map_values(|d: MutationDeltaView| record_of(d))
}

/// Derives the block's timestamp and its metadata record. The header and its
/// timestamp are protocol preconditions; their absence is reported.
pub fn transform_block_to_block_meta(blk: &Block) -> (r: Result<(BlockTimestamp, BlockMeta), Error>)
    ensures
        (blk@.header matches Some(h) && h.timestamp matches Some(t) && epoch_in_key_range(t))
            ==> r is Ok,
        (r matches Err(e) && e == Error::MissingField) <==> (blk@.header is None || (
        blk@.header matches Some(h) && h.timestamp is None)),
        r matches Err(e) ==> e == Error::MissingField || e == Error::InvalidTimestamp,
        r matches Ok(p) ==> blk@.header matches Some(h) && h.timestamp matches Some(t) && {
            &&& p.0.wf()
            &&& 0 <= t.nanos <= 999_999_999
            &&& p.0.0.nanos == t.nanos as u32
            &&& {
                let f = civil_of_epoch(t.seconds as int);
                p.0.0.year as int == f.0 && p.0.0.month as int == f.1 && p.0.0.day as int == f.2
                    && p.0.0.hour as int == f.3 && p.0.0.minute as int == f.4 && p.0.0.second as int
                    == f.5
            }
            &&& p.1@ == (BlockMetaView {
                number: blk@.number,
                hash: blk@.hash,
                parent_hash: h.parent_hash,
                timestamp: Some(t),
            })
        },
{
    let timestamp = match BlockTimestamp::from_block(blk) {
        Ok(t) => t,
        Err(e) => {
            return Err(e);
        },
    };
    match &blk.header {
        None => {
            proof {
                assert(false);
            }
            vstd::pervasive::unreached()
        },
        Some(header) => match &header.timestamp {
            None => {
                proof {
                    assert(false);
                }
                vstd::pervasive::unreached()
            },
            Some(t) => Ok(
                (
                    timestamp,
                    BlockMeta {
                        number: blk.number,
                        hash: slice_to_vec(blk.hash.as_slice()),
                        parent_hash: slice_to_vec(header.parent_hash.as_slice()),
                        timestamp: Some(*t),
                    },
                ),
            ),
        },
    }
}

/// Stores the block's metadata under its start-of-day and start-of-month
/// bucket keys, first write wins: a bucket that already saw an earlier block
/// keeps that block's metadata.
pub fn store_block_meta_start(blk: &Block, s: &mut MetaStore) -> (r: Result<(), Error>)
    ensures
        (blk@.header matches Some(h) && h.timestamp matches Some(t) && epoch_in_key_range(t))
            ==> r is Ok,
        r matches Err(_) ==> final(s)@ == old(s)@,
        (r matches Err(e) && e == Error::MissingField) <==> (blk@.header is None || (
        blk@.header matches Some(h) && h.timestamp is None)),
        r matches Err(e) ==> e == Error::MissingField || e == Error::InvalidTimestamp,
        r matches Ok(_) ==> blk@.header matches Some(h) && h.timestamp matches Some(t) && {
            let f = civil_of_epoch(t.seconds as int);
            let meta = BlockMetaView {
                number: blk@.number,
                hash: blk@.hash,
                parent_hash: h.parent_hash,
                timestamp: Some(t),
            };
            final(s)@ == offer(
                offer(old(s)@, day_first_key_chars(f.0 as nat, f.1 as nat, f.2 as nat), meta),
                month_first_key_chars(f.0 as nat, f.1 as nat),
                meta,
            )
        },
{
    let (timestamp, meta) = match transform_block_to_block_meta(blk) {
        Ok(p) => p,
        Err(e) => {
            return Err(e);
        },
    };
    let day_key = timestamp.start_of_day_key();
    let month_key = timestamp.start_of_month_key();
    s.set_if_not_exists(meta.number, day_key, &meta);
    s.set_if_not_exists(meta.number, month_key, &meta);
    Ok(())
}

/// Turns the delta stream into change records: exactly one per delta, in
/// delivery order, aborting on the first delta outside the contract without
/// emitting a partial record for it.
pub fn transform_block_meta_to_database_changes(
    changes: &mut DatabaseChanges,
    deltas: Vec<MutationDelta>,
) -> (r: Result<(), Error>)
    ensures
        match r {
            Ok(_) => (forall|i: int|
                0 <= i < deltas@.len() ==> delta_valid(#[trigger] delta_views(deltas@)[i]))
                && final(changes)@ == old(changes)@ + records_of(delta_views(deltas@)),
            Err(e) => exists|k: int|
                {
                    &&& 0 <= k < deltas@.len()
                    &&& !delta_valid(#[trigger] delta_views(deltas@)[k])
                    &&& (forall|i: int|
                        0 <= i < k ==> delta_valid(#[trigger] delta_views(deltas@)[i]))
                    &&& e == delta_error(delta_views(deltas@)[k])
                    &&& final(changes)@ == old(changes)@ + records_of(
                        delta_views(deltas@).subrange(0, k),
                    )
                },
        },
{
    let n = deltas.len();
    let mut i: usize = 0;
    proof {
        assert(delta_views(deltas@).subrange(0, 0) =~= Seq::<MutationDeltaView>::empty());
        assert(changes@ =~= changes@ + records_of(delta_views(deltas@).subrange(0, 0)));
    }
    while i < n
        invariant
            n == deltas.len(),
            i <= n,
            forall|j: int| 0 <= j < i ==> delta_valid(#[trigger] delta_views(deltas@)[j]),
            changes@ == old(changes)@ + records_of(delta_views(deltas@).subrange(0, i as int)),
        decreases n - i,
    {
        let delta = &deltas[i];
        proof {
            assert(delta_views(deltas@)[i as int] == delta@);
        }
        match delta.operation {
            Operation::Create => {
                let bt = match BlockTimestamp::try_from_key(delta.key.as_str()) {
                    Ok(bt) => bt,
                    Err(_) => {
                        return Err(Error::InvalidKey);
                    },
                };
                let nv = match &delta.new_value {
                    Some(v) => v,
                    None => {
                        return Err(Error::MissingField);
                    },
                };
                if nv.timestamp.is_none() {
                    return Err(Error::MissingField);
                }
                let dup = nv.duplicate();
                push_create(changes, delta.key.as_str(), bt, delta.ordinal, dup);
                proof {
                    assert(record_of(delta@) == create_record(
                        delta.key@,
                        bt.0,
                        delta.ordinal,
                        nv@,
                    ));
                }
            },
            Operation::Update => {
                let ov = match &delta.old_value {
                    Some(v) => v,
                    None => {
                        return Err(Error::MissingField);
                    },
                };
                let nv = match &delta.new_value {
                    Some(v) => v,
                    None => {
                        return Err(Error::MissingField);
                    },
                };
                if ov.timestamp.is_none() || nv.timestamp.is_none() {
                    return Err(Error::MissingField);
                }
                let ov_dup = ov.duplicate();
                let nv_dup = nv.duplicate();
                push_update(changes, delta.key.as_str(), delta.ordinal, ov_dup, nv_dup);
                proof {
                    assert(record_of(delta@) == update_record(delta.key@, delta.ordinal, ov@, nv@));
                }
            },
            Operation::Delete => {
                return Err(Error::UnsupportedOperation);
            },
            Operation::Unset => {
                return Err(Error::UnsupportedOperation);
            },
        }
        proof {
            let dv = delta_views(deltas@);
            assert(dv.subrange(0, i + 1) =~= dv.subrange(0, i as int).push(dv[i as int]));
            assert(records_of(dv.subrange(0, i as int).push(dv[i as int])) =~= records_of(
                dv.subrange(0, i as int),
            ).push(record_of(dv[i as int])));
            assert(changes@ =~= old(changes)@ + records_of(dv.subrange(0, i + 1)));
        }
        i = i + 1;
    }
    proof {
        assert(delta_views(deltas@).subrange(0, n as int) =~= delta_views(deltas@));
    }
    Ok(())
}

/// Builds the changelog for one block's delta stream.
pub fn db_out(deltas: Vec<MutationDelta>) -> (r: Result<DatabaseChanges, Error>)
    ensures
        match r {
            Ok(c) => (forall|i: int|
                0 <= i < deltas@.len() ==> delta_valid(#[trigger] delta_views(deltas@)[i])) && c@
                == records_of(delta_views(deltas@)),
            Err(e) => exists|k: int|
                {
                    &&& 0 <= k < deltas@.len()
                    &&& !delta_valid(#[trigger] delta_views(deltas@)[k])
                    &&& (forall|i: int|
                        0 <= i < k ==> delta_valid(#[trigger] delta_views(deltas@)[i]))
                    &&& e == delta_error(delta_views(deltas@)[k])
                },
        },
{
    let mut database_changes: DatabaseChanges = Default::default();
    match transform_block_meta_to_database_changes(&mut database_changes, deltas) {
        Ok(_) => {
            proof {
                assert(database_changes@ =~= records_of(delta_views(deltas@)));
            }
            Ok(database_changes)
        },
        Err(e) => Err(e),
    }
}

} // verus!
