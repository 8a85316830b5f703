//! The changelog builder: one ordered sequence of mutation deltas in, one
//! column-level change record out per delta, in the same order.

use vstd::prelude::*;
use vstd::string::StringExecFns;

use crate::block::Timestamp;
use crate::block_timestamp::{BlockTimestamp, parse_key_spec};
use crate::datetime::{DateTime, datetime_chars};
use crate::digits::{append_u64_dec, dec_chars, digit_char};
use crate::error::Error;
use crate::pb::block_meta::{BlockMeta, BlockMetaView};

verus! {

/// Kind of a mutation, as the store's delta stream tags it.
#[derive(Clone, Copy, PartialEq, Eq, Structural, Debug)]
pub enum Operation {
    Unset,
    Create,
    Update,
    Delete,
}

/// One observed change of a single bucket key between two block heights.
pub struct MutationDelta {
    pub operation: Operation,
    pub ordinal: u64,
    pub key: String,
    pub old_value: Option<BlockMeta>,
    pub new_value: Option<BlockMeta>,
}

pub ghost struct MutationDeltaView {
    pub operation: Operation,
    pub ordinal: u64,
    pub key: Seq<char>,
    pub old_value: Option<BlockMetaView>,
    pub new_value: Option<BlockMetaView>,
}

impl View for MutationDelta {
    type V = MutationDeltaView;

    open spec fn view(&self) -> MutationDeltaView {
        MutationDeltaView {
            operation: self.operation,
            ordinal: self.ordinal,
            key: self.key@,
            old_value: match self.old_value {
                Some(ref v) => Some(v@),
                None => None,
            },
            new_value: match self.new_value {
                Some(ref v) => Some(v@),
                None => None,
            },
        }
    }
}

/// One column's before/after pair; an absent side means the column had or
/// keeps no value on that side.
pub struct Field {
    pub name: String,
    pub old_value: Option<String>,
    pub new_value: Option<String>,
}

pub ghost struct FieldView {
    pub name: Seq<char>,
    pub old_value: Option<Seq<char>>,
    pub new_value: Option<Seq<char>>,
}

impl View for Field {
    type V = FieldView;

    open spec fn view(&self) -> FieldView {
        FieldView {
            name: self.name@,
            old_value: match self.old_value {
                Some(ref v) => Some(v@),
                None => None,
            },
            new_value: match self.new_value {
                Some(ref v) => Some(v@),
                None => None,
            },
        }
    }
}

/// One row mutation of the changelog.
pub struct TableChange {
    pub table: String,
    pub pk: String,
    pub ordinal: u64,
    pub operation: Operation,
    pub fields: Vec<Field>,
}

pub ghost struct TableChangeView {
    pub table: Seq<char>,
    pub pk: Seq<char>,
    pub ordinal: u64,
    pub operation: Operation,
    pub fields: Seq<FieldView>,
}

impl View for TableChange {
    type V = TableChangeView;

    open spec fn view(&self) -> TableChangeView {
        TableChangeView {
            table: self.table@,
            pk: self.pk@,
            ordinal: self.ordinal,
            operation: self.operation,
            fields: self.fields@.map_values(|f: Field| f@),
        }
    }
}

/// The changelog of one invocation, in emission order.
pub struct DatabaseChanges {
    pub table_changes: Vec<TableChange>,
}

impl View for DatabaseChanges {
    type V = Seq<TableChangeView>;

    open spec fn view(&self) -> Seq<TableChangeView> {
        self.table_changes@.map_values(|t: TableChange| t@)
    }
}

impl Default for DatabaseChanges {
    /// An empty changelog.
    fn default() -> (r: DatabaseChanges)
        ensures
            r@ == Seq::<TableChangeView>::empty(),
    {
        let r = DatabaseChanges { table_changes: Vec::new() };
        proof {
            assert(r@ =~= Seq::<TableChangeView>::empty());
        }
        r
    }
}

/// The lowercase hex digit for a value in 0..=15.
pub open spec fn hex_digit(d: int) -> char {
    if d < 10 {
        digit_char(d)
    } else if d == 10 {
        'a'
    } else if d == 11 {
        'b'
    } else if d == 12 {
        'c'
    } else if d == 13 {
        'd'
    } else if d == 14 {
        'e'
    } else {
        'f'
    }
}

/// Lowercase hex encoding of a byte sequence: two digits per byte, high
/// nibble first, empty for the empty sequence.
pub open spec fn hex_of(s: Seq<u8>) -> Seq<char>
    decreases s.len(),
{
    if s.len() == 0 {
        Seq::empty()
    } else {
        hex_of(s.drop_last()) + seq![
            hex_digit(s.last() as int / 16),
            hex_digit(s.last() as int % 16),
        ]
    }
}

/// Relies on substreams::Hex::encode: every byte becomes its two lowercase
/// hex digits, high nibble first; an empty input encodes to the empty string.
#[verifier::external_body]
fn hex_encode(b: &Vec<u8>) -> (r: String)
    ensures
        r@ == hex_of(b@),
{
    substreams::Hex::encode(b.as_slice())
}

/// The RFC 3339 rendering of an epoch instant: what the database sink
/// receives for a timestamp column.
pub uninterp spec fn rfc3339_of(seconds: int, nanos: int) -> Seq<char>;

/// Relies on prost_types::Timestamp's Display implementation: it renders the
/// instant as RFC 3339, a function of the seconds and nanos alone.
#[verifier::external_body]
fn timestamp_rfc3339(ts: &Timestamp) -> (r: String)
    ensures
        r@ == rfc3339_of(ts.seconds as int, ts.nanos as int),
{
    let v = prost_types::Timestamp { seconds: ts.seconds, nanos: ts.nanos };
    v.to_string()
}

/// The changelog rendering of an optional timestamp field.
pub open spec fn ts_string(t: Option<Timestamp>) -> Seq<char> {
    match t {
        Some(ts) => rfc3339_of(ts.seconds as int, ts.nanos as int),
        None => Seq::empty(),
    }
}

pub open spec fn field_v(
    name: Seq<char>,
    old_value: Option<Seq<char>>,
    new_value: Option<Seq<char>>,
) -> FieldView {
    FieldView { name, old_value, new_value }
}

/// The columns of a creation record: the bucket's resolved instant and every
/// metadata field, each appearing for the first time.
pub open spec fn create_fields(dt: DateTime, v: BlockMetaView) -> Seq<FieldView> {
    seq![
        field_v("at"@, None, Some(datetime_chars(dt))),
        field_v("number"@, None, Some(dec_chars(v.number as nat))),
        field_v("hash"@, None, Some(hex_of(v.hash))),
        field_v("parent_hash"@, None, Some(hex_of(v.parent_hash))),
        field_v("timestamp"@, None, Some(ts_string(v.timestamp))),
    ]
}

/// The columns of an update record: every metadata field as a before/after
/// pair. The `at` column is absent: a bucket's instant never changes.
pub open spec fn update_fields(ov: BlockMetaView, nv: BlockMetaView) -> Seq<FieldView> {
    seq![
        field_v("number"@, Some(dec_chars(ov.number as nat)), Some(dec_chars(nv.number as nat))),
        field_v("hash"@, Some(hex_of(ov.hash)), Some(hex_of(nv.hash))),
        field_v("parent_hash"@, Some(hex_of(ov.parent_hash)), Some(hex_of(nv.parent_hash))),
        field_v("timestamp"@, Some(ts_string(ov.timestamp)), Some(ts_string(nv.timestamp))),
    ]
}

/// The record a creation delta emits.
pub open spec fn create_record(
    key: Seq<char>,
    dt: DateTime,
    ordinal: u64,
    v: BlockMetaView,
) -> TableChangeView {
    TableChangeView {
        table: "block_meta"@,
        pk: key,
        ordinal,
        operation: Operation::Create,
        fields: create_fields(dt, v),
    }
}

/// The record an update delta emits.
pub open spec fn update_record(
    key: Seq<char>,
    ordinal: u64,
    ov: BlockMetaView,
    nv: BlockMetaView,
) -> TableChangeView {
    TableChangeView {
        table: "block_meta"@,
        pk: key,
        ordinal,
        operation: Operation::Update,
        fields: update_fields(ov, nv),
    }
}

/// Appends the creation record for a delta whose bucket key resolved to
/// `timestamp`.
pub fn push_create(
    changes: &mut DatabaseChanges,
    key: &str,
    timestamp: BlockTimestamp,
    ordinal: u64,
    value: BlockMeta,
)
    requires
        timestamp.wf(),
        value.timestamp is Some,
    ensures
        final(changes)@ == old(changes)@.push(create_record(key@, timestamp.0, ordinal, value@)),
{
    let at = timestamp.as_string();
    let mut number = String::new();
    append_u64_dec(&mut number, value.number);
    let hash = hex_encode(&value.hash);
    let parent_hash = hex_encode(&value.parent_hash);
    let ts = match &value.timestamp {
        Some(t) => timestamp_rfc3339(t),
        None => {
            proof {
                assert(false);
            }
            vstd::pervasive::unreached()
        },
    };
    let mut fields: Vec<Field> = Vec::new();
    fields.push(Field { name: String::from_str("at"), old_value: None, new_value: Some(at) });
    fields.push(
        Field { name: String::from_str("number"), old_value: None, new_value: Some(number) },
    );
    fields.push(Field { name: String::from_str("hash"), old_value: None, new_value: Some(hash) });
    fields.push(
        Field {
            name: String::from_str("parent_hash"),
            old_value: None,
            new_value: Some(parent_hash),
        },
    );
    fields.push(
        Field { name: String::from_str("timestamp"), old_value: None, new_value: Some(ts) },
    );
    proof {
        assert(fields@.map_values(|f: Field| f@) =~= create_fields(timestamp.0, value@));
    }
    let record = TableChange {
        table: String::from_str("block_meta"),
        pk: String::from_str(key),
        ordinal,
        operation: Operation::Create,
        fields,
    };
    proof {
        assert(record@ =~= create_record(key@, timestamp.0, ordinal, value@));
        assert(changes.table_changes@.push(record).map_values(|t: TableChange| t@) =~= changes@
            .push(record@));
    }
    changes.table_changes.push(record);
}

/// Appends the update record for a delta: before/after pairs, no `at` column.
pub fn push_update(
    changes: &mut DatabaseChanges,
    key: &str,
    ordinal: u64,
    old_value: BlockMeta,
    new_value: BlockMeta,
)
    requires
        old_value.timestamp is Some,
        new_value.timestamp is Some,
    ensures
        final(changes)@ == old(changes)@.push(
            update_record(key@, ordinal, old_value@, new_value@),
        ),
{
    let mut number_old = String::new();
    append_u64_dec(&mut number_old, old_value.number);
    let mut number_new = String::new();
    append_u64_dec(&mut number_new, new_value.number);
    let hash_old = hex_encode(&old_value.hash);
    let hash_new = hex_encode(&new_value.hash);
    let parent_old = hex_encode(&old_value.parent_hash);
    let parent_new = hex_encode(&new_value.parent_hash);
    let ts_old = match &old_value.timestamp {
        Some(t) => timestamp_rfc3339(t),
        None => {
            proof {
                assert(false);
            }
            vstd::pervasive::unreached()
        },
    };
    let ts_new = match &new_value.timestamp {
        Some(t) => timestamp_rfc3339(t),
        None => {
            proof {
                assert(false);
            }
            vstd::pervasive::unreached()
        },
    };
    let mut fields: Vec<Field> = Vec::new();
    fields.push(
        Field {
            name: String::from_str("number"),
            old_value: Some(number_old),
            new_value: Some(number_new),
        },
    );
    fields.push(
        Field {
            name: String::from_str("hash"),
            old_value: Some(hash_old),
            new_value: Some(hash_new),
        },
    );
    fields.push(
        Field {
            name: String::from_str("parent_hash"),
            old_value: Some(parent_old),
            new_value: Some(parent_new),
        },
    );
    fields.push(
        Field {
            name: String::from_str("timestamp"),
            old_value: Some(ts_old),
            new_value: Some(ts_new),
        },
    );
    proof {
        assert(fields@.map_values(|f: Field| f@) =~= update_fields(old_value@, new_value@));
    }
    let record = TableChange {
        table: String::from_str("block_meta"),
        pk: String::from_str(key),
        ordinal,
        operation: Operation::Update,
        fields,
    };
    proof {
        assert(record@ =~= update_record(key@, ordinal, old_value@, new_value@));
        assert(changes.table_changes@.push(record).map_values(|t: TableChange| t@) =~= changes@
            .push(record@));
    }
    changes.table_changes.push(record);
}

} // verus!
