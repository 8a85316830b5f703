use eth_block_meta::block::Timestamp;
use eth_block_meta::changes::{DatabaseChanges, MutationDelta, Operation};
use eth_block_meta::error::Error;
use eth_block_meta::pb::block_meta::BlockMeta;
use eth_block_meta::{db_out, transform_block_meta_to_database_changes};

fn meta(number: u64) -> BlockMeta {
    BlockMeta {
        number,
        hash: vec![0xab, 0xcd, 0xef],
        parent_hash: vec![0x01, 0x02],
        // 2021-07-05 10:21:54.354 UTC.
        timestamp: Some(Timestamp { seconds: 1625480514, nanos: 354_000_000 }),
    }
}

fn create_delta(key: &str, ordinal: u64, number: u64) -> MutationDelta {
    MutationDelta {
        operation: Operation::Create,
        ordinal,
        key: key.to_string(),
        old_value: None,
        new_value: Some(meta(number)),
    }
}

#[test]
fn create_delta_emits_all_columns() {
    let changes = db_out(vec![create_delta("month:first:202107", 7, 100)]).unwrap();
    assert_eq!(changes.table_changes.len(), 1);
    let record = &changes.table_changes[0];
    assert_eq!(record.table, "block_meta");
    assert_eq!(record.pk, "month:first:202107");
    assert_eq!(record.ordinal, 7);
    assert_eq!(record.operation, Operation::Create);
    assert_eq!(record.fields.len(), 5);

    assert_eq!(record.fields[0].name, "at");
    assert_eq!(record.fields[0].old_value, None);
    assert_eq!(record.fields[0].new_value.as_deref(), Some("2021-07-01 00:00:00"));

    assert_eq!(record.fields[1].name, "number");
    assert_eq!(record.fields[1].old_value, None);
    assert_eq!(record.fields[1].new_value.as_deref(), Some("100"));

    assert_eq!(record.fields[2].name, "hash");
    assert_eq!(record.fields[2].new_value.as_deref(), Some("abcdef"));

    assert_eq!(record.fields[3].name, "parent_hash");
    assert_eq!(record.fields[3].new_value.as_deref(), Some("0102"));

    assert_eq!(record.fields[4].name, "timestamp");
    assert_eq!(record.fields[4].new_value.as_deref(), Some("2021-07-05T10:21:54.354Z"));
}

#[test]
fn create_delta_day_key_at_column() {
    let changes = db_out(vec![create_delta("day:last:20221130", 1, 42)]).unwrap();
    let record = &changes.table_changes[0];
    assert_eq!(record.fields[0].name, "at");
    assert_eq!(record.fields[0].new_value.as_deref(), Some("2022-11-30 23:59:59.999"));
}

#[test]
fn update_delta_pairs_columns_without_at() {
    let delta = MutationDelta {
        operation: Operation::Update,
        ordinal: 9,
        key: "day:first:20210705".to_string(),
        old_value: Some(meta(100)),
        new_value: Some(meta(101)),
    };
    let changes = db_out(vec![delta]).unwrap();
    let record = &changes.table_changes[0];
    assert_eq!(record.operation, Operation::Update);
    assert_eq!(record.fields.len(), 4);
    assert!(record.fields.iter().all(|f| f.name != "at"));
    assert_eq!(record.fields[0].name, "number");
    assert_eq!(record.fields[0].old_value.as_deref(), Some("100"));
    assert_eq!(record.fields[0].new_value.as_deref(), Some("101"));
}

#[test]
fn delete_delta_aborts() {
    let delta = MutationDelta {
        operation: Operation::Delete,
        ordinal: 1,
        key: "day:first:20210705".to_string(),
        old_value: Some(meta(100)),
        new_value: None,
    };
    assert_eq!(db_out(vec![delta]).err(), Some(Error::UnsupportedOperation));
}

#[test]
fn unset_delta_aborts() {
    let delta = MutationDelta {
        operation: Operation::Unset,
        ordinal: 1,
        key: "day:first:20210705".to_string(),
        old_value: None,
        new_value: Some(meta(100)),
    };
    assert_eq!(db_out(vec![delta]).err(), Some(Error::UnsupportedOperation));
}

#[test]
fn invalid_key_aborts_a_creation() {
    assert_eq!(db_out(vec![create_delta("not:a:key", 1, 100)]).err(), Some(Error::InvalidKey));
}

#[test]
fn missing_values_abort() {
    let mut no_new = create_delta("day:first:20210705", 1, 100);
    no_new.new_value = None;
    assert_eq!(db_out(vec![no_new]).err(), Some(Error::MissingField));

    let mut no_meta_timestamp = create_delta("day:first:20210705", 1, 100);
    if let Some(v) = no_meta_timestamp.new_value.as_mut() {
        v.timestamp = None;
    }
    assert_eq!(db_out(vec![no_meta_timestamp]).err(), Some(Error::MissingField));

    let no_old = MutationDelta {
        operation: Operation::Update,
        ordinal: 1,
        key: "day:first:20210705".to_string(),
        old_value: None,
        new_value: Some(meta(101)),
    };
    assert_eq!(db_out(vec![no_old]).err(), Some(Error::MissingField));
}

#[test]
fn records_keep_delivery_order() {
    let deltas = vec![
        create_delta("day:first:20210705", 3, 100),
        create_delta("month:first:202107", 1, 100),
        MutationDelta {
            operation: Operation::Update,
            ordinal: 2,
            key: "day:first:20210705".to_string(),
            old_value: Some(meta(100)),
            new_value: Some(meta(101)),
        },
    ];
    let changes = db_out(deltas).unwrap();
    assert_eq!(changes.table_changes.len(), 3);
    assert_eq!(changes.table_changes[0].pk, "day:first:20210705");
    assert_eq!(changes.table_changes[0].ordinal, 3);
    assert_eq!(changes.table_changes[1].pk, "month:first:202107");
    assert_eq!(changes.table_changes[1].ordinal, 1);
    assert_eq!(changes.table_changes[2].pk, "day:first:20210705");
    assert_eq!(changes.table_changes[2].ordinal, 2);
    assert_eq!(changes.table_changes[2].operation, Operation::Update);
}

#[test]
fn abort_emits_no_partial_record() {
    let mut changes = DatabaseChanges::default();
    let deltas = vec![
        create_delta("day:first:20210705", 1, 100),
        MutationDelta {
            operation: Operation::Delete,
            ordinal: 2,
            key: "day:first:20210705".to_string(),
            old_value: Some(meta(100)),
            new_value: None,
        },
        create_delta("month:first:202107", 3, 100),
    ];
    let r = transform_block_meta_to_database_changes(&mut changes, deltas);
    assert_eq!(r, Err(Error::UnsupportedOperation));
    assert_eq!(changes.table_changes.len(), 1);
    assert_eq!(changes.table_changes[0].ordinal, 1);
}

#[test]
fn empty_bytes_encode_to_the_empty_string() {
    let delta = MutationDelta {
        operation: Operation::Create,
        ordinal: 1,
        key: "day:first:20210705".to_string(),
        old_value: None,
        new_value: Some(BlockMeta {
            number: 0,
            hash: vec![],
            parent_hash: vec![0x00, 0xff],
            timestamp: Some(Timestamp { seconds: 0, nanos: 0 }),
        }),
    };
    let changes = db_out(vec![delta]).unwrap();
    let record = &changes.table_changes[0];
    assert_eq!(record.fields[1].new_value.as_deref(), Some("0"));
    assert_eq!(record.fields[2].new_value.as_deref(), Some(""));
    assert_eq!(record.fields[3].new_value.as_deref(), Some("00ff"));
    assert_eq!(record.fields[4].new_value.as_deref(), Some("1970-01-01T00:00:00Z"));
}
