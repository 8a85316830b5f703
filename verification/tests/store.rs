use eth_block_meta::block::{Block, BlockHeader, Timestamp};
use eth_block_meta::error::Error;
use eth_block_meta::pb::block_meta::BlockMeta;
use eth_block_meta::store::MetaStore;
use eth_block_meta::store_block_meta_start;

fn meta(number: u64) -> BlockMeta {
    BlockMeta {
        number,
        hash: vec![number as u8],
        parent_hash: vec![],
        timestamp: Some(Timestamp { seconds: 1625480514, nanos: 0 }),
    }
}

fn block(number: u64, seconds: i64) -> Block {
    Block {
        number,
        hash: vec![number as u8],
        header: Some(BlockHeader {
            parent_hash: vec![0xcd],
            timestamp: Some(Timestamp { seconds, nanos: 0 }),
        }),
    }
}

#[test]
fn first_write_wins() {
    let mut store = MetaStore::new();
    store.set_if_not_exists(1, "day:first:20210705".to_string(), &meta(100));
    assert_eq!(store.len(), 1);
    assert_eq!(store.get("day:first:20210705").unwrap().number, 100);

    // Offering a value to an already-populated key never changes the store.
    store.set_if_not_exists(2, "day:first:20210705".to_string(), &meta(101));
    assert_eq!(store.len(), 1);
    assert_eq!(store.get("day:first:20210705").unwrap().number, 100);

    store.set_if_not_exists(3, "month:first:202107".to_string(), &meta(101));
    assert_eq!(store.len(), 2);
    assert_eq!(store.get("month:first:202107").unwrap().number, 101);
    assert!(store.get("day:last:20210705").is_none());
}

#[test]
fn a_block_is_stored_under_its_day_and_month_keys() {
    let mut store = MetaStore::new();
    // 2021-07-05 10:21:54 UTC.
    store_block_meta_start(&block(100, 1625480514), &mut store).unwrap();
    assert_eq!(store.len(), 2);
    assert_eq!(store.get("day:first:20210705").unwrap().number, 100);
    assert_eq!(store.get("month:first:202107").unwrap().number, 100);

    // A later block of the same day changes nothing.
    store_block_meta_start(&block(101, 1625480520), &mut store).unwrap();
    assert_eq!(store.len(), 2);
    assert_eq!(store.get("day:first:20210705").unwrap().number, 100);

    // A later block of another day in the same month adds only the day key.
    store_block_meta_start(&block(102, 1625480514 + 86400), &mut store).unwrap();
    assert_eq!(store.len(), 3);
    assert_eq!(store.get("day:first:20210706").unwrap().number, 102);
    assert_eq!(store.get("month:first:202107").unwrap().number, 100);
}

#[test]
fn a_block_without_header_or_timestamp_stores_nothing() {
    let mut store = MetaStore::new();
    let no_header = Block { number: 1, hash: vec![], header: None };
    assert_eq!(store_block_meta_start(&no_header, &mut store), Err(Error::MissingField));

    let no_timestamp = Block {
        number: 1,
        hash: vec![],
        header: Some(BlockHeader { parent_hash: vec![], timestamp: None }),
    };
    assert_eq!(store_block_meta_start(&no_timestamp, &mut store), Err(Error::MissingField));
    assert_eq!(store.len(), 0);
}
