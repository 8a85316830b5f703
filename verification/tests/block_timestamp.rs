use eth_block_meta::block::{Block, BlockHeader, Timestamp};
use eth_block_meta::block_timestamp::BlockTimestamp;
use eth_block_meta::datetime::DateTime;
use eth_block_meta::error::Error;

fn timestamp(
    year: u32,
    month: u32,
    day: u32,
    hour: u32,
    min: u32,
    sec: u32,
    millis: u32,
) -> BlockTimestamp {
    BlockTimestamp(DateTime::new(year, month, day, hour, min, sec, millis * 1_000_000).unwrap())
}

#[test]
fn it_block_timestamp_try_from_key() {
    assert_eq!(
        BlockTimestamp::from_key("day:first:20150701"),
        timestamp(2015, 07, 01, 00, 00, 00, 000)
    );

    assert_eq!(
        BlockTimestamp::from_key("day:last:20221130"),
        timestamp(2022, 11, 30, 23, 59, 59, 999)
    );
}

#[test]
fn it_block_timestamp_start_of_day() {
    let input = timestamp(2021, 7, 5, 10, 21, 54, 354);
    assert_eq!(input.start_of_day().as_string(), "2021-07-05 00:00:00");
}

#[test]
fn it_block_timestamp_start_of_month() {
    let input = timestamp(2021, 7, 5, 10, 21, 54, 354);
    assert_eq!(input.start_of_month().as_string(), "2021-07-01 00:00:00");
}

#[test]
fn it_block_timestamp_end_of_day() {
    let input = timestamp(2021, 7, 5, 10, 21, 54, 354);
    assert_eq!(input.end_of_day().as_string(), "2021-07-05 23:59:59.999999999");
}

#[test]
fn it_block_timestamp_end_of_month() {
    let input = timestamp(2021, 7, 5, 10, 21, 54, 354);
    assert_eq!(input.end_of_month().as_string(), "2021-07-31 23:59:59.999999999");
}

#[test]
fn keys_of_an_instant() {
    let input = timestamp(2021, 7, 5, 10, 21, 54, 354);
    assert_eq!(input.start_of_day_key(), "day:first:20210705");
    assert_eq!(input.end_of_day_key(), "day:last:20210705");
    assert_eq!(input.start_of_month_key(), "month:first:202107");
    assert_eq!(input.end_of_month_key(), "month:last:202107");
}

#[test]
fn keys_round_trip() {
    let input = timestamp(2021, 7, 5, 10, 21, 54, 354);
    assert_eq!(
        BlockTimestamp::from_key(&input.start_of_day_key()),
        timestamp(2021, 7, 5, 0, 0, 0, 0)
    );
    assert_eq!(
        BlockTimestamp::from_key(&input.end_of_day_key()),
        timestamp(2021, 7, 5, 23, 59, 59, 999)
    );
    assert_eq!(
        BlockTimestamp::from_key(&input.start_of_month_key()),
        timestamp(2021, 7, 1, 0, 0, 0, 0)
    );
    assert_eq!(
        BlockTimestamp::from_key(&input.end_of_month_key()),
        timestamp(2021, 7, 31, 23, 59, 59, 999)
    );
}

#[test]
fn month_end_lengths() {
    // Leap and non-leap February, a 30-day month, and December.
    assert_eq!(
        BlockTimestamp::from_key("month:last:202402"),
        timestamp(2024, 2, 29, 23, 59, 59, 999)
    );
    assert_eq!(
        BlockTimestamp::from_key("month:last:202102"),
        timestamp(2021, 2, 28, 23, 59, 59, 999)
    );
    assert_eq!(
        BlockTimestamp::from_key("month:last:190002"),
        timestamp(1900, 2, 28, 23, 59, 59, 999)
    );
    assert_eq!(
        BlockTimestamp::from_key("month:last:200002"),
        timestamp(2000, 2, 29, 23, 59, 59, 999)
    );
    assert_eq!(
        BlockTimestamp::from_key("month:last:202204"),
        timestamp(2022, 4, 30, 23, 59, 59, 999)
    );
    assert_eq!(
        BlockTimestamp::from_key("month:last:202112"),
        timestamp(2021, 12, 31, 23, 59, 59, 999)
    );
    let december = timestamp(2021, 12, 15, 8, 0, 0, 0);
    assert_eq!(december.end_of_month().as_string(), "2021-12-31 23:59:59.999999999");
}

#[test]
fn invalid_keys_are_reported() {
    for key in [
        "",
        "1435708800000",
        "day",
        "day:first",
        "day:first:",
        "day:first:2021070",
        "day:first:202107055",
        "day:first:202107aa",
        "day:first:20211301",
        "day:first:20210732",
        "day:first:20230229",
        "day:bogus:20210701",
        "day:first:20210701:x",
        "month:first:20210701",
        "month:first:2021",
        "month:first:202113",
        "month:last:202100",
        "week:first:20210705",
        "DAY:first:20210705",
    ] {
        assert_eq!(BlockTimestamp::try_from_key(key), Err(Error::InvalidKey), "key {:?}", key);
    }
}

#[test]
fn from_block_resolves_the_header_timestamp() {
    // 2021-07-05 10:21:54.354 UTC.
    let blk = Block {
        number: 100,
        hash: vec![0xab],
        header: Some(BlockHeader {
            parent_hash: vec![0xcd],
            timestamp: Some(Timestamp { seconds: 1625480514, nanos: 354_000_000 }),
        }),
    };
    let ts = BlockTimestamp::from_block(&blk).unwrap();
    assert_eq!(ts, timestamp(2021, 7, 5, 10, 21, 54, 354));
    assert_eq!(ts.start_of_day_key(), "day:first:20210705");
}

#[test]
fn from_block_reports_missing_fields() {
    let no_header = Block { number: 1, hash: vec![], header: None };
    assert_eq!(BlockTimestamp::from_block(&no_header), Err(Error::MissingField));

    let no_timestamp = Block {
        number: 1,
        hash: vec![],
        header: Some(BlockHeader { parent_hash: vec![], timestamp: None }),
    };
    assert_eq!(BlockTimestamp::from_block(&no_timestamp), Err(Error::MissingField));

    let bad_nanos = Block {
        number: 1,
        hash: vec![],
        header: Some(BlockHeader {
            parent_hash: vec![],
            timestamp: Some(Timestamp { seconds: 0, nanos: -1 }),
        }),
    };
    assert_eq!(BlockTimestamp::from_block(&bad_nanos), Err(Error::InvalidTimestamp));
}
