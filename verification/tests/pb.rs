use eth_block_meta::pb::sink_kv::{Kv, KvOperation, KvOperations, Type};
use eth_block_meta::pb::sink_types::{KvKeys, KvPair, KvPairs};

#[test]
fn type_names_round_trip() {
    assert_eq!(Type::Unset.as_str_name(), "UNSET");
    assert_eq!(Type::SetOp.as_str_name(), "SET");
    assert_eq!(Type::Delete.as_str_name(), "DELETE");

    assert_eq!(Type::from_str_name("UNSET"), Some(Type::Unset));
    assert_eq!(Type::from_str_name("SET"), Some(Type::SetOp));
    assert_eq!(Type::from_str_name("DELETE"), Some(Type::Delete));
    assert_eq!(Type::from_str_name("DELETED"), None);
    assert_eq!(Type::from_str_name("set"), None);
    assert_eq!(Type::from_str_name(""), None);

    for t in [Type::Unset, Type::SetOp, Type::Delete] {
        assert_eq!(Type::from_str_name(t.as_str_name()), Some(t));
    }
}

#[test]
fn kv_shapes_hold_their_fields() {
    let op = KvOperation {
        key: "day:first:20210705".to_string(),
        value: vec![1, 2, 3],
        ordinal: 4,
        type_: 1,
    };
    let ops = KvOperations { operations: vec![op] };
    assert_eq!(ops.operations.len(), 1);
    assert_eq!(ops.operations[0].ordinal, 4);

    let pairs = KvPairs {
        pairs: vec![KvPair { key: "k".to_string(), value: vec![9] }],
    };
    assert_eq!(pairs.pairs[0].value, vec![9]);

    let keys = KvKeys { keys: vec!["a".to_string(), "b".to_string()] };
    assert_eq!(keys.keys.len(), 2);

    let kv = Kv { key: "k".to_string(), value: vec![] };
    assert_eq!(kv.key, "k");
}
