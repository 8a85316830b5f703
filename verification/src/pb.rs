//! Plain shapes of the records this stage exchanges over its protobuf
//! interfaces; the host maps them to and from its wire types.

pub mod block_meta;
pub mod sink_kv;
pub mod sink_types;
