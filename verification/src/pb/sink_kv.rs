//! Shapes of the key-value sink interface: ordered write operations and the
//! generic query requests and responses.

use vstd::prelude::*;

use crate::digits::str_eq;

verus! {

/// Ordered key-value writes handed to the sink.
#[derive(Clone, Debug)]
pub struct KvOperations {
    pub operations: Vec<KvOperation>,
}

/// One key-value write: the numeric tag mirrors the wire encoding of `Type`.
#[derive(Clone, Debug)]
pub struct KvOperation {
    pub key: String,
    pub value: Vec<u8>,
    pub ordinal: u64,
    pub type_: i32,
}

/// Kind of a key-value write. The unset value exists so a consumer can tell
/// that no kind was actually specified.
#[derive(Clone, Copy, PartialEq, Eq, Structural, Debug)]
pub enum Type {
    Unset,
    SetOp,
    Delete,
}

impl Type {
    /// String value of the enum field names used in the protocol definition.
    pub fn as_str_name(&self) -> (r: &'static str)
        ensures
            *self == Type::Unset ==> r@ == "UNSET"@,
            *self == Type::SetOp ==> r@ == "SET"@,
            *self == Type::Delete ==> r@ == "DELETE"@,
    {
        match self {
            Type::Unset => "UNSET",
            Type::SetOp => "SET",
            Type::Delete => "DELETE",
        }
    }

    /// Creates the kind from a field name used in the protocol definition.
    pub fn from_str_name(value: &str) -> (r: Option<Type>)
        ensures
            value@ == "UNSET"@ ==> r == Some(Type::Unset),
            value@ == "SET"@ ==> r == Some(Type::SetOp),
            value@ == "DELETE"@ ==> r == Some(Type::Delete),
            value@ != "UNSET"@ && value@ != "SET"@ && value@ != "DELETE"@ ==> r is None,
    {
        proof {
            reveal_strlit("UNSET");
            reveal_strlit("SET");
            reveal_strlit("DELETE");
            assert("UNSET"@.len() == 5);
            assert("SET"@.len() == 3);
            assert("DELETE"@.len() == 6);
        }
        if str_eq(value, "UNSET") {
            Some(Type::Unset)
        } else if str_eq(value, "SET") {
            Some(Type::SetOp)
        } else if str_eq(value, "DELETE") {
            Some(Type::Delete)
        } else {
            None
        }
    }
}

#[derive(Clone, Debug)]
pub struct GetRequest {
    pub key: String,
}

#[derive(Clone, Debug)]
pub struct GetManyRequest {
    pub keys: Vec<String>,
}

#[derive(Clone, Debug)]
pub struct GetByPrefixRequest {
    pub limit: u64,
    pub prefix: String,
}

#[derive(Clone, Debug)]
pub struct ScanRequest {
    pub limit: u64,
    pub begin: String,
    pub exclusive_end: Option<String>,
}

#[derive(Clone, Debug)]
pub struct GetResponse {
    pub value: Vec<u8>,
}

#[derive(Clone, Debug)]
pub struct GetManyResponse {
    pub values: Vec<Vec<u8>>,
}

#[derive(Clone, Debug)]
pub struct GetByPrefixResponse {
    pub key_values: Vec<Kv>,
    pub limit_reached: bool,
}

#[derive(Clone, Debug)]
pub struct ScanResponse {
    pub key_values: Vec<Kv>,
    pub limit_reached: bool,
}

#[derive(Clone, Debug)]
pub struct Kv {
    pub key: String,
    pub value: Vec<u8>,
}

#[derive(Clone, Debug)]
pub struct Config {
    pub start_block: i64,
    pub input_module: String,
}

/// A sink queried through the generic key access interface.
#[derive(Clone, Debug)]
pub struct GenericService {
    pub sink_config: Option<Config>,
}

/// A sink queried through a WASM query module.
#[derive(Clone, Debug)]
pub struct WasmQueryService {
    pub sink_config: Option<Config>,
    pub wasm_query_module: Vec<u8>,
    pub grpc_service: String,
}

} // verus!
