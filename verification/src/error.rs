//! The failures this stage reports. All are contract violations of the data
//! handed in; none is recoverable here.

use vstd::prelude::*;

verus! {

#[derive(Clone, Copy, PartialEq, Eq, Structural, Debug)]
pub enum Error {
    /// A bucket key that no encoder produces: wrong shape, wrong granularity
    /// or boundary word, or an impossible calendar date.
    InvalidKey,
    /// An inbound block misses its header, its timestamp, or a delta misses a
    /// value its operation promises.
    MissingField,
    /// A delta operation outside create and update reached the builder.
    UnsupportedOperation,
    /// A block timestamp that resolves to no calendar date this stage can key.
    InvalidTimestamp,
}

impl Error {
    /// A short description, for hosts that log the abort.
    pub fn message(&self) -> (r: &'static str)
        ensures
            *self == Error::InvalidKey ==> r@ == "invalid key"@,
            *self == Error::MissingField ==> r@ == "missing field"@,
            *self == Error::UnsupportedOperation ==> r@ == "unsupported operation"@,
            *self == Error::InvalidTimestamp ==> r@ == "invalid timestamp"@,
    {
        match self {
            Error::InvalidKey => "invalid key",
            Error::MissingField => "missing field",
            Error::UnsupportedOperation => "unsupported operation",
            Error::InvalidTimestamp => "invalid timestamp",
        }
    }
}

} // verus!
