//! The ways in which a governance operation is rejected.

use vstd::prelude::*;

verus! {

/// Why an operation was rejected. A rejected operation changes no state.
#[derive(Clone, Copy, Debug, PartialEq, Eq, Structural)]
pub enum GovError {
    /// The calldata does not have the layout that its selector calls for.
    InvalidProtoMsg,
    /// A field was decoded but is not a value of the type it stands for.
    InvalidGovMsg,
    /// The operation names another protocol than the one it was sent to.
    TargetProtocolMismatch,
    /// The selector is none of the known operations.
    UnsupportedOperation,
    /// Too few distinct keepers signed the operation.
    InsufficientQuorum,
    /// A signature is not a valid signature of a registered keeper.
    InvalidSignature,
    /// A membership set has no room for another address.
    CapacityExceeded,
}

} // verus!
