use vstd::prelude::*;

verus! {

/// Error taxonomy of the transport core.
///
/// Wire parsing failures surface as `Invalid`, `InvalidData` or
/// `TLVTypeMismatch`; resource exhaustion as `NoSpace`; certificate chain
/// verification as `InvalidAuthKey` or `InvalidSignature`; lookups that
/// find nothing as `NoSession`, `NoExchange`, `NoNodeId` or `NoFabricId`.
#[derive(Clone, Copy, Debug, PartialEq, Eq, Structural)]
pub enum Error {
    NoSpace,
    Invalid,
    InvalidData,
    InvalidState,
    InvalidAuthKey,
    InvalidSignature,
    InvalidKeyLength,
    NoSession,
    NoExchange,
    NoNodeId,
    NoFabricId,
    TLVTypeMismatch,
    CommandNotFound,
}

} // verus!
