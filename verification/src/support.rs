//! Shared plumbing for the runtime: the block / extrinsic shapes handed to
//! block execution, and the error taxonomy that every dispatchable operation
//! reports through.

use vstd::prelude::*;

verus! {

/// The ways a state transition can fail. Dispatch layers forward these
/// unchanged; block execution catches the per-extrinsic kinds and returns
/// only the block-level kind to its caller.
#[derive(Clone, Copy, Debug, PartialEq, Eq, Structural)]
pub enum DispatchError {
    /// A transfer's source account lacks the requested amount.
    InsufficientFunds,
    /// A transfer would push the destination balance past the maximum
    /// representable value.
    Overflow,
    /// A claim was created for a key that already has an owner.
    ClaimAlreadyExists,
    /// A claim was revoked for a key that has no owner.
    ClaimNotFound,
    /// A claim was revoked by an account that does not own it.
    NotClaimOwner,
    /// A block's declared header height does not match the runtime's
    /// incremented height.
    BlockNumberMismatch,
}

impl DispatchError {
    /// A human-readable description of the error kind.
    pub fn message(&self) -> &'static str {
        match self {
            DispatchError::InsufficientFunds => "Balance not enough for the transfer",
            DispatchError::Overflow => "Overflow to add balance",
            DispatchError::ClaimAlreadyExists => "Claim already exists",
            DispatchError::ClaimNotFound => "Claim does not exists",
            DispatchError::NotClaimOwner => "Caller is not the owner of the claim",
            DispatchError::BlockNumberMismatch => "Block number mismatch",
        }
    }
}

/// The outcome of dispatching one call: success, or a specific failure kind.
pub type DispatchResult = Result<(), DispatchError>;

/// The declared position of a block in the chain.
#[derive(Debug, PartialEq, Eq, Structural)]
pub struct Header<B> {
    pub block_number: B,
}

/// One externally submitted instruction: a call to execute on behalf of a
/// caller identity.
pub struct Extrinsic<Caller, Call> {
    pub caller: Caller,
    pub call: Call,
}

/// An ordered batch of extrinsics tagged with a declared height.
pub struct Block<H, E> {
    pub header: H,
    pub extrinsics: Vec<E>,
}

} // verus!
