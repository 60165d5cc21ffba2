//! The system module: low level sequencing state for the state machine. It
//! owns the current block number and, per account, a nonce counting the
//! extrinsics attributed to that account.

use vstd::prelude::*;

verus! {

use crate::storage::StorageMap;
use crate::{AccountId, BlockNumber, Nonce};

/// The nonce an account holds under `m`: accounts absent from the mapping
/// read as zero.
pub open spec fn nonce_of(m: Map<Seq<char>, Nonce>, a: Seq<char>) -> Nonce {
    if m.contains_key(a) {
        m[a]
    } else {
        0
    }
}

/// The system module's state: the current block number and the per-account
/// nonce mapping.
#[derive(Debug)]
pub struct Pallet {
    pub block_number: BlockNumber,
    pub nonce: StorageMap<Nonce>,
}

impl Pallet {
    /// The nonce stored for account contents `a`, zero if `a` is unknown.
    pub open spec fn spec_nonce(self, a: Seq<char>) -> Nonce {
        nonce_of(self.nonce@, a)
    }

    /// Fresh sequencing state: block number zero, every nonce zero.
    pub fn new() -> (r: Self)
        ensures
            r.block_number == 0,
            r.nonce@ == Map::<Seq<char>, Nonce>::empty(),
            forall|a: Seq<char>| r.spec_nonce(a) == 0,
    {
        Pallet { block_number: 0, nonce: StorageMap::new() }
    }

    /// The current block number. No side effects.
    pub fn block_number(&self) -> (r: BlockNumber)
        ensures
            r == self.block_number,
    {
        self.block_number
    }

    /// Increase the block number by one. Block-height overflow is treated as
    /// a system invariant violation, not a recoverable outcome, so the
    /// height below the maximum is demanded of the caller.
    pub fn inc_block_number(&mut self)
        requires
            old(self).block_number < BlockNumber::MAX,
        ensures
            final(self).block_number == old(self).block_number + 1,
            final(self).nonce == old(self).nonce,
    {
        self.block_number = self.block_number + 1;
    }

    /// Increment the nonce of `who`, keeping track of how many extrinsics
    /// that account has issued. Nonce overflow is a reachable failure, so
    /// the nonce below the maximum is demanded of the caller.
    pub fn inc_nonce(&mut self, who: &AccountId)
        requires
            old(self).spec_nonce(who@) < Nonce::MAX,
        ensures
            final(self).nonce@ == old(self).nonce@.insert(
                who@,
                (old(self).spec_nonce(who@) + 1) as Nonce,
            ),
            final(self).spec_nonce(who@) == old(self).spec_nonce(who@) + 1,
            forall|a: Seq<char>|
                a != who@ ==> final(self).spec_nonce(a) == old(self).spec_nonce(a),
            final(self).block_number == old(self).block_number,
    {
        let nonce = self.get_nonce(who);
        self.nonce.insert(who.clone(), nonce + 1);
    }

    /// The nonce of `who`, or zero if the account is unknown. No side
    /// effects.
    pub fn get_nonce(&self, who: &AccountId) -> (r: Nonce)
        ensures
            r == self.spec_nonce(who@),
    {
        match self.nonce.get(who) {
            Some(n) => *n,
            None => 0,
        }
    }
}

} // verus!
