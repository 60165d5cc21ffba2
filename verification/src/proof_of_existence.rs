//! The proof of existence module: lets accounts claim the existence of some
//! content, identified by a key, and enforces that only a claim's owner can
//! revoke it.

use vstd::prelude::*;

verus! {

use crate::storage::StorageMap;
use crate::support::{DispatchError, DispatchResult};
use crate::{AccountId, Content};

/// What creating a claim on `claim` reports under registry `m`: it fails
/// exactly when the key already has an owner, regardless of who.
pub open spec fn spec_create_result(m: Map<Seq<char>, AccountId>, claim: Seq<char>) -> DispatchResult {
    if m.contains_key(claim) {
        Err(DispatchError::ClaimAlreadyExists)
    } else {
        Ok(())
    }
}

/// The registry creating a claim leaves behind: unchanged on failure, with
/// `caller` recorded as the owner of `claim` on success.
pub open spec fn spec_create_map(
    m: Map<Seq<char>, AccountId>,
    caller: AccountId,
    claim: Seq<char>,
) -> Map<Seq<char>, AccountId> {
    if m.contains_key(claim) {
        m
    } else {
        m.insert(claim, caller)
    }
}

/// What revoking a claim on `claim` reports under registry `m`: it fails
/// with `ClaimNotFound` when the key has no owner, and with `NotClaimOwner`
/// when the stored owner differs from the caller.
pub open spec fn spec_revoke_result(
    m: Map<Seq<char>, AccountId>,
    caller: Seq<char>,
    claim: Seq<char>,
) -> DispatchResult {
    if !m.contains_key(claim) {
        Err(DispatchError::ClaimNotFound)
    } else if m[claim]@ != caller {
        Err(DispatchError::NotClaimOwner)
    } else {
        Ok(())
    }
}

/// The registry revoking a claim leaves behind: unchanged on failure, with
/// the entry for `claim` removed on success.
pub open spec fn spec_revoke_map(
    m: Map<Seq<char>, AccountId>,
    caller: Seq<char>,
    claim: Seq<char>,
) -> Map<Seq<char>, AccountId> {
    if spec_revoke_result(m, caller, claim) is Ok {
        m.remove(claim)
    } else {
        m
    }
}

/// A claim that went through is exclusive: any further creation of the same
/// claim fails with `ClaimAlreadyExists`, whoever asks, and the recorded
/// owner stays as it was.
pub proof fn lemma_create_claim_is_exclusive(
    m: Map<Seq<char>, AccountId>,
    first: AccountId,
    second: AccountId,
    claim: Seq<char>,
)
    requires
        !m.contains_key(claim),
    ensures
        spec_create_result(spec_create_map(m, first, claim), claim) == Err::<
            (),
            DispatchError,
        >(DispatchError::ClaimAlreadyExists),
        spec_create_map(spec_create_map(m, first, claim), second, claim) == spec_create_map(
            m,
            first,
            claim,
        ),
        spec_create_map(m, first, claim)[claim] == first,
{
}

/// Only the owner can revoke: after `owner` claims `claim`, revocation by
/// any other account fails with `NotClaimOwner` and changes nothing, while
/// revocation by the owner succeeds and removes the claim.
pub proof fn lemma_revoke_claim_ownership(
    m: Map<Seq<char>, AccountId>,
    owner: AccountId,
    other: Seq<char>,
    claim: Seq<char>,
)
    requires
        !m.contains_key(claim),
        other != owner@,
    ensures
        spec_revoke_result(spec_create_map(m, owner, claim), other, claim) == Err::<
            (),
            DispatchError,
        >(DispatchError::NotClaimOwner),
        spec_revoke_map(spec_create_map(m, owner, claim), other, claim) == spec_create_map(
            m,
            owner,
            claim,
        ),
        spec_revoke_result(spec_create_map(m, owner, claim), owner@, claim) is Ok,
        !spec_revoke_map(spec_create_map(m, owner, claim), owner@, claim).contains_key(claim),
{
}

/// The proof of existence module's state: a mapping from claimed content
/// keys to the account owning the claim. A key has at most one owner.
#[derive(Debug)]
pub struct Pallet {
    claims: StorageMap<AccountId>,
}

impl View for Pallet {
    type V = Map<Seq<char>, AccountId>;

    closed spec fn view(&self) -> Map<Seq<char>, AccountId> {
        self.claims@
    }
}

impl Pallet {
    /// An empty claim registry.
    pub fn new() -> (r: Self)
        ensures
            r@ == Map::<Seq<char>, AccountId>::empty(),
    {
        Pallet { claims: StorageMap::new() }
    }

    /// The owner (if any) of the claim on `claim`. No side effects.
    pub fn get_claim(&self, claim: &Content) -> (r: Option<&AccountId>)
        ensures
            match r {
                Some(owner) => self@.contains_key(claim@) && *owner == self@[claim@],
                None => !self@.contains_key(claim@),
            },
    {
        self.claims.get(claim)
    }

    /// Create a claim on `claim` on behalf of `caller`. Fails with
    /// `ClaimAlreadyExists` if someone already claimed that content; a
    /// failed call mutates nothing.
    pub fn create_claim(&mut self, caller: AccountId, claim: Content) -> (r: DispatchResult)
        ensures
            r == spec_create_result(old(self)@, claim@),
            final(self)@ == spec_create_map(old(self)@, caller, claim@),
            r is Ok <==> !old(self)@.contains_key(claim@),
            r is Ok ==> final(self)@ == old(self)@.insert(claim@, caller),
            r is Err ==> *final(self) == *old(self),
    {
        match self.claims.get(&claim) {
            Some(_) => Err(DispatchError::ClaimAlreadyExists),
            None => {
                self.claims.insert(claim, caller);
                Ok(())
            },
        }
    }

    /// Revoke the claim on `claim` on behalf of `caller`. Succeeds only if
    /// `caller` owns an existing claim on that content; a failed call
    /// mutates nothing.
    pub fn revoke_claim(&mut self, caller: AccountId, claim: Content) -> (r: DispatchResult)
        ensures
            r == spec_revoke_result(old(self)@, caller@, claim@),
            final(self)@ == spec_revoke_map(old(self)@, caller@, claim@),
            r is Ok <==> old(self)@.contains_key(claim@) && old(self)@[claim@]@ == caller@,
            r is Ok ==> final(self)@ == old(self)@.remove(claim@),
            r is Err ==> *final(self) == *old(self),
    {
        let claim_owner = match self.claims.get(&claim) {
            Some(owner) => owner,
            None => {
                return Err(DispatchError::ClaimNotFound);
            },
        };
        if !(*claim_owner == caller) {
            return Err(DispatchError::NotClaimOwner);
        }
        self.claims.remove(&claim);
        Ok(())
    }
}

/// The calls the proof of existence module exposes to the dispatcher. The
/// caller of each call is provided by the dispatcher, not listed as a field.
pub enum Call {
    CreateClaim { claim: Content },
    RevokeClaim { claim: Content },
}

impl Pallet {
    /// Route `call` to the claims operation it names, on behalf of `caller`,
    /// propagating the operation's outcome unchanged.
    pub fn dispatch(&mut self, caller: AccountId, call: Call) -> (r: DispatchResult)
        ensures
            call matches Call::CreateClaim { claim } ==> r == spec_create_result(
                old(self)@,
                claim@,
            ) && final(self)@ == spec_create_map(old(self)@, caller, claim@),
            call matches Call::RevokeClaim { claim } ==> r == spec_revoke_result(
                old(self)@,
                caller@,
                claim@,
            ) && final(self)@ == spec_revoke_map(old(self)@, caller@, claim@),
            r is Err ==> *final(self) == *old(self),
    {
        match call {
            Call::CreateClaim { claim } => self.create_claim(caller, claim),
            Call::RevokeClaim { claim } => self.revoke_claim(caller, claim),
        }
    }
}

} // verus!
