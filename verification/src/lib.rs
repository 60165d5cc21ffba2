//! A minimal modular state-machine runtime: a composable ledger kernel in
//! which independent modules (balances, system sequencing, proof of
//! existence) each own a slice of state and are driven through a uniform
//! dispatch surface by a sequential block-execution loop.

pub mod balances;
pub mod proof_of_existence;
pub mod storage;
pub mod support;
pub mod system;

use vstd::prelude::*;

verus! {

/// Identity of a participant in the state machine.
pub type AccountId = String;

/// A non-negative quantity of value held by an account.
pub type Balance = u128;

/// Height of the chain of blocks processed so far.
pub type BlockNumber = u128;

/// Count of extrinsics attributed to one account.
pub type Nonce = u32;

/// Content identifier that an account can claim ownership of.
pub type Content = String;

/// The block header shape the runtime executes.
pub type Header = support::Header<BlockNumber>;

/// The extrinsic shape the runtime executes: a runtime call on behalf of an
/// account.
pub type Extrinsic = support::Extrinsic<AccountId, RuntimeCall>;

/// The block shape the runtime executes.
pub type Block = support::Block<Header, Extrinsic>;

/// The abstract state of the whole runtime: one slice per module, each read
/// off that module's own state.
#[verifier::ext_equal]
pub struct StateView {
    pub balances: Map<Seq<char>, Balance>,
    pub block_number: BlockNumber,
    pub nonces: Map<Seq<char>, Nonce>,
    pub claims: Map<Seq<char>, AccountId>,
}

/// All the calls exposed to the world: the union of the calls exposed by
/// each module, tagged by the owning module.
pub enum RuntimeCall {
    Balances(balances::Call),
    ProofOfExistence(proof_of_existence::Call),
}

/// The main runtime: it composes one instance of each module and is the
/// single owner of all module state.
#[derive(Debug)]
pub struct Runtime {
    pub system: system::Pallet,
    pub balances: balances::Pallet,
    pub proof_of_existence: proof_of_existence::Pallet,
}

impl View for Runtime {
    type V = StateView;

    open spec fn view(&self) -> StateView {
        StateView {
            balances: self.balances.balances@,
            block_number: self.system.block_number,
            nonces: self.system.nonce@,
            claims: self.proof_of_existence@,
        }
    }
}

/// What dispatching `call` on behalf of `caller` reports in state `s`.
pub open spec fn spec_dispatch_result(s: StateView, caller: AccountId, call: RuntimeCall) -> support::DispatchResult {
    match call {
        RuntimeCall::Balances(balances::Call::Transfer { to, amount }) => balances::spec_transfer_result(
            s.balances,
            caller@,
            to@,
            amount,
        ),
        RuntimeCall::ProofOfExistence(proof_of_existence::Call::CreateClaim { claim }) => proof_of_existence::spec_create_result(
            s.claims,
            claim@,
        ),
        RuntimeCall::ProofOfExistence(proof_of_existence::Call::RevokeClaim { claim }) => proof_of_existence::spec_revoke_result(
            s.claims,
            caller@,
            claim@,
        ),
    }
}

/// The state dispatching `call` on behalf of `caller` leaves behind: only
/// the owning module's slice changes, and only as that module's own
/// operation says.
pub open spec fn spec_dispatch_state(s: StateView, caller: AccountId, call: RuntimeCall) -> StateView {
    match call {
        RuntimeCall::Balances(balances::Call::Transfer { to, amount }) => StateView {
            balances: balances::spec_transfer_map(s.balances, caller@, to@, amount),
            ..s
        },
        RuntimeCall::ProofOfExistence(proof_of_existence::Call::CreateClaim { claim }) => StateView {
            claims: proof_of_existence::spec_create_map(s.claims, caller, claim@),
            ..s
        },
        RuntimeCall::ProofOfExistence(proof_of_existence::Call::RevokeClaim { claim }) => StateView {
            claims: proof_of_existence::spec_revoke_map(s.claims, caller@, claim@),
            ..s
        },
    }
}

/// The state one extrinsic leaves behind: the caller's nonce advances by
/// one first, unconditionally, and then the call is dispatched, whether or
/// not it can succeed.
pub open spec fn spec_apply_extrinsic(s: StateView, ext: Extrinsic) -> StateView {
    let advanced = StateView {
        nonces: s.nonces.insert(
            ext.caller@,
            (system::nonce_of(s.nonces, ext.caller@) + 1) as Nonce,
        ),
        ..s
    };
    spec_dispatch_state(advanced, ext.caller, ext.call)
}

/// The state an ordered batch of extrinsics leaves behind, applied front to
/// back.
pub open spec fn spec_apply_extrinsics(s: StateView, exts: Seq<Extrinsic>) -> StateView
    decreases exts.len(),
{
    if exts.len() == 0 {
        s
    } else {
        spec_apply_extrinsics(spec_apply_extrinsic(s, exts[0]), exts.skip(1))
    }
}

/// How many extrinsics of `exts` are issued by the account with contents
/// `a`.
pub open spec fn occurrences(exts: Seq<Extrinsic>, a: Seq<char>) -> nat
    decreases exts.len(),
{
    if exts.len() == 0 {
        0
    } else {
        (if exts[0].caller@ == a {
            1nat
        } else {
            0nat
        }) + occurrences(exts.skip(1), a)
    }
}

/// Dispatching a call never touches the sequencing slice: the block number
/// and every nonce are exactly as before.
pub proof fn lemma_dispatch_preserves_sequencing(s: StateView, caller: AccountId, call: RuntimeCall)
    ensures
        spec_dispatch_state(s, caller, call).nonces == s.nonces,
        spec_dispatch_state(s, caller, call).block_number == s.block_number,
{
}

/// Applying one extrinsic advances the caller's nonce by exactly one, and
/// nobody else's, whether or not the dispatched call succeeds.
pub proof fn lemma_extrinsic_advances_nonce(s: StateView, ext: Extrinsic)
    requires
        system::nonce_of(s.nonces, ext.caller@) < Nonce::MAX,
    ensures
        system::nonce_of(spec_apply_extrinsic(s, ext).nonces, ext.caller@) == system::nonce_of(
            s.nonces,
            ext.caller@,
        ) + 1,
        forall|a: Seq<char>|
            a != ext.caller@ ==> system::nonce_of(spec_apply_extrinsic(s, ext).nonces, a)
                == system::nonce_of(s.nonces, a),
{
    let advanced = StateView {
        nonces: s.nonces.insert(
            ext.caller@,
            (system::nonce_of(s.nonces, ext.caller@) + 1) as Nonce,
        ),
        ..s
    };
    lemma_dispatch_preserves_sequencing(advanced, ext.caller, ext.call);
}

/// Applying a batch of extrinsics advances each account's nonce by exactly
/// the number of extrinsics that account issued, whether or not the
/// dispatched calls succeed, as long as no nonce can overflow.
pub proof fn lemma_extrinsics_advance_nonces(s: StateView, exts: Seq<Extrinsic>)
    requires
        forall|a: Seq<char>| system::nonce_of(s.nonces, a) + occurrences(exts, a) <= Nonce::MAX,
    ensures
        forall|a: Seq<char>|
            system::nonce_of(spec_apply_extrinsics(s, exts).nonces, a) == system::nonce_of(
                s.nonces,
                a,
            ) + occurrences(exts, a),
    decreases exts.len(),
{
    if exts.len() > 0 {
        let ext = exts[0];
        let s1 = spec_apply_extrinsic(s, ext);
        assert(occurrences(exts, ext.caller@) >= 1) by {
            lemma_occurrences_nonneg(exts.skip(1), ext.caller@);
        }
        assert(system::nonce_of(s.nonces, ext.caller@) + occurrences(exts, ext.caller@)
            <= Nonce::MAX);
        lemma_extrinsic_advances_nonce(s, ext);
        assert forall|a: Seq<char>|
            system::nonce_of(s1.nonces, a) + occurrences(exts.skip(1), a) <= Nonce::MAX by {
            assert(system::nonce_of(s.nonces, a) + occurrences(exts, a) <= Nonce::MAX);
        }
        lemma_extrinsics_advance_nonces(s1, exts.skip(1));
        assert forall|a: Seq<char>|
            system::nonce_of(spec_apply_extrinsics(s, exts).nonces, a) == system::nonce_of(
                s.nonces,
                a,
            ) + occurrences(exts, a) by {
            assert(system::nonce_of(spec_apply_extrinsics(s1, exts.skip(1)).nonces, a)
                == system::nonce_of(s1.nonces, a) + occurrences(exts.skip(1), a));
        }
    }
}

impl Runtime {
    /// A new runtime instance: every module starts with empty state, every
    /// account's balance and nonce read as zero, the block number is zero,
    /// and no content is claimed.
    pub fn new() -> (r: Self)
        ensures
            r@.block_number == 0,
            r@.balances == Map::<Seq<char>, Balance>::empty(),
            r@.nonces == Map::<Seq<char>, Nonce>::empty(),
            r@.claims == Map::<Seq<char>, AccountId>::empty(),
            forall|a: Seq<char>|
                balances::balance_of(r@.balances, a) == 0 && system::nonce_of(r@.nonces, a) == 0,
    {
        Runtime {
            system: system::Pallet::new(),
            balances: balances::Pallet::new(),
            proof_of_existence: proof_of_existence::Pallet::new(),
        }
    }

    /// Dispatch a call on behalf of a caller: route it to the owning module
    /// and propagate that module's outcome unchanged. No call mints or
    /// burns value — the ledger's total balance stays as it was — and a
    /// failed call mutates nothing at all.
    pub fn dispatch(&mut self, caller: AccountId, runtime_call: RuntimeCall) -> (r:
        support::DispatchResult)
        ensures
            r == spec_dispatch_result(old(self)@, caller, runtime_call),
            final(self)@ == spec_dispatch_state(old(self)@, caller, runtime_call),
            final(self).balances.total() == old(self).balances.total(),
            r is Err ==> *final(self) == *old(self),
    {
        let result = match runtime_call {
            RuntimeCall::Balances(call) => self.balances.dispatch(caller, call),
            RuntimeCall::ProofOfExistence(call) => self.proof_of_existence.dispatch(caller, call),
        };
        proof {
            assert(self@ =~= spec_dispatch_state(old(self)@, caller, runtime_call));
        }
        result
    }

    /// Execute a block: advance the block number, check it against the
    /// block's declared header value, and apply each extrinsic in listed
    /// order, advancing the caller's nonce before each dispatch.
    ///
    /// A header mismatch aborts the whole block with `BlockNumberMismatch`
    /// and applies no extrinsic; the block-number increment from the first
    /// step is deliberately not rolled back. A failing extrinsic never
    /// aborts the block: once every extrinsic has been attempted the call
    /// reports success, however many individually failed.
    pub fn execute_block(&mut self, block: Block) -> (r: support::DispatchResult)
        requires
            old(self).system.block_number < BlockNumber::MAX,
            block.header.block_number == old(self).system.block_number + 1 ==> forall|a: Seq<char>|
                system::nonce_of(old(self)@.nonces, a) + occurrences(block.extrinsics@, a)
                    <= Nonce::MAX,
        ensures
            r is Ok <==> block.header.block_number == old(self).system.block_number + 1,
            r is Err ==> r == Err::<(), support::DispatchError>(
                support::DispatchError::BlockNumberMismatch,
            ),
            r is Err ==> final(self)@ == (StateView {
                block_number: (old(self)@.block_number + 1) as BlockNumber,
                ..old(self)@
            }),
            r is Ok ==> final(self)@ == spec_apply_extrinsics(
                StateView { block_number: (old(self)@.block_number + 1) as BlockNumber, ..old(self)@ },
                block.extrinsics@,
            ),
            final(self).balances.total() == old(self).balances.total(),
    {
        self.system.inc_block_number();

        if self.system.block_number() != block.header.block_number {
            proof {
                assert(self@ =~= (StateView {
                    block_number: (old(self)@.block_number + 1) as BlockNumber,
                    ..old(self)@
                }));
            }
            return Err(support::DispatchError::BlockNumberMismatch);
        }

        let ghost start = self@;
        proof {
            assert(start =~= (StateView {
                block_number: (old(self)@.block_number + 1) as BlockNumber,
                ..old(self)@
            }));
        }
        let mut extrinsics = block.extrinsics;
        let ghost all = extrinsics@;

        while extrinsics.len() > 0
            invariant
                spec_apply_extrinsics(start, all) == spec_apply_extrinsics(self@, extrinsics@),
                forall|a: Seq<char>|
                    system::nonce_of(self@.nonces, a) + occurrences(extrinsics@, a)
                        == system::nonce_of(start.nonces, a) + occurrences(all, a),
                forall|a: Seq<char>|
                    system::nonce_of(start.nonces, a) + occurrences(all, a) <= Nonce::MAX,
                self.balances.total() == old(self).balances.total(),
            decreases extrinsics.len(),
        {
            let ghost pre_exts = extrinsics@;
            let ghost pre_state = self@;
            let ext = extrinsics.remove(0);
            let ghost gext = ext;
            proof {
                assert(extrinsics@ =~= pre_exts.skip(1));
                assert(occurrences(pre_exts, gext.caller@) >= 1) by {
                    lemma_occurrences_nonneg(pre_exts.skip(1), gext.caller@);
                }
                assert(system::nonce_of(pre_state.nonces, gext.caller@) + occurrences(
                    pre_exts,
                    gext.caller@,
                ) == system::nonce_of(start.nonces, gext.caller@) + occurrences(
                    all,
                    gext.caller@,
                ));
                assert(system::nonce_of(pre_state.nonces, gext.caller@) < Nonce::MAX);
            }
            self.system.inc_nonce(&ext.caller);
            let ghost advanced = self@;
            let _ = self.dispatch(ext.caller, ext.call);
            proof {
                assert(advanced =~= (StateView {
                    nonces: pre_state.nonces.insert(
                        gext.caller@,
                        (system::nonce_of(pre_state.nonces, gext.caller@) + 1) as Nonce,
                    ),
                    ..pre_state
                }));
                assert(self@ == spec_apply_extrinsic(pre_state, gext));
                assert(pre_exts[0] == gext);
                lemma_extrinsic_advances_nonce(pre_state, gext);
            }
        }
        proof {
            assert(extrinsics@.len() == 0);
            assert(spec_apply_extrinsics(self@, extrinsics@) == self@);
        }
        Ok(())
    }
}

/// An extrinsic count is never negative.
pub proof fn lemma_occurrences_nonneg(exts: Seq<Extrinsic>, a: Seq<char>)
    ensures
        occurrences(exts, a) >= 0,
{
}

/// No account issues more extrinsics than the block holds.
pub proof fn lemma_occurrences_le_len(exts: Seq<Extrinsic>, a: Seq<char>)
    ensures
        occurrences(exts, a) <= exts.len(),
    decreases exts.len(),
{
    if exts.len() > 0 {
        lemma_occurrences_le_len(exts.skip(1), a);
    }
}

} // verus!
