//! The balances module: keeps track of how much value each account holds,
//! and moves value between accounts with overflow- and underflow-checked
//! transfers.

use vstd::prelude::*;

verus! {

use crate::storage::{StorageMap, lemma_map_of_index};
use crate::support::{DispatchError, DispatchResult};
use crate::{AccountId, Balance};

/// The balance an account holds under ledger `m`: accounts absent from the
/// mapping hold zero.
pub open spec fn balance_of(m: Map<Seq<char>, Balance>, a: Seq<char>) -> Balance {
    if m.contains_key(a) {
        m[a]
    } else {
        0
    }
}

/// The sum of the balances listed in `s`.
pub open spec fn sum_values(s: Seq<(Seq<char>, Balance)>) -> int
    decreases s.len(),
{
    if s.len() == 0 {
        0
    } else {
        sum_values(s.drop_last()) + s.last().1
    }
}

/// Replacing the balance at entry `i` shifts the sum by the difference.
pub proof fn lemma_sum_update(s: Seq<(Seq<char>, Balance)>, i: int, p: (Seq<char>, Balance))
    requires
        0 <= i < s.len(),
    ensures
        sum_values(s.update(i, p)) == sum_values(s) - s[i].1 + p.1,
    decreases s.len(),
{
    let t = s.update(i, p);
    if i == s.len() - 1 {
        assert(t.drop_last() =~= s.drop_last());
    } else {
        assert(t.drop_last() =~= s.drop_last().update(i, p));
        assert(s.drop_last()[i] == s[i]);
        lemma_sum_update(s.drop_last(), i, p);
        assert(t.last() == s.last());
    }
}

/// Appending an entry adds its balance to the sum.
pub proof fn lemma_sum_push(s: Seq<(Seq<char>, Balance)>, p: (Seq<char>, Balance))
    ensures
        sum_values(s.push(p)) == sum_values(s) + p.1,
{
    assert(s.push(p).drop_last() =~= s);
}

/// What a transfer of `amount` from `caller` to `to` reports on ledger `m`.
pub open spec fn spec_transfer_result(
    m: Map<Seq<char>, Balance>,
    caller: Seq<char>,
    to: Seq<char>,
    amount: Balance,
) -> DispatchResult {
    if amount > balance_of(m, caller) {
        Err(DispatchError::InsufficientFunds)
    } else if balance_of(m, to) + amount > u128::MAX {
        Err(DispatchError::Overflow)
    } else {
        Ok(())
    }
}

/// The ledger a transfer of `amount` from `caller` to `to` leaves behind:
/// unchanged on failure, and with the amount moved on success. A transfer to
/// oneself leaves every balance as it was.
pub open spec fn spec_transfer_map(
    m: Map<Seq<char>, Balance>,
    caller: Seq<char>,
    to: Seq<char>,
    amount: Balance,
) -> Map<Seq<char>, Balance> {
    if spec_transfer_result(m, caller, to, amount) is Ok {
        if caller == to {
            m.insert(caller, balance_of(m, caller))
        } else {
            m.insert(caller, (balance_of(m, caller) - amount) as Balance).insert(
                to,
                (balance_of(m, to) + amount) as Balance,
            )
        }
    } else {
        m
    }
}

/// Setting an account's balance and then reading that account yields
/// exactly the amount set, whether or not the account was set before.
pub proof fn lemma_set_balance_then_balance(m: Map<Seq<char>, Balance>, a: Seq<char>, n: Balance)
    ensures
        balance_of(m.insert(a, n), a) == n,
{
}

/// A transfer and its exact reverse, both succeeding, restore every
/// account's balance to its pre-transfer value.
pub proof fn lemma_transfer_round_trip(
    m: Map<Seq<char>, Balance>,
    a: Seq<char>,
    b: Seq<char>,
    x: Balance,
)
    requires
        spec_transfer_result(m, a, b, x) is Ok,
        spec_transfer_result(spec_transfer_map(m, a, b, x), b, a, x) is Ok,
    ensures
        forall|c: Seq<char>|
            balance_of(spec_transfer_map(spec_transfer_map(m, a, b, x), b, a, x), c)
                == balance_of(m, c),
{
}

/// The balances module's state: a mapping from accounts to their balances.
#[derive(Debug)]
pub struct Pallet {
    pub balances: StorageMap<Balance>,
}

impl Pallet {
    /// The balance stored for account contents `a`, zero if `a` is unknown.
    pub open spec fn spec_balance(self, a: Seq<char>) -> Balance {
        balance_of(self.balances@, a)
    }

    /// The ledger's total balance, summed over all known accounts.
    pub open spec fn total(self) -> int {
        sum_values(self.balances.pairs())
    }

    /// An empty ledger: every account holds zero.
    pub fn new() -> (r: Self)
        ensures
            r.balances@ == Map::<Seq<char>, Balance>::empty(),
            forall|a: Seq<char>| r.spec_balance(a) == 0,
            r.total() == 0,
    {
        Pallet { balances: StorageMap::new() }
    }

    /// Unconditionally overwrite (or insert) the balance of `who`. Used for
    /// genesis-style initialization; not reachable through dispatch.
    pub fn set_balance(&mut self, who: &AccountId, amount: Balance)
        ensures
            final(self).balances@ == old(self).balances@.insert(who@, amount),
            final(self).spec_balance(who@) == amount,
            forall|a: Seq<char>| a != who@ ==> final(self).spec_balance(a) == old(
                self,
            ).spec_balance(a),
            final(self).total() == old(self).total() - old(self).spec_balance(who@) + amount,
    {
        proof {
            use_type_invariant(&self.balances);
        }
        let ghost old_pairs = self.balances.pairs();
        let ghost old_map = self.balances@;
        self.balances.insert(who.clone(), amount);
        proof {
            if old_map.contains_key(who@) {
                let i = choose|i: int|
                    0 <= i < old_pairs.len() && old_pairs[i].0 == who@ && self.balances.pairs()
                        == old_pairs.update(i, (who@, amount));
                lemma_map_of_index(old_pairs, i);
                lemma_sum_update(old_pairs, i, (who@, amount));
            } else {
                lemma_sum_push(old_pairs, (who@, amount));
            }
        }
    }

    /// The balance of `who`, or zero if the account is unknown. No side
    /// effects, never fails.
    pub fn balance(&self, who: &AccountId) -> (r: Balance)
        ensures
            r == self.spec_balance(who@),
    {
        match self.balances.get(who) {
            Some(b) => *b,
            None => 0,
        }
    }

    /// Transfer `amount` from `caller` to `to`. Fails with
    /// `InsufficientFunds` when `caller` holds less than `amount`, and with
    /// `Overflow` when the transfer would push the balance of `to` past the
    /// maximum representable value; a failed transfer mutates nothing. A
    /// successful transfer moves the amount and keeps the ledger's total
    /// balance unchanged.
    pub fn transfer(&mut self, caller: AccountId, to: AccountId, amount: Balance) -> (r:
        DispatchResult)
        ensures
            r == spec_transfer_result(old(self).balances@, caller@, to@, amount),
            final(self).balances@ == spec_transfer_map(old(self).balances@, caller@, to@, amount),
            r is Ok <==> amount <= old(self).spec_balance(caller@) && old(self).spec_balance(to@)
                + amount <= u128::MAX,
            r is Err ==> *final(self) == *old(self),
            r is Ok && caller@ != to@ ==> final(self).spec_balance(caller@) == old(
                self,
            ).spec_balance(caller@) - amount && final(self).spec_balance(to@) == old(
                self,
            ).spec_balance(to@) + amount,
            r is Ok && caller@ == to@ ==> final(self).spec_balance(caller@) == old(
                self,
            ).spec_balance(caller@),
            forall|a: Seq<char>|
                a != caller@ && a != to@ ==> final(self).spec_balance(a) == old(self).spec_balance(
                    a,
                ),
            r is Ok ==> final(self).total() == old(self).total(),
    {
        let caller_balance = self.balance(&caller);
        let to_balance = self.balance(&to);

        let new_caller_balance = match caller_balance.checked_sub(amount) {
            Some(v) => v,
            None => {
                return Err(DispatchError::InsufficientFunds);
            },
        };
        match to_balance.checked_add(amount) {
            Some(_) => {},
            None => {
                return Err(DispatchError::Overflow);
            },
        }

        self.set_balance(&caller, new_caller_balance);
        let to_balance_now = self.balance(&to);
        self.set_balance(&to, to_balance_now + amount);

        proof {
            assert(self.balances@ =~= spec_transfer_map(old(self).balances@, caller@, to@, amount));
        }
        Ok(())
    }
}

/// The calls the balances module exposes to the dispatcher. The caller of
/// each call is provided by the dispatcher, not listed as a field.
pub enum Call {
    Transfer { to: AccountId, amount: Balance },
}

impl Pallet {
    /// Route `call` to the balances operation it names, on behalf of
    /// `caller`, propagating the operation's outcome unchanged.
    pub fn dispatch(&mut self, caller: AccountId, call: Call) -> (r: DispatchResult)
        ensures
            call matches Call::Transfer { to, amount } ==> {
                &&& r == spec_transfer_result(old(self).balances@, caller@, to@, amount)
                &&& final(self).balances@ == spec_transfer_map(
                    old(self).balances@,
                    caller@,
                    to@,
                    amount,
                )
                &&& (r is Ok ==> final(self).total() == old(self).total())
                &&& (r is Err ==> *final(self) == *old(self))
            },
    {
        match call {
            Call::Transfer { to, amount } => self.transfer(caller, to, amount),
        }
    }
}

} // verus!
