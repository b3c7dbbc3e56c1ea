use std::collections::HashMap;
use vstd::prelude::*;

use crate::types::{AccountId, Balance, Error};

verus! {

broadcast use vstd::std_specs::hash::group_hash_axioms;

/// The abstract contents of a ledger: a balance per account (an account
/// missing from the map holds nothing) and the least balance an account must
/// keep when it pays.
pub struct LedgerView {
    pub balances: Map<AccountId, Balance>,
    pub existential_deposit: Balance,
}

/// What `who` holds.
pub open spec fn balance_of(v: LedgerView, who: AccountId) -> Balance {
    if v.balances.contains_key(who) {
        v.balances[who]
    } else {
        0
    }
}

/// `v` with the balance of `who` set to `amount`.
pub open spec fn with_balance(v: LedgerView, who: AccountId, amount: Balance) -> LedgerView {
    LedgerView { balances: v.balances.insert(who, amount), ..v }
}

/// The outcome of moving `amount` from `from` to `to`, where the payer must keep
/// at least the existential deposit. Moving nothing, or moving to oneself,
/// succeeds and changes nothing.
pub open spec fn transfer_outcome(v: LedgerView, from: AccountId, to: AccountId, amount: int) -> Result<
    LedgerView,
    Error,
> {
    if amount == 0 || from == to {
        Ok(v)
    } else if balance_of(v, from) < amount + v.existential_deposit {
        Err(Error::InsufficientFunds)
    } else if balance_of(v, to) + amount > u64::MAX {
        Err(Error::BalanceOverflow)
    } else {
        Ok(
            with_balance(
                with_balance(v, from, (balance_of(v, from) - amount) as Balance),
                to,
                (balance_of(v, to) + amount) as Balance,
            ),
        )
    }
}

/// The currency subsystem: account balances and keep-alive transfers.
pub struct Ledger {
    balances: HashMap<AccountId, Balance>,
    existential_deposit: Balance,
}

impl View for Ledger {
    type V = LedgerView;

    closed spec fn view(&self) -> LedgerView {
        LedgerView { balances: self.balances@, existential_deposit: self.existential_deposit }
    }
}

impl Ledger {
    /// A ledger in which no account holds anything.
    pub fn new(existential_deposit: Balance) -> (r: Ledger)
        ensures
            r@.balances == Map::<AccountId, Balance>::empty(),
            r@.existential_deposit == existential_deposit,
    {
        Ledger { balances: HashMap::new(), existential_deposit }
    }

    /// The least balance an account must keep when it pays.
    pub fn existential_deposit(&self) -> (r: Balance)
        ensures
            r == self@.existential_deposit,
    {
        self.existential_deposit
    }

    /// What `who` holds.
    pub fn free_balance(&self, who: AccountId) -> (r: Balance)
        ensures
            r == balance_of(self@, who),
    {
        match self.balances.get(&who) {
            Some(b) => *b,
            None => 0,
        }
    }

    /// Sets what `who` holds, as an endowment does.
    pub fn make_free_balance_be(&mut self, who: AccountId, amount: Balance)
        ensures
            final(self)@ == with_balance(old(self)@, who, amount),
    {
        self.balances.insert(who, amount);
    }

    /// A copy of this ledger.
    pub fn snapshot(&self) -> (r: Ledger)
        ensures
            r@ == self@,
    {
        Ledger { balances: self.balances.clone(), existential_deposit: self.existential_deposit }
    }

    /// Moves `amount` from `from` to `to`; the payer must keep the existential
    /// deposit. On failure nothing changes.
    pub fn transfer(&mut self, from: AccountId, to: AccountId, amount: Balance) -> (r: Result<
        (),
        Error,
    >)
        ensures
            match transfer_outcome(old(self)@, from, to, amount as int) {
                Ok(v) => r is Ok && final(self)@ == v,
                Err(e) => r == Err::<(), Error>(e) && final(self)@ == old(self)@,
            },
    {
        if amount == 0 || from == to {
            return Ok(());
        }
        let from_balance = self.free_balance(from);
        if from_balance < amount || from_balance - amount < self.existential_deposit {
            return Err(Error::InsufficientFunds);
        }
        let to_balance = self.free_balance(to);
        if to_balance > u64::MAX - amount {
            return Err(Error::BalanceOverflow);
        }
        self.make_free_balance_be(from, from_balance - amount);
        self.make_free_balance_be(to, to_balance + amount);
        Ok(())
    }
}

} // verus!
