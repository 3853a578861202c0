use vstd::prelude::*;

use crate::id::Id;

verus! {

/// An account: an identifier and a non-negative balance. Credits and debits
/// never wrap silently; a credit that would overflow and a debit without
/// strictly sufficient funds are both reported as `None` and leave the
/// balance unchanged.
#[derive(Debug)]
pub struct User {
    uid: Id,
    balance: u128,
}

impl User {
    /// The account's identifier.
    pub closed spec fn spec_uid(self) -> Id {
        self.uid
    }

    /// The account's balance.
    pub closed spec fn spec_balance(self) -> u128 {
        self.balance
    }

    /// Open an account with a fresh identifier and the given balance.
    pub fn new(balance: u128) -> (r: User)
        ensures
            r.spec_balance() == balance,
    {
        User { uid: Id::new(), balance }
    }

    /// Credit the account. Returns `Some(amount)` and adds `amount` to the
    /// balance when the sum fits; returns `None` and leaves the balance
    /// unchanged on overflow.
    pub fn inc(&mut self, amount: u128) -> (r: Option<u128>)
        ensures
            final(self).spec_uid() == old(self).spec_uid(),
            old(self).spec_balance() + amount <= u128::MAX ==> {
                &&& r == Some(amount)
                &&& final(self).spec_balance() == old(self).spec_balance() + amount
            },
            old(self).spec_balance() + amount > u128::MAX ==> {
                &&& r is None
                &&& final(self).spec_balance() == old(self).spec_balance()
            },
    {
        if amount <= u128::MAX - self.balance {
            self.balance = self.balance + amount;
            Some(amount)
        } else {
            None
        }
    }

    /// Debit the account. Succeeds only with strictly sufficient funds:
    /// returns `Some(amount)` and subtracts when `balance > amount`, and
    /// `None` with the balance unchanged otherwise.
    pub fn dec(&mut self, amount: u128) -> (r: Option<u128>)
        ensures
            final(self).spec_uid() == old(self).spec_uid(),
            old(self).spec_balance() > amount ==> {
                &&& r == Some(amount)
                &&& final(self).spec_balance() == old(self).spec_balance() - amount
            },
            old(self).spec_balance() <= amount ==> {
                &&& r is None
                &&& final(self).spec_balance() == old(self).spec_balance()
            },
    {
        if self.balance > amount {
            self.balance = self.balance - amount;
            Some(amount)
        } else {
            None
        }
    }

    /// The account's identifier.
    pub fn get_uid(&self) -> (r: Id)
        ensures
            r == self.spec_uid(),
    {
        self.uid
    }

    /// The account's balance.
    pub fn get_balance(&self) -> (r: u128)
        ensures
            r == self.spec_balance(),
    {
        self.balance
    }
}

} // verus!
