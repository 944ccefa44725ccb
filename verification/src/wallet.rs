//! Token bookkeeping: a plain balance accumulator owned by each agent.

use vstd::prelude::*;
use crate::fixmath::min_int;

verus! {

/// A wallet holding a token balance in milli-units.
#[derive(Clone, Copy, Debug)]
pub struct Wallet {
    pub balance: u64,
}

impl Wallet {
    /// A fresh wallet starts empty.
    pub fn new() -> (w: Wallet)
        ensures
            w.balance == 0,
    {
        Wallet { balance: 0 }
    }

    /// Credit `amount` to the balance, saturating at the representable maximum.
    pub fn deposit(&mut self, amount: u64)
        ensures
            final(self).balance == min_int(u64::MAX as int, old(self).balance + amount),
    {
        if amount > u64::MAX - self.balance {
            self.balance = u64::MAX;
        } else {
            self.balance = self.balance + amount;
        }
    }

    /// Debit `amount` if the balance covers it; refuse otherwise.
    pub fn withdraw(&mut self, amount: u64) -> (ok: bool)
        ensures
            ok == (old(self).balance >= amount),
            ok ==> final(self).balance == old(self).balance - amount,
            !ok ==> *final(self) == *old(self),
    {
        if self.balance >= amount {
            self.balance = self.balance - amount;
            true
        } else {
            false
        }
    }

    /// Credit `amount` of tokens; same effect as `deposit`.
    pub fn reward(&mut self, amount: u64)
        ensures
            final(self).balance == min_int(u64::MAX as int, old(self).balance + amount),
    {
        self.deposit(amount);
    }

    /// Debit `amount` if the balance covers it; same decision as `withdraw`.
    pub fn spend(&mut self, amount: u64) -> (ok: bool)
        ensures
            ok == (old(self).balance >= amount),
            ok ==> final(self).balance == old(self).balance - amount,
            !ok ==> *final(self) == *old(self),
    {
        self.withdraw(amount)
    }

    /// Read the current balance.
    pub fn get_balance(&self) -> (b: u64)
        ensures
            b == self.balance,
    {
        self.balance
    }
}

} // verus!
