//! The shared subsidy pool drawn on for network-wide energy top-ups.

use vstd::prelude::*;
use crate::fixmath::min_int;

verus! {

/// A network-wide fund holding a token total in milli-units.
#[derive(Clone, Copy, Debug)]
pub struct NetworkFund {
    pub total: u64,
}

impl NetworkFund {
    /// The fund starts empty.
    pub fn new() -> (f: NetworkFund)
        ensures
            f.total == 0,
    {
        NetworkFund { total: 0 }
    }

    /// Top the fund up by `amount`, saturating at the representable maximum.
    pub fn add(&mut self, amount: u64)
        ensures
            final(self).total == min_int(u64::MAX as int, old(self).total + amount),
    {
        self.total = self.total.saturating_add(amount);
    }

    /// Draw `amount` down if the fund covers it; refuse otherwise.
    pub fn draw(&mut self, amount: u64) -> (ok: bool)
        ensures
            ok == (old(self).total >= amount),
            ok ==> final(self).total == old(self).total - amount,
            !ok ==> *final(self) == *old(self),
    {
        if self.total >= amount {
            self.total = self.total - amount;
            true
        } else {
            false
        }
    }

    /// Read the current total.
    pub fn get_balance(&self) -> (b: u64)
        ensures
            b == self.total,
    {
        self.total
    }
}

} // verus!
