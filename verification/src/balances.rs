//! An account-to-amount table whose view is a map of natural numbers.

use crate::totals::{amount_at, credited, debited};
use crate::{AccountId, Balance};
use std::collections::BTreeMap;
use vstd::prelude::*;

verus! {

broadcast use {vstd::std_specs::btree::group_btree_axioms, vstd::laws_cmp::group_laws_cmp};

/// Amounts by account. An account without an entry holds nothing.
pub struct BalanceMap {
    entries: BTreeMap<AccountId, Balance>,
}

impl View for BalanceMap {
    type V = Map<AccountId, nat>;

    closed spec fn view(&self) -> Map<AccountId, nat> {
        self.entries@.map_values(|v: Balance| v as nat)
    }
}

impl BalanceMap {
    /// A table without entries.
    pub fn new() -> (r: Self)
        ensures
            r@ == Map::<AccountId, nat>::empty(),
    {
        BalanceMap { entries: BTreeMap::new() }
    }

    /// The amount held by `who`.
    pub fn get(&self, who: AccountId) -> (r: Balance)
        ensures
            r == amount_at(self@, who),
    {
        match self.entries.get(&who) {
            Some(v) => *v,
            None => 0,
        }
    }

    /// Writes `amount` as the holding of `who`.
    pub fn set(&mut self, who: AccountId, amount: Balance)
        ensures
            final(self)@ == old(self)@.insert(who, amount as nat),
    {
        self.entries.insert(who, amount);
    }

    /// Adds `amount` to the holding of `who`.
    pub fn credit(&mut self, who: AccountId, amount: Balance)
        requires
            amount_at(old(self)@, who) + amount <= Balance::MAX,
        ensures
            final(self)@ == credited(old(self)@, who, amount as nat),
    {
        let held = self.get(who);
        self.set(who, held + amount);
    }

    /// Takes `amount` from the holding of `who`.
    pub fn debit(&mut self, who: AccountId, amount: Balance)
        requires
            amount <= amount_at(old(self)@, who),
        ensures
            final(self)@ == debited(old(self)@, who, amount as nat),
    {
        let held = self.get(who);
        self.set(who, held - amount);
    }
}

} // verus!
