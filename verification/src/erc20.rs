//! A ledger of one asset: balances by account, and allowances by owner and spender.
//!
//! A transfer moves an amount between two balances and leaves the sum of all balances as
//! it was. That sum always fits the machine type, which is what shows that no credit
//! overflows.
//!
//! A delegated transfer is gated by the payer's balance, not by an allowance approved
//! earlier, and it records what the payer has left as the allowance of the payee. An
//! approval is bounded by the owner's balance at the time and replaces the allowance.

use crate::balances::BalanceMap;
use crate::totals::{
    amount_at, credited, debited, lemma_total_bounds_one, lemma_total_credited,
    lemma_total_debited, lemma_total_empty, lemma_total_insert, total,
};
use crate::{AccountId, Balance};
use std::collections::BTreeMap;
use vstd::prelude::*;

verus! {

broadcast use {vstd::std_specs::btree::group_btree_axioms, vstd::laws_cmp::group_laws_cmp};

/// What the ledger reports of an operation that succeeded.
#[derive(Clone, Copy, Debug, PartialEq, Eq, Structural)]
pub enum Event {
    /// The amount moved from the first account to the second.
    Transfer(AccountId, AccountId, Balance),
    /// The first account approved the amount for the second.
    Approve(AccountId, AccountId, Balance),
}

/// Why the ledger refused an operation.
#[derive(Clone, Copy, Debug, PartialEq, Eq, Structural)]
pub enum Error {
    /// The balance does not cover the amount.
    InsufficientBalance,
    /// The payer's balance does not cover a delegated transfer.
    InsufficientAllowance,
}

/// An operation on the ledger with its arguments.
pub enum Call {
    /// `who` pays `value` to `to`.
    Transfer { who: AccountId, to: AccountId, value: Balance },
    /// `caller` has `from` pay `value` to `to`.
    TransferFrom { caller: AccountId, from: AccountId, to: AccountId, value: Balance },
    /// `who` approves `value` for `spender`.
    Allowance { who: AccountId, spender: AccountId, value: Balance },
}

/// The ledger: the recorded total supply, a balance for each account, an allowance for
/// each pair of owner and spender, and the events reported so far.
pub ghost struct Ledger {
    pub total_supply: Option<Balance>,
    pub balances: Map<AccountId, nat>,
    pub allowances: Map<(AccountId, AccountId), Balance>,
    pub events: Seq<Event>,
}

impl Ledger {
    /// The ledger in which nothing is recorded.
    pub open spec fn empty() -> Ledger {
        Ledger {
            total_supply: None,
            balances: Map::empty(),
            allowances: Map::empty(),
            events: Seq::empty(),
        }
    }

    /// The balance of `who`: zero for an account that the ledger does not know.
    pub open spec fn balance_of(self, who: AccountId) -> nat {
        amount_at(self.balances, who)
    }

    /// The sum of all balances.
    pub open spec fn total_balance(self) -> nat {
        total(self.balances)
    }

    /// The balances are finitely many and their sum fits the machine type.
    pub open spec fn wf(self) -> bool {
        &&& self.balances.dom().finite()
        &&& self.total_balance() <= Balance::MAX
    }

    /// The balances after `value` has moved from `from` to `to`. With `from == to` the
    /// balance ends as it began.
    pub open spec fn moved(self, from: AccountId, to: AccountId, value: Balance) -> Map<
        AccountId,
        nat,
    > {
        credited(debited(self.balances, from, value as nat), to, value as nat)
    }

    /// A transfer is refused exactly where the payer's balance does not cover it.
    pub open spec fn transfer_outcome(self, from: AccountId, value: Balance) -> Result<(), Error> {
        if self.balance_of(from) < value {
            Err(Error::InsufficientBalance)
        } else {
            Ok(())
        }
    }

    /// The ledger after a transfer: the amount has moved and the event is reported, or
    /// nothing has changed where the transfer is refused.
    pub open spec fn after_transfer(self, from: AccountId, to: AccountId, value: Balance) -> Ledger {
        if self.transfer_outcome(from, value) is Ok {
            Ledger {
                balances: self.moved(from, to, value),
                events: self.events.push(Event::Transfer(from, to, value)),
                ..self
            }
        } else {
            self
        }
    }

    /// An approval is refused exactly where the owner's balance is below the amount.
    pub open spec fn approve_outcome(self, owner: AccountId, value: Balance) -> Result<(), Error> {
        if self.balance_of(owner) < value {
            Err(Error::InsufficientBalance)
        } else {
            Ok(())
        }
    }

    /// The ledger after an approval: the allowance of the pair is the amount, whatever it
    /// was, and the event is reported; or nothing has changed where the approval is
    /// refused.
    pub open spec fn after_approve(self, owner: AccountId, spender: AccountId, value: Balance)
        -> Ledger {
        if self.approve_outcome(owner, value) is Ok {
            Ledger {
                allowances: self.allowances.insert((owner, spender), value),
                events: self.events.push(Event::Approve(owner, spender, value)),
                ..self
            }
        } else {
            self
        }
    }

    /// A delegated transfer is refused exactly where the payer's balance does not cover
    /// it. No allowance is looked at.
    pub open spec fn transfer_from_outcome(self, from: AccountId, value: Balance) -> Result<
        (),
        Error,
    > {
        if self.balance_of(from) < value {
            Err(Error::InsufficientAllowance)
        } else {
            Ok(())
        }
    }

    /// The ledger after a delegated transfer: the allowance of payer and payee is what the
    /// payer has left, and the amount has moved as in a transfer; or nothing has changed
    /// where it is refused.
    pub open spec fn after_transfer_from(self, from: AccountId, to: AccountId, value: Balance)
        -> Ledger {
        if self.transfer_from_outcome(from, value) is Ok {
            Ledger {
                allowances: self.allowances.insert(
                    (from, to),
                    (self.balance_of(from) - value) as Balance,
                ),
                ..self
            }.after_transfer(from, to, value)
        } else {
            self
        }
    }

    /// The ledger after a call.
    pub open spec fn after(self, call: Call) -> Ledger {
        match call {
            Call::Transfer { who, to, value } => self.after_transfer(who, to, value),
            Call::TransferFrom { caller, from, to, value } => self.after_transfer_from(
                from,
                to,
                value,
            ),
            Call::Allowance { who, spender, value } => self.after_approve(who, spender, value),
        }
    }

    /// The ledger after a sequence of calls, made one after the other.
    pub open spec fn after_all(self, calls: Seq<Call>) -> Ledger
        decreases calls.len(),
    {
        if calls.len() == 0 {
            self
        } else {
            self.after_all(calls.drop_last()).after(calls.last())
        }
    }

    /// A transfer that is not refused takes the amount from the payer, gives it to the
    /// payee and touches no other balance; the payer's balance covers what is taken, so
    /// none goes below zero. The sum of all balances stays as it was.
    pub proof fn lemma_transfer(self, from: AccountId, to: AccountId, value: Balance)
        requires
            self.wf(),
        ensures
            self.after_transfer(from, to, value).wf(),
            self.after_transfer(from, to, value).total_balance() == self.total_balance(),
            forall|who: AccountId|
                #[trigger] self.after_transfer(from, to, value).balance_of(who) <= Balance::MAX,
            self.transfer_outcome(from, value) is Ok ==> {
                let after = self.after_transfer(from, to, value);
                &&& value <= self.balance_of(from)
                &&& forall|who: AccountId|
                    #[trigger] after.balance_of(who) == self.balance_of(who) - (if who == from {
                        value as int
                    } else {
                        0
                    }) + (if who == to {
                        value as int
                    } else {
                        0
                    })
            },
    {
        if self.transfer_outcome(from, value) is Ok {
            let taken = debited(self.balances, from, value as nat);
            lemma_total_debited(self.balances, from, value as nat);
            lemma_total_credited(taken, to, value as nat);
        }
        let after = self.after_transfer(from, to, value);
        assert forall|who: AccountId| #[trigger] after.balance_of(who) <= Balance::MAX by {
            lemma_total_bounds_one(after.balances, who);
        }
    }
}

impl Ledger {
    /// Whatever the call and whether or not it is refused, the ledger stays well formed
    /// and the sum of all balances stays as it was.
    pub proof fn lemma_after(self, call: Call)
        requires
            self.wf(),
        ensures
            self.after(call).wf(),
            self.after(call).total_balance() == self.total_balance(),
    {
        match call {
            Call::Transfer { who, to, value } => {
                self.lemma_transfer(who, to, value);
            },
            Call::TransferFrom { caller, from, to, value } => {
                if self.transfer_from_outcome(from, value) is Ok {
                    let noted = Ledger {
                        allowances: self.allowances.insert(
                            (from, to),
                            (self.balance_of(from) - value) as Balance,
                        ),
                        ..self
                    };
                    noted.lemma_transfer(from, to, value);
                }
            },
            Call::Allowance { who, spender, value } => {},
        }
    }

    /// Conservation: over any sequence of transfers, delegated transfers and approvals,
    /// refused or not, the sum of all balances stays as it was. With it the ledger stays
    /// well formed, so that every balance is a natural number that fits the machine type.
    pub proof fn lemma_total_is_conserved(self, calls: Seq<Call>)
        requires
            self.wf(),
        ensures
            self.after_all(calls).wf(),
            self.after_all(calls).total_balance() == self.total_balance(),
            forall|who: AccountId|
                0 <= #[trigger] self.after_all(calls).balance_of(who) <= Balance::MAX,
        decreases calls.len(),
    {
        if calls.len() > 0 {
            self.lemma_total_is_conserved(calls.drop_last());
            self.after_all(calls.drop_last()).lemma_after(calls.last());
        }
        let after = self.after_all(calls);
        assert forall|who: AccountId| 0 <= #[trigger] after.balance_of(who) <= Balance::MAX by {
            lemma_total_bounds_one(after.balances, who);
        }
    }
}

/// The executable ledger.
pub struct Pallet {
    total_supply: Option<Balance>,
    balances: BalanceMap,
    circulating: Balance,
    allowances: BTreeMap<(AccountId, AccountId), Balance>,
    events: Vec<Event>,
}

impl View for Pallet {
    type V = Ledger;

    closed spec fn view(&self) -> Ledger {
        Ledger {
            total_supply: self.total_supply,
            balances: self.balances@,
            allowances: self.allowances@,
            events: self.events@,
        }
    }
}

impl Pallet {
    /// The sum of all balances as the ledger keeps count of it.
    pub closed spec fn counted(&self) -> nat {
        self.circulating as nat
    }

    /// The ledger is well formed and the count of the sum of all balances is right.
    pub open spec fn wf(&self) -> bool {
        &&& self@.wf()
        &&& self.counted() == self@.total_balance()
    }

    /// A ledger in which nothing is recorded.
    pub fn new() -> (r: Self)
        ensures
            r.wf(),
            r@ == Ledger::empty(),
            r@.total_balance() == 0,
    {
        proof {
            lemma_total_empty::<AccountId>();
        }
        Pallet {
            total_supply: None,
            balances: BalanceMap::new(),
            circulating: 0,
            allowances: BTreeMap::new(),
            events: Vec::new(),
        }
    }

    /// The recorded total supply. No operation but [`Pallet::set_total_supply`] writes it,
    /// so it need not be the sum of all balances.
    pub fn total_supply_of(&self) -> (r: Option<Balance>)
        ensures
            r == self@.total_supply,
    {
        self.total_supply
    }

    /// Records `value` as the total supply.
    pub fn set_total_supply(&mut self, value: Balance)
        ensures
            final(self)@ == (Ledger { total_supply: Some(value), ..old(self)@ }),
            final(self).wf() == old(self).wf(),
    {
        self.total_supply = Some(value);
    }

    /// The balance of `who`: zero for an account that the ledger does not know.
    pub fn balance_of(&self, who: AccountId) -> (r: Balance)
        ensures
            r == self@.balance_of(who),
    {
        self.balances.get(who)
    }

    /// The allowance that is recorded for `owner` and `spender`, if any is.
    pub fn allowance_of(&self, owner: AccountId, spender: AccountId) -> (r: Option<Balance>)
        ensures
            r == (if self@.allowances.contains_key((owner, spender)) {
                Some(self@.allowances[(owner, spender)])
            } else {
                None
            }),
    {
        match self.allowances.get(&(owner, spender)) {
            Some(value) => Some(*value),
            None => None,
        }
    }

    /// The sum of all balances.
    pub fn total_balance(&self) -> (r: Balance)
        requires
            self.wf(),
        ensures
            r == self@.total_balance(),
    {
        self.circulating
    }

    /// Writes `amount` as the balance of `who`, unless the sum of all balances would
    /// outgrow the machine type. Returns whether the balance was written.
    pub fn set_balance(&mut self, who: AccountId, amount: Balance) -> (written: bool)
        requires
            old(self).wf(),
        ensures
            final(self).wf(),
            written == (old(self)@.total_balance() - old(self)@.balance_of(who) + amount
                <= Balance::MAX),
            final(self)@ == (if written {
                Ledger { balances: old(self)@.balances.insert(who, amount as nat), ..old(self)@ }
            } else {
                old(self)@
            }),
            written ==> final(self)@.total_balance() == old(self)@.total_balance() - old(
                self,
            )@.balance_of(who) + amount,
    {
        proof {
            lemma_total_bounds_one(self@.balances, who);
            lemma_total_insert(self@.balances, who, amount as nat);
        }
        let others = self.circulating - self.balances.get(who);
        match others.checked_add(amount) {
            None => false,
            Some(sum) => {
                self.balances.set(who, amount);
                self.circulating = sum;
                true
            },
        }
    }

    /// Hands out the events reported since the last call, oldest first.
    pub fn take_events(&mut self) -> (events: Vec<Event>)
        ensures
            events@ == old(self)@.events,
            final(self)@ == (Ledger { events: Seq::empty(), ..old(self)@ }),
            final(self).wf() == old(self).wf(),
    {
        let mut events = Vec::new();
        std::mem::swap(&mut self.events, &mut events);
        events
    }

    /// Moves `value` from the balance of `from` to the balance of `to` and reports the
    /// transfer. Refused, with nothing changed, where the balance of `from` does not
    /// cover `value`. With `from == to` the balance must still cover `value`, ends as it
    /// began, and the transfer is reported.
    pub fn transfer_help(&mut self, from: AccountId, to: AccountId, value: Balance) -> (result:
        Result<(), Error>)
        requires
            old(self).wf(),
        ensures
            final(self).wf(),
            result == old(self)@.transfer_outcome(from, value),
            final(self)@ == old(self)@.after_transfer(from, to, value),
            final(self)@.total_balance() == old(self)@.total_balance(),
    {
        proof {
            self@.lemma_transfer(from, to, value);
            assert(self@.after_transfer(from, to, value).balance_of(to) <= Balance::MAX);
        }
        let from_balance = self.balances.get(from);
        if from_balance < value {
            return Err(Error::InsufficientBalance);
        }
        self.balances.debit(from, value);
        self.balances.credit(to, value);
        self.events.push(Event::Transfer(from, to, value));
        Ok(())
    }

    /// Pays `value` from the balance of the caller `who` to `to`.
    pub fn transfer(&mut self, who: AccountId, to: AccountId, value: Balance) -> (result: Result<
        (),
        Error,
    >)
        requires
            old(self).wf(),
        ensures
            final(self).wf(),
            result == old(self)@.transfer_outcome(who, value),
            final(self)@ == old(self)@.after_transfer(who, to, value),
            final(self)@.total_balance() == old(self)@.total_balance(),
    {
        self.transfer_help(who, to, value)
    }

    /// Pays `value` from the balance of `from` to `to` on behalf of a caller.
    ///
    /// The payer's balance gates the transfer; no allowance approved earlier is looked
    /// at, and the caller need not be a spender that `from` approved. What the payer has
    /// left is recorded as the allowance of `from` for `to`.
    pub fn transfer_from(
        &mut self,
        _caller: AccountId,
        from: AccountId,
        to: AccountId,
        value: Balance,
    ) -> (result: Result<(), Error>)
        requires
            old(self).wf(),
        ensures
            final(self).wf(),
            result == old(self)@.transfer_from_outcome(from, value),
            final(self)@ == old(self)@.after_transfer_from(from, to, value),
            final(self)@.total_balance() == old(self)@.total_balance(),
    {
        let from_balance = self.balances.get(from);
        if from_balance < value {
            return Err(Error::InsufficientAllowance);
        }
        self.allowances.insert((from, to), from_balance - value);
        self.transfer_help(from, to, value)
    }

    /// Approves `value` of the balance of the caller `who` for `spender`.
    ///
    /// Refused where the balance of `who` is below `value`. Otherwise `value` replaces
    /// whatever allowance was recorded for the pair, and the approval is reported.
    pub fn allowance(&mut self, who: AccountId, spender: AccountId, value: Balance) -> (result:
        Result<(), Error>)
        requires
            old(self).wf(),
        ensures
            final(self).wf(),
            result == old(self)@.approve_outcome(who, value),
            final(self)@ == old(self)@.after_approve(who, spender, value),
            final(self)@.total_balance() == old(self)@.total_balance(),
    {
        let who_balance = self.balances.get(who);
        if who_balance < value {
            return Err(Error::InsufficientBalance);
        }
        self.allowances.insert((who, spender), value);
        self.events.push(Event::Approve(who, spender, value));
        Ok(())
    }
}

} // verus!
