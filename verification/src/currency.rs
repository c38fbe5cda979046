//! Free and reserved holdings, one book per asset.
//!
//! Funds of an account are either free, and can be transferred, or reserved, and cannot
//! until they are released or repatriated. No operation but a deposit creates funds: the
//! issuance of an asset, the sum of all its free and reserved holdings, stays as it is
//! under every other operation, and always fits the machine type. That bound is what shows
//! that no credit overflows.

use crate::balances::BalanceMap;
use crate::totals::{
    amount_at, credited, debited, lemma_total_bounds_one, lemma_total_credited,
    lemma_total_debited, total,
};
use crate::{AccountId, Balance, CurrencyId};
use std::collections::BTreeMap;
use vstd::prelude::*;

verus! {

broadcast use {vstd::std_specs::btree::group_btree_axioms, vstd::laws_cmp::group_laws_cmp};

/// Why an operation on holdings was refused.
#[derive(Clone, Copy, Debug, PartialEq, Eq, Structural)]
pub enum Error {
    /// The holding to take from does not cover the amount.
    InsufficientBalance,
    /// The issuance of the asset would no longer fit the machine type.
    Overflow,
}

/// The pool of an account that repatriated funds arrive in.
#[derive(Clone, Copy, Debug, PartialEq, Eq, Structural)]
pub enum BalanceStatus {
    /// The funds arrive free.
    Free,
    /// The funds arrive reserved.
    Reserved,
}

/// An operation on the holdings of one asset with its arguments.
pub enum Call {
    /// New free funds for `who`.
    Deposit { who: AccountId, amount: Balance },
    /// Free funds move from `from` to `to`.
    Transfer { from: AccountId, to: AccountId, amount: Balance },
    /// Free funds of `who` are set aside.
    Reserve { who: AccountId, amount: Balance },
    /// Reserved funds of `who` return to its free funds.
    Release { who: AccountId, amount: Balance },
    /// Reserved funds of `from` move to `to`.
    Repatriate { from: AccountId, to: AccountId, amount: Balance, status: BalanceStatus },
}

/// The holdings of one asset: what each account has free and what it has reserved.
pub ghost struct Book {
    pub free: Map<AccountId, nat>,
    pub reserved: Map<AccountId, nat>,
}

impl Book {
    /// The book in which nobody holds anything.
    pub open spec fn empty() -> Book {
        Book { free: Map::empty(), reserved: Map::empty() }
    }

    /// What `who` can spend.
    pub open spec fn free_of(self, who: AccountId) -> nat {
        amount_at(self.free, who)
    }

    /// What is set aside for `who`.
    pub open spec fn reserved_of(self, who: AccountId) -> nat {
        amount_at(self.reserved, who)
    }

    /// All funds of the asset, free and reserved.
    pub open spec fn issuance(self) -> nat {
        total(self.free) + total(self.reserved)
    }

    /// Both tables are finite and the issuance fits the machine type.
    pub open spec fn wf(self) -> bool {
        &&& self.free.dom().finite()
        &&& self.reserved.dom().finite()
        &&& self.issuance() <= Balance::MAX
    }

    /// A deposit is refused exactly where the issuance would outgrow the machine type.
    pub open spec fn deposit_outcome(self, amount: Balance) -> Result<(), Error> {
        if self.issuance() + amount > Balance::MAX {
            Err(Error::Overflow)
        } else {
            Ok(())
        }
    }

    /// The book after a deposit: new free funds for `who`, or no change where refused.
    pub open spec fn after_deposit(self, who: AccountId, amount: Balance) -> Book {
        if self.deposit_outcome(amount) is Ok {
            Book { free: credited(self.free, who, amount as nat), ..self }
        } else {
            self
        }
    }

    /// A transfer is refused exactly where the payer's free funds do not cover it.
    pub open spec fn transfer_outcome(self, from: AccountId, amount: Balance) -> Result<
        (),
        Error,
    > {
        if self.free_of(from) < amount {
            Err(Error::InsufficientBalance)
        } else {
            Ok(())
        }
    }

    /// The book after a transfer: free funds move from `from` to `to`, or nothing moves
    /// where it is refused. With `from == to` the holding ends as it began.
    pub open spec fn after_transfer(self, from: AccountId, to: AccountId, amount: Balance) -> Book {
        if self.transfer_outcome(from, amount) is Ok {
            Book {
                free: credited(debited(self.free, from, amount as nat), to, amount as nat),
                ..self
            }
        } else {
            self
        }
    }

    /// A reservation is refused exactly where the free funds do not cover it.
    pub open spec fn reserve_outcome(self, who: AccountId, amount: Balance) -> Result<(), Error> {
        if self.free_of(who) < amount {
            Err(Error::InsufficientBalance)
        } else {
            Ok(())
        }
    }

    /// The book after a reservation: `amount` moves from free to reserved within `who`.
    pub open spec fn after_reserve(self, who: AccountId, amount: Balance) -> Book {
        if self.reserve_outcome(who, amount) is Ok {
            Book {
                free: debited(self.free, who, amount as nat),
                reserved: credited(self.reserved, who, amount as nat),
            }
        } else {
            self
        }
    }

    /// A release is refused exactly where the reserved funds do not cover it.
    pub open spec fn release_outcome(self, who: AccountId, amount: Balance) -> Result<(), Error> {
        if self.reserved_of(who) < amount {
            Err(Error::InsufficientBalance)
        } else {
            Ok(())
        }
    }

    /// The book after a release: `amount` moves from reserved back to free within `who`.
    pub open spec fn after_release(self, who: AccountId, amount: Balance) -> Book {
        if self.release_outcome(who, amount) is Ok {
            Book {
                free: credited(self.free, who, amount as nat),
                reserved: debited(self.reserved, who, amount as nat),
            }
        } else {
            self
        }
    }

    /// What a repatriation of `amount` out of the reservation of `from` can move: all of
    /// it, or as much as is reserved.
    pub open spec fn repatriated(self, from: AccountId, amount: Balance) -> nat {
        if self.reserved_of(from) < amount {
            self.reserved_of(from)
        } else {
            amount as nat
        }
    }

    /// What a repatriation of `amount` out of the reservation of `from` leaves unmet.
    pub open spec fn shortfall(self, from: AccountId, amount: Balance) -> nat {
        (amount - self.repatriated(from, amount)) as nat
    }

    /// The book after a repatriation: what can be moved leaves the reservation of `from`
    /// and arrives with `to`, free or reserved as `status` says.
    pub open spec fn after_repatriate(
        self,
        from: AccountId,
        to: AccountId,
        amount: Balance,
        status: BalanceStatus,
    ) -> Book {
        let moved = self.repatriated(from, amount);
        let rest = debited(self.reserved, from, moved);
        match status {
            BalanceStatus::Free => Book { free: credited(self.free, to, moved), reserved: rest },
            BalanceStatus::Reserved => Book { free: self.free, reserved: credited(rest, to, moved) },
        }
    }

    /// The empty book is well formed and has issued nothing.
    pub proof fn lemma_empty_wf()
        ensures
            Book::empty().wf(),
            Book::empty().issuance() == 0,
    {
        crate::totals::lemma_total_empty::<AccountId>();
    }

    /// A free and a reserved holding, of one account or of two, together do not exceed the
    /// issuance.
    pub proof fn lemma_holdings_bounded(self, a: AccountId, b: AccountId)
        requires
            self.wf(),
        ensures
            self.free_of(a) + self.reserved_of(b) <= self.issuance(),
    {
        lemma_total_bounds_one(self.free, a);
        lemma_total_bounds_one(self.reserved, b);
    }

    /// A deposit keeps the book well formed and raises the issuance by what it added.
    pub proof fn lemma_deposit(self, who: AccountId, amount: Balance)
        requires
            self.wf(),
        ensures
            self.after_deposit(who, amount).wf(),
            self.deposit_outcome(amount) is Ok ==> self.after_deposit(who, amount).issuance()
                == self.issuance() + amount,
    {
        lemma_total_credited(self.free, who, amount as nat);
    }

    /// A transfer keeps the book well formed and the issuance as it was.
    pub proof fn lemma_transfer(self, from: AccountId, to: AccountId, amount: Balance)
        requires
            self.wf(),
        ensures
            self.after_transfer(from, to, amount).wf(),
            self.after_transfer(from, to, amount).issuance() == self.issuance(),
    {
        if self.transfer_outcome(from, amount) is Ok {
            let taken = debited(self.free, from, amount as nat);
            lemma_total_debited(self.free, from, amount as nat);
            lemma_total_credited(taken, to, amount as nat);
        }
    }

    /// A reservation keeps the book well formed and the issuance as it was.
    pub proof fn lemma_reserve(self, who: AccountId, amount: Balance)
        requires
            self.wf(),
        ensures
            self.after_reserve(who, amount).wf(),
            self.after_reserve(who, amount).issuance() == self.issuance(),
    {
        if self.reserve_outcome(who, amount) is Ok {
            lemma_total_debited(self.free, who, amount as nat);
            lemma_total_credited(self.reserved, who, amount as nat);
        }
    }

    /// A release keeps the book well formed and the issuance as it was.
    pub proof fn lemma_release(self, who: AccountId, amount: Balance)
        requires
            self.wf(),
        ensures
            self.after_release(who, amount).wf(),
            self.after_release(who, amount).issuance() == self.issuance(),
    {
        if self.release_outcome(who, amount) is Ok {
            lemma_total_debited(self.reserved, who, amount as nat);
            lemma_total_credited(self.free, who, amount as nat);
        }
    }

    /// A repatriation keeps the book well formed and the issuance as it was, and what it
    /// moves and what it leaves unmet add up to the amount asked for.
    pub proof fn lemma_repatriate(
        self,
        from: AccountId,
        to: AccountId,
        amount: Balance,
        status: BalanceStatus,
    )
        requires
            self.wf(),
        ensures
            self.after_repatriate(from, to, amount, status).wf(),
            self.after_repatriate(from, to, amount, status).issuance() == self.issuance(),
            self.repatriated(from, amount) + self.shortfall(from, amount) == amount,
            self.repatriated(from, amount) <= self.reserved_of(from),
    {
        let moved = self.repatriated(from, amount);
        let rest = debited(self.reserved, from, moved);
        lemma_total_debited(self.reserved, from, moved);
        lemma_total_credited(self.free, to, moved);
        lemma_total_credited(rest, to, moved);
    }
}

impl Book {
    /// The book after a call.
    pub open spec fn after(self, call: Call) -> Book {
        match call {
            Call::Deposit { who, amount } => self.after_deposit(who, amount),
            Call::Transfer { from, to, amount } => self.after_transfer(from, to, amount),
            Call::Reserve { who, amount } => self.after_reserve(who, amount),
            Call::Release { who, amount } => self.after_release(who, amount),
            Call::Repatriate { from, to, amount, status } => self.after_repatriate(
                from,
                to,
                amount,
                status,
            ),
        }
    }

    /// The book after a sequence of calls, made one after the other.
    pub open spec fn after_all(self, calls: Seq<Call>) -> Book
        decreases calls.len(),
    {
        if calls.len() == 0 {
            self
        } else {
            self.after_all(calls.drop_last()).after(calls.last())
        }
    }

    /// Whatever the call and whether or not it is refused, the book stays well formed,
    /// and the issuance is what it was unless the call is a deposit that is not refused.
    pub proof fn lemma_after(self, call: Call)
        requires
            self.wf(),
        ensures
            self.after(call).wf(),
            self.after(call).issuance() == self.issuance() + (match call {
                Call::Deposit { who, amount } => if self.deposit_outcome(amount) is Ok {
                    amount as nat
                } else {
                    0
                },
                _ => 0,
            }),
    {
        match call {
            Call::Deposit { who, amount } => self.lemma_deposit(who, amount),
            Call::Transfer { from, to, amount } => self.lemma_transfer(from, to, amount),
            Call::Reserve { who, amount } => self.lemma_reserve(who, amount),
            Call::Release { who, amount } => self.lemma_release(who, amount),
            Call::Repatriate { from, to, amount, status } => self.lemma_repatriate(
                from,
                to,
                amount,
                status,
            ),
        }
    }

    /// Over any sequence of calls, refused or not, the book stays well formed: no holding,
    /// free or reserved, goes below zero, and what an account holds, free and reserved
    /// together, never exceeds the issuance, which fits the machine type. The issuance
    /// never shrinks.
    pub proof fn lemma_after_all(self, calls: Seq<Call>)
        requires
            self.wf(),
        ensures
            self.after_all(calls).wf(),
            self.issuance() <= self.after_all(calls).issuance() <= Balance::MAX,
            forall|who: AccountId|
                #![trigger self.after_all(calls).free_of(who)]
                #![trigger self.after_all(calls).reserved_of(who)]
                {
                    let after = self.after_all(calls);
                    &&& 0 <= after.free_of(who)
                    &&& 0 <= after.reserved_of(who)
                    &&& after.free_of(who) + after.reserved_of(who) <= after.issuance()
                },
        decreases calls.len(),
    {
        if calls.len() > 0 {
            self.lemma_after_all(calls.drop_last());
            self.after_all(calls.drop_last()).lemma_after(calls.last());
        }
        let after = self.after_all(calls);
        assert forall|who: AccountId|
            #![trigger after.free_of(who)]
            #![trigger after.reserved_of(who)]
            after.free_of(who) + after.reserved_of(who) <= after.issuance() by {
            after.lemma_holdings_bounded(who, who);
        }
    }

    /// A reservation followed by a release of the same amount gives every account the
    /// free and the reserved holding that it had before the reservation.
    pub proof fn lemma_reserve_then_release(self, who: AccountId, amount: Balance)
        requires
            self.wf(),
            self.reserve_outcome(who, amount) is Ok,
        ensures
            self.after_reserve(who, amount).release_outcome(who, amount) is Ok,
            forall|any: AccountId|
                #![trigger self.free_of(any)]
                #![trigger self.reserved_of(any)]
                {
                    let back = self.after_reserve(who, amount).after_release(who, amount);
                    &&& back.free_of(any) == self.free_of(any)
                    &&& back.reserved_of(any) == self.reserved_of(any)
                },
    {
    }
}

/// The executable book of one asset.
pub struct AssetBook {
    free: BalanceMap,
    reserved: BalanceMap,
    issued: Balance,
}

impl View for AssetBook {
    type V = Book;

    closed spec fn view(&self) -> Book {
        Book { free: self.free@, reserved: self.reserved@ }
    }
}

impl AssetBook {
    /// The issuance as the book keeps count of it.
    pub closed spec fn counted(&self) -> nat {
        self.issued as nat
    }

    /// The holdings are well formed and the count of the issuance is right.
    pub open spec fn wf(&self) -> bool {
        &&& self@.wf()
        &&& self.counted() == self@.issuance()
    }

    /// A book in which nobody holds anything.
    pub fn new() -> (r: Self)
        ensures
            r.wf(),
            r@ == Book::empty(),
            r@.issuance() == 0,
    {
        proof {
            Book::lemma_empty_wf();
        }
        AssetBook { free: BalanceMap::new(), reserved: BalanceMap::new(), issued: 0 }
    }

    /// What `who` can spend.
    pub fn free_balance(&self, who: AccountId) -> (r: Balance)
        ensures
            r == self@.free_of(who),
    {
        self.free.get(who)
    }

    /// What is set aside for `who`.
    pub fn reserved_balance(&self, who: AccountId) -> (r: Balance)
        ensures
            r == self@.reserved_of(who),
    {
        self.reserved.get(who)
    }

    /// All funds of the asset, free and reserved.
    pub fn total_issuance(&self) -> (r: Balance)
        requires
            self.wf(),
        ensures
            r == self@.issuance(),
    {
        self.issued
    }

    /// Creates `amount` new free funds for `who`, unless the issuance would outgrow the
    /// machine type.
    pub fn deposit(&mut self, who: AccountId, amount: Balance) -> (result: Result<(), Error>)
        requires
            old(self).wf(),
        ensures
            final(self).wf(),
            result == old(self)@.deposit_outcome(amount),
            final(self)@ == old(self)@.after_deposit(who, amount),
            final(self)@.issuance() == old(self)@.issuance() + (if result is Ok {
                amount
            } else {
                0
            }),
    {
        proof {
            self@.lemma_deposit(who, amount);
            self@.after_deposit(who, amount).lemma_holdings_bounded(who, who);
        }
        match self.issued.checked_add(amount) {
            None => Err(Error::Overflow),
            Some(grown) => {
                self.free.credit(who, amount);
                self.issued = grown;
                Ok(())
            },
        }
    }

    /// Moves `amount` of free funds from `from` to `to`.
    pub fn transfer(&mut self, from: AccountId, to: AccountId, amount: Balance) -> (result: Result<
        (),
        Error,
    >)
        requires
            old(self).wf(),
        ensures
            final(self).wf(),
            result == old(self)@.transfer_outcome(from, amount),
            final(self)@ == old(self)@.after_transfer(from, to, amount),
            final(self)@.issuance() == old(self)@.issuance(),
    {
        proof {
            self@.lemma_transfer(from, to, amount);
            self@.after_transfer(from, to, amount).lemma_holdings_bounded(to, to);
        }
        if self.free.get(from) < amount {
            return Err(Error::InsufficientBalance);
        }
        self.free.debit(from, amount);
        self.free.credit(to, amount);
        Ok(())
    }

    /// Sets `amount` of the free funds of `who` aside.
    pub fn reserve(&mut self, who: AccountId, amount: Balance) -> (result: Result<(), Error>)
        requires
            old(self).wf(),
        ensures
            final(self).wf(),
            result == old(self)@.reserve_outcome(who, amount),
            final(self)@ == old(self)@.after_reserve(who, amount),
            final(self)@.issuance() == old(self)@.issuance(),
    {
        proof {
            self@.lemma_reserve(who, amount);
            self@.after_reserve(who, amount).lemma_holdings_bounded(who, who);
        }
        if self.free.get(who) < amount {
            return Err(Error::InsufficientBalance);
        }
        self.free.debit(who, amount);
        self.reserved.credit(who, amount);
        Ok(())
    }

    /// Returns `amount` of the reserved funds of `who` to its free funds.
    pub fn release(&mut self, who: AccountId, amount: Balance) -> (result: Result<(), Error>)
        requires
            old(self).wf(),
        ensures
            final(self).wf(),
            result == old(self)@.release_outcome(who, amount),
            final(self)@ == old(self)@.after_release(who, amount),
            final(self)@.issuance() == old(self)@.issuance(),
    {
        proof {
            self@.lemma_release(who, amount);
            self@.after_release(who, amount).lemma_holdings_bounded(who, who);
        }
        if self.reserved.get(who) < amount {
            return Err(Error::InsufficientBalance);
        }
        self.reserved.debit(who, amount);
        self.free.credit(who, amount);
        Ok(())
    }

    /// What a repatriation of `amount` out of the reservation of `from` would leave unmet.
    pub fn shortfall(&self, from: AccountId, amount: Balance) -> (unmet: Balance)
        ensures
            unmet == self@.shortfall(from, amount),
    {
        let held = self.reserved.get(from);
        if held < amount {
            amount - held
        } else {
            0
        }
    }

    /// Moves up to `amount` out of the reservation of `from` to `to`, where it arrives free
    /// or reserved as `status` says, and returns what could not be moved.
    pub fn repatriate(
        &mut self,
        from: AccountId,
        to: AccountId,
        amount: Balance,
        status: BalanceStatus,
    ) -> (unmet: Balance)
        requires
            old(self).wf(),
        ensures
            final(self).wf(),
            unmet == old(self)@.shortfall(from, amount),
            final(self)@ == old(self)@.after_repatriate(from, to, amount, status),
            final(self)@.issuance() == old(self)@.issuance(),
    {
        proof {
            self@.lemma_repatriate(from, to, amount, status);
            self@.after_repatriate(from, to, amount, status).lemma_holdings_bounded(to, to);
        }
        let held = self.reserved.get(from);
        let moved = if held < amount { held } else { amount };
        self.reserved.debit(from, moved);
        match status {
            BalanceStatus::Free => self.free.credit(to, moved),
            BalanceStatus::Reserved => self.reserved.credit(to, moved),
        }
        amount - moved
    }
}

/// The holdings of all assets: a book for each, empty for an asset nobody has touched.
pub ghost struct Holdings {
    pub books: Map<CurrencyId, Book>,
}

impl Holdings {
    /// The holdings in which nobody has anything of any asset.
    pub open spec fn empty() -> Holdings {
        Holdings { books: Map::total(|currency_id: CurrencyId| Book::empty()) }
    }

    /// The book of one asset.
    pub open spec fn book(self, currency_id: CurrencyId) -> Book {
        self.books[currency_id]
    }

    /// The holdings with the book of one asset replaced.
    pub open spec fn with_book(self, currency_id: CurrencyId, book: Book) -> Holdings {
        Holdings { books: self.books.insert(currency_id, book) }
    }

    /// What `who` can spend of an asset.
    pub open spec fn free_of(self, currency_id: CurrencyId, who: AccountId) -> nat {
        self.book(currency_id).free_of(who)
    }

    /// What is set aside for `who` of an asset.
    pub open spec fn reserved_of(self, currency_id: CurrencyId, who: AccountId) -> nat {
        self.book(currency_id).reserved_of(who)
    }

    /// All funds of an asset, free and reserved.
    pub open spec fn issuance(self, currency_id: CurrencyId) -> nat {
        self.book(currency_id).issuance()
    }

    /// There is a book for every asset, and each is well formed.
    pub open spec fn wf(self) -> bool {
        &&& forall|currency_id: CurrencyId| #[trigger] self.books.contains_key(currency_id)
        &&& forall|currency_id: CurrencyId| #[trigger] self.book(currency_id).wf()
    }

    /// In well-formed holdings no amount is negative, and what an account holds of an
    /// asset, free and reserved together, does not exceed the issuance of the asset, which
    /// fits the machine type.
    pub proof fn lemma_in_range(self, currency_id: CurrencyId, who: AccountId)
        requires
            self.wf(),
        ensures
            0 <= self.free_of(currency_id, who),
            0 <= self.reserved_of(currency_id, who),
            self.free_of(currency_id, who) + self.reserved_of(currency_id, who) <= self.issuance(
                currency_id,
            ) <= Balance::MAX,
    {
        assert(self.book(currency_id).wf());
        self.book(currency_id).lemma_holdings_bounded(who, who);
    }
}

/// Free and reserved holdings of every account in every asset.
pub struct ReservationStore {
    books: BTreeMap<CurrencyId, AssetBook>,
}

impl View for ReservationStore {
    type V = Holdings;

    closed spec fn view(&self) -> Holdings {
        Holdings {
            books: Map::total(
                |currency_id: CurrencyId|
                    if self.books@.contains_key(currency_id) {
                        self.books@[currency_id]@
                    } else {
                        Book::empty()
                    },
            ),
        }
    }
}

impl ReservationStore {
    /// Every book keeps the right count of its issuance.
    pub closed spec fn counts_right(&self) -> bool {
        forall|currency_id: CurrencyId| #[trigger]
            self.books@.contains_key(currency_id) ==> self.books@[currency_id].wf()
    }

    /// The holdings are well formed and the books keep the right counts.
    pub open spec fn wf(&self) -> bool {
        &&& self@.wf()
        &&& self.counts_right()
    }

    /// A store in which nobody has anything.
    pub fn new() -> (r: Self)
        ensures
            r.wf(),
            r@ == Holdings::empty(),
            forall|currency_id: CurrencyId| #[trigger] r@.issuance(currency_id) == 0,
    {
        let r = ReservationStore { books: BTreeMap::new() };
        proof {
            Book::lemma_empty_wf();
            assert(r@.books =~= Holdings::empty().books);
        }
        r
    }

    /// Takes the book of an asset out of the store, to be put back after it is worked on.
    fn checkout(&mut self, currency_id: CurrencyId) -> (book: AssetBook)
        requires
            old(self).wf(),
        ensures
            book.wf(),
            book@ == old(self)@.book(currency_id),
            final(self).wf(),
            final(self)@ == old(self)@.with_book(currency_id, Book::empty()),
    {
        proof {
            Book::lemma_empty_wf();
        }
        let taken = self.books.remove(&currency_id);
        proof {
            assert(self@.books =~= old(self)@.with_book(currency_id, Book::empty()).books);
        }
        match taken {
            Some(book) => book,
            None => AssetBook::new(),
        }
    }

    /// Puts a book that was worked on back as the book of an asset.
    fn put_back(&mut self, currency_id: CurrencyId, book: AssetBook)
        requires
            old(self).wf(),
            book.wf(),
        ensures
            final(self).wf(),
            final(self)@ == old(self)@.with_book(currency_id, book@),
    {
        self.books.insert(currency_id, book);
        proof {
            assert(self@.books =~= old(self)@.with_book(currency_id, book@).books);
            assert forall|other: CurrencyId| #[trigger] self@.book(other).wf() by {
                assert(other != currency_id ==> old(self)@.book(other).wf());
            }
        }
    }

    /// What `who` can spend of an asset.
    pub fn free_balance(&self, currency_id: CurrencyId, who: AccountId) -> (r: Balance)
        ensures
            r == self@.free_of(currency_id, who),
    {
        match self.books.get(&currency_id) {
            Some(book) => book.free_balance(who),
            None => 0,
        }
    }

    /// What is set aside for `who` of an asset.
    pub fn reserved_balance(&self, currency_id: CurrencyId, who: AccountId) -> (r: Balance)
        ensures
            r == self@.reserved_of(currency_id, who),
    {
        match self.books.get(&currency_id) {
            Some(book) => book.reserved_balance(who),
            None => 0,
        }
    }

    /// All funds of an asset, free and reserved.
    pub fn total_issuance(&self, currency_id: CurrencyId) -> (r: Balance)
        requires
            self.wf(),
        ensures
            r == self@.issuance(currency_id),
    {
        proof {
            Book::lemma_empty_wf();
        }
        match self.books.get(&currency_id) {
            Some(book) => book.total_issuance(),
            None => 0,
        }
    }

    /// Creates `amount` new free funds of an asset for `who`, unless the issuance of the
    /// asset would outgrow the machine type.
    pub fn deposit(&mut self, currency_id: CurrencyId, who: AccountId, amount: Balance) -> (result:
        Result<(), Error>)
        requires
            old(self).wf(),
        ensures
            final(self).wf(),
            result == old(self)@.book(currency_id).deposit_outcome(amount),
            final(self)@ == old(self)@.with_book(
                currency_id,
                old(self)@.book(currency_id).after_deposit(who, amount),
            ),
            final(self)@.issuance(currency_id) == old(self)@.issuance(currency_id) + (if result is Ok {
                amount
            } else {
                0
            }),
    {
        let mut book = self.checkout(currency_id);
        let result = book.deposit(who, amount);
        self.put_back(currency_id, book);
        proof {
            assert(self@.books =~= old(self)@.with_book(currency_id, book@).books);
        }
        result
    }

    /// Moves `amount` of the free funds of an asset from `from` to `to`.
    pub fn transfer(
        &mut self,
        currency_id: CurrencyId,
        from: AccountId,
        to: AccountId,
        amount: Balance,
    ) -> (result: Result<(), Error>)
        requires
            old(self).wf(),
        ensures
            final(self).wf(),
            result == old(self)@.book(currency_id).transfer_outcome(from, amount),
            final(self)@ == old(self)@.with_book(
                currency_id,
                old(self)@.book(currency_id).after_transfer(from, to, amount),
            ),
            final(self)@.issuance(currency_id) == old(self)@.issuance(currency_id),
    {
        let mut book = self.checkout(currency_id);
        let result = book.transfer(from, to, amount);
        self.put_back(currency_id, book);
        proof {
            assert(self@.books =~= old(self)@.with_book(currency_id, book@).books);
        }
        result
    }

    /// Sets `amount` of the free funds of `who` in an asset aside.
    pub fn reserve(&mut self, currency_id: CurrencyId, who: AccountId, amount: Balance) -> (result:
        Result<(), Error>)
        requires
            old(self).wf(),
        ensures
            final(self).wf(),
            result == old(self)@.book(currency_id).reserve_outcome(who, amount),
            final(self)@ == old(self)@.with_book(
                currency_id,
                old(self)@.book(currency_id).after_reserve(who, amount),
            ),
            final(self)@.issuance(currency_id) == old(self)@.issuance(currency_id),
    {
        let mut book = self.checkout(currency_id);
        let result = book.reserve(who, amount);
        self.put_back(currency_id, book);
        proof {
            assert(self@.books =~= old(self)@.with_book(currency_id, book@).books);
        }
        result
    }

    /// Returns `amount` of the reserved funds of `who` in an asset to its free funds.
    pub fn release(&mut self, currency_id: CurrencyId, who: AccountId, amount: Balance) -> (result:
        Result<(), Error>)
        requires
            old(self).wf(),
        ensures
            final(self).wf(),
            result == old(self)@.book(currency_id).release_outcome(who, amount),
            final(self)@ == old(self)@.with_book(
                currency_id,
                old(self)@.book(currency_id).after_release(who, amount),
            ),
            final(self)@.issuance(currency_id) == old(self)@.issuance(currency_id),
    {
        let mut book = self.checkout(currency_id);
        let result = book.release(who, amount);
        self.put_back(currency_id, book);
        proof {
            assert(self@.books =~= old(self)@.with_book(currency_id, book@).books);
        }
        result
    }

    /// What a repatriation of `amount` of an asset out of the reservation of `from` would
    /// leave unmet.
    pub fn shortfall(&self, currency_id: CurrencyId, from: AccountId, amount: Balance) -> (unmet:
        Balance)
        ensures
            unmet == self@.book(currency_id).shortfall(from, amount),
    {
        match self.books.get(&currency_id) {
            Some(book) => book.shortfall(from, amount),
            None => amount,
        }
    }

    /// Moves up to `amount` of an asset out of the reservation of `from` to `to`, where it
    /// arrives free or reserved as `status` says, and returns what could not be moved.
    /// A caller that needs the whole amount moved checks that nothing is returned.
    pub fn repatriate(
        &mut self,
        currency_id: CurrencyId,
        from: AccountId,
        to: AccountId,
        amount: Balance,
        status: BalanceStatus,
    ) -> (unmet: Balance)
        requires
            old(self).wf(),
        ensures
            final(self).wf(),
            unmet == old(self)@.book(currency_id).shortfall(from, amount),
            final(self)@ == old(self)@.with_book(
                currency_id,
                old(self)@.book(currency_id).after_repatriate(from, to, amount, status),
            ),
            final(self)@.issuance(currency_id) == old(self)@.issuance(currency_id),
    {
        let mut book = self.checkout(currency_id);
        let unmet = book.repatriate(from, to, amount, status);
        self.put_back(currency_id, book);
        proof {
            assert(self@.books =~= old(self)@.with_book(currency_id, book@).books);
        }
        unmet
    }
}

} // verus!
