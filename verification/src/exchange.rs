//! Escrow orders that swap an amount of one asset for an amount of another.
//!
//! An owner submits an order and the base amount is set aside from its free funds. A taker
//! who names the order pays the target amount to the owner and receives the base amount
//! out of the owner's reservation, both or neither. The owner may cancel instead. An order
//! is settled or cancelled once; its identifier is never given out again.
//!
//! Cancelling closes the order and does nothing else: the base amount stays reserved until
//! the owner has it released through [`ReservationStore::release`].

use crate::arith::{checked_add, is_zero, one};
use crate::currency::{BalanceStatus, Holdings, ReservationStore};
use crate::{AccountId, Balance, CurrencyId, OrderId};
use std::collections::BTreeMap;
use vstd::prelude::*;

verus! {

broadcast use {vstd::std_specs::btree::group_btree_axioms, vstd::laws_cmp::group_laws_cmp};

/// An offer of `base_amount` of one asset for `target_amount` of another.
#[derive(Clone, Copy, Debug, PartialEq, Eq, Structural)]
pub struct Order {
    pub order_id: OrderId,
    pub base_currency_id: CurrencyId,
    pub base_amount: Balance,
    pub target_currency_id: CurrencyId,
    pub target_amount: Balance,
    pub owner: AccountId,
}

/// What the order book reports of an operation that succeeded.
#[derive(Clone, Copy, Debug, PartialEq, Eq, Structural)]
pub enum Event {
    /// An order was submitted under the identifier.
    OrderCreated(OrderId, Order),
    /// The account took the order with the identifier.
    OrderTaken(AccountId, OrderId, Order),
    /// The owner cancelled the order with the identifier.
    OrderCancelled(OrderId),
}

/// Why the order book refused an operation.
#[derive(Clone, Copy, Debug, PartialEq, Eq, Structural)]
pub enum Error {
    /// No identifier is left to give out.
    OrderIdOverflow,
    /// The identifier was never given out.
    InvalidOrderId,
    /// A party does not have the funds that the operation moves.
    InsufficientBalance,
    /// Only the owner cancels an order.
    NotOwner,
    /// The order is settled or cancelled already.
    OrderIsNone,
}

/// An operation on the order book with its arguments.
pub enum Call {
    /// `who` offers `base_amount` of the base asset for `target_amount` of the target asset.
    SubmitOrder {
        who: AccountId,
        base_currency_id: CurrencyId,
        base_amount: Balance,
        target_currency_id: CurrencyId,
        target_amount: Balance,
    },
    /// `who` takes the order.
    TakeOrder { who: AccountId, order_id: OrderId },
    /// `who` cancels the order.
    CancelOrder { who: AccountId, order_id: OrderId },
}

/// The orders: a slot for each identifier given out, holding the order while it is open.
pub ghost struct OrderBook {
    pub slots: Map<OrderId, Option<Order>>,
    pub next_order_id: OrderId,
    pub events: Seq<Event>,
}

impl OrderBook {
    /// Every identifier given out lies below the counter, and an open order sits in the
    /// slot of its own identifier.
    pub open spec fn wf(self) -> bool {
        &&& forall|id: OrderId| #[trigger] self.slots.contains_key(id) ==> id < self.next_order_id
        &&& forall|id: OrderId|
            #[trigger] self.slots.contains_key(id) ==> (self.slots[id] matches Some(order)
                ==> order.order_id == id)
    }

    /// The open order under an identifier, or why there is none.
    pub open spec fn lookup(self, order_id: OrderId) -> Result<Order, Error> {
        if !self.slots.contains_key(order_id) {
            Err(Error::InvalidOrderId)
        } else {
            match self.slots[order_id] {
                None => Err(Error::OrderIsNone),
                Some(order) => Ok(order),
            }
        }
    }

    /// The orders with one slot emptied and one event more.
    pub open spec fn closed(self, order_id: OrderId, event: Event) -> OrderBook {
        OrderBook {
            slots: self.slots.insert(order_id, None),
            events: self.events.push(event),
            ..self
        }
    }

    /// A cancellation needs an open order and its owner.
    pub open spec fn cancel_outcome(self, who: AccountId, order_id: OrderId) -> Result<(), Error> {
        match self.lookup(order_id) {
            Err(e) => Err(e),
            Ok(order) => if order.owner != who {
                Err(Error::NotOwner)
            } else {
                Ok(())
            },
        }
    }

    /// The orders after a cancellation: the slot is empty, or nothing has changed where
    /// the cancellation is refused.
    pub open spec fn after_cancel(self, who: AccountId, order_id: OrderId) -> OrderBook {
        if self.cancel_outcome(who, order_id) is Ok {
            self.closed(order_id, Event::OrderCancelled(order_id))
        } else {
            self
        }
    }
}

/// The orders together with the holdings that they move.
pub ghost struct Market {
    pub orders: OrderBook,
    pub holdings: Holdings,
}

impl Market {
    /// Orders and holdings are both well formed.
    pub open spec fn wf(self) -> bool {
        &&& self.orders.wf()
        &&& self.holdings.wf()
    }

    /// The order that a submission would create.
    pub open spec fn offered(
        self,
        who: AccountId,
        base_currency_id: CurrencyId,
        base_amount: Balance,
        target_currency_id: CurrencyId,
        target_amount: Balance,
    ) -> Order {
        Order {
            order_id: self.orders.next_order_id,
            base_currency_id,
            base_amount,
            target_currency_id,
            target_amount,
            owner: who,
        }
    }

    /// A submission needs an identifier to give out, and then free funds of the owner
    /// that cover the base amount. It returns the identifier that the counter stood at.
    pub open spec fn submit_outcome(self, order: Order) -> Result<OrderId, Error> {
        if self.orders.next_order_id == OrderId::MAX {
            Err(Error::OrderIdOverflow)
        } else if self.holdings.book(order.base_currency_id).reserve_outcome(
            order.owner,
            order.base_amount,
        ) is Err {
            Err(Error::InsufficientBalance)
        } else {
            Ok(self.orders.next_order_id)
        }
    }

    /// The market after a submission: the base amount is reserved, the order is open under
    /// its identifier and the counter has moved on by one; or nothing has changed where
    /// the submission is refused.
    pub open spec fn after_submit(self, order: Order) -> Market {
        if self.submit_outcome(order) is Ok {
            Market {
                orders: OrderBook {
                    slots: self.orders.slots.insert(order.order_id, Some(order)),
                    next_order_id: (self.orders.next_order_id + 1) as OrderId,
                    events: self.orders.events.push(Event::OrderCreated(order.order_id, order)),
                },
                holdings: self.holdings.with_book(
                    order.base_currency_id,
                    self.holdings.book(order.base_currency_id).after_reserve(
                        order.owner,
                        order.base_amount,
                    ),
                ),
            }
        } else {
            self
        }
    }

    /// The holdings once the taker has paid the target amount of an order to its owner.
    pub open spec fn paid(self, who: AccountId, order: Order) -> Holdings {
        self.holdings.with_book(
            order.target_currency_id,
            self.holdings.book(order.target_currency_id).after_transfer(
                who,
                order.owner,
                order.target_amount,
            ),
        )
    }

    /// Taking needs an open order, free funds of the taker that cover the target amount,
    /// and, once those are paid, a reservation of the owner that covers the base amount.
    pub open spec fn take_outcome(self, who: AccountId, order_id: OrderId) -> Result<(), Error> {
        match self.orders.lookup(order_id) {
            Err(e) => Err(e),
            Ok(order) => if self.holdings.book(order.target_currency_id).transfer_outcome(
                who,
                order.target_amount,
            ) is Err {
                Err(Error::InsufficientBalance)
            } else if self.paid(who, order).book(order.base_currency_id).shortfall(
                order.owner,
                order.base_amount,
            ) != 0 {
                Err(Error::InsufficientBalance)
            } else {
                Ok(())
            },
        }
    }

    /// The market after an order is taken: the taker has paid the target amount, has the
    /// base amount out of the owner's reservation as free funds, and the slot is empty; or
    /// nothing has changed where taking is refused.
    pub open spec fn after_take(self, who: AccountId, order_id: OrderId) -> Market {
        if self.take_outcome(who, order_id) is Ok {
            let order = self.orders.lookup(order_id)->Ok_0;
            let paid = self.paid(who, order);
            Market {
                orders: self.orders.closed(order_id, Event::OrderTaken(who, order_id, order)),
                holdings: paid.with_book(
                    order.base_currency_id,
                    paid.book(order.base_currency_id).after_repatriate(
                        order.owner,
                        who,
                        order.base_amount,
                        BalanceStatus::Free,
                    ),
                ),
            }
        } else {
            self
        }
    }
}

impl Market {
    /// The market after a call.
    pub open spec fn after(self, call: Call) -> Market {
        match call {
            Call::SubmitOrder {
                who,
                base_currency_id,
                base_amount,
                target_currency_id,
                target_amount,
            } => self.after_submit(
                self.offered(who, base_currency_id, base_amount, target_currency_id, target_amount),
            ),
            Call::TakeOrder { who, order_id } => self.after_take(who, order_id),
            Call::CancelOrder { who, order_id } => Market {
                orders: self.orders.after_cancel(who, order_id),
                ..self
            },
        }
    }

    /// The market after a sequence of calls, made one after the other.
    pub open spec fn after_all(self, calls: Seq<Call>) -> Market
        decreases calls.len(),
    {
        if calls.len() == 0 {
            self
        } else {
            self.after_all(calls.drop_last()).after(calls.last())
        }
    }

    /// `later` can follow `self`: the counter has not gone back, every identifier given
    /// out is still given out, no slot that was empty holds an order, and every asset has
    /// the issuance it had.
    pub open spec fn precedes(self, later: Market) -> bool {
        &&& self.orders.next_order_id <= later.orders.next_order_id
        &&& forall|id: OrderId| #[trigger]
            self.orders.slots.contains_key(id) ==> later.orders.slots.contains_key(id)
        &&& forall|id: OrderId|
            self.orders.lookup(id) == Err::<Order, Error>(Error::OrderIsNone)
                ==> #[trigger] later.orders.lookup(id) == Err::<Order, Error>(Error::OrderIsNone)
        &&& forall|currency_id: CurrencyId| #[trigger]
            later.holdings.issuance(currency_id) == self.holdings.issuance(currency_id)
    }

    /// The identifier that a call gives out: a submission that is not refused gives out
    /// the one that the counter stands at, and no other call gives out any.
    pub open spec fn issued(self, call: Call) -> Option<OrderId> {
        match call {
            Call::SubmitOrder {
                who,
                base_currency_id,
                base_amount,
                target_currency_id,
                target_amount,
            } => match self.submit_outcome(
                self.offered(who, base_currency_id, base_amount, target_currency_id, target_amount),
            ) {
                Ok(order_id) => Some(order_id),
                Err(_) => None,
            },
            _ => None,
        }
    }

    /// An identifier that a call gives out was never given out before; after the call an
    /// order is open under it and the counter stands one above it.
    pub proof fn lemma_issued_id_is_fresh(self, call: Call)
        requires
            self.wf(),
            self.issued(call) is Some,
        ensures
            !self.orders.slots.contains_key(self.issued(call)->0),
            self.after(call).orders.lookup(self.issued(call)->0) is Ok,
            self.after(call).orders.next_order_id == self.issued(call)->0 + 1,
    {
    }

    /// Whatever the call and whether or not it is refused, the market stays well formed:
    /// no holding, free or reserved, goes below zero or beyond the machine type, and the
    /// market it leaves can follow the one it found.
    pub proof fn lemma_after(self, call: Call)
        requires
            self.wf(),
        ensures
            self.after(call).wf(),
            self.precedes(self.after(call)),
    {
        match call {
            Call::SubmitOrder {
                who,
                base_currency_id,
                base_amount,
                target_currency_id,
                target_amount,
            } => {
                let order = self.offered(
                    who,
                    base_currency_id,
                    base_amount,
                    target_currency_id,
                    target_amount,
                );
                let book = self.holdings.book(base_currency_id);
                book.lemma_reserve(who, base_amount);
                let after = self.after_submit(order);
                assert forall|currency_id: CurrencyId| #[trigger]
                    after.holdings.book(currency_id).wf() by {
                    assert(self.holdings.book(currency_id).wf());
                }
            },
            Call::TakeOrder { who, order_id } => {
                if self.take_outcome(who, order_id) is Ok {
                    let order = self.orders.lookup(order_id)->Ok_0;
                    let target = self.holdings.book(order.target_currency_id);
                    target.lemma_transfer(who, order.owner, order.target_amount);
                    let paid = self.paid(who, order);
                    assert forall|currency_id: CurrencyId| #[trigger]
                        paid.book(currency_id).wf() by {
                        assert(self.holdings.book(currency_id).wf());
                    }
                    let base = paid.book(order.base_currency_id);
                    base.lemma_repatriate(order.owner, who, order.base_amount, BalanceStatus::Free);
                    let after = self.after_take(who, order_id);
                    assert forall|currency_id: CurrencyId| #[trigger]
                        after.holdings.book(currency_id).wf() by {
                        assert(paid.book(currency_id).wf());
                    }
                }
            },
            Call::CancelOrder { who, order_id } => {},
        }
    }

    /// What holds of one call holds of any sequence of calls.
    pub proof fn lemma_after_all(self, calls: Seq<Call>)
        requires
            self.wf(),
        ensures
            self.after_all(calls).wf(),
            self.precedes(self.after_all(calls)),
        decreases calls.len(),
    {
        if calls.len() > 0 {
            let before = self.after_all(calls.drop_last());
            self.lemma_after_all(calls.drop_last());
            before.lemma_after(calls.last());
        }
    }

    /// Two calls that give out an identifier, with any calls between them, give out
    /// different identifiers, the later one the greater.
    pub proof fn lemma_order_ids_increase(self, first: Call, between: Seq<Call>, second: Call)
        requires
            self.wf(),
            self.issued(first) is Some,
            self.after(first).after_all(between).issued(second) is Some,
        ensures
            self.issued(first)->0 < self.after(first).after_all(between).issued(second)->0,
    {
        self.lemma_after(first);
        self.after(first).lemma_after_all(between);
    }

    /// An order is taken once: after it is, with any calls in between, taking it again and
    /// cancelling it are both refused because the order is no longer there.
    pub proof fn lemma_taken_once(
        self,
        who: AccountId,
        order_id: OrderId,
        between: Seq<Call>,
        again: AccountId,
    )
        requires
            self.wf(),
            self.take_outcome(who, order_id) is Ok,
        ensures
            self.after_take(who, order_id).after_all(between).take_outcome(again, order_id) == Err::<
                (),
                Error,
            >(Error::OrderIsNone),
            self.after_take(who, order_id).after_all(between).orders.cancel_outcome(
                again,
                order_id,
            ) == Err::<(), Error>(Error::OrderIsNone),
    {
        self.lemma_after(Call::TakeOrder { who, order_id });
        self.after_take(who, order_id).lemma_after_all(between);
    }

    /// An order is cancelled once: after it is, with any calls in between, cancelling it
    /// again and taking it are both refused because the order is no longer there.
    pub proof fn lemma_cancelled_once(
        self,
        who: AccountId,
        order_id: OrderId,
        between: Seq<Call>,
        again: AccountId,
    )
        requires
            self.wf(),
            self.orders.cancel_outcome(who, order_id) is Ok,
        ensures
            self.after(Call::CancelOrder { who, order_id }).after_all(
                between,
            ).orders.cancel_outcome(again, order_id) == Err::<(), Error>(Error::OrderIsNone),
            self.after(Call::CancelOrder { who, order_id }).after_all(between).take_outcome(
                again,
                order_id,
            ) == Err::<(), Error>(Error::OrderIsNone),
    {
        self.lemma_after(Call::CancelOrder { who, order_id });
        self.after(Call::CancelOrder { who, order_id }).lemma_after_all(between);
    }

    /// Taking is all or nothing: where it is refused for want of funds, on either side,
    /// the order is still open and every holding is what it was.
    pub proof fn lemma_refused_take_moves_nothing(self, who: AccountId, order_id: OrderId)
        requires
            self.take_outcome(who, order_id) is Err,
        ensures
            self.after_take(who, order_id) == self,
    {
    }
}

/// The executable order book.
pub struct Pallet {
    orders: BTreeMap<OrderId, Option<Order>>,
    next_order_id: OrderId,
    events: Vec<Event>,
}

impl View for Pallet {
    type V = OrderBook;

    closed spec fn view(&self) -> OrderBook {
        OrderBook {
            slots: self.orders@,
            next_order_id: self.next_order_id,
            events: self.events@,
        }
    }
}

impl Pallet {
    /// The orders are well formed.
    pub open spec fn wf(&self) -> bool {
        self@.wf()
    }

    /// An order book that has given out no identifier and whose counter stands at
    /// `next_order_id`.
    pub fn starting_at(next_order_id: OrderId) -> (r: Self)
        ensures
            r.wf(),
            r@ == (OrderBook { slots: Map::empty(), next_order_id, events: Seq::empty() }),
    {
        Pallet { orders: BTreeMap::new(), next_order_id, events: Vec::new() }
    }

    /// An order book that has given out no identifier and whose counter stands at zero.
    pub fn new() -> (r: Self)
        ensures
            r.wf(),
            r@ == (OrderBook { slots: Map::empty(), next_order_id: 0, events: Seq::empty() }),
    {
        Pallet::starting_at(0)
    }

    /// Records that `order_id` was given out and what its slot holds: an open order, or
    /// nothing for one that is settled or cancelled. Refused, with nothing changed, where
    /// the counter does not stand above `order_id` or the order carries another
    /// identifier. Returns whether the slot was written.
    pub fn restore_slot(&mut self, order_id: OrderId, slot: Option<Order>) -> (written: bool)
        requires
            old(self).wf(),
        ensures
            final(self).wf(),
            written == (order_id < old(self)@.next_order_id && (slot matches Some(order)
                ==> order.order_id == order_id)),
            final(self)@ == (if written {
                OrderBook { slots: old(self)@.slots.insert(order_id, slot), ..old(self)@ }
            } else {
                old(self)@
            }),
    {
        if order_id >= self.next_order_id {
            return false;
        }
        match slot {
            Some(order) => {
                if order.order_id != order_id {
                    return false;
                }
            },
            None => {},
        }
        self.orders.insert(order_id, slot);
        true
    }

    /// The open order under an identifier, if there is one.
    pub fn orders(&self, order_id: OrderId) -> (r: Option<Order>)
        ensures
            r == (match self@.lookup(order_id) {
                Ok(order) => Some(order),
                Err(_) => None,
            }),
    {
        match self.lookup(order_id) {
            Ok(order) => Some(order),
            Err(_) => None,
        }
    }

    /// The identifier that the next submission gives out.
    pub fn next_order_id(&self) -> (r: OrderId)
        ensures
            r == self@.next_order_id,
    {
        self.next_order_id
    }

    /// Hands out the events reported since the last call, oldest first.
    pub fn take_events(&mut self) -> (events: Vec<Event>)
        ensures
            events@ == old(self)@.events,
            final(self)@ == (OrderBook { events: Seq::empty(), ..old(self)@ }),
    {
        let mut events = Vec::new();
        std::mem::swap(&mut self.events, &mut events);
        events
    }

    /// The open order under an identifier, or why there is none.
    fn lookup(&self, order_id: OrderId) -> (result: Result<Order, Error>)
        ensures
            result == self@.lookup(order_id),
    {
        match self.orders.get(&order_id) {
            None => Err(Error::InvalidOrderId),
            Some(slot) => match slot {
                None => Err(Error::OrderIsNone),
                Some(order) => Ok(*order),
            },
        }
    }

    /// Empties the slot of an order and reports the event.
    fn close(&mut self, order_id: OrderId, event: Event)
        requires
            old(self).wf(),
            old(self)@.slots.contains_key(order_id),
        ensures
            final(self).wf(),
            final(self)@ == old(self)@.closed(order_id, event),
    {
        self.orders.insert(order_id, None);
        self.events.push(event);
    }

    /// Opens an order for `who` that offers `base_amount` of the base asset for
    /// `target_amount` of the target asset, and returns its identifier.
    ///
    /// The base amount is set aside from the free funds of `who`. Where no identifier is
    /// left, or the free funds do not cover the base amount, nothing changes: neither the
    /// counter nor any holding.
    pub fn submit_order(
        &mut self,
        currency: &mut ReservationStore,
        who: AccountId,
        base_currency_id: CurrencyId,
        base_amount: Balance,
        target_currency_id: CurrencyId,
        target_amount: Balance,
    ) -> (result: Result<OrderId, Error>)
        requires
            old(self).wf(),
            old(currency).wf(),
        ensures
            final(self).wf(),
            final(currency).wf(),
            ({
                let before = Market { orders: old(self)@, holdings: old(currency)@ };
                let order = before.offered(
                    who,
                    base_currency_id,
                    base_amount,
                    target_currency_id,
                    target_amount,
                );
                &&& result == before.submit_outcome(order)
                &&& (Market { orders: final(self)@, holdings: final(currency)@ })
                    == before.after_submit(order)
            }),
            forall|currency_id: CurrencyId| #[trigger]
                final(currency)@.issuance(currency_id) == old(currency)@.issuance(currency_id),
    {
        let order_id = self.next_order_id;
        let order = Order {
            order_id,
            base_currency_id,
            base_amount,
            target_currency_id,
            target_amount,
            owner: who,
        };
        let next = match checked_add(order_id, one()) {
            None => { return Err(Error::OrderIdOverflow); },
            Some(next) => next,
        };
        if currency.reserve(base_currency_id, who, base_amount).is_err() {
            assert(currency@.books =~= old(currency)@.books);
            return Err(Error::InsufficientBalance);
        }
        self.orders.insert(order_id, Some(order));
        self.next_order_id = next;
        self.events.push(Event::OrderCreated(order_id, order));
        Ok(order_id)
    }

    /// Settles the open order `order_id` with `who` as the taker.
    ///
    /// The taker pays the target amount to the owner and receives the base amount out of
    /// the owner's reservation as free funds. Where the taker's free funds do not cover the
    /// target amount, or the owner's reservation does not cover the base amount, nothing
    /// moves and the order stays open.
    pub fn take_order(&mut self, currency: &mut ReservationStore, who: AccountId, order_id: OrderId)
        -> (result: Result<(), Error>)
        requires
            old(self).wf(),
            old(currency).wf(),
        ensures
            final(self).wf(),
            final(currency).wf(),
            ({
                let before = Market { orders: old(self)@, holdings: old(currency)@ };
                &&& result == before.take_outcome(who, order_id)
                &&& (Market { orders: final(self)@, holdings: final(currency)@ })
                    == before.after_take(who, order_id)
            }),
            forall|currency_id: CurrencyId| #[trigger]
                final(currency)@.issuance(currency_id) == old(currency)@.issuance(currency_id),
    {
        let order = match self.lookup(order_id) {
            Err(e) => { return Err(e); },
            Ok(order) => order,
        };
        // The payment cannot be taken back once it is made, so the second leg is tried
        // before the first one runs: a payment leaves every reservation as it is.
        let unmet = currency.shortfall(order.base_currency_id, order.owner, order.base_amount);
        if !is_zero(unmet) {
            return Err(Error::InsufficientBalance);
        }
        if currency.transfer(
            order.target_currency_id,
            who,
            order.owner,
            order.target_amount,
        ).is_err() {
            assert(currency@.books =~= old(currency)@.books);
            return Err(Error::InsufficientBalance);
        }
        currency.repatriate(
            order.base_currency_id,
            order.owner,
            who,
            order.base_amount,
            BalanceStatus::Free,
        );
        self.close(order_id, Event::OrderTaken(who, order_id, order));
        Ok(())
    }

    /// Closes the open order `order_id` on behalf of its owner `who`.
    ///
    /// Only the order is closed. The base amount stays in the owner's reservation, from
    /// where [`ReservationStore::release`] returns it to the owner's free funds.
    pub fn cancel_order(&mut self, who: AccountId, order_id: OrderId) -> (result: Result<
        (),
        Error,
    >)
        requires
            old(self).wf(),
        ensures
            final(self).wf(),
            result == old(self)@.cancel_outcome(who, order_id),
            final(self)@ == old(self)@.after_cancel(who, order_id),
    {
        let order = match self.lookup(order_id) {
            Err(e) => { return Err(e); },
            Ok(order) => order,
        };
        if order.owner != who {
            return Err(Error::NotOwner);
        }
        self.close(order_id, Event::OrderCancelled(order_id));
        Ok(())
    }
}

} // verus!
