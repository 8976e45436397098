//! The in-memory image of the store: one table per kind of row.
//!
//! The image stands where a connection to the store would: operations read and
//! change it, and whoever owns the real store loads it before and writes it
//! back after. Its well-formedness is what the store's keys and references
//! guarantee; the pricing rules are separate predicates, so that a ledger that
//! breaks them can still be loaded and is detected rather than assumed away.

use vstd::prelude::*;
use crate::Id;
use crate::models::domain_events::DomainEvent;
use crate::models::domain_events::DomainEventView;
use crate::models::enums::OrderStatus;
use crate::models::orders::Order;
use crate::models::orders::OrderItem;
use crate::models::payments::Payment;
use crate::models::refunds::Refund;
use crate::models::refunds::RefundItem;
use crate::models::ticket_pricing::TicketPricing;
use crate::models::ticket_types::TicketType;

verus! {

/// A row with an identity.
pub trait Row {
    spec fn row_id(&self) -> Id;

    fn id(&self) -> (r: Id)
        ensures
            r == self.row_id(),
    ;
}

/// Whether `table` holds a row with identity `id`.
pub open spec fn has_row<T: Row>(table: Seq<T>, id: Id) -> bool {
    exists|i: int| 0 <= i < table.len() && (#[trigger] table[i]).row_id() == id
}

/// Whether no identity occurs twice in `table`.
pub open spec fn ids_unique<T: Row>(table: Seq<T>) -> bool {
    forall|i: int, j: int|
        0 <= i < j < table.len() ==> (#[trigger] table[i]).row_id() != (#[trigger] table[j]).row_id()
}

/// An index at which `table` holds identity `id`; the index, where identities are unique.
pub open spec fn row_index<T: Row>(table: Seq<T>, id: Id) -> int {
    choose|i: int| 0 <= i < table.len() && (#[trigger] table[i]).row_id() == id
}

/// The row of `table` with identity `id`, where there is one.
pub open spec fn row<T: Row>(table: Seq<T>, id: Id) -> T {
    table[row_index(table, id)]
}

/// Where identities are unique, the place of a row is determined by its identity.
pub proof fn lemma_row_index<T: Row>(table: Seq<T>, i: int)
    requires
        ids_unique(table),
        0 <= i < table.len(),
    ensures
        has_row(table, table[i].row_id()),
        row_index(table, table[i].row_id()) == i,
        row(table, table[i].row_id()) == table[i],
{
    let id = table[i].row_id();
    let k = row_index(table, id);
    assert(0 <= k < table.len() && table[k].row_id() == id);
    if k < i {
        assert(table[k].row_id() != table[i].row_id());
    } else if i < k {
        assert(table[i].row_id() != table[k].row_id());
    }
}

/// Appending a row under an identity that `table` does not hold keeps the
/// identities unique and every other row where it was.
pub proof fn lemma_rows_pushed<T: Row>(table: Seq<T>, r: T)
    requires
        ids_unique(table),
        !has_row(table, r.row_id()),
    ensures
        ids_unique(table.push(r)),
        has_row(table.push(r), r.row_id()),
        row(table.push(r), r.row_id()) == r,
        forall|x: Id| #[trigger] has_row(table.push(r), x) <==> x == r.row_id() || has_row(table, x),
        forall|x: Id| has_row(table, x) ==> #[trigger] row(table.push(r), x) == row(table, x),
{
    let next = table.push(r);
    let n = table.len() as int;
    assert forall|i: int, j: int| 0 <= i < j < next.len() implies (#[trigger] next[i]).row_id() != (
    #[trigger] next[j]).row_id() by {
        if j == n {
            assert(table[i].row_id() != r.row_id());
        } else {
            assert(table[i].row_id() != table[j].row_id());
        }
    }
    assert(next[n].row_id() == r.row_id());
    lemma_row_index(next, n);
    assert forall|x: Id| #[trigger] has_row(next, x) <==> x == r.row_id() || has_row(table, x) by {
        if has_row(table, x) {
            let k = row_index(table, x);
            assert(next[k].row_id() == x);
        }
        if has_row(next, x) && x != r.row_id() {
            let k = row_index(next, x);
            assert(table[k].row_id() == x);
        }
    }
    assert forall|x: Id| has_row(table, x) implies #[trigger] row(next, x) == row(table, x) by {
        let k = row_index(table, x);
        lemma_row_index(table, k);
        assert(next[k].row_id() == x);
        lemma_row_index(next, k);
    }
}

/// Replacing a row by one of the same identity keeps the identities unique,
/// the identities held, and every other row where it was.
pub proof fn lemma_rows_updated<T: Row>(table: Seq<T>, k: int, r: T)
    requires
        ids_unique(table),
        0 <= k < table.len(),
        r.row_id() == table[k].row_id(),
    ensures
        ids_unique(table.update(k, r)),
        row_index(table, r.row_id()) == k,
        row(table.update(k, r), r.row_id()) == r,
        forall|x: Id| #[trigger] has_row(table.update(k, r), x) <==> has_row(table, x),
        forall|x: Id| has_row(table, x) && x != r.row_id() ==> #[trigger] row(table.update(k, r), x) == row(table, x),
{
    let next = table.update(k, r);
    assert forall|i: int, j: int| 0 <= i < j < next.len() implies (#[trigger] next[i]).row_id() != (
    #[trigger] next[j]).row_id() by {
        assert(table[i].row_id() != table[j].row_id());
    }
    lemma_row_index(table, k);
    lemma_row_index(next, k);
    assert forall|x: Id| #[trigger] has_row(next, x) <==> has_row(table, x) by {
        if has_row(table, x) {
            let i = row_index(table, x);
            assert(next[i].row_id() == x);
        }
        if has_row(next, x) {
            let i = row_index(next, x);
            assert(table[i].row_id() == x);
        }
    }
    assert forall|x: Id| has_row(table, x) && x != r.row_id() implies #[trigger] row(next, x) == row(table, x) by {
        let i = row_index(table, x);
        lemma_row_index(table, i);
        assert(next[i].row_id() == x);
        lemma_row_index(next, i);
    }
}

/// Removing a row keeps the identities unique and every other row held.
pub proof fn lemma_rows_removed<T: Row>(table: Seq<T>, k: int)
    requires
        ids_unique(table),
        0 <= k < table.len(),
    ensures
        ids_unique(table.remove(k)),
        !has_row(table.remove(k), table[k].row_id()),
        forall|x: Id| #[trigger] has_row(table.remove(k), x) <==> x != table[k].row_id() && has_row(table, x),
        forall|x: Id| has_row(table, x) && x != table[k].row_id() ==> #[trigger] row(table.remove(k), x) == row(table, x),
{
    let next = table.remove(k);
    assert forall|i: int| 0 <= i < next.len() implies (#[trigger] next[i]) == table[if i < k {
        i
    } else {
        i + 1
    }] by {}
    assert forall|i: int, j: int| 0 <= i < j < next.len() implies (#[trigger] next[i]).row_id() != (
    #[trigger] next[j]).row_id() by {
        let a = if i < k { i } else { i + 1 };
        let b = if j < k { j } else { j + 1 };
        assert(table[a].row_id() != table[b].row_id());
    }
    assert forall|x: Id| #[trigger] has_row(next, x) <==> x != table[k].row_id() && has_row(table, x) by {
        if has_row(next, x) {
            let i = row_index(next, x);
            let a = if i < k { i } else { i + 1 };
            assert(table[a].row_id() == x);
            if a < k {
                assert(table[a].row_id() != table[k].row_id());
            } else {
                assert(table[k].row_id() != table[a].row_id());
            }
        }
        if x != table[k].row_id() && has_row(table, x) {
            let a = row_index(table, x);
            let i = if a < k { a } else { a - 1 };
            assert(next[i].row_id() == x);
        }
    }
    assert forall|x: Id| has_row(table, x) && x != table[k].row_id() implies #[trigger] row(next, x) == row(
        table,
        x,
    ) by {
        let a = row_index(table, x);
        lemma_row_index(table, a);
        let i = if a < k { a } else { a - 1 };
        assert(next[i].row_id() == x);
        lemma_row_index(next, i);
    }
}

/// For any sequence, the filter of its first `i + 1` elements is that of its
/// first `i`, with element `i` behind it if the predicate holds of it.
pub proof fn lemma_filter_step<T>(s: Seq<T>, i: int, pred: spec_fn(T) -> bool)
    requires
        0 <= i < s.len(),
    ensures
        s.take(i + 1).filter(pred) == if pred(s[i]) {
            s.take(i).filter(pred).push(s[i])
        } else {
            s.take(i).filter(pred)
        },
{
    assert(s.take(i + 1) =~= s.take(i).push(s[i]));
    s.take(i).lemma_filter_push(s[i], pred);
}

/// If the predicate holds of element `i` and of none before it, element `i`
/// is the first of the filtered sequence.
pub proof fn lemma_filter_first<T>(s: Seq<T>, i: int, pred: spec_fn(T) -> bool)
    requires
        0 <= i < s.len(),
        pred(s[i]),
        s.take(i).filter(pred).len() == 0,
    ensures
        s.filter(pred).len() > 0,
        s.filter(pred)[0] == s[i],
{
    assert(s == s.take(i) + s.skip(i));
    Seq::filter_distributes_over_add(s.take(i), s.skip(i), pred);
    lemma_filter_head(s.skip(i), pred);
}

/// If the predicate holds of the first element, that element is the first of
/// the filtered sequence.
pub proof fn lemma_filter_head<T>(s: Seq<T>, pred: spec_fn(T) -> bool)
    requires
        s.len() > 0,
        pred(s[0]),
    ensures
        s.filter(pred).len() > 0,
        s.filter(pred)[0] == s[0],
    decreases s.len(),
{
    reveal(Seq::filter);
    if s.len() == 1 {
        assert(s.drop_last().filter(pred).len() == 0);
    } else {
        lemma_filter_head(s.drop_last(), pred);
    }
}

/// Where the filtered sequence is empty, the predicate holds of no element.
pub proof fn lemma_filter_none<T>(s: Seq<T>, pred: spec_fn(T) -> bool)
    requires
        s.filter(pred).len() == 0,
    ensures
        forall|i: int| 0 <= i < s.len() ==> !pred(#[trigger] s[i]),
{
    assert forall|i: int| 0 <= i < s.len() implies !pred(#[trigger] s[i]) by {
        if pred(s[i]) {
            s.lemma_filter_contains(pred, i);
        }
    }
}

/// Two elements of a filtered sequence stand at two places of the sequence
/// that was filtered.
pub proof fn lemma_filter_two<T>(s: Seq<T>, pred: spec_fn(T) -> bool)
    requires
        s.filter(pred).len() > 1,
    ensures
        exists|i: int, j: int| 0 <= i < j < s.len() && pred(#[trigger] s[i]) && pred(#[trigger] s[j]),
    decreases s.len(),
{
    reveal(Seq::filter);
    if s.len() > 0 {
        let rest = s.drop_last();
        if pred(s.last()) {
            if rest.filter(pred).len() > 1 {
                lemma_filter_two(rest, pred);
                let (i, j) = choose|i: int, j: int|
                    0 <= i < j < rest.len() && pred(#[trigger] rest[i]) && pred(#[trigger] rest[j]);
                assert(pred(s[i]) && pred(s[j]));
            } else {
                assert(rest.filter(pred).len() == 1);
                if forall|i: int| 0 <= i < rest.len() ==> !pred(#[trigger] rest[i]) {
                    assert(rest.all(|x: T| !pred(x)));
                    rest.lemma_all_neg_filter_empty(pred);
                }
                let i = choose|i: int| 0 <= i < rest.len() && pred(#[trigger] rest[i]);
                assert(pred(s[i]) && pred(s[s.len() - 1]));
            }
        } else {
            lemma_filter_two(rest, pred);
            let (i, j) = choose|i: int, j: int|
                0 <= i < j < rest.len() && pred(#[trigger] rest[i]) && pred(#[trigger] rest[j]);
            assert(pred(s[i]) && pred(s[j]));
        }
    }
}

/// The first place in `table` that holds identity `id`.
pub fn position<T: Row>(table: &Vec<T>, id: Id) -> (r: Option<usize>)
    ensures
        r is Some <==> has_row(table@, id),
        r matches Some(i) ==> i < table@.len() && table@[i as int].row_id() == id && forall|j: int|
            0 <= j < i ==> (#[trigger] table@[j]).row_id() != id,
        r matches Some(i) ==> (ids_unique(table@) ==> row_index(table@, id) == i),
{
    let mut i: usize = 0;
    while i < table.len()
        invariant
            i <= table.len(),
            forall|j: int| 0 <= j < i ==> (#[trigger] table@[j]).row_id() != id,
        decreases table.len() - i,
    {
        if table[i].id() == id {
            proof {
                if ids_unique(table@) {
                    lemma_row_index(table@, i as int);
                }
            }
            return Some(i);
        }
        i += 1;
    }
    None
}

/// What a [`Database`] holds, table by table, as sequences of rows in the
/// order in which they were stored.
pub struct DatabaseView {
    pub ticket_types: Seq<TicketType>,
    pub ticket_pricing: Seq<TicketPricing>,
    pub orders: Seq<Order>,
    pub order_items: Seq<OrderItem>,
    pub payments: Seq<Payment>,
    pub refunds: Seq<Refund>,
    pub refund_items: Seq<RefundItem>,
    pub domain_events: Seq<DomainEventView>,
}

#[derive(Debug)]
pub struct Database {
    pub(crate) ticket_types: Vec<TicketType>,
    pub(crate) ticket_pricing: Vec<TicketPricing>,
    pub(crate) orders: Vec<Order>,
    pub(crate) order_items: Vec<OrderItem>,
    pub(crate) payments: Vec<Payment>,
    pub(crate) refunds: Vec<Refund>,
    pub(crate) refund_items: Vec<RefundItem>,
    pub(crate) domain_events: Vec<DomainEvent>,
}

impl View for Database {
    type V = DatabaseView;

    open(crate) spec fn view(&self) -> DatabaseView {
        DatabaseView {
            ticket_types: self.ticket_types@,
            ticket_pricing: self.ticket_pricing@,
            orders: self.orders@,
            order_items: self.order_items@,
            payments: self.payments@,
            refunds: self.refunds@,
            refund_items: self.refund_items@,
            domain_events: self.domain_events@.map_values(|e: DomainEvent| e@),
        }
    }
}

impl DatabaseView {
    /// The image with nothing in it.
    pub open spec fn empty() -> Self {
        DatabaseView {
            ticket_types: Seq::empty(),
            ticket_pricing: Seq::empty(),
            orders: Seq::empty(),
            order_items: Seq::empty(),
            payments: Seq::empty(),
            refunds: Seq::empty(),
            refund_items: Seq::empty(),
            domain_events: Seq::empty(),
        }
    }

    /// A superseding entry stands after the entry it supersedes, so the chain
    /// of `previous` references runs strictly backward and cannot close into a cycle.
    pub open spec fn pricing_chain_backward(self) -> bool {
        forall|i: int, j: int|
            0 <= i < self.ticket_pricing.len() && 0 <= j < self.ticket_pricing.len() && (
            #[trigger] self.ticket_pricing[i]).previous_ticket_pricing_id == Some(
                (#[trigger] self.ticket_pricing[j]).id,
            ) ==> j < i
    }

    /// Every pricing entry belongs to a ticket type of the image.
    pub open spec fn pricing_types_exist(self) -> bool {
        forall|i: int|
            0 <= i < self.ticket_pricing.len() ==> has_row(
                self.ticket_types,
                (#[trigger] self.ticket_pricing[i]).ticket_type_id,
            )
    }

    /// No buyer has two orders in `Draft`.
    pub open spec fn one_draft_per_user(self) -> bool {
        forall|i: int, j: int|
            0 <= i < j < self.orders.len() && (#[trigger] self.orders[i]).status == OrderStatus::Draft
                && (#[trigger] self.orders[j]).status == OrderStatus::Draft
                && self.orders[i].user_id is Some ==> self.orders[i].user_id != self.orders[j].user_id
    }

    /// Every item belongs to an order of the image, is priced by an entry of
    /// the ledger if it is priced at all, and has a positive quantity.
    pub open spec fn items_well_formed(self) -> bool {
        forall|i: int|
            0 <= i < self.order_items.len() ==> {
                let item = #[trigger] self.order_items[i];
                &&& has_row(self.orders, item.order_id)
                &&& item.quantity > 0
                &&& item.ticket_pricing_id matches Some(p) ==> has_row(self.ticket_pricing, p)
            }
    }

    /// Every payment belongs to an order of the image, and one that holds or
    /// has taken money belongs to a paid order.
    pub open spec fn payments_well_formed(self) -> bool {
        forall|i: int|
            0 <= i < self.payments.len() ==> {
                let payment = #[trigger] self.payments[i];
                &&& has_row(self.orders, payment.order_id)
                &&& payment.status.is_live() ==> row(self.orders, payment.order_id).status
                    == OrderStatus::Paid
            }
    }

    /// No order has two payments that hold or have taken money.
    pub open spec fn one_live_payment_per_order(self) -> bool {
        forall|i: int, j: int|
            0 <= i < j < self.payments.len() && (#[trigger] self.payments[i]).status.is_live() && (
            #[trigger] self.payments[j]).status.is_live() ==> self.payments[i].order_id
                != self.payments[j].order_id
    }

    /// What the store's keys and references guarantee.
    pub open spec fn wf(self) -> bool {
        &&& ids_unique(self.ticket_types)
        &&& ids_unique(self.ticket_pricing)
        &&& self.pricing_types_exist()
        &&& self.pricing_chain_backward()
        &&& ids_unique(self.orders)
        &&& self.one_draft_per_user()
        &&& ids_unique(self.order_items)
        &&& self.items_well_formed()
        &&& ids_unique(self.payments)
        &&& self.payments_well_formed()
        &&& self.one_live_payment_per_order()
        &&& ids_unique(self.refunds)
        &&& ids_unique(self.refund_items)
    }
}

impl Database {
    /// An image with no rows.
    pub fn new() -> (db: Self)
        ensures
            db@ == DatabaseView::empty(),
            db@.wf(),
            db@.pricing_non_overlapping(),
            db@.pricing_within_types(),
    {
        let db = Database {
            ticket_types: Vec::new(),
            ticket_pricing: Vec::new(),
            orders: Vec::new(),
            order_items: Vec::new(),
            payments: Vec::new(),
            refunds: Vec::new(),
            refund_items: Vec::new(),
            domain_events: Vec::new(),
        };
        assert(db@.domain_events =~= Seq::empty());
        db
    }

    pub fn ticket_types(&self) -> (r: &Vec<TicketType>)
        ensures
            r@ == self@.ticket_types,
    {
        &self.ticket_types
    }

    pub fn ticket_pricing(&self) -> (r: &Vec<TicketPricing>)
        ensures
            r@ == self@.ticket_pricing,
    {
        &self.ticket_pricing
    }

    pub fn orders(&self) -> (r: &Vec<Order>)
        ensures
            r@ == self@.orders,
    {
        &self.orders
    }

    pub fn order_items(&self) -> (r: &Vec<OrderItem>)
        ensures
            r@ == self@.order_items,
    {
        &self.order_items
    }

    pub fn payments(&self) -> (r: &Vec<Payment>)
        ensures
            r@ == self@.payments,
    {
        &self.payments
    }

    pub fn refunds(&self) -> (r: &Vec<Refund>)
        ensures
            r@ == self@.refunds,
    {
        &self.refunds
    }

    pub fn refund_items(&self) -> (r: &Vec<RefundItem>)
        ensures
            r@ == self@.refund_items,
    {
        &self.refund_items
    }

    /// The audit events emitted so far, oldest first.
    pub fn domain_events(&self) -> (r: &Vec<DomainEvent>)
        ensures
            r@.map_values(|e: DomainEvent| e@) == self@.domain_events,
    {
        &self.domain_events
    }

    /// Appends an audit event.
    pub(crate) fn emit(&mut self, event: DomainEvent)
        ensures
            final(self)@ == (DatabaseView {
                domain_events: old(self)@.domain_events.push(event@),
                ..old(self)@
            }),
    {
        self.domain_events.push(event);
        assert(self@.domain_events =~= old(self)@.domain_events.push(event@));
    }
}

} // verus!
