//! Orders and their items. A cart is an order in `Draft`.

use vstd::prelude::*;
use crate::Id;
use crate::Timestamp;
use crate::database::has_row;
use crate::database::lemma_filter_first;
use crate::database::lemma_filter_step;
use crate::database::lemma_filter_two;
use crate::database::lemma_row_index;
use crate::database::lemma_rows_pushed;
use crate::database::lemma_rows_removed;
use crate::database::lemma_rows_updated;
use crate::database::position;
use crate::database::row;
use crate::database::row_index;
use crate::database::Database;
use crate::database::DatabaseView;
use crate::database::Row;
use crate::errors::BigNeonError;
use crate::errors::ErrorView;
use crate::errors::Field;
use crate::errors::FieldError;
use crate::errors::ValidationCode;
use crate::errors::ValidationError;
use crate::errors::ValidationParams;
use crate::models::enums::OrderStatus;
use crate::models::enums::OrderTypes;
use crate::models::ticket_pricing::TicketPricing;
use crate::validators::plain_error;

verus! {

#[derive(Clone, Copy, Debug, PartialEq, Eq)]
pub struct Order {
    pub id: Id,
    /// The buyer; none for an order that the box office or the system made.
    pub user_id: Option<Id>,
    pub status: OrderStatus,
    pub order_type: OrderTypes,
    /// Until when a cart holds its tickets.
    pub expires_at: Timestamp,
}

/// An order that has not been stored yet.
#[derive(Clone, Copy, Debug, PartialEq, Eq)]
pub struct NewOrder {
    pub user_id: Option<Id>,
    pub status: OrderStatus,
    pub order_type: OrderTypes,
    pub expires_at: Timestamp,
}

/// One line of an order: a quantity of one ticket type at one entry of the pricing ledger.
#[derive(Clone, Copy, Debug, PartialEq, Eq)]
pub struct OrderItem {
    pub id: Id,
    pub order_id: Id,
    pub ticket_type_id: Id,
    /// The ledger entry that prices this line: an identity, never an amount.
    pub ticket_pricing_id: Option<Id>,
    pub quantity: i64,
}

/// A line of an order as it is shown: with the price of one ticket.
#[derive(Clone, Copy, Debug, PartialEq, Eq)]
pub struct DisplayOrderItem {
    pub id: Id,
    pub ticket_type_id: Id,
    pub ticket_pricing_id: Option<Id>,
    pub quantity: i64,
    pub unit_price_in_cents: i64,
}

impl Row for Order {
    open spec fn row_id(&self) -> Id {
        self.id
    }

    fn id(&self) -> (r: Id) {
        self.id
    }
}

impl Row for OrderItem {
    open spec fn row_id(&self) -> Id {
        self.id
    }

    fn id(&self) -> (r: Id) {
        self.id
    }
}

/// The failure reported for a quantity that is not positive.
pub open spec fn quantity_failures() -> Seq<FieldError> {
    seq![FieldError { field: Field::Quantity, error: plain_error(ValidationCode::QuantityMustBePositive) }]
}

fn quantity_error() -> (e: BigNeonError)
    ensures
        e@ == ErrorView::Validation(quantity_failures()),
{
    let mut errors: Vec<FieldError> = Vec::new();
    errors.push(
        FieldError {
            field: Field::Quantity,
            error: ValidationError {
                code: ValidationCode::QuantityMustBePositive,
                params: ValidationParams::none(),
            },
        },
    );
    assert(errors@ =~= quantity_failures());
    BigNeonError::Validation(errors)
}

impl OrderItem {
    /// This line as it is shown in an image.
    pub open spec fn displayed(self, v: DatabaseView) -> DisplayOrderItem {
        DisplayOrderItem {
            id: self.id,
            ticket_type_id: self.ticket_type_id,
            ticket_pricing_id: self.ticket_pricing_id,
            quantity: self.quantity,
            unit_price_in_cents: v.unit_price(self),
        }
    }
}

impl DatabaseView {
    /// The price of one ticket of `item`: that of the ledger entry the item
    /// names, or nothing while it names none that the ledger holds.
    pub open spec fn unit_price(self, item: OrderItem) -> i64 {
        match item.ticket_pricing_id {
            Some(p) => if has_row(self.ticket_pricing, p) {
                row(self.ticket_pricing, p).price_in_cents
            } else {
                0
            },
            None => 0,
        }
    }

    /// What `item` adds to the total of order `order_id`.
    pub open spec fn line_total(self, item: OrderItem, order_id: Id) -> int {
        if item.order_id == order_id {
            item.quantity * self.unit_price(item)
        } else {
            0
        }
    }

    /// The sum over `items` of the quantity times the unit price, for the
    /// items of order `order_id`.
    pub open spec fn total_of(self, items: Seq<OrderItem>, order_id: Id) -> int
        decreases items.len(),
    {
        if items.len() == 0 {
            0
        } else {
            self.total_of(items.drop_last(), order_id) + self.line_total(items.last(), order_id)
        }
    }

    /// The total of order `order_id`, in cents: over its items, the sum of the
    /// quantity times the price of the ledger entry that the item names.
    pub open spec fn order_total(self, order_id: Id) -> int {
        self.total_of(self.order_items, order_id)
    }

    /// Whether the sum stays within 64 bits all the way as `items` are added up in their order.
    pub open spec fn total_in_range(self, items: Seq<OrderItem>, order_id: Id) -> bool
        decreases items.len(),
    {
        items.len() == 0 || (self.total_in_range(items.drop_last(), order_id) && i64::MIN
            <= self.total_of(items, order_id) <= i64::MAX)
    }

    /// The carts of `user_id`: the orders in `Draft` that are the user's.
    pub open spec fn carts_of(self, user_id: Id) -> Seq<Order> {
        self.orders.filter(|o: Order| o.user_id == Some(user_id) && o.status == OrderStatus::Draft)
    }

    /// The items of order `order_id`.
    pub open spec fn items_of(self, order_id: Id) -> Seq<OrderItem> {
        self.order_items.filter(|item: OrderItem| item.order_id == order_id)
    }

    /// The items of order `order_id` for `ticket_type_id` that entry `pricing_id` prices.
    pub open spec fn lines_of(self, order_id: Id, ticket_type_id: Id, pricing_id: Id) -> Seq<OrderItem> {
        self.order_items.filter(
            |item: OrderItem|
                item.order_id == order_id && item.ticket_type_id == ticket_type_id && item.ticket_pricing_id
                    == Some(pricing_id),
        )
    }

    /// Whether some order in `Draft` is `user_id`'s.
    pub open spec fn has_cart(self, user_id: Option<Id>) -> bool {
        user_id is Some && exists|i: int|
            0 <= i < self.orders.len() && (#[trigger] self.orders[i]).status == OrderStatus::Draft
                && self.orders[i].user_id == user_id
    }

    /// Why the image refuses to store `new` under `id`, if it does: the
    /// identity is taken, or the order would be a second cart of its buyer.
    pub open spec fn order_rejection(self, new: NewOrder, id: Id) -> Option<ErrorView> {
        if has_row(self.orders, id) {
            Some(ErrorView::DuplicateKey)
        } else if new.status == OrderStatus::Draft && self.has_cart(new.user_id) {
            Some(ErrorView::DuplicateKey)
        } else {
            None
        }
    }

    /// The image with the item at place `k` replaced by `item`.
    pub open spec fn with_item_at(self, k: int, item: OrderItem) -> DatabaseView {
        DatabaseView { order_items: self.order_items.update(k, item), ..self }
    }
}

impl NewOrder {
    /// The order that storing this record under `id` gives.
    pub open spec fn stored(self, id: Id) -> Order {
        Order {
            id,
            user_id: self.user_id,
            status: self.status,
            order_type: self.order_type,
            expires_at: self.expires_at,
        }
    }

    /// Stores the order under the identity `id`. It is refused, and the image
    /// left as it was, exactly where [`DatabaseView::order_rejection`] says so:
    /// no buyer ever has two carts.
    pub fn commit(self, id: Id, db: &mut Database) -> (r: Result<Order, BigNeonError>)
        requires
            old(db)@.wf(),
        ensures
            final(db)@.wf(),
            match r {
                Ok(o) => {
                    &&& old(db)@.order_rejection(self, id) is None
                    &&& o == self.stored(id)
                    &&& final(db)@ == (DatabaseView { orders: old(db)@.orders.push(o), ..old(db)@ })
                },
                Err(e) => old(db)@.order_rejection(self, id) == Some(e@) && final(db)@ == old(db)@,
            },
    {
        if position(&db.orders, id).is_some() {
            return Err(BigNeonError::DuplicateKey);
        }
        if self.status == OrderStatus::Draft && db.has_cart(self.user_id) {
            return Err(BigNeonError::DuplicateKey);
        }
        let o = Order {
            id,
            user_id: self.user_id,
            status: self.status,
            order_type: self.order_type,
            expires_at: self.expires_at,
        };
        proof {
            lemma_order_pushed(db@, o);
        }
        db.orders.push(o);
        Ok(o)
    }
}

impl Database {
    /// Whether some order in `Draft` is `user_id`'s.
    pub(crate) fn has_cart(&self, user_id: Option<Id>) -> (r: bool)
        ensures
            r == self@.has_cart(user_id),
    {
        let user = match user_id {
            Some(user) => user,
            None => {
                return false;
            },
        };
        let mut i: usize = 0;
        while i < self.orders.len()
            invariant
                i <= self.orders.len(),
                user_id == Some(user),
                forall|k: int|
                    0 <= k < i ==> !((#[trigger] self@.orders[k]).status == OrderStatus::Draft
                        && self@.orders[k].user_id == user_id),
            decreases self.orders.len() - i,
        {
            let o = &self.orders[i];
            let owned = match o.user_id {
                Some(owner) => owner == user,
                None => false,
            };
            if o.status == OrderStatus::Draft && owned {
                return true;
            }
            i += 1;
        }
        false
    }

    /// The price of one ticket of `item`.
    pub(crate) fn unit_price(&self, item: &OrderItem) -> (r: i64)
        requires
            self@.wf(),
        ensures
            r == self@.unit_price(*item),
    {
        match item.ticket_pricing_id {
            Some(p) => match position(&self.ticket_pricing, p) {
                Some(k) => self.ticket_pricing[k].price_in_cents,
                None => 0,
            },
            None => 0,
        }
    }
}

/// Storing an order under a new identity keeps the image well-formed, unless
/// it is a second cart of its buyer.
pub proof fn lemma_order_pushed(v: DatabaseView, o: Order)
    requires
        v.wf(),
        !has_row(v.orders, o.id),
        !(o.status == OrderStatus::Draft && v.has_cart(o.user_id)),
    ensures
        (DatabaseView { orders: v.orders.push(o), ..v }).wf(),
{
    let next = DatabaseView { orders: v.orders.push(o), ..v };
    let n = v.orders.len() as int;
    lemma_rows_pushed(v.orders, o);
    assert forall|i: int| 0 <= i < n implies (#[trigger] next.orders[i]) == v.orders[i] by {}
    assert(next.one_draft_per_user()) by {
        assert forall|i: int, j: int|
            0 <= i < j < next.orders.len() && (#[trigger] next.orders[i]).status == OrderStatus::Draft && (
            #[trigger] next.orders[j]).status == OrderStatus::Draft
                && next.orders[i].user_id is Some implies next.orders[i].user_id != next.orders[j].user_id by {
            if j == n {
                if v.orders[i].user_id == o.user_id {
                    assert(v.has_cart(o.user_id));
                }
            } else {
                assert(v.orders[i].status == OrderStatus::Draft && v.orders[j].status == OrderStatus::Draft);
            }
        }
    }
    assert(next.items_well_formed()) by {
        assert forall|i: int| 0 <= i < next.order_items.len() implies {
            let item = #[trigger] next.order_items[i];
            &&& has_row(next.orders, item.order_id)
            &&& item.quantity > 0
            &&& item.ticket_pricing_id matches Some(p) ==> has_row(next.ticket_pricing, p)
        } by {
            let item = v.order_items[i];
            assert(has_row(v.orders, item.order_id));
        }
    }
    assert(next.payments_well_formed()) by {
        assert forall|i: int| 0 <= i < next.payments.len() implies {
            let payment = #[trigger] next.payments[i];
            &&& has_row(next.orders, payment.order_id)
            &&& payment.status.is_live() ==> row(next.orders, payment.order_id).status == OrderStatus::Paid
        } by {
            let payment = v.payments[i];
            assert(has_row(v.orders, payment.order_id));
        }
    }
}

impl Order {
    /// A cart for `user_id` that has not been stored yet.
    pub fn create(user_id: Id, order_type: OrderTypes, expires_at: Timestamp) -> (r: NewOrder)
        ensures
            r == (NewOrder { user_id: Some(user_id), status: OrderStatus::Draft, order_type, expires_at }),
    {
        NewOrder { user_id: Some(user_id), status: OrderStatus::Draft, order_type, expires_at }
    }

    /// The order with identity `id`.
    pub fn find(id: Id, db: &Database) -> (r: Result<Order, BigNeonError>)
        ensures
            r is Ok <==> has_row(db@.orders, id),
            r matches Ok(o) ==> o.id == id && db@.orders.contains(o) && (db@.wf() ==> o == row(db@.orders, id)),
            r matches Err(e) ==> e@ == ErrorView::NotFound,
    {
        match position(&db.orders, id) {
            Some(i) => Ok(db.orders[i]),
            None => Err(BigNeonError::NotFound),
        }
    }

    /// The cart of `user_id`: the first of the user's orders in `Draft`, which
    /// in a well-formed image is the only one.
    pub fn find_cart_for_user(user_id: Id, db: &Database) -> (r: Result<Order, BigNeonError>)
        ensures
            r is Ok <==> db@.carts_of(user_id).len() > 0,
            r is Ok <==> db@.has_cart(Some(user_id)),
            r matches Ok(o) ==> o == db@.carts_of(user_id)[0] && has_row(db@.orders, o.id) && o.user_id == Some(
                user_id,
            ) && o.status == OrderStatus::Draft && (db@.wf() ==> o == row(db@.orders, o.id)),
            r matches Err(e) ==> e@ == ErrorView::NotFound,
    {
        let ghost pred = |o: Order| o.user_id == Some(user_id) && o.status == OrderStatus::Draft;
        let mut i: usize = 0;
        while i < db.orders.len()
            invariant
                i <= db.orders.len(),
                pred == |o: Order| o.user_id == Some(user_id) && o.status == OrderStatus::Draft,
                db@.orders.take(i as int).filter(pred).len() == 0,
                forall|k: int|
                    0 <= k < i ==> !((#[trigger] db@.orders[k]).status == OrderStatus::Draft
                        && db@.orders[k].user_id == Some(user_id)),
            decreases db.orders.len() - i,
        {
            proof {
                lemma_filter_step(db@.orders, i as int, pred);
            }
            let o = db.orders[i];
            let owned = match o.user_id {
                Some(owner) => owner == user_id,
                None => false,
            };
            if owned && o.status == OrderStatus::Draft {
                proof {
                    lemma_filter_first(db@.orders, i as int, pred);
                    assert(db@.orders[i as int].row_id() == o.id);
                    if db@.wf() {
                        lemma_row_index(db@.orders, i as int);
                    }
                }
                return Ok(o);
            }
            i += 1;
        }
        assert(db@.orders.take(i as int) == db@.orders);
        Err(BigNeonError::NotFound)
    }

    /// The cart of `user_id`; where the user has none, one is stored under the
    /// identity `id` and returned. Fails where that identity is taken.
    pub fn find_or_create_cart(user_id: Id, id: Id, expires_at: Timestamp, db: &mut Database) -> (r: Result<
        Order,
        BigNeonError,
    >)
        requires
            old(db)@.wf(),
        ensures
            final(db)@.wf(),
            match r {
                Ok(o) => if old(db)@.has_cart(Some(user_id)) {
                    o == old(db)@.carts_of(user_id)[0] && final(db)@ == old(db)@
                } else {
                    &&& !has_row(old(db)@.orders, id)
                    &&& o == (Order {
                        id,
                        user_id: Some(user_id),
                        status: OrderStatus::Draft,
                        order_type: OrderTypes::Cart,
                        expires_at,
                    })
                    &&& final(db)@ == (DatabaseView { orders: old(db)@.orders.push(o), ..old(db)@ })
                },
                Err(e) => {
                    &&& !old(db)@.has_cart(Some(user_id))
                    &&& has_row(old(db)@.orders, id)
                    &&& e@ == ErrorView::DuplicateKey
                    &&& final(db)@ == old(db)@
                },
            },
    {
        match Order::find_cart_for_user(user_id, db) {
            Ok(cart) => Ok(cart),
            Err(_) => Order::create(user_id, OrderTypes::Cart, expires_at).commit(id, db),
        }
    }

    pub fn status(&self) -> (r: OrderStatus)
        ensures
            r == self.status,
    {
        self.status
    }

    /// The item `cart_item_id` of this order.
    pub fn find_item(&self, cart_item_id: Id, db: &Database) -> (r: Result<OrderItem, BigNeonError>)
        requires
            db@.wf(),
        ensures
            r is Ok <==> has_row(db@.order_items, cart_item_id) && row(db@.order_items, cart_item_id).order_id
                == self.id,
            r matches Ok(item) ==> item == row(db@.order_items, cart_item_id),
            r matches Err(e) ==> e@ == ErrorView::ItemNotFound,
    {
        match position(&db.order_items, cart_item_id) {
            Some(k) => {
                let item = db.order_items[k];
                if item.order_id == self.id {
                    Ok(item)
                } else {
                    Err(BigNeonError::ItemNotFound)
                }
            },
            None => Err(BigNeonError::ItemNotFound),
        }
    }

    /// The items of this order, in the order in which they were stored.
    pub fn items(&self, db: &Database) -> (r: Vec<OrderItem>)
        ensures
            r@ == db@.items_of(self.id),
    {
        let ghost pred = |item: OrderItem| item.order_id == self.id;
        let mut out: Vec<OrderItem> = Vec::new();
        let mut i: usize = 0;
        assert(db@.order_items.take(0).filter(pred) =~= Seq::empty()) by {
            reveal(Seq::filter);
        }
        while i < db.order_items.len()
            invariant
                i <= db.order_items.len(),
                pred == |item: OrderItem| item.order_id == self.id,
                out@ == db@.order_items.take(i as int).filter(pred),
            decreases db.order_items.len() - i,
        {
            proof {
                lemma_filter_step(db@.order_items, i as int, pred);
            }
            if db.order_items[i].order_id == self.id {
                out.push(db.order_items[i]);
            }
            i += 1;
        }
        assert(db@.order_items.take(i as int) == db@.order_items);
        out
    }

    /// The items of this order as they are shown: each with the price of one ticket.
    pub fn items_for_display(&self, db: &Database) -> (r: Vec<DisplayOrderItem>)
        requires
            db@.wf(),
        ensures
            r@ == db@.items_of(self.id).map_values(|item: OrderItem| item.displayed(db@)),
    {
        let items = self.items(db);
        let mut out: Vec<DisplayOrderItem> = Vec::new();
        let mut i: usize = 0;
        while i < items.len()
            invariant
                i <= items.len(),
                db@.wf(),
                out@ == items@.take(i as int).map_values(|item: OrderItem| item.displayed(db@)),
            decreases items.len() - i,
        {
            let item = items[i];
            out.push(
                DisplayOrderItem {
                    id: item.id,
                    ticket_type_id: item.ticket_type_id,
                    ticket_pricing_id: item.ticket_pricing_id,
                    quantity: item.quantity,
                    unit_price_in_cents: db.unit_price(&item),
                },
            );
            proof {
                assert(items@.take(i + 1) =~= items@.take(i as int).push(items@[i as int]));
                assert(out@ =~= items@.take(i + 1).map_values(|item: OrderItem| item.displayed(db@)));
            }
            i += 1;
        }
        assert(items@.take(i as int) == items@);
        out
    }

    /// The total of this order in cents: see [`DatabaseView::order_total`].
    /// It is computed from the items and the ledger each time. Fails with
    /// `NumericOverflow` exactly if the sum leaves 64 bits on the way.
    pub fn calculate_total(&self, db: &Database) -> (r: Result<i64, BigNeonError>)
        requires
            db@.wf(),
        ensures
            r is Ok <==> db@.total_in_range(db@.order_items, self.id),
            r matches Ok(total) ==> total == db@.order_total(self.id),
            r matches Err(e) ==> e@ == ErrorView::NumericOverflow,
    {
        let mut total: i64 = 0;
        let mut i: usize = 0;
        while i < db.order_items.len()
            invariant
                i <= db.order_items.len(),
                db@.wf(),
                db@.total_in_range(db@.order_items.take(i as int), self.id),
                total == db@.total_of(db@.order_items.take(i as int), self.id),
            decreases db.order_items.len() - i,
        {
            let item = db.order_items[i];
            proof {
                assert(db@.order_items.take(i + 1).drop_last() =~= db@.order_items.take(i as int));
                assert(db@.order_items.take(i + 1).last() == item);
            }
            if item.order_id == self.id {
                let price = db.unit_price(&item);
                assert(-0x4000_0000_0000_0000_0000_0000_0000_0000 <= item.quantity * price
                    <= 0x4000_0000_0000_0000_0000_0000_0000_0000) by (nonlinear_arith)
                    requires
                        -0x8000_0000_0000_0000 <= item.quantity <= 0x8000_0000_0000_0000,
                        -0x8000_0000_0000_0000 <= price <= 0x8000_0000_0000_0000,
                ;
                let line: i128 = (item.quantity as i128) * (price as i128);
                let next: i128 = (total as i128) + line;
                if next < (i64::MIN as i128) || next > (i64::MAX as i128) {
                    proof {
                        lemma_total_out_of_range(db@, db@.order_items, i + 1, self.id);
                    }
                    return Err(BigNeonError::NumericOverflow);
                }
                total = next as i64;
            }
            i += 1;
        }
        assert(db@.order_items.take(i as int) == db@.order_items);
        Ok(total)
    }
}

impl DatabaseView {
    /// Why `quantity` tickets of `ticket_type_id` cannot be added to order
    /// `order_id` at the moment `now`, if they cannot.
    ///
    /// The order must exist and be in `Draft`; the quantity must be positive
    /// and within `available`, the capacity that is left; one price must apply
    /// (asked as by anyone but the box office). Where the order has a line at
    /// that price already, the sum must stay within 64 bits; where it has none,
    /// `item_id` must be free for the new line.
    pub open spec fn add_tickets_rejection(
        self,
        order_id: Id,
        ticket_type_id: Id,
        quantity: i64,
        available: i64,
        item_id: Id,
        now: Timestamp,
    ) -> Option<ErrorView> {
        if !has_row(self.orders, order_id) {
            Some(ErrorView::NotFound)
        } else if row(self.orders, order_id).status != OrderStatus::Draft {
            Some(ErrorView::StateConflict)
        } else if quantity <= 0 {
            Some(ErrorView::Validation(quantity_failures()))
        } else if quantity > available {
            Some(ErrorView::InventoryUnavailable)
        } else {
            match self.current_pricing(ticket_type_id, false, false, now) {
                Err(e) => Some(e),
                Ok(p) => {
                    let lines = self.lines_of(order_id, ticket_type_id, p.id);
                    if lines.len() > 0 {
                        if lines[0].quantity + quantity > i64::MAX {
                            Some(ErrorView::NumericOverflow)
                        } else {
                            None
                        }
                    } else if has_row(self.order_items, item_id) {
                        Some(ErrorView::DuplicateKey)
                    } else {
                        None
                    }
                },
            }
        }
    }

    /// The image after `quantity` tickets of `ticket_type_id` were added to
    /// order `order_id` at the moment `now`, where that is not refused: the
    /// first line of the order at the price that applies has `quantity` more,
    /// or, where there is no such line, a new line `item_id` holds them. The
    /// line names the ledger entry, so that its price is the one that applied
    /// when the tickets were added.
    pub open spec fn tickets_added(
        self,
        order_id: Id,
        ticket_type_id: Id,
        quantity: i64,
        item_id: Id,
        now: Timestamp,
    ) -> DatabaseView {
        let p = self.current_pricing(ticket_type_id, false, false, now)->Ok_0;
        let lines = self.lines_of(order_id, ticket_type_id, p.id);
        if lines.len() > 0 {
            self.with_item_at(
                row_index(self.order_items, lines[0].id),
                OrderItem { quantity: (lines[0].quantity + quantity) as i64, ..lines[0] },
            )
        } else {
            DatabaseView {
                order_items: self.order_items.push(
                    OrderItem {
                        id: item_id,
                        order_id,
                        ticket_type_id,
                        ticket_pricing_id: Some(p.id),
                        quantity,
                    },
                ),
                ..self
            }
        }
    }

    /// Why tickets cannot be removed from item `item_id` of order `order_id`,
    /// if they cannot: the order must exist and be in `Draft`, the item must
    /// be one of the order, and a quantity, if one is given, must be positive.
    pub open spec fn remove_tickets_rejection(self, order_id: Id, item_id: Id, quantity: Option<i64>) -> Option<
        ErrorView,
    > {
        if !has_row(self.orders, order_id) {
            Some(ErrorView::NotFound)
        } else if row(self.orders, order_id).status != OrderStatus::Draft {
            Some(ErrorView::StateConflict)
        } else if !has_row(self.order_items, item_id) || row(self.order_items, item_id).order_id != order_id {
            Some(ErrorView::ItemNotFound)
        } else if quantity matches Some(q) && q <= 0 {
            Some(ErrorView::Validation(quantity_failures()))
        } else {
            None
        }
    }

    /// The image after tickets were removed from item `item_id`, where that is
    /// not refused: the item is gone if no quantity is given or the quantity
    /// covers what the item holds; otherwise the item holds that many fewer.
    pub open spec fn tickets_removed(self, item_id: Id, quantity: Option<i64>) -> DatabaseView {
        let k = row_index(self.order_items, item_id);
        let item = self.order_items[k];
        match quantity {
            Some(q) if q < item.quantity => self.with_item_at(
                k,
                OrderItem { quantity: (item.quantity - q) as i64, ..item },
            ),
            _ => DatabaseView { order_items: self.order_items.remove(k), ..self },
        }
    }
}

/// Changing the quantity of an item to another positive one keeps the image well-formed.
pub proof fn lemma_item_replaced(v: DatabaseView, k: int, item: OrderItem)
    requires
        v.wf(),
        0 <= k < v.order_items.len(),
        item.quantity > 0,
        item == (OrderItem { quantity: item.quantity, ..v.order_items[k] }),
    ensures
        v.with_item_at(k, item).wf(),
{
    let next = v.with_item_at(k, item);
    lemma_rows_updated(v.order_items, k, item);
    assert forall|i: int| 0 <= i < next.order_items.len() implies {
        let it = #[trigger] next.order_items[i];
        &&& has_row(next.orders, it.order_id)
        &&& it.quantity > 0
        &&& it.ticket_pricing_id matches Some(p) ==> has_row(next.ticket_pricing, p)
    } by {
        let it = v.order_items[i];
        assert(has_row(v.orders, it.order_id));
    }
}

/// Removing an item keeps the image well-formed.
pub proof fn lemma_item_removed(v: DatabaseView, k: int)
    requires
        v.wf(),
        0 <= k < v.order_items.len(),
    ensures
        (DatabaseView { order_items: v.order_items.remove(k), ..v }).wf(),
{
    let next = DatabaseView { order_items: v.order_items.remove(k), ..v };
    lemma_rows_removed(v.order_items, k);
    assert forall|i: int| 0 <= i < next.order_items.len() implies {
        let it = #[trigger] next.order_items[i];
        &&& has_row(next.orders, it.order_id)
        &&& it.quantity > 0
        &&& it.ticket_pricing_id matches Some(p) ==> has_row(next.ticket_pricing, p)
    } by {
        let it = v.order_items[if i < k { i } else { i + 1 }];
        assert(has_row(v.orders, it.order_id));
    }
}

/// Storing an item with a positive quantity, of an order and at an entry that
/// the image holds, under a new identity, keeps the image well-formed.
pub proof fn lemma_item_pushed(v: DatabaseView, item: OrderItem)
    requires
        v.wf(),
        !has_row(v.order_items, item.id),
        has_row(v.orders, item.order_id),
        item.quantity > 0,
        item.ticket_pricing_id matches Some(p) ==> has_row(v.ticket_pricing, p),
    ensures
        (DatabaseView { order_items: v.order_items.push(item), ..v }).wf(),
{
    let next = DatabaseView { order_items: v.order_items.push(item), ..v };
    lemma_rows_pushed(v.order_items, item);
    assert forall|i: int| 0 <= i < next.order_items.len() implies {
        let it = #[trigger] next.order_items[i];
        &&& has_row(next.orders, it.order_id)
        &&& it.quantity > 0
        &&& it.ticket_pricing_id matches Some(p) ==> has_row(next.ticket_pricing, p)
    } by {
        if i < v.order_items.len() {
            let it = v.order_items[i];
            assert(has_row(v.orders, it.order_id));
        }
    }
}

impl Order {
    /// Adds `quantity` tickets of `ticket_type_id` to the order of the image
    /// that has this order's identity, at the price that applies at `now`:
    /// see [`DatabaseView::tickets_added`]. `available` is the capacity that
    /// is left for the ticket type, and `item_id` the identity of the line,
    /// should a new one be needed.
    ///
    /// It is refused, and the image left as it was, exactly where
    /// [`DatabaseView::add_tickets_rejection`] says so.
    pub fn add_tickets(
        &self,
        ticket_type_id: Id,
        quantity: i64,
        available: i64,
        item_id: Id,
        now: Timestamp,
        db: &mut Database,
    ) -> (r: Result<(), BigNeonError>)
        requires
            old(db)@.wf(),
        ensures
            final(db)@.wf(),
            match r {
                Ok(_) => {
                    &&& old(db)@.add_tickets_rejection(self.id, ticket_type_id, quantity, available, item_id, now)
                        is None
                    &&& final(db)@ == old(db)@.tickets_added(self.id, ticket_type_id, quantity, item_id, now)
                },
                Err(e) => {
                    &&& old(db)@.add_tickets_rejection(self.id, ticket_type_id, quantity, available, item_id, now)
                        == Some(e@)
                    &&& final(db)@ == old(db)@
                },
            },
    {
        let order = match position(&db.orders, self.id) {
            Some(k) => db.orders[k],
            None => {
                return Err(BigNeonError::NotFound);
            },
        };
        if order.status != OrderStatus::Draft {
            return Err(BigNeonError::StateConflict);
        }
        if quantity <= 0 {
            return Err(quantity_error());
        }
        if quantity > available {
            return Err(BigNeonError::InventoryUnavailable);
        }
        let pricing = match TicketPricing::get_current_ticket_pricing(ticket_type_id, false, false, now, db) {
            Ok(p) => p,
            Err(e) => {
                return Err(e);
            },
        };
        proof {
            let k = choose|k: int| 0 <= k < db@.ticket_pricing.len() && db@.ticket_pricing[k] == pricing;
            assert(db@.ticket_pricing[k].row_id() == pricing.id);
        }
        match db.first_line(self.id, ticket_type_id, pricing.id) {
            Some(k) => {
                let line = db.order_items[k];
                if line.quantity > i64::MAX - quantity {
                    return Err(BigNeonError::NumericOverflow);
                }
                let grown = OrderItem {
                    id: line.id,
                    order_id: line.order_id,
                    ticket_type_id: line.ticket_type_id,
                    ticket_pricing_id: line.ticket_pricing_id,
                    quantity: line.quantity + quantity,
                };
                proof {
                    lemma_item_replaced(db@, k as int, grown);
                }
                db.order_items.set(k, grown);
            },
            None => {
                if position(&db.order_items, item_id).is_some() {
                    return Err(BigNeonError::DuplicateKey);
                }
                let item = OrderItem {
                    id: item_id,
                    order_id: self.id,
                    ticket_type_id,
                    ticket_pricing_id: Some(pricing.id),
                    quantity,
                };
                proof {
                    lemma_item_pushed(db@, item);
                }
                db.order_items.push(item);
            },
        }
        Ok(())
    }

    /// Removes tickets from the item of the image that has the identity of
    /// `order_item`: `quantity` of them, or all where none is given. See
    /// [`DatabaseView::tickets_removed`].
    ///
    /// It is refused, and the image left as it was, exactly where
    /// [`DatabaseView::remove_tickets_rejection`] says so.
    pub fn remove_tickets(&self, order_item: OrderItem, quantity: Option<i64>, db: &mut Database) -> (r: Result<
        (),
        BigNeonError,
    >)
        requires
            old(db)@.wf(),
        ensures
            final(db)@.wf(),
            match r {
                Ok(_) => {
                    &&& old(db)@.remove_tickets_rejection(self.id, order_item.id, quantity) is None
                    &&& final(db)@ == old(db)@.tickets_removed(order_item.id, quantity)
                },
                Err(e) => {
                    &&& old(db)@.remove_tickets_rejection(self.id, order_item.id, quantity) == Some(e@)
                    &&& final(db)@ == old(db)@
                },
            },
    {
        let order = match position(&db.orders, self.id) {
            Some(k) => db.orders[k],
            None => {
                return Err(BigNeonError::NotFound);
            },
        };
        if order.status != OrderStatus::Draft {
            return Err(BigNeonError::StateConflict);
        }
        let k = match position(&db.order_items, order_item.id) {
            Some(k) => k,
            None => {
                return Err(BigNeonError::ItemNotFound);
            },
        };
        let item = db.order_items[k];
        if item.order_id != self.id {
            return Err(BigNeonError::ItemNotFound);
        }
        let keep = match quantity {
            Some(q) => {
                if q <= 0 {
                    return Err(quantity_error());
                }
                if q < item.quantity {
                    Some(item.quantity - q)
                } else {
                    None
                }
            },
            None => None,
        };
        match keep {
            Some(left) => {
                let shrunk = OrderItem {
                    id: item.id,
                    order_id: item.order_id,
                    ticket_type_id: item.ticket_type_id,
                    ticket_pricing_id: item.ticket_pricing_id,
                    quantity: left,
                };
                proof {
                    lemma_item_replaced(db@, k as int, shrunk);
                }
                db.order_items.set(k, shrunk);
            },
            None => {
                proof {
                    lemma_item_removed(db@, k as int);
                }
                db.order_items.remove(k);
            },
        }
        Ok(())
    }
}

impl Database {
    /// The place of the first item of order `order_id` for `ticket_type_id`
    /// that entry `pricing_id` prices.
    pub(crate) fn first_line(&self, order_id: Id, ticket_type_id: Id, pricing_id: Id) -> (r: Option<usize>)
        requires
            self@.wf(),
        ensures
            r is Some <==> self@.lines_of(order_id, ticket_type_id, pricing_id).len() > 0,
            r matches Some(k) ==> k < self@.order_items.len() && self@.order_items[k as int] == self@.lines_of(
                order_id,
                ticket_type_id,
                pricing_id,
            )[0] && row_index(self@.order_items, self@.order_items[k as int].id) == k,
    {
        let ghost pred = |item: OrderItem|
            item.order_id == order_id && item.ticket_type_id == ticket_type_id && item.ticket_pricing_id == Some(
                pricing_id,
            );
        let mut i: usize = 0;
        while i < self.order_items.len()
            invariant
                i <= self.order_items.len(),
                self@.wf(),
                pred == |item: OrderItem|
                    item.order_id == order_id && item.ticket_type_id == ticket_type_id && item.ticket_pricing_id
                        == Some(pricing_id),
                self@.order_items.take(i as int).filter(pred).len() == 0,
            decreases self.order_items.len() - i,
        {
            proof {
                lemma_filter_step(self@.order_items, i as int, pred);
            }
            let item = &self.order_items[i];
            let priced = match item.ticket_pricing_id {
                Some(p) => p == pricing_id,
                None => false,
            };
            if item.order_id == order_id && item.ticket_type_id == ticket_type_id && priced {
                proof {
                    lemma_filter_first(self@.order_items, i as int, pred);
                    lemma_row_index(self@.order_items, i as int);
                }
                return Some(i);
            }
            i += 1;
        }
        assert(self@.order_items.take(i as int) == self@.order_items);
        None
    }
}

impl DatabaseView {
    /// Whether every order has the same total in `next` as in this image.
    pub open spec fn keeps_totals(self, next: DatabaseView) -> bool {
        forall|order_id: Id| #[trigger] next.order_total(order_id) == self.order_total(order_id)
    }
}

/// The total of an order depends on the ledger only through the prices of the
/// entries that its items name: a change of the ledger that keeps those
/// entries at their prices, and leaves the items alone, leaves every total as
/// it was.
pub proof fn lemma_totals_kept(a: DatabaseView, b: DatabaseView)
    requires
        a.wf(),
        a.keeps_referenced_prices(b),
        b.order_items == a.order_items,
    ensures
        a.keeps_totals(b),
{
    assert forall|order_id: Id| #[trigger] b.order_total(order_id) == a.order_total(order_id) by {
        lemma_total_of_kept(a, b, a.order_items.len() as int, order_id);
        assert(a.order_items.take(a.order_items.len() as int) =~= a.order_items);
    }
}

proof fn lemma_total_of_kept(a: DatabaseView, b: DatabaseView, n: int, order_id: Id)
    requires
        a.wf(),
        a.keeps_referenced_prices(b),
        0 <= n <= a.order_items.len(),
    ensures
        b.total_of(a.order_items.take(n), order_id) == a.total_of(a.order_items.take(n), order_id),
    decreases n,
{
    if n > 0 {
        let items = a.order_items.take(n);
        assert(items.drop_last() =~= a.order_items.take(n - 1));
        lemma_total_of_kept(a, b, n - 1, order_id);
        let item = a.order_items[n - 1];
        assert(items.last() == item);
        assert(a.price_kept(b, item));
        assert(has_row(a.orders, item.order_id));
    }
}

/// Once the running sum has left 64 bits, it counts as out of range however
/// many items follow.
pub proof fn lemma_total_out_of_range(v: DatabaseView, items: Seq<OrderItem>, n: int, order_id: Id)
    requires
        0 <= n <= items.len(),
        !v.total_in_range(items.take(n), order_id),
    ensures
        !v.total_in_range(items, order_id),
    decreases items.len() - n,
{
    if n < items.len() {
        assert(items.take(n + 1).drop_last() =~= items.take(n));
        lemma_total_out_of_range(v, items, n + 1, order_id);
    } else {
        assert(items.take(n) =~= items);
    }
}

impl DatabaseView {
    /// Why `item` cannot be taken into the image as it is, if it cannot: its
    /// identity must be free, its order and the entry that prices it must be
    /// in the image, and its quantity must be positive.
    pub open spec fn item_rejection(self, item: OrderItem) -> Option<ErrorView> {
        if has_row(self.order_items, item.id) {
            Some(ErrorView::DuplicateKey)
        } else if !has_row(self.orders, item.order_id) {
            Some(ErrorView::NotFound)
        } else if item.ticket_pricing_id matches Some(p) && !has_row(self.ticket_pricing, p) {
            Some(ErrorView::NotFound)
        } else if item.quantity <= 0 {
            Some(ErrorView::Validation(quantity_failures()))
        } else {
            None
        }
    }
}

impl Database {
    /// Takes an item into the image as it is, as when the image is loaded
    /// from the store. It is refused, and the image left as it was, exactly
    /// where [`DatabaseView::item_rejection`] says so.
    pub fn load_order_item(&mut self, item: OrderItem) -> (r: Result<(), BigNeonError>)
        requires
            old(self)@.wf(),
        ensures
            final(self)@.wf(),
            match r {
                Ok(_) => {
                    &&& old(self)@.item_rejection(item) is None
                    &&& final(self)@ == (DatabaseView {
                        order_items: old(self)@.order_items.push(item),
                        ..old(self)@
                    })
                },
                Err(e) => old(self)@.item_rejection(item) == Some(e@) && final(self)@ == old(self)@,
            },
    {
        if position(&self.order_items, item.id).is_some() {
            return Err(BigNeonError::DuplicateKey);
        }
        if position(&self.orders, item.order_id).is_none() {
            return Err(BigNeonError::NotFound);
        }
        match item.ticket_pricing_id {
            Some(p) => {
                if position(&self.ticket_pricing, p).is_none() {
                    return Err(BigNeonError::NotFound);
                }
            },
            None => {},
        }
        if item.quantity <= 0 {
            return Err(quantity_error());
        }
        proof {
            lemma_item_pushed(self@, item);
        }
        self.order_items.push(item);
        Ok(())
    }
}

/// In a well-formed image no buyer has two carts.
pub proof fn law_one_cart_per_buyer(v: DatabaseView, user_id: Id)
    requires
        v.wf(),
    ensures
        v.carts_of(user_id).len() <= 1,
{
    let pred = |o: Order| o.user_id == Some(user_id) && o.status == OrderStatus::Draft;
    if v.orders.filter(pred).len() > 1 {
        lemma_filter_two(v.orders, pred);
        let (i, j) = choose|i: int, j: int|
            0 <= i < j < v.orders.len() && pred(#[trigger] v.orders[i]) && pred(#[trigger] v.orders[j]);
        assert(v.orders[i].user_id != v.orders[j].user_id);
    }
}

} // verus!
