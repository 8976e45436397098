//! Payments against orders.

use vstd::prelude::*;
use crate::Id;
use crate::database::has_row;
use crate::database::lemma_row_index;
use crate::database::lemma_rows_pushed;
use crate::database::lemma_rows_removed;
use crate::database::lemma_rows_updated;
use crate::database::position;
use crate::database::row;
use crate::database::row_index;
use crate::database::Database;
use crate::database::DatabaseView;
use crate::database::Row;
use crate::errors::BigNeonError;
use crate::errors::ErrorView;
use crate::models::domain_events::DomainEvent;
use crate::models::domain_events::DomainEventView;
use crate::models::domain_events::EventData;
use crate::models::enums::DomainEventTypes;
use crate::models::enums::Tables;
use crate::models::enums::OrderStatus;
use crate::models::enums::PaymentMethods;
use crate::models::enums::PaymentProviders;
use crate::models::enums::PaymentStatus;
use crate::models::orders::Order;

verus! {

#[derive(Debug, PartialEq, Eq)]
pub struct Payment {
    pub id: Id,
    pub order_id: Id,
    pub created_by: Id,
    pub status: PaymentStatus,
    pub payment_method: PaymentMethods,
    pub amount: i64,
    pub provider: PaymentProviders,
    /// The gateway's transaction id, or the reference of an external payment.
    pub external_reference: String,
    /// What the gateway last answered, kept as it came.
    pub raw_data: Option<String>,
}

impl Row for Payment {
    open spec fn row_id(&self) -> Id {
        self.id
    }

    fn id(&self) -> (r: Id) {
        self.id
    }
}

impl Clone for Payment {
    fn clone(&self) -> (r: Self)
        ensures
            r == *self,
    {
        Payment {
            id: self.id,
            order_id: self.order_id,
            created_by: self.created_by,
            status: self.status,
            payment_method: self.payment_method,
            amount: self.amount,
            provider: self.provider,
            external_reference: self.external_reference.clone(),
            raw_data: match &self.raw_data {
                Some(d) => Some(d.clone()),
                None => None,
            },
        }
    }
}

/// The audit event for a payment that was recorded.
pub open spec fn payment_created_event(payment_id: Id, user_id: Id) -> DomainEventView {
    DomainEventView {
        event_type: DomainEventTypes::PaymentCreated,
        display_text: "Payment created"@,
        main_table: Tables::Payments,
        main_id: Some(payment_id),
        user_id: Some(user_id),
        event_data: EventData::Nothing,
    }
}

/// The audit event for a payment that was completed.
pub open spec fn payment_completed_event(payment_id: Id, user_id: Id) -> DomainEventView {
    DomainEventView {
        event_type: DomainEventTypes::PaymentCompleted,
        display_text: "Payment completed"@,
        main_table: Tables::Payments,
        main_id: Some(payment_id),
        user_id: Some(user_id),
        event_data: EventData::Nothing,
    }
}

/// The audit event for an order that was paid.
pub open spec fn order_completed_event(order_id: Id, user_id: Id) -> DomainEventView {
    DomainEventView {
        event_type: DomainEventTypes::OrderCompleted,
        display_text: "Order completed"@,
        main_table: Tables::Orders,
        main_id: Some(order_id),
        user_id: Some(user_id),
        event_data: EventData::Nothing,
    }
}

impl Database {
    pub(crate) fn emit_payment_created(&mut self, payment_id: Id, user_id: Id)
        ensures
            final(self)@ == old(self)@.with_event(payment_created_event(payment_id, user_id)),
    {
        self.emit(
            DomainEvent::create(
                DomainEventTypes::PaymentCreated,
                String::from_str("Payment created"),
                Tables::Payments,
                Some(payment_id),
                Some(user_id),
                EventData::Nothing,
            ),
        );
    }

    pub(crate) fn emit_payment_completed(&mut self, payment_id: Id, user_id: Id)
        ensures
            final(self)@ == old(self)@.with_event(payment_completed_event(payment_id, user_id)),
    {
        self.emit(
            DomainEvent::create(
                DomainEventTypes::PaymentCompleted,
                String::from_str("Payment completed"),
                Tables::Payments,
                Some(payment_id),
                Some(user_id),
                EventData::Nothing,
            ),
        );
    }

    pub(crate) fn emit_order_completed(&mut self, order_id: Id, user_id: Id)
        ensures
            final(self)@ == old(self)@.with_event(order_completed_event(order_id, user_id)),
    {
        self.emit(
            DomainEvent::create(
                DomainEventTypes::OrderCompleted,
                String::from_str("Order completed"),
                Tables::Orders,
                Some(order_id),
                Some(user_id),
                EventData::Nothing,
            ),
        );
    }
}

impl Order {
    /// This order, paid.
    pub open spec fn paid(self) -> Order {
        Order { status: OrderStatus::Paid, ..self }
    }
}

impl Payment {
    /// This payment, completed, with `raw_data` as the gateway's last answer.
    pub open spec fn completed(self, raw_data: String) -> Payment {
        Payment { status: PaymentStatus::Completed, raw_data: Some(raw_data), ..self }
    }
}

impl DatabaseView {
    /// Why a payment `payment_id` cannot be recorded against order `order_id`,
    /// if it cannot: the order must exist and be in `Draft`, and the identity
    /// must be free.
    pub open spec fn payment_rejection(self, order_id: Id, payment_id: Id) -> Option<ErrorView> {
        if !has_row(self.orders, order_id) {
            Some(ErrorView::NotFound)
        } else if row(self.orders, order_id).status != OrderStatus::Draft {
            Some(ErrorView::StateConflict)
        } else if has_row(self.payments, payment_id) {
            Some(ErrorView::DuplicateKey)
        } else {
            None
        }
    }

    /// The image after `payment` was recorded against its order, which the
    /// image holds: the payment is appended, and the order is `Paid` if the
    /// payment holds or has taken the money.
    pub open spec fn with_payment(self, payment: Payment) -> DatabaseView {
        let k = row_index(self.orders, payment.order_id);
        DatabaseView {
            orders: if payment.status.is_live() {
                self.orders.update(k, self.orders[k].paid())
            } else {
                self.orders
            },
            payments: self.payments.push(payment),
            ..self
        }
    }

    /// Why payment `payment_id` cannot be completed, if it cannot: it must
    /// exist and be `Authorized`.
    pub open spec fn completion_rejection(self, payment_id: Id) -> Option<ErrorView> {
        if !has_row(self.payments, payment_id) {
            Some(ErrorView::NotFound)
        } else if row(self.payments, payment_id).status != PaymentStatus::Authorized {
            Some(ErrorView::StateConflict)
        } else {
            None
        }
    }

    /// The image after payment `payment_id`, which it holds, was completed.
    pub open spec fn with_payment_completed(self, payment_id: Id, raw_data: String) -> DatabaseView {
        let k = row_index(self.payments, payment_id);
        DatabaseView { payments: self.payments.update(k, self.payments[k].completed(raw_data)), ..self }
    }

    /// The image after the record of payment `payment_id` against order
    /// `order_id` was taken back: the payment is gone, and the order, if the
    /// payment had made it `Paid`, is in `Draft` again, or `Cancelled` where
    /// its buyer has another cart by now. Where the image holds no such
    /// payment of that order, nothing changes.
    pub open spec fn with_payment_undone(self, order_id: Id, payment_id: Id) -> DatabaseView {
        if has_row(self.payments, payment_id) && row(self.payments, payment_id).order_id == order_id {
            let k = row_index(self.payments, payment_id);
            let o = row_index(self.orders, order_id);
            let order = self.orders[o];
            DatabaseView {
                orders: if self.payments[k].status.is_live() {
                    self.orders.update(
                        o,
                        Order {
                            status: if self.has_cart(order.user_id) {
                                OrderStatus::Cancelled
                            } else {
                                OrderStatus::Draft
                            },
                            ..order
                        },
                    )
                } else {
                    self.orders
                },
                payments: self.payments.remove(k),
                ..self
            }
        } else {
            self
        }
    }
}

/// Recording a payment under a new identity against an order in `Draft` keeps
/// the image well-formed.
pub proof fn lemma_payment_added(v: DatabaseView, payment: Payment)
    requires
        v.wf(),
        v.payment_rejection(payment.order_id, payment.id) is None,
    ensures
        v.with_payment(payment).wf(),
        has_row(v.with_payment(payment).orders, payment.order_id),
        row(v.with_payment(payment).orders, payment.order_id) == if payment.status.is_live() {
            row(v.orders, payment.order_id).paid()
        } else {
            row(v.orders, payment.order_id)
        },
{
    let next = v.with_payment(payment);
    let k = row_index(v.orders, payment.order_id);
    let n = v.payments.len() as int;
    lemma_row_index(v.orders, k);
    lemma_rows_pushed(v.payments, payment);
    if payment.status.is_live() {
        lemma_rows_updated(v.orders, k, v.orders[k].paid());
    }
    assert forall|i: int| 0 <= i < v.orders.len() implies (#[trigger] next.orders[i]).id == v.orders[i].id
        && next.orders[i].user_id == v.orders[i].user_id && (i != k ==> next.orders[i] == v.orders[i]) && (
    next.orders[i].status == OrderStatus::Draft ==> v.orders[i].status == OrderStatus::Draft) by {}
    assert(next.one_draft_per_user()) by {
        assert forall|i: int, j: int|
            0 <= i < j < next.orders.len() && (#[trigger] next.orders[i]).status == OrderStatus::Draft && (
            #[trigger] next.orders[j]).status == OrderStatus::Draft
                && next.orders[i].user_id is Some implies next.orders[i].user_id != next.orders[j].user_id by {
            assert(v.orders[i].status == OrderStatus::Draft && v.orders[j].status == OrderStatus::Draft);
        }
    }
    assert(next.items_well_formed()) by {
        assert forall|i: int| 0 <= i < next.order_items.len() implies {
            let item = #[trigger] next.order_items[i];
            &&& has_row(next.orders, item.order_id)
            &&& item.quantity > 0
            &&& item.ticket_pricing_id matches Some(p) ==> has_row(next.ticket_pricing, p)
        } by {
            let item = v.order_items[i];
            assert(has_row(v.orders, item.order_id));
        }
    }
    assert forall|i: int| 0 <= i < n implies (#[trigger] next.payments[i]) == v.payments[i] by {}
    assert forall|i: int| 0 <= i < n && (#[trigger] v.payments[i]).status.is_live() implies v.payments[i].order_id
        != payment.order_id by {
        assert(has_row(v.orders, v.payments[i].order_id));
    }
    assert(next.payments_well_formed()) by {
        assert forall|i: int| 0 <= i < next.payments.len() implies {
            let p = #[trigger] next.payments[i];
            &&& has_row(next.orders, p.order_id)
            &&& p.status.is_live() ==> row(next.orders, p.order_id).status == OrderStatus::Paid
        } by {
            if i < n {
                let p = v.payments[i];
                assert(has_row(v.orders, p.order_id));
            }
        }
    }
    assert(next.one_live_payment_per_order()) by {
        assert forall|i: int, j: int|
            0 <= i < j < next.payments.len() && (#[trigger] next.payments[i]).status.is_live() && (
            #[trigger] next.payments[j]).status.is_live() implies next.payments[i].order_id
            != next.payments[j].order_id by {
            if j < n {
                assert(v.payments[i].status.is_live() && v.payments[j].status.is_live());
            }
        }
    }
}

/// Completing an authorized payment keeps the image well-formed.
pub proof fn lemma_payment_completed(v: DatabaseView, payment_id: Id, raw_data: String)
    requires
        v.wf(),
        v.completion_rejection(payment_id) is None,
    ensures
        v.with_payment_completed(payment_id, raw_data).wf(),
{
    let next = v.with_payment_completed(payment_id, raw_data);
    let k = row_index(v.payments, payment_id);
    lemma_row_index(v.payments, k);
    lemma_rows_updated(v.payments, k, v.payments[k].completed(raw_data));
    assert forall|i: int| 0 <= i < v.payments.len() implies (#[trigger] next.payments[i]).order_id
        == v.payments[i].order_id && (next.payments[i].status.is_live() ==> v.payments[i].status.is_live()) by {}
    assert(next.payments_well_formed()) by {
        assert forall|i: int| 0 <= i < next.payments.len() implies {
            let p = #[trigger] next.payments[i];
            &&& has_row(next.orders, p.order_id)
            &&& p.status.is_live() ==> row(next.orders, p.order_id).status == OrderStatus::Paid
        } by {
            let p = v.payments[i];
            assert(has_row(v.orders, p.order_id));
        }
    }
    assert(next.one_live_payment_per_order()) by {
        assert forall|i: int, j: int|
            0 <= i < j < next.payments.len() && (#[trigger] next.payments[i]).status.is_live() && (
            #[trigger] next.payments[j]).status.is_live() implies next.payments[i].order_id
            != next.payments[j].order_id by {
            assert(v.payments[i].status.is_live() && v.payments[j].status.is_live());
        }
    }
}

/// Taking back the record of a payment keeps the image well-formed.
pub proof fn lemma_payment_undone(v: DatabaseView, order_id: Id, payment_id: Id)
    requires
        v.wf(),
    ensures
        v.with_payment_undone(order_id, payment_id).wf(),
{
    if has_row(v.payments, payment_id) && row(v.payments, payment_id).order_id == order_id {
        let next = v.with_payment_undone(order_id, payment_id);
        let k = row_index(v.payments, payment_id);
        let payment = v.payments[k];
        lemma_row_index(v.payments, k);
        assert(has_row(v.orders, payment.order_id));
        let o = row_index(v.orders, order_id);
        lemma_row_index(v.orders, o);
        let order = v.orders[o];
        lemma_rows_removed(v.payments, k);
        assert forall|i: int| 0 <= i < next.payments.len() implies (#[trigger] next.payments[i]) == v.payments[if i
            < k {
            i
        } else {
            i + 1
        }] by {}
        if payment.status.is_live() {
            let restored = next.orders[o];
            lemma_rows_updated(v.orders, o, restored);
            assert forall|i: int| 0 <= i < v.orders.len() implies (#[trigger] next.orders[i]).id == v.orders[i].id
                && next.orders[i].user_id == v.orders[i].user_id && (i != o ==> next.orders[i] == v.orders[i]) by {}
            assert(next.one_draft_per_user()) by {
                assert forall|i: int, j: int|
                    0 <= i < j < next.orders.len() && (#[trigger] next.orders[i]).status == OrderStatus::Draft && (
                    #[trigger] next.orders[j]).status == OrderStatus::Draft
                        && next.orders[i].user_id is Some implies next.orders[i].user_id
                    != next.orders[j].user_id by {
                    if i != o && j != o {
                        assert(v.orders[i].status == OrderStatus::Draft && v.orders[j].status
                            == OrderStatus::Draft);
                    } else if i == o {
                        if v.orders[j].user_id == order.user_id {
                            assert(v.has_cart(order.user_id));
                        }
                    } else {
                        if v.orders[i].user_id == order.user_id {
                            assert(v.has_cart(order.user_id));
                        }
                    }
                }
            }
            assert(next.items_well_formed()) by {
                assert forall|i: int| 0 <= i < next.order_items.len() implies {
                    let item = #[trigger] next.order_items[i];
                    &&& has_row(next.orders, item.order_id)
                    &&& item.quantity > 0
                    &&& item.ticket_pricing_id matches Some(p) ==> has_row(next.ticket_pricing, p)
                } by {
                    let item = v.order_items[i];
                    assert(has_row(v.orders, item.order_id));
                }
            }
        }
        assert(next.payments_well_formed()) by {
            assert forall|i: int| 0 <= i < next.payments.len() implies {
                let p = #[trigger] next.payments[i];
                &&& has_row(next.orders, p.order_id)
                &&& p.status.is_live() ==> row(next.orders, p.order_id).status == OrderStatus::Paid
            } by {
                let a = if i < k { i } else { i + 1 };
                let p = v.payments[a];
                assert(has_row(v.orders, p.order_id));
                if p.status.is_live() && payment.status.is_live() {
                    if a < k {
                        assert(v.payments[a].order_id != v.payments[k].order_id);
                    } else {
                        assert(v.payments[k].order_id != v.payments[a].order_id);
                    }
                }
            }
        }
        assert(next.one_live_payment_per_order()) by {
            assert forall|i: int, j: int|
                0 <= i < j < next.payments.len() && (#[trigger] next.payments[i]).status.is_live() && (
                #[trigger] next.payments[j]).status.is_live() implies next.payments[i].order_id
                != next.payments[j].order_id by {
                let a = if i < k { i } else { i + 1 };
                let b = if j < k { j } else { j + 1 };
                assert(v.payments[a].status.is_live() && v.payments[b].status.is_live());
            }
        }
    }
}

/// Taking back the record of a payment right after it was made gives the
/// tables of orders and payments as they were before.
pub proof fn lemma_undo_restores(v: DatabaseView, payment: Payment)
    requires
        v.wf(),
        v.payment_rejection(payment.order_id, payment.id) is None,
    ensures
        v.with_payment(payment).with_payment_undone(payment.order_id, payment.id) == v,
{
    let mid = v.with_payment(payment);
    let next = mid.with_payment_undone(payment.order_id, payment.id);
    let o = row_index(v.orders, payment.order_id);
    let n = v.payments.len() as int;
    lemma_row_index(v.orders, o);
    lemma_payment_added(v, payment);
    lemma_rows_pushed(v.payments, payment);
    assert(mid.payments[n].row_id() == payment.id);
    lemma_row_index(mid.payments, n);
    assert(mid.payments.remove(n) =~= v.payments);
    if payment.status.is_live() {
        lemma_rows_updated(v.orders, o, v.orders[o].paid());
        assert(mid.orders[o].row_id() == payment.order_id);
        lemma_row_index(mid.orders, o);
        let order = v.orders[o];
        if mid.has_cart(order.user_id) {
            let i = choose|i: int|
                0 <= i < mid.orders.len() && (#[trigger] mid.orders[i]).status == OrderStatus::Draft
                    && mid.orders[i].user_id == order.user_id;
            assert(i != o);
            if i < o {
                assert(v.orders[i].status == OrderStatus::Draft && v.orders[o].status == OrderStatus::Draft);
            } else {
                assert(v.orders[o].status == OrderStatus::Draft && v.orders[i].status == OrderStatus::Draft);
            }
        }
        assert(next.orders =~= v.orders);
    }
    assert(next.payments =~= v.payments);
}

impl Database {
    /// Records `payment` against its order.
    pub(crate) fn add_payment(&mut self, payment: Payment) -> (r: Result<Payment, BigNeonError>)
        requires
            old(self)@.wf(),
        ensures
            final(self)@.wf(),
            match r {
                Ok(p) => {
                    &&& old(self)@.payment_rejection(payment.order_id, payment.id) is None
                    &&& p == payment
                    &&& final(self)@ == old(self)@.with_payment(payment)
                },
                Err(e) => {
                    &&& old(self)@.payment_rejection(payment.order_id, payment.id) == Some(e@)
                    &&& final(self)@ == old(self)@
                },
            },
    {
        let k = match position(&self.orders, payment.order_id) {
            Some(k) => k,
            None => {
                return Err(BigNeonError::NotFound);
            },
        };
        let order = self.orders[k];
        if order.status != OrderStatus::Draft {
            return Err(BigNeonError::StateConflict);
        }
        if position(&self.payments, payment.id).is_some() {
            return Err(BigNeonError::DuplicateKey);
        }
        proof {
            lemma_payment_added(self@, payment);
        }
        if payment.status.is_live() {
            self.orders.set(
                k,
                Order {
                    id: order.id,
                    user_id: order.user_id,
                    status: OrderStatus::Paid,
                    order_type: order.order_type,
                    expires_at: order.expires_at,
                },
            );
        }
        self.payments.push(payment.clone());
        Ok(payment)
    }

    /// Takes back the record of payment `payment_id` against order `order_id`.
    pub(crate) fn undo_payment(&mut self, order_id: Id, payment_id: Id)
        requires
            old(self)@.wf(),
        ensures
            final(self)@.wf(),
            final(self)@ == old(self)@.with_payment_undone(order_id, payment_id),
    {
        proof {
            lemma_payment_undone(self@, order_id, payment_id);
        }
        let k = match position(&self.payments, payment_id) {
            Some(k) => k,
            None => {
                return ;
            },
        };
        if self.payments[k].order_id != order_id {
            return ;
        }
        let live = self.payments[k].status.is_live();
        if live {
            proof {
                assert(has_row(self@.orders, self@.payments[k as int].order_id));
            }
            let o = match position(&self.orders, order_id) {
                Some(o) => o,
                None => {
                    return ;
                },
            };
            let order = self.orders[o];
            let status = if self.has_cart(order.user_id) {
                OrderStatus::Cancelled
            } else {
                OrderStatus::Draft
            };
            self.orders.set(
                o,
                Order {
                    id: order.id,
                    user_id: order.user_id,
                    status,
                    order_type: order.order_type,
                    expires_at: order.expires_at,
                },
            );
        }
        self.payments.remove(k);
    }
}

impl Order {
    /// Records a payment that was made outside the system, by its reference,
    /// under the identity `payment_id`: completed at once, and the order paid
    /// with it. On success this order is the order as the image now holds it.
    ///
    /// It is refused, and the image and this order left as they were, exactly
    /// where [`DatabaseView::payment_rejection`] says so.
    pub fn add_external_payment(
        &mut self,
        external_reference: String,
        current_user_id: Id,
        amount: i64,
        payment_id: Id,
        db: &mut Database,
    ) -> (r: Result<Payment, BigNeonError>)
        requires
            old(db)@.wf(),
        ensures
            final(db)@.wf(),
            match r {
                Ok(p) => {
                    &&& old(db)@.payment_rejection(old(self).id, payment_id) is None
                    &&& p == (Payment {
                        id: payment_id,
                        order_id: old(self).id,
                        created_by: current_user_id,
                        status: PaymentStatus::Completed,
                        payment_method: PaymentMethods::External,
                        amount,
                        provider: PaymentProviders::External,
                        external_reference,
                        raw_data: None,
                    })
                    &&& final(db)@ == old(db)@.with_payment(p)
                    &&& *final(self) == row(old(db)@.orders, old(self).id).paid()
                    &&& *final(self) == row(final(db)@.orders, old(self).id)
                },
                Err(e) => {
                    &&& old(db)@.payment_rejection(old(self).id, payment_id) == Some(e@)
                    &&& final(db)@ == old(db)@
                    &&& *final(self) == *old(self)
                },
            },
    {
        let payment = Payment {
            id: payment_id,
            order_id: self.id,
            created_by: current_user_id,
            status: PaymentStatus::Completed,
            payment_method: PaymentMethods::External,
            amount,
            provider: PaymentProviders::External,
            external_reference,
            raw_data: None,
        };
        proof {
            if db@.payment_rejection(self.id, payment_id) is None {
                lemma_payment_added(db@, payment);
            }
        }
        let p = db.add_payment(payment)?;
        match position(&db.orders, p.order_id) {
            Some(k) => {
                *self = db.orders[k];
            },
            None => {},
        }
        Ok(p)
    }

    /// Records a payment by card under the identity `payment_id`, in the given
    /// state and with what the gateway answered. The order is paid with it if
    /// the payment holds or has taken the money. On success this order is the
    /// order as the image now holds it.
    ///
    /// It is refused, and the image and this order left as they were, exactly
    /// where [`DatabaseView::payment_rejection`] says so.
    pub fn add_credit_card_payment(
        &mut self,
        current_user_id: Id,
        amount: i64,
        provider: PaymentProviders,
        external_reference: String,
        status: PaymentStatus,
        raw_data: String,
        payment_id: Id,
        db: &mut Database,
    ) -> (r: Result<Payment, BigNeonError>)
        requires
            old(db)@.wf(),
        ensures
            final(db)@.wf(),
            match r {
                Ok(p) => {
                    &&& old(db)@.payment_rejection(old(self).id, payment_id) is None
                    &&& p == (Payment {
                        id: payment_id,
                        order_id: old(self).id,
                        created_by: current_user_id,
                        status,
                        payment_method: PaymentMethods::CreditCard,
                        amount,
                        provider,
                        external_reference,
                        raw_data: Some(raw_data),
                    })
                    &&& final(db)@ == old(db)@.with_payment(p)
                    &&& *final(self) == row(final(db)@.orders, old(self).id)
                },
                Err(e) => {
                    &&& old(db)@.payment_rejection(old(self).id, payment_id) == Some(e@)
                    &&& final(db)@ == old(db)@
                    &&& *final(self) == *old(self)
                },
            },
    {
        let payment = Payment {
            id: payment_id,
            order_id: self.id,
            created_by: current_user_id,
            status,
            payment_method: PaymentMethods::CreditCard,
            amount,
            provider,
            external_reference,
            raw_data: Some(raw_data),
        };
        proof {
            if db@.payment_rejection(self.id, payment_id) is None {
                lemma_payment_added(db@, payment);
            }
        }
        let p = db.add_payment(payment)?;
        match position(&db.orders, p.order_id) {
            Some(k) => {
                *self = db.orders[k];
            },
            None => {},
        }
        Ok(p)
    }
}

impl Payment {
    /// The payment with identity `id`.
    pub fn find(id: Id, db: &Database) -> (r: Result<Payment, BigNeonError>)
        ensures
            r is Ok <==> has_row(db@.payments, id),
            r matches Ok(p) ==> p.id == id && db@.payments.contains(p) && (db@.wf() ==> p == row(db@.payments, id)),
            r matches Err(e) ==> e@ == ErrorView::NotFound,
    {
        match position(&db.payments, id) {
            Some(i) => Ok(db.payments[i].clone()),
            None => Err(BigNeonError::NotFound),
        }
    }

    /// Completes the payment of the image that has this payment's identity,
    /// and keeps `raw_data`, the gateway's answer to the capture.
    ///
    /// It is refused, and the image left as it was, exactly where
    /// [`DatabaseView::completion_rejection`] says so.
    pub fn mark_complete(&self, raw_data: String, db: &mut Database) -> (r: Result<(), BigNeonError>)
        requires
            old(db)@.wf(),
        ensures
            final(db)@.wf(),
            match r {
                Ok(_) => {
                    &&& old(db)@.completion_rejection(self.id) is None
                    &&& final(db)@ == old(db)@.with_payment_completed(self.id, raw_data)
                },
                Err(e) => old(db)@.completion_rejection(self.id) == Some(e@) && final(db)@ == old(db)@,
            },
    {
        db.complete_payment(self.id, raw_data)
    }
}

impl Database {
    /// Completes payment `payment_id`.
    pub(crate) fn complete_payment(&mut self, payment_id: Id, raw_data: String) -> (r: Result<(), BigNeonError>)
        requires
            old(self)@.wf(),
        ensures
            final(self)@.wf(),
            match r {
                Ok(_) => {
                    &&& old(self)@.completion_rejection(payment_id) is None
                    &&& final(self)@ == old(self)@.with_payment_completed(payment_id, raw_data)
                },
                Err(e) => old(self)@.completion_rejection(payment_id) == Some(e@) && final(self)@ == old(self)@,
            },
    {
        let k = match position(&self.payments, payment_id) {
            Some(k) => k,
            None => {
                return Err(BigNeonError::NotFound);
            },
        };
        if self.payments[k].status != PaymentStatus::Authorized {
            return Err(BigNeonError::StateConflict);
        }
        proof {
            lemma_payment_completed(self@, payment_id, raw_data);
        }
        let mut completed = self.payments[k].clone();
        completed.status = PaymentStatus::Completed;
        completed.raw_data = Some(raw_data);
        self.payments.set(k, completed);
        Ok(())
    }
}

impl DatabaseView {
    /// Whether a payment against order `order_id` holds or has taken money.
    pub open spec fn has_live_payment(self, order_id: Id) -> bool {
        exists|i: int|
            0 <= i < self.payments.len() && (#[trigger] self.payments[i]).order_id == order_id
                && self.payments[i].status.is_live()
    }

    /// Why `payment` cannot be taken into the image as it is, if it cannot:
    /// its identity must be free and its order in the image; and if it holds
    /// or has taken money, the order must be `Paid`, by no other such payment.
    pub open spec fn loaded_payment_rejection(self, payment: Payment) -> Option<ErrorView> {
        if has_row(self.payments, payment.id) {
            Some(ErrorView::DuplicateKey)
        } else if !has_row(self.orders, payment.order_id) {
            Some(ErrorView::NotFound)
        } else if payment.status.is_live() && (row(self.orders, payment.order_id).status != OrderStatus::Paid
            || self.has_live_payment(payment.order_id)) {
            Some(ErrorView::StateConflict)
        } else {
            None
        }
    }
}

impl Database {
    /// Whether a payment against order `order_id` holds or has taken money.
    pub(crate) fn has_live_payment(&self, order_id: Id) -> (r: bool)
        ensures
            r == self@.has_live_payment(order_id),
    {
        let mut i: usize = 0;
        while i < self.payments.len()
            invariant
                i <= self.payments.len(),
                forall|k: int|
                    0 <= k < i ==> !((#[trigger] self@.payments[k]).order_id == order_id
                        && self@.payments[k].status.is_live()),
            decreases self.payments.len() - i,
        {
            if self.payments[i].order_id == order_id && self.payments[i].status.is_live() {
                return true;
            }
            i += 1;
        }
        false
    }

    /// Takes a payment into the image as it is, as when the image is loaded
    /// from the store. It is refused, and the image left as it was, exactly
    /// where [`DatabaseView::loaded_payment_rejection`] says so.
    pub fn load_payment(&mut self, payment: Payment) -> (r: Result<(), BigNeonError>)
        requires
            old(self)@.wf(),
        ensures
            final(self)@.wf(),
            match r {
                Ok(_) => {
                    &&& old(self)@.loaded_payment_rejection(payment) is None
                    &&& final(self)@ == (DatabaseView { payments: old(self)@.payments.push(payment), ..old(self)@ })
                },
                Err(e) => old(self)@.loaded_payment_rejection(payment) == Some(e@) && final(self)@ == old(self)@,
            },
    {
        if position(&self.payments, payment.id).is_some() {
            return Err(BigNeonError::DuplicateKey);
        }
        let o = match position(&self.orders, payment.order_id) {
            Some(o) => o,
            None => {
                return Err(BigNeonError::NotFound);
            },
        };
        if payment.status.is_live() && (self.orders[o].status != OrderStatus::Paid || self.has_live_payment(
            payment.order_id,
        )) {
            return Err(BigNeonError::StateConflict);
        }
        proof {
            let next = DatabaseView { payments: self@.payments.push(payment), ..self@ };
            let n = self@.payments.len() as int;
            lemma_rows_pushed(self@.payments, payment);
            assert forall|i: int| 0 <= i < n implies (#[trigger] next.payments[i]) == self@.payments[i] by {}
            assert(next.payments_well_formed()) by {
                assert forall|i: int| 0 <= i < next.payments.len() implies {
                    let p = #[trigger] next.payments[i];
                    &&& has_row(next.orders, p.order_id)
                    &&& p.status.is_live() ==> row(next.orders, p.order_id).status == OrderStatus::Paid
                } by {
                    if i < n {
                        let p = self@.payments[i];
                        assert(has_row(self@.orders, p.order_id));
                    }
                }
            }
            assert(next.one_live_payment_per_order()) by {
                assert forall|i: int, j: int|
                    0 <= i < j < next.payments.len() && (#[trigger] next.payments[i]).status.is_live() && (
                    #[trigger] next.payments[j]).status.is_live() implies next.payments[i].order_id
                    != next.payments[j].order_id by {
                    if j < n {
                        assert(self@.payments[i].status.is_live() && self@.payments[j].status.is_live());
                    } else {
                        assert(self@.payments[i].status.is_live());
                    }
                }
            }
        }
        self.payments.push(payment);
        Ok(())
    }
}

} // verus!
