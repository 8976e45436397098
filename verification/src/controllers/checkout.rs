//! The checkout of an order by card, as a saga.
//!
//! The payment gateway cannot take part in a local transaction, so paying by
//! card is a sequence of steps with one compensating action. The saga is a
//! state machine: it is handed what happened, changes the image, and says what
//! to do next. Whoever drives it talks to the gateway and to the store.
//!
//! ```text
//! Authorizing --authorized, recorded--> Committing --committed--> Capturing --captured--> Finished
//!      |                |                    |                        |
//!      | declined       | not recorded       | not committed          | not captured, not completed
//!      v                v                    v                        v
//!   Finished         Reversing            Reversing                Reversing --> Finished
//! ```
//!
//! The gateway is asked to capture only after the local transaction that
//! holds the authorized payment is committed, and it is asked to reverse the
//! authorization, once, wherever a step after the authorization fails.

use vstd::prelude::*;
use crate::Id;
use crate::database::has_row;
use crate::database::row;
use crate::database::Database;
use crate::database::DatabaseView;
use crate::errors::lemma_plain_error;
use crate::errors::BigNeonError;
use crate::errors::ErrorView;
use crate::errors::GatewayError;
use crate::ids::uuid_text;
use crate::models::enums::OrderStatus;
use crate::models::enums::PaymentMethods;
use crate::models::enums::PaymentProviders;
use crate::models::enums::PaymentStatus;
use crate::models::payments::lemma_payment_added;
use crate::models::payments::lemma_undo_restores;
use crate::models::payments::order_completed_event;
use crate::models::payments::payment_completed_event;
use crate::models::payments::payment_created_event;
use crate::models::payments::Payment;

verus! {

/// What the gateway is asked to authorize.
#[derive(Debug, PartialEq, Eq)]
pub struct AuthorizeRequest {
    /// The token that stands for the buyer's card.
    pub token: String,
    /// The amount to charge, in minor units of the currency.
    pub amount: i64,
    pub currency: String,
    pub description: String,
    /// What the gateway keeps with the charge, to find it again.
    pub metadata: Vec<(String, String)>,
}

/// An [`AuthorizeRequest`] with its texts as sequences of characters.
pub struct AuthorizeRequestView {
    pub token: Seq<char>,
    pub amount: i64,
    pub currency: Seq<char>,
    pub description: Seq<char>,
    pub metadata: Seq<(Seq<char>, Seq<char>)>,
}

impl View for AuthorizeRequest {
    type V = AuthorizeRequestView;

    open spec fn view(&self) -> AuthorizeRequestView {
        AuthorizeRequestView {
            token: self.token@,
            amount: self.amount,
            currency: self.currency@,
            description: self.description@,
            metadata: self.metadata@.map_values(|entry: (String, String)| (entry.0@, entry.1@)),
        }
    }
}

/// What the driver of a checkout is to do next.
#[derive(Debug, PartialEq, Eq)]
pub enum CheckoutAction {
    /// Ask the gateway to authorize the charge.
    Authorize(AuthorizeRequest),
    /// Commit the local transaction, and open a new one.
    CommitTransaction,
    /// Ask the gateway to capture the authorized charge.
    Capture { external_id: String },
    /// Ask the gateway to reverse the authorization.
    Reverse { external_id: String },
    /// Answer that the order is paid by this payment.
    Succeed { payment_id: Id },
    /// Answer with the error. `reversal_failed` says that the gateway was
    /// asked to reverse the authorization and did not: someone has to look.
    Fail { error: BigNeonError, reversal_failed: bool },
    /// Nothing: what was handed in is not what the saga waits for.
    Nothing,
}

/// What happened to what the driver of a checkout was asked to do.
#[derive(Debug, PartialEq, Eq)]
pub enum CheckoutEvent {
    /// The gateway authorized the charge, under `external_id`.
    Authorized { external_id: String, raw_response: String },
    AuthorizeFailed(GatewayError),
    /// The local transaction is committed.
    Committed,
    CommitFailed,
    /// The gateway captured the charge.
    Captured { raw_response: String },
    /// The gateway did not capture the charge, or did not answer in time.
    CaptureFailed(GatewayError),
    /// The gateway reversed the authorization.
    Reversed,
    ReversalFailed(GatewayError),
}

/// Where a checkout by card stands.
#[derive(Debug, PartialEq, Eq)]
pub enum CheckoutSaga {
    /// The gateway has been asked to authorize; nothing is recorded yet.
    Authorizing { order_id: Id, user_id: Id, amount: i64, payment_id: Id },
    /// The authorized payment is recorded and the order paid, in a
    /// transaction that is being committed.
    Committing { order_id: Id, user_id: Id, payment_id: Id, external_id: String },
    /// The gateway has been asked to capture.
    Capturing { user_id: Id, payment_id: Id, external_id: String },
    /// The gateway has been asked to reverse the authorization, because of `error`.
    Reversing { error: BigNeonError },
    /// Done: the answer has been given.
    Finished,
}

/// What a step of the saga gives: where it stands then, what is to be done,
/// and the image.
pub struct Transition {
    pub saga: CheckoutSaga,
    pub action: CheckoutAction,
    pub image: DatabaseView,
}

/// The authorized payment that the saga records.
pub open spec fn authorized_payment(
    order_id: Id,
    user_id: Id,
    amount: i64,
    payment_id: Id,
    external_id: String,
    raw_response: String,
) -> Payment {
    Payment {
        id: payment_id,
        order_id,
        created_by: user_id,
        status: PaymentStatus::Authorized,
        payment_method: PaymentMethods::CreditCard,
        amount,
        provider: PaymentProviders::Stripe,
        external_reference: external_id,
        raw_data: Some(raw_response),
    }
}

/// What the gateway is asked to authorize for order `order_id`.
pub open spec fn authorize_request(order_id: Id, token: Seq<char>, amount: i64, currency: Seq<char>) -> AuthorizeRequestView {
    AuthorizeRequestView {
        token,
        amount,
        currency,
        description: "Tickets from Bigneon"@,
        metadata: seq![("order_id"@, uuid_text(order_id))],
    }
}

impl DatabaseView {
    /// Why `user_id` cannot check out order `order_id` by card, if they
    /// cannot: the order must exist, be theirs, and be in `Draft`.
    pub open spec fn card_checkout_rejection(self, order_id: Id, user_id: Id) -> Option<ErrorView> {
        if !has_row(self.orders, order_id) {
            Some(ErrorView::NotFound)
        } else if row(self.orders, order_id).user_id != Some(user_id) {
            Some(ErrorView::Forbidden)
        } else if row(self.orders, order_id).status != OrderStatus::Draft {
            Some(ErrorView::StateConflict)
        } else {
            None
        }
    }
}

impl CheckoutSaga {
    /// The step of the saga.
    ///
    /// - While authorizing: an authorization is recorded, as an authorized
    ///   payment that makes the order `Paid`, and the transaction is to be
    ///   committed; if it cannot be recorded, nothing changes and the
    ///   authorization is to be reversed. A refusal ends the checkout with
    ///   nothing changed and nothing to reverse.
    /// - While committing: once committed, the audit events are emitted and
    ///   the charge is to be captured. If the commit failed, the record is
    ///   taken back and the authorization is to be reversed.
    /// - While capturing: a capture completes the payment and the checkout
    ///   succeeds; if the payment cannot be completed, nothing changes and the
    ///   authorization is to be reversed. A failed capture changes nothing:
    ///   the order stays `Paid` and the payment `Authorized`, the
    ///   authorization is to be reversed, and the capture is not tried again.
    /// - While reversing: however the reversal ended, the checkout fails with
    ///   the error that led to it.
    /// - Anything else is ignored.
    pub open spec fn transition(self, event: CheckoutEvent, image: DatabaseView) -> Transition {
        match (self, event) {
            (
                CheckoutSaga::Authorizing { order_id, user_id, amount, payment_id },
                CheckoutEvent::Authorized { external_id, raw_response },
            ) => match image.payment_rejection(order_id, payment_id) {
                Some(e) => Transition {
                    saga: CheckoutSaga::Reversing { error: e.plain() },
                    action: CheckoutAction::Reverse { external_id },
                    image,
                },
                None => Transition {
                    saga: CheckoutSaga::Committing { order_id, user_id, payment_id, external_id },
                    action: CheckoutAction::CommitTransaction,
                    image: image.with_payment(
                        authorized_payment(order_id, user_id, amount, payment_id, external_id, raw_response),
                    ),
                },
            },
            (CheckoutSaga::Authorizing { .. }, CheckoutEvent::AuthorizeFailed(g)) => Transition {
                saga: CheckoutSaga::Finished,
                action: CheckoutAction::Fail { error: BigNeonError::Gateway(g), reversal_failed: false },
                image,
            },
            (
                CheckoutSaga::Committing { order_id, user_id, payment_id, external_id },
                CheckoutEvent::Committed,
            ) => Transition {
                saga: CheckoutSaga::Capturing { user_id, payment_id, external_id },
                action: CheckoutAction::Capture { external_id },
                image: image.with_event(payment_created_event(payment_id, user_id)).with_event(
                    order_completed_event(order_id, user_id),
                ),
            },
            (
                CheckoutSaga::Committing { order_id, user_id, payment_id, external_id },
                CheckoutEvent::CommitFailed,
            ) => Transition {
                saga: CheckoutSaga::Reversing { error: BigNeonError::StoreFailure },
                action: CheckoutAction::Reverse { external_id },
                image: image.with_payment_undone(order_id, payment_id),
            },
            (
                CheckoutSaga::Capturing { user_id, payment_id, external_id },
                CheckoutEvent::Captured { raw_response },
            ) => match image.completion_rejection(payment_id) {
                Some(e) => Transition {
                    saga: CheckoutSaga::Reversing { error: e.plain() },
                    action: CheckoutAction::Reverse { external_id },
                    image,
                },
                None => Transition {
                    saga: CheckoutSaga::Finished,
                    action: CheckoutAction::Succeed { payment_id },
                    image: image.with_payment_completed(payment_id, raw_response).with_event(
                        payment_completed_event(payment_id, user_id),
                    ),
                },
            },
            (CheckoutSaga::Capturing { user_id, payment_id, external_id }, CheckoutEvent::CaptureFailed(g)) => {
                Transition {
                    saga: CheckoutSaga::Reversing { error: BigNeonError::Gateway(g) },
                    action: CheckoutAction::Reverse { external_id },
                    image,
                }
            },
            (CheckoutSaga::Reversing { error }, CheckoutEvent::Reversed) => Transition {
                saga: CheckoutSaga::Finished,
                action: CheckoutAction::Fail { error, reversal_failed: false },
                image,
            },
            (CheckoutSaga::Reversing { error }, CheckoutEvent::ReversalFailed(_)) => Transition {
                saga: CheckoutSaga::Finished,
                action: CheckoutAction::Fail { error, reversal_failed: true },
                image,
            },
            (saga, _) => Transition { saga, action: CheckoutAction::Nothing, image },
        }
    }

    /// Takes the saga one step on: see [`CheckoutSaga::transition`].
    pub fn step(self, event: CheckoutEvent, db: &mut Database) -> (r: (CheckoutSaga, CheckoutAction))
        requires
            old(db)@.wf(),
        ensures
            final(db)@.wf(),
            r.0 == self.transition(event, old(db)@).saga,
            r.1 == self.transition(event, old(db)@).action,
            final(db)@ == self.transition(event, old(db)@).image,
    {
        match (self, event) {
            (
                CheckoutSaga::Authorizing { order_id, user_id, amount, payment_id },
                CheckoutEvent::Authorized { external_id, raw_response },
            ) => {
                let payment = Payment {
                    id: payment_id,
                    order_id,
                    created_by: user_id,
                    status: PaymentStatus::Authorized,
                    payment_method: PaymentMethods::CreditCard,
                    amount,
                    provider: PaymentProviders::Stripe,
                    external_reference: external_id.clone(),
                    raw_data: Some(raw_response),
                };
                match db.add_payment(payment) {
                    Ok(_) => (
                        CheckoutSaga::Committing { order_id, user_id, payment_id, external_id },
                        CheckoutAction::CommitTransaction,
                    ),
                    Err(error) => {
                        proof {
                            lemma_plain_error(error);
                        }
                        (CheckoutSaga::Reversing { error }, CheckoutAction::Reverse { external_id })
                    },
                }
            },
            (CheckoutSaga::Authorizing { .. }, CheckoutEvent::AuthorizeFailed(g)) => (
                CheckoutSaga::Finished,
                CheckoutAction::Fail { error: BigNeonError::Gateway(g), reversal_failed: false },
            ),
            (
                CheckoutSaga::Committing { order_id, user_id, payment_id, external_id },
                CheckoutEvent::Committed,
            ) => {
                db.emit_payment_created(payment_id, user_id);
                db.emit_order_completed(order_id, user_id);
                (
                    CheckoutSaga::Capturing { user_id, payment_id, external_id: external_id.clone() },
                    CheckoutAction::Capture { external_id },
                )
            },
            (
                CheckoutSaga::Committing { order_id, user_id, payment_id, external_id },
                CheckoutEvent::CommitFailed,
            ) => {
                db.undo_payment(order_id, payment_id);
                (
                    CheckoutSaga::Reversing { error: BigNeonError::StoreFailure },
                    CheckoutAction::Reverse { external_id },
                )
            },
            (
                CheckoutSaga::Capturing { user_id, payment_id, external_id },
                CheckoutEvent::Captured { raw_response },
            ) => {
                match db.complete_payment(payment_id, raw_response) {
                    Ok(()) => {
                        db.emit_payment_completed(payment_id, user_id);
                        (CheckoutSaga::Finished, CheckoutAction::Succeed { payment_id })
                    },
                    Err(error) => {
                        proof {
                            lemma_plain_error(error);
                        }
                        (CheckoutSaga::Reversing { error }, CheckoutAction::Reverse { external_id })
                    },
                }
            },
            (CheckoutSaga::Capturing { user_id, payment_id, external_id }, CheckoutEvent::CaptureFailed(g)) => (
                CheckoutSaga::Reversing { error: BigNeonError::Gateway(g) },
                CheckoutAction::Reverse { external_id },
            ),
            (CheckoutSaga::Reversing { error }, CheckoutEvent::Reversed) => (
                CheckoutSaga::Finished,
                CheckoutAction::Fail { error, reversal_failed: false },
            ),
            (CheckoutSaga::Reversing { error }, CheckoutEvent::ReversalFailed(_)) => (
                CheckoutSaga::Finished,
                CheckoutAction::Fail { error, reversal_failed: true },
            ),
            (saga, _) => (saga, CheckoutAction::Nothing),
        }
    }

    /// Whether the checkout has given its answer.
    pub fn is_finished(&self) -> (r: bool)
        ensures
            r == (*self is Finished),
    {
        match self {
            CheckoutSaga::Finished => true,
            _ => false,
        }
    }
}

impl DatabaseView {
    /// The payments against order `order_id` that hold or have taken money.
    pub open spec fn live_payments_of(self, order_id: Id) -> Seq<Payment> {
        self.payments.filter(|p: Payment| p.order_id == order_id && p.status.is_live())
    }
}

/// An authorization that cannot be kept is reversed, and the order stays as it
/// was.
///
/// Take a checkout that waits for the authorization of order `order_id`, in a
/// well-formed image, and let the gateway authorize the charge under
/// `external_id`. If the payment cannot be recorded, the image is unchanged
/// and the gateway is asked to reverse `external_id`. If it is recorded and
/// the commit then fails, the image is again what it was before the
/// authorization, the order in `Draft` with it, and the gateway is asked to
/// reverse `external_id`. Either way the checkout then ends with the error,
/// whether the reversal succeeds or not.
pub proof fn law_unrecorded_authorization_is_reversed(
    image: DatabaseView,
    order_id: Id,
    user_id: Id,
    amount: i64,
    payment_id: Id,
    external_id: String,
    raw_response: String,
)
    requires
        image.wf(),
    ensures
        ({
            let saga = CheckoutSaga::Authorizing { order_id, user_id, amount, payment_id };
            let recorded = saga.transition(CheckoutEvent::Authorized { external_id, raw_response }, image);
            let failed = recorded.saga.transition(CheckoutEvent::CommitFailed, recorded.image);
            let reversing = if image.payment_rejection(order_id, payment_id) is Some {
                recorded
            } else {
                failed
            };
            let ended = reversing.saga.transition(CheckoutEvent::Reversed, reversing.image);
            let escalated = reversing.saga.transition(
                CheckoutEvent::ReversalFailed(GatewayError::Transient),
                reversing.image,
            );
            &&& reversing.action == (CheckoutAction::Reverse { external_id })
            &&& reversing.image == image
            &&& reversing.saga is Reversing
            &&& ended.saga == CheckoutSaga::Finished
            &&& ended.action == (CheckoutAction::Fail {
                error: reversing.saga->Reversing_error,
                reversal_failed: false,
            })
            &&& ended.image == image
            &&& escalated.action == (CheckoutAction::Fail {
                error: reversing.saga->Reversing_error,
                reversal_failed: true,
            })
            &&& escalated.image == image
        }),
{
    if image.payment_rejection(order_id, payment_id) is None {
        lemma_undo_restores(
            image,
            authorized_payment(order_id, user_id, amount, payment_id, external_id, raw_response),
        );
    }
}

/// A capture that fails leaves a paid order with one authorized payment, and
/// the authorization is reversed.
///
/// Take a checkout that waits for the authorization of order `order_id`, in a
/// well-formed image in which the payment can be recorded. Let the gateway
/// authorize the charge under `external_id`, the commit succeed, and the
/// capture fail. Then the order is `Paid`; the payment that was recorded is
/// the only one against the order that holds money, and it is `Authorized`;
/// the gateway is asked to reverse `external_id`; and the checkout then ends
/// with the gateway's error, the image unchanged.
pub proof fn law_failed_capture_is_reversed(
    image: DatabaseView,
    order_id: Id,
    user_id: Id,
    amount: i64,
    payment_id: Id,
    external_id: String,
    raw_response: String,
    failure: GatewayError,
)
    requires
        image.wf(),
        image.payment_rejection(order_id, payment_id) is None,
    ensures
        ({
            let saga = CheckoutSaga::Authorizing { order_id, user_id, amount, payment_id };
            let payment = authorized_payment(order_id, user_id, amount, payment_id, external_id, raw_response);
            let recorded = saga.transition(CheckoutEvent::Authorized { external_id, raw_response }, image);
            let committed = recorded.saga.transition(CheckoutEvent::Committed, recorded.image);
            let failed = committed.saga.transition(CheckoutEvent::CaptureFailed(failure), committed.image);
            let ended = failed.saga.transition(CheckoutEvent::Reversed, failed.image);
            &&& recorded.action == CheckoutAction::CommitTransaction
            &&& committed.action == (CheckoutAction::Capture { external_id })
            &&& failed.action == (CheckoutAction::Reverse { external_id })
            &&& failed.image == committed.image
            &&& failed.image.wf()
            &&& has_row(failed.image.orders, order_id)
            &&& row(failed.image.orders, order_id).status == OrderStatus::Paid
            &&& failed.image.live_payments_of(order_id) == seq![payment]
            &&& ended.saga == CheckoutSaga::Finished
            &&& ended.action == (CheckoutAction::Fail {
                error: BigNeonError::Gateway(failure),
                reversal_failed: false,
            })
            &&& ended.image == failed.image
        }),
{
    let payment = authorized_payment(order_id, user_id, amount, payment_id, external_id, raw_response);
    let next = image.with_payment(payment);
    lemma_payment_added(image, payment);
    let pred = |p: Payment| p.order_id == order_id && p.status.is_live();
    assert(image.payments.filter(pred).len() == 0) by {
        assert forall|i: int| 0 <= i < image.payments.len() implies !pred(#[trigger] image.payments[i]) by {
            assert(has_row(image.orders, image.payments[i].order_id));
        }
        image.payments.lemma_all_neg_filter_empty(pred);
    }
    image.payments.lemma_filter_push(payment, pred);
    assert(next.payments.filter(pred) =~= seq![payment]);
}

} // verus!
