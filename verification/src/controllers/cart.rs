//! The cart of a buyer: adding and removing tickets, showing it, and checking
//! it out against a payment.

use vstd::prelude::*;
use crate::Id;
use crate::Timestamp;
use crate::auth::Scopes;
use crate::auth::User;
use crate::database::has_row;
use crate::database::row;
use crate::database::Database;
use crate::database::DatabaseView;
use crate::errors::lemma_plain_error;
use crate::errors::BigNeonError;
use crate::errors::ErrorView;
use crate::ids::fresh_id;
use crate::models::enums::OrderStatus;
use crate::models::enums::OrderTypes;
use crate::models::orders::DisplayOrderItem;
use crate::models::orders::Order;
use crate::models::orders::OrderItem;
use crate::controllers::checkout::authorize_request;
use crate::controllers::checkout::AuthorizeRequest;
use crate::controllers::checkout::CheckoutAction;
use crate::controllers::checkout::CheckoutSaga;
use crate::ids::id_text;
use crate::models::enums::PaymentMethods;
use crate::models::enums::PaymentProviders;
use crate::models::enums::PaymentStatus;
use crate::models::payments::order_completed_event;
use crate::models::payments::payment_completed_event;
use crate::models::payments::payment_created_event;
use crate::models::payments::Payment;
use crate::times::now;

verus! {

#[derive(Clone, Copy, Debug, PartialEq, Eq)]
pub struct CartResponse {
    pub cart_id: Id,
}

#[derive(Clone, Copy, Debug, PartialEq, Eq)]
pub struct AddToCartRequest {
    pub ticket_type_id: Id,
    pub quantity: i64,
}

#[derive(Clone, Copy, Debug, PartialEq, Eq)]
pub struct RemoveCartRequest {
    pub cart_item_id: Id,
    /// How many tickets to remove; all of the item's where none is given.
    pub quantity: Option<i64>,
}

/// A cart as it is shown: its lines and its total.
#[derive(Debug, PartialEq, Eq)]
pub struct DisplayCart {
    pub id: Id,
    pub items: Vec<DisplayOrderItem>,
    pub total_in_cents: i64,
}

impl DatabaseView {
    /// The image in which `user_id` has a cart: this one if the user has one,
    /// else this one with a new cart under `cart_id`.
    pub open spec fn with_cart(self, user_id: Id, cart_id: Id, expires_at: Timestamp) -> DatabaseView {
        if self.has_cart(Some(user_id)) {
            self
        } else {
            DatabaseView {
                orders: self.orders.push(
                    Order {
                        id: cart_id,
                        user_id: Some(user_id),
                        status: OrderStatus::Draft,
                        order_type: OrderTypes::Cart,
                        expires_at,
                    },
                ),
                ..self
            }
        }
    }

    /// The identity of the cart of `user_id`: that of the cart the user has,
    /// else `cart_id`.
    pub open spec fn cart_id_of(self, user_id: Id, cart_id: Id) -> Id {
        if self.has_cart(Some(user_id)) {
            self.carts_of(user_id)[0].id
        } else {
            cart_id
        }
    }

    /// Why tickets cannot be added to the cart of `user_id`, if they cannot:
    /// the user has no cart and `cart_id` is taken, or the cart does not take
    /// the tickets (see [`DatabaseView::add_tickets_rejection`]).
    pub open spec fn add_to_cart_rejection(
        self,
        user_id: Id,
        request: AddToCartRequest,
        available: i64,
        now: Timestamp,
        expires_at: Timestamp,
        cart_id: Id,
        item_id: Id,
    ) -> Option<ErrorView> {
        if !self.has_cart(Some(user_id)) && has_row(self.orders, cart_id) {
            Some(ErrorView::DuplicateKey)
        } else {
            self.with_cart(user_id, cart_id, expires_at).add_tickets_rejection(
                self.cart_id_of(user_id, cart_id),
                request.ticket_type_id,
                request.quantity,
                available,
                item_id,
                now,
            )
        }
    }

    /// The image after tickets were added to the cart of `user_id`, where
    /// that is not refused.
    pub open spec fn added_to_cart(
        self,
        user_id: Id,
        request: AddToCartRequest,
        now: Timestamp,
        expires_at: Timestamp,
        cart_id: Id,
        item_id: Id,
    ) -> DatabaseView {
        self.with_cart(user_id, cart_id, expires_at).tickets_added(
            self.cart_id_of(user_id, cart_id),
            request.ticket_type_id,
            request.quantity,
            item_id,
            now,
        )
    }

    /// Why tickets cannot be removed from the cart of `user_id`, if they
    /// cannot: the user has no cart, or the cart does not give them up (see
    /// [`DatabaseView::remove_tickets_rejection`]).
    pub open spec fn remove_from_cart_rejection(self, user_id: Id, request: RemoveCartRequest) -> Option<
        ErrorView,
    > {
        if !self.has_cart(Some(user_id)) {
            Some(ErrorView::NotFound)
        } else {
            self.remove_tickets_rejection(self.carts_of(user_id)[0].id, request.cart_item_id, request.quantity)
        }
    }
}

/// Whether `r` and `after` are what adding tickets to the cart of `user_id`
/// gives from `before`, at the moment `now`, with `cart_id` for a new cart and
/// `item_id` for a new line.
///
/// It is refused, and the image left as it was, exactly where
/// [`DatabaseView::add_to_cart_rejection`] says so; otherwise the response
/// names the cart and the image is [`DatabaseView::added_to_cart`].
pub open spec fn added_to_cart_as(
    before: DatabaseView,
    after: DatabaseView,
    r: Result<CartResponse, BigNeonError>,
    user_id: Id,
    request: AddToCartRequest,
    available: i64,
    now: Timestamp,
    expires_at: Timestamp,
    cart_id: Id,
    item_id: Id,
) -> bool {
    match r {
        Ok(response) => {
            &&& before.add_to_cart_rejection(user_id, request, available, now, expires_at, cart_id, item_id)
                is None
            &&& response.cart_id == before.cart_id_of(user_id, cart_id)
            &&& after == before.added_to_cart(user_id, request, now, expires_at, cart_id, item_id)
        },
        Err(e) => {
            &&& before.add_to_cart_rejection(user_id, request, available, now, expires_at, cart_id, item_id)
                == Some(e@)
            &&& after == before
        },
    }
}

/// Adds tickets to the cart of `user`, at the price that applies at `now`.
/// Where the user has no cart, one is made under `cart_id`, to expire at
/// `expires_at`. `available` is the capacity that is left for the ticket type,
/// and `item_id` the identity of the line, should a new one be needed. See
/// [`added_to_cart_as`].
pub fn add_to_cart(
    db: &mut Database,
    request: &AddToCartRequest,
    user: &User,
    available: i64,
    now: Timestamp,
    expires_at: Timestamp,
    cart_id: Id,
    item_id: Id,
) -> (r: Result<CartResponse, BigNeonError>)
    requires
        old(db)@.wf(),
    ensures
        final(db)@.wf(),
        added_to_cart_as(
            old(db)@,
            final(db)@,
            r,
            user.id,
            *request,
            available,
            now,
            expires_at,
            cart_id,
            item_id,
        ),
{
    let had_cart = db.has_cart(Some(user.id));
    let cart = Order::find_or_create_cart(user.id, cart_id, expires_at, db)?;
    match cart.add_tickets(request.ticket_type_id, request.quantity, available, item_id, now, db) {
        Ok(()) => Ok(CartResponse { cart_id: cart.id }),
        Err(e) => {
            if !had_cart {
                db.orders.pop();
                assert(db@.orders =~= old(db)@.orders);
            }
            Err(e)
        },
    }
}

/// Adds tickets to the cart of `user` at the price that applies now. The
/// moment and the identities of a new cart and a new line are drawn here, so
/// the outcome is one that [`add_to_cart`] has for some moment and some
/// identities; a failure changes nothing.
pub fn add(db: &mut Database, request: &AddToCartRequest, user: &User, available: i64, expires_at: Timestamp) -> (r:
    Result<CartResponse, BigNeonError>)
    requires
        old(db)@.wf(),
    ensures
        final(db)@.wf(),
        exists|now: Timestamp, cart_id: Id, item_id: Id|
            added_to_cart_as(
                old(db)@,
                final(db)@,
                r,
                user.id,
                *request,
                available,
                now,
                expires_at,
                cart_id,
                item_id,
            ),
        r is Err ==> final(db)@ == old(db)@,
{
    let moment = now();
    let cart_id = fresh_id();
    let item_id = fresh_id();
    add_to_cart(db, request, user, available, moment, expires_at, cart_id, item_id)
}

/// Removes tickets from an item of the cart of `user`: see
/// [`DatabaseView::tickets_removed`].
///
/// It is refused, and the image left as it was, exactly where
/// [`DatabaseView::remove_from_cart_rejection`] says so.
pub fn remove(db: &mut Database, request: &RemoveCartRequest, user: &User) -> (r: Result<CartResponse, BigNeonError>)
    requires
        old(db)@.wf(),
    ensures
        final(db)@.wf(),
        match r {
            Ok(response) => {
                &&& old(db)@.remove_from_cart_rejection(user.id, *request) is None
                &&& response.cart_id == old(db)@.carts_of(user.id)[0].id
                &&& final(db)@ == old(db)@.tickets_removed(request.cart_item_id, request.quantity)
            },
            Err(e) => old(db)@.remove_from_cart_rejection(user.id, *request) == Some(e@) && final(db)@ == old(db)@,
        },
{
    let cart = Order::find_cart_for_user(user.id, db)?;
    let item = cart.find_item(request.cart_item_id, db)?;
    cart.remove_tickets(item, request.quantity, db)?;
    Ok(CartResponse { cart_id: cart.id })
}

/// The cart of `user` as it is shown, or nothing where the user has none. The
/// total is computed from the lines and the ledger. Fails with
/// `NumericOverflow` exactly where the total does (see
/// [`Order::calculate_total`]).
pub fn show(db: &Database, user: &User) -> (r: Result<Option<DisplayCart>, BigNeonError>)
    requires
        db@.wf(),
    ensures
        match r {
            Ok(None) => !db@.has_cart(Some(user.id)),
            Ok(Some(cart)) => {
                &&& db@.has_cart(Some(user.id))
                &&& cart.id == db@.carts_of(user.id)[0].id
                &&& cart.items@ == db@.items_of(cart.id).map_values(|item: OrderItem| item.displayed(db@))
                &&& cart.total_in_cents == db@.order_total(cart.id)
                &&& db@.total_in_range(db@.order_items, cart.id)
            },
            Err(e) => {
                &&& db@.has_cart(Some(user.id))
                &&& !db@.total_in_range(db@.order_items, db@.carts_of(user.id)[0].id)
                &&& e@ == ErrorView::NumericOverflow
            },
        },
{
    let order = match Order::find_cart_for_user(user.id, db) {
        Ok(order) => order,
        Err(_) => {
            return Ok(None);
        },
    };
    let items = order.items_for_display(db);
    let total_in_cents = order.calculate_total(db)?;
    Ok(Some(DisplayCart { id: order.id, items, total_in_cents }))
}

/// What a checkout is asked for: the amount to pay and how.
#[derive(Debug, PartialEq, Eq)]
pub struct CheckoutCartRequest {
    /// The amount, in minor units of the currency.
    pub amount: i64,
    pub method: PaymentRequest,
}

/// How an order is paid.
#[derive(Debug, PartialEq, Eq)]
pub enum PaymentRequest {
    /// By a payment that was made outside the system and is known by its reference.
    External { reference: String },
    /// By card, through the gateway, with the token that stands for the card.
    Stripe { token: String },
}

/// The answer to a checkout that succeeded.
#[derive(Clone, Copy, Debug, PartialEq, Eq)]
pub struct CheckoutResponse {
    pub payment_id: Id,
}

/// The payment that an external checkout records.
pub open spec fn external_payment(order_id: Id, reference: String, amount: i64, user_id: Id, payment_id: Id) -> Payment {
    Payment {
        id: payment_id,
        order_id,
        created_by: user_id,
        status: PaymentStatus::Completed,
        payment_method: PaymentMethods::External,
        amount,
        provider: PaymentProviders::External,
        external_reference: reference,
        raw_data: None,
    }
}

impl DatabaseView {
    /// Why `user` cannot check out order `order_id` by an external payment,
    /// if they cannot: the caller must have the capability to record such
    /// payments, the order must exist and be in `Draft`, and `payment_id` must
    /// be free.
    pub open spec fn external_checkout_rejection(self, order_id: Id, user: User, payment_id: Id) -> Option<
        ErrorView,
    > {
        if !user.has_scope(Scopes::OrderMakeExternalPayment) {
            Some(ErrorView::Forbidden)
        } else {
            self.payment_rejection(order_id, payment_id)
        }
    }

    /// The image after order `order_id` was checked out by an external
    /// payment: the payment is recorded as completed, the order is `Paid`, and
    /// the audit events say so.
    pub open spec fn externally_paid(
        self,
        order_id: Id,
        reference: String,
        amount: i64,
        user_id: Id,
        payment_id: Id,
    ) -> DatabaseView {
        self.with_payment(external_payment(order_id, reference, amount, user_id, payment_id)).with_event(
            payment_created_event(payment_id, user_id),
        ).with_event(payment_completed_event(payment_id, user_id)).with_event(
            order_completed_event(order_id, user_id),
        )
    }
}

/// Checks out order `order_id` by a payment that was made outside the system:
/// in one step the payment is recorded under `payment_id` as completed and the
/// order is paid. Nothing is asked of the gateway, so there is nothing to
/// compensate.
///
/// It is refused, and the image left as it was, exactly where
/// [`DatabaseView::external_checkout_rejection`] says so: with `Forbidden` for
/// a caller without the capability, whatever the order; with `StateConflict`
/// for an order that is not in `Draft`.
pub fn checkout_external(
    db: &mut Database,
    order_id: Id,
    reference: &String,
    checkout_request: &CheckoutCartRequest,
    user: &User,
    payment_id: Id,
) -> (r: Result<CheckoutResponse, BigNeonError>)
    requires
        old(db)@.wf(),
    ensures
        final(db)@.wf(),
        match r {
            Ok(response) => {
                &&& old(db)@.external_checkout_rejection(order_id, *user, payment_id) is None
                &&& response.payment_id == payment_id
                &&& final(db)@ == old(db)@.externally_paid(
                    order_id,
                    *reference,
                    checkout_request.amount,
                    user.id,
                    payment_id,
                )
            },
            Err(e) => {
                &&& old(db)@.external_checkout_rejection(order_id, *user, payment_id) == Some(e@)
                &&& final(db)@ == old(db)@
            },
        },
{
    if !user.has_scope(Scopes::OrderMakeExternalPayment) {
        return Err(BigNeonError::Forbidden);
    }
    let mut order = Order::find(order_id, db)?;
    if order.status() != OrderStatus::Draft {
        return Err(BigNeonError::StateConflict);
    }
    let payment = order.add_external_payment(
        reference.clone(),
        user.id(),
        checkout_request.amount,
        payment_id,
        db,
    )?;
    db.emit_payment_created(payment.id, user.id);
    db.emit_payment_completed(payment.id, user.id);
    db.emit_order_completed(order_id, user.id);
    Ok(CheckoutResponse { payment_id: payment.id })
}

/// Begins the checkout of order `order_id` by card: nothing is changed, and
/// the saga that is returned waits for the gateway to authorize what the
/// action asks for. `payment_id` is the identity under which the payment will
/// be recorded.
///
/// The checkout ends at once, with the error as its answer, exactly where
/// [`DatabaseView::card_checkout_rejection`] says so: with `Forbidden` for an
/// order that is not the caller's; with `StateConflict` for an order that is
/// not in `Draft`.
pub fn checkout_stripe(
    db: &Database,
    order_id: Id,
    token: &str,
    req: &CheckoutCartRequest,
    user: &User,
    currency: &str,
    payment_id: Id,
) -> (r: (CheckoutSaga, CheckoutAction))
    requires
        db@.wf(),
    ensures
        began_card_checkout(db@, r, order_id, token@, req.amount, user.id, currency@, payment_id),
{
    let order = match Order::find(order_id, db) {
        Ok(order) => order,
        Err(_) => {
            return (
                CheckoutSaga::Finished,
                CheckoutAction::Fail { error: BigNeonError::NotFound, reversal_failed: false },
            );
        },
    };
    let owned = match order.user_id {
        Some(owner) => owner == user.id(),
        None => false,
    };
    if !owned {
        return (
            CheckoutSaga::Finished,
            CheckoutAction::Fail { error: BigNeonError::Forbidden, reversal_failed: false },
        );
    }
    if order.status() != OrderStatus::Draft {
        return (
            CheckoutSaga::Finished,
            CheckoutAction::Fail { error: BigNeonError::StateConflict, reversal_failed: false },
        );
    }
    let mut metadata: Vec<(String, String)> = Vec::new();
    metadata.push((String::from_str("order_id"), id_text(order_id)));
    let request = AuthorizeRequest {
        token: String::from_str(token),
        amount: req.amount,
        currency: String::from_str(currency),
        description: String::from_str("Tickets from Bigneon"),
        metadata,
    };
    assert(request@.metadata =~= authorize_request(order_id, token@, req.amount, currency@).metadata);
    (
        CheckoutSaga::Authorizing { order_id, user_id: user.id(), amount: req.amount, payment_id },
        CheckoutAction::Authorize(request),
    )
}

/// Whether `r` is how a checkout of order `order_id` by card begins in
/// `image`: ended with the error where
/// [`DatabaseView::card_checkout_rejection`] has one, else waiting for the
/// authorization that `r` asks the gateway for.
pub open spec fn began_card_checkout(
    image: DatabaseView,
    r: (CheckoutSaga, CheckoutAction),
    order_id: Id,
    token: Seq<char>,
    amount: i64,
    user_id: Id,
    currency: Seq<char>,
    payment_id: Id,
) -> bool {
    match image.card_checkout_rejection(order_id, user_id) {
        Some(e) => r.0 == CheckoutSaga::Finished && r.1 == (CheckoutAction::Fail {
            error: e.plain(),
            reversal_failed: false,
        }),
        None => {
            &&& r.0 == (CheckoutSaga::Authorizing { order_id, user_id, amount, payment_id })
            &&& r.1 matches CheckoutAction::Authorize(request)
            &&& request@ == authorize_request(order_id, token, amount, currency)
        },
    }
}

/// Whether `r` and `after` are what checking out order `order_id` gives from
/// `before`, with `payment_id` for the payment.
///
/// An external payment is recorded at once, or refused (see
/// [`checkout_external`]), and the checkout is finished either way. A payment
/// by card begins its saga (see [`checkout_stripe`]) and changes nothing yet.
pub open spec fn checked_out_as(
    before: DatabaseView,
    after: DatabaseView,
    r: (CheckoutSaga, CheckoutAction),
    order_id: Id,
    request: CheckoutCartRequest,
    user: User,
    currency: Seq<char>,
    payment_id: Id,
) -> bool {
    match request.method {
        PaymentRequest::External { reference } => {
            &&& r.0 == CheckoutSaga::Finished
            &&& match before.external_checkout_rejection(order_id, user, payment_id) {
                Some(e) => r.1 == (CheckoutAction::Fail { error: e.plain(), reversal_failed: false }) && after
                    == before,
                None => r.1 == (CheckoutAction::Succeed { payment_id }) && after == before.externally_paid(
                    order_id,
                    reference,
                    request.amount,
                    user.id,
                    payment_id,
                ),
            }
        },
        PaymentRequest::Stripe { token } => {
            &&& after == before
            &&& began_card_checkout(before, r, order_id, token@, request.amount, user.id, currency, payment_id)
        },
    }
}

/// Checks out order `order_id` as `request` asks, with `payment_id` for the
/// payment: see [`checked_out_as`].
///
/// An order that is not in `Draft` is never paid: unless the caller is turned
/// away first (for want of the capability, or for an order that is not
/// theirs), the checkout fails with `StateConflict`, and no payment is recorded.
pub fn checkout_as(
    db: &mut Database,
    order_id: Id,
    request: CheckoutCartRequest,
    user: &User,
    currency: &str,
    payment_id: Id,
) -> (r: (CheckoutSaga, CheckoutAction))
    requires
        old(db)@.wf(),
    ensures
        final(db)@.wf(),
        checked_out_as(old(db)@, final(db)@, r, order_id, request, *user, currency@, payment_id),
        has_row(old(db)@.orders, order_id) && row(old(db)@.orders, order_id).status != OrderStatus::Draft ==> {
            &&& final(db)@ == old(db)@
            &&& r.0 == CheckoutSaga::Finished
            &&& r.1 matches CheckoutAction::Fail { error, .. }
            &&& error@ == ErrorView::StateConflict || error@ == ErrorView::Forbidden
            &&& error@ == ErrorView::Forbidden ==> match request.method {
                PaymentRequest::External { .. } => !user.has_scope(Scopes::OrderMakeExternalPayment),
                PaymentRequest::Stripe { .. } => row(old(db)@.orders, order_id).user_id != Some(user.id),
            }
        },
{
    match &request.method {
        PaymentRequest::External { reference } => match checkout_external(
            db,
            order_id,
            reference,
            &request,
            user,
            payment_id,
        ) {
            Ok(response) => (CheckoutSaga::Finished, CheckoutAction::Succeed { payment_id: response.payment_id }),
            Err(error) => {
                proof {
                    lemma_plain_error(error);
                }
                (CheckoutSaga::Finished, CheckoutAction::Fail { error, reversal_failed: false })
            },
        },
        PaymentRequest::Stripe { token } => checkout_stripe(
            db,
            order_id,
            token.as_str(),
            &request,
            user,
            currency,
            payment_id,
        ),
    }
}

/// Checks out order `order_id` as `request` asks. The identity of the payment
/// is drawn here, so the outcome is one that [`checkout_as`] has for some
/// identity.
pub fn checkout(db: &mut Database, order_id: Id, request: CheckoutCartRequest, user: &User, currency: &str) -> (r: (
    CheckoutSaga,
    CheckoutAction,
))
    requires
        old(db)@.wf(),
    ensures
        final(db)@.wf(),
        exists|payment_id: Id|
            checked_out_as(old(db)@, final(db)@, r, order_id, request, *user, currency@, payment_id),
        has_row(old(db)@.orders, order_id) && row(old(db)@.orders, order_id).status != OrderStatus::Draft ==> {
            &&& final(db)@ == old(db)@
            &&& r.0 == CheckoutSaga::Finished
            &&& r.1 is Fail
        },
{
    let payment_id = fresh_id();
    checkout_as(db, order_id, request, user, currency, payment_id)
}

} // verus!
