use bigneon::auth::Scopes;
use bigneon::auth::User;
use bigneon::controllers::cart::add_to_cart;
use bigneon::controllers::cart::checkout;
use bigneon::controllers::cart::checkout_as;
use bigneon::controllers::cart::checkout_external;
use bigneon::controllers::cart::checkout_stripe;
use bigneon::controllers::cart::AddToCartRequest;
use bigneon::controllers::cart::CheckoutCartRequest;
use bigneon::controllers::cart::PaymentRequest;
use bigneon::controllers::checkout::CheckoutAction;
use bigneon::controllers::checkout::CheckoutEvent;
use bigneon::controllers::checkout::CheckoutSaga;
use bigneon::database::Database;
use bigneon::errors::BigNeonError;
use bigneon::errors::GatewayError;
use bigneon::models::enums::DomainEventTypes;
use bigneon::models::enums::OrderStatus;
use bigneon::models::enums::OrderTypes;
use bigneon::models::enums::PaymentMethods;
use bigneon::models::enums::PaymentProviders;
use bigneon::models::enums::PaymentStatus;
use bigneon::models::orders::NewOrder;
use bigneon::models::orders::Order;
use bigneon::models::payments::Payment;
use bigneon::models::ticket_pricing::TicketPricing;
use bigneon::models::ticket_types::TicketType;

const HOUR: i64 = 3_600_000_000;
const CART: u128 = 600;
const PAYMENT: u128 = 900;
const BUYER: u128 = 500;

fn card_buyer() -> User {
    User { id: BUYER, scopes: vec![] }
}

fn clerk() -> User {
    User { id: 42, scopes: vec![Scopes::SettlementRead, Scopes::OrderMakeExternalPayment] }
}

fn shop_with_cart() -> Database {
    let mut db = Database::new();
    TicketType::create(7, "General admission".to_string(), 0, 1000 * HOUR).commit(1, &mut db).unwrap();
    TicketPricing::create(1, "Regular".to_string(), 0, 1000 * HOUR, 1000, false, None, None)
        .commit(11, None, &mut db)
        .unwrap();
    let request = AddToCartRequest { ticket_type_id: 1, quantity: 2 };
    add_to_cart(&mut db, &request, &card_buyer(), 100, 10 * HOUR, 20 * HOUR, CART, 700).unwrap();
    db
}

fn by_card(amount: i64) -> CheckoutCartRequest {
    CheckoutCartRequest { amount, method: PaymentRequest::Stripe { token: "tok_visa".to_string() } }
}

fn by_reference(amount: i64) -> CheckoutCartRequest {
    CheckoutCartRequest { amount, method: PaymentRequest::External { reference: "receipt 17".to_string() } }
}

fn authorized() -> CheckoutEvent {
    CheckoutEvent::Authorized { external_id: "ch_1".to_string(), raw_response: "{\"id\":\"ch_1\"}".to_string() }
}

fn status_of(db: &Database, order: u128) -> OrderStatus {
    Order::find(order, db).unwrap().status()
}

/// Runs a checkout by card against a gateway that answers as scripted, and
/// returns the final action with every call that was made to the gateway.
fn drive(db: &mut Database, authorize: bool, commit: bool, capture: bool, reverse: bool) -> (CheckoutAction, Vec<String>) {
    let mut calls: Vec<String> = Vec::new();
    let (mut saga, mut action) = checkout_stripe(db, CART, "tok_visa", &by_card(2000), &card_buyer(), "usd", PAYMENT);
    loop {
        let event = match &action {
            CheckoutAction::Authorize(request) => {
                calls.push(format!("authorize {} {}", request.amount, request.currency));
                if authorize { authorized() } else { CheckoutEvent::AuthorizeFailed(GatewayError::Declined) }
            }
            CheckoutAction::CommitTransaction => {
                if commit { CheckoutEvent::Committed } else { CheckoutEvent::CommitFailed }
            }
            CheckoutAction::Capture { external_id } => {
                calls.push(format!("capture {}", external_id));
                if capture {
                    CheckoutEvent::Captured { raw_response: "{\"captured\":true}".to_string() }
                } else {
                    CheckoutEvent::CaptureFailed(GatewayError::Transient)
                }
            }
            CheckoutAction::Reverse { external_id } => {
                calls.push(format!("reverse {}", external_id));
                if reverse { CheckoutEvent::Reversed } else { CheckoutEvent::ReversalFailed(GatewayError::Transient) }
            }
            CheckoutAction::Succeed { .. } | CheckoutAction::Fail { .. } => {
                assert!(saga.is_finished());
                return (action, calls);
            }
            CheckoutAction::Nothing => panic!("the saga ignored what it was handed"),
        };
        let next = saga.step(event, db);
        saga = next.0;
        action = next.1;
    }
}

#[test]
fn external_checkout_without_the_capability_is_forbidden() {
    let mut db = shop_with_cart();
    let r = checkout_external(&mut db, CART, &"receipt 17".to_string(), &by_reference(2000), &card_buyer(), PAYMENT);
    assert!(matches!(r, Err(BigNeonError::Forbidden)));
    assert_eq!(status_of(&db, CART), OrderStatus::Draft);
    assert!(db.payments().is_empty());
    let (saga, action) = checkout_as(&mut db, CART, by_reference(2000), &card_buyer(), "usd", PAYMENT);
    assert_eq!(saga, CheckoutSaga::Finished);
    assert_eq!(action, CheckoutAction::Fail { error: BigNeonError::Forbidden, reversal_failed: false });
    assert_eq!(status_of(&db, CART), OrderStatus::Draft);
}

#[test]
fn external_checkout_records_a_completed_payment_and_pays_the_order() {
    let mut db = shop_with_cart();
    let events = db.domain_events().len();
    let r = checkout_external(&mut db, CART, &"receipt 17".to_string(), &by_reference(2000), &clerk(), PAYMENT);
    assert_eq!(r.unwrap().payment_id, PAYMENT);
    assert_eq!(status_of(&db, CART), OrderStatus::Paid);
    assert_eq!(db.payments().len(), 1);
    let payment = Payment::find(PAYMENT, &db).unwrap();
    assert_eq!(payment.order_id, CART);
    assert_eq!(payment.created_by, 42);
    assert_eq!(payment.status, PaymentStatus::Completed);
    assert_eq!(payment.payment_method, PaymentMethods::External);
    assert_eq!(payment.provider, PaymentProviders::External);
    assert_eq!(payment.amount, 2000);
    assert_eq!(payment.external_reference, "receipt 17");
    assert_eq!(payment.raw_data, None);
    let kinds: Vec<DomainEventTypes> = db.domain_events()[events..].iter().map(|e| e.event_type).collect();
    assert_eq!(
        kinds,
        vec![DomainEventTypes::PaymentCreated, DomainEventTypes::PaymentCompleted, DomainEventTypes::OrderCompleted]
    );
    assert_eq!(db.domain_events().last().unwrap().display_text, "Order completed");
}

#[test]
fn checkout_of_an_order_that_is_not_a_draft_is_a_state_conflict() {
    let mut db = shop_with_cart();
    checkout_external(&mut db, CART, &"receipt 17".to_string(), &by_reference(2000), &clerk(), PAYMENT).unwrap();
    let again = checkout_external(&mut db, CART, &"receipt 18".to_string(), &by_reference(2000), &clerk(), 901);
    assert!(matches!(again, Err(BigNeonError::StateConflict)));
    let (saga, action) = checkout_stripe(&db, CART, "tok_visa", &by_card(2000), &card_buyer(), "usd", 902);
    assert_eq!(saga, CheckoutSaga::Finished);
    assert_eq!(action, CheckoutAction::Fail { error: BigNeonError::StateConflict, reversal_failed: false });
    let (saga, action) = checkout_as(&mut db, CART, by_card(2000), &card_buyer(), "usd", 903);
    assert_eq!(saga, CheckoutSaga::Finished);
    assert_eq!(action, CheckoutAction::Fail { error: BigNeonError::StateConflict, reversal_failed: false });
    NewOrder { user_id: Some(BUYER), status: OrderStatus::Cancelled, order_type: OrderTypes::Cart, expires_at: 0 }
        .commit(601, &mut db)
        .unwrap();
    let cancelled = checkout_external(&mut db, 601, &"receipt 19".to_string(), &by_reference(1), &clerk(), 904);
    assert!(matches!(cancelled, Err(BigNeonError::StateConflict)));
    assert_eq!(db.payments().len(), 1);
}

#[test]
fn external_checkout_fails_for_an_unknown_order_and_a_taken_payment_identity() {
    let mut db = shop_with_cart();
    let unknown = checkout_external(&mut db, 999, &"r".to_string(), &by_reference(1), &clerk(), PAYMENT);
    assert!(matches!(unknown, Err(BigNeonError::NotFound)));
    Order::find_or_create_cart(501, 601, 20 * HOUR, &mut db).unwrap();
    checkout_external(&mut db, 601, &"r".to_string(), &by_reference(1), &clerk(), PAYMENT).unwrap();
    let taken = checkout_external(&mut db, CART, &"r".to_string(), &by_reference(1), &clerk(), PAYMENT);
    assert!(matches!(taken, Err(BigNeonError::DuplicateKey)));
    assert_eq!(status_of(&db, CART), OrderStatus::Draft);
}

#[test]
fn card_checkout_begins_by_asking_for_the_authorization() {
    let db = shop_with_cart();
    let (saga, action) = checkout_stripe(&db, CART, "tok_visa", &by_card(2000), &card_buyer(), "usd", PAYMENT);
    assert_eq!(saga, CheckoutSaga::Authorizing { order_id: CART, user_id: BUYER, amount: 2000, payment_id: PAYMENT });
    match action {
        CheckoutAction::Authorize(request) => {
            assert_eq!(request.token, "tok_visa");
            assert_eq!(request.amount, 2000);
            assert_eq!(request.currency, "usd");
            assert_eq!(request.description, "Tickets from Bigneon");
            assert_eq!(
                request.metadata,
                vec![("order_id".to_string(), "00000000-0000-0000-0000-000000000258".to_string())]
            );
        }
        other => panic!("expected a request to authorize, got {:?}", other),
    }
    assert_eq!(status_of(&db, CART), OrderStatus::Draft);
    assert!(db.payments().is_empty());
}

#[test]
fn card_checkout_is_refused_for_an_order_of_someone_else() {
    let db = shop_with_cart();
    let stranger = User { id: 501, scopes: vec![Scopes::OrderMakeExternalPayment] };
    let (saga, action) = checkout_stripe(&db, CART, "tok_visa", &by_card(2000), &stranger, "usd", PAYMENT);
    assert_eq!(saga, CheckoutSaga::Finished);
    assert_eq!(action, CheckoutAction::Fail { error: BigNeonError::Forbidden, reversal_failed: false });
    let (_, action) = checkout_stripe(&db, 999, "tok_visa", &by_card(2000), &stranger, "usd", PAYMENT);
    assert_eq!(action, CheckoutAction::Fail { error: BigNeonError::NotFound, reversal_failed: false });
}

#[test]
fn a_card_checkout_that_goes_well_completes_the_payment() {
    let mut db = shop_with_cart();
    let events = db.domain_events().len();
    let (action, calls) = drive(&mut db, true, true, true, true);
    assert_eq!(action, CheckoutAction::Succeed { payment_id: PAYMENT });
    assert_eq!(calls, vec!["authorize 2000 usd", "capture ch_1"]);
    assert_eq!(status_of(&db, CART), OrderStatus::Paid);
    let payment = Payment::find(PAYMENT, &db).unwrap();
    assert_eq!(payment.status, PaymentStatus::Completed);
    assert_eq!(payment.payment_method, PaymentMethods::CreditCard);
    assert_eq!(payment.provider, PaymentProviders::Stripe);
    assert_eq!(payment.external_reference, "ch_1");
    assert_eq!(payment.raw_data, Some("{\"captured\":true}".to_string()));
    assert_eq!(payment.created_by, BUYER);
    let kinds: Vec<DomainEventTypes> = db.domain_events()[events..].iter().map(|e| e.event_type).collect();
    assert_eq!(
        kinds,
        vec![DomainEventTypes::PaymentCreated, DomainEventTypes::OrderCompleted, DomainEventTypes::PaymentCompleted]
    );
}

#[test]
fn a_declined_authorization_changes_nothing_and_reverses_nothing() {
    let mut db = shop_with_cart();
    let (action, calls) = drive(&mut db, false, true, true, true);
    assert_eq!(action, CheckoutAction::Fail { error: BigNeonError::Gateway(GatewayError::Declined), reversal_failed: false });
    assert_eq!(calls, vec!["authorize 2000 usd"]);
    assert_eq!(status_of(&db, CART), OrderStatus::Draft);
    assert!(db.payments().is_empty());
}

#[test]
fn a_failed_capture_leaves_a_paid_order_with_an_authorized_payment_and_one_reversal() {
    let mut db = shop_with_cart();
    let (action, calls) = drive(&mut db, true, true, false, true);
    assert_eq!(
        action,
        CheckoutAction::Fail { error: BigNeonError::Gateway(GatewayError::Transient), reversal_failed: false }
    );
    assert_eq!(calls, vec!["authorize 2000 usd", "capture ch_1", "reverse ch_1"]);
    assert_eq!(calls.iter().filter(|c| c.starts_with("reverse")).count(), 1);
    assert_eq!(status_of(&db, CART), OrderStatus::Paid);
    assert_eq!(db.payments().len(), 1);
    assert_eq!(db.payments()[0].order_id, CART);
    assert_eq!(db.payments()[0].status, PaymentStatus::Authorized);
    assert_eq!(db.payments()[0].raw_data, Some("{\"id\":\"ch_1\"}".to_string()));
}

#[test]
fn a_failed_reversal_does_not_mask_the_error_that_led_to_it() {
    let mut db = shop_with_cart();
    let (action, calls) = drive(&mut db, true, true, false, false);
    assert_eq!(
        action,
        CheckoutAction::Fail { error: BigNeonError::Gateway(GatewayError::Transient), reversal_failed: true }
    );
    assert_eq!(calls.last().unwrap(), "reverse ch_1");
}

#[test]
fn a_failed_commit_reverses_the_authorization_and_the_order_stays_a_draft() {
    let mut db = shop_with_cart();
    let events = db.domain_events().len();
    let (action, calls) = drive(&mut db, true, false, true, true);
    assert_eq!(action, CheckoutAction::Fail { error: BigNeonError::StoreFailure, reversal_failed: false });
    assert_eq!(calls, vec!["authorize 2000 usd", "reverse ch_1"]);
    assert_eq!(status_of(&db, CART), OrderStatus::Draft);
    assert!(db.payments().is_empty());
    assert_eq!(db.domain_events().len(), events);
}

#[test]
fn an_authorization_that_cannot_be_recorded_is_reversed() {
    let mut db = shop_with_cart();
    let (saga, _) = checkout_stripe(&db, CART, "tok_visa", &by_card(2000), &card_buyer(), "usd", PAYMENT);
    // While the gateway was asked, someone else paid the order.
    checkout_external(&mut db, CART, &"receipt 17".to_string(), &by_reference(2000), &clerk(), 901).unwrap();
    let (saga, action) = saga.step(authorized(), &mut db);
    assert_eq!(action, CheckoutAction::Reverse { external_id: "ch_1".to_string() });
    assert_eq!(saga, CheckoutSaga::Reversing { error: BigNeonError::StateConflict });
    assert_eq!(db.payments().len(), 1);
    assert_eq!(db.payments()[0].id, 901);
    let (saga, action) = saga.step(CheckoutEvent::Reversed, &mut db);
    assert_eq!(action, CheckoutAction::Fail { error: BigNeonError::StateConflict, reversal_failed: false });
    assert!(saga.is_finished());
}

#[test]
fn capture_is_asked_for_only_after_the_commit() {
    let mut db = shop_with_cart();
    let (saga, _) = checkout_stripe(&db, CART, "tok_visa", &by_card(2000), &card_buyer(), "usd", PAYMENT);
    let (saga, action) = saga.step(authorized(), &mut db);
    assert_eq!(action, CheckoutAction::CommitTransaction);
    assert_eq!(status_of(&db, CART), OrderStatus::Paid);
    assert_eq!(db.payments()[0].status, PaymentStatus::Authorized);
    // A capture that is reported out of turn is ignored.
    let (saga, action) = saga.step(CheckoutEvent::Captured { raw_response: "x".to_string() }, &mut db);
    assert_eq!(action, CheckoutAction::Nothing);
    assert_eq!(db.payments()[0].status, PaymentStatus::Authorized);
    let (saga, action) = saga.step(CheckoutEvent::Committed, &mut db);
    assert_eq!(action, CheckoutAction::Capture { external_id: "ch_1".to_string() });
    assert_eq!(
        saga,
        CheckoutSaga::Capturing { user_id: BUYER, payment_id: PAYMENT, external_id: "ch_1".to_string() }
    );
    let (saga, action) = CheckoutSaga::Finished.step(CheckoutEvent::Committed, &mut db);
    assert_eq!((saga, action), (CheckoutSaga::Finished, CheckoutAction::Nothing));
}

#[test]
fn a_capture_whose_payment_is_gone_is_reversed() {
    let mut db = shop_with_cart();
    let saga = CheckoutSaga::Capturing { user_id: BUYER, payment_id: PAYMENT, external_id: "ch_1".to_string() };
    let (saga, action) = saga.step(CheckoutEvent::Captured { raw_response: "x".to_string() }, &mut db);
    assert_eq!(action, CheckoutAction::Reverse { external_id: "ch_1".to_string() });
    assert_eq!(saga, CheckoutSaga::Reversing { error: BigNeonError::NotFound });
}

#[test]
fn payments_are_recorded_against_draft_orders_only() {
    let mut db = shop_with_cart();
    let mut order = Order::find(CART, &db).unwrap();
    let failed = order
        .add_credit_card_payment(
            BUYER,
            2000,
            PaymentProviders::Stripe,
            "ch_0".to_string(),
            PaymentStatus::Failed,
            "{}".to_string(),
            899,
            &mut db,
        )
        .unwrap();
    assert_eq!(failed.status, PaymentStatus::Failed);
    assert_eq!(order.status(), OrderStatus::Draft);
    assert_eq!(status_of(&db, CART), OrderStatus::Draft);
    let paid = order.add_external_payment("receipt".to_string(), 42, 2000, PAYMENT, &mut db).unwrap();
    assert_eq!(paid.status, PaymentStatus::Completed);
    assert_eq!(order.status(), OrderStatus::Paid);
    assert_eq!(status_of(&db, CART), OrderStatus::Paid);
    let again = order.add_external_payment("receipt".to_string(), 42, 2000, 901, &mut db);
    assert!(matches!(again, Err(BigNeonError::StateConflict)));
    assert!(matches!(paid.mark_complete("{}".to_string(), &mut db), Err(BigNeonError::StateConflict)));
    assert!(matches!(Payment::find(901, &db), Err(BigNeonError::NotFound)));
    assert_eq!(db.payments().len(), 2);
}

#[test]
fn load_payment_keeps_one_live_payment_to_a_paid_order() {
    let mut db = shop_with_cart();
    let payment = Payment {
        id: PAYMENT,
        order_id: CART,
        created_by: BUYER,
        status: PaymentStatus::Authorized,
        payment_method: PaymentMethods::CreditCard,
        amount: 2000,
        provider: PaymentProviders::Stripe,
        external_reference: "ch_1".to_string(),
        raw_data: None,
    };
    assert!(matches!(db.load_payment(payment.clone()), Err(BigNeonError::StateConflict)));
    assert!(matches!(db.load_payment(Payment { order_id: 999, ..payment.clone() }), Err(BigNeonError::NotFound)));
    db.load_payment(Payment { status: PaymentStatus::Failed, ..payment.clone() }).unwrap();
    assert!(matches!(db.load_payment(payment.clone()), Err(BigNeonError::DuplicateKey)));
    NewOrder { user_id: Some(BUYER), status: OrderStatus::Paid, order_type: OrderTypes::Cart, expires_at: 0 }
        .commit(601, &mut db)
        .unwrap();
    db.load_payment(Payment { id: 901, order_id: 601, ..payment.clone() }).unwrap();
    assert!(matches!(
        db.load_payment(Payment { id: 902, order_id: 601, status: PaymentStatus::Completed, ..payment.clone() }),
        Err(BigNeonError::StateConflict)
    ));
    Payment::find(901, &db).unwrap().mark_complete("{}".to_string(), &mut db).unwrap();
    assert_eq!(Payment::find(901, &db).unwrap().status, PaymentStatus::Completed);
}

#[test]
fn checkout_draws_the_identity_of_the_payment_itself() {
    let mut db = shop_with_cart();
    let (saga, action) = checkout(&mut db, CART, by_reference(2000), &clerk(), "usd");
    assert!(saga.is_finished());
    match action {
        CheckoutAction::Succeed { payment_id } => {
            assert_eq!(db.payments().len(), 1);
            assert_eq!(db.payments()[0].id, payment_id);
            assert_eq!(db.payments()[0].amount, 2000);
        }
        other => panic!("expected success, got {:?}", other),
    }
    assert_eq!(status_of(&db, CART), OrderStatus::Paid);
    let (saga, action) = checkout(&mut db, CART, by_card(2000), &card_buyer(), "usd");
    assert!(saga.is_finished());
    assert_eq!(action, CheckoutAction::Fail { error: BigNeonError::StateConflict, reversal_failed: false });
    assert_eq!(db.payments().len(), 1);
}
