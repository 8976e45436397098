use bigneon::database::Database;
use bigneon::errors::BigNeonError;
use bigneon::errors::Field;
use bigneon::errors::ValidationCode;
use bigneon::models::domain_events::EventData;
use bigneon::models::enums::DomainEventTypes;
use bigneon::models::enums::OrderStatus;
use bigneon::models::enums::OrderTypes;
use bigneon::models::enums::Tables;
use bigneon::models::enums::TicketPricingStatus;
use bigneon::models::orders::NewOrder;
use bigneon::models::orders::Order;
use bigneon::models::orders::OrderItem;
use bigneon::models::ticket_pricing::update_strategy;
use bigneon::models::ticket_pricing::TicketPricing;
use bigneon::models::ticket_pricing::TicketPricingEditableAttributes;
use bigneon::models::ticket_pricing::UpdateStrategy;
use bigneon::models::ticket_types::TicketType;

const DAY: i64 = 86_400_000_000;
const TYPE: u128 = 1;

fn ledger_with_type() -> Database {
    let mut db = Database::new();
    TicketType::create(7, "General admission".to_string(), 0, 100 * DAY)
        .commit(TYPE, &mut db)
        .unwrap();
    db
}

fn entry(name: &str, start: i64, end: i64, price: i64) -> bigneon::models::ticket_pricing::NewTicketPricing {
    TicketPricing::create(TYPE, name.to_string(), start, end, price, false, None, None)
}

fn raw(id: u128, start: i64, end: i64, price: i64, box_office: bool, status: TicketPricingStatus) -> TicketPricing {
    TicketPricing {
        id,
        ticket_type_id: TYPE,
        name: format!("entry {}", id),
        status,
        price_in_cents: price,
        start_date: start,
        end_date: end,
        is_box_office_only: box_office,
        previous_ticket_pricing_id: None,
    }
}

fn ledger_with_sold_entry() -> Database {
    let mut db = ledger_with_type();
    entry("Early bird", DAY, 10 * DAY, 1000).commit(11, None, &mut db).unwrap();
    Order::create(500, OrderTypes::Cart, 50 * DAY).commit(600, &mut db).unwrap();
    db.load_order_item(OrderItem {
        id: 700,
        order_id: 600,
        ticket_type_id: TYPE,
        ticket_pricing_id: Some(11),
        quantity: 2,
    })
    .unwrap();
    db
}

fn active_pairs_overlap(db: &Database) -> bool {
    let entries = db.ticket_pricing();
    for i in 0..entries.len() {
        for j in (i + 1)..entries.len() {
            let a = &entries[i];
            let b = &entries[j];
            if a.ticket_type_id == b.ticket_type_id
                && a.status != TicketPricingStatus::Deleted
                && b.status != TicketPricingStatus::Deleted
                && a.start_date < b.end_date
                && b.start_date < a.end_date
            {
                return true;
            }
        }
    }
    false
}

#[test]
fn create_defaults_to_published() {
    let new = entry("Early bird", DAY, 10 * DAY, 1000);
    assert_eq!(new.status, TicketPricingStatus::Published);
    assert_eq!(new.previous_ticket_pricing_id, None);
    let default = TicketPricing::create(
        TYPE,
        "Base".to_string(),
        0,
        DAY,
        500,
        true,
        Some(TicketPricingStatus::Default),
        Some(3),
    );
    assert_eq!(default.status, TicketPricingStatus::Default);
    assert!(default.is_box_office_only);
    assert_eq!(default.previous_ticket_pricing_id, Some(3));
}

#[test]
fn commit_stores_a_published_entry() {
    let mut db = ledger_with_type();
    let stored = entry("Early bird", DAY, 10 * DAY, 1000).commit(11, Some(42), &mut db).unwrap();
    assert_eq!(stored.id, 11);
    assert_eq!(stored.status, TicketPricingStatus::Published);
    assert_eq!(stored.price_in_cents, 1000);
    assert_eq!(db.ticket_pricing().len(), 1);
    assert_eq!(db.ticket_pricing()[0].name, "Early bird");
    let events = db.domain_events();
    assert_eq!(events.len(), 1);
    assert_eq!(events[0].event_type, DomainEventTypes::TicketPricingCreated);
    assert_eq!(events[0].main_table, Tables::TicketPricing);
    assert_eq!(events[0].main_id, Some(11));
    assert_eq!(events[0].user_id, Some(42));
}

#[test]
fn created_event_names_the_entry_by_its_uuid() {
    let mut db = ledger_with_type();
    entry("Early bird", DAY, 10 * DAY, 1000)
        .commit(0xa1a2a3a4_b1b2_c1c2_d1d2_d3d4d5d6d7d8, None, &mut db)
        .unwrap();
    assert_eq!(
        db.domain_events()[0].display_text,
        "Ticket pricing 'a1a2a3a4-b1b2-c1c2-d1d2-d3d4d5d6d7d8' created"
    );
}

#[test]
fn validate_record_reports_window_and_price_in_order() {
    let bad = entry("Bad", 5 * DAY, 5 * DAY, -1);
    match bad.validate_record() {
        Err(BigNeonError::Validation(errors)) => {
            assert_eq!(errors.len(), 2);
            assert_eq!(errors[0].field, Field::TicketPricingStartDate);
            assert_eq!(errors[0].error.code, ValidationCode::StartDateMustBeBeforeEndDate);
            assert_eq!(errors[1].field, Field::TicketPricingPriceInCents);
            assert_eq!(errors[1].error.code, ValidationCode::NumberMustBePositive);
            assert_eq!(errors[1].error.code.code(), "number_must_be_positive");
            assert_eq!(errors[1].error.code.message(), "Ticket price must be positive");
            assert_eq!(errors[1].field.path(), "ticket_pricing.price_in_cents");
        }
        other => panic!("expected two validation errors, got {:?}", other),
    }
    assert_eq!(entry("Free", DAY, 2 * DAY, 0).validate_record(), Ok(()));
}

#[test]
fn commit_rejects_an_empty_window() {
    let mut db = ledger_with_type();
    let r = entry("Empty", 5 * DAY, 5 * DAY, 1000).commit(11, None, &mut db);
    match r {
        Err(BigNeonError::Validation(errors)) => {
            assert_eq!(errors.len(), 1);
            assert_eq!(errors[0].error.code.message(), "start_date must precede end_date");
        }
        other => panic!("expected a validation error, got {:?}", other),
    }
    assert!(db.ticket_pricing().is_empty());
    assert!(db.domain_events().is_empty());
}

#[test]
fn commit_rejects_a_window_outside_its_ticket_type() {
    let mut db = ledger_with_type();
    let r = entry("Too long", -DAY, 101 * DAY, 1000).commit(11, None, &mut db);
    match r {
        Err(BigNeonError::Validation(errors)) => {
            assert_eq!(errors.len(), 2);
            assert_eq!(errors[0].field, Field::TicketPricingStartDate);
            assert_eq!(errors[0].error.code.code(), "ticket_pricing_overlapping_ticket_type_start_date");
            assert_eq!(errors[0].error.params.ticket_type_id, Some(TYPE));
            assert_eq!(errors[0].error.params.start_date, Some(-DAY));
            assert_eq!(errors[1].field, Field::TicketPricingEndDate);
            assert_eq!(errors[1].error.code.code(), "ticket_pricing_overlapping_ticket_type_end_date");
            assert_eq!(errors[1].error.params.end_date, Some(101 * DAY));
        }
        other => panic!("expected two validation errors, got {:?}", other),
    }
    assert!(db.ticket_pricing().is_empty());
}

#[test]
fn commit_refuses_an_overlapping_window() {
    let mut db = ledger_with_type();
    entry("Early bird", DAY, 10 * DAY, 1000).commit(11, None, &mut db).unwrap();
    let second = entry("Regular", 9 * DAY, 20 * DAY, 2000).commit(12, None, &mut db);
    match second {
        Err(BigNeonError::Validation(errors)) => {
            assert_eq!(errors.len(), 1);
            assert_eq!(errors[0].field, Field::TicketPricing);
            assert_eq!(errors[0].error.code.code(), "ticket_pricing_overlapping_periods");
            assert_eq!(errors[0].error.params.ticket_pricing_id, Some(12));
        }
        other => panic!("expected a validation error, got {:?}", other),
    }
    assert_eq!(db.ticket_pricing().len(), 1);
    // Windows that only touch do not overlap: the end is not part of the window.
    entry("Regular", 10 * DAY, 20 * DAY, 2000).commit(12, None, &mut db).unwrap();
    assert_eq!(db.ticket_pricing().len(), 2);
}

#[test]
fn commit_holds_default_entries_to_the_same_rule() {
    let mut db = ledger_with_type();
    entry("Early bird", DAY, 10 * DAY, 1000).commit(11, None, &mut db).unwrap();
    let default = TicketPricing::create(
        TYPE,
        "Base".to_string(),
        0,
        100 * DAY,
        1500,
        false,
        Some(TicketPricingStatus::Default),
        None,
    );
    assert!(matches!(default.commit(12, None, &mut db), Err(BigNeonError::Validation(_))));
    // A deleted entry is in nobody's way.
    let deleted = TicketPricing::create(
        TYPE,
        "Gone".to_string(),
        0,
        100 * DAY,
        1500,
        false,
        Some(TicketPricingStatus::Deleted),
        None,
    );
    assert!(deleted.commit(13, None, &mut db).is_ok());
}

#[test]
fn commit_rejects_an_unknown_ticket_type_and_a_taken_identity() {
    let mut db = ledger_with_type();
    let stray = TicketPricing::create(99, "Stray".to_string(), DAY, 2 * DAY, 1000, false, None, None);
    assert!(matches!(stray.commit(11, None, &mut db), Err(BigNeonError::NotFound)));
    entry("Early bird", DAY, 10 * DAY, 1000).commit(11, None, &mut db).unwrap();
    let again = entry("Late", 20 * DAY, 30 * DAY, 1000).commit(11, None, &mut db);
    assert!(matches!(again, Err(BigNeonError::DuplicateKey)));
    let own_predecessor =
        TicketPricing::create(TYPE, "Loop".to_string(), 20 * DAY, 30 * DAY, 1000, false, None, Some(12))
            .commit(12, None, &mut db);
    assert!(matches!(own_predecessor, Err(BigNeonError::DuplicateKey)));
    assert_eq!(db.ticket_pricing().len(), 1);
}

#[test]
fn the_three_window_checks_agree_with_their_rules() {
    let db = ledger_with_sold_entry();
    let ticket_type = TicketType::find(TYPE, &db).unwrap();
    assert!(TicketPricing::ticket_pricing_does_not_overlap_ticket_type_start_date(&ticket_type, 0).is_ok());
    assert!(TicketPricing::ticket_pricing_does_not_overlap_ticket_type_start_date(&ticket_type, -1).is_err());
    assert!(TicketPricing::ticket_pricing_does_not_overlap_ticket_type_end_date(&ticket_type, 100 * DAY).is_ok());
    assert!(
        TicketPricing::ticket_pricing_does_not_overlap_ticket_type_end_date(&ticket_type, 100 * DAY + 1).is_err()
    );
    let published = TicketPricingStatus::Published;
    let check = |id: u128, start: i64, end: i64, status: TicketPricingStatus| {
        TicketPricing::ticket_pricing_no_overlapping_periods(id, TYPE, start, end, false, status, &db).is_ok()
    };
    assert!(!check(12, 5 * DAY, 6 * DAY, published));
    assert!(check(11, 5 * DAY, 6 * DAY, published));
    assert!(check(12, 10 * DAY, 11 * DAY, published));
    assert!(check(12, 0, DAY, published));
    assert!(check(12, 5 * DAY, 6 * DAY, TicketPricingStatus::Deleted));
    assert!(!check(12, 5 * DAY, 6 * DAY, TicketPricingStatus::Default));
    assert!(
        TicketPricing::ticket_pricing_no_overlapping_periods(12, 2, 5 * DAY, 6 * DAY, true, published, &db).is_ok()
    );
}

#[test]
fn update_strategy_forks_only_a_referenced_entry_whose_price_changes() {
    assert_eq!(update_strategy(true, true), UpdateStrategy::Fork);
    assert_eq!(update_strategy(true, false), UpdateStrategy::MutateInPlace);
    assert_eq!(update_strategy(false, true), UpdateStrategy::MutateInPlace);
    assert_eq!(update_strategy(false, false), UpdateStrategy::MutateInPlace);
}

#[test]
fn has_changes_compares_only_what_is_given() {
    let db = ledger_with_sold_entry();
    let current = TicketPricing::find(11, &db).unwrap();
    let mut attributes = TicketPricingEditableAttributes::default();
    assert!(!current.has_changes(&attributes));
    attributes.name = Some("Early bird".to_string());
    attributes.price_in_cents = Some(1000);
    attributes.start_date = Some(DAY);
    attributes.end_date = Some(10 * DAY);
    attributes.is_box_office_only = Some(false);
    assert!(!current.has_changes(&attributes));
    attributes.is_box_office_only = Some(true);
    assert!(current.has_changes(&attributes));
    let renamed = TicketPricingEditableAttributes { name: Some("Bird".to_string()), ..Default::default() };
    assert!(current.has_changes(&renamed));
}

#[test]
fn update_without_changes_is_a_no_op() {
    let mut db = ledger_with_sold_entry();
    let current = TicketPricing::find(11, &db).unwrap();
    let events = db.domain_events().len();
    let same = TicketPricingEditableAttributes { price_in_cents: Some(1000), ..Default::default() };
    let r = current.update(same, None, 12, &mut db).unwrap();
    assert_eq!(r.id, 11);
    assert_eq!(r.price_in_cents, 1000);
    assert_eq!(db.ticket_pricing().len(), 1);
    assert_eq!(db.domain_events().len(), events);
}

#[test]
fn update_of_an_unreferenced_entry_changes_it_in_place() {
    let mut db = ledger_with_type();
    let current = entry("Early bird", DAY, 10 * DAY, 1000).commit(11, None, &mut db).unwrap();
    let attributes = TicketPricingEditableAttributes {
        name: Some("Earlier bird".to_string()),
        price_in_cents: Some(900),
        ..Default::default()
    };
    let r = current.update(attributes, Some(42), 12, &mut db).unwrap();
    assert_eq!(r.id, 11);
    assert_eq!(r.price_in_cents, 900);
    assert_eq!(r.name, "Earlier bird");
    assert_eq!(r.start_date, DAY);
    assert_eq!(db.ticket_pricing().len(), 1);
    assert_eq!(db.ticket_pricing()[0].price_in_cents, 900);
    let event = db.domain_events().last().unwrap();
    assert_eq!(event.event_type, DomainEventTypes::TicketPricingUpdated);
    assert_eq!(event.display_text, "Ticketing pricing 'Early bird' updated");
    assert_eq!(event.user_id, Some(42));
    match &event.event_data {
        EventData::PricingAttributes(a) => assert_eq!(a.price_in_cents, Some(900)),
        other => panic!("expected the attributes, got {:?}", other),
    }
}

#[test]
fn update_of_a_referenced_entry_keeps_the_price_when_only_the_name_changes() {
    let mut db = ledger_with_sold_entry();
    let current = TicketPricing::find(11, &db).unwrap();
    let attributes = TicketPricingEditableAttributes { end_date: Some(20 * DAY), ..Default::default() };
    let r = current.update(attributes, None, 12, &mut db).unwrap();
    assert_eq!(r.id, 11);
    assert_eq!(r.end_date, 20 * DAY);
    assert_eq!(db.ticket_pricing().len(), 1);
    assert_eq!(db.ticket_pricing()[0].price_in_cents, 1000);
}

#[test]
fn update_of_a_referenced_entry_forks_when_the_price_changes() {
    let mut db = ledger_with_sold_entry();
    let current = TicketPricing::find(11, &db).unwrap();
    let cart = Order::find(600, &db).unwrap();
    assert_eq!(cart.calculate_total(&db), Ok(2000));
    let attributes = TicketPricingEditableAttributes { price_in_cents: Some(1200), ..Default::default() };
    let successor = current.update(attributes, Some(42), 12, &mut db).unwrap();
    assert_eq!(successor.id, 12);
    assert_eq!(successor.price_in_cents, 1200);
    assert_eq!(successor.previous_ticket_pricing_id, Some(11));
    assert_eq!(successor.status, TicketPricingStatus::Published);
    assert_eq!(successor.name, "Early bird");
    assert_eq!(successor.start_date, DAY);
    assert_eq!(successor.end_date, 10 * DAY);
    let ledger = db.ticket_pricing();
    assert_eq!(ledger.len(), 2);
    assert_eq!(ledger[0].id, 11);
    assert_eq!(ledger[0].status, TicketPricingStatus::Deleted);
    assert_eq!(ledger[0].price_in_cents, 1000);
    assert_eq!(ledger[1].id, 12);
    let events = db.domain_events();
    let n = events.len();
    assert_eq!(events[n - 2].event_type, DomainEventTypes::TicketPricingDeleted);
    assert_eq!(events[n - 2].display_text, "Ticket pricing 'Early bird' deleted");
    assert_eq!(events[n - 1].event_type, DomainEventTypes::TicketPricingCreated);
    assert_eq!(events[n - 1].main_id, Some(12));
    // What was sold stays at the price it was sold at.
    assert_eq!(cart.calculate_total(&db), Ok(2000));
    assert!(!active_pairs_overlap(&db));
}

#[test]
fn a_refused_fork_changes_nothing() {
    let mut db = ledger_with_sold_entry();
    let current = TicketPricing::find(11, &db).unwrap();
    let negative = TicketPricingEditableAttributes { price_in_cents: Some(-5), ..Default::default() };
    assert!(matches!(current.update(negative, None, 12, &mut db), Err(BigNeonError::Validation(_))));
    let taken = TicketPricingEditableAttributes { price_in_cents: Some(1200), ..Default::default() };
    assert!(matches!(current.update(taken, None, 11, &mut db), Err(BigNeonError::DuplicateKey)));
    assert_eq!(db.ticket_pricing().len(), 1);
    assert_eq!(db.ticket_pricing()[0].status, TicketPricingStatus::Published);
    assert_eq!(db.ticket_pricing()[0].price_in_cents, 1000);
    assert_eq!(db.domain_events().len(), 1);
}

#[test]
fn update_revalidates_the_window() {
    let mut db = ledger_with_type();
    let first = entry("Early bird", DAY, 10 * DAY, 1000).commit(11, None, &mut db).unwrap();
    entry("Regular", 10 * DAY, 20 * DAY, 2000).commit(12, None, &mut db).unwrap();
    let overlapping = TicketPricingEditableAttributes { end_date: Some(11 * DAY), ..Default::default() };
    assert!(matches!(first.update(overlapping, None, 13, &mut db), Err(BigNeonError::Validation(_))));
    let inverted = TicketPricingEditableAttributes { start_date: Some(10 * DAY), ..Default::default() };
    match first.update(inverted, None, 13, &mut db) {
        Err(BigNeonError::Validation(errors)) => {
            assert_eq!(errors[0].error.code, ValidationCode::StartDateMustBeBeforeEndDate)
        }
        other => panic!("expected a validation error, got {:?}", other),
    }
    let outside = TicketPricingEditableAttributes { start_date: Some(-DAY), ..Default::default() };
    assert!(matches!(first.update(outside, None, 13, &mut db), Err(BigNeonError::Validation(_))));
    assert_eq!(db.ticket_pricing()[0].end_date, 10 * DAY);
    assert_eq!(db.ticket_pricing()[0].start_date, DAY);
    let missing = raw(77, DAY, 2 * DAY, 1, false, TicketPricingStatus::Published);
    let any = TicketPricingEditableAttributes { price_in_cents: Some(2), ..Default::default() };
    assert!(matches!(missing.update(any, None, 13, &mut db), Err(BigNeonError::NotFound)));
}

#[test]
fn validate_record_of_an_entry_checks_the_merged_window() {
    let db = ledger_with_sold_entry();
    let current = TicketPricing::find(11, &db).unwrap();
    let fine = TicketPricingEditableAttributes { end_date: Some(2 * DAY), ..Default::default() };
    assert_eq!(current.validate_record(&fine), Ok(()));
    let inverted = TicketPricingEditableAttributes { end_date: Some(DAY), ..Default::default() };
    assert!(matches!(current.validate_record(&inverted), Err(BigNeonError::Validation(_))));
}

#[test]
fn destroy_removes_an_unreferenced_entry() {
    let mut db = ledger_with_type();
    let current = entry("Early bird", DAY, 10 * DAY, 1000).commit(11, None, &mut db).unwrap();
    assert_eq!(current.affected_order_count(&db), 0);
    current.destroy(Some(42), &mut db).unwrap();
    assert!(db.ticket_pricing().is_empty());
    let event = db.domain_events().last().unwrap();
    assert_eq!(event.event_type, DomainEventTypes::TicketPricingDeleted);
    assert_eq!(event.display_text, "Ticket pricing 'Early bird' deleted");
    assert_eq!(event.main_id, Some(11));
    assert!(matches!(current.destroy(None, &mut db), Err(BigNeonError::NotFound)));
}

#[test]
fn destroy_only_marks_a_referenced_entry() {
    let mut db = ledger_with_sold_entry();
    let current = TicketPricing::find(11, &db).unwrap();
    assert_eq!(current.affected_order_count(&db), 1);
    current.destroy(None, &mut db).unwrap();
    assert_eq!(db.ticket_pricing().len(), 1);
    assert_eq!(db.ticket_pricing()[0].status, TicketPricingStatus::Deleted);
    assert_eq!(db.ticket_pricing()[0].price_in_cents, 1000);
    assert_eq!(Order::find(600, &db).unwrap().calculate_total(&db), Ok(2000));
    // It no longer prices anything new.
    assert!(matches!(
        TicketPricing::get_current_ticket_pricing(TYPE, false, false, 5 * DAY, &db),
        Err(BigNeonError::NotFound)
    ));
    match &db.domain_events().last().unwrap().event_data {
        EventData::Pricing(p) => assert_eq!(p.status, TicketPricingStatus::Deleted),
        other => panic!("expected the entry, got {:?}", other),
    }
}

#[test]
fn start_sales_pulls_a_future_start_forward() {
    let mut db = ledger_with_type();
    let current = entry("Early bird", 5 * DAY, 10 * DAY, 1000).commit(11, None, &mut db).unwrap();
    current.clone().start_sales(2 * DAY, Some(42), &mut db).unwrap();
    assert_eq!(db.ticket_pricing()[0].start_date, 2 * DAY);
    let event = db.domain_events().last().unwrap();
    assert_eq!(event.event_type, DomainEventTypes::TicketPricingSalesStarted);
    assert_eq!(event.display_text, "Sales have started on 'Early bird'");
    match &event.event_data {
        EventData::SalesStarted { old_start_date, new_start_date } => {
            assert_eq!(*old_start_date, 5 * DAY);
            assert_eq!(*new_start_date, 2 * DAY);
        }
        other => panic!("expected the two starts, got {:?}", other),
    }
    let events = db.domain_events().len();
    current.clone().start_sales(3 * DAY, None, &mut db).unwrap();
    assert_eq!(db.ticket_pricing()[0].start_date, 2 * DAY);
    assert_eq!(db.domain_events().len(), events);
    let missing = raw(77, DAY, 2 * DAY, 1, false, TicketPricingStatus::Published);
    assert!(matches!(missing.start_sales(0, None, &mut db), Err(BigNeonError::NotFound)));
}

#[test]
fn current_pricing_is_the_published_entry_whose_window_holds_now() {
    let mut db = ledger_with_type();
    entry("Early bird", DAY, 10 * DAY, 1000).commit(11, None, &mut db).unwrap();
    entry("Regular", 10 * DAY, 20 * DAY, 2000).commit(12, None, &mut db).unwrap();
    let at = |now: i64| TicketPricing::get_current_ticket_pricing(TYPE, false, false, now, &db).map(|p| p.id);
    assert!(matches!(at(DAY - 1), Err(BigNeonError::NotFound)));
    assert_eq!(at(DAY).unwrap(), 11);
    assert_eq!(at(10 * DAY - 1).unwrap(), 11);
    assert_eq!(at(10 * DAY).unwrap(), 12);
    assert!(matches!(at(20 * DAY), Err(BigNeonError::NotFound)));
    assert!(matches!(
        TicketPricing::get_current_ticket_pricing(2, false, false, 5 * DAY, &db),
        Err(BigNeonError::NotFound)
    ));
}

#[test]
fn current_pricing_falls_back_to_the_default_entry_once() {
    let mut db = ledger_with_type();
    db.load_ticket_pricing(raw(11, DAY, 10 * DAY, 1000, false, TicketPricingStatus::Published)).unwrap();
    db.load_ticket_pricing(raw(12, 0, 100 * DAY, 1500, false, TicketPricingStatus::Default)).unwrap();
    let at = |now: i64, default: bool| {
        TicketPricing::get_current_ticket_pricing(TYPE, false, default, now, &db).map(|p| p.id)
    };
    assert_eq!(at(5 * DAY, false).unwrap(), 11);
    assert_eq!(at(50 * DAY, false).unwrap(), 12);
    assert_eq!(at(5 * DAY, true).unwrap(), 12);
    assert!(matches!(at(100 * DAY, false), Err(BigNeonError::NotFound)));
    assert_eq!(TicketPricing::get_default(TYPE, &db).unwrap().id, 12);
    assert!(matches!(TicketPricing::get_default(2, &db), Err(BigNeonError::NotFound)));
}

#[test]
fn current_pricing_reports_two_general_entries_at_once() {
    let mut db = ledger_with_type();
    db.load_ticket_pricing(raw(11, DAY, 10 * DAY, 1000, false, TicketPricingStatus::Published)).unwrap();
    db.load_ticket_pricing(raw(12, 5 * DAY, 15 * DAY, 2000, false, TicketPricingStatus::Published)).unwrap();
    assert!(active_pairs_overlap(&db));
    assert!(matches!(
        TicketPricing::get_current_ticket_pricing(TYPE, false, false, 7 * DAY, &db),
        Err(BigNeonError::AmbiguousPricing)
    ));
    assert_eq!(TicketPricing::get_current_ticket_pricing(TYPE, false, false, 2 * DAY, &db).unwrap().id, 11);
    assert_eq!(TicketPricing::get_current_ticket_pricing(TYPE, false, false, 12 * DAY, &db).unwrap().id, 12);
}

#[test]
fn the_box_office_prefers_its_own_entry() {
    let mut db = ledger_with_type();
    db.load_ticket_pricing(raw(11, DAY, 10 * DAY, 1000, false, TicketPricingStatus::Published)).unwrap();
    db.load_ticket_pricing(raw(12, DAY, 10 * DAY, 800, true, TicketPricingStatus::Published)).unwrap();
    db.load_ticket_pricing(raw(13, 20 * DAY, 30 * DAY, 3000, false, TicketPricingStatus::Published)).unwrap();
    let at = |now: i64, box_office: bool| {
        TicketPricing::get_current_ticket_pricing(TYPE, box_office, false, now, &db).map(|p| p.id)
    };
    assert_eq!(at(5 * DAY, true).unwrap(), 12);
    assert_eq!(at(5 * DAY, false).unwrap(), 11);
    assert_eq!(at(25 * DAY, true).unwrap(), 13);
    assert!(matches!(at(15 * DAY, true), Err(BigNeonError::NotFound)));
}

#[test]
fn no_sequence_of_writes_leaves_two_active_windows_overlapping() {
    let mut db = ledger_with_sold_entry();
    let windows = [(0, 2 * DAY), (DAY, 3 * DAY), (10 * DAY, 12 * DAY), (11 * DAY, 30 * DAY), (12 * DAY, 13 * DAY)];
    let mut next_id: u128 = 20;
    for (start, end) in windows.iter() {
        let _ = entry("Window", *start, *end, 100).commit(next_id, None, &mut db);
        next_id += 1;
        assert!(!active_pairs_overlap(&db));
    }
    let ids: Vec<u128> = db.ticket_pricing().iter().map(|p| p.id).collect();
    for id in ids.iter() {
        let current = TicketPricing::find(*id, &db).unwrap();
        for (start, end) in windows.iter() {
            let attributes = TicketPricingEditableAttributes {
                start_date: Some(*start),
                end_date: Some(*end),
                price_in_cents: Some(current.price_in_cents + 1),
                ..Default::default()
            };
            let _ = current.update(attributes, None, next_id, &mut db);
            next_id += 1;
            assert!(!active_pairs_overlap(&db));
        }
    }
    let ids: Vec<u128> = db.ticket_pricing().iter().map(|p| p.id).collect();
    for id in ids.iter() {
        TicketPricing::find(*id, &db).unwrap().destroy(None, &mut db).unwrap();
        assert!(!active_pairs_overlap(&db));
    }
}

#[test]
fn a_referenced_price_is_never_seen_to_change() {
    let mut db = ledger_with_sold_entry();
    let current = TicketPricing::find(11, &db).unwrap();
    for price in [1200, 1500, 0] {
        let attributes = TicketPricingEditableAttributes { price_in_cents: Some(price), ..Default::default() };
        let latest = db.ticket_pricing().last().unwrap().clone();
        latest.update(attributes, None, 100 + price as u128, &mut db).unwrap();
        assert_eq!(TicketPricing::find(11, &db).unwrap().price_in_cents, 1000);
    }
    current.destroy(None, &mut db).unwrap();
    assert_eq!(TicketPricing::find(11, &db).unwrap().price_in_cents, 1000);
    current.clone().start_sales(0, None, &mut db).unwrap();
    assert_eq!(TicketPricing::find(11, &db).unwrap().price_in_cents, 1000);
}

#[test]
fn associated_with_active_orders_follows_the_chain_back() {
    let mut db = ledger_with_sold_entry();
    let first = TicketPricing::find(11, &db).unwrap();
    let attributes = TicketPricingEditableAttributes { price_in_cents: Some(1200), ..Default::default() };
    let second = first.update(attributes, None, 12, &mut db).unwrap();
    let unrelated = entry("Late", 20 * DAY, 30 * DAY, 500).commit(13, None, &mut db).unwrap();
    // The cart expires at day 50 and holds an item at the first entry.
    assert!(first.associated_with_active_orders(10 * DAY, &db));
    assert!(second.associated_with_active_orders(10 * DAY, &db));
    assert!(second.associated_with_active_orders(50 * DAY, &db));
    assert!(!second.associated_with_active_orders(50 * DAY + 1, &db));
    assert!(!unrelated.associated_with_active_orders(10 * DAY, &db));
    let missing = raw(77, DAY, 2 * DAY, 1, false, TicketPricingStatus::Published);
    assert!(!missing.associated_with_active_orders(10 * DAY, &db));
}

#[test]
fn a_paid_order_stays_associated_after_it_expired() {
    let mut db = ledger_with_type();
    entry("Early bird", DAY, 10 * DAY, 1000).commit(11, None, &mut db).unwrap();
    NewOrder { user_id: Some(500), status: OrderStatus::Paid, order_type: OrderTypes::Cart, expires_at: DAY }
        .commit(600, &mut db)
        .unwrap();
    db.load_order_item(OrderItem {
        id: 700,
        order_id: 600,
        ticket_type_id: TYPE,
        ticket_pricing_id: Some(11),
        quantity: 1,
    })
    .unwrap();
    assert!(TicketPricing::find(11, &db).unwrap().associated_with_active_orders(90 * DAY, &db));
}

#[test]
fn load_ticket_pricing_checks_only_the_identity() {
    let mut db = ledger_with_type();
    db.load_ticket_pricing(raw(11, DAY, 10 * DAY, 1000, false, TicketPricingStatus::Published)).unwrap();
    assert!(matches!(
        db.load_ticket_pricing(raw(11, 20 * DAY, 30 * DAY, 1, false, TicketPricingStatus::Published)),
        Err(BigNeonError::DuplicateKey)
    ));
    let mut successor = raw(12, DAY, 10 * DAY, 2000, false, TicketPricingStatus::Published);
    successor.previous_ticket_pricing_id = Some(13);
    db.load_ticket_pricing(successor).unwrap();
    // 13 is spoken for: an entry names it as its predecessor.
    assert!(matches!(
        db.load_ticket_pricing(raw(13, 20 * DAY, 30 * DAY, 1, false, TicketPricingStatus::Published)),
        Err(BigNeonError::DuplicateKey)
    ));
    assert!(db.domain_events().is_empty());
}

#[test]
fn ticket_types_are_found_by_identity_and_by_event() {
    let mut db = ledger_with_type();
    TicketType::create(7, "VIP".to_string(), 0, 50 * DAY).commit(2, &mut db).unwrap();
    TicketType::create(8, "Other event".to_string(), 0, 50 * DAY).commit(3, &mut db).unwrap();
    assert!(matches!(
        TicketType::create(8, "Again".to_string(), 0, DAY).commit(3, &mut db),
        Err(BigNeonError::DuplicateKey)
    ));
    let vip = TicketType::find(2, &db).unwrap();
    assert_eq!(vip.name, "VIP");
    assert_eq!(vip.status(), bigneon::models::enums::TicketTypeStatus::Published);
    assert!(matches!(TicketType::find(9, &db), Err(BigNeonError::NotFound)));
    let of_event: Vec<u128> = TicketType::find_by_event_id(7, &db).iter().map(|t| t.id).collect();
    assert_eq!(of_event, vec![TYPE, 2]);
    vip.add_ticket_pricing("VIP early".to_string(), DAY, 2 * DAY, 5000, 21, None, &mut db).unwrap();
    entry("Early bird", DAY, 10 * DAY, 1000).commit(11, None, &mut db).unwrap();
    let of_vip: Vec<u128> = vip.ticket_pricing(&db).iter().map(|p| p.id).collect();
    assert_eq!(of_vip, vec![21]);
    assert_eq!(db.ticket_pricing()[0].is_box_office_only, false);
    assert_eq!(db.ticket_types().len(), 3);
}

#[test]
fn an_update_made_twice_changes_nothing_the_second_time() {
    let mut db = ledger_with_sold_entry();
    let current = TicketPricing::find(11, &db).unwrap();
    let window = || TicketPricingEditableAttributes {
        name: Some("Bird".to_string()),
        end_date: Some(12 * DAY),
        ..Default::default()
    };
    let first = current.update(window(), None, 12, &mut db).unwrap();
    let events = db.domain_events().len();
    let second = first.update(window(), None, 13, &mut db).unwrap();
    assert_eq!(first, second);
    assert_eq!(db.domain_events().len(), events);
    let price = || TicketPricingEditableAttributes { price_in_cents: Some(1200), ..Default::default() };
    let successor = first.update(price(), None, 14, &mut db).unwrap();
    let events = db.domain_events().len();
    let again = successor.update(price(), None, 15, &mut db).unwrap();
    assert_eq!(successor, again);
    assert_eq!(db.ticket_pricing().len(), 2);
    assert_eq!(db.domain_events().len(), events);
}

#[test]
fn the_entries_of_a_ticket_type_come_back_by_name() {
    let mut db = ledger_with_type();
    TicketType::create(7, "VIP".to_string(), 0, 50 * DAY).commit(2, &mut db).unwrap();
    entry("b", DAY, 2 * DAY, 1).commit(11, None, &mut db).unwrap();
    entry("a", 2 * DAY, 3 * DAY, 2).commit(12, None, &mut db).unwrap();
    entry("ab", 3 * DAY, 4 * DAY, 3).commit(13, None, &mut db).unwrap();
    entry("B", 4 * DAY, 5 * DAY, 4).commit(14, None, &mut db).unwrap();
    entry("", 5 * DAY, 6 * DAY, 5).commit(15, None, &mut db).unwrap();
    entry("\u{e9}t\u{e9}", 6 * DAY, 7 * DAY, 6).commit(16, None, &mut db).unwrap();
    TicketPricing::create(2, "aa".to_string(), DAY, 2 * DAY, 7, false, None, None).commit(17, None, &mut db).unwrap();
    let general = TicketType::find(TYPE, &db).unwrap();
    let names: Vec<String> = general.ticket_pricing(&db).into_iter().map(|p| p.name).collect();
    assert_eq!(names, vec!["", "B", "a", "ab", "b", "\u{e9}t\u{e9}"]);
    let stored: Vec<u128> = db.ticket_pricing().iter().map(|p| p.id).collect();
    assert_eq!(stored, vec![11, 12, 13, 14, 15, 16, 17]);
    let vip = TicketType::find(2, &db).unwrap();
    assert_eq!(vip.ticket_pricing(&db).len(), 1);
}

#[test]
fn the_ticket_types_of_an_event_come_back_by_name() {
    let mut db = Database::new();
    TicketType::create(7, "VIP".to_string(), 0, DAY).commit(1, &mut db).unwrap();
    TicketType::create(8, "Balcony".to_string(), 0, DAY).commit(2, &mut db).unwrap();
    TicketType::create(7, "General admission".to_string(), 0, DAY).commit(3, &mut db).unwrap();
    TicketType::create(7, "General".to_string(), 0, DAY).commit(4, &mut db).unwrap();
    TicketType::create(7, "VIP".to_string(), 0, 2 * DAY).commit(5, &mut db).unwrap();
    let found = TicketType::find_by_event_id(7, &db);
    let names: Vec<&str> = found.iter().map(|t| t.name.as_str()).collect();
    assert_eq!(names, vec!["General", "General admission", "VIP", "VIP"]);
    let mut ids: Vec<u128> = found.iter().map(|t| t.id).collect();
    ids.sort();
    assert_eq!(ids, vec![1, 3, 4, 5]);
    assert!(TicketType::find_by_event_id(9, &db).is_empty());
}

#[test]
fn an_overlapping_window_is_refused_for_that_reason_whatever_the_identity() {
    let mut db = ledger_with_type();
    entry("Early bird", DAY, 10 * DAY, 1000).commit(11, None, &mut db).unwrap();
    // Under the identity of the entry that is in the way, too.
    for id in [11, 12] {
        match entry("Regular", 9 * DAY, 20 * DAY, 2000).commit(id, None, &mut db) {
            Err(BigNeonError::Validation(errors)) => {
                let last = errors.last().unwrap();
                assert_eq!(last.field, Field::TicketPricing);
                assert_eq!(last.error.code, ValidationCode::OverlappingPeriods);
                assert_eq!(last.error.params.ticket_pricing_id, Some(id));
            }
            other => panic!("expected a validation error, got {:?}", other),
        }
    }
    let second = entry("Regular", 10 * DAY, 20 * DAY, 2000).commit(12, None, &mut db).unwrap();
    let sold = OrderItem { id: 700, order_id: 600, ticket_type_id: TYPE, ticket_pricing_id: Some(12), quantity: 1 };
    Order::create(500, OrderTypes::Cart, 50 * DAY).commit(600, &mut db).unwrap();
    db.load_order_item(sold).unwrap();
    // In place, and as a fork: the window reaches into that of the first entry.
    let in_place = TicketPricingEditableAttributes { start_date: Some(9 * DAY), ..Default::default() };
    let forking = TicketPricingEditableAttributes {
        start_date: Some(9 * DAY),
        price_in_cents: Some(2500),
        ..Default::default()
    };
    for attributes in [in_place, forking] {
        match second.update(attributes, None, 13, &mut db) {
            Err(BigNeonError::Validation(errors)) => {
                assert_eq!(errors.last().unwrap().error.code, ValidationCode::OverlappingPeriods)
            }
            other => panic!("expected a validation error, got {:?}", other),
        }
    }
    assert_eq!(db.ticket_pricing().len(), 2);
    assert_eq!(db.ticket_pricing()[1].status, TicketPricingStatus::Published);
    assert_eq!(db.ticket_pricing()[1].start_date, 10 * DAY);
}

#[test]
fn load_ticket_pricing_needs_the_ticket_type() {
    let mut db = Database::new();
    assert!(matches!(
        db.load_ticket_pricing(raw(11, DAY, 10 * DAY, 1000, false, TicketPricingStatus::Published)),
        Err(BigNeonError::NotFound)
    ));
    assert!(db.ticket_pricing().is_empty());
}
