use bigneon::database::Database;
use bigneon::errors::BigNeonError;
use bigneon::models::refunds::Refund;
use bigneon::models::refunds::RefundItem;

#[test]
fn a_refund_is_recorded_whatever_it_refers_to() {
    let mut db = Database::new();
    let new = Refund::create(600, 42);
    assert_eq!(new.order_id, 600);
    assert_eq!(new.user_id, 42);
    let refund = new.commit(800, 1_000, &mut db).unwrap();
    assert_eq!(refund, Refund { id: 800, order_id: 600, user_id: 42, created_at: 1_000, updated_at: 1_000 });
    assert_eq!(Refund::find(800, &db), Ok(refund));
    assert!(matches!(Refund::find(801, &db), Err(BigNeonError::NotFound)));
    assert!(matches!(Refund::create(600, 42).commit(800, 2_000, &mut db), Err(BigNeonError::DuplicateKey)));
    assert_eq!(db.refunds().len(), 1);
    assert!(db.payments().is_empty());
    assert!(db.domain_events().is_empty());
}

#[test]
fn the_items_of_a_refund_are_its_own_in_the_order_they_were_stored() {
    let mut db = Database::new();
    let first = Refund::create(600, 42).commit(800, 1_000, &mut db).unwrap();
    let second = Refund::create(601, 42).commit(801, 1_000, &mut db).unwrap();
    assert!(first.items(&db).is_empty());
    let a = RefundItem::create(800, 700, 1, 1000).commit(810, &mut db).unwrap();
    let b = RefundItem::create(801, 701, 2, 500).commit(811, &mut db).unwrap();
    let c = RefundItem::create(800, 702, 3, 250).commit(812, &mut db).unwrap();
    assert_eq!(a, RefundItem { id: 810, refund_id: 800, order_item_id: 700, quantity: 1, amount: 1000 });
    assert_eq!(first.items(&db), vec![a, c]);
    assert_eq!(second.items(&db), vec![b]);
    assert!(matches!(RefundItem::create(802, 700, 1, 1).commit(813, &mut db), Err(BigNeonError::NotFound)));
    assert!(matches!(RefundItem::create(800, 700, 1, 1).commit(810, &mut db), Err(BigNeonError::DuplicateKey)));
    assert_eq!(db.refund_items().len(), 3);
}

#[test]
fn load_refund_keeps_the_moments_of_the_row() {
    let mut db = Database::new();
    let row = Refund { id: 800, order_id: 600, user_id: 42, created_at: 1_000, updated_at: 5_000 };
    db.load_refund(row).unwrap();
    assert!(matches!(db.load_refund(row), Err(BigNeonError::DuplicateKey)));
    assert_eq!(db.refunds(), &vec![row]);
}
