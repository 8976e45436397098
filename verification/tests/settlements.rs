use bigneon::auth::Scopes;
use bigneon::auth::User;
use bigneon::controllers::settlements::create;
use bigneon::controllers::settlements::destroy;
use bigneon::controllers::settlements::index;
use bigneon::controllers::settlements::show;
use bigneon::controllers::settlements::NewSettlementRequest;
use bigneon::controllers::settlements::SettlementQuery;
use bigneon::controllers::settlements::SettlementStatus;
use bigneon::controllers::settlements::SettlementTypes;
use bigneon::errors::BigNeonError;

fn with(scopes: Vec<Scopes>) -> User {
    User { id: 42, scopes }
}

#[test]
fn scopes_are_looked_up_in_what_was_granted() {
    let user = with(vec![Scopes::SettlementRead, Scopes::OrgAdmin]);
    assert_eq!(user.id(), 42);
    assert!(user.has_scope(Scopes::SettlementRead));
    assert!(user.has_scope(Scopes::OrgAdmin));
    assert!(!user.has_scope(Scopes::SettlementWrite));
    assert_eq!(user.requires_scope(Scopes::OrgAdmin), Ok(()));
    assert_eq!(user.requires_scope(Scopes::OrderMakeExternalPayment), Err(BigNeonError::Forbidden));
}

#[test]
fn index_skips_the_pages_before_and_hides_early_settlements_from_most() {
    let reader = with(vec![Scopes::SettlementRead]);
    assert_eq!(
        index(9, 50, 3, None, &reader),
        Ok(SettlementQuery { organization_id: 9, limit: 50, offset: 150, hide_early_settlements: true })
    );
    assert_eq!(index(9, 50, 3, Some(7), &reader).unwrap().hide_early_settlements, false);
    let early = with(vec![Scopes::SettlementReadEarly, Scopes::SettlementRead]);
    assert_eq!(index(9, 50, 0, None, &early).unwrap(), SettlementQuery {
        organization_id: 9,
        limit: 50,
        offset: 0,
        hide_early_settlements: false,
    });
    assert_eq!(index(9, u32::MAX, u32::MAX, None, &early).unwrap().offset, 18_446_744_065_119_617_025);
    assert_eq!(index(9, 50, 3, None, &with(vec![Scopes::SettlementReadEarly])), Err(BigNeonError::Forbidden));
}

#[test]
fn create_makes_a_pending_settlement() {
    let request = NewSettlementRequest { start_time: 10, end_time: 20, comment: Some("March".to_string()) };
    let writer = with(vec![Scopes::SettlementWrite]);
    let settlement = create(9, SettlementTypes::PostEvent, &request, &writer).unwrap();
    assert_eq!(settlement.organization_id, 9);
    assert_eq!(settlement.start_time, 10);
    assert_eq!(settlement.end_time, 20);
    assert_eq!(settlement.status, SettlementStatus::PendingSettlement);
    assert_eq!(settlement.comment, Some("March".to_string()));
    assert!(settlement.only_finished_events);
    assert!(!create(9, SettlementTypes::Rolling, &request, &writer).unwrap().only_finished_events);
    assert_eq!(
        create(9, SettlementTypes::Rolling, &request, &with(vec![Scopes::SettlementRead])),
        Err(BigNeonError::Forbidden)
    );
}

#[test]
fn show_is_unauthorized_for_a_settlement_that_is_not_visible_yet() {
    let reader = with(vec![Scopes::SettlementRead]);
    let early = with(vec![Scopes::SettlementRead, Scopes::SettlementReadEarly]);
    assert_eq!(show(true, None, &reader), Ok(()));
    assert_eq!(show(false, None, &reader), Err(BigNeonError::Unauthorized));
    assert_eq!(show(false, Some(7), &reader), Ok(()));
    assert_eq!(show(false, None, &early), Ok(()));
    assert_eq!(show(true, None, &with(vec![])), Err(BigNeonError::Forbidden));
}

#[test]
fn destroy_is_for_administrators() {
    assert_eq!(destroy(&with(vec![Scopes::OrgAdmin])), Ok(()));
    assert_eq!(destroy(&with(vec![Scopes::SettlementWrite])), Err(BigNeonError::Forbidden));
}
