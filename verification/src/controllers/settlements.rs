//! Settlements of an organization: who may list, make, see and remove them,
//! and what the store is asked for.

use vstd::prelude::*;
use crate::Id;
use crate::Timestamp;
use crate::auth::Scopes;
use crate::auth::User;
use crate::errors::BigNeonError;
use crate::errors::ErrorView;

verus! {

#[derive(Clone, Copy, Debug, PartialEq, Eq, Structural)]
pub enum SettlementTypes {
    /// Settled once the event is over.
    PostEvent,
    /// Settled period by period.
    Rolling,
}

#[derive(Clone, Copy, Debug, PartialEq, Eq, Structural)]
pub enum SettlementStatus {
    PendingSettlement,
    FinishedSettlement,
}

#[derive(Debug, PartialEq, Eq)]
pub struct NewSettlementRequest {
    pub start_time: Timestamp,
    pub end_time: Timestamp,
    pub comment: Option<String>,
}

/// Which settlements of an organization to list.
#[derive(Clone, Copy, Debug, PartialEq, Eq)]
pub struct SettlementQuery {
    pub organization_id: Id,
    pub limit: u32,
    /// How many settlements to skip: the pages before this one.
    pub offset: u64,
    /// Whether to leave out the settlements of a period that is not over.
    pub hide_early_settlements: bool,
}

/// A settlement that has not been stored yet.
#[derive(Debug, PartialEq, Eq)]
pub struct NewSettlement {
    pub organization_id: Id,
    pub start_time: Timestamp,
    pub end_time: Timestamp,
    pub status: SettlementStatus,
    pub comment: Option<String>,
    pub only_finished_events: bool,
}

/// Whether `user` sees settlements only once their period is over: where no
/// settlement period is configured, everyone does who may not read them early.
pub open spec fn sees_settlements_late(user: User, settlement_period_in_days: Option<u32>) -> bool {
    settlement_period_in_days is None && !user.has_scope(Scopes::SettlementReadEarly)
}

/// What to ask the store for to list page `page` of the settlements of an
/// organization, `limit` to a page. Fails with `Forbidden` exactly if `user`
/// may not read settlements.
pub fn index(
    organization_id: Id,
    limit: u32,
    page: u32,
    settlement_period_in_days: Option<u32>,
    user: &User,
) -> (r: Result<SettlementQuery, BigNeonError>)
    ensures
        r is Ok <==> user.has_scope(Scopes::SettlementRead),
        r matches Ok(query) ==> query == (SettlementQuery {
            organization_id,
            limit,
            offset: (page * limit) as u64,
            hide_early_settlements: sees_settlements_late(*user, settlement_period_in_days),
        }),
        r matches Err(e) ==> e@ == ErrorView::Forbidden,
{
    user.requires_scope(Scopes::SettlementRead)?;
    assert(0 <= page * limit <= 0xffff_ffff * 0xffff_ffff) by (nonlinear_arith)
        requires
            0 <= page <= 0xffff_ffff,
            0 <= limit <= 0xffff_ffff,
    ;
    let offset: u64 = (page as u64) * (limit as u64);
    Ok(
        SettlementQuery {
            organization_id,
            limit,
            offset,
            hide_early_settlements: settlement_period_in_days.is_none() && !user.has_scope(
                Scopes::SettlementReadEarly,
            ),
        },
    )
}

/// The settlement to store for `new_settlement`: pending, and restricted to
/// finished events exactly if the organization settles after its events.
/// Fails with `Forbidden` exactly if `user` may not write settlements.
pub fn create(
    organization_id: Id,
    settlement_type: SettlementTypes,
    new_settlement: &NewSettlementRequest,
    user: &User,
) -> (r: Result<NewSettlement, BigNeonError>)
    ensures
        r is Ok <==> user.has_scope(Scopes::SettlementWrite),
        r matches Ok(settlement) ==> settlement == (NewSettlement {
            organization_id,
            start_time: new_settlement.start_time,
            end_time: new_settlement.end_time,
            status: SettlementStatus::PendingSettlement,
            comment: new_settlement.comment,
            only_finished_events: settlement_type == SettlementTypes::PostEvent,
        }),
        r matches Err(e) ==> e@ == ErrorView::Forbidden,
{
    user.requires_scope(Scopes::SettlementWrite)?;
    Ok(
        NewSettlement {
            organization_id,
            start_time: new_settlement.start_time,
            end_time: new_settlement.end_time,
            status: SettlementStatus::PendingSettlement,
            comment: match &new_settlement.comment {
                Some(comment) => Some(comment.clone()),
                None => None,
            },
            only_finished_events: settlement_type == SettlementTypes::PostEvent,
        },
    )
}

/// Why `user` may not see a settlement, if they may not: `Forbidden` for one
/// who may not read settlements; `Unauthorized` for one who sees them only
/// late, where this one is not visible yet.
pub open spec fn show_rejection(visible: bool, settlement_period_in_days: Option<u32>, user: User) -> Option<
    ErrorView,
> {
    if !user.has_scope(Scopes::SettlementRead) {
        Some(ErrorView::Forbidden)
    } else if sees_settlements_late(user, settlement_period_in_days) && !visible {
        Some(ErrorView::Unauthorized)
    } else {
        None
    }
}

/// Whether `user` may see a settlement; `visible` says whether its period is
/// over. It is refused exactly where [`show_rejection`] says so.
pub fn show(visible: bool, settlement_period_in_days: Option<u32>, user: &User) -> (r: Result<(), BigNeonError>)
    ensures
        r is Ok <==> show_rejection(visible, settlement_period_in_days, *user) is None,
        r matches Err(e) ==> show_rejection(visible, settlement_period_in_days, *user) == Some(e@),
{
    user.requires_scope(Scopes::SettlementRead)?;
    if settlement_period_in_days.is_none() && !user.has_scope(Scopes::SettlementReadEarly) && !visible {
        return Err(BigNeonError::Unauthorized);
    }
    Ok(())
}

/// Whether `user` may remove a settlement: only an administrator of the
/// organization may.
pub fn destroy(user: &User) -> (r: Result<(), BigNeonError>)
    ensures
        r is Ok <==> user.has_scope(Scopes::OrgAdmin),
        r matches Err(e) ==> e@ == ErrorView::Forbidden,
{
    user.requires_scope(Scopes::OrgAdmin)
}

} // verus!
