//! The pricing ledger: priced validity windows per ticket type, superseded
//! rather than rewritten once an order depends on them.

use vstd::prelude::*;
use crate::Id;
use crate::Timestamp;
use crate::database::has_row;
use crate::database::ids_unique;
use crate::database::lemma_filter_first;
use crate::database::lemma_filter_none;
use crate::database::lemma_filter_step;
use crate::database::lemma_filter_two;
use crate::database::lemma_row_index;
use crate::database::position;
use crate::database::row;
use crate::database::row_index;
use crate::database::Database;
use crate::database::DatabaseView;
use crate::database::Row;
use crate::errors::BigNeonError;
use crate::errors::ErrorView;
use crate::errors::Field;
use crate::errors::FieldError;
use crate::errors::ValidationCode;
use crate::errors::ValidationError;
use crate::errors::ValidationParams;
use crate::ids::id_text;
use crate::ids::uuid_text;
use crate::models::domain_events::DomainEvent;
use crate::models::domain_events::DomainEventView;
use crate::models::domain_events::EventData;
use crate::models::enums::DomainEventTypes;
use crate::models::enums::OrderStatus;
use crate::models::enums::Tables;
use crate::models::enums::TicketPricingStatus;
use crate::models::names::Named;
use crate::models::orders::lemma_totals_kept;
use crate::models::orders::OrderItem;
use crate::models::ticket_types::TicketType;
use crate::validators::append_validation_error;
use crate::validators::appended;
use crate::validators::plain_error;
use crate::validators::start_date_valid;
use crate::validators::validate_greater_than_or_equal;

verus! {

#[derive(Debug, PartialEq, Eq)]
pub struct TicketPricing {
    pub id: Id,
    pub ticket_type_id: Id,
    pub name: String,
    pub status: TicketPricingStatus,
    pub price_in_cents: i64,
    pub start_date: Timestamp,
    pub end_date: Timestamp,
    pub is_box_office_only: bool,
    pub previous_ticket_pricing_id: Option<Id>,
}

/// The attributes of an entry that an update may set; `None` leaves one as it is.
#[derive(Debug, PartialEq, Eq)]
pub struct TicketPricingEditableAttributes {
    pub name: Option<String>,
    pub price_in_cents: Option<i64>,
    pub start_date: Option<Timestamp>,
    pub end_date: Option<Timestamp>,
    pub is_box_office_only: Option<bool>,
}

/// An entry that has not been stored yet.
#[derive(Debug, PartialEq, Eq)]
pub struct NewTicketPricing {
    pub ticket_type_id: Id,
    pub name: String,
    pub status: TicketPricingStatus,
    pub price_in_cents: i64,
    pub is_box_office_only: bool,
    pub start_date: Timestamp,
    pub end_date: Timestamp,
    pub previous_ticket_pricing_id: Option<Id>,
}

impl Row for TicketPricing {
    open spec fn row_id(&self) -> Id {
        self.id
    }

    fn id(&self) -> (r: Id) {
        self.id
    }
}

impl Named for TicketPricing {
    open spec fn row_name(&self) -> Seq<char> {
        self.name@
    }

    fn name_text(&self) -> (r: &str) {
        self.name.as_str()
    }
}

impl Clone for TicketPricing {
    fn clone(&self) -> (r: Self)
        ensures
            r == *self,
    {
        TicketPricing {
            id: self.id,
            ticket_type_id: self.ticket_type_id,
            name: self.name.clone(),
            status: self.status,
            price_in_cents: self.price_in_cents,
            start_date: self.start_date,
            end_date: self.end_date,
            is_box_office_only: self.is_box_office_only,
            previous_ticket_pricing_id: self.previous_ticket_pricing_id,
        }
    }
}

impl Clone for TicketPricingEditableAttributes {
    fn clone(&self) -> (r: Self)
        ensures
            r == *self,
    {
        TicketPricingEditableAttributes {
            name: match &self.name {
                Some(n) => Some(n.clone()),
                None => None,
            },
            price_in_cents: self.price_in_cents,
            start_date: self.start_date,
            end_date: self.end_date,
            is_box_office_only: self.is_box_office_only,
        }
    }
}

impl Default for TicketPricingEditableAttributes {
    fn default() -> (r: Self)
        ensures
            r == (TicketPricingEditableAttributes {
                name: None,
                price_in_cents: None,
                start_date: None,
                end_date: None,
                is_box_office_only: None,
            }),
    {
        TicketPricingEditableAttributes {
            name: None,
            price_in_cents: None,
            start_date: None,
            end_date: None,
            is_box_office_only: None,
        }
    }
}

impl TicketPricing {
    /// Whether this entry prices `ticket_type_id` at the moment `now`, as an
    /// entry of the given status: its window `[start, end)` holds `now`.
    pub open spec fn applies(self, ticket_type_id: Id, status: TicketPricingStatus, now: Timestamp) -> bool {
        &&& self.ticket_type_id == ticket_type_id
        &&& self.status == status
        &&& self.start_date <= now
        &&& now < self.end_date
    }

    /// Whether an active entry of `ticket_type_id` with the window `[start, end)`
    /// would share a moment with this one.
    pub open spec fn blocks(self, ticket_type_id: Id, start_date: Timestamp, end_date: Timestamp) -> bool {
        &&& self.ticket_type_id == ticket_type_id
        &&& self.status.is_active()
        &&& start_date < self.end_date
        &&& self.start_date < end_date
    }

    /// Whether two entries are both active, of one ticket type, and share a moment.
    pub open spec fn conflicts_with(self, other: TicketPricing) -> bool {
        other.status.is_active() && self.blocks(other.ticket_type_id, other.start_date, other.end_date)
    }
}

/// The failure reported for a pricing window that starts before its ticket type.
pub open spec fn type_start_error(ticket_type_id: Id, start_date: Timestamp) -> ValidationError {
    ValidationError {
        code: ValidationCode::OverlappingTicketTypeStartDate,
        params: ValidationParams {
            ticket_pricing_id: None,
            ticket_type_id: Some(ticket_type_id),
            start_date: Some(start_date),
            end_date: None,
        },
    }
}

/// The failure reported for a pricing window that ends after its ticket type.
pub open spec fn type_end_error(ticket_type_id: Id, end_date: Timestamp) -> ValidationError {
    ValidationError {
        code: ValidationCode::OverlappingTicketTypeEndDate,
        params: ValidationParams {
            ticket_pricing_id: None,
            ticket_type_id: Some(ticket_type_id),
            start_date: None,
            end_date: Some(end_date),
        },
    }
}

/// The failure reported for a pricing window that overlaps another active one.
pub open spec fn overlapping_periods_error(
    id: Id,
    ticket_type_id: Id,
    start_date: Timestamp,
    end_date: Timestamp,
) -> ValidationError {
    ValidationError {
        code: ValidationCode::OverlappingPeriods,
        params: ValidationParams {
            ticket_pricing_id: Some(id),
            ticket_type_id: Some(ticket_type_id),
            start_date: Some(start_date),
            end_date: Some(end_date),
        },
    }
}

impl DatabaseView {
    /// No two active entries of one ticket type share a moment.
    pub open spec fn pricing_non_overlapping(self) -> bool {
        forall|i: int, j: int|
            0 <= i < j < self.ticket_pricing.len() ==> !(#[trigger] self.ticket_pricing[i]).conflicts_with(
                #[trigger] self.ticket_pricing[j],
            )
    }

    /// Every entry belongs to a ticket type of the image and its window lies
    /// within that of the ticket type.
    pub open spec fn pricing_within_types(self) -> bool {
        forall|i: int|
            0 <= i < self.ticket_pricing.len() ==> {
                let p = #[trigger] self.ticket_pricing[i];
                &&& has_row(self.ticket_types, p.ticket_type_id)
                &&& row(self.ticket_types, p.ticket_type_id).start_date <= p.start_date
                &&& p.end_date <= row(self.ticket_types, p.ticket_type_id).end_date
            }
    }

    /// Whether an entry of `ticket_type_id` with the window `[start, end)` and
    /// the given status would overlap an active entry of the ledger, the entry
    /// `excluded` not counted.
    pub open spec fn overlapping(
        self,
        excluded: Option<Id>,
        ticket_type_id: Id,
        start_date: Timestamp,
        end_date: Timestamp,
        status: TicketPricingStatus,
    ) -> bool {
        status.is_active() && exists|i: int|
            0 <= i < self.ticket_pricing.len() && Some((#[trigger] self.ticket_pricing[i]).id) != excluded
                && self.ticket_pricing[i].blocks(ticket_type_id, start_date, end_date)
    }

    /// Whether an entry `id` of `ticket_type_id` with the window `[start, end)`
    /// and the given status would overlap an active entry other than itself.
    pub open spec fn overlapping_period(
        self,
        id: Id,
        ticket_type_id: Id,
        start_date: Timestamp,
        end_date: Timestamp,
        status: TicketPricingStatus,
    ) -> bool {
        self.overlapping(Some(id), ticket_type_id, start_date, end_date, status)
    }

    /// The order items priced by entry `id`.
    pub open spec fn items_priced_by(self, id: Id) -> Seq<OrderItem> {
        self.order_items.filter(|item: OrderItem| item.ticket_pricing_id == Some(id))
    }

    /// The entries that price `ticket_type_id` at `now` with the given status;
    /// those that only the box office may use are left out unless `box_office_pricing`.
    pub open spec fn price_points(
        self,
        ticket_type_id: Id,
        box_office_pricing: bool,
        status: TicketPricingStatus,
        now: Timestamp,
    ) -> Seq<TicketPricing> {
        self.ticket_pricing.filter(
            |p: TicketPricing|
                p.applies(ticket_type_id, status, now) && (box_office_pricing || !p.is_box_office_only),
        )
    }

    /// The entries reserved to the box office that price `ticket_type_id` at
    /// `now` with the given status.
    pub open spec fn box_office_price_points(
        self,
        ticket_type_id: Id,
        status: TicketPricingStatus,
        now: Timestamp,
    ) -> Seq<TicketPricing> {
        self.ticket_pricing.filter(
            |p: TicketPricing| p.applies(ticket_type_id, status, now) && p.is_box_office_only,
        )
    }

    /// The price of `ticket_type_id` at `now`.
    ///
    /// Published entries are asked first. The box office takes the first entry
    /// reserved to it, or else the first general one. Everyone else takes the
    /// one general entry, and two of them at once are an inconsistency that is
    /// reported, not resolved. Where no published entry applies, the default
    /// entries are asked in the same way, once.
    pub open spec fn current_pricing(
        self,
        ticket_type_id: Id,
        box_office_pricing: bool,
        get_default_pricing: bool,
        now: Timestamp,
    ) -> Result<TicketPricing, ErrorView>
        decreases
            (if get_default_pricing {
                0nat
            } else {
                1nat
            }),
    {
        let status = if get_default_pricing {
            TicketPricingStatus::Default
        } else {
            TicketPricingStatus::Published
        };
        let all = self.price_points(ticket_type_id, box_office_pricing, status, now);
        let reserved = self.box_office_price_points(ticket_type_id, status, now);
        if box_office_pricing && reserved.len() > 0 {
            Ok(reserved[0])
        } else if box_office_pricing && all.len() > 0 {
            Ok(all[0])
        } else if !box_office_pricing && all.len() > 1 {
            Err(ErrorView::AmbiguousPricing)
        } else if !box_office_pricing && all.len() == 1 {
            Ok(all[0])
        } else if !get_default_pricing {
            self.current_pricing(ticket_type_id, box_office_pricing, true, now)
        } else {
            Err(ErrorView::NotFound)
        }
    }

    /// The first default entry of `ticket_type_id`, whatever its window.
    pub open spec fn default_pricing(self, ticket_type_id: Id) -> Seq<TicketPricing> {
        self.ticket_pricing.filter(
            |p: TicketPricing|
                p.ticket_type_id == ticket_type_id && p.status == TicketPricingStatus::Default,
        )
    }
}

impl TicketPricing {
    /// An entry to be stored: `Published` unless a status is given.
    pub fn create(
        ticket_type_id: Id,
        name: String,
        start_date: Timestamp,
        end_date: Timestamp,
        price_in_cents: i64,
        is_box_office_only: bool,
        status: Option<TicketPricingStatus>,
        previous_ticket_pricing_id: Option<Id>,
    ) -> (r: NewTicketPricing)
        ensures
            r == (NewTicketPricing {
                ticket_type_id,
                name,
                status: match status {
                    Some(s) => s,
                    None => TicketPricingStatus::Published,
                },
                price_in_cents,
                is_box_office_only,
                start_date,
                end_date,
                previous_ticket_pricing_id,
            }),
    {
        NewTicketPricing {
            ticket_type_id,
            name,
            status: match status {
                Some(s) => s,
                None => TicketPricingStatus::Published,
            },
            price_in_cents,
            is_box_office_only,
            start_date,
            end_date,
            previous_ticket_pricing_id,
        }
    }

    /// A pricing window may not start before its ticket type does.
    pub fn ticket_pricing_does_not_overlap_ticket_type_start_date(
        ticket_type: &TicketType,
        start_date: Timestamp,
    ) -> (r: Result<(), ValidationError>)
        ensures
            r is Ok <==> ticket_type.start_date <= start_date,
            r matches Err(e) ==> e == type_start_error(ticket_type.id, start_date),
    {
        if ticket_type.start_date > start_date {
            return Err(
                ValidationError {
                    code: ValidationCode::OverlappingTicketTypeStartDate,
                    params: ValidationParams {
                        ticket_pricing_id: None,
                        ticket_type_id: Some(ticket_type.id),
                        start_date: Some(start_date),
                        end_date: None,
                    },
                },
            );
        }
        Ok(())
    }

    /// A pricing window may not end after its ticket type does.
    pub fn ticket_pricing_does_not_overlap_ticket_type_end_date(
        ticket_type: &TicketType,
        end_date: Timestamp,
    ) -> (r: Result<(), ValidationError>)
        ensures
            r is Ok <==> end_date <= ticket_type.end_date,
            r matches Err(e) ==> e == type_end_error(ticket_type.id, end_date),
    {
        if ticket_type.end_date < end_date {
            return Err(
                ValidationError {
                    code: ValidationCode::OverlappingTicketTypeEndDate,
                    params: ValidationParams {
                        ticket_pricing_id: None,
                        ticket_type_id: Some(ticket_type.id),
                        start_date: None,
                        end_date: Some(end_date),
                    },
                },
            );
        }
        Ok(())
    }

    /// An active entry may not share a moment with another active entry of its
    /// ticket type. Entries reserved to the box office are held to this like
    /// any other, so `is_box_office_only` does not enter into it.
    pub fn ticket_pricing_no_overlapping_periods(
        id: Id,
        ticket_type_id: Id,
        start_date: Timestamp,
        end_date: Timestamp,
        is_box_office_only: bool,
        status: TicketPricingStatus,
        db: &Database,
    ) -> (r: Result<(), ValidationError>)
        ensures
            r is Ok <==> !db@.overlapping_period(id, ticket_type_id, start_date, end_date, status),
            r matches Err(e) ==> e == overlapping_periods_error(id, ticket_type_id, start_date, end_date),
    {
        db.overlap_error(id, Some(id), ticket_type_id, start_date, end_date, status)
    }

    /// How many order items are priced by this entry.
    pub fn affected_order_count(&self, db: &Database) -> (r: u64)
        ensures
            r == db@.items_priced_by(self.id).len(),
    {
        let ghost pred = |item: OrderItem| item.ticket_pricing_id == Some(self.id);
        let mut count: u64 = 0;
        let mut i: usize = 0;
        while i < db.order_items.len()
            invariant
                i <= db.order_items.len(),
                count <= i,
                pred == |item: OrderItem| item.ticket_pricing_id == Some(self.id),
                count == db@.order_items.take(i as int).filter(pred).len(),
            decreases db.order_items.len() - i,
        {
            proof {
                lemma_filter_step(db@.order_items, i as int, pred);
            }
            if db.order_items[i].ticket_pricing_id == Some(self.id) {
                count += 1;
            }
            i += 1;
        }
        assert(db@.order_items.take(i as int) == db@.order_items);
        count
    }

    /// The entry with identity `id`.
    pub fn find(id: Id, db: &Database) -> (r: Result<TicketPricing, BigNeonError>)
        ensures
            r is Ok <==> has_row(db@.ticket_pricing, id),
            r matches Ok(p) ==> p.id == id && db@.ticket_pricing.contains(p) && (db@.wf() ==> p == row(
                db@.ticket_pricing,
                id,
            )),
            r matches Err(e) ==> e@ == ErrorView::NotFound,
    {
        match position(&db.ticket_pricing, id) {
            Some(i) => Ok(db.ticket_pricing[i].clone()),
            None => Err(BigNeonError::NotFound),
        }
    }

    /// The price of a ticket type at the moment `now`: see
    /// [`DatabaseView::current_pricing`]. With `get_default_pricing` only the
    /// default entries are asked.
    pub fn get_current_ticket_pricing(
        ticket_type_id: Id,
        box_office_pricing: bool,
        get_default_pricing: bool,
        now: Timestamp,
        db: &Database,
    ) -> (r: Result<TicketPricing, BigNeonError>)
        ensures
            match r {
                Ok(p) => db@.current_pricing(ticket_type_id, box_office_pricing, get_default_pricing, now)
                    == Ok::<TicketPricing, ErrorView>(p),
                Err(e) => db@.current_pricing(ticket_type_id, box_office_pricing, get_default_pricing, now)
                    == Err::<TicketPricing, ErrorView>(e@),
            },
            r matches Ok(p) ==> db@.ticket_pricing.contains(p),
            r matches Err(e) ==> e@ == ErrorView::AmbiguousPricing || e@ == ErrorView::NotFound,
        decreases
            (if get_default_pricing {
                0nat
            } else {
                1nat
            }),
    {
        let status = if get_default_pricing {
            TicketPricingStatus::Default
        } else {
            TicketPricingStatus::Published
        };
        let ghost all = |p: TicketPricing|
            p.applies(ticket_type_id, status, now) && (box_office_pricing || !p.is_box_office_only);
        let ghost reserved = |p: TicketPricing| p.applies(ticket_type_id, status, now) && p.is_box_office_only;
        let mut matches: usize = 0;
        let mut first: usize = 0;
        let mut first_reserved: Option<usize> = None;
        let mut i: usize = 0;
        while i < db.ticket_pricing.len()
            invariant
                i <= db.ticket_pricing.len(),
                all == |p: TicketPricing|
                    p.applies(ticket_type_id, status, now) && (box_office_pricing || !p.is_box_office_only),
                reserved == |p: TicketPricing|
                    p.applies(ticket_type_id, status, now) && p.is_box_office_only,
                matches == db@.ticket_pricing.take(i as int).filter(all).len(),
                matches <= i,
                matches > 0 ==> first < i && db@.ticket_pricing.take(i as int).filter(all)[0]
                    == db@.ticket_pricing[first as int],
                first_reserved is None ==> db@.ticket_pricing.take(i as int).filter(reserved).len() == 0,
                first_reserved matches Some(k) ==> k < i && db@.ticket_pricing.take(i as int).filter(
                    reserved,
                ).len() > 0 && db@.ticket_pricing.take(i as int).filter(reserved)[0]
                    == db@.ticket_pricing[k as int],
            decreases db.ticket_pricing.len() - i,
        {
            proof {
                lemma_filter_step(db@.ticket_pricing, i as int, all);
                lemma_filter_step(db@.ticket_pricing, i as int, reserved);
            }
            let p = &db.ticket_pricing[i];
            if p.ticket_type_id == ticket_type_id && p.status == status && p.start_date <= now && now
                < p.end_date {
                if box_office_pricing || !p.is_box_office_only {
                    if matches == 0 {
                        first = i;
                    }
                    matches += 1;
                }
                if p.is_box_office_only && first_reserved.is_none() {
                    first_reserved = Some(i);
                }
            }
            i += 1;
        }
        assert(db@.ticket_pricing.take(i as int) == db@.ticket_pricing);
        if box_office_pricing {
            match first_reserved {
                Some(k) => {
                    return Ok(db.ticket_pricing[k].clone());
                },
                None => {},
            }
            if matches > 0 {
                return Ok(db.ticket_pricing[first].clone());
            }
        } else {
            if matches > 1 {
                return Err(BigNeonError::AmbiguousPricing);
            }
            if matches == 1 {
                return Ok(db.ticket_pricing[first].clone());
            }
        }
        if !get_default_pricing {
            return TicketPricing::get_current_ticket_pricing(ticket_type_id, box_office_pricing, true, now, db);
        }
        Err(BigNeonError::NotFound)
    }

    /// The first default entry of a ticket type.
    pub fn get_default(ticket_type_id: Id, db: &Database) -> (r: Result<TicketPricing, BigNeonError>)
        ensures
            r is Ok <==> db@.default_pricing(ticket_type_id).len() > 0,
            r matches Ok(p) ==> p == db@.default_pricing(ticket_type_id)[0],
            r matches Err(e) ==> e@ == ErrorView::NotFound,
    {
        let ghost pred = |p: TicketPricing|
            p.ticket_type_id == ticket_type_id && p.status == TicketPricingStatus::Default;
        let mut i: usize = 0;
        while i < db.ticket_pricing.len()
            invariant
                i <= db.ticket_pricing.len(),
                pred == |p: TicketPricing|
                    p.ticket_type_id == ticket_type_id && p.status == TicketPricingStatus::Default,
                db@.ticket_pricing.take(i as int).filter(pred).len() == 0,
            decreases db.ticket_pricing.len() - i,
        {
            proof {
                lemma_filter_step(db@.ticket_pricing, i as int, pred);
            }
            let p = &db.ticket_pricing[i];
            if p.ticket_type_id == ticket_type_id && p.status == TicketPricingStatus::Default {
                proof {
                    lemma_filter_first(db@.ticket_pricing, i as int, pred);
                }
                return Ok(p.clone());
            }
            i += 1;
        }
        assert(db@.ticket_pricing.take(i as int) == db@.ticket_pricing);
        Err(BigNeonError::NotFound)
    }
}

/// Whether `r` is a refusal whose last failed check is that of overlapping
/// periods, reported on the entry as a whole.
pub open spec fn refused_for_overlap<T>(r: Result<T, BigNeonError>) -> bool {
    match r {
        Ok(_) => false,
        Err(e) => match e@ {
            ErrorView::Validation(failures) => failures.len() > 0 && failures.last().field
                == Field::TicketPricing && failures.last().error.code == ValidationCode::OverlappingPeriods,
            _ => false,
        },
    }
}

/// The failure of a window that does not start before it ends, if it is one.
pub open spec fn start_date_failure(start_date: Timestamp, end_date: Timestamp) -> Result<(), ValidationError> {
    if start_date < end_date {
        Ok(())
    } else {
        Err(plain_error(ValidationCode::StartDateMustBeBeforeEndDate))
    }
}

/// The failure of a negative price, if it is one.
pub open spec fn price_failure(price_in_cents: i64) -> Result<(), ValidationError> {
    if price_in_cents >= 0 {
        Ok(())
    } else {
        Err(plain_error(ValidationCode::NumberMustBePositive))
    }
}

/// The audit event for an entry that was stored.
pub open spec fn created_event(p: TicketPricing, user_id: Option<Id>) -> DomainEventView {
    DomainEventView {
        event_type: DomainEventTypes::TicketPricingCreated,
        display_text: "Ticket pricing '"@ + uuid_text(p.id) + "' created"@,
        main_table: Tables::TicketPricing,
        main_id: Some(p.id),
        user_id,
        event_data: EventData::Pricing(p),
    }
}

/// The audit event for an entry that was removed or marked as deleted; `p` is
/// the entry as it was last.
pub open spec fn deleted_event(p: TicketPricing, user_id: Option<Id>) -> DomainEventView {
    DomainEventView {
        event_type: DomainEventTypes::TicketPricingDeleted,
        display_text: "Ticket pricing '"@ + p.name@ + "' deleted"@,
        main_table: Tables::TicketPricing,
        main_id: Some(p.id),
        user_id,
        event_data: EventData::Pricing(p),
    }
}

/// The audit event for an entry changed in place; `p` is the entry before the change.
pub open spec fn updated_event(
    p: TicketPricing,
    attributes: TicketPricingEditableAttributes,
    user_id: Option<Id>,
) -> DomainEventView {
    DomainEventView {
        event_type: DomainEventTypes::TicketPricingUpdated,
        display_text: "Ticketing pricing '"@ + p.name@ + "' updated"@,
        main_table: Tables::TicketPricing,
        main_id: Some(p.id),
        user_id,
        event_data: EventData::PricingAttributes(attributes),
    }
}

/// The audit event for an entry whose sales were started early; `p` is the
/// entry before the change.
pub open spec fn sales_started_event(p: TicketPricing, now: Timestamp, user_id: Option<Id>) -> DomainEventView {
    DomainEventView {
        event_type: DomainEventTypes::TicketPricingSalesStarted,
        display_text: "Sales have started on '"@ + p.name@ + "'"@,
        main_table: Tables::TicketPricing,
        main_id: Some(p.id),
        user_id,
        event_data: EventData::SalesStarted { old_start_date: p.start_date, new_start_date: now },
    }
}

impl DatabaseView {
    /// Whether `id` is the identity of an entry or is named by one as its predecessor.
    pub open spec fn pricing_id_taken(self, id: Id) -> bool {
        has_row(self.ticket_pricing, id) || exists|i: int|
            0 <= i < self.ticket_pricing.len() && (
            #[trigger] self.ticket_pricing[i]).previous_ticket_pricing_id == Some(id)
    }

    /// What the ledger holds against an entry `id` of an existing ticket type
    /// with the window `[start, end)`: the window starts before the ticket type
    /// does, ends after it does, or overlaps an active entry, `excluded` not
    /// counted. Each check that fails reports under its field, in this order.
    pub open spec fn window_failures(
        self,
        id: Id,
        excluded: Option<Id>,
        ticket_type_id: Id,
        start_date: Timestamp,
        end_date: Timestamp,
        status: TicketPricingStatus,
    ) -> Seq<FieldError> {
        let ticket_type = row(self.ticket_types, ticket_type_id);
        let none = Seq::<FieldError>::empty();
        let first = appended(
            none,
            Field::TicketPricingStartDate,
            if ticket_type.start_date <= start_date {
                Ok(())
            } else {
                Err(type_start_error(ticket_type_id, start_date))
            },
        );
        let second = appended(
            first,
            Field::TicketPricingEndDate,
            if end_date <= ticket_type.end_date {
                Ok(())
            } else {
                Err(type_end_error(ticket_type_id, end_date))
            },
        );
        appended(
            second,
            Field::TicketPricing,
            if self.overlapping(excluded, ticket_type_id, start_date, end_date, status) {
                Err(overlapping_periods_error(id, ticket_type_id, start_date, end_date))
            } else {
                Ok(())
            },
        )
    }

    /// Why the ledger refuses to store `new` under `id`, if it does: the
    /// ticket type is unknown; or a check fails, those of the record first,
    /// then those of its window; or the identity is taken.
    pub open spec fn pricing_rejection(self, new: NewTicketPricing, id: Id) -> Option<ErrorView> {
        let failures = new.failures() + self.window_failures(
            id,
            None,
            new.ticket_type_id,
            new.start_date,
            new.end_date,
            new.status,
        );
        if !has_row(self.ticket_types, new.ticket_type_id) {
            Some(ErrorView::NotFound)
        } else if failures.len() > 0 {
            Some(ErrorView::Validation(failures))
        } else if self.pricing_id_taken(id) || new.previous_ticket_pricing_id == Some(id) {
            Some(ErrorView::DuplicateKey)
        } else {
            None
        }
    }

    /// Whether the entry that prices `item`, if one does, is in `next` at the
    /// price it has in this image.
    pub open spec fn price_kept(self, next: DatabaseView, item: OrderItem) -> bool {
        match item.ticket_pricing_id {
            Some(p) => has_row(next.ticket_pricing, p) && row(next.ticket_pricing, p).price_in_cents == row(
                self.ticket_pricing,
                p,
            ).price_in_cents,
            None => true,
        }
    }

    /// Whether every entry that an order item of this image is priced by is
    /// still in `next`, at the same price.
    pub open spec fn keeps_referenced_prices(self, next: DatabaseView) -> bool {
        forall|i: int|
            0 <= i < self.order_items.len() ==> self.price_kept(next, #[trigger] self.order_items[i])
    }
}

impl Database {
    /// Whether an entry `id` of `ticket_type_id` with the window `[start, end)`
    /// would overlap an active entry, `excluded` not counted.
    pub(crate) fn overlap_error(
        &self,
        id: Id,
        excluded: Option<Id>,
        ticket_type_id: Id,
        start_date: Timestamp,
        end_date: Timestamp,
        status: TicketPricingStatus,
    ) -> (r: Result<(), ValidationError>)
        ensures
            r is Ok <==> !self@.overlapping(excluded, ticket_type_id, start_date, end_date, status),
            r matches Err(e) ==> e == overlapping_periods_error(id, ticket_type_id, start_date, end_date),
    {
        if !status.is_active() {
            return Ok(());
        }
        let mut i: usize = 0;
        while i < self.ticket_pricing.len()
            invariant
                i <= self.ticket_pricing.len(),
                status.is_active(),
                forall|k: int|
                    0 <= k < i ==> !(Some((#[trigger] self@.ticket_pricing[k]).id) != excluded
                        && self@.ticket_pricing[k].blocks(ticket_type_id, start_date, end_date)),
            decreases self.ticket_pricing.len() - i,
        {
            let p = &self.ticket_pricing[i];
            let counted = match excluded {
                Some(x) => p.id != x,
                None => true,
            };
            if counted && p.ticket_type_id == ticket_type_id && p.status.is_active() && start_date < p.end_date
                && p.start_date < end_date {
                assert(Some(self@.ticket_pricing[i as int].id) != excluded);
                return Err(
                    ValidationError {
                        code: ValidationCode::OverlappingPeriods,
                        params: ValidationParams {
                            ticket_pricing_id: Some(id),
                            ticket_type_id: Some(ticket_type_id),
                            start_date: Some(start_date),
                            end_date: Some(end_date),
                        },
                    },
                );
            }
            i += 1;
        }
        Ok(())
    }

    /// Appends to `errors` what the ledger holds against the window of an entry.
    pub(crate) fn window_errors(
        &self,
        errors: Vec<FieldError>,
        id: Id,
        excluded: Option<Id>,
        ticket_type: &TicketType,
        start_date: Timestamp,
        end_date: Timestamp,
        status: TicketPricingStatus,
    ) -> (r: Vec<FieldError>)
        requires
            has_row(self@.ticket_types, ticket_type.id),
            *ticket_type == row(self@.ticket_types, ticket_type.id),
        ensures
            r@ == errors@ + self@.window_failures(id, excluded, ticket_type.id, start_date, end_date, status),
    {
        let first = append_validation_error(
            errors,
            Field::TicketPricingStartDate,
            TicketPricing::ticket_pricing_does_not_overlap_ticket_type_start_date(ticket_type, start_date),
        );
        let second = append_validation_error(
            first,
            Field::TicketPricingEndDate,
            TicketPricing::ticket_pricing_does_not_overlap_ticket_type_end_date(ticket_type, end_date),
        );
        let r = append_validation_error(
            second,
            Field::TicketPricing,
            self.overlap_error(id, excluded, ticket_type.id, start_date, end_date, status),
        );
        assert(r@ =~= errors@ + self@.window_failures(
            id,
            excluded,
            ticket_type.id,
            start_date,
            end_date,
            status,
        ));
        r
    }

    /// Whether `id` is the identity of an entry or is named by one as its predecessor.
    pub(crate) fn pricing_id_taken(&self, id: Id) -> (r: bool)
        ensures
            r == self@.pricing_id_taken(id),
    {
        let mut i: usize = 0;
        while i < self.ticket_pricing.len()
            invariant
                i <= self.ticket_pricing.len(),
                forall|k: int|
                    0 <= k < i ==> (#[trigger] self@.ticket_pricing[k]).id != id
                        && self@.ticket_pricing[k].previous_ticket_pricing_id != Some(id),
            decreases self.ticket_pricing.len() - i,
        {
            let p = &self.ticket_pricing[i];
            let named = match p.previous_ticket_pricing_id {
                Some(previous) => previous == id,
                None => false,
            };
            if p.id == id || named {
                return true;
            }
            i += 1;
        }
        false
    }
}

impl Database {
    /// Whether the ledger would store `new` under `id`.
    pub(crate) fn check_new_pricing(&self, new: &NewTicketPricing, id: Id) -> (r: Result<(), BigNeonError>)
        requires
            self@.wf(),
        ensures
            r is Ok <==> self@.pricing_rejection(*new, id) is None,
            r matches Err(e) ==> self@.pricing_rejection(*new, id) == Some(e@),
    {
        let type_index = match position(&self.ticket_types, new.ticket_type_id) {
            Some(k) => k,
            None => {
                return Err(BigNeonError::NotFound);
            },
        };
        let errors = new.record_errors();
        let errors = self.window_errors(
            errors,
            id,
            None,
            &self.ticket_types[type_index],
            new.start_date,
            new.end_date,
            new.status,
        );
        if errors.len() > 0 {
            return Err(BigNeonError::Validation(errors));
        }
        let cyclic = match new.previous_ticket_pricing_id {
            Some(previous) => previous == id,
            None => false,
        };
        if cyclic || self.pricing_id_taken(id) {
            return Err(BigNeonError::DuplicateKey);
        }
        Ok(())
    }

    /// Appends the entry that `new` becomes under `id`, and its audit event.
    pub(crate) fn store_pricing(&mut self, new: NewTicketPricing, id: Id, current_user_id: Option<Id>) -> (p:
        TicketPricing)
        ensures
            p == new.stored(id),
            final(self)@ == (DatabaseView {
                ticket_pricing: old(self)@.ticket_pricing.push(p),
                domain_events: old(self)@.domain_events.push(created_event(p, current_user_id)),
                ..old(self)@
            }),
    {
        let p = TicketPricing {
            id,
            ticket_type_id: new.ticket_type_id,
            name: new.name,
            status: new.status,
            price_in_cents: new.price_in_cents,
            start_date: new.start_date,
            end_date: new.end_date,
            is_box_office_only: new.is_box_office_only,
            previous_ticket_pricing_id: new.previous_ticket_pricing_id,
        };
        let text = String::from_str("Ticket pricing '").concat(id_text(id).as_str()).concat("' created");
        let event = DomainEvent::create(
            DomainEventTypes::TicketPricingCreated,
            text,
            Tables::TicketPricing,
            Some(id),
            current_user_id,
            EventData::Pricing(p.clone()),
        );
        self.ticket_pricing.push(p.clone());
        self.emit(event);
        p
    }
}

impl NewTicketPricing {
    /// What is wrong with the record by itself: a window that does not start
    /// before it ends, a negative price. Each reports under its field, in this order.
    pub open spec fn failures(self) -> Seq<FieldError> {
        appended(
            appended(
                Seq::empty(),
                Field::TicketPricingStartDate,
                start_date_failure(self.start_date, self.end_date),
            ),
            Field::TicketPricingPriceInCents,
            price_failure(self.price_in_cents),
        )
    }

    /// The entry that storing this record under `id` gives.
    pub open spec fn stored(self, id: Id) -> TicketPricing {
        TicketPricing {
            id,
            ticket_type_id: self.ticket_type_id,
            name: self.name,
            status: self.status,
            price_in_cents: self.price_in_cents,
            start_date: self.start_date,
            end_date: self.end_date,
            is_box_office_only: self.is_box_office_only,
            previous_ticket_pricing_id: self.previous_ticket_pricing_id,
        }
    }

    fn record_errors(&self) -> (r: Vec<FieldError>)
        ensures
            r@ == self.failures(),
    {
        let errors = append_validation_error(
            Vec::new(),
            Field::TicketPricingStartDate,
            start_date_valid(self.start_date, self.end_date),
        );
        append_validation_error(
            errors,
            Field::TicketPricingPriceInCents,
            validate_greater_than_or_equal(self.price_in_cents, 0, ValidationCode::NumberMustBePositive),
        )
    }

    /// Checks the record by itself: see [`NewTicketPricing::failures`].
    pub fn validate_record(&self) -> (r: Result<(), BigNeonError>)
        ensures
            r is Ok <==> self.failures().len() == 0,
            r matches Err(e) ==> e@ == ErrorView::Validation(self.failures()),
    {
        let errors = self.record_errors();
        if errors.len() > 0 {
            return Err(BigNeonError::Validation(errors));
        }
        Ok(())
    }

    /// Stores the record under the identity `id` and emits the audit event.
    ///
    /// It is refused, and the image left as it was, exactly where
    /// [`DatabaseView::pricing_rejection`] says so. A ledger without
    /// overlapping active windows stays one, and so does one whose windows lie
    /// within their ticket types. An active entry whose window overlaps that
    /// of an active entry of the ledger is always refused, for that reason.
    pub fn commit(self, id: Id, current_user_id: Option<Id>, db: &mut Database) -> (r: Result<
        TicketPricing,
        BigNeonError,
    >)
        requires
            old(db)@.wf(),
        ensures
            final(db)@.wf(),
            old(db)@.pricing_non_overlapping() ==> final(db)@.pricing_non_overlapping(),
            old(db)@.pricing_within_types() ==> final(db)@.pricing_within_types(),
            old(db)@.keeps_referenced_prices(final(db)@),
            old(db)@.keeps_totals(final(db)@),
            match r {
                Ok(p) => {
                    &&& old(db)@.pricing_rejection(self, id) is None
                    &&& p == self.stored(id)
                    &&& final(db)@ == (DatabaseView {
                        ticket_pricing: old(db)@.ticket_pricing.push(p),
                        domain_events: old(db)@.domain_events.push(created_event(p, current_user_id)),
                        ..old(db)@
                    })
                },
                Err(e) => old(db)@.pricing_rejection(self, id) == Some(e@) && final(db)@ == old(db)@,
            },
            old(db)@.overlapping(None, self.ticket_type_id, self.start_date, self.end_date, self.status)
                ==> refused_for_overlap(r) && final(db)@ == old(db)@,
    {
        match db.check_new_pricing(&self, id) {
            Ok(()) => {},
            Err(e) => {
                proof {
                    lemma_prices_kept(db@);
                }
                return Err(e);
            },
        }
        proof {
            lemma_pricing_pushed(db@, self.stored(id));
        }
        let p = db.store_pricing(self, id, current_user_id);
        proof {
            lemma_totals_kept(old(db)@, db@);
        }
        Ok(p)
    }
}

/// An image keeps the prices that its own order items refer to.
pub proof fn lemma_prices_kept(v: DatabaseView)
    requires
        v.wf(),
    ensures
        v.keeps_referenced_prices(v),
{
}

/// Appending an entry of a ticket type that the image holds, under an
/// identity that is not taken, keeps the image well-formed and the prices that order items refer to. It keeps the ledger
/// free of overlaps if the window of the entry overlaps no other active one,
/// and the windows within their ticket types if that of the entry is.
pub proof fn lemma_pricing_pushed(v: DatabaseView, p: TicketPricing)
    requires
        v.wf(),
        !v.pricing_id_taken(p.id),
        p.previous_ticket_pricing_id != Some(p.id),
        has_row(v.ticket_types, p.ticket_type_id),
    ensures
        v.with_pricing_pushed(p).wf(),
        v.keeps_referenced_prices(v.with_pricing_pushed(p)),
        v.pricing_non_overlapping() && !v.overlapping_period(
            p.id,
            p.ticket_type_id,
            p.start_date,
            p.end_date,
            p.status,
        ) ==> v.with_pricing_pushed(p).pricing_non_overlapping(),
        v.pricing_within_types() && has_row(v.ticket_types, p.ticket_type_id) && row(
            v.ticket_types,
            p.ticket_type_id,
        ).start_date <= p.start_date && p.end_date <= row(v.ticket_types, p.ticket_type_id).end_date
            ==> v.with_pricing_pushed(p).pricing_within_types(),
{
    let next = DatabaseView { ticket_pricing: v.ticket_pricing.push(p), ..v };
    let n = v.ticket_pricing.len() as int;
    assert forall|i: int| 0 <= i < n implies (#[trigger] next.ticket_pricing[i]) == v.ticket_pricing[i] by {}
    assert(next.ticket_pricing[n] == p);
    assert(ids_unique(next.ticket_pricing)) by {
        assert forall|i: int, j: int| 0 <= i < j < next.ticket_pricing.len() implies (
        #[trigger] next.ticket_pricing[i]).row_id() != (#[trigger] next.ticket_pricing[j]).row_id() by {
            if j == n {
                assert(v.ticket_pricing[i].row_id() != p.id);
            } else {
                assert(v.ticket_pricing[i].row_id() != v.ticket_pricing[j].row_id());
            }
        }
    }
    assert(next.pricing_chain_backward()) by {
        assert forall|i: int, j: int|
            0 <= i < next.ticket_pricing.len() && 0 <= j < next.ticket_pricing.len() && (
            #[trigger] next.ticket_pricing[i]).previous_ticket_pricing_id == Some(
                (#[trigger] next.ticket_pricing[j]).id,
            ) implies j < i by {
            if i < n && j < n {
                assert(v.ticket_pricing[i].previous_ticket_pricing_id == Some(v.ticket_pricing[j].id));
            } else if i < n {
                assert(v.ticket_pricing[i].previous_ticket_pricing_id == Some(p.id));
            }
        }
    }
    assert forall|x: Id| has_row(v.ticket_pricing, x) implies has_row(next.ticket_pricing, x) && row(
        next.ticket_pricing,
        x,
    ) == row(v.ticket_pricing, x) by {
        let k = row_index(v.ticket_pricing, x);
        lemma_row_index(v.ticket_pricing, k);
        assert(next.ticket_pricing[k].row_id() == x);
        lemma_row_index(next.ticket_pricing, k);
    }
    assert(next.items_well_formed()) by {
        assert forall|i: int| 0 <= i < next.order_items.len() implies {
            let item = #[trigger] next.order_items[i];
            &&& has_row(next.orders, item.order_id)
            &&& item.quantity > 0
            &&& item.ticket_pricing_id matches Some(q) ==> has_row(next.ticket_pricing, q)
        } by {
            let item = v.order_items[i];
            assert(has_row(v.orders, item.order_id));
        }
    }
    assert(next.payments_well_formed()) by {
        assert forall|i: int| 0 <= i < next.payments.len() implies {
            let payment = #[trigger] next.payments[i];
            &&& has_row(next.orders, payment.order_id)
            &&& payment.status.is_live() ==> row(next.orders, payment.order_id).status
                == OrderStatus::Paid
        } by {
            let payment = v.payments[i];
            assert(has_row(v.orders, payment.order_id));
        }
    }
    assert(v.keeps_referenced_prices(next)) by {
        assert forall|i: int| 0 <= i < v.order_items.len() implies v.price_kept(
            next,
            #[trigger] v.order_items[i],
        ) by {
            let item = v.order_items[i];
            assert(has_row(v.orders, item.order_id));
        }
    }
    if v.pricing_non_overlapping() && !v.overlapping_period(
        p.id,
        p.ticket_type_id,
        p.start_date,
        p.end_date,
        p.status,
    ) {
        assert forall|i: int, j: int| 0 <= i < j < next.ticket_pricing.len() implies !(
        #[trigger] next.ticket_pricing[i]).conflicts_with(#[trigger] next.ticket_pricing[j]) by {
            if j == n {
                if next.ticket_pricing[i].conflicts_with(p) {
                    assert(v.ticket_pricing[i].id != p.id);
                    assert(v.ticket_pricing[i].blocks(p.ticket_type_id, p.start_date, p.end_date));
                }
            } else {
                assert(!v.ticket_pricing[i].conflicts_with(v.ticket_pricing[j]));
            }
        }
    }
    if v.pricing_within_types() && has_row(v.ticket_types, p.ticket_type_id) && row(
        v.ticket_types,
        p.ticket_type_id,
    ).start_date <= p.start_date && p.end_date <= row(v.ticket_types, p.ticket_type_id).end_date {
        assert forall|i: int| 0 <= i < next.ticket_pricing.len() implies {
            let q = #[trigger] next.ticket_pricing[i];
            &&& has_row(next.ticket_types, q.ticket_type_id)
            &&& row(next.ticket_types, q.ticket_type_id).start_date <= q.start_date
            &&& q.end_date <= row(next.ticket_types, q.ticket_type_id).end_date
        } by {
            if i < n {
                let q = v.ticket_pricing[i];
                assert(has_row(v.ticket_types, q.ticket_type_id));
            }
        }
    }
}

/// How an update reaches the ledger.
#[derive(Clone, Copy, Debug, PartialEq, Eq, Structural)]
pub enum UpdateStrategy {
    /// The entry is changed where it stands.
    MutateInPlace,
    /// The entry is marked as deleted and a new entry supersedes it.
    Fork,
}

/// An entry is superseded exactly when an order item is priced by it and the
/// update would change its price; otherwise it is changed where it stands.
pub open spec fn spec_update_strategy(is_referenced: bool, is_price_changing: bool) -> UpdateStrategy {
    if is_referenced && is_price_changing {
        UpdateStrategy::Fork
    } else {
        UpdateStrategy::MutateInPlace
    }
}

#[verifier::when_used_as_spec(spec_update_strategy)]
pub fn update_strategy(is_referenced: bool, is_price_changing: bool) -> (r: UpdateStrategy)
    ensures
        r == spec_update_strategy(is_referenced, is_price_changing),
{
    if is_referenced && is_price_changing {
        UpdateStrategy::Fork
    } else {
        UpdateStrategy::MutateInPlace
    }
}

impl TicketPricing {
    /// Whether `attributes` ask for a value that this entry does not have.
    pub open spec fn spec_has_changes(self, attributes: TicketPricingEditableAttributes) -> bool {
        ||| attributes.name matches Some(name) && name@ != self.name@
        ||| attributes.price_in_cents matches Some(price) && price != self.price_in_cents
        ||| attributes.start_date matches Some(start) && start != self.start_date
        ||| attributes.end_date matches Some(end) && end != self.end_date
        ||| attributes.is_box_office_only matches Some(flag) && flag != self.is_box_office_only
    }

    /// Whether `attributes` ask for another price than this entry has.
    pub open spec fn price_changes(self, attributes: TicketPricingEditableAttributes) -> bool {
        attributes.price_in_cents matches Some(price) && price != self.price_in_cents
    }

    /// This entry with the values of `attributes` in place of its own, where they are given.
    pub open spec fn merged(self, attributes: TicketPricingEditableAttributes) -> TicketPricing {
        TicketPricing {
            name: match attributes.name {
                Some(name) => name,
                None => self.name,
            },
            price_in_cents: match attributes.price_in_cents {
                Some(price) => price,
                None => self.price_in_cents,
            },
            start_date: match attributes.start_date {
                Some(start) => start,
                None => self.start_date,
            },
            end_date: match attributes.end_date {
                Some(end) => end,
                None => self.end_date,
            },
            is_box_office_only: match attributes.is_box_office_only {
                Some(flag) => flag,
                None => self.is_box_office_only,
            },
            ..self
        }
    }

    /// The record of the entry that supersedes this one under `attributes`.
    pub open spec fn successor(self, attributes: TicketPricingEditableAttributes) -> NewTicketPricing {
        let m = self.merged(attributes);
        NewTicketPricing {
            ticket_type_id: m.ticket_type_id,
            name: m.name,
            status: m.status,
            price_in_cents: m.price_in_cents,
            is_box_office_only: m.is_box_office_only,
            start_date: m.start_date,
            end_date: m.end_date,
            previous_ticket_pricing_id: Some(self.id),
        }
    }

    /// This entry marked as deleted.
    pub open spec fn deleted(self) -> TicketPricing {
        TicketPricing { status: TicketPricingStatus::Deleted, ..self }
    }

    fn merge(&self, attributes: &TicketPricingEditableAttributes) -> (r: TicketPricing)
        ensures
            r == self.merged(*attributes),
    {
        TicketPricing {
            id: self.id,
            ticket_type_id: self.ticket_type_id,
            name: match &attributes.name {
                Some(name) => name.clone(),
                None => self.name.clone(),
            },
            status: self.status,
            price_in_cents: match attributes.price_in_cents {
                Some(price) => price,
                None => self.price_in_cents,
            },
            start_date: match attributes.start_date {
                Some(start) => start,
                None => self.start_date,
            },
            end_date: match attributes.end_date {
                Some(end) => end,
                None => self.end_date,
            },
            is_box_office_only: match attributes.is_box_office_only {
                Some(flag) => flag,
                None => self.is_box_office_only,
            },
            previous_ticket_pricing_id: self.previous_ticket_pricing_id,
        }
    }

    /// Whether `attributes` ask for a value that this entry does not have.
    pub fn has_changes(&self, attributes: &TicketPricingEditableAttributes) -> (r: bool)
        ensures
            r == self.spec_has_changes(*attributes),
    {
        let name = match &attributes.name {
            Some(name) => *name != self.name,
            None => false,
        };
        let price = match attributes.price_in_cents {
            Some(price) => price != self.price_in_cents,
            None => false,
        };
        let start = match attributes.start_date {
            Some(start) => start != self.start_date,
            None => false,
        };
        let end = match attributes.end_date {
            Some(end) => end != self.end_date,
            None => false,
        };
        let flag = match attributes.is_box_office_only {
            Some(flag) => flag != self.is_box_office_only,
            None => false,
        };
        name || price || start || end || flag
    }

    /// Checks the window that this entry would have under `attributes`: it must
    /// start before it ends.
    pub fn validate_record(&self, attributes: &TicketPricingEditableAttributes) -> (r: Result<(), BigNeonError>)
        ensures
            r is Ok <==> self.merged(*attributes).start_date < self.merged(*attributes).end_date,
            r matches Err(e) ==> e@ == ErrorView::Validation(
                appended(
                    Seq::empty(),
                    Field::TicketPricingStartDate,
                    start_date_failure(self.merged(*attributes).start_date, self.merged(*attributes).end_date),
                ),
            ),
    {
        let start = match attributes.start_date {
            Some(start) => start,
            None => self.start_date,
        };
        let end = match attributes.end_date {
            Some(end) => end,
            None => self.end_date,
        };
        let errors = append_validation_error(
            Vec::new(),
            Field::TicketPricingStartDate,
            start_date_valid(start, end),
        );
        if errors.len() > 0 {
            return Err(BigNeonError::Validation(errors));
        }
        Ok(())
    }
}

impl DatabaseView {
    /// The image with the entry at place `k` of the ledger replaced by `p`.
    pub open spec fn with_pricing_at(self, k: int, p: TicketPricing) -> DatabaseView {
        DatabaseView { ticket_pricing: self.ticket_pricing.update(k, p), ..self }
    }

    /// The image with one more audit event.
    pub open spec fn with_event(self, event: DomainEventView) -> DatabaseView {
        DatabaseView { domain_events: self.domain_events.push(event), ..self }
    }

    /// The image after entry `id`, which it holds, was destroyed on behalf of
    /// `user_id`: removed if no order item is priced by it, marked as deleted
    /// otherwise; the audit event carries the entry as it was last.
    pub open spec fn pricing_destroyed(self, id: Id, user_id: Option<Id>) -> DatabaseView {
        let k = row_index(self.ticket_pricing, id);
        let p = self.ticket_pricing[k];
        if self.items_priced_by(id).len() == 0 {
            DatabaseView { ticket_pricing: self.ticket_pricing.remove(k), ..self }.with_event(
                deleted_event(p, user_id),
            )
        } else {
            self.with_pricing_at(k, p.deleted()).with_event(deleted_event(p.deleted(), user_id))
        }
    }

    /// The way an update with `attributes` reaches entry `id`, which the image holds.
    pub open spec fn strategy(self, id: Id, attributes: TicketPricingEditableAttributes) -> UpdateStrategy {
        update_strategy(
            self.items_priced_by(id).len() > 0,
            row(self.ticket_pricing, id).price_changes(attributes),
        )
    }

    /// Whether an update of entry `id` with `attributes` asks for something
    /// new that would make the window of the entry, if it is active, overlap
    /// that of another active entry.
    pub open spec fn update_overlaps(self, id: Id, attributes: TicketPricingEditableAttributes) -> bool {
        has_row(self.ticket_pricing, id) && {
            let current = row(self.ticket_pricing, id);
            let m = current.merged(attributes);
            current.spec_has_changes(attributes) && self.overlapping(
                Some(id),
                m.ticket_type_id,
                m.start_date,
                m.end_date,
                m.status,
            )
        }
    }

    /// What the ledger holds against changing entry `current` in place to what
    /// `attributes` ask for: a window that does not start before it ends, and
    /// then what it holds against the window.
    pub open spec fn change_failures(
        self,
        current: TicketPricing,
        attributes: TicketPricingEditableAttributes,
    ) -> Seq<FieldError> {
        let m = current.merged(attributes);
        appended(Seq::empty(), Field::TicketPricingStartDate, start_date_failure(m.start_date, m.end_date))
            + self.window_failures(m.id, Some(m.id), m.ticket_type_id, m.start_date, m.end_date, m.status)
    }

    /// Why an update of entry `id` with `attributes` is refused, if it is.
    ///
    /// The entry must exist. An update that asks for nothing new is never
    /// refused. One that supersedes the entry is refused where the ledger,
    /// with the entry marked as deleted, refuses the successor under
    /// `fork_id`. One that changes the entry in place is refused where a check
    /// of the changed entry fails.
    pub open spec fn update_rejection(
        self,
        id: Id,
        attributes: TicketPricingEditableAttributes,
        fork_id: Id,
    ) -> Option<ErrorView> {
        if !has_row(self.ticket_pricing, id) {
            Some(ErrorView::NotFound)
        } else {
            let k = row_index(self.ticket_pricing, id);
            let current = self.ticket_pricing[k];
            if !current.spec_has_changes(attributes) {
                None
            } else if self.strategy(id, attributes) == UpdateStrategy::Fork {
                self.with_pricing_at(k, current.deleted()).pricing_rejection(
                    current.successor(attributes),
                    fork_id,
                )
            } else if self.change_failures(current, attributes).len() > 0 {
                Some(ErrorView::Validation(self.change_failures(current, attributes)))
            } else {
                None
            }
        }
    }

    /// The entry that an update of entry `id` with `attributes` returns, where
    /// it is not refused: the entry itself if nothing new is asked for, its
    /// successor under `fork_id` if it is superseded, the changed entry otherwise.
    pub open spec fn update_result(
        self,
        id: Id,
        attributes: TicketPricingEditableAttributes,
        fork_id: Id,
    ) -> TicketPricing {
        let current = row(self.ticket_pricing, id);
        if !current.spec_has_changes(attributes) {
            current
        } else if self.strategy(id, attributes) == UpdateStrategy::Fork {
            current.successor(attributes).stored(fork_id)
        } else {
            current.merged(attributes)
        }
    }

    /// The image after an update of entry `id` with `attributes` on behalf of
    /// `user_id`, where it is not refused.
    ///
    /// Nothing changes if nothing new is asked for. A superseded entry is
    /// marked as deleted and its successor appended, with the audit events of
    /// a deletion and of a creation. An entry changed in place is replaced,
    /// with the audit event of an update.
    pub open spec fn pricing_updated(
        self,
        id: Id,
        attributes: TicketPricingEditableAttributes,
        fork_id: Id,
        user_id: Option<Id>,
    ) -> DatabaseView {
        let k = row_index(self.ticket_pricing, id);
        let current = self.ticket_pricing[k];
        if !current.spec_has_changes(attributes) {
            self
        } else if self.strategy(id, attributes) == UpdateStrategy::Fork {
            let successor = current.successor(attributes).stored(fork_id);
            DatabaseView {
                ticket_pricing: self.ticket_pricing.update(k, current.deleted()).push(successor),
                domain_events: self.domain_events.push(deleted_event(current.deleted(), user_id)).push(
                    created_event(successor, user_id),
                ),
                ..self
            }
        } else {
            self.with_pricing_at(k, current.merged(attributes)).with_event(
                updated_event(current, attributes, user_id),
            )
        }
    }

    /// The image after the sales of entry `id`, which it holds, were started
    /// at `now` on behalf of `user_id`: a start that lies after `now` is
    /// pulled forward to `now`, with an audit event; any other is left alone.
    pub open spec fn sales_started(self, id: Id, now: Timestamp, user_id: Option<Id>) -> DatabaseView {
        let k = row_index(self.ticket_pricing, id);
        let p = self.ticket_pricing[k];
        if p.start_date > now {
            self.with_pricing_at(k, TicketPricing { start_date: now, ..p }).with_event(
                sales_started_event(p, now, user_id),
            )
        } else {
            self
        }
    }
}

impl TicketPricing {
    /// Destroys the entry of the ledger that has this entry's identity, on
    /// behalf of `current_user_id`: see [`DatabaseView::pricing_destroyed`].
    /// Fails with `NotFound`, and changes nothing, exactly if the ledger holds
    /// no such entry.
    ///
    /// An entry that an order item is priced by stays, at its price, so that
    /// what was sold remains priced.
    pub fn destroy(&self, current_user_id: Option<Id>, db: &mut Database) -> (r: Result<(), BigNeonError>)
        requires
            old(db)@.wf(),
        ensures
            final(db)@.wf(),
            old(db)@.pricing_non_overlapping() ==> final(db)@.pricing_non_overlapping(),
            old(db)@.pricing_within_types() ==> final(db)@.pricing_within_types(),
            old(db)@.keeps_referenced_prices(final(db)@),
            old(db)@.keeps_totals(final(db)@),
            match r {
                Ok(_) => has_row(old(db)@.ticket_pricing, self.id) && final(db)@ == old(db)@.pricing_destroyed(
                    self.id,
                    current_user_id,
                ),
                Err(e) => !has_row(old(db)@.ticket_pricing, self.id) && e@ == ErrorView::NotFound && final(db)@
                    == old(db)@,
            },
    {
        let k = match position(&db.ticket_pricing, self.id) {
            Some(k) => k,
            None => {
                proof {
                    lemma_prices_kept(db@);
                }
                return Err(BigNeonError::NotFound);
            },
        };
        let current = db.ticket_pricing[k].clone();
        if current.affected_order_count(db) == 0 {
            proof {
                lemma_pricing_removed(db@, k as int);
            }
            let text = String::from_str("Ticket pricing '").concat(current.name.as_str()).concat("' deleted");
            let event = DomainEvent::create(
                DomainEventTypes::TicketPricingDeleted,
                text,
                Tables::TicketPricing,
                Some(current.id),
                current_user_id,
                EventData::Pricing(current),
            );
            db.ticket_pricing.remove(k);
            db.emit(event);
        } else {
            proof {
                lemma_pricing_soft_deleted(db@, k as int);
            }
            let mut deleted = current;
            deleted.status = TicketPricingStatus::Deleted;
            let text = String::from_str("Ticket pricing '").concat(deleted.name.as_str()).concat("' deleted");
            let event = DomainEvent::create(
                DomainEventTypes::TicketPricingDeleted,
                text,
                Tables::TicketPricing,
                Some(deleted.id),
                current_user_id,
                EventData::Pricing(deleted.clone()),
            );
            db.ticket_pricing.set(k, deleted);
            db.emit(event);
        }
        proof {
            lemma_totals_kept(old(db)@, db@);
        }
        Ok(())
    }

    /// Updates the entry of the ledger that has this entry's identity with
    /// `attributes`, on behalf of `current_user_id`, and returns the entry
    /// that now carries them: see [`DatabaseView::pricing_updated`] and
    /// [`DatabaseView::update_result`]. `fork_id` is the identity of the
    /// successor, should the entry be superseded.
    ///
    /// The update is refused, and the image left as it was, exactly where
    /// [`DatabaseView::update_rejection`] says so.
    ///
    /// An entry that an order item is priced by never changes its price: the
    /// new price goes to a successor. A ledger without overlapping active
    /// windows stays one, and so does one whose windows lie within their
    /// ticket types. An update that would make the window of an active entry
    /// overlap that of another is always refused, for that reason.
    pub fn update(
        &self,
        attributes: TicketPricingEditableAttributes,
        current_user_id: Option<Id>,
        fork_id: Id,
        db: &mut Database,
    ) -> (r: Result<TicketPricing, BigNeonError>)
        requires
            old(db)@.wf(),
        ensures
            final(db)@.wf(),
            old(db)@.pricing_non_overlapping() ==> final(db)@.pricing_non_overlapping(),
            old(db)@.pricing_within_types() ==> final(db)@.pricing_within_types(),
            old(db)@.keeps_referenced_prices(final(db)@),
            old(db)@.keeps_totals(final(db)@),
            match r {
                Ok(p) => {
                    &&& old(db)@.update_rejection(self.id, attributes, fork_id) is None
                    &&& p == old(db)@.update_result(self.id, attributes, fork_id)
                    &&& final(db)@ == old(db)@.pricing_updated(self.id, attributes, fork_id, current_user_id)
                },
                Err(e) => old(db)@.update_rejection(self.id, attributes, fork_id) == Some(e@) && final(db)@
                    == old(db)@,
            },
            old(db)@.update_overlaps(self.id, attributes) ==> refused_for_overlap(r) && final(db)@ == old(db)@,
    {
        proof {
            lemma_prices_kept(db@);
        }
        let k = match position(&db.ticket_pricing, self.id) {
            Some(k) => k,
            None => {
                return Err(BigNeonError::NotFound);
            },
        };
        let current = db.ticket_pricing[k].clone();
        if !current.has_changes(&attributes) {
            return Ok(current);
        }
        let is_referenced = current.affected_order_count(db) > 0;
        let is_price_changing = match attributes.price_in_cents {
            Some(price) => price != current.price_in_cents,
            None => false,
        };
        let merged = current.merge(&attributes);
        match update_strategy(is_referenced, is_price_changing) {
            UpdateStrategy::Fork => {
                let successor = TicketPricing::create(
                    merged.ticket_type_id,
                    merged.name,
                    merged.start_date,
                    merged.end_date,
                    merged.price_in_cents,
                    merged.is_box_office_only,
                    Some(merged.status),
                    Some(current.id),
                );
                let mut deleted = current.clone();
                deleted.status = TicketPricingStatus::Deleted;
                proof {
                    lemma_pricing_soft_deleted(db@, k as int);
                }
                db.ticket_pricing.set(k, deleted.clone());
                let ghost marked = db@;
                match db.check_new_pricing(&successor, fork_id) {
                    Ok(()) => {},
                    Err(e) => {
                        db.ticket_pricing.set(k, current);
                        assert(db@.ticket_pricing =~= old(db)@.ticket_pricing);
                        return Err(e);
                    },
                }
                proof {
                    lemma_pricing_pushed(marked, successor.stored(fork_id));
                    lemma_prices_chain(old(db)@, marked, marked.with_pricing_pushed(successor.stored(fork_id)));
                }
                let text = String::from_str("Ticket pricing '").concat(deleted.name.as_str()).concat(
                    "' deleted",
                );
                let event = DomainEvent::create(
                    DomainEventTypes::TicketPricingDeleted,
                    text,
                    Tables::TicketPricing,
                    Some(deleted.id),
                    current_user_id,
                    EventData::Pricing(deleted),
                );
                db.emit(event);
                let p = db.store_pricing(successor, fork_id, current_user_id);
                proof {
                    lemma_totals_kept(old(db)@, db@);
                }
                Ok(p)
            },
            UpdateStrategy::MutateInPlace => {
                // A well-formed image holds the ticket type of each of its entries.
                let type_index = match position(&db.ticket_types, current.ticket_type_id) {
                    Some(t) => t,
                    None => {
                        return Err(BigNeonError::NotFound);
                    },
                };
                let errors = append_validation_error(
                    Vec::new(),
                    Field::TicketPricingStartDate,
                    start_date_valid(merged.start_date, merged.end_date),
                );
                let errors = db.window_errors(
                    errors,
                    merged.id,
                    Some(merged.id),
                    &db.ticket_types[type_index],
                    merged.start_date,
                    merged.end_date,
                    merged.status,
                );
                if errors.len() > 0 {
                    return Err(BigNeonError::Validation(errors));
                }
                proof {
                    lemma_pricing_replaced(db@, k as int, merged);
                }
                let text = String::from_str("Ticketing pricing '").concat(current.name.as_str()).concat(
                    "' updated",
                );
                let event = DomainEvent::create(
                    DomainEventTypes::TicketPricingUpdated,
                    text,
                    Tables::TicketPricing,
                    Some(current.id),
                    current_user_id,
                    EventData::PricingAttributes(attributes),
                );
                db.ticket_pricing.set(k, merged.clone());
                db.emit(event);
                proof {
                    lemma_totals_kept(old(db)@, db@);
                }
                Ok(merged)
            },
        }
    }

    /// Starts the sales of the entry of the ledger that has this entry's
    /// identity, at the moment `now`: see [`DatabaseView::sales_started`].
    /// Fails with `NotFound`, and changes nothing, exactly if the ledger holds
    /// no such entry.
    ///
    /// The window is not checked again: pulled forward, it may come to overlap
    /// another or to start before its ticket type.
    pub fn start_sales(self, now: Timestamp, current_user_id: Option<Id>, db: &mut Database) -> (r: Result<
        (),
        BigNeonError,
    >)
        requires
            old(db)@.wf(),
        ensures
            final(db)@.wf(),
            old(db)@.keeps_referenced_prices(final(db)@),
            old(db)@.keeps_totals(final(db)@),
            match r {
                Ok(_) => has_row(old(db)@.ticket_pricing, self.id) && final(db)@ == old(db)@.sales_started(
                    self.id,
                    now,
                    current_user_id,
                ),
                Err(e) => !has_row(old(db)@.ticket_pricing, self.id) && e@ == ErrorView::NotFound && final(db)@
                    == old(db)@,
            },
    {
        proof {
            lemma_prices_kept(db@);
        }
        let k = match position(&db.ticket_pricing, self.id) {
            Some(k) => k,
            None => {
                return Err(BigNeonError::NotFound);
            },
        };
        let current = db.ticket_pricing[k].clone();
        if current.start_date > now {
            let mut started = current.clone();
            started.start_date = now;
            proof {
                lemma_pricing_replaced(db@, k as int, started);
            }
            let text = String::from_str("Sales have started on '").concat(current.name.as_str()).concat("'");
            let event = DomainEvent::create(
                DomainEventTypes::TicketPricingSalesStarted,
                text,
                Tables::TicketPricing,
                Some(current.id),
                current_user_id,
                EventData::SalesStarted { old_start_date: current.start_date, new_start_date: now },
            );
            db.ticket_pricing.set(k, started);
            db.emit(event);
        }
        proof {
            lemma_totals_kept(old(db)@, db@);
        }
        Ok(())
    }
}

impl DatabaseView {
    /// The image with `p` appended to the ledger.
    pub open spec fn with_pricing_pushed(self, p: TicketPricing) -> DatabaseView {
        DatabaseView { ticket_pricing: self.ticket_pricing.push(p), ..self }
    }
}

/// Keeping the referenced prices carries over two steps that leave the order
/// items alone.
pub proof fn lemma_prices_chain(a: DatabaseView, b: DatabaseView, c: DatabaseView)
    requires
        a.keeps_referenced_prices(b),
        b.keeps_referenced_prices(c),
        a.order_items == b.order_items,
    ensures
        a.keeps_referenced_prices(c),
{
    assert forall|i: int| 0 <= i < a.order_items.len() implies a.price_kept(c, #[trigger] a.order_items[i]) by {
        assert(a.price_kept(b, a.order_items[i]));
        assert(b.price_kept(c, b.order_items[i]));
    }
}

/// Where no order item is priced by entry `id`, none names it.
pub proof fn lemma_unreferenced(v: DatabaseView, id: Id)
    requires
        v.items_priced_by(id).len() == 0,
    ensures
        forall|i: int| 0 <= i < v.order_items.len() ==> (#[trigger] v.order_items[i]).ticket_pricing_id != Some(id),
{
    lemma_filter_none(v.order_items, |item: OrderItem| item.ticket_pricing_id == Some(id));
}

/// Replacing an entry by one of the same identity, ticket type and
/// predecessor keeps the image well-formed. It keeps the prices that order items refer to if the
/// price stays or no order item is priced by the entry; it keeps the ledger
/// free of overlaps if the new window overlaps no other active entry; and it
/// keeps the windows within their ticket types if the new one is.
pub proof fn lemma_pricing_replaced(v: DatabaseView, k: int, q: TicketPricing)
    requires
        v.wf(),
        0 <= k < v.ticket_pricing.len(),
        q.id == v.ticket_pricing[k].id,
        q.ticket_type_id == v.ticket_pricing[k].ticket_type_id,
        q.previous_ticket_pricing_id == v.ticket_pricing[k].previous_ticket_pricing_id,
    ensures
        v.with_pricing_at(k, q).wf(),
        q.price_in_cents == v.ticket_pricing[k].price_in_cents || v.items_priced_by(q.id).len() == 0
            ==> v.keeps_referenced_prices(v.with_pricing_at(k, q)),
        v.pricing_non_overlapping() && !v.overlapping_period(
            q.id,
            q.ticket_type_id,
            q.start_date,
            q.end_date,
            q.status,
        ) ==> v.with_pricing_at(k, q).pricing_non_overlapping(),
        v.pricing_within_types() && has_row(v.ticket_types, q.ticket_type_id) && row(
            v.ticket_types,
            q.ticket_type_id,
        ).start_date <= q.start_date && q.end_date <= row(v.ticket_types, q.ticket_type_id).end_date
            ==> v.with_pricing_at(k, q).pricing_within_types(),
        forall|x: Id| has_row(v.ticket_pricing, x) <==> has_row(v.with_pricing_at(k, q).ticket_pricing, x),
        forall|x: Id| v.pricing_id_taken(x) <==> v.with_pricing_at(k, q).pricing_id_taken(x),
{
    let next = v.with_pricing_at(k, q);
    let n = v.ticket_pricing.len() as int;
    assert forall|i: int| 0 <= i < n implies (#[trigger] next.ticket_pricing[i]).id == v.ticket_pricing[i].id
        && next.ticket_pricing[i].previous_ticket_pricing_id
        == v.ticket_pricing[i].previous_ticket_pricing_id && (i != k ==> next.ticket_pricing[i]
        == v.ticket_pricing[i]) by {}
    assert(ids_unique(next.ticket_pricing)) by {
        assert forall|i: int, j: int| 0 <= i < j < next.ticket_pricing.len() implies (
        #[trigger] next.ticket_pricing[i]).row_id() != (#[trigger] next.ticket_pricing[j]).row_id() by {
            assert(v.ticket_pricing[i].row_id() != v.ticket_pricing[j].row_id());
        }
    }
    assert(next.pricing_chain_backward()) by {
        assert forall|i: int, j: int|
            0 <= i < next.ticket_pricing.len() && 0 <= j < next.ticket_pricing.len() && (
            #[trigger] next.ticket_pricing[i]).previous_ticket_pricing_id == Some(
                (#[trigger] next.ticket_pricing[j]).id,
            ) implies j < i by {
            assert(v.ticket_pricing[i].previous_ticket_pricing_id == Some(v.ticket_pricing[j].id));
        }
    }
    assert forall|x: Id| has_row(v.ticket_pricing, x) <==> has_row(next.ticket_pricing, x) by {
        if has_row(v.ticket_pricing, x) {
            let i = row_index(v.ticket_pricing, x);
            assert(next.ticket_pricing[i].row_id() == x);
        }
        if has_row(next.ticket_pricing, x) {
            let i = row_index(next.ticket_pricing, x);
            assert(v.ticket_pricing[i].row_id() == x);
        }
    }
    assert forall|x: Id| v.pricing_id_taken(x) <==> next.pricing_id_taken(x) by {
        if v.pricing_id_taken(x) && !has_row(v.ticket_pricing, x) {
            let i = choose|i: int|
                0 <= i < v.ticket_pricing.len() && (
                #[trigger] v.ticket_pricing[i]).previous_ticket_pricing_id == Some(x);
            assert(next.ticket_pricing[i].previous_ticket_pricing_id == Some(x));
        }
        if next.pricing_id_taken(x) && !has_row(next.ticket_pricing, x) {
            let i = choose|i: int|
                0 <= i < next.ticket_pricing.len() && (
                #[trigger] next.ticket_pricing[i]).previous_ticket_pricing_id == Some(x);
            assert(v.ticket_pricing[i].previous_ticket_pricing_id == Some(x));
        }
    }
    assert(next.items_well_formed()) by {
        assert forall|i: int| 0 <= i < next.order_items.len() implies {
            let item = #[trigger] next.order_items[i];
            &&& has_row(next.orders, item.order_id)
            &&& item.quantity > 0
            &&& item.ticket_pricing_id matches Some(p) ==> has_row(next.ticket_pricing, p)
        } by {
            let item = v.order_items[i];
            assert(has_row(v.orders, item.order_id));
        }
    }
    assert(next.payments_well_formed()) by {
        assert forall|i: int| 0 <= i < next.payments.len() implies {
            let payment = #[trigger] next.payments[i];
            &&& has_row(next.orders, payment.order_id)
            &&& payment.status.is_live() ==> row(next.orders, payment.order_id).status == OrderStatus::Paid
        } by {
            let payment = v.payments[i];
            assert(has_row(v.orders, payment.order_id));
        }
    }
    if q.price_in_cents == v.ticket_pricing[k].price_in_cents || v.items_priced_by(q.id).len() == 0 {
        assert forall|i: int| 0 <= i < v.order_items.len() implies v.price_kept(
            next,
            #[trigger] v.order_items[i],
        ) by {
            let item = v.order_items[i];
            assert(has_row(v.orders, item.order_id));
            if item.ticket_pricing_id is Some {
                let x = item.ticket_pricing_id->0;
                let j = row_index(v.ticket_pricing, x);
                lemma_row_index(v.ticket_pricing, j);
                assert(next.ticket_pricing[j].row_id() == x);
                lemma_row_index(next.ticket_pricing, j);
                if j == k && q.price_in_cents != v.ticket_pricing[k].price_in_cents {
                    lemma_unreferenced(v, q.id);
                }
            }
        }
    }
    if v.pricing_non_overlapping() && !v.overlapping_period(
        q.id,
        q.ticket_type_id,
        q.start_date,
        q.end_date,
        q.status,
    ) {
        assert forall|i: int, j: int| 0 <= i < j < next.ticket_pricing.len() implies !(
        #[trigger] next.ticket_pricing[i]).conflicts_with(#[trigger] next.ticket_pricing[j]) by {
            assert(v.ticket_pricing[i].row_id() != v.ticket_pricing[j].row_id());
            if i == k {
                if q.conflicts_with(v.ticket_pricing[j]) {
                    assert(v.ticket_pricing[j].id != q.id);
                    assert(v.ticket_pricing[j].blocks(q.ticket_type_id, q.start_date, q.end_date));
                }
            } else if j == k {
                if v.ticket_pricing[i].conflicts_with(q) {
                    assert(v.ticket_pricing[i].id != q.id);
                    assert(v.ticket_pricing[i].blocks(q.ticket_type_id, q.start_date, q.end_date));
                }
            } else {
                assert(!v.ticket_pricing[i].conflicts_with(v.ticket_pricing[j]));
            }
        }
    }
    if v.pricing_within_types() && has_row(v.ticket_types, q.ticket_type_id) && row(
        v.ticket_types,
        q.ticket_type_id,
    ).start_date <= q.start_date && q.end_date <= row(v.ticket_types, q.ticket_type_id).end_date {
        assert forall|i: int| 0 <= i < next.ticket_pricing.len() implies {
            let p = #[trigger] next.ticket_pricing[i];
            &&& has_row(next.ticket_types, p.ticket_type_id)
            &&& row(next.ticket_types, p.ticket_type_id).start_date <= p.start_date
            &&& p.end_date <= row(next.ticket_types, p.ticket_type_id).end_date
        } by {
            if i != k {
                let p = v.ticket_pricing[i];
                assert(has_row(v.ticket_types, p.ticket_type_id));
            }
        }
    }
}

/// Marking an entry as deleted keeps the image well-formed and keeps what
/// held of the ledger before.
pub proof fn lemma_pricing_soft_deleted(v: DatabaseView, k: int)
    requires
        v.wf(),
        0 <= k < v.ticket_pricing.len(),
    ensures
        ({
            let next = v.with_pricing_at(k, v.ticket_pricing[k].deleted());
            &&& next.wf()
            &&& v.keeps_referenced_prices(next)
            &&& v.pricing_non_overlapping() ==> next.pricing_non_overlapping()
            &&& v.pricing_within_types() ==> next.pricing_within_types()
        }),
{
    let p = v.ticket_pricing[k];
    let q = p.deleted();
    lemma_pricing_replaced(v, k, q);
    assert(!v.overlapping_period(q.id, q.ticket_type_id, q.start_date, q.end_date, q.status));
    if v.pricing_within_types() {
        assert(has_row(v.ticket_types, p.ticket_type_id));
    }
}

/// Removing an entry that no order item is priced by keeps the image
/// well-formed and keeps what held of the ledger before.
pub proof fn lemma_pricing_removed(v: DatabaseView, k: int)
    requires
        v.wf(),
        0 <= k < v.ticket_pricing.len(),
        v.items_priced_by(v.ticket_pricing[k].id).len() == 0,
    ensures
        ({
            let next = DatabaseView { ticket_pricing: v.ticket_pricing.remove(k), ..v };
            &&& next.wf()
            &&& v.keeps_referenced_prices(next)
            &&& v.pricing_non_overlapping() ==> next.pricing_non_overlapping()
            &&& v.pricing_within_types() ==> next.pricing_within_types()
        }),
{
    let next = DatabaseView { ticket_pricing: v.ticket_pricing.remove(k), ..v };
    let id = v.ticket_pricing[k].id;
    let n = next.ticket_pricing.len() as int;
    lemma_unreferenced(v, id);
    assert forall|i: int| 0 <= i < n implies (#[trigger] next.ticket_pricing[i]) == v.ticket_pricing[if i < k {
        i
    } else {
        i + 1
    }] by {}
    assert(ids_unique(next.ticket_pricing)) by {
        assert forall|i: int, j: int| 0 <= i < j < next.ticket_pricing.len() implies (
        #[trigger] next.ticket_pricing[i]).row_id() != (#[trigger] next.ticket_pricing[j]).row_id() by {
            let a = if i < k { i } else { i + 1 };
            let b = if j < k { j } else { j + 1 };
            assert(v.ticket_pricing[a].row_id() != v.ticket_pricing[b].row_id());
        }
    }
    assert(next.pricing_chain_backward()) by {
        assert forall|i: int, j: int|
            0 <= i < next.ticket_pricing.len() && 0 <= j < next.ticket_pricing.len() && (
            #[trigger] next.ticket_pricing[i]).previous_ticket_pricing_id == Some(
                (#[trigger] next.ticket_pricing[j]).id,
            ) implies j < i by {
            let a = if i < k { i } else { i + 1 };
            let b = if j < k { j } else { j + 1 };
            assert(v.ticket_pricing[a].previous_ticket_pricing_id == Some(v.ticket_pricing[b].id));
        }
    }
    assert forall|x: Id| x != id && has_row(v.ticket_pricing, x) implies has_row(next.ticket_pricing, x)
        && row(next.ticket_pricing, x) == row(v.ticket_pricing, x) by {
        let a = row_index(v.ticket_pricing, x);
        lemma_row_index(v.ticket_pricing, a);
        let i = if a < k { a } else { a - 1 };
        assert(next.ticket_pricing[i].row_id() == x);
        lemma_row_index(next.ticket_pricing, i);
    }
    assert(next.items_well_formed()) by {
        assert forall|i: int| 0 <= i < next.order_items.len() implies {
            let item = #[trigger] next.order_items[i];
            &&& has_row(next.orders, item.order_id)
            &&& item.quantity > 0
            &&& item.ticket_pricing_id matches Some(p) ==> has_row(next.ticket_pricing, p)
        } by {
            let item = v.order_items[i];
            assert(has_row(v.orders, item.order_id));
        }
    }
    assert(next.payments_well_formed()) by {
        assert forall|i: int| 0 <= i < next.payments.len() implies {
            let payment = #[trigger] next.payments[i];
            &&& has_row(next.orders, payment.order_id)
            &&& payment.status.is_live() ==> row(next.orders, payment.order_id).status == OrderStatus::Paid
        } by {
            let payment = v.payments[i];
            assert(has_row(v.orders, payment.order_id));
        }
    }
    assert(v.keeps_referenced_prices(next)) by {
        assert forall|i: int| 0 <= i < v.order_items.len() implies v.price_kept(
            next,
            #[trigger] v.order_items[i],
        ) by {
            let item = v.order_items[i];
            assert(has_row(v.orders, item.order_id));
        }
    }
    if v.pricing_non_overlapping() {
        assert forall|i: int, j: int| 0 <= i < j < next.ticket_pricing.len() implies !(
        #[trigger] next.ticket_pricing[i]).conflicts_with(#[trigger] next.ticket_pricing[j]) by {
            let a = if i < k { i } else { i + 1 };
            let b = if j < k { j } else { j + 1 };
            assert(!v.ticket_pricing[a].conflicts_with(v.ticket_pricing[b]));
        }
    }
    if v.pricing_within_types() {
        assert forall|i: int| 0 <= i < next.ticket_pricing.len() implies {
            let p = #[trigger] next.ticket_pricing[i];
            &&& has_row(next.ticket_types, p.ticket_type_id)
            &&& row(next.ticket_types, p.ticket_type_id).start_date <= p.start_date
            &&& p.end_date <= row(next.ticket_types, p.ticket_type_id).end_date
        } by {
            let a = if i < k { i } else { i + 1 };
            let p = v.ticket_pricing[a];
            assert(has_row(v.ticket_types, p.ticket_type_id));
        }
    }
}

impl DatabaseView {
    /// The identities of the entry at place `i` of the ledger and of the
    /// entries before it in its chain: the one it superseded, the one that
    /// one superseded, and so on, as far as the ledger holds them.
    pub open spec fn lineage(self, i: int) -> Set<Id>
        decreases i,
    {
        if 0 <= i < self.ticket_pricing.len() {
            let p = self.ticket_pricing[i];
            let before = match p.previous_ticket_pricing_id {
                Some(q) => if has_row(self.ticket_pricing, q) && 0 <= row_index(self.ticket_pricing, q) < i {
                    self.lineage(row_index(self.ticket_pricing, q))
                } else {
                    Set::empty()
                },
                None => Set::empty(),
            };
            before.insert(p.id)
        } else {
            Set::empty()
        }
    }

    /// Whether `item` belongs to an order that is paid or has not expired at `now`.
    pub open spec fn item_is_active(self, item: OrderItem, now: Timestamp) -> bool {
        has_row(self.orders, item.order_id) && (row(self.orders, item.order_id).status == OrderStatus::Paid
            || row(self.orders, item.order_id).expires_at >= now)
    }

    /// Whether an item of an order that is paid or has not expired at `now`
    /// is priced by entry `id`.
    pub open spec fn actively_priced_by(self, id: Id, now: Timestamp) -> bool {
        exists|i: int|
            0 <= i < self.order_items.len() && (#[trigger] self.order_items[i]).ticket_pricing_id == Some(id)
                && self.item_is_active(self.order_items[i], now)
    }

    /// Whether an item of an order that is paid or has not expired at `now`
    /// is priced by entry `id` or by an entry before it in its chain.
    pub open spec fn associated_with_active_orders(self, id: Id, now: Timestamp) -> bool {
        has_row(self.ticket_pricing, id) && exists|p: Id| #[trigger]
            self.lineage(row_index(self.ticket_pricing, id)).contains(p) && self.actively_priced_by(p, now)
    }
}

impl Database {
    /// Whether an item of an order that is paid or has not expired at `now`
    /// is priced by entry `id`.
    pub(crate) fn actively_priced_by(&self, id: Id, now: Timestamp) -> (r: bool)
        requires
            self@.wf(),
        ensures
            r == self@.actively_priced_by(id, now),
    {
        let mut i: usize = 0;
        while i < self.order_items.len()
            invariant
                i <= self.order_items.len(),
                self@.wf(),
                forall|k: int|
                    0 <= k < i ==> !((#[trigger] self@.order_items[k]).ticket_pricing_id == Some(id)
                        && self@.item_is_active(self@.order_items[k], now)),
            decreases self.order_items.len() - i,
        {
            let item = self.order_items[i];
            let priced = match item.ticket_pricing_id {
                Some(p) => p == id,
                None => false,
            };
            if priced {
                let active = match position(&self.orders, item.order_id) {
                    Some(o) => self.orders[o].status == OrderStatus::Paid || self.orders[o].expires_at >= now,
                    None => false,
                };
                if active {
                    return true;
                }
            }
            i += 1;
        }
        false
    }
}

impl TicketPricing {
    /// Whether an order that is paid, or a cart that has not expired at
    /// `now`, holds an item priced by the entry of the ledger that has this
    /// entry's identity, or by an entry that it came from: see
    /// [`DatabaseView::associated_with_active_orders`]. An entry that the
    /// ledger does not hold is associated with nothing.
    pub fn associated_with_active_orders(&self, now: Timestamp, db: &Database) -> (r: bool)
        requires
            db@.wf(),
        ensures
            r == db@.associated_with_active_orders(self.id, now),
    {
        let start = match position(&db.ticket_pricing, self.id) {
            Some(k) => k,
            None => {
                return false;
            },
        };
        let mut current = start;
        let ghost mut visited = Set::<Id>::empty();
        loop
            invariant
                db@.wf(),
                start < db@.ticket_pricing.len(),
                current < db@.ticket_pricing.len(),
                has_row(db@.ticket_pricing, self.id),
                row_index(db@.ticket_pricing, self.id) == start,
                forall|p: Id|
                    #[trigger] db@.lineage(start as int).contains(p) <==> visited.contains(p) || db@.lineage(
                        current as int,
                    ).contains(p),
                forall|p: Id| #[trigger] visited.contains(p) ==> !db@.actively_priced_by(p, now),
            decreases current,
        {
            let entry = &db.ticket_pricing[current];
            if db.actively_priced_by(entry.id, now) {
                assert(db@.lineage(current as int).contains(entry.id));
                assert(db@.lineage(start as int).contains(entry.id));
                return true;
            }
            let before = match entry.previous_ticket_pricing_id {
                Some(q) => match position(&db.ticket_pricing, q) {
                    Some(k) => if k < current {
                        Some(k)
                    } else {
                        None
                    },
                    None => None,
                },
                None => None,
            };
            proof {
                visited = visited.insert(entry.id);
            }
            match before {
                Some(k) => {
                    current = k;
                },
                None => {
                    assert forall|p: Id| #[trigger]
                        db@.lineage(start as int).contains(p) implies !db@.actively_priced_by(p, now) by {
                        assert(visited.contains(p));
                    }
                    return false;
                },
            }
        }
    }
}

impl DatabaseView {
    /// Why `p` cannot be taken into the ledger as it is, if it cannot: its
    /// ticket type must be in the image, its identity must be free, and it may
    /// not name itself as its predecessor.
    pub open spec fn loaded_pricing_rejection(self, p: TicketPricing) -> Option<ErrorView> {
        if !has_row(self.ticket_types, p.ticket_type_id) {
            Some(ErrorView::NotFound)
        } else if self.pricing_id_taken(p.id) || p.previous_ticket_pricing_id == Some(p.id) {
            Some(ErrorView::DuplicateKey)
        } else {
            None
        }
    }
}

impl Database {
    /// Takes an entry into the ledger as it is, as when the image is loaded
    /// from the store: its window and its price are not checked, and no audit
    /// event is emitted. It is refused, and the image left as it was, exactly
    /// where [`DatabaseView::loaded_pricing_rejection`] says so.
    ///
    /// A ledger loaded this way may hold overlapping entries, which the search
    /// for a price reports.
    pub fn load_ticket_pricing(&mut self, p: TicketPricing) -> (r: Result<(), BigNeonError>)
        requires
            old(self)@.wf(),
        ensures
            final(self)@.wf(),
            match r {
                Ok(_) => old(self)@.loaded_pricing_rejection(p) is None && final(self)@
                    == old(self)@.with_pricing_pushed(p),
                Err(e) => old(self)@.loaded_pricing_rejection(p) == Some(e@) && final(self)@ == old(self)@,
            },
    {
        if position(&self.ticket_types, p.ticket_type_id).is_none() {
            return Err(BigNeonError::NotFound);
        }
        let cyclic = match p.previous_ticket_pricing_id {
            Some(previous) => previous == p.id,
            None => false,
        };
        if cyclic || self.pricing_id_taken(p.id) {
            return Err(BigNeonError::DuplicateKey);
        }
        proof {
            lemma_pricing_pushed(self@, p);
        }
        self.ticket_pricing.push(p);
        Ok(())
    }
}

/// In a ledger without overlapping active windows, the search for a price
/// never finds two at once.
pub proof fn law_consistent_ledger_is_unambiguous(
    v: DatabaseView,
    ticket_type_id: Id,
    box_office_pricing: bool,
    get_default_pricing: bool,
    now: Timestamp,
)
    requires
        v.pricing_non_overlapping(),
    ensures
        v.current_pricing(ticket_type_id, box_office_pricing, get_default_pricing, now) != Err::<
            TicketPricing,
            ErrorView,
        >(ErrorView::AmbiguousPricing),
    decreases
        (if get_default_pricing {
            0nat
        } else {
            1nat
        }),
{
    let status = if get_default_pricing {
        TicketPricingStatus::Default
    } else {
        TicketPricingStatus::Published
    };
    let pred = |p: TicketPricing|
        p.applies(ticket_type_id, status, now) && (box_office_pricing || !p.is_box_office_only);
    if v.ticket_pricing.filter(pred).len() > 1 {
        lemma_filter_two(v.ticket_pricing, pred);
        let (i, j) = choose|i: int, j: int|
            0 <= i < j < v.ticket_pricing.len() && pred(#[trigger] v.ticket_pricing[i]) && pred(
                #[trigger] v.ticket_pricing[j],
            );
        assert(v.ticket_pricing[i].conflicts_with(v.ticket_pricing[j]));
    }
    if !get_default_pricing {
        law_consistent_ledger_is_unambiguous(v, ticket_type_id, box_office_pricing, true, now);
    }
}

/// An update asks for nothing new of an entry that carries its attributes
/// already: made a second time, it is a no-op.
pub proof fn law_update_is_idempotent(p: TicketPricing, attributes: TicketPricingEditableAttributes)
    ensures
        !p.merged(attributes).spec_has_changes(attributes),
        !p.successor(attributes).stored(p.id).spec_has_changes(attributes),
{
}

} // verus!
