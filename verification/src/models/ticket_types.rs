//! Ticket types: what is sold, and between which dates.

use vstd::prelude::*;
use crate::Id;
use crate::Timestamp;
use crate::database::has_row;
use crate::database::lemma_filter_step;
use crate::database::lemma_rows_pushed;
use crate::database::position;
use crate::database::row;
use crate::database::Database;
use crate::database::DatabaseView;
use crate::database::Row;
use crate::errors::BigNeonError;
use crate::errors::ErrorView;
use crate::models::enums::TicketPricingStatus;
use crate::models::names::name_le;
use crate::models::names::sort_by_name;
use crate::models::names::Named;
use crate::models::enums::TicketTypeStatus;
use crate::models::ticket_pricing::created_event;
use crate::models::ticket_pricing::refused_for_overlap;
use crate::models::ticket_pricing::NewTicketPricing;
use crate::models::ticket_pricing::TicketPricing;

verus! {

#[derive(Debug, PartialEq, Eq)]
pub struct TicketType {
    pub id: Id,
    pub event_id: Id,
    pub name: String,
    pub status: TicketTypeStatus,
    /// From when tickets of this type are sold.
    pub start_date: Timestamp,
    /// Until when tickets of this type are sold.
    pub end_date: Timestamp,
}

/// A ticket type that has not been stored yet.
#[derive(Debug, PartialEq, Eq)]
pub struct NewTicketType {
    pub event_id: Id,
    pub name: String,
    pub status: TicketTypeStatus,
    pub start_date: Timestamp,
    pub end_date: Timestamp,
}

impl Row for TicketType {
    open spec fn row_id(&self) -> Id {
        self.id
    }

    fn id(&self) -> (r: Id) {
        self.id
    }
}

impl Named for TicketType {
    open spec fn row_name(&self) -> Seq<char> {
        self.name@
    }

    fn name_text(&self) -> (r: &str) {
        self.name.as_str()
    }
}

impl Clone for TicketType {
    fn clone(&self) -> (r: Self)
        ensures
            r == *self,
    {
        TicketType {
            id: self.id,
            event_id: self.event_id,
            name: self.name.clone(),
            status: self.status,
            start_date: self.start_date,
            end_date: self.end_date,
        }
    }
}

impl DatabaseView {
    /// The ticket types of event `event_id`.
    pub open spec fn ticket_types_of(self, event_id: Id) -> Seq<TicketType> {
        self.ticket_types.filter(|t: TicketType| t.event_id == event_id)
    }

    /// The pricing entries of ticket type `ticket_type_id`.
    pub open spec fn pricing_of(self, ticket_type_id: Id) -> Seq<TicketPricing> {
        self.ticket_pricing.filter(|p: TicketPricing| p.ticket_type_id == ticket_type_id)
    }
}

impl NewTicketType {
    /// The ticket type that storing this record under `id` gives.
    pub open spec fn stored(self, id: Id) -> TicketType {
        TicketType {
            id,
            event_id: self.event_id,
            name: self.name,
            status: self.status,
            start_date: self.start_date,
            end_date: self.end_date,
        }
    }

    /// Stores the ticket type under the identity `id`. It fails, and changes
    /// nothing, exactly if the identity is taken.
    pub fn commit(self, id: Id, db: &mut Database) -> (r: Result<TicketType, BigNeonError>)
        requires
            old(db)@.wf(),
        ensures
            final(db)@.wf(),
            old(db)@.pricing_within_types() ==> final(db)@.pricing_within_types(),
            match r {
                Ok(t) => {
                    &&& !has_row(old(db)@.ticket_types, id)
                    &&& t == self.stored(id)
                    &&& final(db)@ == (DatabaseView { ticket_types: old(db)@.ticket_types.push(t), ..old(db)@ })
                },
                Err(e) => {
                    &&& has_row(old(db)@.ticket_types, id)
                    &&& e@ == ErrorView::DuplicateKey
                    &&& final(db)@ == old(db)@
                },
            },
    {
        if position(&db.ticket_types, id).is_some() {
            return Err(BigNeonError::DuplicateKey);
        }
        let t = TicketType {
            id,
            event_id: self.event_id,
            name: self.name,
            status: self.status,
            start_date: self.start_date,
            end_date: self.end_date,
        };
        proof {
            lemma_rows_pushed(db@.ticket_types, t);
            let next = DatabaseView { ticket_types: db@.ticket_types.push(t), ..db@ };
            if db@.pricing_within_types() {
                assert forall|i: int| 0 <= i < next.ticket_pricing.len() implies {
                    let p = #[trigger] next.ticket_pricing[i];
                    &&& has_row(next.ticket_types, p.ticket_type_id)
                    &&& row(next.ticket_types, p.ticket_type_id).start_date <= p.start_date
                    &&& p.end_date <= row(next.ticket_types, p.ticket_type_id).end_date
                } by {
                    let p = db@.ticket_pricing[i];
                    assert(has_row(db@.ticket_types, p.ticket_type_id));
                }
            }
        }
        db.ticket_types.push(t.clone());
        Ok(t)
    }
}

impl TicketType {
    /// A published ticket type that has not been stored yet.
    pub fn create(event_id: Id, name: String, start_date: Timestamp, end_date: Timestamp) -> (r: NewTicketType)
        ensures
            r == (NewTicketType {
                event_id,
                name,
                status: TicketTypeStatus::Published,
                start_date,
                end_date,
            }),
    {
        NewTicketType { event_id, name, status: TicketTypeStatus::Published, start_date, end_date }
    }

    /// The ticket type with identity `id`.
    pub fn find(id: Id, db: &Database) -> (r: Result<TicketType, BigNeonError>)
        ensures
            r is Ok <==> has_row(db@.ticket_types, id),
            r matches Ok(t) ==> t.id == id && db@.ticket_types.contains(t) && (db@.wf() ==> t == row(
                db@.ticket_types,
                id,
            )),
            r matches Err(e) ==> e@ == ErrorView::NotFound,
    {
        match position(&db.ticket_types, id) {
            Some(i) => Ok(db.ticket_types[i].clone()),
            None => Err(BigNeonError::NotFound),
        }
    }

    /// The ticket types of an event, each once, ascending by name (see
    /// [`name_le`]).
    pub fn find_by_event_id(event_id: Id, db: &Database) -> (r: Vec<TicketType>)
        ensures
            r@.to_multiset() == db@.ticket_types_of(event_id).to_multiset(),
            forall|i: int, j: int| 0 <= i < j < r@.len() ==> name_le(r@[i].name@, r@[j].name@),
    {
        let ghost pred = |t: TicketType| t.event_id == event_id;
        let mut out: Vec<TicketType> = Vec::new();
        let mut i: usize = 0;
        assert(db@.ticket_types.take(0).filter(pred) =~= Seq::empty()) by {
            reveal(Seq::filter);
        }
        while i < db.ticket_types.len()
            invariant
                i <= db.ticket_types.len(),
                pred == |t: TicketType| t.event_id == event_id,
                out@ == db@.ticket_types.take(i as int).filter(pred),
            decreases db.ticket_types.len() - i,
        {
            proof {
                lemma_filter_step(db@.ticket_types, i as int, pred);
            }
            if db.ticket_types[i].event_id == event_id {
                out.push(db.ticket_types[i].clone());
            }
            i += 1;
        }
        assert(db@.ticket_types.take(i as int) == db@.ticket_types);
        let r = sort_by_name(out);
        assert forall|i: int, j: int| 0 <= i < j < r@.len() implies name_le(r@[i].name@, r@[j].name@) by {
            assert(name_le(r@[i].row_name(), r@[j].row_name()));
        }
        r
    }

    /// The pricing entries of this ticket type, each once, ascending by name
    /// (see [`name_le`]).
    pub fn ticket_pricing(&self, db: &Database) -> (r: Vec<TicketPricing>)
        ensures
            r@.to_multiset() == db@.pricing_of(self.id).to_multiset(),
            forall|i: int, j: int| 0 <= i < j < r@.len() ==> name_le(r@[i].name@, r@[j].name@),
    {
        let ghost pred = |p: TicketPricing| p.ticket_type_id == self.id;
        let mut out: Vec<TicketPricing> = Vec::new();
        let mut i: usize = 0;
        assert(db@.ticket_pricing.take(0).filter(pred) =~= Seq::empty()) by {
            reveal(Seq::filter);
        }
        while i < db.ticket_pricing.len()
            invariant
                i <= db.ticket_pricing.len(),
                pred == |p: TicketPricing| p.ticket_type_id == self.id,
                out@ == db@.ticket_pricing.take(i as int).filter(pred),
            decreases db.ticket_pricing.len() - i,
        {
            proof {
                lemma_filter_step(db@.ticket_pricing, i as int, pred);
            }
            if db.ticket_pricing[i].ticket_type_id == self.id {
                out.push(db.ticket_pricing[i].clone());
            }
            i += 1;
        }
        assert(db@.ticket_pricing.take(i as int) == db@.ticket_pricing);
        let r = sort_by_name(out);
        assert forall|i: int, j: int| 0 <= i < j < r@.len() implies name_le(r@[i].name@, r@[j].name@) by {
            assert(name_le(r@[i].row_name(), r@[j].row_name()));
        }
        r
    }

    /// The record of a published, general pricing entry of this ticket type.
    pub open spec fn pricing_record(
        self,
        name: String,
        start_date: Timestamp,
        end_date: Timestamp,
        price_in_cents: i64,
    ) -> NewTicketPricing {
        NewTicketPricing {
            ticket_type_id: self.id,
            name,
            status: TicketPricingStatus::Published,
            price_in_cents,
            is_box_office_only: false,
            start_date,
            end_date,
            previous_ticket_pricing_id: None,
        }
    }

    /// Stores a published, general pricing entry of this ticket type under the
    /// identity `id`: see [`NewTicketPricing::commit`].
    pub fn add_ticket_pricing(
        &self,
        name: String,
        start_date: Timestamp,
        end_date: Timestamp,
        price_in_cents: i64,
        id: Id,
        current_user_id: Option<Id>,
        db: &mut Database,
    ) -> (r: Result<TicketPricing, BigNeonError>)
        requires
            old(db)@.wf(),
        ensures
            final(db)@.wf(),
            old(db)@.pricing_non_overlapping() ==> final(db)@.pricing_non_overlapping(),
            old(db)@.pricing_within_types() ==> final(db)@.pricing_within_types(),
            match r {
                Ok(p) => {
                    &&& old(db)@.pricing_rejection(
                        self.pricing_record(name, start_date, end_date, price_in_cents),
                        id,
                    ) is None
                    &&& p == self.pricing_record(name, start_date, end_date, price_in_cents).stored(id)
                    &&& final(db)@ == (DatabaseView {
                        ticket_pricing: old(db)@.ticket_pricing.push(p),
                        domain_events: old(db)@.domain_events.push(created_event(p, current_user_id)),
                        ..old(db)@
                    })
                },
                Err(e) => {
                    &&& old(db)@.pricing_rejection(
                        self.pricing_record(name, start_date, end_date, price_in_cents),
                        id,
                    ) == Some(e@)
                    &&& final(db)@ == old(db)@
                },
            },
            old(db)@.overlapping(None, self.id, start_date, end_date, TicketPricingStatus::Published)
                ==> refused_for_overlap(r) && final(db)@ == old(db)@,
    {
        TicketPricing::create(self.id, name, start_date, end_date, price_in_cents, false, None, None).commit(
            id,
            current_user_id,
            db,
        )
    }

    pub fn status(&self) -> (r: TicketTypeStatus)
        ensures
            r == self.status,
    {
        self.status
    }
}

} // verus!
