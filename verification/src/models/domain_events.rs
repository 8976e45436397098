//! Audit events: what every change of a price, an order or a payment leaves behind.

use vstd::prelude::*;
use crate::Id;
use crate::Timestamp;
use crate::models::enums::DomainEventTypes;
use crate::models::enums::Tables;
use crate::models::ticket_pricing::TicketPricing;
use crate::models::ticket_pricing::TicketPricingEditableAttributes;

verus! {

/// The detail an event carries.
#[derive(Debug, PartialEq, Eq)]
pub enum EventData {
    Nothing,
    /// The pricing entry as the change left it.
    Pricing(TicketPricing),
    /// The attributes an update asked for.
    PricingAttributes(TicketPricingEditableAttributes),
    /// The start of sales before and after it was pulled forward.
    SalesStarted { old_start_date: Timestamp, new_start_date: Timestamp },
}

#[derive(Debug, PartialEq, Eq)]
pub struct DomainEvent {
    pub event_type: DomainEventTypes,
    pub display_text: String,
    pub main_table: Tables,
    pub main_id: Option<Id>,
    pub user_id: Option<Id>,
    pub event_data: EventData,
}

/// A [`DomainEvent`] with its text as a sequence of characters.
pub struct DomainEventView {
    pub event_type: DomainEventTypes,
    pub display_text: Seq<char>,
    pub main_table: Tables,
    pub main_id: Option<Id>,
    pub user_id: Option<Id>,
    pub event_data: EventData,
}

impl View for DomainEvent {
    type V = DomainEventView;

    open spec fn view(&self) -> DomainEventView {
        DomainEventView {
            event_type: self.event_type,
            display_text: self.display_text@,
            main_table: self.main_table,
            main_id: self.main_id,
            user_id: self.user_id,
            event_data: self.event_data,
        }
    }
}

impl DomainEvent {
    pub fn create(
        event_type: DomainEventTypes,
        display_text: String,
        main_table: Tables,
        main_id: Option<Id>,
        user_id: Option<Id>,
        event_data: EventData,
    ) -> (r: DomainEvent)
        ensures
            r@ == (DomainEventView {
                event_type,
                display_text: display_text@,
                main_table,
                main_id,
                user_id,
                event_data,
            }),
    {
        DomainEvent { event_type, display_text, main_table, main_id, user_id, event_data }
    }
}

} // verus!
