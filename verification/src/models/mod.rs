//! The rows of the store and the operations on them.

pub mod enums;
pub mod names;
pub mod domain_events;
pub mod ticket_types;
pub mod ticket_pricing;
pub mod orders;
pub mod payments;
pub mod refunds;
