//! The closed sets of states and kinds that rows carry.

use vstd::prelude::*;

verus! {

/// Lifecycle of a pricing entry. `Published` and `Default` are the active states.
#[derive(Clone, Copy, Debug, PartialEq, Eq, Structural)]
pub enum TicketPricingStatus {
    Published,
    Default,
    Deleted,
}

impl TicketPricingStatus {
    /// Whether an entry in this state takes part in pricing.
    pub open spec fn spec_is_active(self) -> bool {
        self != TicketPricingStatus::Deleted
    }

    #[verifier::when_used_as_spec(spec_is_active)]
    pub fn is_active(self) -> (r: bool)
        ensures
            r == self.spec_is_active(),
    {
        match self {
            TicketPricingStatus::Deleted => false,
            _ => true,
        }
    }
}

#[derive(Clone, Copy, Debug, PartialEq, Eq, Structural)]
pub enum TicketTypeStatus {
    NoActiveTickets,
    Published,
    SoldOut,
}

/// Lifecycle of an order. A cart is an order in `Draft`.
#[derive(Clone, Copy, Debug, PartialEq, Eq, Structural)]
pub enum OrderStatus {
    Draft,
    Paid,
    Cancelled,
}

#[derive(Clone, Copy, Debug, PartialEq, Eq, Structural)]
pub enum OrderTypes {
    Cart,
    BackOffice,
}

#[derive(Clone, Copy, Debug, PartialEq, Eq, Structural)]
pub enum PaymentStatus {
    Authorized,
    Completed,
    Refunded,
    Failed,
}

impl PaymentStatus {
    /// Whether a payment in this state holds or has taken the buyer's money.
    pub open spec fn spec_is_live(self) -> bool {
        self == PaymentStatus::Authorized || self == PaymentStatus::Completed
    }

    #[verifier::when_used_as_spec(spec_is_live)]
    pub fn is_live(self) -> (r: bool)
        ensures
            r == self.spec_is_live(),
    {
        match self {
            PaymentStatus::Authorized => true,
            PaymentStatus::Completed => true,
            _ => false,
        }
    }
}

/// The two classes of payment: recorded by reference, or charged through the card gateway.
#[derive(Clone, Copy, Debug, PartialEq, Eq, Structural)]
pub enum PaymentMethods {
    External,
    CreditCard,
}

/// Who moved the money.
#[derive(Clone, Copy, Debug, PartialEq, Eq, Structural)]
pub enum PaymentProviders {
    External,
    Stripe,
}

/// The tables that audit events point into.
#[derive(Clone, Copy, Debug, PartialEq, Eq, Structural)]
pub enum Tables {
    Orders,
    Payments,
    TicketPricing,
}

#[derive(Clone, Copy, Debug, PartialEq, Eq, Structural)]
pub enum DomainEventTypes {
    OrderCompleted,
    PaymentCreated,
    PaymentCompleted,
    TicketPricingCreated,
    TicketPricingUpdated,
    TicketPricingDeleted,
    TicketPricingSalesStarted,
}

} // verus!
