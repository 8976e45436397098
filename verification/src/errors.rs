//! The error taxonomy shared by the models and the controllers.

use vstd::prelude::*;
use crate::Id;
use crate::Timestamp;

verus! {

/// Machine-readable reason of a validation failure.
#[derive(Clone, Copy, Debug, PartialEq, Eq, Structural)]
pub enum ValidationCode {
    /// A validity window that does not start before it ends.
    StartDateMustBeBeforeEndDate,
    /// A negative number where none is allowed.
    NumberMustBePositive,
    /// A pricing window that starts before its ticket type does.
    OverlappingTicketTypeStartDate,
    /// A pricing window that ends after its ticket type does.
    OverlappingTicketTypeEndDate,
    /// A pricing window that overlaps another active one of the same ticket type.
    OverlappingPeriods,
    /// A quantity of tickets that is not positive.
    QuantityMustBePositive,
}

/// The field a validation failure is filed under.
#[derive(Clone, Copy, Debug, PartialEq, Eq, Structural)]
pub enum Field {
    TicketPricing,
    TicketPricingStartDate,
    TicketPricingEndDate,
    TicketPricingPriceInCents,
    Quantity,
}

/// The values a validation failure reports back, each present or absent.
#[derive(Clone, Copy, Debug, PartialEq, Eq)]
pub struct ValidationParams {
    pub ticket_pricing_id: Option<Id>,
    pub ticket_type_id: Option<Id>,
    pub start_date: Option<Timestamp>,
    pub end_date: Option<Timestamp>,
}

/// One failed check: its reason and the values it concerns.
#[derive(Clone, Copy, Debug, PartialEq, Eq)]
pub struct ValidationError {
    pub code: ValidationCode,
    pub params: ValidationParams,
}

/// A failed check together with the field it is reported on.
#[derive(Clone, Copy, Debug, PartialEq, Eq)]
pub struct FieldError {
    pub field: Field,
    pub error: ValidationError,
}

/// Why the payment gateway did not do what was asked.
#[derive(Clone, Copy, Debug, PartialEq, Eq, Structural)]
pub enum GatewayError {
    /// The gateway answered and refused.
    Declined,
    /// No usable answer: network failure or timeout.
    Transient,
}

/// Every way an operation of this library fails.
#[derive(Debug, PartialEq, Eq)]
pub enum BigNeonError {
    /// Field-scoped and recoverable: the failed checks, in the order they were made.
    Validation(Vec<FieldError>),
    /// The order or payment is not in the lifecycle state the operation needs.
    StateConflict,
    /// No row with the given identity.
    NotFound,
    /// The caller may not do this.
    Forbidden,
    /// The caller may not see this.
    Unauthorized,
    /// The gateway call failed.
    Gateway(GatewayError),
    /// More than one price applies at once: the ledger is inconsistent.
    AmbiguousPricing,
    /// A row with this identity exists already.
    DuplicateKey,
    /// A sum or a quantity left the 64-bit range.
    NumericOverflow,
    /// Less capacity is left than was asked for.
    InventoryUnavailable,
    /// The order holds no such item.
    ItemNotFound,
    /// The store did not take a write.
    StoreFailure,
}

/// What a [`BigNeonError`] is in specifications: the same, with the list of failures as a sequence.
pub enum ErrorView {
    Validation(Seq<FieldError>),
    StateConflict,
    NotFound,
    Forbidden,
    Unauthorized,
    Gateway(GatewayError),
    AmbiguousPricing,
    DuplicateKey,
    NumericOverflow,
    InventoryUnavailable,
    ItemNotFound,
    StoreFailure,
}

impl View for BigNeonError {
    type V = ErrorView;

    open spec fn view(&self) -> ErrorView {
        match *self {
            BigNeonError::Validation(v) => ErrorView::Validation(v@),
            BigNeonError::StateConflict => ErrorView::StateConflict,
            BigNeonError::NotFound => ErrorView::NotFound,
            BigNeonError::Forbidden => ErrorView::Forbidden,
            BigNeonError::Unauthorized => ErrorView::Unauthorized,
            BigNeonError::Gateway(g) => ErrorView::Gateway(g),
            BigNeonError::AmbiguousPricing => ErrorView::AmbiguousPricing,
            BigNeonError::DuplicateKey => ErrorView::DuplicateKey,
            BigNeonError::NumericOverflow => ErrorView::NumericOverflow,
            BigNeonError::InventoryUnavailable => ErrorView::InventoryUnavailable,
            BigNeonError::ItemNotFound => ErrorView::ItemNotFound,
            BigNeonError::StoreFailure => ErrorView::StoreFailure,
        }
    }
}

impl ValidationParams {
    /// No value reported.
    pub open spec fn spec_none() -> Self {
        ValidationParams { ticket_pricing_id: None, ticket_type_id: None, start_date: None, end_date: None }
    }

    #[verifier::when_used_as_spec(spec_none)]
    pub fn none() -> (r: Self)
        ensures
            r == Self::spec_none(),
    {
        ValidationParams { ticket_pricing_id: None, ticket_type_id: None, start_date: None, end_date: None }
    }
}

impl ValidationCode {
    /// The reason as the text that clients match on.
    pub open spec fn spec_code(self) -> Seq<char> {
        match self {
            ValidationCode::StartDateMustBeBeforeEndDate => "start_date_must_be_before_end_date"@,
            ValidationCode::NumberMustBePositive => "number_must_be_positive"@,
            ValidationCode::OverlappingTicketTypeStartDate => "ticket_pricing_overlapping_ticket_type_start_date"@,
            ValidationCode::OverlappingTicketTypeEndDate => "ticket_pricing_overlapping_ticket_type_end_date"@,
            ValidationCode::OverlappingPeriods => "ticket_pricing_overlapping_periods"@,
            ValidationCode::QuantityMustBePositive => "quantity_must_be_positive"@,
        }
    }

    /// The reason in words, for people.
    pub open spec fn spec_message(self) -> Seq<char> {
        match self {
            ValidationCode::StartDateMustBeBeforeEndDate => "start_date must precede end_date"@,
            ValidationCode::NumberMustBePositive => "Ticket price must be positive"@,
            ValidationCode::OverlappingTicketTypeStartDate => "Ticket pricing dates overlap ticket type start date"@,
            ValidationCode::OverlappingTicketTypeEndDate => "Ticket pricing dates overlap ticket type end date"@,
            ValidationCode::OverlappingPeriods => "Ticket pricing dates overlap another ticket pricing period"@,
            ValidationCode::QuantityMustBePositive => "Quantity must be positive"@,
        }
    }

    pub fn code(&self) -> (r: &'static str)
        ensures
            r@ == self.spec_code(),
    {
        match self {
            ValidationCode::StartDateMustBeBeforeEndDate => "start_date_must_be_before_end_date",
            ValidationCode::NumberMustBePositive => "number_must_be_positive",
            ValidationCode::OverlappingTicketTypeStartDate => "ticket_pricing_overlapping_ticket_type_start_date",
            ValidationCode::OverlappingTicketTypeEndDate => "ticket_pricing_overlapping_ticket_type_end_date",
            ValidationCode::OverlappingPeriods => "ticket_pricing_overlapping_periods",
            ValidationCode::QuantityMustBePositive => "quantity_must_be_positive",
        }
    }

    pub fn message(&self) -> (r: &'static str)
        ensures
            r@ == self.spec_message(),
    {
        match self {
            ValidationCode::StartDateMustBeBeforeEndDate => "start_date must precede end_date",
            ValidationCode::NumberMustBePositive => "Ticket price must be positive",
            ValidationCode::OverlappingTicketTypeStartDate => "Ticket pricing dates overlap ticket type start date",
            ValidationCode::OverlappingTicketTypeEndDate => "Ticket pricing dates overlap ticket type end date",
            ValidationCode::OverlappingPeriods => "Ticket pricing dates overlap another ticket pricing period",
            ValidationCode::QuantityMustBePositive => "Quantity must be positive",
        }
    }
}

impl Field {
    /// The field's path as clients see it.
    pub open spec fn spec_path(self) -> Seq<char> {
        match self {
            Field::TicketPricing => "ticket_pricing"@,
            Field::TicketPricingStartDate => "ticket_pricing.start_date"@,
            Field::TicketPricingEndDate => "ticket_pricing.end_date"@,
            Field::TicketPricingPriceInCents => "ticket_pricing.price_in_cents"@,
            Field::Quantity => "quantity"@,
        }
    }

    pub fn path(&self) -> (r: &'static str)
        ensures
            r@ == self.spec_path(),
    {
        match self {
            Field::TicketPricing => "ticket_pricing",
            Field::TicketPricingStartDate => "ticket_pricing.start_date",
            Field::TicketPricingEndDate => "ticket_pricing.end_date",
            Field::TicketPricingPriceInCents => "ticket_pricing.price_in_cents",
            Field::Quantity => "quantity",
        }
    }
}

impl ErrorView {
    /// The error that this is the view of, for every error but a list of
    /// validation failures.
    pub open spec fn plain(self) -> BigNeonError {
        match self {
            ErrorView::Validation(_) => BigNeonError::StoreFailure,
            ErrorView::StateConflict => BigNeonError::StateConflict,
            ErrorView::NotFound => BigNeonError::NotFound,
            ErrorView::Forbidden => BigNeonError::Forbidden,
            ErrorView::Unauthorized => BigNeonError::Unauthorized,
            ErrorView::Gateway(g) => BigNeonError::Gateway(g),
            ErrorView::AmbiguousPricing => BigNeonError::AmbiguousPricing,
            ErrorView::DuplicateKey => BigNeonError::DuplicateKey,
            ErrorView::NumericOverflow => BigNeonError::NumericOverflow,
            ErrorView::InventoryUnavailable => BigNeonError::InventoryUnavailable,
            ErrorView::ItemNotFound => BigNeonError::ItemNotFound,
            ErrorView::StoreFailure => BigNeonError::StoreFailure,
        }
    }
}

/// An error that is no list of validation failures is determined by its view.
pub proof fn lemma_plain_error(e: BigNeonError)
    requires
        !(e is Validation),
    ensures
        e == e@.plain(),
{
}

} // verus!
