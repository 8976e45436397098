//! What a request asks of the models.

pub mod cart;
pub mod checkout;
pub mod settlements;
