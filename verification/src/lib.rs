//! Ticket sales: a ledger of versioned prices, carts and orders priced against
//! it, the checkout saga that couples an order to a payment gateway, and the
//! refund ledger.
//!
//! All state lives in a [`database::Database`], an in-memory image of the
//! store's tables. Every operation takes the image, checks what the store's
//! constraints would check, and leaves the image well-formed.

use vstd::prelude::*;

pub mod auth;
pub mod errors;
pub mod ids;
pub mod times;
pub mod utils;
pub mod validators;
pub mod models;
pub mod database;
pub mod controllers;


verus! {

/// Identifier of a row: the 128 bits of a UUID.
pub type Id = u128;

/// A point in time, in microseconds since the Unix epoch. Later is larger.
pub type Timestamp = i64;

} // verus!
