//! Booking lifecycle and slot-allocation engine for a newsletter ad
//! marketplace: writers sell a limited number of weekly ad slots to
//! sponsors, payment is collected up front through an external payment
//! provider, and writers are paid out later from published bookings.
//!
//! The library holds the verified core: capacity computation, the slot
//! reservation transaction, the booking state machine, the payment
//! reconciler for provider webhook events, and the payout eligibility
//! engine, together with the input validation and small services the
//! HTTP layer uses. I/O (database, HTTP, SMTP) lives outside; the
//! functions here work on plain values handed in by the caller.

pub mod auth;
pub mod capacity;
pub mod config;
pub mod crypto;
pub mod email;
pub mod errors;
pub mod fees;
pub mod lifecycle;
pub mod listings;
pub mod models;
pub mod pagination;
pub mod payments;
pub mod payouts;
pub mod reconciler;
pub mod reserve;
pub mod responses;
pub mod status;
pub mod storage;
pub mod store;
pub mod text;
pub mod validation;
