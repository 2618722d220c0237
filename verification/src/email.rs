//! The data each notification email is rendered from. Rendering and
//! sending are the caller's; the engine only assembles these records
//! after a transition.

use vstd::prelude::*;

verus! {

/// A sponsor's booking was paid and awaits review.
pub struct BookingConfirmationData {
    pub newsletter_name: String,
    pub slot_date: String,
    pub amount_cents: i32,
    pub currency: String,
    pub ad_headline: String,
    pub ad_body: String,
    pub ad_cta_text: Option<String>,
    pub ad_cta_url: String,
    pub dashboard_url: String,
}

/// A writer has a new paid booking to review.
pub struct NewBookingNotificationData {
    pub sponsor_name: String,
    pub company_website: Option<String>,
    pub slot_date: String,
    pub writer_payout_cents: i32,
    pub ad_headline: String,
    pub ad_body: String,
    pub ad_cta_text: Option<String>,
    pub ad_cta_url: String,
    pub dashboard_url: String,
}

/// A booking changed status.
pub struct BookingStatusData {
    pub newsletter_name: String,
    pub slot_date: String,
    pub dashboard_url: String,
}

/// A booking was rejected or refunded, with the reason if one was
/// given.
pub struct BookingRejectedData {
    pub newsletter_name: String,
    pub slot_date: String,
    pub amount_cents: i32,
    pub currency: String,
    pub reason: Option<String>,
}

/// A booking's ad went out.
pub struct BookingPublishedData {
    pub newsletter_name: String,
    pub slot_date: String,
    pub subscriber_count: Option<i32>,
    pub ad_headline: String,
    pub ad_body: String,
    pub ad_cta_text: Option<String>,
    pub ad_cta_url: String,
    pub dashboard_url: String,
}

/// A payout was requested.
pub struct PayoutNotificationData {
    pub amount_cents: i32,
    pub currency: String,
    pub booking_count: usize,
    pub dashboard_url: String,
}

/// A password reset was requested.
pub struct PasswordResetData {
    pub reset_url: String,
}

/// An account was created.
pub struct WelcomeData {
    pub name: String,
    pub is_writer: bool,
    pub dashboard_url: String,
}

} // verus!
