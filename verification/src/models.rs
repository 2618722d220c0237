//! The data model: writers, sponsors, users, bookings, blackout dates
//! and payouts, together with the request and response shapes built
//! from them.
//!
//! Identities are plain integers, calendar dates are day numbers, and
//! points in time are timestamps, all supplied by the caller; the
//! engine never reads a clock of its own.

use crate::status::{BookingStatus, PayoutStatus, UserRole};
use vstd::prelude::*;

verus! {

/// A newsletter owner selling ad slots.
///
/// `platform_fee_pct` is fixed-point: hundredths of a percent, so
/// `1000` means `10.00 %`.
pub struct Writer {
    pub id: u64,
    pub user_id: u64,
    pub newsletter_name: String,
    pub newsletter_url: Option<String>,
    pub description: Option<String>,
    pub subscriber_count: Option<i32>,
    pub price_per_slot: i32,
    pub currency: String,
    pub lead_time_days: i32,
    pub slots_per_week: i32,
    pub auto_approve: bool,
    pub platform_fee_pct: u32,
    pub created_at: i64,
    pub updated_at: i64,
}

impl Writer {
    /// The bounds every stored writer satisfies: a positive price and
    /// a fee share of at most one hundred percent.
    pub open spec fn wf(self) -> bool {
        &&& self.price_per_slot >= 1
        &&& self.platform_fee_pct <= 10000
    }
}

/// Input for creating a writer profile.
pub struct CreateWriter {
    pub newsletter_name: String,
    pub newsletter_url: Option<String>,
    pub description: Option<String>,
    pub subscriber_count: Option<i32>,
    pub price_per_slot: i32,
    pub currency: String,
    pub lead_time_days: i32,
    pub slots_per_week: i32,
}

/// Partial update of a writer profile; absent fields keep their value.
pub struct UpdateWriter {
    pub newsletter_name: Option<String>,
    pub newsletter_url: Option<String>,
    pub description: Option<String>,
    pub subscriber_count: Option<i32>,
    pub price_per_slot: Option<i32>,
    pub lead_time_days: Option<i32>,
    pub slots_per_week: Option<i32>,
    pub auto_approve: Option<bool>,
}

/// Aggregate booking counts and revenue for one writer.
pub struct WriterStats {
    pub total_published: i64,
    pub pending_bookings: i64,
    pub total_revenue_cents: i64,
    pub pending_revenue_cents: i64,
}

/// A company buying ad slots.
pub struct Sponsor {
    pub id: u64,
    pub user_id: u64,
    pub company_name: String,
    pub website_url: Option<String>,
    pub logo_url: Option<String>,
    pub billing_email: Option<String>,
    pub created_at: i64,
    pub updated_at: i64,
}

/// Input for creating a sponsor profile.
pub struct CreateSponsor {
    pub company_name: String,
    pub website_url: Option<String>,
    pub logo_url: Option<String>,
    pub billing_email: Option<String>,
}

/// Partial update of a sponsor profile; absent fields keep their value.
pub struct UpdateSponsor {
    pub company_name: Option<String>,
    pub website_url: Option<String>,
    pub logo_url: Option<String>,
    pub billing_email: Option<String>,
}

/// An account; the password is stored only as a hash.
pub struct User {
    pub id: u64,
    pub email: String,
    pub first_name: String,
    pub last_name: String,
    pub password_hash: String,
    pub role: UserRole,
    pub created_at: i64,
    pub updated_at: i64,
    pub last_login_at: Option<i64>,
    pub reset_token: Option<String>,
    pub reset_token_expires: Option<i64>,
}

/// Input for creating an account. The password travels here only until
/// it is hashed; it is never stored.
pub struct CreateUser {
    pub email: String,
    pub first_name: String,
    pub last_name: String,
    pub password: String,
    pub role: UserRole,
}

/// Credentials presented at login.
pub struct LoginCredentials {
    pub email: String,
    pub password: String,
}

/// A signed-in session: the token and the account it belongs to.
pub struct AuthResponse {
    pub token: String,
    pub user: User,
}

/// Asks for a password-reset email.
pub struct ResetPasswordRequest {
    pub email: String,
}

/// Completes a password reset with the token from the email.
pub struct ResetPasswordConfirm {
    pub token: String,
    pub new_password: String,
}

/// One reserved (writer, date) ad slot with its money split and the
/// timestamps of the transitions it has gone through.
pub struct Booking {
    pub id: u64,
    pub writer_id: u64,
    pub sponsor_id: u64,
    pub slot_date: i64,
    pub ad_headline: String,
    pub ad_body: String,
    pub ad_cta_text: Option<String>,
    pub ad_cta_url: String,
    pub ad_image_url: Option<String>,
    pub status: BookingStatus,
    pub amount_cents: i32,
    pub platform_fee_cents: i32,
    pub writer_payout_cents: i32,
    pub currency: String,
    pub lemon_order_id: Option<String>,
    pub created_at: i64,
    pub paid_at: Option<i64>,
    pub approved_at: Option<i64>,
    pub rejected_at: Option<i64>,
    pub published_at: Option<i64>,
}

impl Booking {
    /// The money invariant every booking keeps from creation on: the
    /// platform fee and the writer payout are non-negative and add
    /// back up to the amount.
    pub open spec fn money_conserved(self) -> bool {
        &&& self.platform_fee_cents >= 0
        &&& self.writer_payout_cents >= 0
        &&& self.amount_cents == self.platform_fee_cents + self.writer_payout_cents
    }
}

/// Input for booking a slot.
pub struct CreateBooking {
    pub writer_id: u64,
    pub slot_date: i64,
    pub ad_headline: String,
    pub ad_body: String,
    pub ad_cta_text: Option<String>,
    pub ad_cta_url: String,
    pub ad_image_url: Option<String>,
}

/// A booking joined with the newsletter and sponsor names for display.
pub struct BookingWithDetails {
    pub id: u64,
    pub slot_date: i64,
    pub ad_headline: String,
    pub ad_body: String,
    pub ad_cta_text: Option<String>,
    pub ad_cta_url: String,
    pub ad_image_url: Option<String>,
    pub status: BookingStatus,
    pub amount_cents: i32,
    pub platform_fee_cents: i32,
    pub writer_payout_cents: i32,
    pub currency: String,
    pub created_at: i64,
    pub paid_at: Option<i64>,
    pub approved_at: Option<i64>,
    pub published_at: Option<i64>,
    pub writer_id: u64,
    pub newsletter_name: String,
    pub sponsor_id: u64,
    pub company_name: String,
    pub sponsor_logo_url: Option<String>,
}

/// A writer-declared date with forced zero availability.
pub struct BlackoutDate {
    pub id: u64,
    pub writer_id: u64,
    pub blocked_date: i64,
    pub reason: Option<String>,
    pub created_at: i64,
}

/// Input for declaring a blackout date.
pub struct CreateBlackoutDate {
    pub blocked_date: i64,
    pub reason: Option<String>,
}

/// One candidate slot date and how many slots are still free on it.
pub struct AvailableSlot {
    pub available_date: i64,
    pub slots_remaining: i32,
}

/// A writer's availability as shown to sponsors.
pub struct WriterAvailability {
    pub writer_id: u64,
    pub newsletter_name: String,
    pub price_per_slot: i32,
    pub currency: String,
    pub available_slots: Vec<AvailableSlot>,
}

/// A batch of published bookings paid out to a writer together. The
/// snapshot of booking ids is taken when the payout is created and
/// never changes afterwards.
pub struct Payout {
    pub id: u64,
    pub writer_id: u64,
    pub amount_cents: i32,
    pub currency: String,
    pub status: PayoutStatus,
    pub lemon_payout_id: Option<String>,
    pub booking_ids: Vec<u64>,
    pub created_at: i64,
    pub paid_at: Option<i64>,
    pub failed_at: Option<i64>,
    pub failure_reason: Option<String>,
}

impl Payout {
    /// Whether this payout's status claims its bookings against
    /// further payouts.
    pub open spec fn claims_bookings(self) -> bool {
        self.status == PayoutStatus::Processing || self.status == PayoutStatus::Paid
    }
}

/// Asks for a payout of either all eligible bookings or a chosen
/// subset of them.
pub struct RequestPayout {
    pub booking_ids: Option<Vec<u64>>,
}

/// Money a writer can draw now, money still pending, and money already
/// paid out.
pub struct PayoutSummary {
    pub available_amount_cents: i64,
    pub pending_amount_cents: i64,
    pub total_paid_cents: i64,
    pub eligible_booking_count: i64,
}

/// Filters applied when listing bookings.
pub struct BookingFilters {
    pub status: Option<BookingStatus>,
    pub from_date: Option<i64>,
    pub to_date: Option<i64>,
}

/// One page of a booking listing and the total count behind it.
pub struct PaginatedBookings {
    pub bookings: Vec<BookingWithDetails>,
    pub total: i64,
}

/// A revoked session token, kept until it would have expired anyway.
pub struct BlacklistedToken {
    pub token_hash: String,
    pub user_id: u64,
    pub expires_at: i64,
}

} // verus!
