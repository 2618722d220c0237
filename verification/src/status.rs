//! Status enums and the booking state machine's transition relation.
//!
//! A booking starts in `PendingPayment`, moves to `Paid` when the
//! payment provider confirms payment, is then either approved or
//! rejected by the writer, an approved booking can be published or
//! rejected, and a paid or approved booking can be refunded by a
//! provider refund event. `Rejected`, `Published`, `Refunded` and
//! `Cancelled` are terminal.

use crate::text::{lower_of, str_eq, to_lowercase};
use vstd::prelude::*;

verus! {

/// Lifecycle state of a booking. Wire values are the snake_case names:
/// `pending_payment`, `paid`, `approved`, `rejected`, `published`,
/// `cancelled`, `refunded`.
#[derive(Debug, Clone, Copy, PartialEq, Eq, Structural)]
pub enum BookingStatus {
    PendingPayment,
    Paid,
    Approved,
    Rejected,
    Published,
    Cancelled,
    Refunded,
}

/// Lifecycle state of a payout batch: `Pending` or `Processing`, then
/// `Paid` or `Failed`.
#[derive(Debug, Clone, Copy, PartialEq, Eq, Structural)]
pub enum PayoutStatus {
    Pending,
    Processing,
    Paid,
    Failed,
}

/// Closed set of roles a user can act under.
#[derive(Debug, Clone, Copy, PartialEq, Eq, Structural)]
pub enum UserRole {
    Writer,
    Sponsor,
    Admin,
}

/// Sort orders offered when listing bookings.
#[derive(Debug, Clone, Copy, PartialEq, Eq, Structural, Default)]
pub enum BookingSortBy {
    #[default]
    SlotDateDesc,
    SlotDateAsc,
    CreatedAtDesc,
    CreatedAtAsc,
    AmountDesc,
    AmountAsc,
}

/// The transitions the booking state machine allows, regardless of who
/// triggers them.
pub open spec fn can_transition(from: BookingStatus, to: BookingStatus) -> bool {
    match (from, to) {
        (BookingStatus::PendingPayment, BookingStatus::Paid) => true,
        (BookingStatus::Paid, BookingStatus::Approved) => true,
        (BookingStatus::Paid, BookingStatus::Rejected) => true,
        (BookingStatus::Paid, BookingStatus::Refunded) => true,
        (BookingStatus::Approved, BookingStatus::Published) => true,
        (BookingStatus::Approved, BookingStatus::Rejected) => true,
        (BookingStatus::Approved, BookingStatus::Refunded) => true,
        _ => false,
    }
}

/// A booking in one of these states occupies a slot; rejected,
/// cancelled and refunded bookings release it.
pub open spec fn counts_toward_capacity(status: BookingStatus) -> bool {
    match status {
        BookingStatus::Rejected => false,
        BookingStatus::Cancelled => false,
        BookingStatus::Refunded => false,
        _ => true,
    }
}

/// States the machine never leaves.
pub open spec fn is_terminal(status: BookingStatus) -> bool {
    match status {
        BookingStatus::Rejected => true,
        BookingStatus::Published => true,
        BookingStatus::Cancelled => true,
        BookingStatus::Refunded => true,
        _ => false,
    }
}

/// Terminal states allow no further transition.
pub proof fn lemma_terminal_states_are_final(from: BookingStatus, to: BookingStatus)
    ensures
        is_terminal(from) ==> !can_transition(from, to),
{
}

/// Runtime check of the transition relation.
pub fn transition_allowed(from: BookingStatus, to: BookingStatus) -> (r: bool)
    ensures
        r == can_transition(from, to),
{
    match (from, to) {
        (BookingStatus::PendingPayment, BookingStatus::Paid) => true,
        (BookingStatus::Paid, BookingStatus::Approved) => true,
        (BookingStatus::Paid, BookingStatus::Rejected) => true,
        (BookingStatus::Paid, BookingStatus::Refunded) => true,
        (BookingStatus::Approved, BookingStatus::Published) => true,
        (BookingStatus::Approved, BookingStatus::Rejected) => true,
        (BookingStatus::Approved, BookingStatus::Refunded) => true,
        _ => false,
    }
}

/// The booking status a lowercased wire value names, if any.
pub open spec fn booking_status_of_wire(s: Seq<char>) -> Option<BookingStatus> {
    if s == "pending_payment"@ {
        Some(BookingStatus::PendingPayment)
    } else if s == "paid"@ {
        Some(BookingStatus::Paid)
    } else if s == "approved"@ {
        Some(BookingStatus::Approved)
    } else if s == "rejected"@ {
        Some(BookingStatus::Rejected)
    } else if s == "published"@ {
        Some(BookingStatus::Published)
    } else if s == "cancelled"@ {
        Some(BookingStatus::Cancelled)
    } else if s == "refunded"@ {
        Some(BookingStatus::Refunded)
    } else {
        None
    }
}

/// Parses a booking status from its wire value, case-insensitively.
pub fn parse_booking_status(s: &str) -> (r: Option<BookingStatus>)
    ensures
        r == booking_status_of_wire(lower_of(s@)),
{
    let lower = to_lowercase(s);
    let l = lower.as_str();
    if str_eq(l, "pending_payment") {
        Some(BookingStatus::PendingPayment)
    } else if str_eq(l, "paid") {
        Some(BookingStatus::Paid)
    } else if str_eq(l, "approved") {
        Some(BookingStatus::Approved)
    } else if str_eq(l, "rejected") {
        Some(BookingStatus::Rejected)
    } else if str_eq(l, "published") {
        Some(BookingStatus::Published)
    } else if str_eq(l, "cancelled") {
        Some(BookingStatus::Cancelled)
    } else if str_eq(l, "refunded") {
        Some(BookingStatus::Refunded)
    } else {
        None
    }
}

/// The sort order a wire value names, defaulting to newest slot date
/// first.
pub open spec fn booking_sort_by_of_wire(s: Seq<char>) -> BookingSortBy {
    if s == "slot_date_asc"@ {
        BookingSortBy::SlotDateAsc
    } else if s == "slot_date_desc"@ {
        BookingSortBy::SlotDateDesc
    } else if s == "created_at_asc"@ {
        BookingSortBy::CreatedAtAsc
    } else if s == "created_at_desc"@ {
        BookingSortBy::CreatedAtDesc
    } else if s == "amount_asc"@ {
        BookingSortBy::AmountAsc
    } else if s == "amount_desc"@ {
        BookingSortBy::AmountDesc
    } else {
        BookingSortBy::SlotDateDesc
    }
}

/// Parses a sort order from its wire value; unknown values fall back
/// to the default.
pub fn parse_booking_sort_by(s: &str) -> (r: BookingSortBy)
    ensures
        r == booking_sort_by_of_wire(s@),
{
    if str_eq(s, "slot_date_asc") {
        BookingSortBy::SlotDateAsc
    } else if str_eq(s, "slot_date_desc") {
        BookingSortBy::SlotDateDesc
    } else if str_eq(s, "created_at_asc") {
        BookingSortBy::CreatedAtAsc
    } else if str_eq(s, "created_at_desc") {
        BookingSortBy::CreatedAtDesc
    } else if str_eq(s, "amount_asc") {
        BookingSortBy::AmountAsc
    } else if str_eq(s, "amount_desc") {
        BookingSortBy::AmountDesc
    } else {
        BookingSortBy::SlotDateDesc
    }
}

} // verus!
