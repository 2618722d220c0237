//! The payment reconciler: turns provider webhook events into booking
//! state-machine transitions, idempotently.
//!
//! The provider delivers events at least once and may duplicate them.
//! An `order_created` event is guarded on the booking still being in
//! `PendingPayment`: a replay finds it already paid and changes
//! nothing. An `order_refunded` event refunds a paid or approved
//! booking and ignores every other state, which also covers replays
//! and late refunds of published bookings. The caller verifies the
//! webhook signature and parses the event before calling in; side
//! effects such as notifications follow the transition outside and
//! never roll it back.

use crate::errors::AppError;
use crate::lifecycle::{lemma_spec_booking_unique, stamped};
use crate::models::Booking;
use crate::status::BookingStatus;
use crate::store::Store;
use crate::text::str_eq;
use vstd::prelude::*;

verus! {

/// What handling an `order_created` event did.
pub enum OrderCreatedOutcome {
    /// The booking was no longer in `PendingPayment`: a duplicate
    /// delivery, acknowledged with no change.
    AlreadyProcessed,
    /// The booking moved to `Paid`, and on to `Approved` when the
    /// writer auto-approves.
    MarkedPaid { auto_approved: bool },
}

/// What handling an `order_refunded` event did.
pub enum RefundOutcome {
    /// A paid or approved booking moved to `Refunded`.
    Refunded,
    /// The booking was in some other state: a duplicate or a late
    /// event, acknowledged with no change.
    Ignored,
}

/// The booking with the provider's order reference recorded.
pub open spec fn with_order(b: Booking, order_id: String) -> Booking {
    Booking { lemon_order_id: Some(order_id), ..b }
}

/// The booking after a confirmed payment: the order reference
/// recorded, `Paid` stamped, and `Approved` stamped on top when the
/// writer auto-approves.
pub open spec fn order_created_record(
    b: Booking,
    order_id: String,
    now: i64,
    auto_approved: bool,
) -> Booking {
    if auto_approved {
        stamped(stamped(with_order(b, order_id), BookingStatus::Paid, now), BookingStatus::Approved, now)
    } else {
        stamped(with_order(b, order_id), BookingStatus::Paid, now)
    }
}

/// How one `order_created` event relates a pre-state to a post-state.
/// An unknown booking is an error and changes nothing; a booking past
/// `PendingPayment` is a duplicate and changes nothing; a booking in
/// `PendingPayment` gets the order reference and moves to `Paid`, and
/// on to `Approved` exactly when its writer exists and auto-approves.
pub open spec fn order_created_post(
    pre: Store,
    post: Store,
    booking_id: u64,
    order_id: String,
    now: i64,
    r: Result<OrderCreatedOutcome, AppError>,
) -> bool {
    match r {
        Ok(OrderCreatedOutcome::AlreadyProcessed) => {
            &&& pre.has_booking(booking_id)
            &&& pre.spec_booking(booking_id).status != BookingStatus::PendingPayment
            &&& post.unchanged_from(pre)
        },
        Ok(OrderCreatedOutcome::MarkedPaid { auto_approved }) => {
            &&& pre.has_booking(booking_id)
            &&& pre.spec_booking(booking_id).status == BookingStatus::PendingPayment
            &&& auto_approved == (pre.has_writer(pre.spec_booking(booking_id).writer_id)
                && pre.spec_writer(pre.spec_booking(booking_id).writer_id).auto_approve)
            &&& exists|i: int|
                0 <= i < pre.bookings@.len() && (#[trigger] pre.bookings@[i]).id == booking_id
                    && post.booking_updated(
                    pre,
                    i,
                    order_created_record(pre.bookings@[i], order_id, now, auto_approved),
                )
        },
        Err(AppError::NotFound(m)) => {
            &&& !pre.has_booking(booking_id)
            &&& post.unchanged_from(pre)
            &&& m@ == "Booking not found"@
        },
        Err(_) => false,
    }
}

/// A booking carries this provider order reference.
pub open spec fn booking_matches_order(b: Booking, order_id: Seq<char>) -> bool {
    b.lemon_order_id matches Some(o) && o@ == order_id
}

/// How one `order_refunded` event relates a pre-state to a
/// post-state. No booking under the order reference is an error and
/// changes nothing; a matching booking in `Paid` or `Approved` moves
/// to `Refunded`; a matching booking in any other state — already
/// refunded, rejected, published, or not yet paid — is left exactly
/// as it is.
pub open spec fn order_refunded_post(
    pre: Store,
    post: Store,
    order_id: Seq<char>,
    now: i64,
    r: Result<RefundOutcome, AppError>,
) -> bool {
    match r {
        Ok(RefundOutcome::Refunded) => exists|i: int|
            0 <= i < pre.bookings@.len() && booking_matches_order(
                #[trigger] pre.bookings@[i],
                order_id,
            ) && (pre.bookings@[i].status == BookingStatus::Paid || pre.bookings@[i].status
                == BookingStatus::Approved) && post.booking_updated(
                pre,
                i,
                stamped(pre.bookings@[i], BookingStatus::Refunded, now),
            ),
        Ok(RefundOutcome::Ignored) => {
            &&& exists|i: int|
                0 <= i < pre.bookings@.len() && booking_matches_order(
                    #[trigger] pre.bookings@[i],
                    order_id,
                ) && pre.bookings@[i].status != BookingStatus::Paid && pre.bookings@[i].status
                    != BookingStatus::Approved
            &&& post.unchanged_from(pre)
        },
        Err(AppError::NotFound(_)) => {
            &&& forall|i: int|
                0 <= i < pre.bookings@.len() ==> !booking_matches_order(
                    #[trigger] pre.bookings@[i],
                    order_id,
                )
            &&& post.unchanged_from(pre)
        },
        Err(_) => false,
    }
}

impl Store {
    /// Handles a confirmed payment: resolves the booking named in the
    /// event's custom data, treats anything past `PendingPayment` as
    /// an already-processed duplicate, and otherwise records the order
    /// reference, marks the booking `Paid`, and auto-approves it when
    /// the writer asks for that.
    pub fn handle_order_created(&mut self, booking_id: u64, order_id: String, now: i64) -> (r:
        Result<OrderCreatedOutcome, AppError>)
        requires
            old(self).wf(),
        ensures
            final(self).wf(),
            order_created_post(*old(self), *final(self), booking_id, order_id, now, r),
    {
        let idx = match self.find_booking_index(booking_id) {
            Some(i) => i,
            None => {
                return Err(AppError::NotFound("Booking not found".to_owned()));
            },
        };
        proof {
            lemma_spec_booking_unique(*self, idx as int, booking_id);
        }
        let pending = match self.bookings[idx].status {
            BookingStatus::PendingPayment => true,
            _ => false,
        };
        if !pending {
            return Ok(OrderCreatedOutcome::AlreadyProcessed);
        }
        let writer_id = self.bookings[idx].writer_id;
        let auto_approved = match self.get_writer_by_id(writer_id) {
            Some(w) => {
                proof {
                    let i = choose|i: int|
                        0 <= i < self.writers@.len() && self.writers@[i] == *w;
                    crate::capacity::lemma_spec_writer_unique(*self, i, writer_id);
                }
                w.auto_approve
            },
            None => false,
        };
        let ghost obs = self.bookings@;
        let ghost goid = order_id;
        let b = &mut self.bookings[idx];
        b.lemon_order_id = Some(order_id);
        b.paid_at = Some(now);
        if auto_approved {
            b.status = BookingStatus::Approved;
            b.approved_at = Some(now);
        } else {
            b.status = BookingStatus::Paid;
        }
        proof {
            let bs = self.bookings@;
            assert(bs == obs.update(
                idx as int,
                order_created_record(obs[idx as int], goid, now, auto_approved),
            ));
            assert forall|a: int| 0 <= a < bs.len() implies (#[trigger] bs[a]).id == obs[a].id && (
            #[trigger] bs[a]).money_conserved() by {
                assert(obs[a].money_conserved());
                if a != idx as int {
                    assert(bs[a] == obs[a]);
                }
            }
        }
        Ok(OrderCreatedOutcome::MarkedPaid { auto_approved })
    }

    /// Handles a provider refund: resolves the booking by its order
    /// reference, refunds it when it is `Paid` or `Approved`, and
    /// leaves it untouched in every other state — which makes
    /// duplicate refund events, and refund events for rejected,
    /// already refunded or published bookings, harmless.
    pub fn handle_order_refunded(&mut self, order_id: &str, now: i64) -> (r: Result<
        RefundOutcome,
        AppError,
    >)
        requires
            old(self).wf(),
        ensures
            final(self).wf(),
            order_refunded_post(*old(self), *final(self), order_id@, now, r),
            r matches Err(AppError::NotFound(m)) ==> m@ == "Booking not found for order"@,
    {
        let mut i: usize = 0;
        let n = self.bookings.len();
        while i < n
            invariant
                i <= n,
                n == self.bookings@.len(),
                self == old(self),
                old(self).wf(),
                forall|j: int|
                    0 <= j < i ==> !booking_matches_order(#[trigger] self.bookings@[j], order_id@),
            decreases n - i,
        {
            let matched = match &self.bookings[i].lemon_order_id {
                Some(o) => str_eq(o.as_str(), order_id),
                None => false,
            };
            if matched {
                let refundable = match self.bookings[i].status {
                    BookingStatus::Paid => true,
                    BookingStatus::Approved => true,
                    _ => false,
                };
                if !refundable {
                    return Ok(RefundOutcome::Ignored);
                }
                let ghost obs = self.bookings@;
                let b = &mut self.bookings[i];
                b.status = BookingStatus::Refunded;
                proof {
                    let bs = self.bookings@;
                    assert(bs == obs.update(
                        i as int,
                        stamped(obs[i as int], BookingStatus::Refunded, now),
                    ));
                    assert forall|a: int| 0 <= a < bs.len() implies (#[trigger] bs[a]).id
                        == obs[a].id && (#[trigger] bs[a]).money_conserved() by {
                        assert(obs[a].money_conserved());
                        if a != i as int {
                            assert(bs[a] == obs[a]);
                        }
                    }
                }
                return Ok(RefundOutcome::Refunded);
            }
            i += 1;
        }
        Err(AppError::NotFound("Booking not found for order".to_owned()))
    }
}

/// The replay law for `order_created`. If handling an event moved a
/// booking to `Paid` (and possibly `Approved`), handling the identical
/// event again finds it past `PendingPayment`, reports it as already
/// processed, and changes nothing: exactly one `Paid` transition and
/// at most one auto-approval ever happen for the event.
pub proof fn lemma_order_created_replay(
    s0: Store,
    s1: Store,
    s2: Store,
    booking_id: u64,
    order_id1: String,
    order_id2: String,
    now1: i64,
    now2: i64,
    r1: Result<OrderCreatedOutcome, AppError>,
    r2: Result<OrderCreatedOutcome, AppError>,
)
    requires
        crate::store::booking_ids_unique(s0.bookings@),
        order_created_post(s0, s1, booking_id, order_id1, now1, r1),
        r1 matches Ok(OrderCreatedOutcome::MarkedPaid { .. }),
        order_created_post(s1, s2, booking_id, order_id2, now2, r2),
    ensures
        r2 == Ok::<OrderCreatedOutcome, AppError>(OrderCreatedOutcome::AlreadyProcessed),
        s2.unchanged_from(s1),
{
    let i = choose|i: int|
        0 <= i < s0.bookings@.len() && (#[trigger] s0.bookings@[i]).id == booking_id
            && s1.booking_updated(
            s0,
            i,
            order_created_record(s0.bookings@[i], order_id1, now1, r1->Ok_0->MarkedPaid_auto_approved),
        );
    let rec = order_created_record(s0.bookings@[i], order_id1, now1, r1->Ok_0->MarkedPaid_auto_approved);
    assert(s1.bookings@ == s0.bookings@.update(i, rec));
    assert forall|a: int| 0 <= a < s1.bookings@.len() implies (#[trigger] s1.bookings@[a]).id
        == s0.bookings@[a].id by {
        if a != i {
            assert(s1.bookings@[a] == s0.bookings@[a]);
        }
    }
    lemma_spec_booking_unique(s1, i, booking_id);
    assert(s1.spec_booking(booking_id) == rec);
    assert(rec.status != BookingStatus::PendingPayment);
    assert(s1.has_booking(booking_id));
    match r2 {
        Ok(OrderCreatedOutcome::AlreadyProcessed) => {
        },
        Ok(OrderCreatedOutcome::MarkedPaid { .. }) => {
            assert(false);
        },
        Err(_) => {
            assert(false);
        },
    }
}

/// The no-op law for `order_refunded`. When every booking under the
/// order reference is already `Refunded`, `Rejected` or `Published` —
/// or in any state other than `Paid` or `Approved` — handling the
/// event changes nothing.
pub proof fn lemma_order_refunded_noop(
    s0: Store,
    s1: Store,
    order_id: Seq<char>,
    now: i64,
    r: Result<RefundOutcome, AppError>,
)
    requires
        order_refunded_post(s0, s1, order_id, now, r),
        forall|i: int|
            0 <= i < s0.bookings@.len() && booking_matches_order(
                #[trigger] s0.bookings@[i],
                order_id,
            ) ==> s0.bookings@[i].status != BookingStatus::Paid && s0.bookings@[i].status
                != BookingStatus::Approved,
    ensures
        s1.unchanged_from(s0),
{
}

/// The exactly-once law for `order_refunded`. If the order reference
/// resolves to a single booking and handling the event refunded it,
/// handling the identical event again finds it already `Refunded` and
/// changes nothing.
pub proof fn lemma_order_refunded_replay(
    s0: Store,
    s1: Store,
    s2: Store,
    order_id: Seq<char>,
    now1: i64,
    now2: i64,
    r1: Result<RefundOutcome, AppError>,
    r2: Result<RefundOutcome, AppError>,
)
    requires
        forall|i: int, j: int|
            0 <= i < s0.bookings@.len() && 0 <= j < s0.bookings@.len() && booking_matches_order(
                #[trigger] s0.bookings@[i],
                order_id,
            ) && booking_matches_order(#[trigger] s0.bookings@[j], order_id) ==> i == j,
        order_refunded_post(s0, s1, order_id, now1, r1),
        r1 == Ok::<RefundOutcome, AppError>(RefundOutcome::Refunded),
        order_refunded_post(s1, s2, order_id, now2, r2),
    ensures
        r2 == Ok::<RefundOutcome, AppError>(RefundOutcome::Ignored),
        s2.unchanged_from(s1),
{
    let i = choose|i: int|
        0 <= i < s0.bookings@.len() && booking_matches_order(#[trigger] s0.bookings@[i], order_id)
            && (s0.bookings@[i].status == BookingStatus::Paid || s0.bookings@[i].status
            == BookingStatus::Approved) && s1.booking_updated(
            s0,
            i,
            stamped(s0.bookings@[i], BookingStatus::Refunded, now1),
        );
    let rec = stamped(s0.bookings@[i], BookingStatus::Refunded, now1);
    assert(s1.bookings@ == s0.bookings@.update(i, rec));
    assert(booking_matches_order(s1.bookings@[i], order_id));
    assert(s1.bookings@[i].status == BookingStatus::Refunded);
    assert forall|a: int|
        0 <= a < s1.bookings@.len() && booking_matches_order(
            #[trigger] s1.bookings@[a],
            order_id,
        ) implies a == i by {
        if a != i {
            assert(s1.bookings@[a] == s0.bookings@[a]);
        }
    }
    match r2 {
        Ok(RefundOutcome::Refunded) => {
            let a = choose|a: int|
                0 <= a < s1.bookings@.len() && booking_matches_order(
                    #[trigger] s1.bookings@[a],
                    order_id,
                ) && (s1.bookings@[a].status == BookingStatus::Paid || s1.bookings@[a].status
                    == BookingStatus::Approved) && s2.booking_updated(
                    s1,
                    a,
                    stamped(s1.bookings@[a], BookingStatus::Refunded, now2),
                );
            assert(a == i);
            assert(false);
        },
        Ok(RefundOutcome::Ignored) => {
        },
        Err(AppError::NotFound(_)) => {
            assert(!booking_matches_order(s1.bookings@[i], order_id));
            assert(false);
        },
        Err(_) => {
            assert(false);
        },
    }
}

} // verus!
