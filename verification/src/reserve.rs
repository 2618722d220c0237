//! The slot reservation transaction: check capacity and create the
//! booking as one atomic step against the store.
//!
//! In the deployed system this runs inside a serializable database
//! transaction that takes a row lock on the writer, so concurrent
//! attempts for one writer run one after the other; the `&mut self`
//! call here is exactly one such serialized attempt. The booking is
//! created in `PendingPayment` with its money split fixed for good,
//! and carries the caller-supplied payment reference, which the caller
//! obtained before entering the transaction.

use crate::capacity::{blackout_on, booked_count, booking_occupies, lemma_spec_writer_unique};
use crate::errors::{AppError, CreateBookingError};
use crate::fees::{platform_fee_of, split_amount, writer_payout_of};
use crate::models::{Booking, Writer};
use crate::status::BookingStatus;
use crate::store::Store;
use crate::text::{dec_str_of, push_char, u64_to_string};
use crate::validation::SanitizedBookingInput;
use vstd::math::min;
use vstd::prelude::*;
use vstd::string::StringExecFns;

verus! {

/// The booking record a successful reservation appends: state
/// `PendingPayment`, the money split fixed from the writer's price and
/// fee percentage, and the caller's payment reference attached.
pub open spec fn new_booking_record(
    id: u64,
    w: Writer,
    sponsor_id: u64,
    slot_date: i64,
    ad: SanitizedBookingInput,
    lemon_order_id: String,
    now: i64,
) -> Booking {
    Booking {
        id,
        writer_id: w.id,
        sponsor_id,
        slot_date,
        ad_headline: ad.ad_headline,
        ad_body: ad.ad_body,
        ad_cta_text: ad.ad_cta_text,
        ad_cta_url: ad.ad_cta_url,
        ad_image_url: ad.ad_image_url,
        status: BookingStatus::PendingPayment,
        amount_cents: w.price_per_slot,
        platform_fee_cents: platform_fee_of(
            w.price_per_slot as int,
            w.platform_fee_pct as int,
        ) as i32,
        writer_payout_cents: writer_payout_of(
            w.price_per_slot as int,
            w.platform_fee_pct as int,
        ) as i32,
        currency: w.currency,
        lemon_order_id: Some(lemon_order_id),
        created_at: now,
        paid_at: None,
        approved_at: None,
        rejected_at: None,
        published_at: None,
    }
}

/// One serialized reservation attempt for a (writer, date) slot, as
/// the reservation transaction performs it: it succeeds exactly when
/// the slot is open, a success adds one occupying booking, a failure
/// writes nothing, and writers and blackout dates are untouched either
/// way.
pub open spec fn reservation_attempt(
    pre: Store,
    post: Store,
    writer_id: u64,
    slot_date: i64,
    succeeded: bool,
) -> bool {
    &&& succeeded == pre.spec_slot_available(writer_id, slot_date as int)
    &&& succeeded ==> booked_count(post.bookings@, writer_id, slot_date as int) == booked_count(
        pre.bookings@,
        writer_id,
        slot_date as int,
    ) + 1
    &&& !succeeded ==> post.bookings@ == pre.bookings@
    &&& post.writers@ == pre.writers@
    &&& post.blackout_dates@ == pre.blackout_dates@
}

impl Store {
    /// Atomically re-checks capacity for the slot and creates the
    /// booking, exactly as the serialized reservation transaction
    /// does: on a blackout date or a full date nothing is written and
    /// the attempt fails with `SlotNotAvailable`; otherwise the
    /// booking is created in `PendingPayment` with
    /// `amount == platform_fee + writer_payout` fixed from the
    /// writer's price and fee percentage.
    pub fn create_booking_with_availability_check(
        &mut self,
        sponsor_id: u64,
        writer_id: u64,
        slot_date: i64,
        ad: SanitizedBookingInput,
        lemon_order_id: String,
        now: i64,
    ) -> (r: Result<u64, CreateBookingError>)
        requires
            old(self).wf(),
            old(self).next_id < u64::MAX,
            old(self).has_writer(writer_id),
        ensures
            final(self).wf(),
            reservation_attempt(*old(self), *final(self), writer_id, slot_date, r is Ok),
            match r {
                Ok(id) => {
                    &&& old(self).spec_slot_available(writer_id, slot_date as int)
                    &&& id == old(self).next_id
                    &&& final(self).bookings@ == old(self).bookings@.push(
                        new_booking_record(
                            old(self).next_id,
                            old(self).spec_writer(writer_id),
                            sponsor_id,
                            slot_date,
                            ad,
                            lemon_order_id,
                            now,
                        ),
                    )
                    &&& final(self).next_id == old(self).next_id + 1
                    &&& final(self).writers@ == old(self).writers@
                    &&& final(self).sponsors@ == old(self).sponsors@
                    &&& final(self).users@ == old(self).users@
                    &&& final(self).blackout_dates@ == old(self).blackout_dates@
                    &&& final(self).payouts@ == old(self).payouts@
                    &&& final(self).blacklisted_tokens@ == old(self).blacklisted_tokens@
                },
                Err(CreateBookingError::SlotNotAvailable) => {
                    &&& !old(self).spec_slot_available(writer_id, slot_date as int)
                    &&& final(self).unchanged_from(*old(self))
                },
            },
    {
        if !self.is_slot_available(writer_id, slot_date) {
            return Err(CreateBookingError::SlotNotAvailable);
        }
        let widx = match self.find_writer_index_pub(writer_id) {
            Some(i) => i,
            None => {
                proof {
                    assert(false);
                }
                return Err(CreateBookingError::SlotNotAvailable);
            },
        };
        proof {
            lemma_spec_writer_unique(*self, widx as int, writer_id);
        }
        let price = self.writers[widx].price_per_slot;
        let pct = self.writers[widx].platform_fee_pct;
        let currency = self.writers[widx].currency.clone();
        let (fee, payout) = split_amount(price, pct);
        let id = self.next_id;
        let booking = Booking {
            id,
            writer_id,
            sponsor_id,
            slot_date,
            ad_headline: ad.ad_headline,
            ad_body: ad.ad_body,
            ad_cta_text: ad.ad_cta_text,
            ad_cta_url: ad.ad_cta_url,
            ad_image_url: ad.ad_image_url,
            status: BookingStatus::PendingPayment,
            amount_cents: price,
            platform_fee_cents: fee,
            writer_payout_cents: payout,
            currency,
            lemon_order_id: Some(lemon_order_id),
            created_at: now,
            paid_at: None,
            approved_at: None,
            rejected_at: None,
            published_at: None,
        };
        let ghost gb = booking;
        self.bookings.push(booking);
        self.next_id = id + 1;
        proof {
            let bs = self.bookings@;
            let obs = old(self).bookings@;
            assert(bs == obs.push(gb));
            assert forall|a: int| 0 <= a < bs.len() implies (#[trigger] bs[a]).id
                < self.next_id by {
                if a < obs.len() {
                    assert(bs[a] == obs[a]);
                }
            }
            assert forall|a: int, b: int| 0 <= a < b < bs.len() implies (#[trigger] bs[a]).id != (
            #[trigger] bs[b]).id by {
                assert(bs[a] == obs[a]);
                if b < obs.len() {
                    assert(bs[b] == obs[b]);
                } else {
                    assert(bs[b] == gb);
                }
            }
            assert forall|a: int| 0 <= a < bs.len() implies (#[trigger] bs[a]).money_conserved() by {
                if a < obs.len() {
                    assert(bs[a] == obs[a]);
                } else {
                    assert(bs[a] == gb);
                }
            }
            assert(bs.drop_last() =~= obs);
            reveal(Seq::filter);
            assert(booking_occupies(gb, writer_id, slot_date as int));
            assert(booked_count(bs, writer_id, slot_date as int) == booked_count(
                obs,
                writer_id,
                slot_date as int,
            ) + 1);
        }
        Ok(id)
    }

    /// The position of the writer with this id, if any.
    pub fn find_writer_index_pub(&self, id: u64) -> (r: Option<usize>)
        ensures
            match r {
                Some(i) => i < self.writers@.len() && self.writers@[i as int].id == id,
                None => !self.has_writer(id),
            },
    {
        let mut i: usize = 0;
        while i < self.writers.len()
            invariant
                i <= self.writers@.len(),
                forall|j: int| 0 <= j < i ==> (#[trigger] self.writers@[j]).id != id,
            decreases self.writers@.len() - i,
        {
            if self.writers[i].id == id {
                return Some(i);
            }
            i += 1;
        }
        None
    }

    /// Books a slot on behalf of a sponsor: rejects a date closer than
    /// the writer's lead time, then runs the reservation transaction.
    /// The payment reference comes from the checkout the caller
    /// created before calling, so a reservation is always paired with
    /// a valid reference.
    pub fn create_booking(
        &mut self,
        sponsor_id: u64,
        writer_id: u64,
        slot_date: i64,
        ad: SanitizedBookingInput,
        checkout_id: String,
        today: i64,
        now: i64,
    ) -> (r: Result<u64, AppError>)
        requires
            old(self).wf(),
            old(self).next_id < u64::MAX,
            forall|i: int|
                0 <= i < old(self).writers@.len() && (#[trigger] old(self).writers@[i]).id
                    == writer_id ==> i64::MIN <= today + old(self).writers@[i].lead_time_days
                    <= i64::MAX,
        ensures
            final(self).wf(),
            r is Err ==> final(self).unchanged_from(*old(self)),
            match r {
                Ok(id) => {
                    &&& old(self).has_writer(writer_id)
                    &&& slot_date >= today + old(self).spec_writer(writer_id).lead_time_days
                    &&& old(self).spec_slot_available(writer_id, slot_date as int)
                    &&& id == old(self).next_id
                    &&& final(self).bookings@ == old(self).bookings@.push(
                        new_booking_record(
                            old(self).next_id,
                            old(self).spec_writer(writer_id),
                            sponsor_id,
                            slot_date,
                            ad,
                            checkout_id,
                            now,
                        ),
                    )
                    &&& final(self).next_id == old(self).next_id + 1
                    &&& final(self).writers@ == old(self).writers@
                    &&& final(self).blackout_dates@ == old(self).blackout_dates@
                },
                Err(AppError::NotFound(m)) => !old(self).has_writer(writer_id) && m@
                    == "Writer not found"@,
                Err(AppError::BadRequest(_)) => {
                    &&& old(self).has_writer(writer_id)
                    &&& slot_date < today + old(self).spec_writer(writer_id).lead_time_days
                },
                Err(AppError::Conflict(m)) => {
                    &&& old(self).has_writer(writer_id)
                    &&& slot_date >= today + old(self).spec_writer(writer_id).lead_time_days
                    &&& !old(self).spec_slot_available(writer_id, slot_date as int)
                    &&& m@ == "This slot is no longer available"@
                },
                Err(_) => false,
            },
    {
        let widx = match self.find_writer_index_pub(writer_id) {
            Some(i) => i,
            None => {
                return Err(AppError::NotFound("Writer not found".to_owned()));
            },
        };
        proof {
            lemma_spec_writer_unique(*self, widx as int, writer_id);
        }
        let lead = self.writers[widx].lead_time_days;
        let min_date: i64 = today + (lead as i64);
        if slot_date < min_date {
            let lead_str = lead_days_text(lead);
            return Err(AppError::BadRequest(lead_str));
        }
        match self.create_booking_with_availability_check(
            sponsor_id,
            writer_id,
            slot_date,
            ad,
            checkout_id,
            now,
        ) {
            Ok(id) => Ok(id),
            Err(CreateBookingError::SlotNotAvailable) => Err(
                AppError::Conflict("This slot is no longer available".to_owned()),
            ),
        }
    }
}

/// The message rejecting a too-early slot date, naming the writer's
/// lead time.
pub fn lead_days_text(lead_time_days: i32) -> (r: String)
    ensures
        r@ == "Slot date must be at least "@ + int_str_of(lead_time_days as int)
            + " days in the future"@,
{
    let mut s = String::from_str("Slot date must be at least ");
    if lead_time_days < 0 {
        push_char(&mut s, '-');
        let mag: u64 = (-(lead_time_days as i64)) as u64;
        let digits = u64_to_string(mag);
        s.append(digits.as_str());
    } else {
        let digits = u64_to_string(lead_time_days as u64);
        s.append(digits.as_str());
    }
    s.append(" days in the future");
    proof {
        assert(s@ =~= "Slot date must be at least "@ + int_str_of(lead_time_days as int)
            + " days in the future"@);
    }
    s
}

/// The decimal rendering of a possibly negative integer.
pub open spec fn int_str_of(n: int) -> Seq<char> {
    if n < 0 {
        seq!['-'] + dec_str_of((-n) as nat)
    } else {
        dec_str_of(n as nat)
    }
}

/// How many of a run of serialized attempts succeed, in order.
pub open spec fn count_successes(outcomes: Seq<bool>) -> nat
    decreases outcomes.len(),
{
    if outcomes.len() == 0 {
        0
    } else {
        (if outcomes[0] {
            1nat
        } else {
            0nat
        }) + count_successes(outcomes.drop_first())
    }
}

/// The serialization law for reservations. Take any run of attempts
/// for one writer and date, each one a serialized reservation
/// transaction (`reservation_attempt` relates each pre-state to its
/// post-state, which is the next attempt's pre-state). If the date is
/// not blacked out and `c <= k` slots are occupied out of the writer's
/// `k`, exactly `min(N, k - c)` of the `N` attempts succeed; on a
/// blacked-out date none succeed.
pub proof fn lemma_reservation_serialization(
    states: Seq<Store>,
    outcomes: Seq<bool>,
    writer_id: u64,
    slot_date: i64,
)
    requires
        states.len() == outcomes.len() + 1,
        forall|i: int|
            0 <= i < outcomes.len() ==> reservation_attempt(
                #[trigger] states[i],
                states[i + 1],
                writer_id,
                slot_date,
                outcomes[i],
            ),
        states[0].has_writer(writer_id),
        crate::store::writer_ids_unique(states[0].writers@),
        booked_count(states[0].bookings@, writer_id, slot_date as int) <= states[0].spec_writer(
            writer_id,
        ).slots_per_week,
    ensures
        blackout_on(states[0].blackout_dates@, writer_id, slot_date as int) ==> count_successes(
            outcomes,
        ) == 0,
        !blackout_on(states[0].blackout_dates@, writer_id, slot_date as int) ==> count_successes(
            outcomes,
        ) == min(
            outcomes.len() as int,
            states[0].spec_writer(writer_id).slots_per_week - booked_count(
                states[0].bookings@,
                writer_id,
                slot_date as int,
            ),
        ),
    decreases outcomes.len(),
{
    if outcomes.len() == 0 {
    } else {
        let s0 = states[0];
        let s1 = states[1];
        let rest_states = states.drop_first();
        let rest_outcomes = outcomes.drop_first();
        assert(reservation_attempt(s0, s1, writer_id, slot_date, outcomes[0]));
        assert forall|i: int| 0 <= i < rest_outcomes.len() implies reservation_attempt(
            #[trigger] rest_states[i],
            rest_states[i + 1],
            writer_id,
            slot_date,
            rest_outcomes[i],
        ) by {
            assert(rest_states[i] == states[i + 1]);
            assert(rest_states[i + 1] == states[i + 2]);
            assert(rest_outcomes[i] == outcomes[i + 1]);
            assert(reservation_attempt(
                states[i + 1],
                states[i + 2],
                writer_id,
                slot_date,
                outcomes[i + 1],
            ));
        }
        let k = s0.spec_writer(writer_id).slots_per_week as int;
        let c0 = booked_count(s0.bookings@, writer_id, slot_date as int) as int;
        // The attempt leaves writers and blackout dates alone, so the
        // writer record and the blackout verdict carry over.
        assert(s1.writers@ == s0.writers@);
        let wi = s0.writer_index(writer_id);
        assert(s0.writers@[wi].id == writer_id);
        lemma_spec_writer_unique(s1, wi, writer_id);
        assert(s1.spec_writer(writer_id) == s0.spec_writer(writer_id));
        assert(s1.has_writer(writer_id));
        if blackout_on(s0.blackout_dates@, writer_id, slot_date as int) {
            assert(!s0.spec_slot_available(writer_id, slot_date as int));
            assert(!outcomes[0]);
            assert(s1.bookings@ == s0.bookings@);
            lemma_reservation_serialization(rest_states, rest_outcomes, writer_id, slot_date);
            assert(blackout_on(s1.blackout_dates@, writer_id, slot_date as int));
            assert(count_successes(outcomes) == count_successes(rest_outcomes));
        } else {
            if c0 < k {
                assert(s0.spec_slot_available(writer_id, slot_date as int));
                assert(outcomes[0]);
                assert(booked_count(s1.bookings@, writer_id, slot_date as int) == c0 + 1);
                lemma_reservation_serialization(rest_states, rest_outcomes, writer_id, slot_date);
                assert(count_successes(rest_outcomes) == min(
                    rest_outcomes.len() as int,
                    k - (c0 + 1),
                ));
                assert(count_successes(outcomes) == 1 + count_successes(rest_outcomes));
            } else {
                assert(!s0.spec_slot_available(writer_id, slot_date as int));
                assert(!outcomes[0]);
                assert(s1.bookings@ == s0.bookings@);
                lemma_reservation_serialization(rest_states, rest_outcomes, writer_id, slot_date);
                assert(count_successes(outcomes) == count_successes(rest_outcomes));
            }
        }
    }
}

} // verus!
