//! The capacity model: how many bookings occupy a (writer, date) slot,
//! whether a date is still open, and the forward availability
//! calendar.
//!
//! A booking occupies its slot unless it was rejected, cancelled or
//! refunded. A blackout date has zero availability no matter how many
//! slots remain. All dates are day numbers and "today" is an argument:
//! the model never reads a clock.

use crate::models::{AvailableSlot, BlackoutDate, Booking, Writer};
use crate::status::{counts_toward_capacity, BookingStatus};
use crate::store::Store;
use vstd::prelude::*;

verus! {

/// The booking takes up one of this writer's slots on this date.
pub open spec fn booking_occupies(b: Booking, writer_id: u64, date: int) -> bool {
    b.writer_id == writer_id && b.slot_date == date && counts_toward_capacity(b.status)
}

/// How many bookings occupy the (writer, date) slot.
pub open spec fn booked_count(bs: Seq<Booking>, writer_id: u64, date: int) -> nat {
    bs.filter(|b: Booking| booking_occupies(b, writer_id, date)).len()
}

/// The writer has declared this date a blackout date.
pub open spec fn blackout_on(blks: Seq<BlackoutDate>, writer_id: u64, date: int) -> bool {
    exists|i: int|
        0 <= i < blks.len() && (#[trigger] blks[i]).writer_id == writer_id && blks[i].blocked_date
            == date
}

impl Store {
    /// The position of some writer record with this id; meaningful
    /// only when one exists.
    pub open spec fn writer_index(self, id: u64) -> int {
        choose|i: int| 0 <= i < self.writers@.len() && (#[trigger] self.writers@[i]).id == id
    }

    /// The writer record with this id; meaningful only when one
    /// exists.
    pub open spec fn spec_writer(self, id: u64) -> Writer {
        self.writers@[self.writer_index(id)]
    }

    /// The date has capacity left for this writer: the writer exists,
    /// the date is not blacked out, and fewer bookings occupy it than
    /// the writer's weekly slot count.
    pub open spec fn spec_slot_available(self, writer_id: u64, date: int) -> bool {
        &&& self.has_writer(writer_id)
        &&& !blackout_on(self.blackout_dates@, writer_id, date)
        &&& booked_count(self.bookings@, writer_id, date) < self.spec_writer(
            writer_id,
        ).slots_per_week
    }

    /// Whether the writer has declared this date a blackout date.
    pub fn has_blackout(&self, writer_id: u64, date: i64) -> (r: bool)
        ensures
            r == blackout_on(self.blackout_dates@, writer_id, date as int),
    {
        let mut i: usize = 0;
        while i < self.blackout_dates.len()
            invariant
                i <= self.blackout_dates@.len(),
                forall|j: int|
                    0 <= j < i ==> !((#[trigger] self.blackout_dates@[j]).writer_id == writer_id
                        && self.blackout_dates@[j].blocked_date == date),
            decreases self.blackout_dates@.len() - i,
        {
            if self.blackout_dates[i].writer_id == writer_id && self.blackout_dates[i].blocked_date
                == date {
                return true;
            }
            i += 1;
        }
        false
    }

    /// Counts the bookings that occupy the (writer, date) slot.
    pub fn booked_count_for(&self, writer_id: u64, slot_date: i64) -> (r: usize)
        ensures
            r == booked_count(self.bookings@, writer_id, slot_date as int),
    {
        let mut count: usize = 0;
        let mut i: usize = 0;
        proof {
            assert(self.bookings@.take(0int) =~= Seq::<Booking>::empty());
            reveal(Seq::filter);
            broadcast use vstd::seq_lib::group_filter_ensures;

        }
        while i < self.bookings.len()
            invariant
                i <= self.bookings@.len(),
                count == booked_count(self.bookings@.take(i as int), writer_id, slot_date as int),
                count <= i,
            decreases self.bookings@.len() - i,
        {
            let ghost taken = self.bookings@.take(i as int);
            let b = &self.bookings[i];
            let occupies = b.writer_id == writer_id && b.slot_date == slot_date && match b.status {
                BookingStatus::Rejected => false,
                BookingStatus::Cancelled => false,
                BookingStatus::Refunded => false,
                _ => true,
            };
            if occupies {
                count += 1;
            }
            i += 1;
            proof {
                let taken2 = self.bookings@.take(i as int);
                assert(taken2.drop_last() =~= taken);
                assert(taken2.last() == self.bookings@[i - 1]);
                reveal(Seq::filter);
                broadcast use vstd::seq_lib::group_filter_ensures;

                assert(count == booked_count(taken2, writer_id, slot_date as int));
                assert(taken2.filter(
                    |b: Booking| booking_occupies(b, writer_id, slot_date as int),
                ).len() <= taken2.len());
            }
        }
        proof {
            assert(self.bookings@.take(self.bookings@.len() as int) =~= self.bookings@);
        }
        count
    }

    /// Whether a slot can still be booked: false on a blackout date no
    /// matter what, false for an unknown writer, and otherwise true
    /// exactly when the occupied count is below the writer's weekly
    /// slot count.
    pub fn is_slot_available(&self, writer_id: u64, slot_date: i64) -> (r: bool)
        requires
            self.wf(),
        ensures
            r == self.spec_slot_available(writer_id, slot_date as int),
    {
        if self.has_blackout(writer_id, slot_date) {
            return false;
        }
        let writer = match self.get_writer_by_id(writer_id) {
            Some(w) => w,
            None => {
                return false;
            },
        };
        proof {
            let i = choose|i: int|
                0 <= i < self.writers@.len() && self.writers@[i] == *writer;
            lemma_spec_writer_unique(*self, i, writer_id);
        }
        let slots = writer.slots_per_week;
        if slots <= 0 {
            return false;
        }
        let booked = self.booked_count_for(writer_id, slot_date);
        booked < slots as usize
    }
}

/// When writer ids are unique, any record found under an id is the one
/// `spec_writer` names.
pub proof fn lemma_spec_writer_unique(s: Store, i: int, id: u64)
    requires
        crate::store::writer_ids_unique(s.writers@),
        0 <= i < s.writers@.len(),
        s.writers@[i].id == id,
    ensures
        s.has_writer(id),
        s.writer_index(id) == i,
        s.spec_writer(id) == s.writers@[i],
{
    assert(s.has_writer(id));
    let j = s.writer_index(id);
    assert(0 <= j < s.writers@.len() && s.writers@[j].id == id);
}

/// A blacked-out date is never available, no matter how many slots the
/// writer has left on it.
pub proof fn lemma_blackout_never_available(store: Store, writer_id: u64, date: int)
    requires
        blackout_on(store.blackout_dates@, writer_id, date),
    ensures
        !store.spec_slot_available(writer_id, date),
{
}

/// How many week-aligned candidate dates lie in `[start, end]`,
/// stepping a week at a time.
pub open spec fn candidate_count(start: int, end: int) -> nat {
    if start > end {
        0
    } else {
        ((end - start) / 7 + 1) as nat
    }
}

/// The availability calendar from `date` on, for `n` week-aligned
/// candidate dates: each open date paired with its remaining slots,
/// ascending, skipping blackout dates and full dates.
pub open spec fn avail_from(
    bs: Seq<Booking>,
    blks: Seq<BlackoutDate>,
    w: Writer,
    date: int,
    n: nat,
) -> Seq<AvailableSlot>
    decreases n,
{
    if n == 0 {
        Seq::empty()
    } else {
        let rest = avail_from(bs, blks, w, date + 7, (n - 1) as nat);
        let booked = booked_count(bs, w.id, date);
        if !blackout_on(blks, w.id, date) && booked < w.slots_per_week {
            seq![
                (AvailableSlot {
                    available_date: date as i64,
                    slots_remaining: (w.slots_per_week - booked) as i32,
                }),
            ] + rest
        } else {
            rest
        }
    }
}

impl Store {
    /// The availability calendar for a writer: week-aligned candidate
    /// dates from `today` plus the writer's lead time out to
    /// `weeks_ahead` weeks from today, each with its remaining slot
    /// count, ascending, skipping blackout dates and dates already
    /// full. An unknown writer has an empty calendar.
    pub fn get_writer_availability(&self, writer_id: u64, weeks_ahead: i32, today: i64) -> (r: Vec<
        AvailableSlot,
    >)
        requires
            self.wf(),
            forall|i: int|
                0 <= i < self.writers@.len() && (#[trigger] self.writers@[i]).id == writer_id
                    ==> i64::MIN <= today + self.writers@[i].lead_time_days <= i64::MAX,
            i64::MIN <= today + 7 * (weeks_ahead as int),
            today + 7 * (weeks_ahead as int) + 7 <= i64::MAX,
        ensures
            !self.has_writer(writer_id) ==> r@ == Seq::<AvailableSlot>::empty(),
            self.has_writer(writer_id) ==> r@ == avail_from(
                self.bookings@,
                self.blackout_dates@,
                self.spec_writer(writer_id),
                today + self.spec_writer(writer_id).lead_time_days,
                candidate_count(
                    today + self.spec_writer(writer_id).lead_time_days,
                    today + 7 * (weeks_ahead as int),
                ),
            ),
    {
        let writer = match self.get_writer_by_id(writer_id) {
            Some(w) => w,
            None => {
                return Vec::new();
            },
        };
        proof {
            let i = choose|i: int| 0 <= i < self.writers@.len() && self.writers@[i] == *writer;
            lemma_spec_writer_unique(*self, i, writer_id);
        }
        let start: i64 = today + (writer.lead_time_days as i64);
        let end: i64 = today + 7 * (weeks_ahead as i64);
        let ghost w = *writer;
        let ghost n_total = candidate_count(start as int, end as int);
        let mut out: Vec<AvailableSlot> = Vec::new();
        let mut d: i64 = start;
        while d <= end
            invariant
                self.wf(),
                w == *writer,
                w.id == writer_id,
                end + 7 <= i64::MAX,
                d >= start,
                n_total == candidate_count(start as int, end as int),
                avail_from(self.bookings@, self.blackout_dates@, w, start as int, n_total) == out@
                    + avail_from(
                    self.bookings@,
                    self.blackout_dates@,
                    w,
                    d as int,
                    candidate_count(d as int, end as int),
                ),
            decreases end + 7 - d,
        {
            let ghost n_here = candidate_count(d as int, end as int);
            proof {
                vstd::arithmetic::div_mod::lemma_fundamental_div_mod(end - d, 7);
                if d + 7 > end {
                    vstd::arithmetic::div_mod::lemma_fundamental_div_mod_converse(
                        end - d,
                        7,
                        0,
                        end - d,
                    );
                    assert(n_here == 1);
                    assert(candidate_count(d + 7, end as int) == 0);
                } else {
                    let q = (end - d) / 7;
                    let rr = (end - d) % 7;
                    vstd::arithmetic::div_mod::lemma_fundamental_div_mod_converse(
                        end - d - 7,
                        7,
                        q - 1,
                        rr,
                    );
                    assert(candidate_count(d + 7, end as int) == n_here - 1);
                }
            }
            let booked = self.booked_count_for(writer_id, d);
            let blk = self.has_blackout(writer_id, d);
            let slots = writer.slots_per_week;
            if !blk && slots > 0 && booked < slots as usize {
                let remaining: i32 = slots - (booked as i32);
                out.push(AvailableSlot { available_date: d, slots_remaining: remaining });
            }
            d = d + 7;
            proof {
                assert(avail_from(self.bookings@, self.blackout_dates@, w, start as int, n_total)
                    == out@ + avail_from(
                    self.bookings@,
                    self.blackout_dates@,
                    w,
                    d as int,
                    candidate_count(d as int, end as int),
                ));
            }
        }
        proof {
            assert(candidate_count(d as int, end as int) == 0);
            assert(avail_from(
                self.bookings@,
                self.blackout_dates@,
                w,
                d as int,
                0,
            ) =~= Seq::<AvailableSlot>::empty());
            assert(out@ =~= avail_from(
                self.bookings@,
                self.blackout_dates@,
                w,
                start as int,
                n_total,
            ));
        }
        out
    }
}

/// What every entry of the availability calendar satisfies: it sits
/// on a week-aligned candidate date at or after the start, it is not
/// blacked out, its remaining count is positive and exact, and the
/// entries come in strictly ascending date order.
pub proof fn lemma_avail_from_entries(
    bs: Seq<Booking>,
    blks: Seq<BlackoutDate>,
    w: Writer,
    date: int,
    n: nat,
)
    requires
        i64::MIN <= date,
        date + 7 * n <= i64::MAX,
    ensures
        forall|k: int|
            0 <= k < avail_from(bs, blks, w, date, n).len() ==> {
                let entry = #[trigger] avail_from(bs, blks, w, date, n)[k];
                &&& date <= entry.available_date
                &&& (entry.available_date - date) % 7 == 0
                &&& !blackout_on(blks, w.id, entry.available_date as int)
                &&& entry.slots_remaining > 0
                &&& entry.slots_remaining == w.slots_per_week - booked_count(
                    bs,
                    w.id,
                    entry.available_date as int,
                )
            },
        forall|k1: int, k2: int|
            0 <= k1 < k2 < avail_from(bs, blks, w, date, n).len() ==> (#[trigger] avail_from(
                bs,
                blks,
                w,
                date,
                n,
            )[k1]).available_date < (#[trigger] avail_from(bs, blks, w, date, n)[k2]).available_date,
    decreases n,
{
    if n > 0 {
        lemma_avail_from_entries(bs, blks, w, date + 7, (n - 1) as nat);
        let cal = avail_from(bs, blks, w, date, n);
        let rest = avail_from(bs, blks, w, date + 7, (n - 1) as nat);
        let booked = booked_count(bs, w.id, date);
        if !blackout_on(blks, w.id, date) && booked < w.slots_per_week {
            assert forall|k: int| 1 <= k < cal.len() implies cal[k] == rest[k - 1] by {}
            assert forall|k: int| 1 <= k < cal.len() implies (date + 7) <= cal[k].available_date
                && ((cal[k].available_date - (date + 7)) % 7 == 0) by {
                assert(cal[k] == rest[k - 1]);
            }
            assert forall|k: int| 0 <= k < cal.len() implies ((#[trigger] cal[k]).available_date
                - date) % 7 == 0 by {
                if k > 0 {
                    vstd::arithmetic::div_mod::lemma_mod_add_multiples_vanish(
                        cal[k].available_date - (date + 7),
                        7,
                    );
                    assert(cal[k].available_date - date == 7 + (cal[k].available_date - (date
                        + 7)));
                }
            }
        } else {
            assert(cal == rest);
            assert forall|k: int| 0 <= k < cal.len() implies ((#[trigger] cal[k]).available_date
                - date) % 7 == 0 by {
                assert(cal[k] == rest[k]);
                assert((date + 7) <= cal[k].available_date && ((cal[k].available_date - (date + 7))
                    % 7 == 0));
                vstd::arithmetic::div_mod::lemma_mod_add_multiples_vanish(
                    cal[k].available_date - (date + 7),
                    7,
                );
                assert(cal[k].available_date - date == 7 + (cal[k].available_date - (date + 7)));
            }
        }
    }
}

} // verus!
