//! Read-side queries over the store: bookings joined with the
//! newsletter and sponsor names, and the widget's single-slot check.
//!
//! The joined listings yield bookings in store order — the order they
//! were created in — with one record per booking whose writer and
//! sponsor both exist.

use crate::capacity::{avail_from, candidate_count, lemma_spec_writer_unique};
use crate::errors::AppError;
use crate::models::{Booking, BookingWithDetails, Sponsor, WriterAvailability};
use crate::payouts::clone_booking;
use crate::status::BookingStatus;
use crate::store::{clone_opt_string, Store};
use vstd::prelude::*;

verus! {

impl Store {
    /// The position of some sponsor record with this id; meaningful
    /// only when one exists.
    pub open spec fn sponsor_index(self, id: u64) -> int {
        choose|i: int| 0 <= i < self.sponsors@.len() && (#[trigger] self.sponsors@[i]).id == id
    }

    /// The sponsor record with this id; meaningful only when one
    /// exists.
    pub open spec fn spec_sponsor(self, id: u64) -> Sponsor {
        self.sponsors@[self.sponsor_index(id)]
    }
}

/// When sponsor ids are unique, any record found under an id is the
/// one `spec_sponsor` names.
pub proof fn lemma_spec_sponsor_unique(s: Store, i: int, id: u64)
    requires
        crate::store::sponsor_ids_unique(s.sponsors@),
        0 <= i < s.sponsors@.len(),
        s.sponsors@[i].id == id,
    ensures
        s.has_sponsor(id),
        s.sponsor_index(id) == i,
        s.spec_sponsor(id) == s.sponsors@[i],
{
    assert(s.has_sponsor(id));
    let j = s.sponsor_index(id);
    assert(0 <= j < s.sponsors@.len() && s.sponsors@[j].id == id);
}

/// The booking joined with its writer's newsletter name and its
/// sponsor's company name and logo; meaningful only when both exist.
pub open spec fn details_of(s: Store, b: Booking) -> BookingWithDetails {
    BookingWithDetails {
        id: b.id,
        slot_date: b.slot_date,
        ad_headline: b.ad_headline,
        ad_body: b.ad_body,
        ad_cta_text: b.ad_cta_text,
        ad_cta_url: b.ad_cta_url,
        ad_image_url: b.ad_image_url,
        status: b.status,
        amount_cents: b.amount_cents,
        platform_fee_cents: b.platform_fee_cents,
        writer_payout_cents: b.writer_payout_cents,
        currency: b.currency,
        created_at: b.created_at,
        paid_at: b.paid_at,
        approved_at: b.approved_at,
        published_at: b.published_at,
        writer_id: b.writer_id,
        newsletter_name: s.spec_writer(b.writer_id).newsletter_name,
        sponsor_id: b.sponsor_id,
        company_name: s.spec_sponsor(b.sponsor_id).company_name,
        sponsor_logo_url: s.spec_sponsor(b.sponsor_id).logo_url,
    }
}

/// The booking appears in a joined listing: both its writer and its
/// sponsor exist.
pub open spec fn joinable(s: Store, b: Booking) -> bool {
    s.has_writer(b.writer_id) && s.has_sponsor(b.sponsor_id)
}

impl Store {
    /// Joins one booking with its writer and sponsor records, if both
    /// exist.
    pub(crate) fn join_booking(&self, b: &Booking) -> (r: Option<BookingWithDetails>)
        requires
            self.wf(),
        ensures
            match r {
                Some(d) => joinable(*self, *b) && d == details_of(*self, *b),
                None => !joinable(*self, *b),
            },
    {
        let writer = match self.get_writer_by_id(b.writer_id) {
            Some(w) => w,
            None => {
                return None;
            },
        };
        let sponsor = match self.get_sponsor_by_id(b.sponsor_id) {
            Some(sp) => sp,
            None => {
                return None;
            },
        };
        proof {
            let wi = choose|i: int| 0 <= i < self.writers@.len() && self.writers@[i] == *writer;
            lemma_spec_writer_unique(*self, wi, b.writer_id);
            let si = choose|i: int| 0 <= i < self.sponsors@.len() && self.sponsors@[i] == *sponsor;
            lemma_spec_sponsor_unique(*self, si, b.sponsor_id);
        }
        let copy = clone_booking(b);
        Some(
            BookingWithDetails {
                id: copy.id,
                slot_date: copy.slot_date,
                ad_headline: copy.ad_headline,
                ad_body: copy.ad_body,
                ad_cta_text: copy.ad_cta_text,
                ad_cta_url: copy.ad_cta_url,
                ad_image_url: copy.ad_image_url,
                status: copy.status,
                amount_cents: copy.amount_cents,
                platform_fee_cents: copy.platform_fee_cents,
                writer_payout_cents: copy.writer_payout_cents,
                currency: copy.currency,
                created_at: copy.created_at,
                paid_at: copy.paid_at,
                approved_at: copy.approved_at,
                published_at: copy.published_at,
                writer_id: copy.writer_id,
                newsletter_name: writer.newsletter_name.clone(),
                sponsor_id: copy.sponsor_id,
                company_name: sponsor.company_name.clone(),
                sponsor_logo_url: clone_opt_string(&sponsor.logo_url),
            },
        )
    }

    /// All of a writer's bookings joined with newsletter and sponsor
    /// details, in the order they were created.
    pub fn get_writer_bookings(&self, writer_id: u64) -> (r: Vec<BookingWithDetails>)
        requires
            self.wf(),
        ensures
            r@ == self.bookings@.filter(
                |b: Booking| b.writer_id == writer_id && joinable(*self, b),
            ).map_values(|b: Booking| details_of(*self, b)),
    {
        let mut out: Vec<BookingWithDetails> = Vec::new();
        let n = self.bookings.len();
        proof {
            assert(self.bookings@.take(0int) =~= Seq::<Booking>::empty());
            reveal(Seq::filter);
        }
        let mut i: usize = 0;
        while i < n
            invariant
                i <= n,
                n == self.bookings@.len(),
                self.wf(),
                out@ == self.bookings@.take(i as int).filter(
                    |b: Booking| b.writer_id == writer_id && joinable(*self, b),
                ).map_values(|b: Booking| details_of(*self, b)),
            decreases n - i,
        {
            let ghost taken = self.bookings@.take(i as int);
            let b = &self.bookings[i];
            if b.writer_id == writer_id {
                match self.join_booking(b) {
                    Some(d) => {
                        out.push(d);
                    },
                    None => {},
                }
            }
            i += 1;
            proof {
                let taken2 = self.bookings@.take(i as int);
                assert(taken2.drop_last() =~= taken);
                assert(taken2.last() == self.bookings@[i - 1]);
                reveal(Seq::filter);
                let p = |b: Booking| b.writer_id == writer_id && joinable(*self, b);
                let m = |b: Booking| details_of(*self, b);
                if p(self.bookings@[i - 1]) {
                    assert(taken2.filter(p) == taken.filter(p).push(self.bookings@[i - 1]));
                    assert(taken2.filter(p).map_values(m) =~= taken.filter(p).map_values(m).push(
                        m(self.bookings@[i - 1]),
                    ));
                } else {
                    assert(taken2.filter(p) == taken.filter(p));
                }
            }
        }
        proof {
            assert(self.bookings@.take(n as int) =~= self.bookings@);
        }
        out
    }

    /// All of a sponsor's bookings joined with newsletter and sponsor
    /// details, in the order they were created.
    pub fn get_sponsor_bookings(&self, sponsor_id: u64) -> (r: Vec<BookingWithDetails>)
        requires
            self.wf(),
        ensures
            r@ == self.bookings@.filter(
                |b: Booking| b.sponsor_id == sponsor_id && joinable(*self, b),
            ).map_values(|b: Booking| details_of(*self, b)),
    {
        let mut out: Vec<BookingWithDetails> = Vec::new();
        let n = self.bookings.len();
        proof {
            assert(self.bookings@.take(0int) =~= Seq::<Booking>::empty());
            reveal(Seq::filter);
        }
        let mut i: usize = 0;
        while i < n
            invariant
                i <= n,
                n == self.bookings@.len(),
                self.wf(),
                out@ == self.bookings@.take(i as int).filter(
                    |b: Booking| b.sponsor_id == sponsor_id && joinable(*self, b),
                ).map_values(|b: Booking| details_of(*self, b)),
            decreases n - i,
        {
            let ghost taken = self.bookings@.take(i as int);
            let b = &self.bookings[i];
            if b.sponsor_id == sponsor_id {
                match self.join_booking(b) {
                    Some(d) => {
                        out.push(d);
                    },
                    None => {},
                }
            }
            i += 1;
            proof {
                let taken2 = self.bookings@.take(i as int);
                assert(taken2.drop_last() =~= taken);
                assert(taken2.last() == self.bookings@[i - 1]);
                reveal(Seq::filter);
                let p = |b: Booking| b.sponsor_id == sponsor_id && joinable(*self, b);
                let m = |b: Booking| details_of(*self, b);
                if p(self.bookings@[i - 1]) {
                    assert(taken2.filter(p) == taken.filter(p).push(self.bookings@[i - 1]));
                    assert(taken2.filter(p).map_values(m) =~= taken.filter(p).map_values(m).push(
                        m(self.bookings@[i - 1]),
                    ));
                } else {
                    assert(taken2.filter(p) == taken.filter(p));
                }
            }
        }
        proof {
            assert(self.bookings@.take(n as int) =~= self.bookings@);
        }
        out
    }

    /// A writer's paid, approved or published bookings with a slot
    /// date from today out to the given number of weeks, joined with
    /// details, in the order they were created.
    pub fn get_writer_upcoming_bookings(&self, writer_id: u64, weeks: i32, today: i64) -> (r: Vec<
        BookingWithDetails,
    >)
        requires
            self.wf(),
            i64::MIN <= today + 7 * (weeks as int) <= i64::MAX,
        ensures
            r@ == self.bookings@.filter(
                |b: Booking| upcoming_booking(*self, writer_id, weeks, today, b),
            ).map_values(|b: Booking| details_of(*self, b)),
    {
        let horizon: i64 = today + 7 * (weeks as i64);
        let mut out: Vec<BookingWithDetails> = Vec::new();
        let n = self.bookings.len();
        proof {
            assert(self.bookings@.take(0int) =~= Seq::<Booking>::empty());
            reveal(Seq::filter);
        }
        let mut i: usize = 0;
        while i < n
            invariant
                i <= n,
                n == self.bookings@.len(),
                self.wf(),
                horizon == today + 7 * (weeks as int),
                out@ == self.bookings@.take(i as int).filter(
                    |b: Booking| upcoming_booking(*self, writer_id, weeks, today, b),
                ).map_values(|b: Booking| details_of(*self, b)),
            decreases n - i,
        {
            let ghost taken = self.bookings@.take(i as int);
            let b = &self.bookings[i];
            let live = match b.status {
                BookingStatus::Paid => true,
                BookingStatus::Approved => true,
                BookingStatus::Published => true,
                _ => false,
            };
            if b.writer_id == writer_id && live && b.slot_date >= today && b.slot_date <= horizon {
                match self.join_booking(b) {
                    Some(d) => {
                        out.push(d);
                    },
                    None => {},
                }
            }
            i += 1;
            proof {
                let taken2 = self.bookings@.take(i as int);
                assert(taken2.drop_last() =~= taken);
                assert(taken2.last() == self.bookings@[i - 1]);
                reveal(Seq::filter);
                let p = |b: Booking| upcoming_booking(*self, writer_id, weeks, today, b);
                let m = |b: Booking| details_of(*self, b);
                if p(self.bookings@[i - 1]) {
                    assert(taken2.filter(p) == taken.filter(p).push(self.bookings@[i - 1]));
                    assert(taken2.filter(p).map_values(m) =~= taken.filter(p).map_values(m).push(
                        m(self.bookings@[i - 1]),
                    ));
                } else {
                    assert(taken2.filter(p) == taken.filter(p));
                }
            }
        }
        proof {
            assert(self.bookings@.take(n as int) =~= self.bookings@);
        }
        out
    }
}

/// The booking shows on a writer's upcoming list: paid, approved or
/// published, dated between today and the horizon, and joinable.
pub open spec fn upcoming_booking(s: Store, writer_id: u64, weeks: i32, today: i64, b: Booking) -> bool {
    &&& b.writer_id == writer_id
    &&& (b.status == BookingStatus::Paid || b.status == BookingStatus::Approved || b.status
        == BookingStatus::Published)
    &&& today <= b.slot_date <= today + 7 * (weeks as int)
    &&& joinable(s, b)
}

/// The widget's answer for one (writer, date) slot.
pub struct SlotCheck {
    pub available: bool,
    pub slot_date: i64,
    pub slots_remaining: i32,
    pub price_cents: i32,
    pub currency: String,
}

impl Store {
    /// The widget's single-slot check: a date closer than the writer's
    /// lead time is never available; otherwise availability is the
    /// capacity check, and the remaining count is read off the twelve
    /// week availability calendar, zero when the date is not on it.
    pub fn check_slot(&self, writer_id: u64, slot_date: i64, today: i64) -> (r: Result<
        SlotCheck,
        AppError,
    >)
        requires
            self.wf(),
            forall|i: int|
                0 <= i < self.writers@.len() && (#[trigger] self.writers@[i]).id == writer_id
                    ==> i64::MIN <= today + self.writers@[i].lead_time_days <= i64::MAX,
            i64::MIN <= today,
            today + 91 <= i64::MAX,
        ensures
            match r {
                Ok(check) => {
                    &&& self.has_writer(writer_id)
                    &&& check.slot_date == slot_date
                    &&& check.price_cents == self.spec_writer(writer_id).price_per_slot
                    &&& check.currency@ == self.spec_writer(writer_id).currency@
                    &&& {
                        let lead = self.spec_writer(writer_id).lead_time_days;
                        if slot_date < today + lead {
                            check.available == false && check.slots_remaining == 0
                        } else {
                            let cal = avail_from(
                                self.bookings@,
                                self.blackout_dates@,
                                self.spec_writer(writer_id),
                                today + lead,
                                candidate_count(today + lead, today + 84),
                            );
                            &&& check.available == self.spec_slot_available(
                                writer_id,
                                slot_date as int,
                            )
                            &&& (exists|i: int|
                                0 <= i < cal.len() && (#[trigger] cal[i]).available_date
                                    == slot_date && cal[i].slots_remaining
                                    == check.slots_remaining) || ((forall|i: int|
                                0 <= i < cal.len() ==> (#[trigger] cal[i]).available_date
                                    != slot_date) && check.slots_remaining == 0)
                        }
                    }
                },
                Err(AppError::NotFound(m)) => !self.has_writer(writer_id) && m@
                    == "Writer not found"@,
                Err(_) => false,
            },
    {
        let writer = match self.get_writer_by_id(writer_id) {
            Some(w) => w,
            None => {
                return Err(AppError::NotFound("Writer not found".to_owned()));
            },
        };
        proof {
            let wi = choose|i: int| 0 <= i < self.writers@.len() && self.writers@[i] == *writer;
            lemma_spec_writer_unique(*self, wi, writer_id);
        }
        let price = writer.price_per_slot;
        let currency = writer.currency.clone();
        let min_date: i64 = today + (writer.lead_time_days as i64);
        if slot_date < min_date {
            return Ok(
                SlotCheck {
                    available: false,
                    slot_date,
                    slots_remaining: 0,
                    price_cents: price,
                    currency,
                },
            );
        }
        let available = self.is_slot_available(writer_id, slot_date);
        let calendar = self.get_writer_availability(writer_id, 12, today);
        let mut remaining: i32 = 0;
        let mut i: usize = 0;
        let mut found = false;
        while i < calendar.len()
            invariant
                i <= calendar@.len(),
                !found ==> remaining == 0 && forall|j: int|
                    0 <= j < i ==> (#[trigger] calendar@[j]).available_date != slot_date,
                found ==> exists|j: int|
                    0 <= j < i && (#[trigger] calendar@[j]).available_date == slot_date
                        && calendar@[j].slots_remaining == remaining,
            decreases calendar@.len() - i,
        {
            if !found && calendar[i].available_date == slot_date {
                remaining = calendar[i].slots_remaining;
                found = true;
            }
            i += 1;
        }
        Ok(SlotCheck { available, slot_date, slots_remaining: remaining, price_cents: price, currency })
    }
}

impl Store {
    /// A writer's availability as shown to sponsors: the writer's
    /// price and currency with the forward calendar. An unknown
    /// writer is not found.
    pub fn writer_availability(&self, writer_id: u64, weeks_ahead: i32, today: i64) -> (r: Result<
        WriterAvailability,
        AppError,
    >)
        requires
            self.wf(),
            forall|i: int|
                0 <= i < self.writers@.len() && (#[trigger] self.writers@[i]).id == writer_id
                    ==> i64::MIN <= today + self.writers@[i].lead_time_days <= i64::MAX,
            i64::MIN <= today + 7 * (weeks_ahead as int),
            today + 7 * (weeks_ahead as int) + 7 <= i64::MAX,
        ensures
            match r {
                Ok(a) => {
                    &&& self.has_writer(writer_id)
                    &&& a.writer_id == writer_id
                    &&& a.newsletter_name@ == self.spec_writer(writer_id).newsletter_name@
                    &&& a.price_per_slot == self.spec_writer(writer_id).price_per_slot
                    &&& a.currency@ == self.spec_writer(writer_id).currency@
                    &&& a.available_slots@ == avail_from(
                        self.bookings@,
                        self.blackout_dates@,
                        self.spec_writer(writer_id),
                        today + self.spec_writer(writer_id).lead_time_days,
                        candidate_count(
                            today + self.spec_writer(writer_id).lead_time_days,
                            today + 7 * (weeks_ahead as int),
                        ),
                    )
                },
                Err(AppError::NotFound(m)) => !self.has_writer(writer_id) && m@
                    == "Writer not found"@,
                Err(_) => false,
            },
    {
        let writer = match self.get_writer_by_id(writer_id) {
            Some(w) => w,
            None => {
                return Err(AppError::NotFound("Writer not found".to_owned()));
            },
        };
        proof {
            let wi = choose|i: int| 0 <= i < self.writers@.len() && self.writers@[i] == *writer;
            lemma_spec_writer_unique(*self, wi, writer_id);
        }
        let newsletter_name = writer.newsletter_name.clone();
        let price_per_slot = writer.price_per_slot;
        let currency = writer.currency.clone();
        let available_slots = self.get_writer_availability(writer_id, weeks_ahead, today);
        Ok(
            WriterAvailability {
                writer_id,
                newsletter_name,
                price_per_slot,
                currency,
                available_slots,
            },
        )
    }
}

} // verus!
