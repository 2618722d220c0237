//! The relational store the engine works against, and the plain
//! create, read and update operations on writers, sponsors, users,
//! blackout dates and session tokens.
//!
//! Every operation here stands for one database statement or one
//! transaction against the relational store; the serializable unit of work
//! around a reservation or a payout snapshot becomes a single
//! `&mut self` call, because the row lock on the writer serializes
//! those transactions anyway. Booking reservation, booking
//! transitions and payouts have modules of their own.

use crate::errors::AppError;
use crate::models::{
    BlackoutDate, BlacklistedToken, Booking, CreateBlackoutDate, CreateSponsor, CreateUser,
    CreateWriter, Payout, Sponsor, UpdateSponsor, UpdateWriter, User, Writer,
};
use crate::text::{str_eq, trim, trim_of};
use vstd::prelude::*;

verus! {

/// The platform's default cut in hundredths of a percent: `10.00 %`.
pub const DEFAULT_PLATFORM_FEE_PCT: u32 = 1000;

/// The default currency of a new writer profile.
pub fn default_currency() -> (r: String)
    ensures
        r@ == "usd"@,
{
    "usd".to_owned()
}

/// The default minimum advance notice of a new writer profile, in days.
pub fn default_lead_time() -> (r: i32)
    ensures
        r == 7,
{
    7
}

/// The default weekly capacity of a new writer profile.
pub fn default_slots_per_week() -> (r: i32)
    ensures
        r == 1,
{
    1
}

/// No two writers share an id.
pub open spec fn writer_ids_unique(s: Seq<Writer>) -> bool {
    forall|i: int, j: int|
        0 <= i < j < s.len() ==> (#[trigger] s[i]).id != (#[trigger] s[j]).id
}

/// No two sponsors share an id.
pub open spec fn sponsor_ids_unique(s: Seq<Sponsor>) -> bool {
    forall|i: int, j: int|
        0 <= i < j < s.len() ==> (#[trigger] s[i]).id != (#[trigger] s[j]).id
}

/// No two users share an id.
pub open spec fn user_ids_unique(s: Seq<User>) -> bool {
    forall|i: int, j: int|
        0 <= i < j < s.len() ==> (#[trigger] s[i]).id != (#[trigger] s[j]).id
}

/// No two bookings share an id.
pub open spec fn booking_ids_unique(s: Seq<Booking>) -> bool {
    forall|i: int, j: int|
        0 <= i < j < s.len() ==> (#[trigger] s[i]).id != (#[trigger] s[j]).id
}

/// No two payouts share an id.
pub open spec fn payout_ids_unique(s: Seq<Payout>) -> bool {
    forall|i: int, j: int|
        0 <= i < j < s.len() ==> (#[trigger] s[i]).id != (#[trigger] s[j]).id
}

/// No value occurs twice in the sequence.
pub open spec fn u64s_unique(s: Seq<u64>) -> bool {
    forall|i: int, j: int| 0 <= i < j < s.len() ==> s[i] != s[j]
}

/// The two sequences share no value.
pub open spec fn u64s_disjoint(a: Seq<u64>, b: Seq<u64>) -> bool {
    forall|i: int, j: int| 0 <= i < a.len() && 0 <= j < b.len() ==> a[i] != b[j]
}

/// The booking-id sets of any two payouts that are processing or paid
/// share no booking: no booking is ever paid out twice.
pub open spec fn payout_claims_disjoint(ps: Seq<Payout>) -> bool {
    forall|i: int, j: int|
        0 <= i < ps.len() && 0 <= j < ps.len() && i != j && (#[trigger] ps[i]).claims_bookings()
            && (#[trigger] ps[j]).claims_bookings() ==> u64s_disjoint(
            ps[i].booking_ids@,
            ps[j].booking_ids@,
        )
}

/// The whole state of the system as the engine sees it.
pub struct Store {
    pub writers: Vec<Writer>,
    pub sponsors: Vec<Sponsor>,
    pub users: Vec<User>,
    pub bookings: Vec<Booking>,
    pub blackout_dates: Vec<BlackoutDate>,
    pub payouts: Vec<Payout>,
    pub blacklisted_tokens: Vec<BlacklistedToken>,
    pub next_id: u64,
}

impl Store {
    /// Every id already handed out is below the next free one.
    pub open spec fn ids_fresh(self) -> bool {
        &&& forall|i: int|
            0 <= i < self.writers@.len() ==> (#[trigger] self.writers@[i]).id < self.next_id
        &&& forall|i: int|
            0 <= i < self.sponsors@.len() ==> (#[trigger] self.sponsors@[i]).id < self.next_id
        &&& forall|i: int|
            0 <= i < self.users@.len() ==> (#[trigger] self.users@[i]).id < self.next_id
        &&& forall|i: int|
            0 <= i < self.bookings@.len() ==> (#[trigger] self.bookings@[i]).id < self.next_id
        &&& forall|i: int|
            0 <= i < self.blackout_dates@.len() ==> (#[trigger] self.blackout_dates@[i]).id
                < self.next_id
        &&& forall|i: int|
            0 <= i < self.payouts@.len() ==> (#[trigger] self.payouts@[i]).id < self.next_id
    }

    /// Every stored writer satisfies the writer bounds.
    pub open spec fn writers_ok(self) -> bool {
        forall|i: int| 0 <= i < self.writers@.len() ==> (#[trigger] self.writers@[i]).wf()
    }

    /// Every stored booking keeps the money invariant.
    pub open spec fn bookings_ok(self) -> bool {
        forall|i: int|
            0 <= i < self.bookings@.len() ==> (#[trigger] self.bookings@[i]).money_conserved()
    }

    /// Every payout lists each booking at most once, and processing or
    /// paid payouts never share a booking.
    pub open spec fn payouts_ok(self) -> bool {
        &&& forall|i: int|
            0 <= i < self.payouts@.len() ==> u64s_unique((#[trigger] self.payouts@[i]).booking_ids@)
        &&& payout_claims_disjoint(self.payouts@)
    }

    /// Well-formedness of the whole store: fresh and unique ids, writer
    /// bounds, the money invariant on every booking, and disjoint
    /// payout claims.
    pub open spec fn wf(self) -> bool {
        &&& self.ids_fresh()
        &&& writer_ids_unique(self.writers@)
        &&& sponsor_ids_unique(self.sponsors@)
        &&& user_ids_unique(self.users@)
        &&& booking_ids_unique(self.bookings@)
        &&& payout_ids_unique(self.payouts@)
        &&& self.writers_ok()
        &&& self.bookings_ok()
        &&& self.payouts_ok()
    }

    /// Field-by-field equality with another store.
    pub open spec fn unchanged_from(self, other: Store) -> bool {
        &&& self.writers@ == other.writers@
        &&& self.sponsors@ == other.sponsors@
        &&& self.users@ == other.users@
        &&& self.bookings@ == other.bookings@
        &&& self.blackout_dates@ == other.blackout_dates@
        &&& self.payouts@ == other.payouts@
        &&& self.blacklisted_tokens@ == other.blacklisted_tokens@
        &&& self.next_id == other.next_id
    }

    /// A writer with this id exists.
    pub open spec fn has_writer(self, id: u64) -> bool {
        exists|i: int| 0 <= i < self.writers@.len() && (#[trigger] self.writers@[i]).id == id
    }

    /// A writer profile for this user exists.
    pub open spec fn has_writer_for_user(self, user_id: u64) -> bool {
        exists|i: int|
            0 <= i < self.writers@.len() && (#[trigger] self.writers@[i]).user_id == user_id
    }

    /// A sponsor with this id exists.
    pub open spec fn has_sponsor(self, id: u64) -> bool {
        exists|i: int| 0 <= i < self.sponsors@.len() && (#[trigger] self.sponsors@[i]).id == id
    }

    /// A sponsor profile for this user exists.
    pub open spec fn has_sponsor_for_user(self, user_id: u64) -> bool {
        exists|i: int|
            0 <= i < self.sponsors@.len() && (#[trigger] self.sponsors@[i]).user_id == user_id
    }

    /// A user with this id exists.
    pub open spec fn has_user(self, id: u64) -> bool {
        exists|i: int| 0 <= i < self.users@.len() && (#[trigger] self.users@[i]).id == id
    }

    /// A user with exactly this email exists.
    pub open spec fn has_user_with_email(self, email: Seq<char>) -> bool {
        exists|i: int| 0 <= i < self.users@.len() && (#[trigger] self.users@[i]).email@ == email
    }

    /// A booking with this id exists.
    pub open spec fn has_booking(self, id: u64) -> bool {
        exists|i: int| 0 <= i < self.bookings@.len() && (#[trigger] self.bookings@[i]).id == id
    }

    /// The writer has declared this date a blackout date.
    pub open spec fn is_blackout(self, writer_id: u64, date: i64) -> bool {
        exists|i: int|
            0 <= i < self.blackout_dates@.len() && (#[trigger] self.blackout_dates@[i]).writer_id
                == writer_id && self.blackout_dates@[i].blocked_date == date
    }

    /// An empty store.
    pub fn new() -> (r: Store)
        ensures
            r.wf(),
            r.writers@.len() == 0,
            r.sponsors@.len() == 0,
            r.users@.len() == 0,
            r.bookings@.len() == 0,
            r.blackout_dates@.len() == 0,
            r.payouts@.len() == 0,
            r.blacklisted_tokens@.len() == 0,
    {
        Store {
            writers: Vec::new(),
            sponsors: Vec::new(),
            users: Vec::new(),
            bookings: Vec::new(),
            blackout_dates: Vec::new(),
            payouts: Vec::new(),
            blacklisted_tokens: Vec::new(),
            next_id: 1,
        }
    }

    /// The writer with this id, if any.
    pub fn get_writer_by_id(&self, id: u64) -> (r: Option<&Writer>)
        ensures
            match r {
                Some(w) => w.id == id && exists|i: int|
                    0 <= i < self.writers@.len() && self.writers@[i] == *w,
                None => !self.has_writer(id),
            },
    {
        let mut i: usize = 0;
        while i < self.writers.len()
            invariant
                i <= self.writers@.len(),
                forall|j: int| 0 <= j < i ==> (#[trigger] self.writers@[j]).id != id,
            decreases self.writers@.len() - i,
        {
            if self.writers[i].id == id {
                return Some(&self.writers[i]);
            }
            i += 1;
        }
        None
    }

    /// The writer profile of this user, if any.
    pub fn get_writer_by_user_id(&self, user_id: u64) -> (r: Option<&Writer>)
        ensures
            match r {
                Some(w) => w.user_id == user_id && exists|i: int|
                    0 <= i < self.writers@.len() && self.writers@[i] == *w,
                None => !self.has_writer_for_user(user_id),
            },
    {
        let mut i: usize = 0;
        while i < self.writers.len()
            invariant
                i <= self.writers@.len(),
                forall|j: int| 0 <= j < i ==> (#[trigger] self.writers@[j]).user_id != user_id,
            decreases self.writers@.len() - i,
        {
            if self.writers[i].user_id == user_id {
                return Some(&self.writers[i]);
            }
            i += 1;
        }
        None
    }

    /// The sponsor with this id, if any.
    pub fn get_sponsor_by_id(&self, id: u64) -> (r: Option<&Sponsor>)
        ensures
            match r {
                Some(s) => s.id == id && exists|i: int|
                    0 <= i < self.sponsors@.len() && self.sponsors@[i] == *s,
                None => !self.has_sponsor(id),
            },
    {
        let mut i: usize = 0;
        while i < self.sponsors.len()
            invariant
                i <= self.sponsors@.len(),
                forall|j: int| 0 <= j < i ==> (#[trigger] self.sponsors@[j]).id != id,
            decreases self.sponsors@.len() - i,
        {
            if self.sponsors[i].id == id {
                return Some(&self.sponsors[i]);
            }
            i += 1;
        }
        None
    }

    /// The sponsor profile of this user, if any.
    pub fn get_sponsor_by_user_id(&self, user_id: u64) -> (r: Option<&Sponsor>)
        ensures
            match r {
                Some(s) => s.user_id == user_id && exists|i: int|
                    0 <= i < self.sponsors@.len() && self.sponsors@[i] == *s,
                None => !self.has_sponsor_for_user(user_id),
            },
    {
        let mut i: usize = 0;
        while i < self.sponsors.len()
            invariant
                i <= self.sponsors@.len(),
                forall|j: int| 0 <= j < i ==> (#[trigger] self.sponsors@[j]).user_id != user_id,
            decreases self.sponsors@.len() - i,
        {
            if self.sponsors[i].user_id == user_id {
                return Some(&self.sponsors[i]);
            }
            i += 1;
        }
        None
    }

    /// The user with this id, if any.
    pub fn get_user_by_id(&self, id: u64) -> (r: Option<&User>)
        ensures
            match r {
                Some(u) => u.id == id && exists|i: int|
                    0 <= i < self.users@.len() && self.users@[i] == *u,
                None => !self.has_user(id),
            },
    {
        let mut i: usize = 0;
        while i < self.users.len()
            invariant
                i <= self.users@.len(),
                forall|j: int| 0 <= j < i ==> (#[trigger] self.users@[j]).id != id,
            decreases self.users@.len() - i,
        {
            if self.users[i].id == id {
                return Some(&self.users[i]);
            }
            i += 1;
        }
        None
    }

    /// The user with exactly this email, if any.
    pub fn get_user_by_email(&self, email: &str) -> (r: Option<&User>)
        ensures
            match r {
                Some(u) => u.email@ == email@ && exists|i: int|
                    0 <= i < self.users@.len() && self.users@[i] == *u,
                None => !self.has_user_with_email(email@),
            },
    {
        let mut i: usize = 0;
        while i < self.users.len()
            invariant
                i <= self.users@.len(),
                forall|j: int| 0 <= j < i ==> (#[trigger] self.users@[j]).email@ != email@,
            decreases self.users@.len() - i,
        {
            if str_eq(self.users[i].email.as_str(), email) {
                return Some(&self.users[i]);
            }
            i += 1;
        }
        None
    }

    /// The booking with this id, if any.
    pub fn get_booking_by_id(&self, id: u64) -> (r: Option<&Booking>)
        ensures
            match r {
                Some(b) => b.id == id && exists|i: int|
                    0 <= i < self.bookings@.len() && self.bookings@[i] == *b,
                None => !self.has_booking(id),
            },
    {
        let mut i: usize = 0;
        while i < self.bookings.len()
            invariant
                i <= self.bookings@.len(),
                forall|j: int| 0 <= j < i ==> (#[trigger] self.bookings@[j]).id != id,
            decreases self.bookings@.len() - i,
        {
            if self.bookings[i].id == id {
                return Some(&self.bookings[i]);
            }
            i += 1;
        }
        None
    }

    /// A booking recorded under this payment-provider order reference,
    /// if any.
    pub fn get_booking_by_lemon_order(&self, lemon_order_id: &str) -> (r: Option<&Booking>)
        ensures
            match r {
                Some(b) => b.lemon_order_id matches Some(o) && o@ == lemon_order_id@ && exists|
                    i: int,
                |
                    0 <= i < self.bookings@.len() && self.bookings@[i] == *b,
                None => forall|i: int|
                    0 <= i < self.bookings@.len() ==> !((#[trigger] self.bookings@[i]).lemon_order_id
                        matches Some(o) && o@ == lemon_order_id@),
            },
    {
        let mut i: usize = 0;
        while i < self.bookings.len()
            invariant
                i <= self.bookings@.len(),
                forall|j: int|
                    0 <= j < i ==> !((#[trigger] self.bookings@[j]).lemon_order_id matches Some(o)
                        && o@ == lemon_order_id@),
            decreases self.bookings@.len() - i,
        {
            match &self.bookings[i].lemon_order_id {
                Some(o) => {
                    if str_eq(o.as_str(), lemon_order_id) {
                        return Some(&self.bookings[i]);
                    }
                },
                None => {},
            }
            i += 1;
        }
        None
    }

    /// Creates a writer profile. Rejected with a conflict if the user
    /// already has one, and with a validation error on a blank
    /// newsletter name or a non-positive price. New profiles start
    /// with manual approval and the default platform fee.
    pub fn create_writer(&mut self, user_id: u64, input: CreateWriter, now: i64) -> (r: Result<
        u64,
        AppError,
    >)
        requires
            old(self).wf(),
            old(self).next_id < u64::MAX,
        ensures
            final(self).wf(),
            r is Err ==> final(self).unchanged_from(*old(self)),
            match r {
                Ok(id) => {
                    &&& !old(self).has_writer_for_user(user_id)
                    &&& trim_of(input.newsletter_name@).len() > 0
                    &&& input.price_per_slot >= 1
                    &&& id == old(self).next_id
                    &&& final(self).writers@ == old(self).writers@.push(
                        new_writer_record(old(self).next_id, user_id, input, now),
                    )
                    &&& final(self).next_id == old(self).next_id + 1
                    &&& final(self).sponsors@ == old(self).sponsors@
                    &&& final(self).users@ == old(self).users@
                    &&& final(self).bookings@ == old(self).bookings@
                    &&& final(self).blackout_dates@ == old(self).blackout_dates@
                    &&& final(self).payouts@ == old(self).payouts@
                    &&& final(self).blacklisted_tokens@ == old(self).blacklisted_tokens@
                },
                Err(AppError::Conflict(m)) => {
                    &&& old(self).has_writer_for_user(user_id)
                    &&& m@ == "Writer profile already exists"@
                },
                Err(AppError::Validation(m)) => {
                    &&& !old(self).has_writer_for_user(user_id)
                    &&& {
                        ||| (trim_of(input.newsletter_name@).len() == 0 && m@
                            == "Newsletter name is required"@)
                        ||| (trim_of(input.newsletter_name@).len() > 0 && input.price_per_slot < 1
                            && m@ == "Price per slot must be greater than 0"@)
                    }
                },
                Err(_) => false,
            },
    {
        if self.get_writer_by_user_id(user_id).is_some() {
            return Err(AppError::Conflict("Writer profile already exists".to_owned()));
        }
        if trim(input.newsletter_name.as_str()).is_empty() {
            return Err(AppError::Validation("Newsletter name is required".to_owned()));
        }
        if input.price_per_slot <= 0 {
            return Err(AppError::Validation("Price per slot must be greater than 0".to_owned()));
        }
        let id = self.next_id;
        let writer = Writer {
            id,
            user_id,
            newsletter_name: input.newsletter_name,
            newsletter_url: input.newsletter_url,
            description: input.description,
            subscriber_count: input.subscriber_count,
            price_per_slot: input.price_per_slot,
            currency: input.currency,
            lead_time_days: input.lead_time_days,
            slots_per_week: input.slots_per_week,
            auto_approve: false,
            platform_fee_pct: DEFAULT_PLATFORM_FEE_PCT,
            created_at: now,
            updated_at: now,
        };
        let ghost gw = writer;
        self.writers.push(writer);
        self.next_id = id + 1;
        proof {
            let ws = self.writers@;
            let ows = old(self).writers@;
            assert(ws == ows.push(gw));
            assert forall|a: int| 0 <= a < ws.len() implies (#[trigger] ws[a]).id
                < self.next_id by {
                if a < ows.len() {
                    assert(ws[a] == ows[a]);
                }
            }
            assert forall|a: int, b: int| 0 <= a < b < ws.len() implies (#[trigger] ws[a]).id != (
            #[trigger] ws[b]).id by {
                if b < ows.len() {
                    assert(ws[a] == ows[a]);
                    assert(ws[b] == ows[b]);
                } else {
                    assert(ws[a] == ows[a]);
                    assert(ws[b] == gw);
                }
            }
            assert forall|a: int| 0 <= a < ws.len() implies (#[trigger] ws[a]).wf() by {
                if a < ows.len() {
                    assert(ws[a] == ows[a]);
                }
            }
        }
        Ok(id)
    }

    /// Applies a partial update to a writer profile; fields left out
    /// keep their value. Rejected with a validation error on a blank
    /// new name or a non-positive new price, and with not-found if no
    /// such writer exists.
    pub fn update_writer(&mut self, writer_id: u64, input: UpdateWriter, now: i64) -> (r: Result<
        (),
        AppError,
    >)
        requires
            old(self).wf(),
        ensures
            final(self).wf(),
            r is Err ==> final(self).unchanged_from(*old(self)),
            match r {
                Ok(()) => {
                    &&& old(self).has_writer(writer_id)
                    &&& valid_writer_update(input)
                    &&& exists|i: int|
                        0 <= i < old(self).writers@.len() && (#[trigger] old(self).writers@[i]).id
                            == writer_id && final(self).writers@ == old(self).writers@.update(
                            i,
                            updated_writer_record(old(self).writers@[i], input, now),
                        )
                    &&& final(self).sponsors@ == old(self).sponsors@
                    &&& final(self).users@ == old(self).users@
                    &&& final(self).bookings@ == old(self).bookings@
                    &&& final(self).blackout_dates@ == old(self).blackout_dates@
                    &&& final(self).payouts@ == old(self).payouts@
                    &&& final(self).blacklisted_tokens@ == old(self).blacklisted_tokens@
                    &&& final(self).next_id == old(self).next_id
                },
                Err(AppError::Validation(_)) => !valid_writer_update(input),
                Err(AppError::NotFound(m)) => {
                    &&& valid_writer_update(input)
                    &&& !old(self).has_writer(writer_id)
                    &&& m@ == "Writer not found"@
                },
                Err(_) => false,
            },
    {
        match &input.newsletter_name {
            Some(name) => {
                if trim(name.as_str()).is_empty() {
                    return Err(AppError::Validation("Newsletter name cannot be empty".to_owned()));
                }
            },
            None => {},
        }
        match &input.price_per_slot {
            Some(price) => {
                if *price <= 0 {
                    return Err(
                        AppError::Validation("Price per slot must be greater than 0".to_owned()),
                    );
                }
            },
            None => {},
        }
        let idx = match self.find_writer_index(writer_id) {
            Some(i) => i,
            None => {
                return Err(AppError::NotFound("Writer not found".to_owned()));
            },
        };
        let ghost inp = input;
        let ghost ows = self.writers@;
        let ghost oldw = self.writers@[idx as int];
        let w = &mut self.writers[idx];
        match input.newsletter_name {
            Some(name) => {
                w.newsletter_name = name;
            },
            None => {},
        }
        match input.newsletter_url {
            Some(url) => {
                w.newsletter_url = Some(url);
            },
            None => {},
        }
        match input.description {
            Some(d) => {
                w.description = Some(d);
            },
            None => {},
        }
        match input.subscriber_count {
            Some(c) => {
                w.subscriber_count = Some(c);
            },
            None => {},
        }
        match input.price_per_slot {
            Some(p) => {
                w.price_per_slot = p;
            },
            None => {},
        }
        match input.lead_time_days {
            Some(d) => {
                w.lead_time_days = d;
            },
            None => {},
        }
        match input.slots_per_week {
            Some(s) => {
                w.slots_per_week = s;
            },
            None => {},
        }
        match input.auto_approve {
            Some(a) => {
                w.auto_approve = a;
            },
            None => {},
        }
        w.updated_at = now;
        proof {
            let ws = self.writers@;
            assert(ws == ows.update(idx as int, updated_writer_record(oldw, inp, now)));
            assert forall|a: int| 0 <= a < ws.len() implies (#[trigger] ws[a]).id == ows[a].id by {
                if a != idx as int {
                    assert(ws[a] == ows[a]);
                }
            }
            assert forall|a: int| 0 <= a < ws.len() implies (#[trigger] ws[a]).wf() by {
                assert(ows[a].wf());
                if a == idx as int {
                    assert(ws[a] == updated_writer_record(oldw, inp, now));
                } else {
                    assert(ws[a] == ows[a]);
                }
            }
        }
        Ok(())
    }

    /// The position of the writer with this id, if any.
    fn find_writer_index(&self, id: u64) -> (r: Option<usize>)
        ensures
            match r {
                Some(i) => i < self.writers@.len() && self.writers@[i as int].id == id,
                None => !self.has_writer(id),
            },
    {
        let mut i: usize = 0;
        while i < self.writers.len()
            invariant
                i <= self.writers@.len(),
                forall|j: int| 0 <= j < i ==> (#[trigger] self.writers@[j]).id != id,
            decreases self.writers@.len() - i,
        {
            if self.writers[i].id == id {
                return Some(i);
            }
            i += 1;
        }
        None
    }
}

/// The update carries no blank name and no non-positive price.
pub open spec fn valid_writer_update(input: UpdateWriter) -> bool {
    &&& (input.newsletter_name matches Some(n) ==> trim_of(n@).len() > 0)
    &&& (input.price_per_slot matches Some(p) ==> p >= 1)
}

/// The writer record a successful creation appends.
pub open spec fn new_writer_record(id: u64, user_id: u64, input: CreateWriter, now: i64) -> Writer {
    Writer {
        id,
        user_id,
        newsletter_name: input.newsletter_name,
        newsletter_url: input.newsletter_url,
        description: input.description,
        subscriber_count: input.subscriber_count,
        price_per_slot: input.price_per_slot,
        currency: input.currency,
        lead_time_days: input.lead_time_days,
        slots_per_week: input.slots_per_week,
        auto_approve: false,
        platform_fee_pct: DEFAULT_PLATFORM_FEE_PCT,
        created_at: now,
        updated_at: now,
    }
}

/// The writer record a partial update leaves behind.
pub open spec fn updated_writer_record(w: Writer, input: UpdateWriter, now: i64) -> Writer {
    Writer {
        newsletter_name: match input.newsletter_name {
            Some(n) => n,
            None => w.newsletter_name,
        },
        newsletter_url: match input.newsletter_url {
            Some(u) => Some(u),
            None => w.newsletter_url,
        },
        description: match input.description {
            Some(d) => Some(d),
            None => w.description,
        },
        subscriber_count: match input.subscriber_count {
            Some(c) => Some(c),
            None => w.subscriber_count,
        },
        price_per_slot: match input.price_per_slot {
            Some(p) => p,
            None => w.price_per_slot,
        },
        lead_time_days: match input.lead_time_days {
            Some(d) => d,
            None => w.lead_time_days,
        },
        slots_per_week: match input.slots_per_week {
            Some(s) => s,
            None => w.slots_per_week,
        },
        auto_approve: match input.auto_approve {
            Some(a) => a,
            None => w.auto_approve,
        },
        updated_at: now,
        ..w
    }
}

impl Store {
    /// Creates a sponsor profile and returns its id.
    pub fn create_sponsor(&mut self, user_id: u64, input: CreateSponsor, now: i64) -> (r: u64)
        requires
            old(self).wf(),
            old(self).next_id < u64::MAX,
        ensures
            final(self).wf(),
            r == old(self).next_id,
            final(self).sponsors@ == old(self).sponsors@.push(
                new_sponsor_record(old(self).next_id, user_id, input, now),
            ),
            final(self).next_id == old(self).next_id + 1,
            final(self).writers@ == old(self).writers@,
            final(self).users@ == old(self).users@,
            final(self).bookings@ == old(self).bookings@,
            final(self).blackout_dates@ == old(self).blackout_dates@,
            final(self).payouts@ == old(self).payouts@,
            final(self).blacklisted_tokens@ == old(self).blacklisted_tokens@,
    {
        let id = self.next_id;
        let sponsor = Sponsor {
            id,
            user_id,
            company_name: input.company_name,
            website_url: input.website_url,
            logo_url: input.logo_url,
            billing_email: input.billing_email,
            created_at: now,
            updated_at: now,
        };
        let ghost gs = sponsor;
        self.sponsors.push(sponsor);
        self.next_id = id + 1;
        proof {
            let ss = self.sponsors@;
            let oss = old(self).sponsors@;
            assert forall|a: int| 0 <= a < ss.len() implies (#[trigger] ss[a]).id
                < self.next_id by {
                if a < oss.len() {
                    assert(ss[a] == oss[a]);
                }
            }
            assert forall|a: int, b: int| 0 <= a < b < ss.len() implies (#[trigger] ss[a]).id != (
            #[trigger] ss[b]).id by {
                assert(ss[a] == oss[a]);
                if b < oss.len() {
                    assert(ss[b] == oss[b]);
                } else {
                    assert(ss[b] == gs);
                }
            }
        }
        id
    }

    /// The position of the sponsor with this id, if any.
    fn find_sponsor_index(&self, id: u64) -> (r: Option<usize>)
        ensures
            match r {
                Some(i) => i < self.sponsors@.len() && self.sponsors@[i as int].id == id,
                None => !self.has_sponsor(id),
            },
    {
        let mut i: usize = 0;
        while i < self.sponsors.len()
            invariant
                i <= self.sponsors@.len(),
                forall|j: int| 0 <= j < i ==> (#[trigger] self.sponsors@[j]).id != id,
            decreases self.sponsors@.len() - i,
        {
            if self.sponsors[i].id == id {
                return Some(i);
            }
            i += 1;
        }
        None
    }

    /// Applies a partial update to a sponsor profile; fields left out
    /// keep their value.
    pub fn update_sponsor(&mut self, sponsor_id: u64, input: UpdateSponsor, now: i64) -> (r:
        Result<(), AppError>)
        requires
            old(self).wf(),
        ensures
            final(self).wf(),
            r is Err ==> final(self).unchanged_from(*old(self)),
            match r {
                Ok(()) => {
                    &&& old(self).has_sponsor(sponsor_id)
                    &&& exists|i: int|
                        0 <= i < old(self).sponsors@.len() && (#[trigger] old(self).sponsors@[i]).id
                            == sponsor_id && final(self).sponsors@ == old(self).sponsors@.update(
                            i,
                            updated_sponsor_record(old(self).sponsors@[i], input, now),
                        )
                    &&& final(self).writers@ == old(self).writers@
                    &&& final(self).users@ == old(self).users@
                    &&& final(self).bookings@ == old(self).bookings@
                    &&& final(self).blackout_dates@ == old(self).blackout_dates@
                    &&& final(self).payouts@ == old(self).payouts@
                    &&& final(self).blacklisted_tokens@ == old(self).blacklisted_tokens@
                    &&& final(self).next_id == old(self).next_id
                },
                Err(AppError::NotFound(m)) => !old(self).has_sponsor(sponsor_id) && m@
                    == "Sponsor not found"@,
                Err(_) => false,
            },
    {
        let idx = match self.find_sponsor_index(sponsor_id) {
            Some(i) => i,
            None => {
                return Err(AppError::NotFound("Sponsor not found".to_owned()));
            },
        };
        let ghost inp = input;
        let ghost oss = self.sponsors@;
        let ghost olds = self.sponsors@[idx as int];
        let sp = &mut self.sponsors[idx];
        match input.company_name {
            Some(n) => {
                sp.company_name = n;
            },
            None => {},
        }
        match input.website_url {
            Some(u) => {
                sp.website_url = Some(u);
            },
            None => {},
        }
        match input.logo_url {
            Some(u) => {
                sp.logo_url = Some(u);
            },
            None => {},
        }
        match input.billing_email {
            Some(e) => {
                sp.billing_email = Some(e);
            },
            None => {},
        }
        sp.updated_at = now;
        proof {
            let ss = self.sponsors@;
            assert(ss == oss.update(idx as int, updated_sponsor_record(olds, inp, now)));
            assert forall|a: int| 0 <= a < ss.len() implies (#[trigger] ss[a]).id == oss[a].id by {
                if a != idx as int {
                    assert(ss[a] == oss[a]);
                }
            }
        }
        Ok(())
    }

    /// Creates an account with an already-hashed password. Rejected
    /// with a conflict if the email is already registered.
    pub fn create_user(&mut self, input: CreateUser, password_hash: String, now: i64) -> (r:
        Result<u64, AppError>)
        requires
            old(self).wf(),
            old(self).next_id < u64::MAX,
        ensures
            final(self).wf(),
            r is Err ==> final(self).unchanged_from(*old(self)),
            match r {
                Ok(id) => {
                    &&& !old(self).has_user_with_email(input.email@)
                    &&& id == old(self).next_id
                    &&& final(self).users@ == old(self).users@.push(
                        new_user_record(old(self).next_id, input, password_hash, now),
                    )
                    &&& final(self).next_id == old(self).next_id + 1
                    &&& final(self).writers@ == old(self).writers@
                    &&& final(self).sponsors@ == old(self).sponsors@
                    &&& final(self).bookings@ == old(self).bookings@
                    &&& final(self).blackout_dates@ == old(self).blackout_dates@
                    &&& final(self).payouts@ == old(self).payouts@
                    &&& final(self).blacklisted_tokens@ == old(self).blacklisted_tokens@
                },
                Err(AppError::Conflict(m)) => {
                    &&& old(self).has_user_with_email(input.email@)
                    &&& m@ == "Email already registered"@
                },
                Err(_) => false,
            },
    {
        if self.get_user_by_email(input.email.as_str()).is_some() {
            return Err(AppError::Conflict("Email already registered".to_owned()));
        }
        let id = self.next_id;
        let user = User {
            id,
            email: input.email,
            first_name: input.first_name,
            last_name: input.last_name,
            password_hash,
            role: input.role,
            created_at: now,
            updated_at: now,
            last_login_at: None,
            reset_token: None,
            reset_token_expires: None,
        };
        let ghost gu = user;
        self.users.push(user);
        self.next_id = id + 1;
        proof {
            let us = self.users@;
            let ous = old(self).users@;
            assert forall|a: int| 0 <= a < us.len() implies (#[trigger] us[a]).id
                < self.next_id by {
                if a < ous.len() {
                    assert(us[a] == ous[a]);
                }
            }
            assert forall|a: int, b: int| 0 <= a < b < us.len() implies (#[trigger] us[a]).id != (
            #[trigger] us[b]).id by {
                assert(us[a] == ous[a]);
                if b < ous.len() {
                    assert(us[b] == ous[b]);
                } else {
                    assert(us[b] == gu);
                }
            }
        }
        Ok(id)
    }

    /// The position of the user with this id, if any.
    fn find_user_index(&self, id: u64) -> (r: Option<usize>)
        ensures
            match r {
                Some(i) => i < self.users@.len() && self.users@[i as int].id == id,
                None => !self.has_user(id),
            },
    {
        let mut i: usize = 0;
        while i < self.users.len()
            invariant
                i <= self.users@.len(),
                forall|j: int| 0 <= j < i ==> (#[trigger] self.users@[j]).id != id,
            decreases self.users@.len() - i,
        {
            if self.users[i].id == id {
                return Some(i);
            }
            i += 1;
        }
        None
    }

    /// Stamps a user's last login; a missing user changes nothing.
    pub fn update_last_login(&mut self, user_id: u64, now: i64)
        requires
            old(self).wf(),
        ensures
            final(self).wf(),
            !old(self).has_user(user_id) ==> final(self).unchanged_from(*old(self)),
            old(self).has_user(user_id) ==> exists|i: int|
                0 <= i < old(self).users@.len() && (#[trigger] old(self).users@[i]).id == user_id
                    && final(self).users@ == old(self).users@.update(
                    i,
                    (User { last_login_at: Some(now), ..old(self).users@[i] }),
                ),
            final(self).writers@ == old(self).writers@,
            final(self).sponsors@ == old(self).sponsors@,
            final(self).bookings@ == old(self).bookings@,
            final(self).blackout_dates@ == old(self).blackout_dates@,
            final(self).payouts@ == old(self).payouts@,
            final(self).blacklisted_tokens@ == old(self).blacklisted_tokens@,
            final(self).next_id == old(self).next_id,
    {
        let idx = match self.find_user_index(user_id) {
            Some(i) => i,
            None => {
                return ;
            },
        };
        let ghost ous = self.users@;
        let u = &mut self.users[idx];
        u.last_login_at = Some(now);
        proof {
            let us = self.users@;
            assert forall|a: int| 0 <= a < us.len() implies (#[trigger] us[a]).id == ous[a].id by {
                if a != idx as int {
                    assert(us[a] == ous[a]);
                }
            }
        }
    }

    /// Stores a password-reset token for the account with this email,
    /// valid for one hour; reports whether such an account exists.
    pub fn set_reset_token(&mut self, email: &str, token: String, now: i64) -> (r: bool)
        requires
            old(self).wf(),
            now + 3600 <= i64::MAX,
        ensures
            final(self).wf(),
            r == old(self).has_user_with_email(email@),
            !r ==> final(self).unchanged_from(*old(self)),
            r ==> exists|i: int|
                0 <= i < old(self).users@.len() && (#[trigger] old(self).users@[i]).email@ == email@
                    && final(self).users@ == old(self).users@.update(
                    i,
                    (User {
                        reset_token: Some(token),
                        reset_token_expires: Some((now + 3600) as i64),
                        ..old(self).users@[i]
                    }),
                ),
            final(self).writers@ == old(self).writers@,
            final(self).sponsors@ == old(self).sponsors@,
            final(self).bookings@ == old(self).bookings@,
            final(self).blackout_dates@ == old(self).blackout_dates@,
            final(self).payouts@ == old(self).payouts@,
            final(self).blacklisted_tokens@ == old(self).blacklisted_tokens@,
            final(self).next_id == old(self).next_id,
    {
        let idx = match self.find_user_by_email_index(email) {
            Some(i) => i,
            None => {
                return false;
            },
        };
        let ghost ous = self.users@;
        let u = &mut self.users[idx];
        u.reset_token = Some(token);
        u.reset_token_expires = Some((now + 3600) as i64);
        proof {
            let us = self.users@;
            assert forall|a: int| 0 <= a < us.len() implies (#[trigger] us[a]).id == ous[a].id by {
                if a != idx as int {
                    assert(us[a] == ous[a]);
                }
            }
        }
        true
    }

    /// The position of the user with exactly this email, if any.
    fn find_user_by_email_index(&self, email: &str) -> (r: Option<usize>)
        ensures
            match r {
                Some(i) => i < self.users@.len() && self.users@[i as int].email@ == email@,
                None => !self.has_user_with_email(email@),
            },
    {
        let mut i: usize = 0;
        while i < self.users.len()
            invariant
                i <= self.users@.len(),
                forall|j: int| 0 <= j < i ==> (#[trigger] self.users@[j]).email@ != email@,
            decreases self.users@.len() - i,
        {
            if str_eq(self.users[i].email.as_str(), email) {
                return Some(i);
            }
            i += 1;
        }
        None
    }

    /// Resets the password of the account holding this unexpired reset
    /// token and clears the token; reports whether any account matched.
    pub fn reset_password(&mut self, token: &str, new_password_hash: String, now: i64) -> (r: bool)
        requires
            old(self).wf(),
        ensures
            final(self).wf(),
            r == exists|i: int|
                0 <= i < old(self).users@.len() && reset_token_matches(
                    #[trigger] old(self).users@[i],
                    token@,
                    now,
                ),
            !r ==> final(self).unchanged_from(*old(self)),
            r ==> exists|i: int|
                0 <= i < old(self).users@.len() && reset_token_matches(
                    #[trigger] old(self).users@[i],
                    token@,
                    now,
                ) && final(self).users@ == old(self).users@.update(
                    i,
                    (User {
                        password_hash: new_password_hash,
                        reset_token: None,
                        reset_token_expires: None,
                        ..old(self).users@[i]
                    }),
                ),
            final(self).writers@ == old(self).writers@,
            final(self).sponsors@ == old(self).sponsors@,
            final(self).bookings@ == old(self).bookings@,
            final(self).blackout_dates@ == old(self).blackout_dates@,
            final(self).payouts@ == old(self).payouts@,
            final(self).blacklisted_tokens@ == old(self).blacklisted_tokens@,
            final(self).next_id == old(self).next_id,
    {
        let idx = match self.find_reset_token_index(token, now) {
            Some(i) => i,
            None => {
                return false;
            },
        };
        let ghost ous = self.users@;
        let u = &mut self.users[idx];
        u.password_hash = new_password_hash;
        u.reset_token = None;
        u.reset_token_expires = None;
        proof {
            let us = self.users@;
            assert forall|a: int| 0 <= a < us.len() implies (#[trigger] us[a]).id == ous[a].id by {
                if a != idx as int {
                    assert(us[a] == ous[a]);
                }
            }
        }
        true
    }

    /// The position of the user holding this unexpired reset token, if
    /// any.
    fn find_reset_token_index(&self, token: &str, now: i64) -> (r: Option<usize>)
        ensures
            match r {
                Some(i) => i < self.users@.len() && reset_token_matches(
                    self.users@[i as int],
                    token@,
                    now,
                ),
                None => forall|j: int|
                    0 <= j < self.users@.len() ==> !reset_token_matches(
                        #[trigger] self.users@[j],
                        token@,
                        now,
                    ),
            },
    {
        let mut i: usize = 0;
        while i < self.users.len()
            invariant
                i <= self.users@.len(),
                forall|j: int|
                    0 <= j < i ==> !reset_token_matches(#[trigger] self.users@[j], token@, now),
            decreases self.users@.len() - i,
        {
            let matched = match &self.users[i].reset_token {
                Some(t) => {
                    if str_eq(t.as_str(), token) {
                        match &self.users[i].reset_token_expires {
                            Some(exp) => *exp > now,
                            None => false,
                        }
                    } else {
                        false
                    }
                },
                None => false,
            };
            if matched {
                return Some(i);
            }
            i += 1;
        }
        None
    }

    /// Declares a blackout date for a writer. Rejected with a
    /// validation error unless the date lies in the future.
    pub fn create_blackout_date(
        &mut self,
        writer_id: u64,
        input: CreateBlackoutDate,
        today: i64,
        now: i64,
    ) -> (r: Result<u64, AppError>)
        requires
            old(self).wf(),
            old(self).next_id < u64::MAX,
        ensures
            final(self).wf(),
            r is Err ==> final(self).unchanged_from(*old(self)),
            match r {
                Ok(id) => {
                    &&& input.blocked_date > today
                    &&& id == old(self).next_id
                    &&& final(self).blackout_dates@ == old(self).blackout_dates@.push(
                        new_blackout_record(old(self).next_id, writer_id, input, now),
                    )
                    &&& final(self).next_id == old(self).next_id + 1
                    &&& final(self).writers@ == old(self).writers@
                    &&& final(self).sponsors@ == old(self).sponsors@
                    &&& final(self).users@ == old(self).users@
                    &&& final(self).bookings@ == old(self).bookings@
                    &&& final(self).payouts@ == old(self).payouts@
                    &&& final(self).blacklisted_tokens@ == old(self).blacklisted_tokens@
                },
                Err(AppError::Validation(m)) => {
                    &&& input.blocked_date <= today
                    &&& m@ == "Blackout date must be in the future"@
                },
                Err(_) => false,
            },
    {
        if input.blocked_date <= today {
            return Err(AppError::Validation("Blackout date must be in the future".to_owned()));
        }
        let id = self.next_id;
        let blackout = BlackoutDate {
            id,
            writer_id,
            blocked_date: input.blocked_date,
            reason: input.reason,
            created_at: now,
        };
        let ghost gb = blackout;
        self.blackout_dates.push(blackout);
        self.next_id = id + 1;
        proof {
            let bs = self.blackout_dates@;
            let obs = old(self).blackout_dates@;
            assert forall|a: int| 0 <= a < bs.len() implies (#[trigger] bs[a]).id
                < self.next_id by {
                if a < obs.len() {
                    assert(bs[a] == obs[a]);
                }
            }
        }
        Ok(id)
    }

    /// Removes a writer's blackout on a date; reports whether one
    /// stood. Removal keeps the remaining blackouts in order.
    pub fn delete_blackout_date(&mut self, writer_id: u64, blocked_date: i64) -> (r: bool)
        requires
            old(self).wf(),
        ensures
            final(self).wf(),
            r == old(self).is_blackout(writer_id, blocked_date),
            !r ==> final(self).unchanged_from(*old(self)),
            r ==> exists|i: int|
                0 <= i < old(self).blackout_dates@.len() && (
                #[trigger] old(self).blackout_dates@[i]).writer_id == writer_id
                    && old(self).blackout_dates@[i].blocked_date == blocked_date && final(self).blackout_dates@ == old(self).blackout_dates@.remove(i),
            !final(self).is_blackout(writer_id, blocked_date) || old(self).blackout_dates@.len()
                > 1,
            final(self).writers@ == old(self).writers@,
            final(self).sponsors@ == old(self).sponsors@,
            final(self).users@ == old(self).users@,
            final(self).bookings@ == old(self).bookings@,
            final(self).payouts@ == old(self).payouts@,
            final(self).blacklisted_tokens@ == old(self).blacklisted_tokens@,
            final(self).next_id == old(self).next_id,
    {
        let idx = match self.find_blackout_index(writer_id, blocked_date) {
            Some(i) => i,
            None => {
                return false;
            },
        };
        let ghost obs = self.blackout_dates@;
        self.blackout_dates.remove(idx);
        proof {
            let bs = self.blackout_dates@;
            assert forall|a: int| 0 <= a < bs.len() implies (#[trigger] bs[a]).id
                < self.next_id by {
                if a < idx as int {
                    assert(bs[a] == obs[a]);
                } else {
                    assert(bs[a] == obs[a + 1]);
                }
            }
        }
        true
    }

    /// The position of a writer's blackout on a date, if any.
    fn find_blackout_index(&self, writer_id: u64, blocked_date: i64) -> (r: Option<usize>)
        ensures
            match r {
                Some(i) => i < self.blackout_dates@.len() && self.blackout_dates@[i as int].writer_id
                    == writer_id && self.blackout_dates@[i as int].blocked_date == blocked_date,
                None => !self.is_blackout(writer_id, blocked_date),
            },
    {
        let mut i: usize = 0;
        while i < self.blackout_dates.len()
            invariant
                i <= self.blackout_dates@.len(),
                forall|j: int|
                    0 <= j < i ==> !((#[trigger] self.blackout_dates@[j]).writer_id == writer_id
                        && self.blackout_dates@[j].blocked_date == blocked_date),
            decreases self.blackout_dates@.len() - i,
        {
            if self.blackout_dates[i].writer_id == writer_id && self.blackout_dates[i].blocked_date
                == blocked_date {
                return Some(i);
            }
            i += 1;
        }
        None
    }

    /// All blackout dates a writer has declared, in the order they
    /// were declared.
    pub fn get_writer_blackout_dates(&self, writer_id: u64) -> (r: Vec<BlackoutDate>)
        ensures
            r@ == self.blackout_dates@.filter(|b: BlackoutDate| b.writer_id == writer_id),
    {
        let mut r: Vec<BlackoutDate> = Vec::new();
        let mut i: usize = 0;
        proof {
            assert(self.blackout_dates@.take(0int) =~= Seq::<BlackoutDate>::empty());
            reveal(Seq::filter);
        }
        while i < self.blackout_dates.len()
            invariant
                i <= self.blackout_dates@.len(),
                r@ == self.blackout_dates@.take(i as int).filter(
                    |b: BlackoutDate| b.writer_id == writer_id,
                ),
            decreases self.blackout_dates@.len() - i,
        {
            let ghost taken = self.blackout_dates@.take(i as int);
            let b = &self.blackout_dates[i];
            if b.writer_id == writer_id {
                let copy = BlackoutDate {
                    id: b.id,
                    writer_id: b.writer_id,
                    blocked_date: b.blocked_date,
                    reason: clone_opt_string(&b.reason),
                    created_at: b.created_at,
                };
                proof {
                    assert(copy == self.blackout_dates@[i as int]);
                }
                r.push(copy);
            }
            i += 1;
            proof {
                let taken2 = self.blackout_dates@.take(i as int);
                assert(taken2.drop_last() =~= taken);
                assert(taken2.last() == self.blackout_dates@[i - 1]);
                reveal(Seq::filter);
                assert(r@ == taken2.filter(|b: BlackoutDate| b.writer_id == writer_id));
            }
        }
        proof {
            assert(self.blackout_dates@.take(self.blackout_dates@.len() as int)
                =~= self.blackout_dates@);
        }
        r
    }

    /// Revokes a session token until it would have expired anyway; a
    /// token already on the list stays as it was first recorded.
    pub fn blacklist_token(&mut self, token_hash: &str, user_id: u64, expires_at: i64)
        requires
            old(self).wf(),
        ensures
            final(self).wf(),
            old(self).has_blacklisted_token(token_hash@) ==> final(self).unchanged_from(
                *old(self),
            ),
            !old(self).has_blacklisted_token(token_hash@) ==> {
                &&& final(self).blacklisted_tokens@.len() == old(self).blacklisted_tokens@.len()
                    + 1
                &&& final(self).blacklisted_tokens@.drop_last() == old(self).blacklisted_tokens@
                &&& final(self).blacklisted_tokens@.last().token_hash@ == token_hash@
                &&& final(self).blacklisted_tokens@.last().user_id == user_id
                &&& final(self).blacklisted_tokens@.last().expires_at == expires_at
                &&& final(self).writers@ == old(self).writers@
                &&& final(self).sponsors@ == old(self).sponsors@
                &&& final(self).users@ == old(self).users@
                &&& final(self).bookings@ == old(self).bookings@
                &&& final(self).blackout_dates@ == old(self).blackout_dates@
                &&& final(self).payouts@ == old(self).payouts@
                &&& final(self).next_id == old(self).next_id
            },
    {
        let mut i: usize = 0;
        let n = self.blacklisted_tokens.len();
        while i < n
            invariant
                i <= n,
                n == self.blacklisted_tokens@.len(),
                forall|j: int|
                    0 <= j < i ==> (#[trigger] self.blacklisted_tokens@[j]).token_hash@
                        != token_hash@,
                self == old(self),
                old(self).wf(),
            decreases n - i,
        {
            if str_eq(self.blacklisted_tokens[i].token_hash.as_str(), token_hash) {
                return ;
            }
            i += 1;
        }
        self.blacklisted_tokens.push(
            BlacklistedToken { token_hash: token_hash.to_owned(), user_id, expires_at },
        );
    }

    /// Marks the moment all of a user's sessions were revoked. Tokens
    /// that are not on the list individually cannot be revoked one by
    /// one, so this only stamps the user record; a missing user
    /// changes nothing.
    pub fn blacklist_all_user_tokens(&mut self, user_id: u64, now: i64)
        requires
            old(self).wf(),
        ensures
            final(self).wf(),
            !old(self).has_user(user_id) ==> final(self).unchanged_from(*old(self)),
            old(self).has_user(user_id) ==> exists|i: int|
                0 <= i < old(self).users@.len() && (#[trigger] old(self).users@[i]).id == user_id
                    && final(self).users@ == old(self).users@.update(
                    i,
                    (User { updated_at: now, ..old(self).users@[i] }),
                ),
            final(self).writers@ == old(self).writers@,
            final(self).sponsors@ == old(self).sponsors@,
            final(self).bookings@ == old(self).bookings@,
            final(self).blackout_dates@ == old(self).blackout_dates@,
            final(self).payouts@ == old(self).payouts@,
            final(self).blacklisted_tokens@ == old(self).blacklisted_tokens@,
            final(self).next_id == old(self).next_id,
    {
        let idx = match self.find_user_index(user_id) {
            Some(i) => i,
            None => {
                return ;
            },
        };
        let ghost ous = self.users@;
        let u = &mut self.users[idx];
        u.updated_at = now;
        proof {
            let us = self.users@;
            assert forall|a: int| 0 <= a < us.len() implies (#[trigger] us[a]).id == ous[a].id by {
                if a != idx as int {
                    assert(us[a] == ous[a]);
                }
            }
        }
    }

    /// A token with this hash is on the revocation list.
    pub open spec fn has_blacklisted_token(self, token_hash: Seq<char>) -> bool {
        exists|i: int|
            0 <= i < self.blacklisted_tokens@.len() && (
            #[trigger] self.blacklisted_tokens@[i]).token_hash@ == token_hash
    }

    /// A token with this hash is on the revocation list and has not
    /// yet expired.
    pub open spec fn spec_token_blacklisted(self, token_hash: Seq<char>, now: i64) -> bool {
        exists|i: int|
            0 <= i < self.blacklisted_tokens@.len() && (
            #[trigger] self.blacklisted_tokens@[i]).token_hash@ == token_hash
                && self.blacklisted_tokens@[i].expires_at > now
    }

    /// Whether this token hash is revoked and the revocation has not
    /// expired.
    pub fn is_token_blacklisted(&self, token_hash: &str, now: i64) -> (r: bool)
        ensures
            r == self.spec_token_blacklisted(token_hash@, now),
    {
        let mut i: usize = 0;
        while i < self.blacklisted_tokens.len()
            invariant
                i <= self.blacklisted_tokens@.len(),
                forall|j: int|
                    0 <= j < i ==> !((#[trigger] self.blacklisted_tokens@[j]).token_hash@
                        == token_hash@ && self.blacklisted_tokens@[j].expires_at > now),
            decreases self.blacklisted_tokens@.len() - i,
        {
            if str_eq(self.blacklisted_tokens[i].token_hash.as_str(), token_hash)
                && self.blacklisted_tokens[i].expires_at > now {
                return true;
            }
            i += 1;
        }
        false
    }

    /// Drops expired revocations from the list and reports how many
    /// were dropped.
    pub fn cleanup_expired_tokens(&mut self, now: i64) -> (r: u64)
        requires
            old(self).wf(),
        ensures
            final(self).wf(),
            final(self).blacklisted_tokens@ == old(self).blacklisted_tokens@.filter(
                |t: BlacklistedToken| t.expires_at > now,
            ),
            r == old(self).blacklisted_tokens@.len() - final(self).blacklisted_tokens@.len(),
            final(self).writers@ == old(self).writers@,
            final(self).sponsors@ == old(self).sponsors@,
            final(self).users@ == old(self).users@,
            final(self).bookings@ == old(self).bookings@,
            final(self).blackout_dates@ == old(self).blackout_dates@,
            final(self).payouts@ == old(self).payouts@,
            final(self).next_id == old(self).next_id,
    {
        let mut kept: Vec<BlacklistedToken> = Vec::new();
        let n = self.blacklisted_tokens.len();
        proof {
            assert(old(self).blacklisted_tokens@.take(0int) =~= Seq::<BlacklistedToken>::empty());
            reveal(Seq::filter);
            broadcast use vstd::seq_lib::group_filter_ensures;

        }
        let mut i: usize = 0;
        while i < n
            invariant
                i <= n,
                n == self.blacklisted_tokens@.len(),
                self == old(self),
                kept@ == self.blacklisted_tokens@.take(i as int).filter(
                    |t: BlacklistedToken| t.expires_at > now,
                ),
                kept@.len() <= i,
            decreases n - i,
        {
            let ghost taken = self.blacklisted_tokens@.take(i as int);
            let t = &self.blacklisted_tokens[i];
            if t.expires_at > now {
                let copy = BlacklistedToken {
                    token_hash: t.token_hash.clone(),
                    user_id: t.user_id,
                    expires_at: t.expires_at,
                };
                proof {
                    assert(copy == self.blacklisted_tokens@[i as int]);
                }
                kept.push(copy);
            }
            i += 1;
            proof {
                let taken2 = self.blacklisted_tokens@.take(i as int);
                assert(taken2.drop_last() =~= taken);
                assert(taken2.last() == self.blacklisted_tokens@[i - 1]);
                reveal(Seq::filter);
                assert(kept@ == taken2.filter(|t: BlacklistedToken| t.expires_at > now));
                broadcast use vstd::seq_lib::group_filter_ensures;

                assert(taken2.filter(|t: BlacklistedToken| t.expires_at > now).len()
                    <= taken2.len());
            }
        }
        proof {
            assert(self.blacklisted_tokens@.take(n as int) =~= self.blacklisted_tokens@);
        }
        let removed = n - kept.len();
        self.blacklisted_tokens = kept;
        removed as u64
    }
}

/// A user holds this reset token and it has not expired.
pub open spec fn reset_token_matches(u: User, token: Seq<char>, now: i64) -> bool {
    &&& u.reset_token matches Some(t) && t@ == token
    &&& u.reset_token_expires matches Some(e) && e > now
}

/// The sponsor record a creation appends.
pub open spec fn new_sponsor_record(id: u64, user_id: u64, input: CreateSponsor, now: i64) -> Sponsor {
    Sponsor {
        id,
        user_id,
        company_name: input.company_name,
        website_url: input.website_url,
        logo_url: input.logo_url,
        billing_email: input.billing_email,
        created_at: now,
        updated_at: now,
    }
}

/// The sponsor record a partial update leaves behind.
pub open spec fn updated_sponsor_record(s: Sponsor, input: UpdateSponsor, now: i64) -> Sponsor {
    Sponsor {
        company_name: match input.company_name {
            Some(n) => n,
            None => s.company_name,
        },
        website_url: match input.website_url {
            Some(u) => Some(u),
            None => s.website_url,
        },
        logo_url: match input.logo_url {
            Some(u) => Some(u),
            None => s.logo_url,
        },
        billing_email: match input.billing_email {
            Some(e) => Some(e),
            None => s.billing_email,
        },
        updated_at: now,
        ..s
    }
}

/// The user record a signup appends.
pub open spec fn new_user_record(id: u64, input: CreateUser, password_hash: String, now: i64) -> User {
    User {
        id,
        email: input.email,
        first_name: input.first_name,
        last_name: input.last_name,
        password_hash,
        role: input.role,
        created_at: now,
        updated_at: now,
        last_login_at: None,
        reset_token: None,
        reset_token_expires: None,
    }
}

/// The blackout record a declaration appends.
pub open spec fn new_blackout_record(
    id: u64,
    writer_id: u64,
    input: CreateBlackoutDate,
    now: i64,
) -> BlackoutDate {
    BlackoutDate {
        id,
        writer_id,
        blocked_date: input.blocked_date,
        reason: input.reason,
        created_at: now,
    }
}

/// Copies an optional string.
pub fn clone_opt_string(o: &Option<String>) -> (r: Option<String>)
    ensures
        r == *o,
{
    match o {
        Some(s) => Some(s.clone()),
        None => None,
    }
}

/// Money is conserved on every booking of a well-formed store: the
/// platform fee and the writer payout are non-negative and add back
/// up to the amount, from creation on.
pub proof fn lemma_booking_money_conserved(s: Store, i: int)
    requires
        s.wf(),
        0 <= i < s.bookings@.len(),
    ensures
        s.bookings@[i].amount_cents == s.bookings@[i].platform_fee_cents
            + s.bookings@[i].writer_payout_cents,
        s.bookings@[i].platform_fee_cents >= 0,
        s.bookings@[i].writer_payout_cents >= 0,
{
    assert(s.bookings@[i].money_conserved());
}

} // verus!
