//! The payout eligibility engine: which published bookings may still
//! be paid out, bundling them into a payout batch, and the payout
//! status updates.
//!
//! A booking is eligible when it is `Published` and no processing or
//! paid payout already lists it. Creating a payout re-reads
//! eligibility and snapshots the chosen booking ids in the same unit
//! of work, which keeps the booking-id sets of processing and paid
//! payouts pairwise disjoint: no booking is ever paid out twice.

use crate::errors::AppError;
use crate::models::{Booking, Payout, PayoutSummary, WriterStats};
use crate::status::{BookingStatus, PayoutStatus};
use crate::store::{u64s_disjoint, u64s_unique, Store};
use vstd::prelude::*;

verus! {

/// Some processing or paid payout lists this booking.
pub open spec fn payout_claims(ps: Seq<Payout>, booking_id: u64) -> bool {
    exists|i: int, k: int|
        0 <= i < ps.len() && ps[i].claims_bookings() && 0 <= k < ps[i].booking_ids@.len() && (
        #[trigger] ps[i].booking_ids@[k]) == booking_id
}

/// The booking can go into a new payout for this writer: published,
/// and not yet claimed by any processing or paid payout.
pub open spec fn eligible_for_payout(ps: Seq<Payout>, writer_id: u64, b: Booking) -> bool {
    b.writer_id == writer_id && b.status == BookingStatus::Published && !payout_claims(ps, b.id)
}

/// The eligible bookings of a writer, in store order.
pub open spec fn eligible_seq(s: Store, writer_id: u64) -> Seq<Booking> {
    s.bookings@.filter(|b: Booking| eligible_for_payout(s.payouts@, writer_id, b))
}

/// The writer payouts of a run of bookings, summed.
pub open spec fn payout_sum(s: Seq<Booking>) -> int
    decreases s.len(),
{
    if s.len() == 0 {
        0
    } else {
        payout_sum(s.drop_last()) + s.last().writer_payout_cents
    }
}

/// Tightening the filter cannot raise the sum when no payout is
/// negative.
pub proof fn lemma_payout_sum_mono(
    s: Seq<Booking>,
    loose: spec_fn(Booking) -> bool,
    tight: spec_fn(Booking) -> bool,
)
    requires
        forall|i: int| 0 <= i < s.len() ==> (#[trigger] s[i]).writer_payout_cents >= 0,
        forall|b: Booking| #[trigger] tight(b) ==> loose(b),
    ensures
        0 <= payout_sum(s.filter(tight)) <= payout_sum(s.filter(loose)),
    decreases s.len(),
{
    reveal(Seq::filter);
    if s.len() == 0 {
    } else {
        let dl = s.drop_last();
        assert(forall|i: int| 0 <= i < dl.len() ==> (#[trigger] dl[i]).writer_payout_cents >= 0);
        lemma_payout_sum_mono(dl, loose, tight);
        assert(s[s.len() - 1].writer_payout_cents >= 0);
        let last = s.last();
        if tight(last) {
            assert(loose(last));
            let ft = dl.filter(tight).push(last);
            let fl = dl.filter(loose).push(last);
            assert(ft.drop_last() =~= dl.filter(tight));
            assert(fl.drop_last() =~= dl.filter(loose));
            assert(payout_sum(ft) == payout_sum(dl.filter(tight)) + last.writer_payout_cents);
            assert(payout_sum(fl) == payout_sum(dl.filter(loose)) + last.writer_payout_cents);
        } else if loose(last) {
            let fl = dl.filter(loose).push(last);
            assert(fl.drop_last() =~= dl.filter(loose));
            assert(payout_sum(fl) == payout_sum(dl.filter(loose)) + last.writer_payout_cents);
        }
    }
}

impl Store {
    /// Whether some processing or paid payout lists this booking.
    pub fn is_booking_claimed(&self, booking_id: u64) -> (r: bool)
        ensures
            r == payout_claims(self.payouts@, booking_id),
    {
        let mut i: usize = 0;
        while i < self.payouts.len()
            invariant
                i <= self.payouts@.len(),
                forall|pi: int, k: int|
                    0 <= pi < i && self.payouts@[pi].claims_bookings() && 0 <= k
                        < self.payouts@[pi].booking_ids@.len() ==> (
                    #[trigger] self.payouts@[pi].booking_ids@[k]) != booking_id,
            decreases self.payouts@.len() - i,
        {
            let p = &self.payouts[i];
            let claims = match p.status {
                PayoutStatus::Processing => true,
                PayoutStatus::Paid => true,
                _ => false,
            };
            if claims {
                let mut k: usize = 0;
                while k < p.booking_ids.len()
                    invariant
                        k <= p.booking_ids@.len(),
                        forall|x: int| 0 <= x < k ==> p.booking_ids@[x] != booking_id,
                        i < self.payouts@.len(),
                        *p == self.payouts@[i as int],
                        p.claims_bookings(),
                    decreases p.booking_ids@.len() - k,
                {
                    if p.booking_ids[k] == booking_id {
                        proof {
                            assert(self.payouts@[i as int].booking_ids@[k as int] == booking_id);
                        }
                        return true;
                    }
                    k += 1;
                }
            }
            i += 1;
        }
        false
    }

    /// The eligible bookings of a writer — published and not yet in
    /// any processing or paid payout — in store order.
    pub fn get_eligible_bookings_for_payout(&self, writer_id: u64) -> (r: Vec<Booking>)
        ensures
            r@ == eligible_seq(*self, writer_id),
    {
        let mut out: Vec<Booking> = Vec::new();
        let mut i: usize = 0;
        proof {
            assert(self.bookings@.take(0int) =~= Seq::<Booking>::empty());
            reveal(Seq::filter);
        }
        while i < self.bookings.len()
            invariant
                i <= self.bookings@.len(),
                out@ == self.bookings@.take(i as int).filter(
                    |b: Booking| eligible_for_payout(self.payouts@, writer_id, b),
                ),
            decreases self.bookings@.len() - i,
        {
            let ghost taken = self.bookings@.take(i as int);
            let b = &self.bookings[i];
            let published = match b.status {
                BookingStatus::Published => true,
                _ => false,
            };
            if b.writer_id == writer_id && published && !self.is_booking_claimed(b.id) {
                let copy = clone_booking(b);
                proof {
                    assert(copy == self.bookings@[i as int]);
                }
                out.push(copy);
            }
            i += 1;
            proof {
                let taken2 = self.bookings@.take(i as int);
                assert(taken2.drop_last() =~= taken);
                assert(taken2.last() == self.bookings@[i - 1]);
                reveal(Seq::filter);
                assert(out@ == taken2.filter(
                    |b: Booking| eligible_for_payout(self.payouts@, writer_id, b),
                ));
            }
        }
        proof {
            assert(self.bookings@.take(self.bookings@.len() as int) =~= self.bookings@);
        }
        out
    }
}

/// Copies a booking record.
pub fn clone_booking(b: &Booking) -> (r: Booking)
    ensures
        r == *b,
{
    Booking {
        id: b.id,
        writer_id: b.writer_id,
        sponsor_id: b.sponsor_id,
        slot_date: b.slot_date,
        ad_headline: b.ad_headline.clone(),
        ad_body: b.ad_body.clone(),
        ad_cta_text: crate::store::clone_opt_string(&b.ad_cta_text),
        ad_cta_url: b.ad_cta_url.clone(),
        ad_image_url: crate::store::clone_opt_string(&b.ad_image_url),
        status: b.status,
        amount_cents: b.amount_cents,
        platform_fee_cents: b.platform_fee_cents,
        writer_payout_cents: b.writer_payout_cents,
        currency: b.currency.clone(),
        lemon_order_id: crate::store::clone_opt_string(&b.lemon_order_id),
        created_at: b.created_at,
        paid_at: b.paid_at,
        approved_at: b.approved_at,
        rejected_at: b.rejected_at,
        published_at: b.published_at,
    }
}

/// The spec view of an optional id list.
pub open spec fn view_of_opt_ids(o: Option<Vec<u64>>) -> Option<Seq<u64>> {
    match o {
        Some(v) => Some(v@),
        None => None,
    }
}

/// The booking goes into the requested payout: eligible, and — when a
/// subset was named — among the named ids.
pub open spec fn chosen_for_payout(
    ps: Seq<Payout>,
    writer_id: u64,
    sel: Option<Seq<u64>>,
    b: Booking,
) -> bool {
    eligible_for_payout(ps, writer_id, b) && match sel {
        None => true,
        Some(ids) => ids.contains(b.id),
    }
}

/// The first `i` bookings that would go into the requested payout.
pub open spec fn chosen_prefix(s: Store, writer_id: u64, sel: Option<Seq<u64>>, i: int) -> Seq<
    Booking,
> {
    s.bookings@.take(i).filter(|b: Booking| chosen_for_payout(s.payouts@, writer_id, sel, b))
}

/// The bookings that go into the requested payout, in store order.
pub open spec fn chosen_seq(s: Store, writer_id: u64, sel: Option<Seq<u64>>) -> Seq<Booking> {
    chosen_prefix(s, writer_id, sel, s.bookings@.len() as int)
}

/// Whether the value occurs in the list.
pub fn contains_u64(v: &Vec<u64>, x: u64) -> (r: bool)
    ensures
        r == v@.contains(x),
{
    let mut i: usize = 0;
    while i < v.len()
        invariant
            i <= v@.len(),
            forall|j: int| 0 <= j < i ==> v@[j] != x,
        decreases v@.len() - i,
    {
        if v[i] == x {
            return true;
        }
        i += 1;
    }
    false
}

impl Store {
    /// Requests a payout: re-reads eligibility, intersects with the
    /// named subset if one was given, and snapshots the chosen
    /// booking ids into a new payout in `Processing`, all in one unit
    /// of work — which is what keeps processing and paid payouts
    /// pairwise disjoint. Rejected when nothing is eligible, or when
    /// the named subset hits nothing eligible.
    pub fn request_payout(
        &mut self,
        writer_id: u64,
        booking_ids: Option<Vec<u64>>,
        lemon_payout_id: String,
        now: i64,
    ) -> (r: Result<u64, AppError>)
        requires
            old(self).wf(),
            old(self).next_id < u64::MAX,
            old(self).bookings@.len() <= 0x7fff_ffff,
            payout_sum(eligible_seq(*old(self), writer_id)) <= i32::MAX,
        ensures
            final(self).wf(),
            r is Err ==> final(self).unchanged_from(*old(self)),
            match r {
                Ok(pid) => {
                    &&& eligible_seq(*old(self), writer_id).len() > 0
                    &&& chosen_seq(*old(self), writer_id, view_of_opt_ids(booking_ids)).len() > 0
                    &&& pid == old(self).next_id
                    &&& final(self).next_id == old(self).next_id + 1
                    &&& final(self).payouts@.len() == old(self).payouts@.len() + 1
                    &&& final(self).payouts@.drop_last() == old(self).payouts@
                    &&& {
                        let p = final(self).payouts@.last();
                        let chosen = chosen_seq(
                            *old(self),
                            writer_id,
                            view_of_opt_ids(booking_ids),
                        );
                        &&& p.id == old(self).next_id
                        &&& p.writer_id == writer_id
                        &&& p.status == PayoutStatus::Processing
                        &&& p.amount_cents == payout_sum(chosen)
                        &&& p.booking_ids@ == chosen.map_values(|b: Booking| b.id)
                        &&& p.currency@ == chosen[0].currency@
                        &&& p.lemon_payout_id matches Some(o) && o@ == lemon_payout_id@
                        &&& p.created_at == now
                        &&& p.paid_at is None
                        &&& p.failed_at is None
                        &&& p.failure_reason is None
                    }
                    &&& final(self).writers@ == old(self).writers@
                    &&& final(self).sponsors@ == old(self).sponsors@
                    &&& final(self).users@ == old(self).users@
                    &&& final(self).bookings@ == old(self).bookings@
                    &&& final(self).blackout_dates@ == old(self).blackout_dates@
                    &&& final(self).blacklisted_tokens@ == old(self).blacklisted_tokens@
                },
                Err(AppError::BadRequest(m)) => {
                    ||| (eligible_seq(*old(self), writer_id).len() == 0 && m@
                        == "No eligible bookings for payout"@)
                    ||| (eligible_seq(*old(self), writer_id).len() > 0 && chosen_seq(
                        *old(self),
                        writer_id,
                        view_of_opt_ids(booking_ids),
                    ).len() == 0 && m@ == "No matching eligible bookings"@)
                },
                Err(_) => false,
            },
    {
        let ghost sel = view_of_opt_ids(booking_ids);
        let mut n_elig: usize = 0;
        let mut ids: Vec<u64> = Vec::new();
        let mut total: i64 = 0;
        let mut currency: Option<String> = None;
        let n = self.bookings.len();
        proof {
            assert(self.bookings@.take(0int) =~= Seq::<Booking>::empty());
            reveal(Seq::filter);
        }
        let mut i: usize = 0;
        while i < n
            invariant
                i <= n,
                n == self.bookings@.len(),
                n <= 0x7fff_ffff,
                self == old(self),
                old(self).wf(),
                sel == view_of_opt_ids(booking_ids),
                n_elig == self.bookings@.take(i as int).filter(
                    |b: Booking| eligible_for_payout(self.payouts@, writer_id, b),
                ).len(),
                n_elig <= i,
                ids@ == chosen_prefix(*self, writer_id, sel, i as int).map_values(
                    |b: Booking| b.id,
                ),
                total == payout_sum(chosen_prefix(*self, writer_id, sel, i as int)),
                0 <= total,
                total <= ids@.len() * 0x7fff_ffffi64,
                ids@.len() <= i,
                forall|a: int|
                    0 <= a < ids@.len() ==> !payout_claims(self.payouts@, #[trigger] ids@[a]),
                forall|a: int, b: int| 0 <= a < b < ids@.len() ==> ids@[a] != ids@[b],
                forall|a: int|
                    0 <= a < ids@.len() ==> exists|bi: int|
                        0 <= bi < i && (#[trigger] self.bookings@[bi]).id == #[trigger] ids@[a],
                match (currency, chosen_prefix(*self, writer_id, sel, i as int).len()) {
                    (Some(c), l) => l > 0 && c@ == chosen_prefix(*self, writer_id, sel, i as int)[0].currency@,
                    (None, l) => l == 0,
                },
            decreases n - i,
        {
            let ghost taken = self.bookings@.take(i as int);
            let ghost old_chosen = chosen_prefix(*self, writer_id, sel, i as int);
            let b = &self.bookings[i];
            let published = match b.status {
                BookingStatus::Published => true,
                _ => false,
            };
            let eligible = b.writer_id == writer_id && published && !self.is_booking_claimed(b.id);
            let selected = eligible && match &booking_ids {
                None => true,
                Some(v) => contains_u64(v, b.id),
            };
            if eligible {
                n_elig += 1;
            }
            if selected {
                proof {
                    assert(self.bookings@[i as int].money_conserved());
                    assert forall|a: int| 0 <= a < ids@.len() implies ids@[a]
                        != self.bookings@[i as int].id by {
                        let bi = choose|bi: int|
                            0 <= bi < i && (#[trigger] self.bookings@[bi]).id == ids@[a];
                        assert(self.bookings@[bi].id != self.bookings@[i as int].id);
                    }
                }
                if currency.is_none() {
                    currency = Some(b.currency.clone());
                }
                ids.push(b.id);
                total = total + (b.writer_payout_cents as i64);
            }
            i += 1;
            proof {
                let taken2 = self.bookings@.take(i as int);
                assert(taken2.drop_last() =~= taken);
                assert(taken2.last() == self.bookings@[i - 1]);
                reveal(Seq::filter);
                let new_chosen = chosen_prefix(*self, writer_id, sel, i as int);
                if selected {
                    assert(new_chosen == old_chosen.push(self.bookings@[i - 1]));
                    assert(new_chosen.drop_last() =~= old_chosen);
                    assert(payout_sum(new_chosen) == payout_sum(old_chosen)
                        + self.bookings@[i - 1].writer_payout_cents);
                    assert(ids@ =~= new_chosen.map_values(|b: Booking| b.id));
                    if old_chosen.len() == 0 {
                        assert(new_chosen[0] == self.bookings@[i - 1]);
                    } else {
                        assert(new_chosen[0] == old_chosen[0]);
                    }
                } else {
                    assert(new_chosen == old_chosen);
                }
            }
        }
        proof {
            assert(self.bookings@.take(n as int) =~= self.bookings@);
            assert(chosen_prefix(*self, writer_id, sel, n as int) == chosen_seq(*self, writer_id, sel));
            assert(eligible_seq(*self, writer_id) == self.bookings@.take(n as int).filter(
                |b: Booking| eligible_for_payout(self.payouts@, writer_id, b),
            ));
        }
        if n_elig == 0 {
            return Err(AppError::BadRequest("No eligible bookings for payout".to_owned()));
        }
        if ids.is_empty() {
            return Err(AppError::BadRequest("No matching eligible bookings".to_owned()));
        }
        proof {
            let chosen = chosen_seq(*self, writer_id, sel);
            assert(chosen.map_values(|b: Booking| b.id).len() == chosen.len());
            assert(chosen.len() > 0);
            assert forall|x: int|
                0 <= x < self.bookings@.len() implies (#[trigger] self.bookings@[x]).writer_payout_cents
                >= 0 by {
                assert(self.bookings@[x].money_conserved());
            }
            match sel {
                None => {
                    assert((|b: Booking| chosen_for_payout(self.payouts@, writer_id, sel, b)) =~= (
                    |b: Booking| eligible_for_payout(self.payouts@, writer_id, b)));
                    assert(chosen == eligible_seq(*self, writer_id));
                },
                Some(_) => {
                    lemma_payout_sum_mono(
                        self.bookings@,
                        |b: Booking| eligible_for_payout(self.payouts@, writer_id, b),
                        |b: Booking| chosen_for_payout(self.payouts@, writer_id, sel, b),
                    );
                },
            }
            assert(total <= i32::MAX);
        }
        let amount: i32 = total as i32;
        let currency_val = match currency {
            Some(c) => c,
            None => {
                proof {
                    assert(false);
                }
                default_payout_currency()
            },
        };
        let id = self.next_id;
        let payout = Payout {
            id,
            writer_id,
            amount_cents: amount,
            currency: currency_val,
            status: PayoutStatus::Processing,
            lemon_payout_id: Some(lemon_payout_id),
            booking_ids: ids,
            created_at: now,
            paid_at: None,
            failed_at: None,
            failure_reason: None,
        };
        let ghost gp = payout;
        self.payouts.push(payout);
        self.next_id = id + 1;
        proof {
            let ps = self.payouts@;
            let ops = old(self).payouts@;
            assert(ps == ops.push(gp));
            assert(ps.drop_last() =~= ops);
            assert forall|a: int| 0 <= a < ps.len() implies (#[trigger] ps[a]).id
                < self.next_id by {
                if a < ops.len() {
                    assert(ps[a] == ops[a]);
                }
            }
            assert forall|a: int, b: int| 0 <= a < b < ps.len() implies (#[trigger] ps[a]).id != (
            #[trigger] ps[b]).id by {
                assert(ps[a] == ops[a]);
                if b < ops.len() {
                    assert(ps[b] == ops[b]);
                } else {
                    assert(ps[b] == gp);
                }
            }
            assert forall|a: int| 0 <= a < ps.len() implies u64s_unique(
                (#[trigger] ps[a]).booking_ids@,
            ) by {
                if a < ops.len() {
                    assert(ps[a] == ops[a]);
                } else {
                    assert(ps[a] == gp);
                }
            }
            assert forall|a: int, b: int|
                0 <= a < ps.len() && 0 <= b < ps.len() && a != b && (
                #[trigger] ps[a]).claims_bookings() && (#[trigger] ps[b]).claims_bookings() implies u64s_disjoint(
                ps[a].booking_ids@,
                ps[b].booking_ids@,
            ) by {
                if a < ops.len() && b < ops.len() {
                    assert(ps[a] == ops[a]);
                    assert(ps[b] == ops[b]);
                } else if a < ops.len() {
                    assert(ps[a] == ops[a]);
                    assert(ps[b] == gp);
                    assert forall|x: int, y: int|
                        0 <= x < ps[a].booking_ids@.len() && 0 <= y
                            < gp.booking_ids@.len() implies ps[a].booking_ids@[x]
                        != gp.booking_ids@[y] by {
                        assert(!payout_claims(old(self).payouts@, gp.booking_ids@[y]));
                        assert(ops[a].claims_bookings());
                        if ops[a].booking_ids@[x] == gp.booking_ids@[y] {
                            assert(payout_claims(ops, gp.booking_ids@[y]));
                        }
                    }
                } else {
                    assert(ps[a] == gp);
                    assert(ps[b] == ops[b]);
                    assert forall|x: int, y: int|
                        0 <= x < gp.booking_ids@.len() && 0 <= y
                            < ps[b].booking_ids@.len() implies gp.booking_ids@[x]
                        != ps[b].booking_ids@[y] by {
                        assert(!payout_claims(old(self).payouts@, gp.booking_ids@[x]));
                        assert(ops[b].claims_bookings());
                        if ops[b].booking_ids@[y] == gp.booking_ids@[x] {
                            assert(payout_claims(ops, gp.booking_ids@[x]));
                        }
                    }
                }
            }
        }
        Ok(id)
    }
}

/// The fallback currency of a payout with no bookings behind it; never
/// actually reached, because an empty payout is rejected first.
pub fn default_payout_currency() -> (r: String)
    ensures
        r@ == "usd"@,
{
    "usd".to_owned()
}

impl Store {
    /// A payout with this id exists.
    pub open spec fn has_payout(self, id: u64) -> bool {
        exists|i: int| 0 <= i < self.payouts@.len() && (#[trigger] self.payouts@[i]).id == id
    }

    /// The position of some payout record with this id; meaningful
    /// only when one exists.
    pub open spec fn payout_index(self, id: u64) -> int {
        choose|i: int| 0 <= i < self.payouts@.len() && (#[trigger] self.payouts@[i]).id == id
    }

    /// The payout record with this id; meaningful only when one
    /// exists.
    pub open spec fn spec_payout(self, id: u64) -> Payout {
        self.payouts@[self.payout_index(id)]
    }

    /// The position of the payout with this id, if any.
    fn find_payout_index(&self, id: u64) -> (r: Option<usize>)
        ensures
            match r {
                Some(i) => i < self.payouts@.len() && self.payouts@[i as int].id == id,
                None => !self.has_payout(id),
            },
    {
        let mut i: usize = 0;
        while i < self.payouts.len()
            invariant
                i <= self.payouts@.len(),
                forall|j: int| 0 <= j < i ==> (#[trigger] self.payouts@[j]).id != id,
            decreases self.payouts@.len() - i,
        {
            if self.payouts[i].id == id {
                return Some(i);
            }
            i += 1;
        }
        None
    }

    /// Updates a payout's status along its own lifecycle:
    /// `Pending -> Processing` (allowed only while its bookings are
    /// unclaimed, which keeps payout claims disjoint),
    /// `Processing -> Paid` stamping `paid_at`, and
    /// `Processing -> Failed` stamping `failed_at` and the reason. An
    /// unknown payout changes nothing; any other transition is
    /// refused with no write.
    pub fn update_payout_status(
        &mut self,
        payout_id: u64,
        status: PayoutStatus,
        failure_reason: Option<String>,
        now: i64,
    ) -> (r: Result<(), AppError>)
        requires
            old(self).wf(),
        ensures
            final(self).wf(),
            r is Err ==> final(self).unchanged_from(*old(self)),
            !old(self).has_payout(payout_id) ==> r is Ok && final(self).unchanged_from(
                *old(self),
            ),
            old(self).has_payout(payout_id) ==> {
                let p = old(self).spec_payout(payout_id);
                let i = old(self).payout_index(payout_id);
                match (p.status, status) {
                    (PayoutStatus::Processing, PayoutStatus::Paid) => r is Ok && final(self).payout_status_updated(
                        *old(self),
                        i,
                        (Payout { status, paid_at: Some(now), ..p }),
                    ),
                    (PayoutStatus::Processing, PayoutStatus::Failed) => r is Ok && final(self).payout_status_updated(
                        *old(self),
                        i,
                        (Payout { status, failed_at: Some(now), failure_reason, ..p }),
                    ),
                    (PayoutStatus::Pending, PayoutStatus::Processing) => {
                        if forall|k: int|
                            0 <= k < p.booking_ids@.len() ==> !payout_claims(
                                old(self).payouts@,
                                #[trigger] p.booking_ids@[k],
                            ) {
                            r is Ok && final(self).payout_status_updated(
                                *old(self),
                                i,
                                (Payout { status, ..p }),
                            )
                        } else {
                            r matches Err(AppError::Conflict(_))
                        }
                    },
                    _ => r matches Err(AppError::BadRequest(m)) && m@
                        == "Invalid payout status transition"@,
                }
            },
    {
        let idx = match self.find_payout_index(payout_id) {
            Some(i) => i,
            None => {
                return Ok(());
            },
        };
        proof {
            lemma_spec_payout_unique(*self, idx as int, payout_id);
        }
        let from = self.payouts[idx].status;
        match (from, status) {
            (PayoutStatus::Processing, PayoutStatus::Paid) => {
                let ghost ops = self.payouts@;
                let p = &mut self.payouts[idx];
                p.status = PayoutStatus::Paid;
                p.paid_at = Some(now);
                proof {
                    lemma_payout_claims_same_after_update(ops, self.payouts@, idx as int);
                }
                Ok(())
            },
            (PayoutStatus::Processing, PayoutStatus::Failed) => {
                let ghost ops = self.payouts@;
                let p = &mut self.payouts[idx];
                p.status = PayoutStatus::Failed;
                p.failed_at = Some(now);
                p.failure_reason = failure_reason;
                proof {
                    lemma_payout_unclaim_after_update(ops, self.payouts@, idx as int);
                }
                Ok(())
            },
            (PayoutStatus::Pending, PayoutStatus::Processing) => {
                let mut k: usize = 0;
                let nids = self.payouts[idx].booking_ids.len();
                while k < nids
                    invariant
                        k <= nids,
                        idx < self.payouts@.len(),
                        nids == self.payouts@[idx as int].booking_ids@.len(),
                        self == old(self),
                        old(self).wf(),
                        old(self).has_payout(payout_id),
                        old(self).payout_index(payout_id) == idx as int,
                        old(self).spec_payout(payout_id) == self.payouts@[idx as int],
                        self.payouts@[idx as int].status == PayoutStatus::Pending,
                        status == PayoutStatus::Processing,
                        forall|x: int|
                            0 <= x < k ==> !payout_claims(
                                self.payouts@,
                                #[trigger] self.payouts@[idx as int].booking_ids@[x],
                            ),
                    decreases nids - k,
                {
                    if self.is_booking_claimed(self.payouts[idx].booking_ids[k]) {
                        return Err(
                            AppError::Conflict("Payout bookings are already claimed".to_owned()),
                        );
                    }
                    k += 1;
                }
                let ghost ops = self.payouts@;
                let p = &mut self.payouts[idx];
                p.status = PayoutStatus::Processing;
                proof {
                    let ps = self.payouts@;
                    let gp = ps[idx as int];
                    assert forall|a: int| 0 <= a < ps.len() implies (#[trigger] ps[a]).id
                        == ops[a].id && u64s_unique(ps[a].booking_ids@) by {
                        assert(u64s_unique(ops[a].booking_ids@));
                        if a != idx as int {
                            assert(ps[a] == ops[a]);
                        }
                    }
                    assert forall|a: int, b: int|
                        0 <= a < ps.len() && 0 <= b < ps.len() && a != b && (
                        #[trigger] ps[a]).claims_bookings() && (
                        #[trigger] ps[b]).claims_bookings() implies u64s_disjoint(
                        ps[a].booking_ids@,
                        ps[b].booking_ids@,
                    ) by {
                        if a != idx as int && b != idx as int {
                            assert(ps[a] == ops[a]);
                            assert(ps[b] == ops[b]);
                        } else if a == idx as int {
                            assert(ps[b] == ops[b]);
                            assert forall|x: int, y: int|
                                0 <= x < ps[a].booking_ids@.len() && 0 <= y
                                    < ps[b].booking_ids@.len() implies ps[a].booking_ids@[x] != ps[b].booking_ids@[y] by {
                                assert(!payout_claims(ops, ops[idx as int].booking_ids@[x]));
                                assert(ops[b].claims_bookings());
                                if ops[b].booking_ids@[y] == ops[idx as int].booking_ids@[x] {
                                    assert(payout_claims(ops, ops[idx as int].booking_ids@[x]));
                                }
                            }
                        } else {
                            assert(ps[a] == ops[a]);
                            assert forall|x: int, y: int|
                                0 <= x < ps[a].booking_ids@.len() && 0 <= y
                                    < ps[b].booking_ids@.len() implies ps[a].booking_ids@[x] != ps[b].booking_ids@[y] by {
                                assert(!payout_claims(ops, ops[idx as int].booking_ids@[y]));
                                assert(ops[a].claims_bookings());
                                if ops[a].booking_ids@[x] == ops[idx as int].booking_ids@[y] {
                                    assert(payout_claims(ops, ops[idx as int].booking_ids@[y]));
                                }
                            }
                        }
                    }
                }
                Ok(())
            },
            _ => Err(AppError::BadRequest("Invalid payout status transition".to_owned())),
        }
    }

    /// Everything except the payouts is as in `other`, and the
    /// payouts agree except at one position.
    pub open spec fn payout_status_updated(self, other: Store, i: int, p: Payout) -> bool {
        &&& self.payouts@ == other.payouts@.update(i, p)
        &&& self.writers@ == other.writers@
        &&& self.sponsors@ == other.sponsors@
        &&& self.users@ == other.users@
        &&& self.bookings@ == other.bookings@
        &&& self.blackout_dates@ == other.blackout_dates@
        &&& self.blacklisted_tokens@ == other.blacklisted_tokens@
        &&& self.next_id == other.next_id
    }

    /// A writer's payouts, most recently created first: record for
    /// record what the filter of the reversed payout list holds.
    pub fn get_writer_payouts(&self, writer_id: u64) -> (r: Vec<Payout>)
        ensures
            ({
                let f = self.payouts@.reverse().filter(|p: Payout| p.writer_id == writer_id);
                r@.len() == f.len() && forall|i: int|
                    0 <= i < f.len() ==> same_payout(#[trigger] r@[i], f[i])
            }),
    {
        let mut out: Vec<Payout> = Vec::new();
        let n = self.payouts.len();
        let ghost rev = self.payouts@.reverse();
        proof {
            assert(rev.take(0int) =~= Seq::<Payout>::empty());
            reveal(Seq::filter);
        }
        let mut j: usize = 0;
        while j < n
            invariant
                j <= n,
                n == self.payouts@.len(),
                rev == self.payouts@.reverse(),
                out@.len() == rev.take(j as int).filter(
                    |p: Payout| p.writer_id == writer_id,
                ).len(),
                forall|i: int|
                    0 <= i < out@.len() ==> same_payout(
                        #[trigger] out@[i],
                        rev.take(j as int).filter(|p: Payout| p.writer_id == writer_id)[i],
                    ),
            decreases n - j,
        {
            let ghost taken = rev.take(j as int);
            let p = &self.payouts[n - 1 - j];
            proof {
                assert(rev[j as int] == self.payouts@[n - 1 - j]);
            }
            let ghost old_out = out@;
            if p.writer_id == writer_id {
                let copy = clone_payout(p);
                out.push(copy);
            }
            j += 1;
            proof {
                let taken2 = rev.take(j as int);
                assert(taken2.drop_last() =~= taken);
                assert(taken2.last() == rev[j - 1]);
                reveal(Seq::filter);
                let f2 = taken2.filter(|p: Payout| p.writer_id == writer_id);
                let f1 = taken.filter(|p: Payout| p.writer_id == writer_id);
                if rev[j - 1].writer_id == writer_id {
                    assert(f2 == f1.push(rev[j - 1]));
                    assert forall|i: int| 0 <= i < out@.len() implies same_payout(
                        #[trigger] out@[i],
                        f2[i],
                    ) by {
                        if i < old_out.len() {
                            assert(out@[i] == old_out[i]);
                            assert(f2[i] == f1[i]);
                        } else {
                            assert(f2[i] == rev[j - 1]);
                        }
                    }
                } else {
                    assert(f2 == f1);
                }
            }
        }
        proof {
            assert(rev.take(n as int) =~= rev);
            assert(rev.take(n as int).filter(|p: Payout| p.writer_id == writer_id) == rev.filter(
                |p: Payout| p.writer_id == writer_id,
            ));
        }
        out
    }
}

/// After an update at one position that keeps the id, the booking-id
/// list and the claiming statuses at least as strong, claims can only
/// stay: used for `Processing -> Paid`, which claims before and after.
proof fn lemma_payout_claims_same_after_update(ops: Seq<Payout>, ps: Seq<Payout>, idx: int)
    requires
        0 <= idx < ops.len(),
        ps == ops.update(idx, ps[idx]),
        ps[idx].booking_ids@ == ops[idx].booking_ids@,
        ps[idx].id == ops[idx].id,
        ps[idx].claims_bookings(),
        ops[idx].claims_bookings(),
        crate::store::payout_claims_disjoint(ops),
        forall|i: int| 0 <= i < ops.len() ==> u64s_unique((#[trigger] ops[i]).booking_ids@),
    ensures
        crate::store::payout_claims_disjoint(ps),
        forall|i: int| 0 <= i < ps.len() ==> u64s_unique((#[trigger] ps[i]).booking_ids@),
{
    assert forall|i: int| 0 <= i < ps.len() implies u64s_unique(
        (#[trigger] ps[i]).booking_ids@,
    ) by {
        assert(u64s_unique(ops[i].booking_ids@));
        if i != idx {
            assert(ps[i] == ops[i]);
        }
    }
    assert forall|a: int, b: int|
        0 <= a < ps.len() && 0 <= b < ps.len() && a != b && (#[trigger] ps[a]).claims_bookings()
            && (#[trigger] ps[b]).claims_bookings() implies u64s_disjoint(
        ps[a].booking_ids@,
        ps[b].booking_ids@,
    ) by {
        let oa = if a == idx {
            ops[idx]
        } else {
            ops[a]
        };
        let ob = if b == idx {
            ops[idx]
        } else {
            ops[b]
        };
        if a != idx {
            assert(ps[a] == ops[a]);
        }
        if b != idx {
            assert(ps[b] == ops[b]);
        }
        assert(oa.claims_bookings());
        assert(ob.claims_bookings());
        assert(u64s_disjoint(oa.booking_ids@, ob.booking_ids@));
    }
}

/// After an update at one position that stops the payout from
/// claiming, claims only shrink: used for `Processing -> Failed`.
proof fn lemma_payout_unclaim_after_update(ops: Seq<Payout>, ps: Seq<Payout>, idx: int)
    requires
        0 <= idx < ops.len(),
        ps == ops.update(idx, ps[idx]),
        ps[idx].booking_ids@ == ops[idx].booking_ids@,
        ps[idx].id == ops[idx].id,
        !ps[idx].claims_bookings(),
        crate::store::payout_claims_disjoint(ops),
        forall|i: int| 0 <= i < ops.len() ==> u64s_unique((#[trigger] ops[i]).booking_ids@),
    ensures
        crate::store::payout_claims_disjoint(ps),
        forall|i: int| 0 <= i < ps.len() ==> u64s_unique((#[trigger] ps[i]).booking_ids@),
{
    assert forall|i: int| 0 <= i < ps.len() implies u64s_unique(
        (#[trigger] ps[i]).booking_ids@,
    ) by {
        assert(u64s_unique(ops[i].booking_ids@));
        if i != idx {
            assert(ps[i] == ops[i]);
        }
    }
    assert forall|a: int, b: int|
        0 <= a < ps.len() && 0 <= b < ps.len() && a != b && (#[trigger] ps[a]).claims_bookings()
            && (#[trigger] ps[b]).claims_bookings() implies u64s_disjoint(
        ps[a].booking_ids@,
        ps[b].booking_ids@,
    ) by {
        assert(a != idx);
        assert(b != idx);
        assert(ps[a] == ops[a]);
        assert(ps[b] == ops[b]);
    }
}

/// When payout ids are unique, any record found under an id is the one
/// `spec_payout` names.
pub proof fn lemma_spec_payout_unique(s: Store, i: int, id: u64)
    requires
        crate::store::payout_ids_unique(s.payouts@),
        0 <= i < s.payouts@.len(),
        s.payouts@[i].id == id,
    ensures
        s.has_payout(id),
        s.payout_index(id) == i,
        s.spec_payout(id) == s.payouts@[i],
{
    assert(s.has_payout(id));
    let j = s.payout_index(id);
    assert(0 <= j < s.payouts@.len() && s.payouts@[j].id == id);
}

/// Copies an id list.
pub fn clone_u64_vec(v: &Vec<u64>) -> (r: Vec<u64>)
    ensures
        r@ == v@,
{
    let mut out: Vec<u64> = Vec::new();
    let mut i: usize = 0;
    while i < v.len()
        invariant
            i <= v@.len(),
            out@ == v@.take(i as int),
        decreases v@.len() - i,
    {
        out.push(v[i]);
        i += 1;
        proof {
            assert(out@ =~= v@.take(i as int));
        }
    }
    proof {
        assert(v@.take(v@.len() as int) =~= v@);
    }
    out
}

/// The two payout records agree field by field (the id lists as
/// sequences).
pub open spec fn same_payout(a: Payout, b: Payout) -> bool {
    &&& a.id == b.id
    &&& a.writer_id == b.writer_id
    &&& a.amount_cents == b.amount_cents
    &&& a.currency == b.currency
    &&& a.status == b.status
    &&& a.lemon_payout_id == b.lemon_payout_id
    &&& a.booking_ids@ == b.booking_ids@
    &&& a.created_at == b.created_at
    &&& a.paid_at == b.paid_at
    &&& a.failed_at == b.failed_at
    &&& a.failure_reason == b.failure_reason
}

/// Copies a payout record.
pub fn clone_payout(p: &Payout) -> (r: Payout)
    ensures
        same_payout(r, *p),
{
    Payout {
        id: p.id,
        writer_id: p.writer_id,
        amount_cents: p.amount_cents,
        currency: p.currency.clone(),
        status: p.status,
        lemon_payout_id: crate::store::clone_opt_string(&p.lemon_payout_id),
        booking_ids: clone_u64_vec(&p.booking_ids),
        created_at: p.created_at,
        paid_at: p.paid_at,
        failed_at: p.failed_at,
        failure_reason: crate::store::clone_opt_string(&p.failure_reason),
    }
}

/// The booking-id sets of processing and paid payouts are pairwise
/// disjoint in every well-formed store: no booking is ever bundled
/// into two live payouts, so none is paid out twice.
pub proof fn lemma_payout_sets_disjoint(s: Store, a: int, b: int)
    requires
        s.wf(),
        0 <= a < s.payouts@.len(),
        0 <= b < s.payouts@.len(),
        a != b,
        s.payouts@[a].claims_bookings(),
        s.payouts@[b].claims_bookings(),
    ensures
        forall|x: int, y: int|
            0 <= x < s.payouts@[a].booking_ids@.len() && 0 <= y
                < s.payouts@[b].booking_ids@.len() ==> s.payouts@[a].booking_ids@[x]
                != s.payouts@[b].booking_ids@[y],
{
}

/// The amounts of a run of payouts, summed.
pub open spec fn amount_sum(s: Seq<Payout>) -> int
    decreases s.len(),
{
    if s.len() == 0 {
        0
    } else {
        amount_sum(s.drop_last()) + s.last().amount_cents
    }
}

/// A booking of this writer in one of the states that make up the
/// pending pipeline: paid or approved but not yet published.
pub open spec fn pending_booking(writer_id: u64, b: Booking) -> bool {
    b.writer_id == writer_id && (b.status == BookingStatus::Paid || b.status
        == BookingStatus::Approved)
}

/// A published booking of this writer.
pub open spec fn published_booking(writer_id: u64, b: Booking) -> bool {
    b.writer_id == writer_id && b.status == BookingStatus::Published
}

impl Store {
    /// A writer's payout summary: the money behind currently eligible
    /// bookings, the money in processing payouts, the money already
    /// paid out, and how many bookings are eligible.
    pub fn get_payout_summary(&self, writer_id: u64) -> (r: PayoutSummary)
        requires
            self.wf(),
            self.bookings@.len() <= 0x7fff_ffff,
            self.payouts@.len() <= 0x7fff_ffff,
        ensures
            r.available_amount_cents == payout_sum(eligible_seq(*self, writer_id)),
            r.eligible_booking_count == eligible_seq(*self, writer_id).len(),
            r.pending_amount_cents == amount_sum(
                self.payouts@.filter(
                    |p: Payout| p.writer_id == writer_id && p.status == PayoutStatus::Processing,
                ),
            ),
            r.total_paid_cents == amount_sum(
                self.payouts@.filter(
                    |p: Payout| p.writer_id == writer_id && p.status == PayoutStatus::Paid,
                ),
            ),
    {
        let mut available: i64 = 0;
        let mut count: usize = 0;
        let nb = self.bookings.len();
        proof {
            assert(self.bookings@.take(0int) =~= Seq::<Booking>::empty());
            reveal(Seq::filter);
        }
        let mut i: usize = 0;
        while i < nb
            invariant
                i <= nb,
                nb == self.bookings@.len(),
                nb <= 0x7fff_ffff,
                self.wf(),
                count == self.bookings@.take(i as int).filter(
                    |b: Booking| eligible_for_payout(self.payouts@, writer_id, b),
                ).len(),
                count <= i,
                available == payout_sum(
                    self.bookings@.take(i as int).filter(
                        |b: Booking| eligible_for_payout(self.payouts@, writer_id, b),
                    ),
                ),
                0 <= available <= count * 0x7fff_ffffi64,
            decreases nb - i,
        {
            let ghost taken = self.bookings@.take(i as int);
            let b = &self.bookings[i];
            let published = match b.status {
                BookingStatus::Published => true,
                _ => false,
            };
            if b.writer_id == writer_id && published && !self.is_booking_claimed(b.id) {
                proof {
                    assert(self.bookings@[i as int].money_conserved());
                }
                available = available + (b.writer_payout_cents as i64);
                count += 1;
            }
            i += 1;
            proof {
                let taken2 = self.bookings@.take(i as int);
                assert(taken2.drop_last() =~= taken);
                assert(taken2.last() == self.bookings@[i - 1]);
                reveal(Seq::filter);
                let pe = |b: Booking| eligible_for_payout(self.payouts@, writer_id, b);
                if pe(self.bookings@[i - 1]) {
                    let f = taken.filter(pe).push(self.bookings@[i - 1]);
                    assert(taken2.filter(pe) == f);
                    assert(f.drop_last() =~= taken.filter(pe));
                    assert(payout_sum(f) == payout_sum(taken.filter(pe)) + self.bookings@[i
                        - 1].writer_payout_cents);
                }
            }
        }
        proof {
            assert(self.bookings@.take(nb as int) =~= self.bookings@);
            assert(self.bookings@.take(nb as int).filter(
                |b: Booking| eligible_for_payout(self.payouts@, writer_id, b),
            ) == eligible_seq(*self, writer_id));
        }
        let mut pending: i64 = 0;
        let mut paid: i64 = 0;
        let np = self.payouts.len();
        proof {
            assert(self.payouts@.take(0int) =~= Seq::<Payout>::empty());
        }
        let mut j: usize = 0;
        while j < np
            invariant
                j <= np,
                np == self.payouts@.len(),
                np <= 0x7fff_ffff,
                pending == amount_sum(
                    self.payouts@.take(j as int).filter(
                        |p: Payout| p.writer_id == writer_id && p.status
                            == PayoutStatus::Processing,
                    ),
                ),
                paid == amount_sum(
                    self.payouts@.take(j as int).filter(
                        |p: Payout| p.writer_id == writer_id && p.status == PayoutStatus::Paid,
                    ),
                ),
                -(j as i64) * 0x8000_0000i64 <= pending <= (j as i64) * 0x7fff_ffffi64,
                -(j as i64) * 0x8000_0000i64 <= paid <= (j as i64) * 0x7fff_ffffi64,
            decreases np - j,
        {
            let ghost taken = self.payouts@.take(j as int);
            let p = &self.payouts[j];
            let is_processing = match p.status {
                PayoutStatus::Processing => true,
                _ => false,
            };
            let is_paid = match p.status {
                PayoutStatus::Paid => true,
                _ => false,
            };
            if p.writer_id == writer_id && is_processing {
                pending = pending + (p.amount_cents as i64);
            }
            if p.writer_id == writer_id && is_paid {
                paid = paid + (p.amount_cents as i64);
            }
            j += 1;
            proof {
                let taken2 = self.payouts@.take(j as int);
                assert(taken2.drop_last() =~= taken);
                assert(taken2.last() == self.payouts@[j - 1]);
                reveal(Seq::filter);
                let pp = |p: Payout| p.writer_id == writer_id && p.status
                    == PayoutStatus::Processing;
                let pd = |p: Payout| p.writer_id == writer_id && p.status == PayoutStatus::Paid;
                let last = self.payouts@[j - 1];
                if pp(last) {
                    let f = taken.filter(pp).push(last);
                    assert(taken2.filter(pp) == f);
                    assert(f.drop_last() =~= taken.filter(pp));
                    assert(amount_sum(f) == amount_sum(taken.filter(pp)) + last.amount_cents);
                }
                if pd(last) {
                    let f = taken.filter(pd).push(last);
                    assert(taken2.filter(pd) == f);
                    assert(f.drop_last() =~= taken.filter(pd));
                    assert(amount_sum(f) == amount_sum(taken.filter(pd)) + last.amount_cents);
                }
            }
        }
        proof {
            assert(self.payouts@.take(np as int) =~= self.payouts@);
        }
        PayoutSummary {
            available_amount_cents: available,
            pending_amount_cents: pending,
            total_paid_cents: paid,
            eligible_booking_count: count as i64,
        }
    }

    /// A writer's booking statistics: how many bookings were
    /// published, how many are paid or approved and still in flight,
    /// and the writer revenue behind each group.
    pub fn get_writer_stats(&self, writer_id: u64) -> (r: WriterStats)
        requires
            self.wf(),
            self.bookings@.len() <= 0x7fff_ffff,
        ensures
            r.total_published == self.bookings@.filter(
                |b: Booking| published_booking(writer_id, b),
            ).len(),
            r.pending_bookings == self.bookings@.filter(
                |b: Booking| pending_booking(writer_id, b),
            ).len(),
            r.total_revenue_cents == payout_sum(
                self.bookings@.filter(|b: Booking| published_booking(writer_id, b)),
            ),
            r.pending_revenue_cents == payout_sum(
                self.bookings@.filter(|b: Booking| pending_booking(writer_id, b)),
            ),
    {
        let mut total_published: usize = 0;
        let mut pending_bookings: usize = 0;
        let mut total_revenue: i64 = 0;
        let mut pending_revenue: i64 = 0;
        let nb = self.bookings.len();
        proof {
            assert(self.bookings@.take(0int) =~= Seq::<Booking>::empty());
            reveal(Seq::filter);
        }
        let mut i: usize = 0;
        while i < nb
            invariant
                i <= nb,
                nb == self.bookings@.len(),
                nb <= 0x7fff_ffff,
                self.wf(),
                total_published == self.bookings@.take(i as int).filter(
                    |b: Booking| published_booking(writer_id, b),
                ).len(),
                pending_bookings == self.bookings@.take(i as int).filter(
                    |b: Booking| pending_booking(writer_id, b),
                ).len(),
                total_revenue == payout_sum(
                    self.bookings@.take(i as int).filter(
                        |b: Booking| published_booking(writer_id, b),
                    ),
                ),
                pending_revenue == payout_sum(
                    self.bookings@.take(i as int).filter(
                        |b: Booking| pending_booking(writer_id, b),
                    ),
                ),
                total_published <= i,
                pending_bookings <= i,
                0 <= total_revenue <= total_published * 0x7fff_ffffi64,
                0 <= pending_revenue <= pending_bookings * 0x7fff_ffffi64,
            decreases nb - i,
        {
            let ghost taken = self.bookings@.take(i as int);
            let b = &self.bookings[i];
            if b.writer_id == writer_id {
                proof {
                    assert(self.bookings@[i as int].money_conserved());
                }
                match b.status {
                    BookingStatus::Published => {
                        total_published += 1;
                        total_revenue = total_revenue + (b.writer_payout_cents as i64);
                    },
                    BookingStatus::Paid => {
                        pending_bookings += 1;
                        pending_revenue = pending_revenue + (b.writer_payout_cents as i64);
                    },
                    BookingStatus::Approved => {
                        pending_bookings += 1;
                        pending_revenue = pending_revenue + (b.writer_payout_cents as i64);
                    },
                    _ => {},
                }
            }
            i += 1;
            proof {
                let taken2 = self.bookings@.take(i as int);
                assert(taken2.drop_last() =~= taken);
                assert(taken2.last() == self.bookings@[i - 1]);
                reveal(Seq::filter);
                let pu = |b: Booking| published_booking(writer_id, b);
                let pn = |b: Booking| pending_booking(writer_id, b);
                let last = self.bookings@[i - 1];
                if pu(last) {
                    let f = taken.filter(pu).push(last);
                    assert(taken2.filter(pu) == f);
                    assert(f.drop_last() =~= taken.filter(pu));
                    assert(payout_sum(f) == payout_sum(taken.filter(pu))
                        + last.writer_payout_cents);
                }
                if pn(last) {
                    let f = taken.filter(pn).push(last);
                    assert(taken2.filter(pn) == f);
                    assert(f.drop_last() =~= taken.filter(pn));
                    assert(payout_sum(f) == payout_sum(taken.filter(pn))
                        + last.writer_payout_cents);
                }
            }
        }
        proof {
            assert(self.bookings@.take(nb as int) =~= self.bookings@);
        }
        WriterStats {
            total_published: total_published as i64,
            pending_bookings: pending_bookings as i64,
            total_revenue_cents: total_revenue,
            pending_revenue_cents: pending_revenue,
        }
    }
}

} // verus!
