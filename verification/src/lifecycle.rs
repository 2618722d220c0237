//! The booking state machine applied to the store: guarded status
//! transitions, each one an atomic update that also stamps the
//! matching timestamp, and the writer- and sponsor-facing operations
//! built on them.
//!
//! Rejection is split in two because it must refund first: the caller
//! asks what to refund, performs the refund against the payment
//! provider, and only then commits the `Rejected` write — if the
//! refund fails nothing is written and the booking keeps its state.

use crate::errors::AppError;
use crate::models::Booking;
use crate::status::{can_transition, transition_allowed, BookingStatus};
use crate::store::Store;
use crate::validation::SanitizedBookingInput;
use vstd::prelude::*;

verus! {

/// The booking after one transition: the new status, with the
/// matching timestamp stamped.
pub open spec fn stamped(b: Booking, status: BookingStatus, now: i64) -> Booking {
    match status {
        BookingStatus::Paid => Booking { status, paid_at: Some(now), ..b },
        BookingStatus::Approved => Booking { status, approved_at: Some(now), ..b },
        BookingStatus::Rejected => Booking { status, rejected_at: Some(now), ..b },
        BookingStatus::Published => Booking { status, published_at: Some(now), ..b },
        _ => Booking { status, ..b },
    }
}

impl Store {
    /// The position of some booking record with this id; meaningful
    /// only when one exists.
    pub open spec fn booking_index(self, id: u64) -> int {
        choose|i: int| 0 <= i < self.bookings@.len() && (#[trigger] self.bookings@[i]).id == id
    }

    /// The booking record with this id; meaningful only when one
    /// exists.
    pub open spec fn spec_booking(self, id: u64) -> Booking {
        self.bookings@[self.booking_index(id)]
    }

    /// Everything except the bookings is as in `other`, and the
    /// bookings agree except at one position.
    pub open spec fn booking_updated(self, other: Store, i: int, b: Booking) -> bool {
        &&& self.bookings@ == other.bookings@.update(i, b)
        &&& self.writers@ == other.writers@
        &&& self.sponsors@ == other.sponsors@
        &&& self.users@ == other.users@
        &&& self.blackout_dates@ == other.blackout_dates@
        &&& self.payouts@ == other.payouts@
        &&& self.blacklisted_tokens@ == other.blacklisted_tokens@
        &&& self.next_id == other.next_id
    }

    /// The position of the booking with this id, if any.
    pub fn find_booking_index(&self, id: u64) -> (r: Option<usize>)
        ensures
            match r {
                Some(i) => i < self.bookings@.len() && self.bookings@[i as int].id == id,
                None => !self.has_booking(id),
            },
    {
        let mut i: usize = 0;
        while i < self.bookings.len()
            invariant
                i <= self.bookings@.len(),
                forall|j: int| 0 <= j < i ==> (#[trigger] self.bookings@[j]).id != id,
            decreases self.bookings@.len() - i,
        {
            if self.bookings[i].id == id {
                return Some(i);
            }
            i += 1;
        }
        None
    }

    /// Applies one state-machine transition to a booking: checked
    /// against the transition relation, written together with its
    /// timestamp, and refused with no write when the machine does not
    /// allow it.
    pub fn update_booking_status(&mut self, booking_id: u64, status: BookingStatus, now: i64) -> (r:
        Result<(), AppError>)
        requires
            old(self).wf(),
        ensures
            final(self).wf(),
            r is Err ==> final(self).unchanged_from(*old(self)),
            match r {
                Ok(()) => {
                    &&& old(self).has_booking(booking_id)
                    &&& exists|i: int|
                        0 <= i < old(self).bookings@.len() && (#[trigger] old(self).bookings@[i]).id
                            == booking_id && can_transition(old(self).bookings@[i].status, status)
                            && final(self).booking_updated(
                            *old(self),
                            i,
                            stamped(old(self).bookings@[i], status, now),
                        )
                },
                Err(AppError::NotFound(m)) => {
                    &&& !old(self).has_booking(booking_id)
                    &&& m@ == "Booking not found"@
                },
                Err(AppError::BadRequest(m)) => {
                    &&& exists|i: int|
                        0 <= i < old(self).bookings@.len() && (#[trigger] old(self).bookings@[i]).id
                            == booking_id && !can_transition(old(self).bookings@[i].status, status)
                    &&& m@ == "Invalid status transition"@
                },
                Err(_) => false,
            },
    {
        let idx = match self.find_booking_index(booking_id) {
            Some(i) => i,
            None => {
                return Err(AppError::NotFound("Booking not found".to_owned()));
            },
        };
        let from = self.bookings[idx].status;
        if !transition_allowed(from, status) {
            return Err(AppError::BadRequest("Invalid status transition".to_owned()));
        }
        let ghost obs = self.bookings@;
        let b = &mut self.bookings[idx];
        b.status = status;
        match status {
            BookingStatus::Paid => {
                b.paid_at = Some(now);
            },
            BookingStatus::Approved => {
                b.approved_at = Some(now);
            },
            BookingStatus::Rejected => {
                b.rejected_at = Some(now);
            },
            BookingStatus::Published => {
                b.published_at = Some(now);
            },
            _ => {},
        }
        proof {
            let bs = self.bookings@;
            assert(bs == obs.update(idx as int, stamped(obs[idx as int], status, now)));
            assert forall|a: int| 0 <= a < bs.len() implies (#[trigger] bs[a]).id == obs[a].id && (
            #[trigger] bs[a]).money_conserved() by {
                assert(obs[a].money_conserved());
                if a != idx as int {
                    assert(bs[a] == obs[a]);
                }
            }
        }
        Ok(())
    }

    /// A writer approves a paid booking. Refused unless the booking
    /// exists, belongs to the writer, and is in `Paid`.
    pub fn approve_booking(&mut self, booking_id: u64, writer_id: u64, now: i64) -> (r: Result<
        (),
        AppError,
    >)
        requires
            old(self).wf(),
        ensures
            final(self).wf(),
            r is Err ==> final(self).unchanged_from(*old(self)),
            match r {
                Ok(()) => {
                    &&& old(self).has_booking(booking_id)
                    &&& exists|i: int|
                        0 <= i < old(self).bookings@.len() && (#[trigger] old(self).bookings@[i]).id
                            == booking_id && old(self).bookings@[i].writer_id == writer_id && old(self).bookings@[i].status == BookingStatus::Paid && final(self).booking_updated(
                            *old(self),
                            i,
                            stamped(old(self).bookings@[i], BookingStatus::Approved, now),
                        )
                },
                Err(AppError::NotFound(m)) => {
                    &&& !old(self).has_booking(booking_id)
                    &&& m@ == "Booking not found"@
                },
                Err(AppError::Forbidden) => exists|i: int|
                    0 <= i < old(self).bookings@.len() && (#[trigger] old(self).bookings@[i]).id
                        == booking_id && old(self).bookings@[i].writer_id != writer_id,
                Err(AppError::BadRequest(m)) => {
                    &&& exists|i: int|
                        0 <= i < old(self).bookings@.len() && (#[trigger] old(self).bookings@[i]).id
                            == booking_id && old(self).bookings@[i].writer_id == writer_id && old(self).bookings@[i].status != BookingStatus::Paid
                    &&& m@ == "Can only approve bookings that are paid"@
                },
                Err(_) => false,
            },
    {
        let idx = match self.find_booking_index(booking_id) {
            Some(i) => i,
            None => {
                return Err(AppError::NotFound("Booking not found".to_owned()));
            },
        };
        if self.bookings[idx].writer_id != writer_id {
            return Err(AppError::Forbidden);
        }
        match self.bookings[idx].status {
            BookingStatus::Paid => {},
            _ => {
                return Err(
                    AppError::BadRequest("Can only approve bookings that are paid".to_owned()),
                );
            },
        }
        let ghost obs = self.bookings@;
        let b = &mut self.bookings[idx];
        b.status = BookingStatus::Approved;
        b.approved_at = Some(now);
        proof {
            let bs = self.bookings@;
            assert(bs == obs.update(
                idx as int,
                stamped(obs[idx as int], BookingStatus::Approved, now),
            ));
            assert forall|a: int| 0 <= a < bs.len() implies (#[trigger] bs[a]).id == obs[a].id && (
            #[trigger] bs[a]).money_conserved() by {
                assert(obs[a].money_conserved());
                if a != idx as int {
                    assert(bs[a] == obs[a]);
                }
            }
        }
        Ok(())
    }

    /// What a rejection must refund first: the booking's payment
    /// reference, if it has one. Refused under exactly the conditions
    /// under which the rejection itself would be refused, so a caller
    /// that refunds and then commits never refunds in vain.
    pub fn check_rejectable(&self, booking_id: u64, writer_id: u64) -> (r: Result<
        Option<String>,
        AppError,
    >)
        requires
            self.wf(),
        ensures
            match r {
                Ok(order) => {
                    &&& self.has_booking(booking_id)
                    &&& self.spec_booking(booking_id).writer_id == writer_id
                    &&& (self.spec_booking(booking_id).status == BookingStatus::Paid || self
                        .spec_booking(booking_id).status == BookingStatus::Approved)
                    &&& match (order, self.spec_booking(booking_id).lemon_order_id) {
                        (Some(o), Some(b)) => o@ == b@,
                        (None, None) => true,
                        _ => false,
                    }
                },
                Err(AppError::NotFound(m)) => {
                    &&& !self.has_booking(booking_id)
                    &&& m@ == "Booking not found"@
                },
                Err(AppError::Forbidden) => {
                    &&& self.has_booking(booking_id)
                    &&& self.spec_booking(booking_id).writer_id != writer_id
                },
                Err(AppError::BadRequest(m)) => {
                    &&& self.has_booking(booking_id)
                    &&& self.spec_booking(booking_id).writer_id == writer_id
                    &&& self.spec_booking(booking_id).status != BookingStatus::Paid
                    &&& self.spec_booking(booking_id).status != BookingStatus::Approved
                    &&& m@ == "Can only reject bookings that are paid or approved"@
                },
                Err(_) => false,
            },
    {
        let idx = match self.find_booking_index(booking_id) {
            Some(i) => i,
            None => {
                return Err(AppError::NotFound("Booking not found".to_owned()));
            },
        };
        proof {
            lemma_spec_booking_unique(*self, idx as int, booking_id);
        }
        if self.bookings[idx].writer_id != writer_id {
            return Err(AppError::Forbidden);
        }
        let rejectable = match self.bookings[idx].status {
            BookingStatus::Paid => true,
            BookingStatus::Approved => true,
            _ => false,
        };
        if !rejectable {
            return Err(
                AppError::BadRequest("Can only reject bookings that are paid or approved".to_owned()),
            );
        }
        match &self.bookings[idx].lemon_order_id {
            Some(o) => Ok(Some(o.clone())),
            None => Ok(None),
        }
    }

    /// A writer rejects a paid or approved booking. The caller must
    /// already have refunded the payment reference that
    /// `check_rejectable` returned: this call only commits the
    /// `Rejected` write, and refuses under the same guards, so a
    /// failed refund leaves the booking exactly as it was.
    pub fn reject_booking(&mut self, booking_id: u64, writer_id: u64, now: i64) -> (r: Result<
        (),
        AppError,
    >)
        requires
            old(self).wf(),
        ensures
            final(self).wf(),
            r is Err ==> final(self).unchanged_from(*old(self)),
            match r {
                Ok(()) => {
                    &&& old(self).has_booking(booking_id)
                    &&& exists|i: int|
                        0 <= i < old(self).bookings@.len() && (#[trigger] old(self).bookings@[i]).id
                            == booking_id && old(self).bookings@[i].writer_id == writer_id && (old(self).bookings@[i].status == BookingStatus::Paid || old(self).bookings@[i].status
                            == BookingStatus::Approved) && final(self).booking_updated(
                            *old(self),
                            i,
                            stamped(old(self).bookings@[i], BookingStatus::Rejected, now),
                        )
                },
                Err(AppError::NotFound(m)) => {
                    &&& !old(self).has_booking(booking_id)
                    &&& m@ == "Booking not found"@
                },
                Err(AppError::Forbidden) => exists|i: int|
                    0 <= i < old(self).bookings@.len() && (#[trigger] old(self).bookings@[i]).id
                        == booking_id && old(self).bookings@[i].writer_id != writer_id,
                Err(AppError::BadRequest(m)) => {
                    &&& exists|i: int|
                        0 <= i < old(self).bookings@.len() && (#[trigger] old(self).bookings@[i]).id
                            == booking_id && old(self).bookings@[i].writer_id == writer_id && old(self).bookings@[i].status != BookingStatus::Paid && old(self).bookings@[i].status != BookingStatus::Approved
                    &&& m@ == "Can only reject bookings that are paid or approved"@
                },
                Err(_) => false,
            },
    {
        let idx = match self.find_booking_index(booking_id) {
            Some(i) => i,
            None => {
                return Err(AppError::NotFound("Booking not found".to_owned()));
            },
        };
        if self.bookings[idx].writer_id != writer_id {
            return Err(AppError::Forbidden);
        }
        let rejectable = match self.bookings[idx].status {
            BookingStatus::Paid => true,
            BookingStatus::Approved => true,
            _ => false,
        };
        if !rejectable {
            return Err(
                AppError::BadRequest("Can only reject bookings that are paid or approved".to_owned()),
            );
        }
        let ghost obs = self.bookings@;
        let b = &mut self.bookings[idx];
        b.status = BookingStatus::Rejected;
        b.rejected_at = Some(now);
        proof {
            let bs = self.bookings@;
            assert(bs == obs.update(
                idx as int,
                stamped(obs[idx as int], BookingStatus::Rejected, now),
            ));
            assert forall|a: int| 0 <= a < bs.len() implies (#[trigger] bs[a]).id == obs[a].id && (
            #[trigger] bs[a]).money_conserved() by {
                assert(obs[a].money_conserved());
                if a != idx as int {
                    assert(bs[a] == obs[a]);
                }
            }
        }
        Ok(())
    }

    /// A writer marks an approved booking as published, recording that
    /// the ad was delivered. Refused unless the booking exists,
    /// belongs to the writer, and is in `Approved`.
    pub fn mark_published(&mut self, booking_id: u64, writer_id: u64, now: i64) -> (r: Result<
        (),
        AppError,
    >)
        requires
            old(self).wf(),
        ensures
            final(self).wf(),
            r is Err ==> final(self).unchanged_from(*old(self)),
            match r {
                Ok(()) => {
                    &&& old(self).has_booking(booking_id)
                    &&& exists|i: int|
                        0 <= i < old(self).bookings@.len() && (#[trigger] old(self).bookings@[i]).id
                            == booking_id && old(self).bookings@[i].writer_id == writer_id && old(self).bookings@[i].status == BookingStatus::Approved && final(self).booking_updated(
                            *old(self),
                            i,
                            stamped(old(self).bookings@[i], BookingStatus::Published, now),
                        )
                },
                Err(AppError::NotFound(m)) => {
                    &&& !old(self).has_booking(booking_id)
                    &&& m@ == "Booking not found"@
                },
                Err(AppError::Forbidden) => exists|i: int|
                    0 <= i < old(self).bookings@.len() && (#[trigger] old(self).bookings@[i]).id
                        == booking_id && old(self).bookings@[i].writer_id != writer_id,
                Err(AppError::BadRequest(m)) => {
                    &&& exists|i: int|
                        0 <= i < old(self).bookings@.len() && (#[trigger] old(self).bookings@[i]).id
                            == booking_id && old(self).bookings@[i].writer_id == writer_id && old(self).bookings@[i].status != BookingStatus::Approved
                    &&& m@ == "Can only mark approved bookings as published"@
                },
                Err(_) => false,
            },
    {
        let idx = match self.find_booking_index(booking_id) {
            Some(i) => i,
            None => {
                return Err(AppError::NotFound("Booking not found".to_owned()));
            },
        };
        if self.bookings[idx].writer_id != writer_id {
            return Err(AppError::Forbidden);
        }
        match self.bookings[idx].status {
            BookingStatus::Approved => {},
            _ => {
                return Err(
                    AppError::BadRequest(
                        "Can only mark approved bookings as published".to_owned(),
                    ),
                );
            },
        }
        let ghost obs = self.bookings@;
        let b = &mut self.bookings[idx];
        b.status = BookingStatus::Published;
        b.published_at = Some(now);
        proof {
            let bs = self.bookings@;
            assert(bs == obs.update(
                idx as int,
                stamped(obs[idx as int], BookingStatus::Published, now),
            ));
            assert forall|a: int| 0 <= a < bs.len() implies (#[trigger] bs[a]).id == obs[a].id && (
            #[trigger] bs[a]).money_conserved() by {
                assert(obs[a].money_conserved());
                if a != idx as int {
                    assert(bs[a] == obs[a]);
                }
            }
        }
        Ok(())
    }

    /// A sponsor edits the ad content of one of its bookings. Allowed
    /// only before approval, that is in `PendingPayment` or `Paid`;
    /// the money fields and the rest of the booking stay untouched.
    pub fn update_booking_ad_content(
        &mut self,
        booking_id: u64,
        sponsor_id: u64,
        ad: SanitizedBookingInput,
    ) -> (r: Result<(), AppError>)
        requires
            old(self).wf(),
        ensures
            final(self).wf(),
            r is Err ==> final(self).unchanged_from(*old(self)),
            match r {
                Ok(()) => {
                    &&& old(self).has_booking(booking_id)
                    &&& exists|i: int|
                        0 <= i < old(self).bookings@.len() && (#[trigger] old(self).bookings@[i]).id
                            == booking_id && old(self).bookings@[i].sponsor_id == sponsor_id && (old(self).bookings@[i].status == BookingStatus::PendingPayment || old(self).bookings@[i].status == BookingStatus::Paid) && final(self).booking_updated(*old(self), i, with_ad_content(old(self).bookings@[i], ad))
                },
                Err(AppError::NotFound(m)) => {
                    &&& !old(self).has_booking(booking_id)
                    &&& m@ == "Booking not found"@
                },
                Err(AppError::Forbidden) => exists|i: int|
                    0 <= i < old(self).bookings@.len() && (#[trigger] old(self).bookings@[i]).id
                        == booking_id && old(self).bookings@[i].sponsor_id != sponsor_id,
                Err(AppError::BadRequest(m)) => {
                    &&& exists|i: int|
                        0 <= i < old(self).bookings@.len() && (#[trigger] old(self).bookings@[i]).id
                            == booking_id && old(self).bookings@[i].sponsor_id == sponsor_id && old(self).bookings@[i].status != BookingStatus::PendingPayment && old(self).bookings@[i].status != BookingStatus::Paid
                    &&& m@ == "Can only edit ad content before the booking is approved"@
                },
                Err(_) => false,
            },
    {
        let idx = match self.find_booking_index(booking_id) {
            Some(i) => i,
            None => {
                return Err(AppError::NotFound("Booking not found".to_owned()));
            },
        };
        if self.bookings[idx].sponsor_id != sponsor_id {
            return Err(AppError::Forbidden);
        }
        let editable = match self.bookings[idx].status {
            BookingStatus::PendingPayment => true,
            BookingStatus::Paid => true,
            _ => false,
        };
        if !editable {
            return Err(
                AppError::BadRequest(
                    "Can only edit ad content before the booking is approved".to_owned(),
                ),
            );
        }
        let ghost obs = self.bookings@;
        let ghost gad = ad;
        let b = &mut self.bookings[idx];
        b.ad_headline = ad.ad_headline;
        b.ad_body = ad.ad_body;
        b.ad_cta_text = ad.ad_cta_text;
        b.ad_cta_url = ad.ad_cta_url;
        b.ad_image_url = ad.ad_image_url;
        proof {
            let bs = self.bookings@;
            assert(bs == obs.update(idx as int, with_ad_content(obs[idx as int], gad)));
            assert forall|a: int| 0 <= a < bs.len() implies (#[trigger] bs[a]).id == obs[a].id && (
            #[trigger] bs[a]).money_conserved() by {
                assert(obs[a].money_conserved());
                if a != idx as int {
                    assert(bs[a] == obs[a]);
                }
            }
        }
        Ok(())
    }
}

/// The booking with its ad content replaced.
pub open spec fn with_ad_content(b: Booking, ad: SanitizedBookingInput) -> Booking {
    Booking {
        ad_headline: ad.ad_headline,
        ad_body: ad.ad_body,
        ad_cta_text: ad.ad_cta_text,
        ad_cta_url: ad.ad_cta_url,
        ad_image_url: ad.ad_image_url,
        ..b
    }
}

/// When booking ids are unique, any record found under an id is the
/// one `spec_booking` names.
pub proof fn lemma_spec_booking_unique(s: Store, i: int, id: u64)
    requires
        crate::store::booking_ids_unique(s.bookings@),
        0 <= i < s.bookings@.len(),
        s.bookings@[i].id == id,
    ensures
        s.has_booking(id),
        s.booking_index(id) == i,
        s.spec_booking(id) == s.bookings@[i],
{
    assert(s.has_booking(id));
    let j = s.booking_index(id);
    assert(0 <= j < s.bookings@.len() && s.bookings@[j].id == id);
}

} // verus!
