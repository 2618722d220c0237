//! Paginated booking listings: filter, order by the requested key,
//! and cut one page, with the total count behind it.
//!
//! Equal keys leave the order between their records open, as a
//! database `ORDER BY` would; the contract promises a page cut from
//! some ordering of the filtered records consistent with the key.

use crate::listings::{details_of, joinable};
use crate::models::{Booking, BookingFilters, BookingWithDetails, PaginatedBookings};
use crate::status::BookingSortBy;
use crate::store::Store;
use vstd::multiset::Multiset;
use vstd::prelude::*;
use vstd::seq_lib::group_to_multiset_ensures;

verus! {

/// The requested order lets `a` stand before `b`.
pub open spec fn sort_precedes(
    sort_by: BookingSortBy,
    a: BookingWithDetails,
    b: BookingWithDetails,
) -> bool {
    match sort_by {
        BookingSortBy::SlotDateDesc => a.slot_date >= b.slot_date,
        BookingSortBy::SlotDateAsc => a.slot_date <= b.slot_date,
        BookingSortBy::CreatedAtDesc => a.created_at >= b.created_at,
        BookingSortBy::CreatedAtAsc => a.created_at <= b.created_at,
        BookingSortBy::AmountDesc => a.amount_cents >= b.amount_cents,
        BookingSortBy::AmountAsc => a.amount_cents <= b.amount_cents,
    }
}

/// Every record stands no later than every record after it.
pub open spec fn sorted_for(sort_by: BookingSortBy, s: Seq<BookingWithDetails>) -> bool {
    forall|i: int, j: int|
        0 <= i < j < s.len() ==> sort_precedes(sort_by, #[trigger] s[i], #[trigger] s[j])
}

/// Whether the requested order lets `a` stand before `b`.
fn precedes(sort_by: BookingSortBy, a: &BookingWithDetails, b: &BookingWithDetails) -> (r: bool)
    ensures
        r == sort_precedes(sort_by, *a, *b),
{
    match sort_by {
        BookingSortBy::SlotDateDesc => a.slot_date >= b.slot_date,
        BookingSortBy::SlotDateAsc => a.slot_date <= b.slot_date,
        BookingSortBy::CreatedAtDesc => a.created_at >= b.created_at,
        BookingSortBy::CreatedAtAsc => a.created_at <= b.created_at,
        BookingSortBy::AmountDesc => a.amount_cents >= b.amount_cents,
        BookingSortBy::AmountAsc => a.amount_cents <= b.amount_cents,
    }
}

/// Orders the records by the requested key, smallest first under the
/// key's direction; the result holds exactly the same records.
fn sort_bookings(v: Vec<BookingWithDetails>, sort_by: BookingSortBy) -> (r: Vec<
    BookingWithDetails,
>)
    ensures
        sorted_for(sort_by, r@),
        r@.to_multiset() == v@.to_multiset(),
{
    broadcast use group_to_multiset_ensures;

    let ghost orig = v@;
    let mut rest = v;
    let mut out: Vec<BookingWithDetails> = Vec::new();
    while rest.len() > 0
        invariant
            sorted_for(sort_by, out@),
            forall|i: int, j: int|
                0 <= i < out@.len() && 0 <= j < rest@.len() ==> sort_precedes(
                    sort_by,
                    #[trigger] out@[i],
                    #[trigger] rest@[j],
                ),
            out@.to_multiset().add(rest@.to_multiset()) =~= orig.to_multiset(),
        decreases rest@.len(),
    {
        let mut m: usize = 0;
        let mut k: usize = 1;
        while k < rest.len()
            invariant
                m < k,
                k <= rest@.len(),
                rest@.len() > 0,
                forall|j: int| 0 <= j < k ==> sort_precedes(sort_by, rest@[m as int], #[trigger] rest@[j]),
            decreases rest@.len() - k,
        {
            if !precedes(sort_by, &rest[m], &rest[k]) {
                m = k;
            }
            k += 1;
        }
        let ghost old_out = out@;
        let ghost old_rest = rest@;
        let x = rest.remove(m);
        out.push(x);
        proof {
            broadcast use group_to_multiset_ensures;

            assert(out@ == old_out.push(x));
            assert(out@.to_multiset() =~= old_out.to_multiset().insert(x));
            assert(rest@.to_multiset() =~= old_rest.to_multiset().remove(x));
            assert(old_rest.to_multiset().count(x) >= 1) by {
                assert(old_rest[m as int] == x);
                assert(old_rest.contains(x));
            }
            assert(out@.to_multiset().add(rest@.to_multiset()) =~= orig.to_multiset());
            assert forall|i: int, j: int|
                0 <= i < j < out@.len() implies sort_precedes(
                sort_by,
                #[trigger] out@[i],
                #[trigger] out@[j],
            ) by {
                if j < old_out.len() {
                    assert(out@[i] == old_out[i]);
                    assert(out@[j] == old_out[j]);
                } else {
                    assert(out@[j] == x);
                    assert(sort_precedes(sort_by, old_out[i], old_rest[m as int]));
                }
            }
            assert forall|i: int, j: int|
                0 <= i < out@.len() && 0 <= j < rest@.len() implies sort_precedes(
                sort_by,
                #[trigger] out@[i],
                #[trigger] rest@[j],
            ) by {
                let oj = if j < m as int {
                    j
                } else {
                    j + 1
                };
                assert(rest@[j] == old_rest[oj]);
                if i < old_out.len() {
                    assert(out@[i] == old_out[i]);
                    assert(sort_precedes(sort_by, old_out[i], old_rest[oj]));
                } else {
                    assert(out@[i] == x);
                    assert(sort_precedes(sort_by, old_rest[m as int], old_rest[oj]));
                }
            }
        }
    }
    proof {
        broadcast use group_to_multiset_ensures;

        assert(rest@.to_multiset() =~= Multiset::<BookingWithDetails>::empty());
        assert(out@.to_multiset() =~= orig.to_multiset());
    }
    out
}

/// The record passes the listing filters for this writer: the
/// writer's own, joinable, and inside the optional status and date
/// bounds.
pub open spec fn writer_listed(
    s: Store,
    writer_id: u64,
    filters: BookingFilters,
    b: Booking,
) -> bool {
    &&& b.writer_id == writer_id
    &&& joinable(s, b)
    &&& match filters.status {
        Some(st) => b.status == st,
        None => true,
    }
    &&& match filters.from_date {
        Some(d) => b.slot_date >= d,
        None => true,
    }
    &&& match filters.to_date {
        Some(d) => b.slot_date <= d,
        None => true,
    }
}

/// The record passes the listing filters for this sponsor.
pub open spec fn sponsor_listed(
    s: Store,
    sponsor_id: u64,
    filters: BookingFilters,
    b: Booking,
) -> bool {
    &&& b.sponsor_id == sponsor_id
    &&& joinable(s, b)
    &&& match filters.status {
        Some(st) => b.status == st,
        None => true,
    }
    &&& match filters.from_date {
        Some(d) => b.slot_date >= d,
        None => true,
    }
    &&& match filters.to_date {
        Some(d) => b.slot_date <= d,
        None => true,
    }
}

/// One page cut from a sequence: the records from `offset` on, at
/// most `limit` of them, both clamped to the sequence.
pub open spec fn page_bounds(len: int, limit: int, offset: int) -> (int, int) {
    let start = if offset > len {
        len
    } else {
        offset
    };
    let end = if offset + limit > len {
        len
    } else {
        offset + limit
    };
    (start, end)
}

/// Cuts the requested page out of the records after ordering them:
/// the result is a contiguous page of some ordering of the input
/// records consistent with the requested key.
fn page_of(v: Vec<BookingWithDetails>, limit: i32, offset: i32, sort_by: BookingSortBy) -> (r: Vec<
    BookingWithDetails,
>)
    requires
        limit >= 0,
        offset >= 0,
    ensures
        exists|all: Seq<BookingWithDetails>|
            #![auto]
            all.to_multiset() == v@.to_multiset() && sorted_for(sort_by, all) && r@
                == all.subrange(
                page_bounds(all.len() as int, limit as int, offset as int).0,
                page_bounds(all.len() as int, limit as int, offset as int).1,
            ),
{
    let mut sorted = sort_bookings(v, sort_by);
    let ghost all = sorted@;
    let n = sorted.len();
    let end: usize = if (offset as usize) > n {
        n
    } else if (limit as usize) > n - (offset as usize) {
        n
    } else {
        (offset as usize) + (limit as usize)
    };
    sorted.truncate(end);
    proof {
        assert(sorted@ == all.subrange(0, end as int));
    }
    let mut skipped: usize = 0;
    let start: usize = if (offset as usize) > n {
        n
    } else {
        offset as usize
    };
    while skipped < start
        invariant
            skipped <= start,
            start <= end <= n,
            n == all.len(),
            sorted@ == all.subrange(skipped as int, end as int),
        decreases start - skipped,
    {
        sorted.remove(0);
        skipped += 1;
        proof {
            assert(sorted@ =~= all.subrange(skipped as int, end as int));
        }
    }
    proof {
        assert(page_bounds(all.len() as int, limit as int, offset as int).0 == start as int);
        assert(page_bounds(all.len() as int, limit as int, offset as int).1 == end as int);
    }
    sorted
}

impl Store {
    /// One page of a writer's bookings: filtered, joined with
    /// details, ordered by the requested key, with the total count of
    /// matching records.
    pub fn get_writer_bookings_paginated(
        &self,
        writer_id: u64,
        limit: i32,
        offset: i32,
        filters: &BookingFilters,
        sort_by: BookingSortBy,
    ) -> (r: PaginatedBookings)
        requires
            self.wf(),
            limit >= 0,
            offset >= 0,
            self.bookings@.len() <= 0x7fff_ffff,
        ensures
            ({
                let listed = self.bookings@.filter(
                    |b: Booking| writer_listed(*self, writer_id, *filters, b),
                ).map_values(|b: Booking| details_of(*self, b));
                &&& r.total == listed.len()
                &&& sorted_for(sort_by, r.bookings@)
                &&& exists|all: Seq<BookingWithDetails>|
                    #![auto]
                    all.to_multiset() == listed.to_multiset() && sorted_for(sort_by, all)
                        && r.bookings@ == all.subrange(
                        page_bounds(all.len() as int, limit as int, offset as int).0,
                        page_bounds(all.len() as int, limit as int, offset as int).1,
                    )
            }),
    {
        let mut details: Vec<BookingWithDetails> = Vec::new();
        let n = self.bookings.len();
        proof {
            assert(self.bookings@.take(0int) =~= Seq::<Booking>::empty());
            reveal(Seq::filter);
        }
        let mut i: usize = 0;
        while i < n
            invariant
                i <= n,
                n == self.bookings@.len(),
                self.wf(),
                details@ == self.bookings@.take(i as int).filter(
                    |b: Booking| writer_listed(*self, writer_id, *filters, b),
                ).map_values(|b: Booking| details_of(*self, b)),
            decreases n - i,
        {
            let ghost taken = self.bookings@.take(i as int);
            let b = &self.bookings[i];
            let status_ok = match (&filters.status, &b.status) {
                (None, _) => true,
                (Some(want), have) => *want == *have,
            };
            let from_ok = match filters.from_date {
                Some(d) => b.slot_date >= d,
                None => true,
            };
            let to_ok = match filters.to_date {
                Some(d) => b.slot_date <= d,
                None => true,
            };
            if b.writer_id == writer_id && status_ok && from_ok && to_ok {
                match self.join_booking(b) {
                    Some(d) => {
                        details.push(d);
                    },
                    None => {},
                }
            }
            i += 1;
            proof {
                let taken2 = self.bookings@.take(i as int);
                assert(taken2.drop_last() =~= taken);
                assert(taken2.last() == self.bookings@[i - 1]);
                reveal(Seq::filter);
                let p = |b: Booking| writer_listed(*self, writer_id, *filters, b);
                let m = |b: Booking| details_of(*self, b);
                if p(self.bookings@[i - 1]) {
                    assert(taken2.filter(p) == taken.filter(p).push(self.bookings@[i - 1]));
                    assert(taken2.filter(p).map_values(m) =~= taken.filter(p).map_values(m).push(
                        m(self.bookings@[i - 1]),
                    ));
                } else {
                    assert(taken2.filter(p) == taken.filter(p));
                }
            }
        }
        proof {
            assert(self.bookings@.take(n as int) =~= self.bookings@);
            broadcast use vstd::seq_lib::group_filter_ensures;

            assert(self.bookings@.filter(
                |b: Booking| writer_listed(*self, writer_id, *filters, b),
            ).len() <= n);
        }
        let total = details.len() as i64;
        let ghost dv = details@;
        let bookings = page_of(details, limit, offset, sort_by);
        proof {
            let all = choose|all: Seq<BookingWithDetails>|
                #![auto]
                all.to_multiset() == dv.to_multiset() && sorted_for(sort_by, all) && bookings@
                    == all.subrange(
                    page_bounds(all.len() as int, limit as int, offset as int).0,
                    page_bounds(all.len() as int, limit as int, offset as int).1,
                );
            let start = page_bounds(all.len() as int, limit as int, offset as int).0;
            assert forall|i: int, j: int|
                0 <= i < j < bookings@.len() implies sort_precedes(
                sort_by,
                #[trigger] bookings@[i],
                #[trigger] bookings@[j],
            ) by {
                assert(bookings@[i] == all[start + i]);
                assert(bookings@[j] == all[start + j]);
            }
        }
        PaginatedBookings { bookings, total }
    }

    /// One page of a sponsor's bookings: filtered, joined with
    /// details, ordered by the requested key, with the total count of
    /// matching records.
    pub fn get_sponsor_bookings_paginated(
        &self,
        sponsor_id: u64,
        limit: i32,
        offset: i32,
        filters: &BookingFilters,
        sort_by: BookingSortBy,
    ) -> (r: PaginatedBookings)
        requires
            self.wf(),
            limit >= 0,
            offset >= 0,
            self.bookings@.len() <= 0x7fff_ffff,
        ensures
            ({
                let listed = self.bookings@.filter(
                    |b: Booking| sponsor_listed(*self, sponsor_id, *filters, b),
                ).map_values(|b: Booking| details_of(*self, b));
                &&& r.total == listed.len()
                &&& sorted_for(sort_by, r.bookings@)
                &&& exists|all: Seq<BookingWithDetails>|
                    #![auto]
                    all.to_multiset() == listed.to_multiset() && sorted_for(sort_by, all)
                        && r.bookings@ == all.subrange(
                        page_bounds(all.len() as int, limit as int, offset as int).0,
                        page_bounds(all.len() as int, limit as int, offset as int).1,
                    )
            }),
    {
        let mut details: Vec<BookingWithDetails> = Vec::new();
        let n = self.bookings.len();
        proof {
            assert(self.bookings@.take(0int) =~= Seq::<Booking>::empty());
            reveal(Seq::filter);
        }
        let mut i: usize = 0;
        while i < n
            invariant
                i <= n,
                n == self.bookings@.len(),
                self.wf(),
                details@ == self.bookings@.take(i as int).filter(
                    |b: Booking| sponsor_listed(*self, sponsor_id, *filters, b),
                ).map_values(|b: Booking| details_of(*self, b)),
            decreases n - i,
        {
            let ghost taken = self.bookings@.take(i as int);
            let b = &self.bookings[i];
            let status_ok = match (&filters.status, &b.status) {
                (None, _) => true,
                (Some(want), have) => *want == *have,
            };
            let from_ok = match filters.from_date {
                Some(d) => b.slot_date >= d,
                None => true,
            };
            let to_ok = match filters.to_date {
                Some(d) => b.slot_date <= d,
                None => true,
            };
            if b.sponsor_id == sponsor_id && status_ok && from_ok && to_ok {
                match self.join_booking(b) {
                    Some(d) => {
                        details.push(d);
                    },
                    None => {},
                }
            }
            i += 1;
            proof {
                let taken2 = self.bookings@.take(i as int);
                assert(taken2.drop_last() =~= taken);
                assert(taken2.last() == self.bookings@[i - 1]);
                reveal(Seq::filter);
                let p = |b: Booking| sponsor_listed(*self, sponsor_id, *filters, b);
                let m = |b: Booking| details_of(*self, b);
                if p(self.bookings@[i - 1]) {
                    assert(taken2.filter(p) == taken.filter(p).push(self.bookings@[i - 1]));
                    assert(taken2.filter(p).map_values(m) =~= taken.filter(p).map_values(m).push(
                        m(self.bookings@[i - 1]),
                    ));
                } else {
                    assert(taken2.filter(p) == taken.filter(p));
                }
            }
        }
        proof {
            assert(self.bookings@.take(n as int) =~= self.bookings@);
            broadcast use vstd::seq_lib::group_filter_ensures;

            assert(self.bookings@.filter(
                |b: Booking| sponsor_listed(*self, sponsor_id, *filters, b),
            ).len() <= n);
        }
        let total = details.len() as i64;
        let ghost dv = details@;
        let bookings = page_of(details, limit, offset, sort_by);
        proof {
            let all = choose|all: Seq<BookingWithDetails>|
                #![auto]
                all.to_multiset() == dv.to_multiset() && sorted_for(sort_by, all) && bookings@
                    == all.subrange(
                    page_bounds(all.len() as int, limit as int, offset as int).0,
                    page_bounds(all.len() as int, limit as int, offset as int).1,
                );
            let start = page_bounds(all.len() as int, limit as int, offset as int).0;
            assert forall|i: int, j: int|
                0 <= i < j < bookings@.len() implies sort_precedes(
                sort_by,
                #[trigger] bookings@[i],
                #[trigger] bookings@[j],
            ) by {
                assert(bookings@[i] == all[start + i]);
                assert(bookings@[j] == all[start + j]);
            }
        }
        PaginatedBookings { bookings, total }
    }
}

} // verus!
