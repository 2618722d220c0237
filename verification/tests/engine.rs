use adsloty::errors::AppError;
use adsloty::models::{CreateBlackoutDate, CreateSponsor, CreateWriter};
use adsloty::reconciler::{OrderCreatedOutcome, RefundOutcome};
use adsloty::status::BookingStatus;
use adsloty::store::Store;
use adsloty::validation::SanitizedBookingInput;

const TODAY: i64 = 20000;

fn writer_input(slots_per_week: i32) -> CreateWriter {
    CreateWriter {
        newsletter_name: "Weekly Notes".to_string(),
        newsletter_url: None,
        description: None,
        subscriber_count: Some(1200),
        price_per_slot: 10000,
        currency: "usd".to_string(),
        lead_time_days: 7,
        slots_per_week,
    }
}

fn ad_content() -> SanitizedBookingInput {
    SanitizedBookingInput {
        ad_headline: "Try it".to_string(),
        ad_body: "A fine product".to_string(),
        ad_cta_text: Some("Go".to_string()),
        ad_cta_url: "https://example.com".to_string(),
        ad_image_url: None,
    }
}

fn setup(slots_per_week: i32) -> (Store, u64, u64) {
    let mut store = Store::new();
    let writer_id = store.create_writer(1, writer_input(slots_per_week), TODAY).unwrap();
    let sponsor_id = store.create_sponsor(
        2,
        CreateSponsor {
            company_name: "Acme".to_string(),
            website_url: None,
            logo_url: None,
            billing_email: Some("billing@acme.example".to_string()),
        },
        TODAY,
    );
    (store, writer_id, sponsor_id)
}

fn reserve(store: &mut Store, writer_id: u64, sponsor_id: u64, date: i64, tag: &str) -> Result<u64, AppError> {
    store.create_booking(sponsor_id, writer_id, date, ad_content(), tag.to_string(), TODAY, TODAY)
}

#[test]
fn concurrent_attempts_fill_exactly_the_capacity() {
    // Capacity two, five serialized attempts: two succeed, three conflict.
    let (mut store, writer_id, sponsor_id) = setup(2);
    let date = TODAY + 14;
    let mut ok = 0;
    let mut conflict = 0;
    for attempt in 0..5 {
        match reserve(&mut store, writer_id, sponsor_id, date, &format!("chk-{}", attempt)) {
            Ok(_) => ok += 1,
            Err(AppError::Conflict(_)) => conflict += 1,
            Err(_) => panic!("unexpected error kind"),
        }
    }
    assert_eq!(ok, 2);
    assert_eq!(conflict, 3);
}

#[test]
fn blackout_date_is_never_available() {
    let (mut store, writer_id, _sponsor_id) = setup(3);
    let date = TODAY + 14;
    assert!(store.is_slot_available(writer_id, date));
    store
        .create_blackout_date(
            writer_id,
            CreateBlackoutDate { blocked_date: date, reason: Some("vacation".to_string()) },
            TODAY,
            TODAY,
        )
        .unwrap();
    // No booking occupies the date, yet the blackout forces zero availability.
    assert_eq!(store.booked_count_for(writer_id, date), 0);
    assert!(!store.is_slot_available(writer_id, date));
}

#[test]
fn booking_money_always_adds_up() {
    let (mut store, writer_id, sponsor_id) = setup(1);
    let id = reserve(&mut store, writer_id, sponsor_id, TODAY + 14, "chk-1").unwrap();
    let booking = store.get_booking_by_id(id).unwrap();
    // Ten percent of 10000 cents, rounded half up.
    assert_eq!(booking.amount_cents, 10000);
    assert_eq!(booking.platform_fee_cents, 1000);
    assert_eq!(booking.writer_payout_cents, 9000);
    assert_eq!(
        booking.amount_cents,
        booking.platform_fee_cents + booking.writer_payout_cents
    );
}

#[test]
fn fee_rounds_half_up_deterministically() {
    // 25 cents at 10.00 % is 2.5 cents: rounds up to 3, every time.
    let first = adsloty::fees::compute_platform_fee(25, 1000);
    let second = adsloty::fees::compute_platform_fee(25, 1000);
    assert_eq!(first, 3);
    assert_eq!(second, 3);
    let (fee, payout) = adsloty::fees::split_amount(25, 1000);
    assert_eq!(fee + payout, 25);
}

#[test]
fn order_created_replay_is_a_noop() {
    let (mut store, writer_id, sponsor_id) = setup(1);
    let id = reserve(&mut store, writer_id, sponsor_id, TODAY + 14, "chk-1").unwrap();
    let first = store
        .handle_order_created(id, "order-77".to_string(), TODAY + 1)
        .unwrap();
    match first {
        OrderCreatedOutcome::MarkedPaid { auto_approved } => assert!(!auto_approved),
        _ => panic!("first delivery must mark the booking paid"),
    }
    assert_eq!(store.get_booking_by_id(id).unwrap().status, BookingStatus::Paid);
    assert_eq!(store.get_booking_by_id(id).unwrap().paid_at, Some(TODAY + 1));
    // Replaying the identical event changes nothing.
    let second = store
        .handle_order_created(id, "order-77".to_string(), TODAY + 9)
        .unwrap();
    assert!(matches!(second, OrderCreatedOutcome::AlreadyProcessed));
    assert_eq!(store.get_booking_by_id(id).unwrap().status, BookingStatus::Paid);
    assert_eq!(store.get_booking_by_id(id).unwrap().paid_at, Some(TODAY + 1));
}

#[test]
fn order_created_auto_approves_when_asked() {
    let (mut store, writer_id, sponsor_id) = setup(1);
    store
        .update_writer(
            writer_id,
            adsloty::models::UpdateWriter {
                newsletter_name: None,
                newsletter_url: None,
                description: None,
                subscriber_count: None,
                price_per_slot: None,
                lead_time_days: None,
                slots_per_week: None,
                auto_approve: Some(true),
            },
            TODAY,
        )
        .unwrap();
    let id = reserve(&mut store, writer_id, sponsor_id, TODAY + 14, "chk-1").unwrap();
    let outcome = store
        .handle_order_created(id, "order-1".to_string(), TODAY + 1)
        .unwrap();
    assert!(matches!(outcome, OrderCreatedOutcome::MarkedPaid { auto_approved: true }));
    let booking = store.get_booking_by_id(id).unwrap();
    assert_eq!(booking.status, BookingStatus::Approved);
    assert_eq!(booking.paid_at, Some(TODAY + 1));
    assert_eq!(booking.approved_at, Some(TODAY + 1));
}

#[test]
fn refund_transitions_exactly_once() {
    let (mut store, writer_id, sponsor_id) = setup(1);
    let id = reserve(&mut store, writer_id, sponsor_id, TODAY + 14, "chk-1").unwrap();
    store.handle_order_created(id, "order-9".to_string(), TODAY).unwrap();
    let first = store.handle_order_refunded("order-9", TODAY + 2).unwrap();
    assert!(matches!(first, RefundOutcome::Refunded));
    assert_eq!(store.get_booking_by_id(id).unwrap().status, BookingStatus::Refunded);
    // The duplicate refund event is acknowledged and ignored.
    let second = store.handle_order_refunded("order-9", TODAY + 3).unwrap();
    assert!(matches!(second, RefundOutcome::Ignored));
    assert_eq!(store.get_booking_by_id(id).unwrap().status, BookingStatus::Refunded);
}

#[test]
fn refund_of_published_booking_is_ignored() {
    let (mut store, writer_id, sponsor_id) = setup(1);
    let id = reserve(&mut store, writer_id, sponsor_id, TODAY + 14, "chk-1").unwrap();
    store.handle_order_created(id, "order-5".to_string(), TODAY).unwrap();
    store.approve_booking(id, writer_id, TODAY + 1).unwrap();
    store.mark_published(id, writer_id, TODAY + 2).unwrap();
    let outcome = store.handle_order_refunded("order-5", TODAY + 3).unwrap();
    assert!(matches!(outcome, RefundOutcome::Ignored));
    assert_eq!(store.get_booking_by_id(id).unwrap().status, BookingStatus::Published);
}

#[test]
fn refund_of_unknown_order_is_an_error() {
    let (mut store, _writer_id, _sponsor_id) = setup(1);
    assert!(matches!(
        store.handle_order_refunded("order-nope", TODAY),
        Err(AppError::NotFound(_))
    ));
}

#[test]
fn full_booking_lifecycle_reaches_payout_eligibility() {
    // One slot a week, seven days of lead time, a date seven days out.
    let (mut store, writer_id, sponsor_a) = setup(1);
    let sponsor_b = store.create_sponsor(
        3,
        CreateSponsor {
            company_name: "Bravo".to_string(),
            website_url: None,
            logo_url: None,
            billing_email: None,
        },
        TODAY,
    );
    let date = TODAY + 7;
    let booking_a = reserve(&mut store, writer_id, sponsor_a, date, "chk-a").unwrap();
    assert_eq!(
        store.get_booking_by_id(booking_a).unwrap().status,
        BookingStatus::PendingPayment
    );
    // The second sponsor's attempt for the same date conflicts.
    match reserve(&mut store, writer_id, sponsor_b, date, "chk-b") {
        Err(AppError::Conflict(m)) => assert_eq!(m, "This slot is no longer available"),
        _ => panic!("second reservation must conflict"),
    }
    // The payment webhook marks the booking paid; approval is manual.
    store
        .handle_order_created(booking_a, "order-a".to_string(), TODAY + 1)
        .unwrap();
    assert_eq!(store.get_booking_by_id(booking_a).unwrap().status, BookingStatus::Paid);
    store.approve_booking(booking_a, writer_id, TODAY + 2).unwrap();
    assert_eq!(store.get_booking_by_id(booking_a).unwrap().status, BookingStatus::Approved);
    store.mark_published(booking_a, writer_id, TODAY + 8).unwrap();
    assert_eq!(store.get_booking_by_id(booking_a).unwrap().status, BookingStatus::Published);
    let eligible = store.get_eligible_bookings_for_payout(writer_id);
    assert_eq!(eligible.len(), 1);
    assert_eq!(eligible[0].id, booking_a);
}

#[test]
fn too_early_booking_is_rejected_with_the_lead_time() {
    let (mut store, writer_id, sponsor_id) = setup(1);
    match reserve(&mut store, writer_id, sponsor_id, TODAY + 3, "chk-1") {
        Err(AppError::BadRequest(m)) => {
            assert_eq!(m, "Slot date must be at least 7 days in the future")
        },
        _ => panic!("a date inside the lead time must be rejected"),
    }
}

#[test]
fn approve_requires_a_paid_booking_and_the_owner() {
    let (mut store, writer_id, sponsor_id) = setup(1);
    let id = reserve(&mut store, writer_id, sponsor_id, TODAY + 14, "chk-1").unwrap();
    assert!(matches!(
        store.approve_booking(id, writer_id, TODAY),
        Err(AppError::BadRequest(_))
    ));
    assert!(matches!(
        store.approve_booking(id, writer_id + 99, TODAY),
        Err(AppError::Forbidden)
    ));
    assert!(matches!(
        store.approve_booking(9999, writer_id, TODAY),
        Err(AppError::NotFound(_))
    ));
}

#[test]
fn reject_commits_only_after_the_refund_step() {
    let (mut store, writer_id, sponsor_id) = setup(1);
    let id = reserve(&mut store, writer_id, sponsor_id, TODAY + 14, "chk-1").unwrap();
    store.handle_order_created(id, "order-3".to_string(), TODAY).unwrap();
    // The engine names the order to refund; the caller refunds it
    // against the provider and then commits.
    let to_refund = store.check_rejectable(id, writer_id).unwrap();
    assert_eq!(to_refund, Some("order-3".to_string()));
    store.reject_booking(id, writer_id, TODAY + 1).unwrap();
    let booking = store.get_booking_by_id(id).unwrap();
    assert_eq!(booking.status, BookingStatus::Rejected);
    assert_eq!(booking.rejected_at, Some(TODAY + 1));
    // A rejected slot opens up again.
    assert!(store.is_slot_available(writer_id, TODAY + 14));
}

#[test]
fn ad_content_is_editable_only_before_approval() {
    let (mut store, writer_id, sponsor_id) = setup(1);
    let id = reserve(&mut store, writer_id, sponsor_id, TODAY + 14, "chk-1").unwrap();
    let mut new_ad = ad_content();
    new_ad.ad_headline = "Better headline".to_string();
    store.update_booking_ad_content(id, sponsor_id, new_ad).unwrap();
    assert_eq!(store.get_booking_by_id(id).unwrap().ad_headline, "Better headline");
    store.handle_order_created(id, "order-1".to_string(), TODAY).unwrap();
    store.approve_booking(id, writer_id, TODAY).unwrap();
    assert!(matches!(
        store.update_booking_ad_content(id, sponsor_id, ad_content()),
        Err(AppError::BadRequest(_))
    ));
}

#[test]
fn update_booking_status_enforces_the_state_machine() {
    let (mut store, writer_id, sponsor_id) = setup(1);
    let id = reserve(&mut store, writer_id, sponsor_id, TODAY + 14, "chk-1").unwrap();
    // PendingPayment cannot jump straight to Published.
    assert!(matches!(
        store.update_booking_status(id, BookingStatus::Published, TODAY),
        Err(AppError::BadRequest(_))
    ));
    store.update_booking_status(id, BookingStatus::Paid, TODAY).unwrap();
    store.update_booking_status(id, BookingStatus::Approved, TODAY).unwrap();
    store.update_booking_status(id, BookingStatus::Published, TODAY).unwrap();
    // Published is terminal.
    assert!(matches!(
        store.update_booking_status(id, BookingStatus::Refunded, TODAY),
        Err(AppError::BadRequest(_))
    ));
    let _ = writer_id;
}

#[test]
fn availability_calendar_skips_full_and_blacked_out_dates() {
    let (mut store, writer_id, sponsor_id) = setup(1);
    let d1 = TODAY + 7;
    let d2 = TODAY + 14;
    let d3 = TODAY + 21;
    reserve(&mut store, writer_id, sponsor_id, d2, "chk-1").unwrap();
    store
        .create_blackout_date(
            writer_id,
            CreateBlackoutDate { blocked_date: d3, reason: None },
            TODAY,
            TODAY,
        )
        .unwrap();
    let slots = store.get_writer_availability(writer_id, 4, TODAY);
    let dates: Vec<i64> = slots.iter().map(|s| s.available_date).collect();
    assert!(dates.contains(&d1));
    assert!(!dates.contains(&d2));
    assert!(!dates.contains(&d3));
    for s in slots.iter() {
        assert_eq!(s.slots_remaining, 1);
    }
}

#[test]
fn check_slot_reports_availability_and_remaining() {
    let (store, writer_id, _sponsor_id) = setup(2);
    let date = TODAY + 14;
    let check = store.check_slot(writer_id, date, TODAY).unwrap();
    assert!(check.available);
    assert_eq!(check.slots_remaining, 2);
    assert_eq!(check.price_cents, 10000);
    // Inside the lead time the slot is closed outright.
    let early = store.check_slot(writer_id, TODAY + 2, TODAY).unwrap();
    assert!(!early.available);
    assert_eq!(early.slots_remaining, 0);
}

#[test]
fn create_writer_validates_and_conflicts() {
    let mut store = Store::new();
    let mut blank = writer_input(1);
    blank.newsletter_name = "   ".to_string();
    assert!(matches!(store.create_writer(1, blank, TODAY), Err(AppError::Validation(_))));
    let mut free = writer_input(1);
    free.price_per_slot = 0;
    assert!(matches!(store.create_writer(1, free, TODAY), Err(AppError::Validation(_))));
    store.create_writer(1, writer_input(1), TODAY).unwrap();
    assert!(matches!(
        store.create_writer(1, writer_input(1), TODAY),
        Err(AppError::Conflict(_))
    ));
}

#[test]
fn writer_availability_bundles_price_and_calendar() {
    let (store, writer_id, _sponsor_id) = setup(2);
    let bundle = store.writer_availability(writer_id, 4, TODAY).unwrap();
    assert_eq!(bundle.writer_id, writer_id);
    assert_eq!(bundle.newsletter_name, "Weekly Notes");
    assert_eq!(bundle.price_per_slot, 10000);
    assert_eq!(bundle.currency, "usd");
    let calendar = store.get_writer_availability(writer_id, 4, TODAY);
    assert_eq!(bundle.available_slots.len(), calendar.len());
    assert!(store.writer_availability(writer_id + 9, 4, TODAY).is_err());
}
