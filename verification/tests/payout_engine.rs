use adsloty::errors::AppError;
use adsloty::models::{CreateSponsor, CreateWriter};
use adsloty::status::{BookingStatus, PayoutStatus};
use adsloty::store::Store;
use adsloty::validation::SanitizedBookingInput;

const TODAY: i64 = 20000;

fn ad_content() -> SanitizedBookingInput {
    SanitizedBookingInput {
        ad_headline: "Try it".to_string(),
        ad_body: "A fine product".to_string(),
        ad_cta_text: None,
        ad_cta_url: "https://example.com".to_string(),
        ad_image_url: None,
    }
}

fn setup() -> (Store, u64, u64) {
    let mut store = Store::new();
    let writer_id = store
        .create_writer(
            1,
            CreateWriter {
                newsletter_name: "Weekly Notes".to_string(),
                newsletter_url: None,
                description: None,
                subscriber_count: None,
                price_per_slot: 10000,
                currency: "usd".to_string(),
                lead_time_days: 0,
                slots_per_week: 10,
            },
            TODAY,
        )
        .unwrap();
    let sponsor_id = store.create_sponsor(
        2,
        CreateSponsor {
            company_name: "Acme".to_string(),
            website_url: None,
            logo_url: None,
            billing_email: None,
        },
        TODAY,
    );
    (store, writer_id, sponsor_id)
}

fn published_booking(store: &mut Store, writer_id: u64, sponsor_id: u64, date: i64, tag: &str) -> u64 {
    let id = store
        .create_booking(sponsor_id, writer_id, date, ad_content(), tag.to_string(), TODAY, TODAY)
        .unwrap();
    store.handle_order_created(id, format!("order-{}", tag), TODAY).unwrap();
    store.approve_booking(id, writer_id, TODAY).unwrap();
    store.mark_published(id, writer_id, TODAY).unwrap();
    id
}

#[test]
fn payout_sets_stay_pairwise_disjoint() {
    let (mut store, writer_id, sponsor_id) = setup();
    let b1 = published_booking(&mut store, writer_id, sponsor_id, TODAY + 7, "a");
    let b2 = published_booking(&mut store, writer_id, sponsor_id, TODAY + 7, "b");
    let p1 = store
        .request_payout(writer_id, None, "payout-1".to_string(), TODAY)
        .unwrap();
    // Everything published was claimed; a second request finds nothing.
    assert!(matches!(
        store.request_payout(writer_id, None, "payout-2".to_string(), TODAY),
        Err(AppError::BadRequest(_))
    ));
    // New published bookings go to a new payout that shares nothing
    // with the first.
    let b3 = published_booking(&mut store, writer_id, sponsor_id, TODAY + 14, "c");
    let p2 = store
        .request_payout(writer_id, None, "payout-2".to_string(), TODAY + 1)
        .unwrap();
    let payouts = store.get_writer_payouts(writer_id);
    assert_eq!(payouts.len(), 2);
    let first = payouts.iter().find(|p| p.id == p1).unwrap();
    let second = payouts.iter().find(|p| p.id == p2).unwrap();
    assert_eq!(first.booking_ids, vec![b1, b2]);
    assert_eq!(second.booking_ids, vec![b3]);
    for x in first.booking_ids.iter() {
        assert!(!second.booking_ids.contains(x));
    }
    assert_eq!(first.status, PayoutStatus::Processing);
    assert_eq!(first.amount_cents, 18000);
    assert_eq!(second.amount_cents, 9000);
}

#[test]
fn payout_with_no_eligible_bookings_is_rejected() {
    let (mut store, writer_id, _sponsor_id) = setup();
    match store.request_payout(writer_id, None, "payout-1".to_string(), TODAY) {
        Err(AppError::BadRequest(m)) => assert_eq!(m, "No eligible bookings for payout"),
        _ => panic!("an empty payout must be rejected"),
    }
}

#[test]
fn payout_subset_is_intersected_with_eligibility() {
    let (mut store, writer_id, sponsor_id) = setup();
    let b1 = published_booking(&mut store, writer_id, sponsor_id, TODAY + 7, "a");
    let _b2 = published_booking(&mut store, writer_id, sponsor_id, TODAY + 7, "b");
    let pid = store
        .request_payout(writer_id, Some(vec![b1, 424242]), "payout-1".to_string(), TODAY)
        .unwrap();
    let payouts = store.get_writer_payouts(writer_id);
    let payout = payouts.iter().find(|p| p.id == pid).unwrap();
    assert_eq!(payout.booking_ids, vec![b1]);
    assert_eq!(payout.amount_cents, 9000);
    // A subset that misses every eligible booking is rejected.
    match store.request_payout(writer_id, Some(vec![424242]), "payout-2".to_string(), TODAY) {
        Err(AppError::BadRequest(m)) => assert_eq!(m, "No matching eligible bookings"),
        _ => panic!("a subset hitting nothing must be rejected"),
    }
}

#[test]
fn payout_status_follows_its_lifecycle() {
    let (mut store, writer_id, sponsor_id) = setup();
    published_booking(&mut store, writer_id, sponsor_id, TODAY + 7, "a");
    let pid = store
        .request_payout(writer_id, None, "payout-1".to_string(), TODAY)
        .unwrap();
    // Processing cannot go back to Pending.
    assert!(matches!(
        store.update_payout_status(pid, PayoutStatus::Pending, None, TODAY),
        Err(AppError::BadRequest(_))
    ));
    store
        .update_payout_status(pid, PayoutStatus::Paid, None, TODAY + 5)
        .unwrap();
    let payouts = store.get_writer_payouts(writer_id);
    assert_eq!(payouts[0].status, PayoutStatus::Paid);
    assert_eq!(payouts[0].paid_at, Some(TODAY + 5));
}

#[test]
fn failed_payout_records_the_reason() {
    let (mut store, writer_id, sponsor_id) = setup();
    published_booking(&mut store, writer_id, sponsor_id, TODAY + 7, "a");
    let pid = store
        .request_payout(writer_id, None, "payout-1".to_string(), TODAY)
        .unwrap();
    store
        .update_payout_status(
            pid,
            PayoutStatus::Failed,
            Some("bank rejected the transfer".to_string()),
            TODAY + 5,
        )
        .unwrap();
    let payouts = store.get_writer_payouts(writer_id);
    assert_eq!(payouts[0].status, PayoutStatus::Failed);
    assert_eq!(payouts[0].failed_at, Some(TODAY + 5));
    assert_eq!(payouts[0].failure_reason, Some("bank rejected the transfer".to_string()));
    // A failed payout releases its bookings back into eligibility.
    assert_eq!(store.get_eligible_bookings_for_payout(writer_id).len(), 1);
}

#[test]
fn payout_summary_adds_up() {
    let (mut store, writer_id, sponsor_id) = setup();
    published_booking(&mut store, writer_id, sponsor_id, TODAY + 7, "a");
    let b2 = published_booking(&mut store, writer_id, sponsor_id, TODAY + 7, "b");
    store
        .request_payout(writer_id, Some(vec![b2]), "payout-1".to_string(), TODAY)
        .unwrap();
    let summary = store.get_payout_summary(writer_id);
    assert_eq!(summary.available_amount_cents, 9000);
    assert_eq!(summary.eligible_booking_count, 1);
    assert_eq!(summary.pending_amount_cents, 9000);
    assert_eq!(summary.total_paid_cents, 0);
}

#[test]
fn writer_stats_count_pipeline_and_revenue() {
    let (mut store, writer_id, sponsor_id) = setup();
    published_booking(&mut store, writer_id, sponsor_id, TODAY + 7, "a");
    let paid_only = store
        .create_booking(sponsor_id, writer_id, TODAY + 14, ad_content(), "chk-c".to_string(), TODAY, TODAY)
        .unwrap();
    store.handle_order_created(paid_only, "order-c".to_string(), TODAY).unwrap();
    let stats = store.get_writer_stats(writer_id);
    assert_eq!(stats.total_published, 1);
    assert_eq!(stats.pending_bookings, 1);
    assert_eq!(stats.total_revenue_cents, 9000);
    assert_eq!(stats.pending_revenue_cents, 9000);
    assert_eq!(store.get_booking_by_id(paid_only).unwrap().status, BookingStatus::Paid);
}

#[test]
fn writer_bookings_listing_joins_names() {
    let (mut store, writer_id, sponsor_id) = setup();
    published_booking(&mut store, writer_id, sponsor_id, TODAY + 7, "a");
    let listed = store.get_writer_bookings(writer_id);
    assert_eq!(listed.len(), 1);
    assert_eq!(listed[0].newsletter_name, "Weekly Notes");
    assert_eq!(listed[0].company_name, "Acme");
    assert_eq!(listed[0].status, BookingStatus::Published);
    let by_sponsor = store.get_sponsor_bookings(sponsor_id);
    assert_eq!(by_sponsor.len(), 1);
    let upcoming = store.get_writer_upcoming_bookings(writer_id, 4, TODAY);
    assert_eq!(upcoming.len(), 1);
}
