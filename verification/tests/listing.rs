use adsloty::models::{BookingFilters, CreateSponsor, CreateWriter};
use adsloty::status::{BookingSortBy, BookingStatus};
use adsloty::store::Store;
use adsloty::validation::SanitizedBookingInput;

const TODAY: i64 = 20000;

fn ad_content() -> SanitizedBookingInput {
    SanitizedBookingInput {
        ad_headline: "Try it".to_string(),
        ad_body: "A fine product".to_string(),
        ad_cta_text: None,
        ad_cta_url: "https://example.com".to_string(),
        ad_image_url: None,
    }
}

fn setup() -> (Store, u64, u64) {
    let mut store = Store::new();
    let writer_id = store
        .create_writer(
            1,
            CreateWriter {
                newsletter_name: "Weekly Notes".to_string(),
                newsletter_url: None,
                description: None,
                subscriber_count: None,
                price_per_slot: 10000,
                currency: "usd".to_string(),
                lead_time_days: 0,
                slots_per_week: 5,
            },
            TODAY,
        )
        .unwrap();
    let sponsor_id = store.create_sponsor(
        2,
        CreateSponsor {
            company_name: "Acme".to_string(),
            website_url: None,
            logo_url: None,
            billing_email: None,
        },
        TODAY,
    );
    (store, writer_id, sponsor_id)
}

fn no_filters() -> BookingFilters {
    BookingFilters { status: None, from_date: None, to_date: None }
}

#[test]
fn paginated_listing_sorts_by_slot_date() {
    let (mut store, writer_id, sponsor_id) = setup();
    for (i, date) in [TODAY + 21, TODAY + 7, TODAY + 14].iter().enumerate() {
        store
            .create_booking(sponsor_id, writer_id, *date, ad_content(), format!("chk-{}", i), TODAY, TODAY)
            .unwrap();
    }
    let page = store.get_writer_bookings_paginated(
        writer_id,
        10,
        0,
        &no_filters(),
        BookingSortBy::SlotDateAsc,
    );
    assert_eq!(page.total, 3);
    let dates: Vec<i64> = page.bookings.iter().map(|b| b.slot_date).collect();
    assert_eq!(dates, vec![TODAY + 7, TODAY + 14, TODAY + 21]);
    let page_desc = store.get_writer_bookings_paginated(
        writer_id,
        10,
        0,
        &no_filters(),
        BookingSortBy::SlotDateDesc,
    );
    let dates_desc: Vec<i64> = page_desc.bookings.iter().map(|b| b.slot_date).collect();
    assert_eq!(dates_desc, vec![TODAY + 21, TODAY + 14, TODAY + 7]);
}

#[test]
fn paginated_listing_cuts_pages_and_keeps_the_total() {
    let (mut store, writer_id, sponsor_id) = setup();
    for i in 0..5 {
        store
            .create_booking(
                sponsor_id,
                writer_id,
                TODAY + 7 * (i as i64 + 1),
                ad_content(),
                format!("chk-{}", i),
                TODAY,
                TODAY,
            )
            .unwrap();
    }
    let page = store.get_writer_bookings_paginated(
        writer_id,
        2,
        2,
        &no_filters(),
        BookingSortBy::SlotDateAsc,
    );
    assert_eq!(page.total, 5);
    assert_eq!(page.bookings.len(), 2);
    let dates: Vec<i64> = page.bookings.iter().map(|b| b.slot_date).collect();
    assert_eq!(dates, vec![TODAY + 21, TODAY + 28]);
    // An offset past the end yields an empty page with the full total.
    let beyond = store.get_writer_bookings_paginated(
        writer_id,
        2,
        50,
        &no_filters(),
        BookingSortBy::SlotDateAsc,
    );
    assert_eq!(beyond.total, 5);
    assert!(beyond.bookings.is_empty());
}

#[test]
fn paginated_listing_applies_filters() {
    let (mut store, writer_id, sponsor_id) = setup();
    let b1 = store
        .create_booking(sponsor_id, writer_id, TODAY + 7, ad_content(), "chk-0".to_string(), TODAY, TODAY)
        .unwrap();
    store
        .create_booking(sponsor_id, writer_id, TODAY + 14, ad_content(), "chk-1".to_string(), TODAY, TODAY)
        .unwrap();
    store.handle_order_created(b1, "order-0".to_string(), TODAY).unwrap();
    let paid_only = store.get_sponsor_bookings_paginated(
        sponsor_id,
        10,
        0,
        &BookingFilters { status: Some(BookingStatus::Paid), from_date: None, to_date: None },
        BookingSortBy::SlotDateAsc,
    );
    assert_eq!(paid_only.total, 1);
    assert_eq!(paid_only.bookings[0].id, b1);
    let windowed = store.get_sponsor_bookings_paginated(
        sponsor_id,
        10,
        0,
        &BookingFilters { status: None, from_date: Some(TODAY + 10), to_date: Some(TODAY + 20) },
        BookingSortBy::CreatedAtAsc,
    );
    assert_eq!(windowed.total, 1);
    assert_eq!(windowed.bookings[0].slot_date, TODAY + 14);
}

#[test]
fn paginated_listing_sorts_by_amount() {
    let (mut store, writer_id, sponsor_id) = setup();
    store
        .create_booking(sponsor_id, writer_id, TODAY + 7, ad_content(), "chk-0".to_string(), TODAY, TODAY)
        .unwrap();
    // Raise the price, then book again: two bookings, two amounts.
    store
        .update_writer(
            writer_id,
            adsloty::models::UpdateWriter {
                newsletter_name: None,
                newsletter_url: None,
                description: None,
                subscriber_count: None,
                price_per_slot: Some(20000),
                lead_time_days: None,
                slots_per_week: None,
                auto_approve: None,
            },
            TODAY,
        )
        .unwrap();
    store
        .create_booking(sponsor_id, writer_id, TODAY + 14, ad_content(), "chk-1".to_string(), TODAY, TODAY)
        .unwrap();
    let asc = store.get_writer_bookings_paginated(
        writer_id,
        10,
        0,
        &no_filters(),
        BookingSortBy::AmountAsc,
    );
    let amounts: Vec<i32> = asc.bookings.iter().map(|b| b.amount_cents).collect();
    assert_eq!(amounts, vec![10000, 20000]);
}
