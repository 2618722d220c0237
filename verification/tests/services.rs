use adsloty::auth::{is_valid_email, AuthService, AuthenticatedUser, Claims};
use adsloty::config::{CloudinaryConfig, Environment, JwtConfig, RateLimitConfig, ServerConfig};
use adsloty::errors::{AppError, AuthError};
use adsloty::models::{CreateSponsor, CreateUser};
use adsloty::payments::LemonSqueezyConfig;
use adsloty::responses::{PaginationMeta, PaginationParams, SuccessResponse};
use adsloty::status::{parse_booking_status, BookingStatus, UserRole};
use adsloty::storage::{sanitize_filename, validate_image, ImageTransformations};
use adsloty::store::Store;

fn jwt_config() -> JwtConfig {
    JwtConfig { secret: "SECRET-REDACTED".to_string(), expiry_hours: 168 }
}

fn lemon_config(secret: &str) -> LemonSqueezyConfig {
    LemonSqueezyConfig {
        api_key: "SECRET-REDACTED".to_string(),
        store_id: "store-1".to_string(),
        webhook_secret: secret.to_string(),
        ad_slot_variant_id: "variant-1".to_string(),
    }
}

#[test]
fn webhook_signature_is_the_hmac_of_the_body() {
    // A known HMAC-SHA-256 vector: key "key" over the fox sentence.
    let config = lemon_config("key");
    let body = b"The quick brown fox jumps over the lazy dog";
    let good = "f7bc83f430538424b13298e6aa6fb143ef4d59a14946175997479dbc2d1a3cd8";
    assert!(config.verify_webhook(body, good).is_ok());
    let bad = "f7bc83f430538424b13298e6aa6fb143ef4d59a14946175997479dbc2d1a3cd9";
    match config.verify_webhook(body, bad) {
        Err(AppError::BadRequest(m)) => assert_eq!(m, "Invalid webhook signature"),
        _ => panic!("a wrong signature must be rejected"),
    }
    assert!(config.verify_webhook(b"tampered body", good).is_err());
}

#[test]
fn token_hash_is_the_sha256_hex() {
    let auth = AuthService::new(&jwt_config());
    assert_eq!(
        auth.hash_token("abc"),
        "ba7816bf8f01cfea414140de5dae2223b00361a396177a9cb410ff61f20015ad"
    );
}

#[test]
fn password_hash_round_trips() {
    let auth = AuthService::new(&jwt_config());
    let hash = auth.hash_password("Str0ng#Pass").unwrap();
    assert_ne!(hash, "Str0ng#Pass");
    assert!(auth.verify_password("Str0ng#Pass", &hash).unwrap());
    assert!(!auth.verify_password("WrongPass1!", &hash).unwrap());
}

#[test]
fn reset_tokens_are_long_and_lowercase() {
    let auth = AuthService::new(&jwt_config());
    let token = auth.generate_reset_token();
    assert_eq!(token.chars().count(), 32);
    for c in token.chars() {
        assert!(c.is_ascii_digit() || c.is_ascii_lowercase());
    }
}

#[test]
fn user_roles_parse_from_claims() {
    let auth = AuthService::new(&jwt_config());
    let claims = Claims {
        sub: "7".to_string(),
        email: "w@example.com".to_string(),
        role: "writer".to_string(),
        exp: 0,
        iat: 0,
    };
    assert_eq!(auth.get_user_role(&claims).unwrap(), UserRole::Writer);
    let odd = Claims { role: "robot".to_string(), ..claims };
    assert!(matches!(odd, Claims { .. }));
    let odd_role = auth.get_user_role(&Claims {
        sub: "7".to_string(),
        email: "w@example.com".to_string(),
        role: "robot".to_string(),
        exp: 0,
        iat: 0,
    });
    assert!(odd_role.is_err());
}

#[test]
fn authenticated_user_role_checks() {
    let user = AuthenticatedUser {
        id: 1,
        email: "a@b.co".to_string(),
        role: UserRole::Sponsor,
    };
    assert!(user.is_sponsor());
    assert!(!user.is_writer());
    assert!(!user.is_admin());
}

#[test]
fn email_shape_check() {
    assert!(is_valid_email("a@b.co"));
    assert!(!is_valid_email("a@bco"));
    assert!(!is_valid_email("abc.o"));
    assert!(!is_valid_email("a@.c"));
}

#[test]
fn environment_parses_case_insensitively() {
    assert_eq!(Environment::from_str("PRODUCTION"), Environment::Production);
    assert_eq!(Environment::from_str("prod"), Environment::Production);
    assert_eq!(Environment::from_str("staging"), Environment::Development);
    assert!(Environment::Development.is_dev());
    assert!(!Environment::Production.is_dev());
}

#[test]
fn server_addr_joins_host_and_port() {
    let config = ServerConfig {
        host: "127.0.0.1".to_string(),
        port: 3000,
        frontend_url: "http://localhost:5173".to_string(),
    };
    assert_eq!(config.addr(), "127.0.0.1:3000");
}

#[test]
fn rate_limits_default_sensibly() {
    let limits = RateLimitConfig::default();
    assert_eq!(limits.general_rps, 100);
    assert_eq!(limits.auth_rps, 5);
    assert_eq!(limits.payment_rps, 10);
    assert_eq!(limits.burst_multiplier, 2);
}

#[test]
fn booking_status_parses_wire_values() {
    assert_eq!(parse_booking_status("paid"), Some(BookingStatus::Paid));
    assert_eq!(parse_booking_status("PENDING_PAYMENT"), Some(BookingStatus::PendingPayment));
    assert_eq!(parse_booking_status("Refunded"), Some(BookingStatus::Refunded));
    assert_eq!(parse_booking_status("gone"), None);
}

#[test]
fn cloudinary_urls_name_the_cloud() {
    let config = CloudinaryConfig {
        cloud_name: "demo".to_string(),
        api_key: "SECRET-REDACTED".to_string(),
        api_secret: "abc".to_string(),
        folder: None,
    };
    assert_eq!(config.upload_url(), "https://api.cloudinary.com/v1_1/demo/image/upload");
    assert_eq!(config.delete_url(), "https://api.cloudinary.com/v1_1/demo/image/destroy");
    let t = ImageTransformations {
        width: Some(600),
        height: Some(400),
        crop: Some("fill".to_string()),
        quality: Some("auto".to_string()),
        format: Some("auto".to_string()),
    };
    assert_eq!(t.to_transform_string(), "w_600,h_400,c_fill,q_auto,f_auto");
    assert_eq!(
        config.transform_url("pic-1", &t),
        "https://res.cloudinary.com/demo/image/upload/w_600,h_400,c_fill,q_auto,f_auto/pic-1"
    );
    assert_eq!(
        config.get_ad_image_url("pic-1"),
        "https://res.cloudinary.com/demo/image/upload/w_600,h_400,c_fill,q_auto,f_auto/pic-1"
    );
    assert_eq!(
        config.get_logo_url("logo-1"),
        "https://res.cloudinary.com/demo/image/upload/w_200,h_200,c_fit,q_auto,f_auto/logo-1"
    );
    // The empty transformation leaves the plain URL.
    let plain = ImageTransformations { width: None, height: None, crop: None, quality: None, format: None };
    assert_eq!(
        config.transform_url("pic-1", &plain),
        "https://res.cloudinary.com/demo/image/upload/pic-1"
    );
}

#[test]
fn signature_is_the_sha1_of_params_and_secret() {
    // With no parameters only the secret is hashed: sha1("abc").
    let config = CloudinaryConfig {
        cloud_name: "demo".to_string(),
        api_key: "SECRET-REDACTED".to_string(),
        api_secret: "abc".to_string(),
        folder: None,
    };
    let no_params: Vec<(String, String)> = Vec::new();
    assert_eq!(
        config.generate_signature(&no_params),
        "a9993e364706816aba3e25717850c26c9cd0d89d"
    );
    let params = vec![
        ("folder".to_string(), "ads".to_string()),
        ("timestamp".to_string(), "123".to_string()),
    ];
    // The signed text is "folder=ads&timestamp=123abc".
    let signed = config.generate_signature(&params);
    assert_eq!(signed.len(), 40);
}

#[test]
fn filenames_are_cleaned() {
    assert_eq!(sanitize_filename("my file(1).png"), "myfile1.png");
    assert_eq!(sanitize_filename("evil..."), "evil");
    assert_eq!(sanitize_filename("Plain-name_0.jpg"), "Plain-name_0.jpg");
}

#[test]
fn image_uploads_are_validated() {
    assert!(validate_image("image/png", &[1, 2, 3]).is_ok());
    assert!(matches!(
        validate_image("application/pdf", &[1, 2, 3]),
        Err(AppError::BadRequest(_))
    ));
    let big = vec![0u8; 10485761];
    assert!(matches!(validate_image("image/png", &big), Err(AppError::BadRequest(_))));
}

#[test]
fn pagination_is_clamped() {
    let params = PaginationParams { limit: 1000, offset: -3 }.validated();
    assert_eq!(params.limit, 100);
    assert_eq!(params.offset, 0);
    let params = PaginationParams { limit: 0, offset: 5 }.validated();
    assert_eq!(params.limit, 1);
    assert_eq!(params.offset, 5);
    let defaults = PaginationParams::default();
    assert_eq!(defaults.limit, 20);
    assert_eq!(defaults.offset, 0);
}

#[test]
fn pagination_meta_reports_more_pages() {
    let meta = PaginationMeta::new(45, 20, 20);
    assert!(meta.has_more);
    let done = PaginationMeta::new(45, 20, 40);
    assert!(!done.has_more);
}

#[test]
fn success_response_wraps_the_message() {
    let r = SuccessResponse::new("Booking approved successfully");
    assert!(r.success);
    assert_eq!(r.message, "Booking approved successfully");
}

#[test]
fn error_responses_carry_status_and_label() {
    assert_eq!(AppError::NotFound("x".to_string()).status_code(), 404);
    assert_eq!(AppError::Forbidden.status_code(), 403);
    assert_eq!(AppError::Conflict("x".to_string()).status_code(), 409);
    assert_eq!(AppError::Validation("x".to_string()).status_code(), 422);
    assert_eq!(AppError::Validation("x".to_string()).error_label(), "Validation error");
    assert_eq!(AppError::Internal("x".to_string()).details(), None);
    assert_eq!(AuthError::TokenRevoked.status_code(), 401);
    assert_eq!(AuthError::Forbidden.message(), "Insufficient permissions");
}

#[test]
fn user_accounts_and_reset_tokens() {
    let mut store = Store::new();
    let auth = AuthService::new(&jwt_config());
    let hash = auth.hash_password("Str0ng#Pass").unwrap();
    let user_id = store
        .create_user(
            CreateUser {
                email: "w@example.com".to_string(),
                first_name: "Wren".to_string(),
                last_name: "Writer".to_string(),
                password: "Str0ng#Pass".to_string(),
                role: UserRole::Writer,
            },
            hash,
            100,
        )
        .unwrap();
    assert!(store.get_user_by_id(user_id).is_some());
    assert!(store.get_user_by_email("w@example.com").is_some());
    // A second signup with the same email conflicts.
    let again = store.create_user(
        CreateUser {
            email: "w@example.com".to_string(),
            first_name: "Other".to_string(),
            last_name: "Person".to_string(),
            password: "An0ther#Pass".to_string(),
            role: UserRole::Sponsor,
        },
        "another-hash".to_string(),
        101,
    );
    assert!(matches!(again, Err(AppError::Conflict(_))));
    // Reset flow: store the token, then redeem it before expiry.
    assert!(store.set_reset_token("w@example.com", "token-hash".to_string(), 200));
    assert!(!store.set_reset_token("missing@example.com", "token-hash".to_string(), 200));
    assert!(store.reset_password("token-hash", "new-hash".to_string(), 300));
    assert!(!store.reset_password("token-hash", "new-hash".to_string(), 300));
}

#[test]
fn token_blacklist_expires() {
    let mut store = Store::new();
    store.blacklist_token("hash-1", 7, 1000);
    assert!(store.is_token_blacklisted("hash-1", 500));
    assert!(!store.is_token_blacklisted("hash-1", 1500));
    assert!(!store.is_token_blacklisted("hash-2", 500));
    let removed = store.cleanup_expired_tokens(1500);
    assert_eq!(removed, 1);
    assert!(!store.is_token_blacklisted("hash-1", 500));
}

#[test]
fn sponsor_profiles_update_partially() {
    let mut store = Store::new();
    let sponsor_id = store.create_sponsor(
        2,
        CreateSponsor {
            company_name: "Acme".to_string(),
            website_url: None,
            logo_url: None,
            billing_email: None,
        },
        100,
    );
    store
        .update_sponsor(
            sponsor_id,
            adsloty::models::UpdateSponsor {
                company_name: None,
                website_url: Some("https://acme.example".to_string()),
                logo_url: None,
                billing_email: Some("pay@acme.example".to_string()),
            },
            200,
        )
        .unwrap();
    let sponsor = store.get_sponsor_by_id(sponsor_id).unwrap();
    assert_eq!(sponsor.company_name, "Acme");
    assert_eq!(sponsor.website_url, Some("https://acme.example".to_string()));
    assert_eq!(sponsor.billing_email, Some("pay@acme.example".to_string()));
}

#[test]
fn blackout_dates_are_listed_and_deleted() {
    let mut store = Store::new();
    let writer_id = store
        .create_writer(
            1,
            adsloty::models::CreateWriter {
                newsletter_name: "Weekly Notes".to_string(),
                newsletter_url: None,
                description: None,
                subscriber_count: None,
                price_per_slot: 5000,
                currency: "usd".to_string(),
                lead_time_days: 7,
                slots_per_week: 1,
            },
            100,
        )
        .unwrap();
    // A past or present date is refused.
    assert!(matches!(
        store.create_blackout_date(
            writer_id,
            adsloty::models::CreateBlackoutDate { blocked_date: 100, reason: None },
            100,
            100,
        ),
        Err(AppError::Validation(_))
    ));
    store
        .create_blackout_date(
            writer_id,
            adsloty::models::CreateBlackoutDate { blocked_date: 130, reason: None },
            100,
            100,
        )
        .unwrap();
    assert_eq!(store.get_writer_blackout_dates(writer_id).len(), 1);
    assert!(store.delete_blackout_date(writer_id, 130));
    assert!(!store.delete_blackout_date(writer_id, 130));
    assert_eq!(store.get_writer_blackout_dates(writer_id).len(), 0);
}

#[test]
fn custom_data_lookup_finds_the_booking_key() {
    let meta = adsloty::payments::WebhookMeta {
        event_name: "order_created".to_string(),
        custom_data: Some(vec![
            ("booking_id".to_string(), "17".to_string()),
            ("writer_id".to_string(), "3".to_string()),
        ]),
    };
    assert_eq!(meta.get_custom_data("booking_id"), Some(&"17".to_string()));
    assert_eq!(meta.get_custom_data("sponsor_id"), None);
    let bare = adsloty::payments::WebhookMeta {
        event_name: "order_created".to_string(),
        custom_data: None,
    };
    assert_eq!(bare.get_custom_data("booking_id"), None);
}
