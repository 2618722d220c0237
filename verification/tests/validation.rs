use adsloty::validation::{
    sanitize_text, validate_ad_cta_text, validate_ad_headline, validate_booking_ad_content,
    validate_password, validate_url,
};

#[test]
fn test_sanitize_text_removes_html() {
    assert_eq!(
        sanitize_text("<script>alert('xss')</script>"),
        "&lt;script&gt;alert(&#x27;xss&#x27;)&lt;/script&gt;"
    );
}

#[test]
fn test_sanitize_text_preserves_normal_text() {
    assert_eq!(sanitize_text("Hello World"), "Hello World");
}

#[test]
fn test_validate_url_rejects_javascript() {
    assert!(validate_url("javascript:alert('xss')").is_err());
}

#[test]
fn test_validate_url_rejects_data() {
    assert!(validate_url("data:text/html,<script>alert('xss')</script>").is_err());
}

#[test]
fn test_validate_url_accepts_https() {
    assert!(validate_url("https://example.com").is_ok());
}

#[test]
fn test_validate_url_accepts_http() {
    assert!(validate_url("http://example.com").is_ok());
}

#[test]
fn test_validate_url_rejects_non_http() {
    assert!(validate_url("ftp://example.com").is_err());
}

#[test]
fn test_validate_ad_headline_empty() {
    assert!(validate_ad_headline("").is_err());
    assert!(validate_ad_headline("   ").is_err());
}

#[test]
fn test_validate_ad_headline_too_long() {
    let long_headline = "a".repeat(101);
    assert!(validate_ad_headline(&long_headline).is_err());
}

#[test]
fn test_validate_password_too_short() {
    assert!(validate_password("Abc1!").is_err());
}

#[test]
fn test_validate_password_too_long() {
    let long_password = format!("Abc1!{}", "a".repeat(128));
    assert!(validate_password(&long_password).is_err());
}

#[test]
fn test_validate_password_no_uppercase() {
    assert!(validate_password("abcdefgh1!").is_err());
}

#[test]
fn test_validate_password_no_lowercase() {
    assert!(validate_password("ABCDEFGH1!").is_err());
}

#[test]
fn test_validate_password_no_digit() {
    assert!(validate_password("Abcdefgh!").is_err());
}

#[test]
fn test_validate_password_no_special() {
    assert!(validate_password("Abcdefgh1").is_err());
}

#[test]
fn test_validate_password_valid() {
    assert!(validate_password("Abcdefgh1!").is_ok());
    assert!(validate_password("MyP@ssw0rd").is_ok());
    assert!(validate_password("Str0ng#Pass").is_ok());
}

#[test]
fn test_sanitize_text_trims_whitespace() {
    assert_eq!(sanitize_text("  spaced out  "), "spaced out");
}

#[test]
fn test_validate_url_trims_and_returns_input() {
    let checked = validate_url("  https://example.com/page  ").unwrap();
    assert_eq!(checked, "https://example.com/page");
}

#[test]
fn test_validate_url_rejects_empty() {
    assert!(validate_url("   ").is_err());
}

#[test]
fn test_validate_url_case_insensitive_scheme() {
    assert!(validate_url("HTTPS://EXAMPLE.COM").is_ok());
    assert!(validate_url("JavaScript:alert(1)").is_err());
}

#[test]
fn test_validate_ad_cta_text_blank_is_absent() {
    assert_eq!(validate_ad_cta_text(Some("   ")).unwrap(), None);
    assert_eq!(validate_ad_cta_text(None).unwrap(), None);
    assert_eq!(
        validate_ad_cta_text(Some("Buy now")).unwrap(),
        Some("Buy now".to_string())
    );
}

#[test]
fn test_validate_booking_ad_content_sanitizes_fields() {
    let out = validate_booking_ad_content(
        "Great <b>deal</b>",
        "Read all about it",
        Some("Go"),
        "https://example.com",
        None,
    )
    .unwrap();
    assert_eq!(out.ad_headline, "Great &lt;b&gt;deal&lt;/b&gt;");
    assert_eq!(out.ad_body, "Read all about it");
    assert_eq!(out.ad_cta_text, Some("Go".to_string()));
    assert_eq!(out.ad_cta_url, "https://example.com");
    assert_eq!(out.ad_image_url, None);
}

#[test]
fn test_validate_booking_ad_content_rejects_bad_url() {
    assert!(validate_booking_ad_content(
        "Headline",
        "Body",
        None,
        "vbscript:do()",
        None
    )
    .is_err());
}
