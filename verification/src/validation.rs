//! Input validation: password rules, HTML escaping of ad copy, URL
//! scheme checks, and the combined check of a whole booking's ad
//! content.

use crate::errors::AppError;
use crate::text::{
    char_is_alphanumeric, has_prefix, lower_of, push_char, str_has_prefix, to_lowercase, trim,
    trim_of, unicode_alphanumeric,
};
use vstd::prelude::*;
use vstd::string::StrSliceExecFns;
use vstd::utf8::encode_utf8;

verus! {

pub const MIN_PASSWORD_LENGTH: usize = 8;

pub const MAX_PASSWORD_LENGTH: usize = 128;

pub const MAX_HEADLINE_LENGTH: usize = 100;

pub const MAX_BODY_LENGTH: usize = 500;

pub const MAX_CTA_TEXT_LENGTH: usize = 50;

pub const MAX_URL_LENGTH: usize = 2048;

/// The number of bytes a string of these characters occupies, as
/// `str::len` reports it.
pub open spec fn byte_len(s: Seq<char>) -> usize {
    encode_utf8(s).len() as usize
}

/// An ASCII uppercase letter.
pub open spec fn is_upper_char(c: char) -> bool {
    65 <= c as u32 <= 90
}

/// An ASCII lowercase letter.
pub open spec fn is_lower_char(c: char) -> bool {
    97 <= c as u32 <= 122
}

/// An ASCII digit.
pub open spec fn is_digit_char(c: char) -> bool {
    48 <= c as u32 <= 57
}

/// Why a password is rejected, if it is: the checks run in this order
/// and the first failure wins.
pub open spec fn password_error(p: Seq<char>) -> Option<Seq<char>> {
    if byte_len(p) < 8 {
        Some("Password must be at least 8 characters long"@)
    } else if byte_len(p) > 128 {
        Some("Password must not exceed 128 characters"@)
    } else if !(exists|i: int| 0 <= i < p.len() && is_upper_char(#[trigger] p[i])) {
        Some("Password must contain at least one uppercase letter"@)
    } else if !(exists|i: int| 0 <= i < p.len() && is_lower_char(#[trigger] p[i])) {
        Some("Password must contain at least one lowercase letter"@)
    } else if !(exists|i: int| 0 <= i < p.len() && is_digit_char(#[trigger] p[i])) {
        Some("Password must contain at least one digit"@)
    } else if !(exists|i: int| 0 <= i < p.len() && !unicode_alphanumeric(#[trigger] p[i])) {
        Some("Password must contain at least one special character"@)
    } else {
        None
    }
}

/// Whether the password holds an ASCII uppercase letter.
fn any_upper(s: &str) -> (r: bool)
    ensures
        r == exists|i: int| 0 <= i < s@.len() && is_upper_char(#[trigger] s@[i]),
{
    let len = s.unicode_len();
    let mut i: usize = 0;
    while i < len
        invariant
            len == s@.len(),
            i <= len,
            forall|j: int| 0 <= j < i ==> !is_upper_char(#[trigger] s@[j]),
        decreases len - i,
    {
        let c = s.get_char(i);
        if (c as u32) >= 65 && (c as u32) <= 90 {
            return true;
        }
        i += 1;
    }
    false
}

/// Whether the password holds an ASCII lowercase letter.
fn any_lower(s: &str) -> (r: bool)
    ensures
        r == exists|i: int| 0 <= i < s@.len() && is_lower_char(#[trigger] s@[i]),
{
    let len = s.unicode_len();
    let mut i: usize = 0;
    while i < len
        invariant
            len == s@.len(),
            i <= len,
            forall|j: int| 0 <= j < i ==> !is_lower_char(#[trigger] s@[j]),
        decreases len - i,
    {
        let c = s.get_char(i);
        if (c as u32) >= 97 && (c as u32) <= 122 {
            return true;
        }
        i += 1;
    }
    false
}

/// Whether the password holds an ASCII digit.
fn any_digit(s: &str) -> (r: bool)
    ensures
        r == exists|i: int| 0 <= i < s@.len() && is_digit_char(#[trigger] s@[i]),
{
    let len = s.unicode_len();
    let mut i: usize = 0;
    while i < len
        invariant
            len == s@.len(),
            i <= len,
            forall|j: int| 0 <= j < i ==> !is_digit_char(#[trigger] s@[j]),
        decreases len - i,
    {
        let c = s.get_char(i);
        if (c as u32) >= 48 && (c as u32) <= 57 {
            return true;
        }
        i += 1;
    }
    false
}

/// Whether the password holds a character that is not alphanumeric.
fn any_special(s: &str) -> (r: bool)
    ensures
        r == exists|i: int| 0 <= i < s@.len() && !unicode_alphanumeric(#[trigger] s@[i]),
{
    let len = s.unicode_len();
    let mut i: usize = 0;
    while i < len
        invariant
            len == s@.len(),
            i <= len,
            forall|j: int| 0 <= j < i ==> unicode_alphanumeric(#[trigger] s@[j]),
        decreases len - i,
    {
        let c = s.get_char(i);
        if !char_is_alphanumeric(c) {
            return true;
        }
        i += 1;
    }
    false
}

/// Checks a password: between eight and one hundred twenty-eight
/// bytes, with at least one uppercase letter, one lowercase letter,
/// one digit and one character that is not alphanumeric. The first
/// failed check names the error.
pub fn validate_password(password: &str) -> (r: Result<(), AppError>)
    ensures
        match r {
            Ok(()) => password_error(password@) is None,
            Err(AppError::Validation(m)) => password_error(password@) == Some(m@),
            Err(_) => false,
        },
{
    if password.len() < MIN_PASSWORD_LENGTH {
        return Err(
            AppError::Validation("Password must be at least 8 characters long".to_owned()),
        );
    }
    if password.len() > MAX_PASSWORD_LENGTH {
        return Err(AppError::Validation("Password must not exceed 128 characters".to_owned()));
    }
    if !any_upper(password) {
        return Err(
            AppError::Validation(
                "Password must contain at least one uppercase letter".to_owned(),
            ),
        );
    }
    if !any_lower(password) {
        return Err(
            AppError::Validation(
                "Password must contain at least one lowercase letter".to_owned(),
            ),
        );
    }
    if !any_digit(password) {
        return Err(AppError::Validation("Password must contain at least one digit".to_owned()));
    }
    if !any_special(password) {
        return Err(
            AppError::Validation(
                "Password must contain at least one special character".to_owned(),
            ),
        );
    }
    Ok(())
}

/// What one character of ad copy becomes: angle brackets and quotes
/// turn into HTML entities, everything else stays itself.
pub open spec fn escape_char(c: char) -> Seq<char> {
    if c == '<' {
        "&lt;"@
    } else if c == '>' {
        "&gt;"@
    } else if c == '"' {
        "&quot;"@
    } else if c == '\'' {
        "&#x27;"@
    } else {
        seq![c]
    }
}

/// The HTML-escaped form of a string.
pub open spec fn html_escaped(s: Seq<char>) -> Seq<char>
    decreases s.len(),
{
    if s.len() == 0 {
        Seq::empty()
    } else {
        html_escaped(s.drop_last()) + escape_char(s.last())
    }
}

/// The sanitized form of free text: HTML-escaped, then trimmed.
pub open spec fn sanitized_of(s: Seq<char>) -> Seq<char> {
    trim_of(html_escaped(s))
}

/// Escapes angle brackets and quotes to HTML entities and trims the
/// result.
pub fn sanitize_text(input: &str) -> (r: String)
    ensures
        r@ == sanitized_of(input@),
{
    let len = input.unicode_len();
    let mut out = String::new();
    let mut i: usize = 0;
    proof {
        assert(input@.take(0int) =~= Seq::<char>::empty());
    }
    while i < len
        invariant
            len == input@.len(),
            i <= len,
            out@ == html_escaped(input@.take(i as int)),
        decreases len - i,
    {
        let ghost taken = input@.take(i as int);
        let c = input.get_char(i);
        if c == '<' {
            out.append("&lt;");
        } else if c == '>' {
            out.append("&gt;");
        } else if c == '"' {
            out.append("&quot;");
        } else if c == '\'' {
            out.append("&#x27;");
        } else {
            push_char(&mut out, c);
        }
        i += 1;
        proof {
            let taken2 = input@.take(i as int);
            assert(taken2.drop_last() =~= taken);
            assert(taken2.last() == input@[i - 1]);
            if !(c == '<' || c == '>' || c == '"' || c == '\'') {
                assert(out@ =~= html_escaped(taken) + escape_char(c));
            }
            assert(out@ == html_escaped(taken2));
        }
    }
    proof {
        assert(input@.take(len as int) =~= input@);
    }
    let trimmed = trim(out.as_str()).to_owned();
    trimmed
}

/// Why a URL is rejected, if it is, judged on its trimmed form: it
/// must be non-empty, at most the maximum length in bytes, must not
/// lower to a `javascript:`, `data:` or `vbscript:` scheme, and must
/// lower to `http://` or `https://`.
pub open spec fn url_error(t: Seq<char>) -> Option<Seq<char>> {
    if t.len() == 0 {
        Some("URL cannot be empty"@)
    } else if byte_len(t) > 2048 {
        Some("URL exceeds maximum length of 2048 characters"@)
    } else if str_has_prefix(lower_of(t), "javascript:"@) || str_has_prefix(lower_of(t), "data:"@)
        || str_has_prefix(lower_of(t), "vbscript:"@) {
        Some("Invalid URL protocol"@)
    } else if !str_has_prefix(lower_of(t), "http://"@) && !str_has_prefix(
        lower_of(t),
        "https://"@,
    ) {
        Some("URL must start with http:// or https://"@)
    } else {
        None
    }
}

/// Checks a URL and returns its trimmed form: non-empty, not over the
/// maximum length, and carrying an `http` or `https` scheme rather
/// than a script scheme.
pub fn validate_url(url: &str) -> (r: Result<String, AppError>)
    ensures
        match r {
            Ok(out) => url_error(trim_of(url@)) is None && out@ == trim_of(url@),
            Err(AppError::Validation(m)) => url_error(trim_of(url@)) == Some(m@),
            Err(_) => false,
        },
{
    let url = trim(url);
    if url.is_empty() {
        return Err(AppError::Validation("URL cannot be empty".to_owned()));
    }
    if url.len() > MAX_URL_LENGTH {
        return Err(
            AppError::Validation("URL exceeds maximum length of 2048 characters".to_owned()),
        );
    }
    let lower = to_lowercase(url);
    let l = lower.as_str();
    if has_prefix(l, "javascript:") || has_prefix(l, "data:") || has_prefix(l, "vbscript:") {
        return Err(AppError::Validation("Invalid URL protocol".to_owned()));
    }
    if !has_prefix(l, "http://") && !has_prefix(l, "https://") {
        return Err(
            AppError::Validation("URL must start with http:// or https://".to_owned()),
        );
    }
    Ok(url.to_owned())
}

/// Why an ad headline is rejected, if it is, judged on its sanitized
/// form.
pub open spec fn headline_error(h: Seq<char>) -> Option<Seq<char>> {
    if sanitized_of(h).len() == 0 {
        Some("Ad headline cannot be empty"@)
    } else if byte_len(sanitized_of(h)) > 100 {
        Some("Ad headline exceeds maximum length of 100 characters"@)
    } else {
        None
    }
}

/// Sanitizes an ad headline and checks it is non-empty and within the
/// length limit.
pub fn validate_ad_headline(headline: &str) -> (r: Result<String, AppError>)
    ensures
        match r {
            Ok(out) => headline_error(headline@) is None && out@ == sanitized_of(headline@),
            Err(AppError::Validation(m)) => headline_error(headline@) == Some(m@),
            Err(_) => false,
        },
{
    let sanitized = sanitize_text(headline);
    if sanitized.as_str().is_empty() {
        return Err(AppError::Validation("Ad headline cannot be empty".to_owned()));
    }
    if sanitized.as_str().len() > MAX_HEADLINE_LENGTH {
        return Err(
            AppError::Validation(
                "Ad headline exceeds maximum length of 100 characters".to_owned(),
            ),
        );
    }
    Ok(sanitized)
}

/// Why an ad body is rejected, if it is, judged on its sanitized form.
pub open spec fn body_error(b: Seq<char>) -> Option<Seq<char>> {
    if sanitized_of(b).len() == 0 {
        Some("Ad body cannot be empty"@)
    } else if byte_len(sanitized_of(b)) > 500 {
        Some("Ad body exceeds maximum length of 500 characters"@)
    } else {
        None
    }
}

/// Sanitizes an ad body and checks it is non-empty and within the
/// length limit.
pub fn validate_ad_body(body: &str) -> (r: Result<String, AppError>)
    ensures
        match r {
            Ok(out) => body_error(body@) is None && out@ == sanitized_of(body@),
            Err(AppError::Validation(m)) => body_error(body@) == Some(m@),
            Err(_) => false,
        },
{
    let sanitized = sanitize_text(body);
    if sanitized.as_str().is_empty() {
        return Err(AppError::Validation("Ad body cannot be empty".to_owned()));
    }
    if sanitized.as_str().len() > MAX_BODY_LENGTH {
        return Err(
            AppError::Validation("Ad body exceeds maximum length of 500 characters".to_owned()),
        );
    }
    Ok(sanitized)
}

/// What checking an optional call-to-action text yields: nothing for a
/// missing or blank text, an error over the length limit, and the
/// sanitized text otherwise.
pub open spec fn cta_outcome(t: Option<Seq<char>>) -> Result<Option<Seq<char>>, Seq<char>> {
    match t {
        None => Ok(None),
        Some(text) => {
            if sanitized_of(text).len() == 0 {
                Ok(None)
            } else if byte_len(sanitized_of(text)) > 50 {
                Err("CTA text exceeds maximum length of 50 characters"@)
            } else {
                Ok(Some(sanitized_of(text)))
            }
        },
    }
}

/// Sanitizes an optional call-to-action text; a blank one counts as
/// absent, and an over-long one is rejected.
pub fn validate_ad_cta_text(cta_text: Option<&str>) -> (r: Result<Option<String>, AppError>)
    ensures
        match r {
            Ok(out) => {
                &&& cta_outcome(view_of_opt_str(cta_text)) matches Ok(expect)
                &&& match (out, cta_outcome(view_of_opt_str(cta_text))) {
                    (Some(s), Ok(Some(e))) => s@ == e,
                    (None, Ok(None)) => true,
                    _ => false,
                }
            },
            Err(AppError::Validation(m)) => cta_outcome(view_of_opt_str(cta_text)) == Err::<
                Option<Seq<char>>,
                Seq<char>,
            >(m@),
            Err(_) => false,
        },
{
    match cta_text {
        None => Ok(None),
        Some(text) => {
            let sanitized = sanitize_text(text);
            if sanitized.as_str().is_empty() {
                return Ok(None);
            }
            if sanitized.as_str().len() > MAX_CTA_TEXT_LENGTH {
                return Err(
                    AppError::Validation(
                        "CTA text exceeds maximum length of 50 characters".to_owned(),
                    ),
                );
            }
            Ok(Some(sanitized))
        },
    }
}

/// The view of an optional string slice.
pub open spec fn view_of_opt_str(s: Option<&str>) -> Option<Seq<char>> {
    match s {
        Some(t) => Some(t@),
        None => None,
    }
}

/// What checking an optional image URL yields: nothing for a missing
/// or blank URL, otherwise whatever the URL check yields.
pub open spec fn image_url_outcome(u: Option<Seq<char>>) -> Result<Option<Seq<char>>, Seq<char>> {
    match u {
        None => Ok(None),
        Some(url) => {
            if trim_of(url).len() == 0 {
                Ok(None)
            } else {
                match url_error(trim_of(url)) {
                    Some(m) => Err(m),
                    None => Ok(Some(trim_of(url))),
                }
            }
        },
    }
}

/// Checks an optional image URL; a blank one counts as absent.
pub fn validate_image_url(url: Option<&str>) -> (r: Result<Option<String>, AppError>)
    ensures
        match r {
            Ok(out) => {
                &&& image_url_outcome(view_of_opt_str(url)) matches Ok(_)
                &&& match (out, image_url_outcome(view_of_opt_str(url))) {
                    (Some(s), Ok(Some(e))) => s@ == e,
                    (None, Ok(None)) => true,
                    _ => false,
                }
            },
            Err(AppError::Validation(m)) => image_url_outcome(view_of_opt_str(url)) == Err::<
                Option<Seq<char>>,
                Seq<char>,
            >(m@),
            Err(_) => false,
        },
{
    match url {
        None => Ok(None),
        Some(u) => {
            if trim(u).is_empty() {
                return Ok(None);
            }
            match validate_url(u) {
                Ok(validated) => Ok(Some(validated)),
                Err(e) => Err(e),
            }
        },
    }
}

/// Ad content after validation: sanitized copy and checked URLs, ready
/// to store on a booking.
pub struct SanitizedBookingInput {
    pub ad_headline: String,
    pub ad_body: String,
    pub ad_cta_text: Option<String>,
    pub ad_cta_url: String,
    pub ad_image_url: Option<String>,
}

impl SanitizedBookingInput {
    /// How the sanitized fields relate to the raw ones.
    pub open spec fn derived_from(
        self,
        headline: Seq<char>,
        body: Seq<char>,
        cta_text: Option<Seq<char>>,
        cta_url: Seq<char>,
        image_url: Option<Seq<char>>,
    ) -> bool {
        &&& self.ad_headline@ == sanitized_of(headline)
        &&& headline_error(headline) is None
        &&& self.ad_body@ == sanitized_of(body)
        &&& body_error(body) is None
        &&& match (self.ad_cta_text, cta_outcome(cta_text)) {
            (Some(s), Ok(Some(e))) => s@ == e,
            (None, Ok(None)) => true,
            _ => false,
        }
        &&& self.ad_cta_url@ == trim_of(cta_url)
        &&& url_error(trim_of(cta_url)) is None
        &&& match (self.ad_image_url, image_url_outcome(image_url)) {
            (Some(s), Ok(Some(e))) => s@ == e,
            (None, Ok(None)) => true,
            _ => false,
        }
    }
}

/// Validates a whole booking's ad content, field by field in order:
/// headline, body, call-to-action text, call-to-action URL, image URL.
/// The first failing field names the error.
pub fn validate_booking_ad_content(
    ad_headline: &str,
    ad_body: &str,
    ad_cta_text: Option<&str>,
    ad_cta_url: &str,
    ad_image_url: Option<&str>,
) -> (r: Result<SanitizedBookingInput, AppError>)
    ensures
        match r {
            Ok(out) => out.derived_from(
                ad_headline@,
                ad_body@,
                view_of_opt_str(ad_cta_text),
                ad_cta_url@,
                view_of_opt_str(ad_image_url),
            ),
            Err(AppError::Validation(_)) => {
                ||| headline_error(ad_headline@) is Some
                ||| body_error(ad_body@) is Some
                ||| cta_outcome(view_of_opt_str(ad_cta_text)) is Err
                ||| url_error(trim_of(ad_cta_url@)) is Some
                ||| image_url_outcome(view_of_opt_str(ad_image_url)) is Err
            },
            Err(_) => false,
        },
{
    let headline = match validate_ad_headline(ad_headline) {
        Ok(h) => h,
        Err(e) => {
            return Err(e);
        },
    };
    let body = match validate_ad_body(ad_body) {
        Ok(b) => b,
        Err(e) => {
            return Err(e);
        },
    };
    let cta_text = match validate_ad_cta_text(ad_cta_text) {
        Ok(t) => t,
        Err(e) => {
            return Err(e);
        },
    };
    let cta_url = match validate_url(ad_cta_url) {
        Ok(u) => u,
        Err(e) => {
            return Err(e);
        },
    };
    let image_url = match validate_image_url(ad_image_url) {
        Ok(u) => u,
        Err(e) => {
            return Err(e);
        },
    };
    Ok(
        SanitizedBookingInput {
            ad_headline: headline,
            ad_body: body,
            ad_cta_text: cta_text,
            ad_cta_url: cta_url,
            ad_image_url: image_url,
        },
    )
}

} // verus!
