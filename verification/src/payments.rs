//! The payment provider's interface as the engine sees it: the
//! configuration, the checkout and order shapes, and webhook signature
//! verification.
//!
//! Creating checkouts, fetching orders and issuing refunds are HTTP
//! calls and live with the caller; what stands here is the logic that
//! can be checked — above all that a webhook body is accepted exactly
//! when its signature is the HMAC-SHA-256 tag of the body under the
//! shared secret.

use crate::crypto::{hex_encode, hex_of, hmac_sha256, hmac_sha256_of};
use crate::errors::AppError;
use crate::text::str_eq;
use vstd::prelude::*;
use vstd::utf8::encode_utf8;

verus! {

/// Connection settings for the payment provider.
pub struct LemonSqueezyConfig {
    pub api_key: String,
    pub store_id: String,
    pub webhook_secret: String,
    pub ad_slot_variant_id: String,
}

/// What a checkout is created from: the booking's identity and money,
/// and where to send the sponsor afterwards.
pub struct CreateCheckoutParams {
    pub booking_id: String,
    pub writer_id: String,
    pub sponsor_id: String,
    pub sponsor_email: String,
    pub newsletter_name: String,
    pub slot_date: String,
    pub amount_cents: i64,
    pub success_url: String,
    pub expires_at: Option<String>,
}

/// A created checkout: its reference and the hosted payment page.
pub struct CheckoutResult {
    pub checkout_id: String,
    pub checkout_url: String,
}

/// The provider's checkout envelope.
pub struct CheckoutResponse {
    pub data: CheckoutData,
}

/// One checkout as the provider reports it.
pub struct CheckoutData {
    pub id: String,
    pub data_type: String,
    pub attributes: CheckoutAttributes,
}

/// The attributes of a checkout.
pub struct CheckoutAttributes {
    pub url: String,
    pub expires_at: Option<String>,
    pub test_mode: bool,
}

/// The provider's order envelope.
pub struct OrderResponse {
    pub data: OrderData,
}

/// One order as the provider reports it.
pub struct OrderData {
    pub id: String,
    pub data_type: String,
    pub attributes: OrderAttributes,
}

/// The attributes of an order.
pub struct OrderAttributes {
    pub store_id: i64,
    pub customer_id: i64,
    pub identifier: String,
    pub order_number: i64,
    pub user_name: String,
    pub user_email: String,
    pub currency: String,
    pub currency_rate: String,
    pub subtotal: i64,
    pub discount_total: i64,
    pub tax: i64,
    pub total: i64,
    pub subtotal_usd: i64,
    pub discount_total_usd: i64,
    pub tax_usd: i64,
    pub total_usd: i64,
    pub status: String,
    pub status_formatted: String,
    pub refunded: bool,
    pub refunded_at: Option<String>,
    pub created_at: String,
    pub updated_at: String,
}

/// The envelope metadata of a webhook event: the event's name and the
/// custom key-value data attached at checkout time.
pub struct WebhookMeta {
    pub event_name: String,
    pub custom_data: Option<Vec<(String, String)>>,
}

impl WebhookMeta {
    /// Whether this event reports a newly created (paid) order.
    pub fn is_order_created(&self) -> (r: bool)
        ensures
            r == (self.event_name@ == "order_created"@),
    {
        str_eq(self.event_name.as_str(), "order_created")
    }

    /// Whether this event reports a refunded order.
    pub fn is_order_refunded(&self) -> (r: bool)
        ensures
            r == (self.event_name@ == "order_refunded"@),
    {
        str_eq(self.event_name.as_str(), "order_refunded")
    }

    /// The value stored under a key in the custom data, if any.
    pub fn get_custom_data(&self, key: &str) -> (r: Option<&String>)
        ensures
            match r {
                Some(v) => self.custom_data matches Some(kvs) && exists|i: int|
                    0 <= i < kvs@.len() && (#[trigger] kvs@[i]).0@ == key@ && kvs@[i].1 == *v,
                None => match self.custom_data {
                    Some(kvs) => forall|i: int|
                        0 <= i < kvs@.len() ==> (#[trigger] kvs@[i]).0@ != key@,
                    None => true,
                },
            },
    {
        match &self.custom_data {
            None => None,
            Some(kvs) => {
                let mut i: usize = 0;
                while i < kvs.len()
                    invariant
                        i <= kvs@.len(),
                        self.custom_data matches Some(k) && k == *kvs,
                        forall|j: int| 0 <= j < i ==> (#[trigger] kvs@[j]).0@ != key@,
                    decreases kvs@.len() - i,
                {
                    if str_eq(kvs[i].0.as_str(), key) {
                        let v = &kvs[i].1;
                        proof {
                            let gi = i as int;
                            assert(0 <= gi < kvs@.len());
                            assert((kvs@[gi]).0@ == key@);
                            assert(kvs@[gi].1 == *v);
                            assert(exists|x: int|
                                0 <= x < kvs@.len() && (#[trigger] kvs@[x]).0@ == key@
                                    && kvs@[x].1 == *v);
                        }
                        return Some(v);
                    }
                    i += 1;
                }
                None
            },
        }
    }
}

/// The signature a webhook body must carry: the lowercase hex form of
/// its HMAC-SHA-256 tag under the shared secret.
pub open spec fn expected_signature(secret: Seq<char>, payload: Seq<u8>) -> Seq<char> {
    hex_of(hmac_sha256_of(encode_utf8(secret), payload))
}

impl LemonSqueezyConfig {
    /// Verifies a webhook body against its signature header: accepted
    /// exactly when the signature equals the HMAC-SHA-256 tag of the
    /// body under the shared secret, hex encoded. A rejected body must
    /// cause no state transition.
    pub fn verify_webhook(&self, payload: &[u8], signature: &str) -> (r: Result<(), AppError>)
        ensures
            match r {
                Ok(()) => signature@ == expected_signature(self.webhook_secret@, payload@),
                Err(AppError::BadRequest(m)) => {
                    &&& signature@ != expected_signature(self.webhook_secret@, payload@)
                    &&& m@ == "Invalid webhook signature"@
                },
                Err(_) => false,
            },
    {
        let tag = hmac_sha256(self.webhook_secret.as_str().as_bytes(), payload);
        let expected = hex_encode(tag.as_slice());
        if !str_eq(expected.as_str(), signature) {
            return Err(AppError::BadRequest("Invalid webhook signature".to_owned()));
        }
        Ok(())
    }
}

} // verus!
