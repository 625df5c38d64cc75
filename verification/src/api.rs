//! Transactional REST API surface: webhook signing and the API errors.
//!
//! Webhook payloads are signed with HMAC-SHA-256 over
//! `"<timestamp>.<raw body>"`; the signature travels in the
//! `X-Aerogram-Signature` header as `t=<timestamp>,v1=<hex signature>`.

use hmac::{Hmac, Mac};
use sha2::Sha256;
use vstd::prelude::*;
use vstd::string::*;

use crate::text::{decimal_ascii, decimal_digits, decimal_digits_of, decimal_text, hex_lower,
    lemma_decimal_ascii_injective, lemma_decimal_ascii_is_digits, lemma_decimal_digits_below_ten,
    lemma_decimal_text_injective, lemma_decimal_text_is_digits, lemma_hex_lower_injective,
    lemma_hex_lower_len, prefixed, push_decimal, push_hex_lower};

verus! {

/// HMAC-SHA-256 of `message` under `key`, as computed by the `hmac` and
/// `sha2` crates.
pub uninterp spec fn hmac_sha256(key: Seq<u8>, message: Seq<u8>) -> Seq<u8>;

/// Computes HMAC-SHA-256 through `hmac::Hmac::<sha2::Sha256>`
/// (`new_from_slice`, `update`, `finalize`).
///
/// Trusted: the result is the named value `hmac_sha256(key, message)`, and
/// it is 32 bytes long (the SHA-256 output size). `new_from_slice` of `hmac`
/// 0.12 accepts keys of every length, so the result is always `Some`.
#[verifier::external_body]
fn compute_hmac_sha256(key: &[u8], message: &[u8]) -> (r: Option<Vec<u8>>)
    ensures
        r is Some,
        r.unwrap()@ == hmac_sha256(key@, message@),
        r.unwrap()@.len() == 32,
{
    match Hmac::<Sha256>::new_from_slice(key) {
        Ok(mut mac) => {
            mac.update(message);
            Some(mac.finalize().into_bytes().to_vec())
        },
        Err(_) => None,
    }
}

/// The bytes that are signed for a webhook call: the decimal timestamp,
/// a `.`, then the raw body.
pub open spec fn signing_input(timestamp: u64, body: Seq<u8>) -> Seq<u8> {
    decimal_ascii(timestamp as nat) + seq![46u8] + body
}

/// The `X-Aerogram-Signature` header value for a timestamp and a MAC:
/// `t=<timestamp>,v1=<lower-case hex MAC>`.
pub open spec fn signature_header(timestamp: u64, mac: Seq<u8>) -> Seq<char> {
    "t="@ + decimal_text(timestamp as nat) + ",v1="@ + hex_lower(mac)
}

/// A signature header determines the timestamp and the MAC it was built
/// from: a receiver reads both back unambiguously from
/// `t=<timestamp>,v1=<hex>`.
pub proof fn signature_header_is_unambiguous(t1: u64, mac1: Seq<u8>, t2: u64, mac2: Seq<u8>)
    requires
        signature_header(t1, mac1) == signature_header(t2, mac2),
    ensures
        t1 == t2,
        mac1 == mac2,
{
    reveal_strlit("t=");
    reveal_strlit(",v1=");
    let d1 = decimal_text(t1 as nat);
    let d2 = decimal_text(t2 as nat);
    let h = signature_header(t1, mac1);
    lemma_decimal_text_is_digits(t1 as nat);
    lemma_decimal_text_is_digits(t2 as nat);
    assert(h == seq!['t', '='] + d1 + seq![',', 'v', '1', '='] + hex_lower(mac1));
    assert(h == seq!['t', '='] + d2 + seq![',', 'v', '1', '='] + hex_lower(mac2));
    if d1.len() < d2.len() {
        assert(h[2 + d1.len() as int] == ',');
        assert(h[2 + d1.len() as int] == d2[d1.len() as int]);
    } else if d2.len() < d1.len() {
        assert(h[2 + d2.len() as int] == ',');
        assert(h[2 + d2.len() as int] == d1[d2.len() as int]);
    }
    assert(d1.len() == d2.len());
    assert(d1 =~= h.subrange(2, 2 + d1.len() as int));
    assert(d2 =~= h.subrange(2, 2 + d2.len() as int));
    lemma_decimal_text_injective(t1 as nat, t2 as nat);
    assert(hex_lower(mac1) =~= h.skip(6 + d1.len() as int));
    assert(hex_lower(mac2) =~= h.skip(6 + d2.len() as int));
    lemma_hex_lower_injective(mac1, mac2);
}

/// The signed bytes determine both the timestamp and the body, so a
/// signature covers the timestamp as well as every byte of the body.
pub proof fn signing_input_is_unambiguous(t1: u64, body1: Seq<u8>, t2: u64, body2: Seq<u8>)
    requires
        signing_input(t1, body1) == signing_input(t2, body2),
    ensures
        t1 == t2,
        body1 == body2,
{
    let a1 = decimal_ascii(t1 as nat);
    let a2 = decimal_ascii(t2 as nat);
    let s = signing_input(t1, body1);
    lemma_decimal_ascii_is_digits(t1 as nat);
    lemma_decimal_ascii_is_digits(t2 as nat);
    if a1.len() < a2.len() {
        assert(s[a1.len() as int] == 46u8);
        assert(s[a1.len() as int] == a2[a1.len() as int]);
    } else if a2.len() < a1.len() {
        assert(s[a2.len() as int] == 46u8);
        assert(s[a2.len() as int] == a1[a2.len() as int]);
    }
    assert(a1.len() == a2.len());
    assert(a1 =~= s.take(a1.len() as int));
    assert(a2 =~= s.take(a2.len() as int));
    lemma_decimal_ascii_injective(t1 as nat, t2 as nat);
    assert(body1 =~= s.skip(a1.len() as int + 1));
    assert(body2 =~= s.skip(a2.len() as int + 1));
}

/// Public API server, mounted under `/v1/`.
#[derive(Debug, Clone, Default)]
pub struct ApiServer;

/// Router for the `/v1/messages` subtree.
#[derive(Debug, Clone, Default)]
pub struct MessagesRouter;

/// HMAC-SHA-256 signer for outbound webhook payloads.
#[derive(Debug, Clone)]
pub struct WebhookSigner {
    _secret: Vec<u8>,
}

impl View for WebhookSigner {
    type V = Seq<u8>;

    /// The shared secret.
    closed spec fn view(&self) -> Seq<u8> {
        self._secret@
    }
}

/// Builds the bytes that are signed: decimal timestamp, `.`, raw body.
pub fn build_signing_input(timestamp: u64, body: &[u8]) -> (input: Vec<u8>)
    ensures
        input@ == signing_input(timestamp, body@),
{
    let digits = decimal_digits_of(timestamp);
    proof {
        lemma_decimal_digits_below_ten(timestamp as nat);
    }
    let ghost ascii = decimal_ascii(timestamp as nat);
    let mut input: Vec<u8> = Vec::new();
    let n = digits.len();
    let mut i: usize = 0;
    while i < n
        invariant
            n == digits@.len(),
            digits@ == decimal_digits(timestamp as nat),
            ascii == decimal_ascii(timestamp as nat),
            i <= n,
            forall|k: int| 0 <= k < n ==> #[trigger] digits@[k] < 10,
            input@ == ascii.take(i as int),
        decreases n - i,
    {
        input.push(digits[i] + 48);
        assert(ascii.take(i as int + 1) =~= ascii.take(i as int).push(ascii[i as int]));
        i = i + 1;
    }
    assert(ascii.take(n as int) =~= ascii);
    input.push(46u8);
    let ghost head = input@;
    let m = body.len();
    let mut j: usize = 0;
    while j < m
        invariant
            m == body@.len(),
            j <= m,
            input@ == head + body@.take(j as int),
        decreases m - j,
    {
        input.push(body[j]);
        assert(body@.take(j as int + 1) =~= body@.take(j as int).push(body@[j as int]));
        j = j + 1;
    }
    assert(body@.take(m as int) =~= body@);
    assert(input@ =~= signing_input(timestamp, body@));
    input
}

/// Renders the `X-Aerogram-Signature` header value for a timestamp and an
/// already computed MAC.
pub fn signature_header_value(timestamp: u64, mac: &[u8]) -> (header: String)
    ensures
        header@ == signature_header(timestamp, mac@),
{
    let mut header = String::from_str("t=");
    push_decimal(&mut header, timestamp);
    header.append(",v1=");
    push_hex_lower(&mut header, mac);
    header
}

impl WebhookSigner {
    /// Builds a signer from the configured shared secret.
    pub fn new(secret: Vec<u8>) -> (signer: Self)
        ensures
            signer@ == secret@,
    {
        WebhookSigner { _secret: secret }
    }

    /// Computes the `X-Aerogram-Signature` header value for the given raw
    /// body bytes and timestamp: `t=<timestamp>,v1=<hex>` where `<hex>` is
    /// the lower-case hexadecimal HMAC-SHA-256, under the shared secret, of
    /// `"<timestamp>.<body>"`.
    ///
    /// The `Err(ApiError::Sign(..))` branch is taken only when the HMAC
    /// initialisation fails, which the `hmac` crate never does.
    pub fn sign(&self, timestamp: u64, body: &[u8]) -> (r: Result<String, ApiError>)
        ensures
            r matches Ok(header) && header@ == signature_header(
                timestamp,
                hmac_sha256(self@, signing_input(timestamp, body@)),
            ) && header@.len() == decimal_text(timestamp as nat).len() + 70,
    {
        let input = build_signing_input(timestamp, body);
        match compute_hmac_sha256(self._secret.as_slice(), input.as_slice()) {
            Some(mac) => {
                proof {
                    lemma_hex_lower_len(mac@);
                    reveal_strlit("t=");
                    reveal_strlit(",v1=");
                }
                Ok(signature_header_value(timestamp, mac.as_slice()))
            },
            None => Err(ApiError::Sign(String::from_str("hmac initialisation failed"))),
        }
    }
}

/// API-specific errors.
#[derive(Debug)]
pub enum ApiError {
    /// Request validation failed.
    Invalid(String),
    /// Recipient address is on the suppression list.
    Suppressed(String),
    /// Signing operation failed.
    Sign(String),
}

impl ApiError {
    /// The display text of the error.
    pub open spec fn message(&self) -> Seq<char> {
        match self {
            ApiError::Invalid(d) => "invalid request: "@ + d@,
            ApiError::Suppressed(d) => "recipient suppressed: "@ + d@,
            ApiError::Sign(d) => "webhook sign error: "@ + d@,
        }
    }

    /// Renders the error as text.
    pub fn to_string(&self) -> (r: String)
        ensures
            r@ == self.message(),
    {
        match self {
            ApiError::Invalid(d) => prefixed("invalid request: ", d),
            ApiError::Suppressed(d) => prefixed("recipient suppressed: ", d),
            ApiError::Sign(d) => prefixed("webhook sign error: ", d),
        }
    }
}

} // verus!
