//! License token verification: an ES256-signed JWT whose claims describe the
//! paying party and its subscriptions.

use vstd::prelude::*;
use base64::Engine;
use p256::ecdsa::signature::Verifier;
use p256::pkcs8::DecodePublicKey;
use vstd::utf8::encode_utf8;
use crate::error::{ErrorCode, TwoKeyError, TwoKeyResult};
use crate::json::{get, get_spec, json_parse, parse_json, JsonValue};
use crate::models::{
    allows_local_device_spec, claims_spec, subscriptions_view, LicensePayload, PayloadV,
};
use crate::ports::Clock;
use crate::text::{chars_of, concat_chars, copy_string, split_chars, split_seq, string_of, trim_chars, trim_seq};

verus! {

// ---------------------------------------------------------------------------
// Outside codecs
// ---------------------------------------------------------------------------

/// What base64's URL-safe, unpadded engine decodes `input` to.
pub uninterp spec fn b64_url_nopad(input: Seq<u8>) -> Option<Seq<u8>>;

/// What base64's standard, padded engine decodes `input` to.
pub uninterp spec fn b64_standard(input: Seq<u8>) -> Option<Seq<u8>>;

/// Whether p256 reads `pem` as an SPKI P-256 public key.
pub uninterp spec fn p256_key_pem_ok(pem: Seq<char>) -> bool;

/// Whether `sig` is a 64-byte ECDSA P-256 signature of `msg` (SHA-256) under
/// the key in `pem`.
pub uninterp spec fn es256_verifies(pem: Seq<char>, msg: Seq<u8>, sig: Seq<u8>) -> bool;

pub open spec fn bytes_opt(o: Option<Vec<u8>>) -> Option<Seq<u8>> {
    match o {
        Some(v) => Some(v@),
        None => None,
    }
}

/// `URL_SAFE_NO_PAD.decode`, with the decode error's text on failure.
#[verifier::external_body]
pub(crate) fn decode_url_safe_no_pad(input: &[u8]) -> (r: Result<Vec<u8>, String>)
    ensures
        match r {
            Ok(v) => b64_url_nopad(input@) == Some(v@),
            Err(_) => b64_url_nopad(input@) is None,
        },
{
    base64::engine::general_purpose::URL_SAFE_NO_PAD.decode(input).map_err(|e| e.to_string())
}

/// `STANDARD.decode`, with the decode error's text on failure.
#[verifier::external_body]
pub(crate) fn decode_standard(input: &[u8]) -> (r: Result<Vec<u8>, String>)
    ensures
        match r {
            Ok(v) => b64_standard(input@) == Some(v@),
            Err(_) => b64_standard(input@) is None,
        },
{
    base64::engine::general_purpose::STANDARD.decode(input).map_err(|e| e.to_string())
}

/// `VerifyingKey::from_public_key_pem`, keeping only whether it succeeded
/// and the error text.
#[verifier::external_body]
fn check_public_key_pem(pem: &str) -> (r: Result<(), String>)
    ensures
        r is Ok == p256_key_pem_ok(pem@),
{
    match p256::ecdsa::VerifyingKey::from_public_key_pem(pem) {
        Ok(_) => Ok(()),
        Err(e) => Err(e.to_string()),
    }
}

/// `Signature::from_slice(sig)` and `VerifyingKey::verify(msg, sig)` under
/// the key read from `pem`; `false` when the key or the signature does not
/// parse.
#[verifier::external_body]
fn es256_verify(pem: &str, msg: &[u8], sig: &[u8]) -> (r: bool)
    ensures
        r == es256_verifies(pem@, msg@, sig@),
{
    match (p256::ecdsa::VerifyingKey::from_public_key_pem(pem), p256::ecdsa::Signature::from_slice(sig)) {
        (Ok(key), Ok(signature)) => key.verify(msg, &signature).is_ok(),
        _ => false,
    }
}

/// URL-safe unpadded base64, falling back to standard base64.
pub open spec fn b64url_spec(input: Seq<u8>) -> Option<Seq<u8>> {
    match b64_url_nopad(input) {
        Some(v) => Some(v),
        None => b64_standard(input),
    }
}

/// Decodes URL-safe unpadded base64, or standard base64.
pub fn b64url_decode(input: &str) -> (r: Option<Vec<u8>>)
    ensures
        bytes_opt(r) == b64url_spec(encode_utf8(input@)),
{
    let bytes = input.as_bytes();
    match decode_url_safe_no_pad(bytes) {
        Ok(v) => Some(v),
        Err(_) => match decode_standard(bytes) {
            Ok(v) => Some(v),
            Err(_) => None,
        },
    }
}

// ---------------------------------------------------------------------------
// Outcome
// ---------------------------------------------------------------------------

/// Result of verifying and decoding a token.
#[derive(Debug)]
pub enum VerifyOutcome {
    Success(LicensePayload),
    Failure { code: ErrorCode, message: String },
}

/// The outcome as values.
pub open spec fn outcome_view(o: VerifyOutcome) -> Result<PayloadV, (ErrorCode, Seq<char>)> {
    match o {
        VerifyOutcome::Success(p) => Ok(p@),
        VerifyOutcome::Failure { code, message } => Err((code, message@)),
    }
}

pub open spec fn format_message() -> Seq<char> {
    "Invalid format. Please paste the full token from the billing portal."@
}

pub open spec fn invalid_message() -> Seq<char> {
    "Invalid token. It may have been copied incorrectly."@
}

pub open spec fn expired_message() -> Seq<char> {
    "This token has expired. Please sync or get a new token from the billing portal."@
}

pub open spec fn device_message() -> Seq<char> {
    "This license is not valid for this device. Bind this device in billing or replace another device."@
}

/// Verification of `token` against the key in `pem` at time `now`, for the
/// device `ski` if given.
pub open spec fn verify_spec(pem: Seq<char>, token: Seq<char>, now: i64, ski: Option<Seq<char>>) -> Result<
    PayloadV,
    (ErrorCode, Seq<char>),
> {
    let t = trim_seq(token);
    let parts = split_seq(t, '.');
    if t.len() == 0 || parts.len() != 3 {
        Err((ErrorCode::LicenseMalformed, format_message()))
    } else {
        match b64url_spec(encode_utf8(parts[0])) {
            None => Err((ErrorCode::LicenseMalformed, format_message())),
            Some(hb) => match json_parse(hb) {
                None => Err((ErrorCode::LicenseMalformed, format_message())),
                Some(header) => if !(get_spec(header, "alg"@) matches Some(JsonValue::Str(a))
                    && a@ == "ES256"@) {
                    Err((ErrorCode::LicenseInvalid, invalid_message()))
                } else {
                    match b64url_spec(encode_utf8(parts[2])) {
                        None => Err((ErrorCode::LicenseMalformed, format_message())),
                        Some(sig) => if !es256_verifies(
                            pem,
                            encode_utf8(parts[0] + "."@ + parts[1]),
                            sig,
                        ) {
                            Err((ErrorCode::LicenseInvalid, invalid_message()))
                        } else {
                            match b64url_spec(encode_utf8(parts[1])) {
                                None => Err((ErrorCode::LicenseMalformed, format_message())),
                                Some(pb) => match json_parse(pb) {
                                    None => Err((ErrorCode::LicenseMalformed, format_message())),
                                    Some(claims) => match claims_spec(claims) {
                                        Err(m) => Err(
                                            (
                                                ErrorCode::LicenseMalformed,
                                                "Token is missing required data. "@ + m,
                                            ),
                                        ),
                                        Ok(p) => if now > p.expires_at_unix {
                                            Err((ErrorCode::LicenseExpired, expired_message()))
                                        } else {
                                            match ski {
                                                Some(k) => if !allows_local_device_spec(
                                                    p.subscriptions,
                                                    k,
                                                ) {
                                                    Err(
                                                        (
                                                            ErrorCode::LicenseDeviceMismatch,
                                                            device_message(),
                                                        ),
                                                    )
                                                } else {
                                                    Ok(p)
                                                },
                                                None => Ok(p),
                                            }
                                        },
                                    },
                                },
                            }
                        }
                    }
                },
            },
        }
    }
}

/// The checks of a token that do not depend on the time: its format, its
/// header, its signature under the key and its claims.
pub open spec fn checked_spec(pem: Seq<char>, token: Seq<char>) -> Result<
    PayloadV,
    (ErrorCode, Seq<char>),
> {
    let t = trim_seq(token);
    let parts = split_seq(t, '.');
    if t.len() == 0 || parts.len() != 3 {
        Err((ErrorCode::LicenseMalformed, format_message()))
    } else {
        match b64url_spec(encode_utf8(parts[0])) {
            None => Err((ErrorCode::LicenseMalformed, format_message())),
            Some(hb) => match json_parse(hb) {
                None => Err((ErrorCode::LicenseMalformed, format_message())),
                Some(header) => if !(get_spec(header, "alg"@) matches Some(JsonValue::Str(a))
                    && a@ == "ES256"@) {
                    Err((ErrorCode::LicenseInvalid, invalid_message()))
                } else {
                    match b64url_spec(encode_utf8(parts[2])) {
                        None => Err((ErrorCode::LicenseMalformed, format_message())),
                        Some(sig) => if !es256_verifies(
                            pem,
                            encode_utf8(parts[0] + "."@ + parts[1]),
                            sig,
                        ) {
                            Err((ErrorCode::LicenseInvalid, invalid_message()))
                        } else {
                            match b64url_spec(encode_utf8(parts[1])) {
                                None => Err((ErrorCode::LicenseMalformed, format_message())),
                                Some(pb) => match json_parse(pb) {
                                    None => Err((ErrorCode::LicenseMalformed, format_message())),
                                    Some(claims) => match claims_spec(claims) {
                                        Err(m) => Err(
                                            (
                                                ErrorCode::LicenseMalformed,
                                                "Token is missing required data. "@ + m,
                                            ),
                                        ),
                                        Ok(p) => Ok(p),
                                    },
                                },
                            }
                        }
                    }
                },
            },
        }
    }
}

/// What a decoded, signature-checked license gives at time `now`: expired
/// after its expiry, refused by the device rule for `ski`, else accepted.
pub open spec fn finish_spec(p: PayloadV, now: i64, ski: Option<Seq<char>>) -> Result<PayloadV, (ErrorCode, Seq<char>)> {
    if now > p.expires_at_unix {
        Err((ErrorCode::LicenseExpired, expired_message()))
    } else {
        match ski {
            Some(k) => if !allows_local_device_spec(p.subscriptions, k) {
                Err((ErrorCode::LicenseDeviceMismatch, device_message()))
            } else {
                Ok(p)
            },
            None => Ok(p),
        }
    }
}

/// Verification is the time-free checks, then the expiry and device rule.
pub proof fn lemma_verify_in_two_steps(pem: Seq<char>, token: Seq<char>, now: i64, ski: Option<Seq<char>>)
    ensures
        verify_spec(pem, token, now, ski) == match checked_spec(pem, token) {
            Ok(p) => finish_spec(p, now, ski),
            Err(e) => Err(e),
        },
{
}

/// The device key, as text.
pub open spec fn ski_view(o: Option<&str>) -> Option<Seq<char>> {
    match o {
        Some(k) => Some(k@),
        None => None,
    }
}

fn failure(code: ErrorCode, message: &str) -> (r: VerifyOutcome)
    ensures
        outcome_view(r) == Err::<PayloadV, (ErrorCode, Seq<char>)>((code, message@)),
{
    VerifyOutcome::Failure { code, message: copy_string(message) }
}

fn malformed_format() -> (r: VerifyOutcome)
    ensures
        outcome_view(r) == Err::<PayloadV, (ErrorCode, Seq<char>)>(
            (ErrorCode::LicenseMalformed, format_message()),
        ),
{
    failure(
        ErrorCode::LicenseMalformed,
        "Invalid format. Please paste the full token from the billing portal.",
    )
}

fn invalid_token() -> (r: VerifyOutcome)
    ensures
        outcome_view(r) == Err::<PayloadV, (ErrorCode, Seq<char>)>(
            (ErrorCode::LicenseInvalid, invalid_message()),
        ),
{
    failure(ErrorCode::LicenseInvalid, "Invalid token. It may have been copied incorrectly.")
}

// ---------------------------------------------------------------------------
// Verifier
// ---------------------------------------------------------------------------

/// Verifies license tokens with the configured EC public key.
pub struct LicenseVerifier {
    public_key_pem: String,
}

impl LicenseVerifier {
    #[verifier::type_invariant]
    spec fn key_ok(self) -> bool {
        p256_key_pem_ok(self.public_key_pem@)
    }

    /// The key's PEM text.
    pub closed spec fn pem(self) -> Seq<char> {
        self.public_key_pem@
    }

    /// A verifier for an SPKI PEM public key; `Config` when it does not parse.
    pub fn from_pem(public_key_pem: &str) -> (r: TwoKeyResult<LicenseVerifier>)
        ensures
            match r {
                Ok(v) => p256_key_pem_ok(public_key_pem@) && v.pem() == public_key_pem@,
                Err(e) => !p256_key_pem_ok(public_key_pem@) && e.code == ErrorCode::Config
                    && e.message@ == "Invalid public_key_pem"@,
            },
    {
        match check_public_key_pem(public_key_pem) {
            Ok(()) => Ok(LicenseVerifier { public_key_pem: copy_string(public_key_pem) }),
            Err(detail) => Err(
                TwoKeyError::new(ErrorCode::Config, "Invalid public_key_pem").with_detail(
                    detail.as_str(),
                ),
            ),
        }
    }

    /// The time-free checks of a token (see [`checked_spec`]): the decoded
    /// license, or the failure.
    #[verifier::rlimit(30)]
    fn checked_payload(&self, token: &str) -> (r: Result<LicensePayload, VerifyOutcome>)
        ensures
            match r {
                Ok(p) => checked_spec(self.pem(), token@) == Ok::<PayloadV, (ErrorCode, Seq<char>)>(p@),
                Err(o) => checked_spec(self.pem(), token@) is Err && outcome_view(o) == checked_spec(
                    self.pem(),
                    token@,
                ),
            },
    {
        let t = trim_chars(&chars_of(token));
        if t.len() == 0 {
            return Err(malformed_format());
        }
        let parts = split_chars(&t, '.');
        if parts.len() != 3 {
            return Err(malformed_format());
        }
        let p0 = string_of(&parts[0]);
        let p1 = string_of(&parts[1]);
        let p2 = string_of(&parts[2]);
        let header_json = match b64url_decode(p0.as_str()) {
            Some(b) => b,
            None => return Err(malformed_format()),
        };
        let header = match parse_json(header_json.as_slice()) {
            Some(h) => h,
            None => return Err(malformed_format()),
        };
        let alg_ok = match get(&header, "alg") {
            Some(JsonValue::Str(a)) => crate::text::chars_eq(&chars_of(a.as_str()), &chars_of("ES256")),
            _ => false,
        };
        if !alg_ok {
            return Err(invalid_token());
        }
        let sig = match b64url_decode(p2.as_str()) {
            Some(b) => b,
            None => return Err(malformed_format()),
        };
        let signing_input = string_of(
            &concat_chars(&concat_chars(&parts[0], &chars_of(".")), &parts[1]),
        );
        proof {
            use_type_invariant(self);
        }
        if !es256_verify(self.public_key_pem.as_str(), signing_input.as_str().as_bytes(), sig.as_slice()) {
            return Err(invalid_token());
        }
        let payload_json = match b64url_decode(p1.as_str()) {
            Some(b) => b,
            None => return Err(malformed_format()),
        };
        let claims = match parse_json(payload_json.as_slice()) {
            Some(c) => c,
            None => return Err(malformed_format()),
        };
        match LicensePayload::from_claims(claims) {
            Ok(payload) => Ok(payload),
            Err(e) => {
                let m = concat_chars(
                    &chars_of("Token is missing required data. "),
                    &chars_of(e.message.as_str()),
                );
                Err(VerifyOutcome::Failure { code: ErrorCode::LicenseMalformed, message: string_of(&m) })
            },
        }
    }

    /// The expiry at `now_unix` and, with `local_ski`, the device rule, for a
    /// checked license.
    fn finish(payload: LicensePayload, now_unix: i64, local_ski: Option<&str>) -> (r: VerifyOutcome)
        ensures
            outcome_view(r) == finish_spec(payload@, now_unix, ski_view(local_ski)),
    {
        if payload.is_expired(now_unix) {
            failure(
                ErrorCode::LicenseExpired,
                "This token has expired. Please sync or get a new token from the billing portal.",
            )
        } else {
            match local_ski {
                Some(ski) => {
                    if !payload.allows_local_device(ski) {
                        failure(
                            ErrorCode::LicenseDeviceMismatch,
                            "This license is not valid for this device. Bind this device in billing or replace another device.",
                        )
                    } else {
                        VerifyOutcome::Success(payload)
                    }
                },
                None => VerifyOutcome::Success(payload),
            }
        }
    }

    /// Verifies the signature and expiry at `now_unix` and decodes the
    /// claims; with `local_ski`, also applies the device rule.
    pub fn verify_and_decode_at(&self, token: &str, now_unix: i64, local_ski: Option<&str>) -> (r:
        VerifyOutcome)
        ensures
            outcome_view(r) == verify_spec(
                self.pem(),
                token@,
                now_unix,
                ski_view(local_ski),
            ),
    {
        proof {
            lemma_verify_in_two_steps(self.pem(), token@, now_unix, ski_view(local_ski));
        }
        match self.checked_payload(token) {
            Ok(payload) => Self::finish(payload, now_unix, local_ski),
            Err(o) => o,
        }
    }

    /// Like [`Self::verify_and_decode_at`] at the clock's current time; the
    /// clock is read only for a token that passes the time-free checks.
    pub fn verify_and_decode_for_device<C: Clock>(
        &self,
        token: &str,
        clock: &C,
        local_ski: Option<&str>,
    ) -> (r: VerifyOutcome)
        ensures
            checked_spec(self.pem(), token@) is Err ==> outcome_view(r) == checked_spec(self.pem(), token@),
            exists|now: i64|
                outcome_view(r) == #[trigger] verify_spec(
                    self.pem(),
                    token@,
                    now,
                    ski_view(local_ski),
                ),
    {
        match self.checked_payload(token) {
            Ok(payload) => {
                let now = clock.unix_seconds();
                let r = Self::finish(payload, now, local_ski);
                proof {
                    lemma_verify_in_two_steps(self.pem(), token@, now, ski_view(local_ski));
                }
                r
            },
            Err(o) => {
                proof {
                    lemma_verify_in_two_steps(self.pem(), token@, 0, ski_view(local_ski));
                }
                o
            },
        }
    }

    /// Verifies and decodes at the clock's current time, without the device
    /// rule.
    pub fn verify_and_decode<C: Clock>(&self, token: &str, clock: &C) -> (r: VerifyOutcome)
        ensures
            exists|now: i64| outcome_view(r) == #[trigger] verify_spec(self.pem(), token@, now, None),
    {
        let r = self.verify_and_decode_for_device(token, clock, None);
        r
    }
}


// ---------------------------------------------------------------------------
// Laws
// ---------------------------------------------------------------------------

/// A token is only accepted when it has three parts, its signature verifies
/// over the first two under the configured key, it has not expired, and (for
/// a device) the device rule holds.
pub proof fn law_accepted_token_is_signed_and_current(
    pem: Seq<char>,
    token: Seq<char>,
    now: i64,
    ski: Option<Seq<char>>,
)
    requires
        verify_spec(pem, token, now, ski) is Ok,
    ensures
        ({
            let parts = split_seq(trim_seq(token), '.');
            let p = verify_spec(pem, token, now, ski)->Ok_0;
            &&& parts.len() == 3
            &&& b64url_spec(encode_utf8(parts[2])) is Some
            &&& es256_verifies(
                pem,
                encode_utf8(parts[0] + "."@ + parts[1]),
                b64url_spec(encode_utf8(parts[2]))->0,
            )
            &&& now <= p.expires_at_unix
            &&& (ski matches Some(k) ==> allows_local_device_spec(p.subscriptions, k))
        }),
{
}

/// A token accepted at some time is accepted, with the same claims, at any
/// earlier time.
pub proof fn law_accepted_earlier(
    pem: Seq<char>,
    token: Seq<char>,
    now: i64,
    earlier: i64,
    ski: Option<Seq<char>>,
)
    requires
        verify_spec(pem, token, now, ski) is Ok,
        earlier <= now,
    ensures
        verify_spec(pem, token, earlier, ski) == verify_spec(pem, token, now, ski),
{
}

/// A token that has expired stays expired.
pub proof fn law_expired_stays_expired(
    pem: Seq<char>,
    token: Seq<char>,
    now: i64,
    later: i64,
    ski: Option<Seq<char>>,
)
    requires
        verify_spec(pem, token, now, ski) == Err::<PayloadV, (ErrorCode, Seq<char>)>(
            (ErrorCode::LicenseExpired, expired_message()),
        ),
        now <= later,
    ensures
        verify_spec(pem, token, later, ski) == verify_spec(pem, token, now, ski),
{
}

/// Checking for a device accepts exactly the tokens accepted without a
/// device whose claims satisfy the device rule.
pub proof fn law_device_check_refines(pem: Seq<char>, token: Seq<char>, now: i64, ski: Seq<char>)
    ensures
        verify_spec(pem, token, now, None) matches Ok(p) ==> (allows_local_device_spec(
            p.subscriptions,
            ski,
        ) ==> verify_spec(pem, token, now, Some(ski)) == verify_spec(pem, token, now, None)),
        verify_spec(pem, token, now, Some(ski)) is Ok ==> verify_spec(pem, token, now, None)
            == verify_spec(pem, token, now, Some(ski)),
{
}

} // verus!
