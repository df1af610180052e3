//! mTLS client material: errors, certificate names and CSR parsing.

use vstd::prelude::*;
use vstd::slice::slice_subrange;
use vstd::utf8::encode_utf8;
use crate::json::{get, get_spec, json_quote, json_string, JsonValue};
use crate::license::{b64_url_nopad, decode_url_safe_no_pad};
use crate::mtls::der::{
    cert_pem_spec, csr_pem_spec, is_failure, parse_ed25519_cert, parse_ed25519_csr, tbs_key_spec,
    tbs_subject_key,
};
use crate::text::{chars_eq, chars_of, concat_chars, ends_with, has_suffix, split_chars, split_seq, string_of};
use sha2::Digest;
use base64::Engine;
use ed25519_dalek::pkcs8::DecodePrivateKey;

pub mod der;
pub mod leaf;
pub mod pem;

verus! {

/// Failures of the mTLS helpers.
#[derive(Debug)]
pub enum MtlsError {
    MissingPrivateKey,
    Base64(String),
    BadKeyLength,
    Pkcs8(String),
    Rcgen(String),
    Rustls(String),
    Pem(String),
}

/// What `Display` prints for each error.
pub open spec fn mtls_error_text(e: MtlsError) -> Seq<char> {
    match e {
        MtlsError::MissingPrivateKey => "private JWK missing Ed25519 d parameter"@,
        MtlsError::Base64(s) => "invalid base64 in JWK: "@ + s@,
        MtlsError::BadKeyLength => "invalid Ed25519 key length"@,
        MtlsError::Pkcs8(s) => "pkcs8 encode failed: "@ + s@,
        MtlsError::Rcgen(s) => "rcgen failed: "@ + s@,
        MtlsError::Rustls(s) => "rustls config failed: "@ + s@,
        MtlsError::Pem(s) => "pem parse failed: "@ + s@,
    }
}

impl MtlsError {
    /// The error's message.
    pub fn to_string(&self) -> (r: String)
        ensures
            r@ == mtls_error_text(*self),
    {
        let v = match self {
            MtlsError::MissingPrivateKey => chars_of("private JWK missing Ed25519 d parameter"),
            MtlsError::Base64(s) => concat_chars(
                &chars_of("invalid base64 in JWK: "),
                &chars_of(s.as_str()),
            ),
            MtlsError::BadKeyLength => chars_of("invalid Ed25519 key length"),
            MtlsError::Pkcs8(s) => concat_chars(
                &chars_of("pkcs8 encode failed: "),
                &chars_of(s.as_str()),
            ),
            MtlsError::Rcgen(s) => concat_chars(&chars_of("rcgen failed: "), &chars_of(s.as_str())),
            MtlsError::Rustls(s) => concat_chars(
                &chars_of("rustls config failed: "),
                &chars_of(s.as_str()),
            ),
            MtlsError::Pem(s) => concat_chars(&chars_of("pem parse failed: "), &chars_of(s.as_str())),
        };
        string_of(&v)
    }
}

/// The SAN URI that names a key by its subject key identifier.
pub fn ski_san_uri(ski: &str) -> (r: String)
    ensures
        r@ == "urn:dp:ski:"@ + ski@,
{
    string_of(&concat_chars(&chars_of("urn:dp:ski:"), &chars_of(ski)))
}


// ---------------------------------------------------------------------------
// Outside primitives
// ---------------------------------------------------------------------------

/// Whether 32 bytes are the compressed form of an Ed25519 curve point.
pub uninterp spec fn ed25519_point_ok(key: Seq<u8>) -> bool;

/// Whether `sig` is a valid Ed25519 signature of `msg` under `key`, with the
/// strict checks (no small-order points, canonical scalars).
pub uninterp spec fn ed25519_strict_verifies(key: Seq<u8>, msg: Seq<u8>, sig: Seq<u8>) -> bool;

/// The SHA-256 digest of `data`.
pub uninterp spec fn sha256_digest(data: Seq<u8>) -> Seq<u8>;

/// `VerifyingKey::from_bytes`: `Ok` when the bytes decompress to a point,
/// else the error's text.
#[verifier::external_body]
fn ed25519_key_check(raw: &[u8]) -> (r: Result<(), String>)
    requires
        raw@.len() == 32,
    ensures
        r is Ok == ed25519_point_ok(raw@),
{
    match <&[u8; 32]>::try_from(raw) {
        Ok(bytes) => ed25519_dalek::VerifyingKey::from_bytes(bytes).map(|_| ()).map_err(|e| e.to_string()),
        Err(e) => Err(e.to_string()),
    }
}

/// `VerifyingKey::from_bytes` then `verify_strict` over `msg` with
/// `Signature::from_bytes(sig)`.
#[verifier::external_body]
fn ed25519_verify_strict(raw: &[u8], msg: &[u8], sig: &[u8]) -> (r: bool)
    requires
        raw@.len() == 32,
        sig@.len() == 64,
    ensures
        r == (ed25519_point_ok(raw@) && ed25519_strict_verifies(raw@, msg@, sig@)),
{
    match (<&[u8; 32]>::try_from(raw), <&[u8; 64]>::try_from(sig)) {
        (Ok(k), Ok(s)) => match ed25519_dalek::VerifyingKey::from_bytes(k) {
            Ok(key) => key.verify_strict(msg, &ed25519_dalek::Signature::from_bytes(s)).is_ok(),
            Err(_) => false,
        },
        _ => false,
    }
}

/// `Sha256::digest`: 32 bytes.
#[verifier::external_body]
pub(crate) fn sha256(data: &[u8]) -> (r: Vec<u8>)
    ensures
        r@ == sha256_digest(data@),
        r@.len() == 32,
{
    sha2::Sha256::digest(data).to_vec()
}

/// The seed of the Ed25519 private key a PKCS#8 PEM holds, if it holds one.
pub uninterp spec fn pkcs8_pem_seed(pem: Seq<char>) -> Option<Seq<u8>>;

/// The public key of an Ed25519 seed.
pub uninterp spec fn ed25519_public_of(seed: Seq<u8>) -> Seq<u8>;

/// The URL-safe base64 digit for `i` (below 64): `A`-`Z`, `a`-`z`, `0`-`9`,
/// `-`, `_`.
pub open spec fn b64_url_digit(i: int) -> char {
    if i < 26 {
        (65 + i) as char
    } else if i < 52 {
        (97 + i - 26) as char
    } else if i < 62 {
        (48 + i - 52) as char
    } else if i == 62 {
        '-'
    } else {
        '_'
    }
}

/// URL-safe base64 without padding: each three bytes give four digits of
/// six bits each, high bits first; a last one or two bytes give two or
/// three digits, the missing low bits taken as zero.
pub open spec fn b64_url_nopad_encode(bytes: Seq<u8>) -> Seq<char>
    decreases bytes.len(),
{
    let b0 = bytes[0] as int;
    let b1 = bytes[1] as int;
    let b2 = bytes[2] as int;
    if bytes.len() == 0 {
        Seq::empty()
    } else if bytes.len() == 1 {
        seq![b64_url_digit(b0 / 4), b64_url_digit((b0 % 4) * 16)]
    } else if bytes.len() == 2 {
        seq![b64_url_digit(b0 / 4), b64_url_digit((b0 % 4) * 16 + b1 / 16), b64_url_digit((b1 % 16) * 4)]
    } else {
        seq![
            b64_url_digit(b0 / 4),
            b64_url_digit((b0 % 4) * 16 + b1 / 16),
            b64_url_digit((b1 % 16) * 4 + b2 / 64),
            b64_url_digit(b2 % 64),
        ] + b64_url_nopad_encode(bytes.subrange(3, bytes.len() as int))
    }
}

/// `SigningKey::from_pkcs8_pem`, keeping the key's 32-byte seed, or the
/// error's text.
#[verifier::external_body]
fn seed_from_pkcs8_pem(pem: &str) -> (r: Result<Vec<u8>, String>)
    ensures
        match r {
            Ok(v) => pkcs8_pem_seed(pem@) == Some(v@) && v@.len() == 32,
            Err(_) => pkcs8_pem_seed(pem@) is None,
        },
{
    ed25519_dalek::SigningKey::from_pkcs8_pem(pem).map(|k| k.to_bytes().to_vec()).map_err(|e| e.to_string())
}

/// `SigningKey::from_bytes(seed).verifying_key().to_bytes()`.
#[verifier::external_body]
fn public_from_seed(seed: &[u8]) -> (r: Vec<u8>)
    requires
        seed@.len() == 32,
    ensures
        r@ == ed25519_public_of(seed@),
        r@.len() == 32,
{
    match <&[u8; 32]>::try_from(seed) {
        Ok(s) => ed25519_dalek::SigningKey::from_bytes(s).verifying_key().to_bytes().to_vec(),
        Err(_) => Vec::new(),
    }
}

/// The Ed25519 signature of `msg` by the key with this seed (Ed25519
/// signing is deterministic).
pub uninterp spec fn ed25519_signature(seed: Seq<u8>, msg: Seq<u8>) -> Seq<u8>;

/// `SigningKey::from_bytes(seed).sign(msg).to_bytes()`.
#[verifier::external_body]
fn ed25519_sign(seed: &[u8], msg: &[u8]) -> (r: Vec<u8>)
    requires
        seed@.len() == 32,
    ensures
        r@ == ed25519_signature(seed@, msg@),
{
    match <&[u8; 32]>::try_from(seed) {
        Ok(s) => {
            let key = ed25519_dalek::SigningKey::from_bytes(s);
            ed25519_dalek::Signer::sign(&key, msg).to_bytes().to_vec()
        },
        Err(_) => Vec::new(),
    }
}

/// `URL_SAFE_NO_PAD.encode`.
#[verifier::external_body]
fn encode_url_safe_no_pad(bytes: &[u8]) -> (r: String)
    ensures
        r@ == b64_url_nopad_encode(bytes@),
{
    base64::engine::general_purpose::URL_SAFE_NO_PAD.encode(bytes)
}

// ---------------------------------------------------------------------------
// Keys and identifiers
// ---------------------------------------------------------------------------

pub open spec fn hex_digit(n: int) -> char {
    if n < 10 {
        ((48 + n) as u8) as char
    } else {
        ((87 + n) as u8) as char
    }
}

/// Lowercase hex, two digits per byte.
pub open spec fn hex_spec(bytes: Seq<u8>) -> Seq<char>
    decreases bytes.len(),
{
    if bytes.len() == 0 {
        Seq::empty()
    } else {
        hex_spec(bytes.drop_last()) + seq![hex_digit((bytes.last() / 16) as int), hex_digit((bytes.last() % 16) as int)]
    }
}

proof fn lemma_hex_len(bytes: Seq<u8>)
    ensures
        hex_spec(bytes).len() == 2 * bytes.len(),
    decreases bytes.len(),
{
    if bytes.len() > 0 {
        lemma_hex_len(bytes.drop_last());
    }
}

fn hex_char(n: u8) -> (c: char)
    requires
        n < 16,
    ensures
        c == hex_digit(n as int),
{
    if n < 10 {
        (48u8 + n) as char
    } else {
        (87u8 + n) as char
    }
}

/// Lowercase hex of `bytes`.
pub fn to_hex(bytes: &[u8]) -> (r: String)
    ensures
        r@ == hex_spec(bytes@),
{
    let mut out: Vec<char> = Vec::new();
    let mut i: usize = 0;
    while i < bytes.len()
        invariant
            i <= bytes.len(),
            out@ == hex_spec(bytes@.subrange(0, i as int)),
        decreases bytes.len() - i,
    {
        assert(bytes@.subrange(0, i + 1).drop_last() =~= bytes@.subrange(0, i as int));
        let b = bytes[i];
        out.push(hex_char(b / 16));
        out.push(hex_char(b % 16));
        i += 1;
    }
    assert(bytes@.subrange(0, bytes@.len() as int) =~= bytes@);
    string_of(&out)
}

/// The JSON text a subject key id is hashed from.
pub open spec fn ski_material(kty: Seq<char>, crv: Seq<char>, x: Seq<char>) -> Seq<char> {
    "{\"kty\":"@ + json_quote(kty) + ",\"crv\":"@ + json_quote(crv) + ",\"x\":"@ + json_quote(x) + "}"@
}

/// A subject key id: the first 32 hex digits of the SHA-256 of the material.
pub open spec fn ski_spec(kty: Seq<char>, crv: Seq<char>, x: Seq<char>) -> Seq<char> {
    hex_spec(sha256_digest(encode_utf8(ski_material(kty, crv, x)))).subrange(0, 32)
}

/// The subject key id of a public JWK's `kty`, `crv` and `x`.
pub fn ski_from_public_jwk_parts(kty: &str, crv: &str, x: &str) -> (r: String)
    ensures
        r@ == ski_spec(kty@, crv@, x@),
{
    let mut m = chars_of("{\"kty\":");
    m = concat_chars(&m, &chars_of(json_string(kty).as_str()));
    m = concat_chars(&m, &chars_of(",\"crv\":"));
    m = concat_chars(&m, &chars_of(json_string(crv).as_str()));
    m = concat_chars(&m, &chars_of(",\"x\":"));
    m = concat_chars(&m, &chars_of(json_string(x).as_str()));
    m = concat_chars(&m, &chars_of("}"));
    let material = string_of(&m);
    assert(material@ == ski_material(kty@, crv@, x@));
    let digest = sha256(material.as_str().as_bytes());
    let hex = chars_of(to_hex(digest.as_slice()).as_str());
    proof {
        lemma_hex_len(digest@);
    }
    let mut out: Vec<char> = Vec::new();
    let mut i: usize = 0;
    while i < 32
        invariant
            i <= 32,
            hex@.len() == 64,
            out@ == hex@.subrange(0, i as int),
        decreases 32 - i,
    {
        out.push(hex[i]);
        i += 1;
        assert(out@ =~= hex@.subrange(0, i as int));
    }
    string_of(&out)
}

/// `v` is `{"kty": "OKP", "crv": "Ed25519", ["d": d,] "x": x, "kid": kid,
/// "alg": "EdDSA"}` in that order (`d` only when given).
pub open spec fn is_okp_jwk(v: JsonValue, d: Option<Seq<char>>, x: Seq<char>, kid: Seq<char>) -> bool {
    match v {
        JsonValue::Object(mm) => {
            let m = mm@;
            let o: int = if d is Some { 1 } else { 0 };
            &&& m.len() == 5 + o
            &&& m[0].0@ == "kty"@ && (m[0].1 matches JsonValue::Str(t) && t@ == "OKP"@)
            &&& m[1].0@ == "crv"@ && (m[1].1 matches JsonValue::Str(t) && t@ == "Ed25519"@)
            &&& (d matches Some(dd) ==> m[2].0@ == "d"@ && (m[2].1 matches JsonValue::Str(t) && t@ == dd))
            &&& m[2 + o].0@ == "x"@ && (m[2 + o].1 matches JsonValue::Str(t) && t@ == x)
            &&& m[3 + o].0@ == "kid"@ && (m[3 + o].1 matches JsonValue::Str(t) && t@ == kid)
            &&& m[4 + o].0@ == "alg"@ && (m[4 + o].1 matches JsonValue::Str(t) && t@ == "EdDSA"@)
        },
        _ => false,
    }
}

fn okp_jwk(d: Option<&str>, x: &str, kid: &str) -> (r: JsonValue)
    ensures
        is_okp_jwk(r, match d { Some(t) => Some(t@), None => None }, x@, kid@),
{
    let mut m: Vec<(String, JsonValue)> = Vec::new();
    m.push((string_of(&chars_of("kty")), JsonValue::Str(string_of(&chars_of("OKP")))));
    m.push((string_of(&chars_of("crv")), JsonValue::Str(string_of(&chars_of("Ed25519")))));
    match d {
        Some(t) => m.push((string_of(&chars_of("d")), JsonValue::Str(string_of(&chars_of(t))))),
        None => {},
    }
    m.push((string_of(&chars_of("x")), JsonValue::Str(string_of(&chars_of(x)))));
    m.push((string_of(&chars_of("kid")), JsonValue::Str(string_of(&chars_of(kid)))));
    m.push((string_of(&chars_of("alg")), JsonValue::Str(string_of(&chars_of("EdDSA")))));
    JsonValue::Object(m)
}

/// The private JWK, the public JWK and the subject key id of an Ed25519
/// key given by its seed and public key.
pub fn jwk_pair_from_key(seed: &[u8], public: &[u8]) -> (r: (JsonValue, JsonValue, String))
    ensures
        ({
            let d = b64_url_nopad_encode(seed@);
            let x = b64_url_nopad_encode(public@);
            let ski = ski_spec("OKP"@, "Ed25519"@, x);
            &&& r.2@ == ski
            &&& is_okp_jwk(r.0, Some(d), x, ski)
            &&& is_okp_jwk(r.1, None, x, ski)
        }),
{
    let d = encode_url_safe_no_pad(seed);
    let x = encode_url_safe_no_pad(public);
    let ski = ski_from_public_jwk_parts("OKP", "Ed25519", x.as_str());
    let public_jwk = okp_jwk(None, x.as_str(), ski.as_str());
    let private_jwk = okp_jwk(Some(d.as_str()), x.as_str(), ski.as_str());
    (private_jwk, public_jwk, ski)
}

/// The JWKs and subject key id of the Ed25519 key in a PKCS#8 PEM; `Pkcs8`
/// when the PEM does not hold one.
pub fn jwks_from_private_pem(pem: &str) -> (r: Result<(JsonValue, JsonValue, String), MtlsError>)
    ensures
        match pkcs8_pem_seed(pem@) {
            None => r matches Err(MtlsError::Pkcs8(_)),
            Some(seed) => r matches Ok(t) && ({
                let x = b64_url_nopad_encode(ed25519_public_of(seed));
                let ski = ski_spec("OKP"@, "Ed25519"@, x);
                &&& t.2@ == ski
                &&& is_okp_jwk(t.0, Some(b64_url_nopad_encode(seed)), x, ski)
                &&& is_okp_jwk(t.1, None, x, ski)
            }),
        },
{
    let seed = match seed_from_pkcs8_pem(pem) {
        Ok(s) => s,
        Err(e) => return Err(MtlsError::Pkcs8(e)),
    };
    let public = public_from_seed(seed.as_slice());
    Ok(jwk_pair_from_key(seed.as_slice(), public.as_slice()))
}

/// The public JWK and subject key id of the key a CSR carries (the CSR is
/// parsed, not verified).
pub fn public_jwk_from_csr_pem(csr_pem: &str) -> (r: Result<(JsonValue, String), MtlsError>)
    ensures
        match csr_pem_spec(csr_pem@) {
            Err(f) => r matches Err(e) && is_failure(e, f),
            Ok((_, key, _)) => r matches Ok(t) && ({
                let x = b64_url_nopad_encode(key);
                let ski = ski_spec("OKP"@, "Ed25519"@, x);
                t.1@ == ski && is_okp_jwk(t.0, None, x, ski)
            }),
        },
{
    let (_, key, _) = parse_ed25519_csr(csr_pem)?;
    let x = encode_url_safe_no_pad(key.as_slice());
    let ski = ski_from_public_jwk_parts("OKP", "Ed25519", x.as_str());
    let jwk = okp_jwk(None, x.as_str(), ski.as_str());
    Ok((jwk, ski))
}

/// Signs the UTF-8 bytes of a JSON payload with the Ed25519 key of a
/// PKCS#8 PEM; the signature in URL-safe unpadded base64.
pub fn sign_json_b64url(private_pem: &str, payload_json: &str) -> (r: Result<String, MtlsError>)
    ensures
        match pkcs8_pem_seed(private_pem@) {
            None => r matches Err(MtlsError::Pkcs8(_)),
            Some(seed) => r matches Ok(s) && s@ == b64_url_nopad_encode(
                ed25519_signature(seed, encode_utf8(payload_json@)),
            ),
        },
{
    let seed = match seed_from_pkcs8_pem(private_pem) {
        Ok(s) => s,
        Err(e) => return Err(MtlsError::Pkcs8(e)),
    };
    let sig = ed25519_sign(seed.as_slice(), payload_json.as_bytes());
    Ok(encode_url_safe_no_pad(sig.as_slice()))
}

/// The 32-byte Ed25519 seed in a private JWK's `d`, or why there is none.
pub open spec fn seed_spec(private_jwk: JsonValue) -> Result<Seq<u8>, u8> {
    match get_spec(private_jwk, "d"@) {
        Some(JsonValue::Str(d)) => match b64_url_nopad(encode_utf8(d@)) {
            None => Err(1),
            Some(bytes) => if bytes.len() == 32 {
                Ok(bytes)
            } else {
                Err(2)
            },
        },
        _ => Err(0),
    }
}

/// The Ed25519 private key (its seed) of a private JWK.
pub fn signing_seed_from_jwk(private_jwk: &JsonValue) -> (r: Result<Vec<u8>, MtlsError>)
    ensures
        match seed_spec(*private_jwk) {
            Ok(seed) => r matches Ok(v) && v@ == seed,
            Err(0) => r matches Err(MtlsError::MissingPrivateKey),
            Err(1) => r matches Err(MtlsError::Base64(_)),
            Err(_) => r matches Err(MtlsError::BadKeyLength),
        },
{
    let d = match get(private_jwk, "d") {
        Some(JsonValue::Str(d)) => d,
        _ => return Err(MtlsError::MissingPrivateKey),
    };
    let bytes = match decode_url_safe_no_pad(d.as_str().as_bytes()) {
        Ok(b) => b,
        Err(detail) => return Err(MtlsError::Base64(detail)),
    };
    if bytes.len() != 32 {
        return Err(MtlsError::BadKeyLength);
    }
    Ok(bytes)
}

// ---------------------------------------------------------------------------
// Certificate requests and chains
// ---------------------------------------------------------------------------

/// What checking a CSR gives: its public key when the CSR parses, the key is
/// a curve point and the signature verifies over the request info.
pub open spec fn csr_check_spec(csr_pem: Seq<char>) -> Result<Seq<u8>, u8> {
    match csr_pem_spec(csr_pem) {
        Err(_) => Err(0),
        Ok((cri, key, sig)) => if !ed25519_point_ok(key) {
            Err(1)
        } else if !ed25519_strict_verifies(key, cri, sig) {
            Err(2)
        } else {
            Ok(key)
        },
    }
}

/// Parses a device CSR and checks its self-signature; the device's raw
/// public key. Failures: the parse error, `Rcgen("invalid CSR public key:
/// …")`, or `Rcgen("CSR signature verification failed")`.
pub fn verified_csr_public_key(csr_pem: &str) -> (r: Result<Vec<u8>, MtlsError>)
    ensures
        match csr_check_spec(csr_pem@) {
            Ok(key) => r matches Ok(v) && v@ == key,
            Err(0) => csr_pem_spec(csr_pem@) matches Err(f) && r matches Err(e) && is_failure(e, f),
            Err(1) => r matches Err(MtlsError::Rcgen(m)) && m@.len() >= 24 && m@.subrange(0, 24)
                == "invalid CSR public key: "@,
            Err(_) => r matches Err(MtlsError::Rcgen(m)) && m@ == "CSR signature verification failed"@,
        },
{
    let (tbs, key, signature) = parse_ed25519_csr(csr_pem)?;
    match ed25519_key_check(key.as_slice()) {
        Ok(()) => {},
        Err(detail) => {
            let m = concat_chars(&chars_of("invalid CSR public key: "), &chars_of(detail.as_str()));
            proof {
                reveal_strlit("invalid CSR public key: ");
            }
            assert(m@.subrange(0, 24) =~= "invalid CSR public key: "@);
            return Err(MtlsError::Rcgen(string_of(&m)));
        },
    }
    if !ed25519_verify_strict(key.as_slice(), tbs.as_slice(), signature.as_slice()) {
        return Err(MtlsError::Rcgen(string_of(&chars_of("CSR signature verification failed"))));
    }
    Ok(key)
}

/// Whether the certificate in `cert_pem` carries a valid Ed25519 signature
/// by the key of the certificate in `issuer_pem`; failures as in
/// [`crate::mtls::der::pem_der_spec`].
pub open spec fn cert_check_spec(cert_pem: Seq<char>, issuer_pem: Seq<char>) -> Result<bool, Option<Seq<char>>> {
    match cert_pem_spec(cert_pem) {
        Err(f) => Err(f),
        Ok((tbs, _, sig)) => match cert_pem_spec(issuer_pem) {
            Err(f) => Err(f),
            Ok((_, issuer_tbs, _)) => match tbs_key_spec(issuer_tbs) {
                Err(m) => Err(Some(m)),
                Ok(key) => Ok(ed25519_point_ok(key) && ed25519_strict_verifies(key, tbs, sig)),
            },
        },
    }
}

/// Checks an Ed25519 certificate's signature against its issuer's
/// certificate: `Ok(false)` when it does not verify.
pub fn verify_ed25519_cert_against_issuer(cert_pem: &str, issuer_pem: &str) -> (r: Result<bool, MtlsError>)
    ensures
        match cert_check_spec(cert_pem@, issuer_pem@) {
            Ok(b) => r == Ok::<bool, MtlsError>(b),
            Err(f) => r matches Err(e) && is_failure(e, f),
        },
{
    let (tbs, _, signature) = parse_ed25519_cert(cert_pem)?;
    let (_, issuer_tbs, _) = parse_ed25519_cert(issuer_pem)?;
    let key = tbs_subject_key(issuer_tbs.as_slice())?;
    Ok(ed25519_verify_strict(key.as_slice(), tbs.as_slice(), signature.as_slice()))
}

/// A freshly generated self-signed CA: its key pair as JWKs and key id,
/// its certificate and its common name.
#[derive(Debug)]
pub struct SelfSignedCa {
    pub ski: String,
    pub private_jwk: JsonValue,
    pub public_jwk: JsonValue,
    pub ca_cert_pem: String,
    pub common_name: String,
}

/// An issued leaf and the chain it is delivered with.
#[derive(Clone, Debug)]
pub struct SignedClientCert {
    pub leaf_pem: String,
    pub chain_pem: String,
}

impl SignedClientCert {
    /// A leaf with its chain: the leaf, then the CA certificate.
    pub fn with_chain(leaf_pem: String, ca_cert_pem: &str) -> (r: SignedClientCert)
        ensures
            r.leaf_pem@ == leaf_pem@,
            r.chain_pem@ == with_newline(with_newline(leaf_pem@) + ca_cert_pem@),
    {
        let chain = chain_pem(leaf_pem.as_str(), ca_cert_pem);
        SignedClientCert { leaf_pem, chain_pem: chain }
    }
}

/// `s` with a newline added unless it already ends with one.
pub open spec fn with_newline(s: Seq<char>) -> Seq<char> {
    if s.len() > 0 && s.last() == '\n' {
        s
    } else {
        s.push('\n')
    }
}

/// The chain a signed leaf is delivered with: the leaf, then the CA
/// certificate, each ending in a newline.
pub fn chain_pem(leaf_pem: &str, ca_cert_pem: &str) -> (r: String)
    ensures
        r@ == with_newline(with_newline(leaf_pem@) + ca_cert_pem@),
{
    let mut chain = chars_of(leaf_pem);
    let newline = chars_of("\n");
    proof {
        reveal_strlit("\n");
        assert(newline@ =~= seq!['\n']);
        lemma_suffix_newline(chain@);
    }
    if !ends_with(&chain, &newline) {
        chain.push('\n');
    }
    assert(chain@ == with_newline(leaf_pem@));
    chain = concat_chars(&chain, &chars_of(ca_cert_pem));
    proof {
        lemma_suffix_newline(chain@);
    }
    if !ends_with(&chain, &newline) {
        chain.push('\n');
    }
    string_of(&chain)
}

proof fn lemma_suffix_newline(s: Seq<char>)
    ensures
        has_suffix(s, seq!['\n']) == (s.len() > 0 && s.last() == '\n'),
{
    if s.len() > 0 && s.last() == '\n' {
        assert(s.subrange(s.len() - 1, s.len() as int) =~= seq!['\n']);
    }
    if has_suffix(s, seq!['\n']) {
        assert(s.subrange(s.len() - 1, s.len() as int)[0] == '\n');
    }
}

// ---------------------------------------------------------------------------
// Compact JWS (EdDSA)
// ---------------------------------------------------------------------------

/// The protected header of the JWS this library writes, `{"alg":"EdDSA"}`,
/// encoded.
pub open spec fn jws_header_part() -> Seq<char> {
    b64_url_nopad_encode(encode_utf8("{\"alg\":\"EdDSA\"}"@))
}

/// What a JWS over `payload` signs: the encoded header and payload joined
/// by a dot.
pub open spec fn jws_signing_input(payload: Seq<u8>) -> Seq<char> {
    jws_header_part() + "."@ + b64_url_nopad_encode(payload)
}

/// The compact JWS (header, payload, signature, dot-separated) of
/// `payload` by the Ed25519 key with this seed.
pub open spec fn compact_jws(seed: Seq<u8>, payload: Seq<u8>) -> Seq<char> {
    jws_signing_input(payload) + "."@ + b64_url_nopad_encode(
        ed25519_signature(seed, encode_utf8(jws_signing_input(payload))),
    )
}

/// The compact JWS of `payload` by the key with this seed.
pub(crate) fn compact_jws_with_seed(seed: &[u8], payload: &[u8]) -> (r: String)
    requires
        seed@.len() == 32,
    ensures
        r@ == compact_jws(seed@, payload@),
{
    let header = encode_url_safe_no_pad("{\"alg\":\"EdDSA\"}".as_bytes());
    let body = encode_url_safe_no_pad(payload);
    let mut input = concat_chars(&chars_of(header.as_str()), &chars_of("."));
    input = concat_chars(&input, &chars_of(body.as_str()));
    let input = string_of(&input);
    let sig = ed25519_sign(seed, input.as_str().as_bytes());
    let out = concat_chars(&chars_of(input.as_str()), &chars_of("."));
    let out = concat_chars(&out, &chars_of(encode_url_safe_no_pad(sig.as_slice()).as_str()));
    string_of(&out)
}

/// Signs `payload` as a compact JWS (`{"alg":"EdDSA"}`) with the Ed25519
/// key of a PKCS#8 PEM.
pub fn compact_jws_sign(private_pem: &str, payload: &[u8]) -> (r: Result<String, MtlsError>)
    ensures
        match pkcs8_pem_seed(private_pem@) {
            None => r matches Err(MtlsError::Pkcs8(_)),
            Some(seed) => r matches Ok(s) && s@ == compact_jws(seed, payload@),
        },
{
    match seed_from_pkcs8_pem(private_pem) {
        Ok(seed) => Ok(compact_jws_with_seed(seed.as_slice(), payload)),
        Err(e) => Err(MtlsError::Pkcs8(e)),
    }
}

/// The Ed25519 public key in a JWK's `x`, or why there is none.
pub open spec fn jwk_key_spec(public_jwk: JsonValue) -> Result<Seq<u8>, u8> {
    match get_spec(public_jwk, "x"@) {
        Some(JsonValue::Str(x)) => match b64_url_nopad(encode_utf8(x@)) {
            None => Err(1),
            Some(bytes) => if bytes.len() == 32 {
                Ok(bytes)
            } else {
                Err(2)
            },
        },
        _ => Err(0),
    }
}

/// Whether `jws` is a compact JWS over `payload` whose signature verifies
/// under `key`: three dot-separated parts, the middle one the encoded
/// payload, the last a 64-byte signature of the first two.
pub open spec fn jws_verifies(key: Seq<u8>, jws: Seq<char>, payload: Seq<u8>) -> bool {
    let parts = split_seq(jws, '.');
    &&& parts.len() == 3
    &&& parts[1] == b64_url_nopad_encode(payload)
    &&& match b64_url_nopad(encode_utf8(parts[2])) {
        Some(sig) => sig.len() == 64 && ed25519_point_ok(key) && ed25519_strict_verifies(
            key,
            encode_utf8(parts[0] + "."@ + parts[1]),
            sig,
        ),
        None => false,
    }
}

/// Checks a compact JWS over `payload` against the Ed25519 public JWK; an
/// error when the JWK holds no usable key.
pub fn compact_jws_verify(public_jwk: &JsonValue, jws: &str, payload: &[u8]) -> (r: Result<bool, MtlsError>)
    ensures
        match jwk_key_spec(*public_jwk) {
            Ok(key) => r matches Ok(b) && b == jws_verifies(key, jws@, payload@),
            Err(0) => r matches Err(MtlsError::Pem(_)),
            Err(1) => r matches Err(MtlsError::Base64(_)),
            Err(_) => r matches Err(MtlsError::BadKeyLength),
        },
{
    let x = match get(public_jwk, "x") {
        Some(JsonValue::Str(x)) => x,
        _ => return Err(MtlsError::Pem(string_of(&chars_of("public JWK missing x")))),
    };
    let key = match decode_url_safe_no_pad(x.as_str().as_bytes()) {
        Ok(k) => k,
        Err(e) => return Err(MtlsError::Base64(e)),
    };
    if key.len() != 32 {
        return Err(MtlsError::BadKeyLength);
    }
    let parts = split_chars(&chars_of(jws), '.');
    if parts.len() != 3 {
        return Ok(false);
    }
    let body = encode_url_safe_no_pad(payload);
    if !chars_eq(&parts[1], &chars_of(body.as_str())) {
        return Ok(false);
    }
    let sig_text = string_of(&parts[2]);
    let sig = match decode_url_safe_no_pad(sig_text.as_str().as_bytes()) {
        Ok(s) => s,
        Err(_) => return Ok(false),
    };
    if sig.len() != 64 {
        return Ok(false);
    }
    let input = concat_chars(&parts[0], &chars_of("."));
    let input = string_of(&concat_chars(&input, &parts[1]));
    Ok(ed25519_verify_strict(key.as_slice(), input.as_str().as_bytes(), sig.as_slice()))
}

// ---------------------------------------------------------------------------
// Device material
// ---------------------------------------------------------------------------

/// A device key pair (as JWKs and key id) and the CSR made for it.
#[derive(Debug)]
pub struct GeneratedKeyAndCsr {
    pub ski: String,
    pub private_jwk: JsonValue,
    pub public_jwk: JsonValue,
    pub csr_pem: String,
}

/// What signing a device CSR with a CA needs.
#[derive(Debug)]
pub struct SignClientCertFromCsrParams {
    pub csr_pem: String,
    pub ca_cert_pem: String,
    pub ca_private_jwk: JsonValue,
    pub ca_common_name: String,
    pub ski: String,
    pub host: Option<String>,
    pub not_after_days: Option<i64>,
}

/// A device's key, credential and, when a CA issued one, its certificate
/// and chain.
#[derive(Debug)]
pub struct DeviceIdentity {
    pub ski: String,
    pub private_jwk: JsonValue,
    pub credential: crate::credential::CapabilityCredential,
    pub cert_pem: Option<String>,
    pub chain_pem: Option<String>,
}

/// PEM certificate and key ready for a TLS client: the certificate is the
/// chain when there is one, else the leaf.
#[derive(Debug)]
pub struct MtlsClientMaterial {
    pub cert_pem: String,
    pub chain_pem: Option<String>,
    pub key_pem: String,
    pub ski: String,
    pub credential: crate::credential::CapabilityCredential,
}

/// The client material of a device: its key as PKCS#8; its CA-issued
/// certificate (the chain when there is one) when it has one, else a
/// self-signed certificate that `mint_self_signed`, handed the key id and
/// the key PEM, makes.
pub fn materialize_mtls_client<M: FnOnce(&str, &str) -> Result<String, MtlsError>>(
    identity: DeviceIdentity,
    mint_self_signed: M,
) -> (r: Result<MtlsClientMaterial, MtlsError>)
    requires
        forall|ski: &str, key: &str| mint_self_signed.requires((ski, key)),
    ensures
        match seed_spec(identity.private_jwk) {
            Err(0) => r matches Err(MtlsError::MissingPrivateKey),
            Err(1) => r matches Err(MtlsError::Base64(_)),
            Err(_) => r matches Err(MtlsError::BadKeyLength),
            Ok(_) => match r {
                Err(e) => e is Pkcs8 || (identity.cert_pem is None && exists|ski: &str, key: &str|
                    #[trigger] mint_self_signed.ensures((ski, key), Err::<String, MtlsError>(e))),
                Ok(_) => true,
            },
        },
        r matches Ok(m) ==> {
            &&& seed_spec(identity.private_jwk) matches Ok(seed)
                && m.key_pem@ == crate::entity_ca::ed25519_pkcs8_pem(seed)
            &&& m.ski == identity.ski
            &&& m.credential == identity.credential
            &&& match identity.cert_pem {
                Some(c) => m.chain_pem == identity.chain_pem && m.cert_pem@ == match identity.chain_pem {
                    Some(ch) => ch@,
                    None => c@,
                },
                None => m.chain_pem is None && exists|ski: &str, key: &str, made: Result<String, MtlsError>|
                    {
                        &&& ski@ == identity.ski@
                        &&& key@ == m.key_pem@
                        &&& #[trigger] mint_self_signed.ensures((ski, key), made)
                        &&& made == Ok::<String, MtlsError>(m.cert_pem)
                    },
            }
        },
{
    let key_pem = crate::entity_ca::private_pem_from_jwk(&identity.private_jwk)?;
    let DeviceIdentity { ski, credential, cert_pem, chain_pem, .. } = identity;
    match cert_pem {
        Some(c) => {
            let cert = match &chain_pem {
                Some(ch) => crate::text::copy_string(ch.as_str()),
                None => c,
            };
            Ok(MtlsClientMaterial { cert_pem: cert, chain_pem, key_pem, ski, credential })
        },
        None => {
            let made = mint_self_signed(ski.as_str(), key_pem.as_str());
            let cert = match made {
                Ok(p) => p,
                Err(e) => return Err(e),
            };
            Ok(MtlsClientMaterial { cert_pem: cert, chain_pem: None, key_pem, ski, credential })
        },
    }
}

} // verus!
