//! JSON-in, JSON-out certificate and signing helpers for language bindings.

use vstd::prelude::*;
use vstd::utf8::encode_utf8;
use crate::ffi::{has_keys, is_bool, is_text, member_at};
use crate::json::{get, get_spec, json_parse, json_render, parse_json_detailed, render_json, JsonValue};
use crate::mtls::{
    b64_url_nopad_encode, cert_check_spec, ed25519_signature, materialize_mtls_client, mtls_error_text,
    pkcs8_pem_seed, sign_json_b64url, verify_ed25519_cert_against_issuer, DeviceIdentity, GeneratedKeyAndCsr,
    MtlsError, SignClientCertFromCsrParams, SignedClientCert,
};
use crate::credential::CapabilityCredential;
use crate::json::{copy_json, json_same};
use crate::text::{chars_of, concat_chars, copy_string, string_of};

verus! {

/// `{"ok": true, "data": data}`.
pub open spec fn is_crypto_ok(v: JsonValue, data: JsonValue) -> bool {
    &&& has_keys(v, seq!["ok"@, "data"@])
    &&& is_bool(member_at(v, 0), true)
    &&& member_at(v, 1) == data
}

/// `{"ok": false, "code": "crypto", "message": message}`.
pub open spec fn is_crypto_err(v: JsonValue, message: Seq<char>) -> bool {
    &&& has_keys(v, seq!["ok"@, "code"@, "message"@])
    &&& is_bool(member_at(v, 0), false)
    &&& is_text(member_at(v, 1), "crypto"@)
    &&& is_text(member_at(v, 2), message)
}

fn crypto_ok(data: JsonValue) -> (r: String)
    ensures
        exists|v: JsonValue| is_crypto_ok(v, data) && r@ == json_render(v),
{
    let mut m: Vec<(String, JsonValue)> = Vec::new();
    m.push((copy_string("ok"), JsonValue::Bool(true)));
    m.push((copy_string("data"), data));
    let v = JsonValue::Object(m);
    render_json(&v)
}

fn crypto_err(message: &str) -> (r: String)
    ensures
        exists|v: JsonValue| is_crypto_err(v, message@) && r@ == json_render(v),
{
    let mut m: Vec<(String, JsonValue)> = Vec::new();
    m.push((copy_string("ok"), JsonValue::Bool(false)));
    m.push((copy_string("code"), JsonValue::Str(copy_string("crypto"))));
    m.push((copy_string("message"), JsonValue::Str(copy_string(message))));
    let v = JsonValue::Object(m);
    render_json(&v)
}

fn invalid_input(detail: &str) -> (r: String)
    ensures
        exists|v: JsonValue| is_crypto_err(v, "invalid input JSON: "@ + detail@) && r@ == json_render(v),
{
    let m = concat_chars(&chars_of("invalid input JSON: "), &chars_of(detail));
    crypto_err(string_of(&m).as_str())
}

/// A string member of the input object.
pub open spec fn input_text(input: JsonValue, key: Seq<char>) -> Option<Seq<char>> {
    match get_spec(input, key) {
        Some(JsonValue::Str(s)) => Some(s@),
        _ => None,
    }
}

fn text_of<'a>(input: &'a JsonValue, key: &str) -> (r: Option<&'a str>)
    ensures
        match input_text(*input, key@) {
            Some(t) => r matches Some(s) && s@ == t,
            None => r is None,
        },
{
    match get(input, key) {
        Some(JsonValue::Str(s)) => Some(s.as_str()),
        _ => None,
    }
}

/// What checking a leaf against its issuer answers, for parsed input.
pub open spec fn verify_cert_answer(input: JsonValue, v: JsonValue) -> bool {
    match (input_text(input, "leafPem"@), input_text(input, "issuerPem"@)) {
        (None, _) => is_crypto_err(v, "leafPem is required"@),
        (Some(_), None) => is_crypto_err(v, "issuerPem is required"@),
        (Some(leaf), Some(issuer)) => match cert_check_spec(leaf, issuer) {
            Ok(valid) => exists|d: JsonValue| is_crypto_ok(v, d) && has_keys(d, seq!["valid"@]) && is_bool(
                member_at(d, 0),
                valid,
            ),
            Err(_) => exists|m: Seq<char>| is_crypto_err(v, m),
        },
    }
}

/// Checks a leaf certificate's signature against its issuer's certificate.
/// Input: `{"leafPem", "issuerPem"}`; answer: `{"ok": true, "data":
/// {"valid": …}}` or the crypto error.
pub fn ffi_verify_ed25519_cert_json(input_json: String) -> (r: String)
    ensures
        exists|v: JsonValue| r@ == json_render(v) && match json_parse(encode_utf8(input_json@)) {
            None => exists|m: Seq<char>| is_crypto_err(v, m),
            Some(input) => verify_cert_answer(input, v),
        },
{
    let input = match parse_json_detailed(input_json.as_str().as_bytes()) {
        Ok(v) => v,
        Err(detail) => return invalid_input(detail.as_str()),
    };
    let leaf_pem = match text_of(&input, "leafPem") {
        Some(s) => s,
        None => return crypto_err("leafPem is required"),
    };
    let issuer_pem = match text_of(&input, "issuerPem") {
        Some(s) => s,
        None => return crypto_err("issuerPem is required"),
    };
    match verify_ed25519_cert_against_issuer(leaf_pem, issuer_pem) {
        Ok(valid) => {
            let mut d: Vec<(String, JsonValue)> = Vec::new();
            d.push((copy_string("valid"), JsonValue::Bool(valid)));
            let data = JsonValue::Object(d);
            assert(has_keys(data, seq!["valid"@]));
            crypto_ok(data)
        },
        Err(e) => crypto_err(e.to_string().as_str()),
    }
}

/// What signing a payload answers, for parsed input.
pub open spec fn sign_answer(input: JsonValue, v: JsonValue) -> bool {
    match (input_text(input, "privatePem"@), input_text(input, "payloadJson"@)) {
        (None, _) => is_crypto_err(v, "privatePem is required"@),
        (Some(_), None) => is_crypto_err(v, "payloadJson is required"@),
        (Some(pem), Some(payload)) => match pkcs8_pem_seed(pem) {
            Some(seed) => exists|d: JsonValue| is_crypto_ok(v, d) && has_keys(d, seq!["signature"@]) && is_text(
                member_at(d, 0),
                b64_url_nopad_encode(ed25519_signature(seed, encode_utf8(payload))),
            ),
            None => exists|m: Seq<char>| is_crypto_err(v, m),
        },
    }
}

/// Signs a JSON payload with an Ed25519 private PEM (agent proof of
/// possession). Input: `{"privatePem", "payloadJson"}`; answer: `{"ok":
/// true, "data": {"signature": …}}` or the crypto error.
pub fn ffi_sign_json_b64url_json(input_json: String) -> (r: String)
    ensures
        exists|v: JsonValue| r@ == json_render(v) && match json_parse(encode_utf8(input_json@)) {
            None => exists|m: Seq<char>| is_crypto_err(v, m),
            Some(input) => sign_answer(input, v),
        },
{
    let input = match parse_json_detailed(input_json.as_str().as_bytes()) {
        Ok(v) => v,
        Err(detail) => return invalid_input(detail.as_str()),
    };
    let private_pem = match text_of(&input, "privatePem") {
        Some(s) => s,
        None => return crypto_err("privatePem is required"),
    };
    let payload_json = match text_of(&input, "payloadJson") {
        Some(s) => s,
        None => return crypto_err("payloadJson is required"),
    };
    match sign_json_b64url(private_pem, payload_json) {
        Ok(signature) => {
            let mut d: Vec<(String, JsonValue)> = Vec::new();
            d.push((copy_string("signature"), JsonValue::Str(signature)));
            let data = JsonValue::Object(d);
            assert(has_keys(data, seq!["signature"@]));
            crypto_ok(data)
        },
        Err(e) => crypto_err(e.to_string().as_str()),
    }
}

// ---------------------------------------------------------------------------
// Device keys, CSR signing and client material
// ---------------------------------------------------------------------------

/// The `host` text of the input, empty when there is none.
pub open spec fn host_text(input: JsonValue) -> Seq<char> {
    match input_text(input, "host"@) {
        Some(h) => h,
        None => ""@,
    }
}

/// The common name a device CSR gets: `commonName`, else the host.
pub open spec fn gen_common_name(input: JsonValue) -> Seq<char> {
    match input_text(input, "commonName"@) {
        Some(c) => c,
        None => host_text(input),
    }
}

/// Generates a device key and CSR with `generate`, handed the common name
/// and the host. Input: `{"host", "commonName"?}`; answer: `{"ok": true,
/// "data": {"ski", "publicJwk", "privateJwk", "csrPem"}}` or the crypto
/// error.
pub fn ffi_generate_key_and_csr_json<G: FnOnce(&str, &str) -> Result<GeneratedKeyAndCsr, MtlsError>>(
    input_json: String,
    generate: G,
) -> (r: String)
    requires
        forall|cn: &str, host: &str| generate.requires((cn, host)),
    ensures
        exists|v: JsonValue| r@ == json_render(v) && match json_parse(encode_utf8(input_json@)) {
            None => exists|m: Seq<char>| is_crypto_err(v, m),
            Some(input) => if host_text(input).len() == 0 {
                is_crypto_err(v, "host is required"@)
            } else {
                exists|cn: &str, host: &str, made: Result<GeneratedKeyAndCsr, MtlsError>|
                    {
                        &&& cn@ == gen_common_name(input)
                        &&& host@ == host_text(input)
                        &&& #[trigger] generate.ensures((cn, host), made)
                        &&& match made {
                            Ok(g) => exists|d: JsonValue|
                                {
                                    &&& is_crypto_ok(v, d)
                                    &&& has_keys(d, seq!["ski"@, "publicJwk"@, "privateJwk"@, "csrPem"@])
                                    &&& is_text(member_at(d, 0), g.ski@)
                                    &&& member_at(d, 1) == g.public_jwk
                                    &&& member_at(d, 2) == g.private_jwk
                                    &&& is_text(member_at(d, 3), g.csr_pem@)
                                },
                            Err(e) => is_crypto_err(v, mtls_error_text(e)),
                        }
                    }
            },
        },
{
    let input = match parse_json_detailed(input_json.as_str().as_bytes()) {
        Ok(v) => v,
        Err(detail) => return invalid_input(detail.as_str()),
    };
    let host = match text_of(&input, "host") {
        Some(h) => h,
        None => "",
    };
    if host.is_empty() {
        return crypto_err("host is required");
    }
    let common_name = match text_of(&input, "commonName") {
        Some(c) => c,
        None => host,
    };
    let made = generate(common_name, host);
    match made {
        Ok(g) => {
            let mut d: Vec<(String, JsonValue)> = Vec::new();
            d.push((copy_string("ski"), JsonValue::Str(g.ski)));
            d.push((copy_string("publicJwk"), g.public_jwk));
            d.push((copy_string("privateJwk"), g.private_jwk));
            d.push((copy_string("csrPem"), JsonValue::Str(g.csr_pem)));
            let data = JsonValue::Object(d);
            assert(has_keys(data, seq!["ski"@, "publicJwk"@, "privateJwk"@, "csrPem"@]));
            crypto_ok(data)
        },
        Err(e) => crypto_err(e.to_string().as_str()),
    }
}

/// A number member as an `i64`, when it is one.
pub open spec fn input_i64(input: JsonValue, key: Seq<char>) -> Option<i64> {
    match get_spec(input, key) {
        Some(JsonValue::Number(n)) => n.as_i64,
        _ => None,
    }
}

/// What signing a CSR is handed for parsed input.
pub open spec fn sign_params_ok(input: JsonValue, p: SignClientCertFromCsrParams) -> bool {
    &&& input_text(input, "csrPem"@) == Some(p.csr_pem@)
    &&& input_text(input, "caCertPem"@) == Some(p.ca_cert_pem@)
    &&& get_spec(input, "caPrivateJwk"@) matches Some(j) && json_same(p.ca_private_jwk, j)
    &&& input_text(input, "caCommonName"@) == Some(p.ca_common_name@)
    &&& input_text(input, "ski"@) == Some(p.ski@)
    &&& input_text(input, "host"@) == match p.host {
        Some(h) => Some(h@),
        None => None::<Seq<char>>,
    }
    &&& p.not_after_days == input_i64(input, "notAfterDays"@)
}

/// The message for the first missing CSR-signing input, if any.
pub open spec fn sign_input_problem(input: JsonValue) -> Option<Seq<char>> {
    if input_text(input, "csrPem"@) is None {
        Some("csrPem is required"@)
    } else if input_text(input, "caCertPem"@) is None {
        Some("caCertPem is required"@)
    } else if get_spec(input, "caPrivateJwk"@) is None {
        Some("caPrivateJwk is required"@)
    } else if input_text(input, "caCommonName"@) is None {
        Some("caCommonName is required"@)
    } else if input_text(input, "ski"@) is None {
        Some("ski is required"@)
    } else {
        None
    }
}

/// Signs a device CSR with a CA through `sign`. Input: `{"csrPem",
/// "caCertPem", "caPrivateJwk", "caCommonName", "ski", "host"?,
/// "notAfterDays"?}`; answer: `{"ok": true, "data": {"leafPem",
/// "chainPem"}}` or the crypto error.
pub fn ffi_sign_client_cert_from_csr_json<S: FnOnce(SignClientCertFromCsrParams) -> Result<SignedClientCert, MtlsError>>(
    input_json: String,
    sign: S,
) -> (r: String)
    requires
        forall|p: SignClientCertFromCsrParams| sign.requires((p,)),
    ensures
        exists|v: JsonValue| r@ == json_render(v) && match json_parse(encode_utf8(input_json@)) {
            None => exists|m: Seq<char>| is_crypto_err(v, m),
            Some(input) => match sign_input_problem(input) {
                Some(m) => is_crypto_err(v, m),
                None => exists|p: SignClientCertFromCsrParams, made: Result<SignedClientCert, MtlsError>|
                    {
                        &&& sign_params_ok(input, p)
                        &&& #[trigger] sign.ensures((p,), made)
                        &&& match made {
                            Ok(sc) => exists|d: JsonValue|
                                {
                                    &&& is_crypto_ok(v, d)
                                    &&& has_keys(d, seq!["leafPem"@, "chainPem"@])
                                    &&& is_text(member_at(d, 0), sc.leaf_pem@)
                                    &&& is_text(member_at(d, 1), sc.chain_pem@)
                                },
                            Err(e) => is_crypto_err(v, mtls_error_text(e)),
                        }
                    },
            },
        },
{
    let input = match parse_json_detailed(input_json.as_str().as_bytes()) {
        Ok(v) => v,
        Err(detail) => return invalid_input(detail.as_str()),
    };
    let csr_pem = match text_of(&input, "csrPem") {
        Some(s) => s,
        None => return crypto_err("csrPem is required"),
    };
    let ca_cert_pem = match text_of(&input, "caCertPem") {
        Some(s) => s,
        None => return crypto_err("caCertPem is required"),
    };
    let ca_private_jwk = match get(&input, "caPrivateJwk") {
        Some(j) => j,
        None => return crypto_err("caPrivateJwk is required"),
    };
    let ca_common_name = match text_of(&input, "caCommonName") {
        Some(s) => s,
        None => return crypto_err("caCommonName is required"),
    };
    let ski = match text_of(&input, "ski") {
        Some(s) => s,
        None => return crypto_err("ski is required"),
    };
    let host = match text_of(&input, "host") {
        Some(h) => Some(copy_string(h)),
        None => None,
    };
    let not_after_days = match get(&input, "notAfterDays") {
        Some(JsonValue::Number(n)) => n.as_i64,
        _ => None,
    };
    let params = SignClientCertFromCsrParams {
        csr_pem: copy_string(csr_pem),
        ca_cert_pem: copy_string(ca_cert_pem),
        ca_private_jwk: copy_json(ca_private_jwk),
        ca_common_name: copy_string(ca_common_name),
        ski: copy_string(ski),
        host,
        not_after_days,
    };
    let ghost handed = params;
    let made = sign(params);
    proof {
        assert(sign_params_ok(input, handed));
    }
    match made {
        Ok(sc) => {
            let mut d: Vec<(String, JsonValue)> = Vec::new();
            d.push((copy_string("leafPem"), JsonValue::Str(sc.leaf_pem)));
            d.push((copy_string("chainPem"), JsonValue::Str(sc.chain_pem)));
            let data = JsonValue::Object(d);
            assert(has_keys(data, seq!["leafPem"@, "chainPem"@]));
            crypto_ok(data)
        },
        Err(e) => crypto_err(e.to_string().as_str()),
    }
}

/// The message for the first missing identity member, if any (the
/// credential itself is read by the caller's parser).
pub open spec fn identity_input_problem(input: JsonValue) -> Option<Seq<char>> {
    if input_text(input, "ski"@) is None {
        Some("ski is required"@)
    } else if get_spec(input, "privateJwk"@) is None {
        Some("privateJwk is required"@)
    } else if get_spec(input, "credential"@) is None {
        Some("credential is required"@)
    } else {
        None
    }
}

/// The client material of a device identity: `parse_credential` reads the
/// identity's `credential` member and `mint_self_signed` makes the
/// certificate of a device without a CA-issued one (see
/// [`materialize_mtls_client`]). Input: `{"ski", "privateJwk",
/// "credential", "certPem"?, "chainPem"?}`; answer: `{"ok": true, "data":
/// {"certPem", "keyPem", "ski", "chainPem"}}` or the crypto error.
pub fn ffi_materialize_mtls_client_json<
    P: FnOnce(&JsonValue) -> Result<CapabilityCredential, String>,
    M: FnOnce(&str, &str) -> Result<String, MtlsError>,
>(identity_json: String, parse_credential: P, mint_self_signed: M) -> (r: String)
    requires
        forall|c: &JsonValue| parse_credential.requires((c,)),
        forall|ski: &str, key: &str| mint_self_signed.requires((ski, key)),
    ensures
        exists|v: JsonValue| r@ == json_render(v) && match json_parse(encode_utf8(identity_json@)) {
            None => exists|m: Seq<char>| is_crypto_err(v, m),
            Some(input) => match identity_input_problem(input) {
                Some(m) => is_crypto_err(v, m),
                None => (exists|m: Seq<char>| is_crypto_err(v, m)) || exists|d: JsonValue|
                    {
                        &&& is_crypto_ok(v, d)
                        &&& has_keys(d, seq!["certPem"@, "keyPem"@, "ski"@, "chainPem"@])
                        &&& input_text(input, "ski"@) matches Some(s) && is_text(member_at(d, 2), s)
                    },
            },
        },
{
    let input = match parse_json_detailed(identity_json.as_str().as_bytes()) {
        Ok(v) => v,
        Err(detail) => {
            let m = concat_chars(&chars_of("invalid identity JSON: "), &chars_of(detail.as_str()));
            return crypto_err(string_of(&m).as_str());
        },
    };
    let ski = match text_of(&input, "ski") {
        Some(s) => s,
        None => return crypto_err("ski is required"),
    };
    let private_jwk = match get(&input, "privateJwk") {
        Some(j) => j,
        None => return crypto_err("privateJwk is required"),
    };
    let credential = match get(&input, "credential") {
        Some(c) => match parse_credential(c) {
            Ok(cred) => cred,
            Err(e) => {
                let m = concat_chars(&chars_of("invalid credential: "), &chars_of(e.as_str()));
                return crypto_err(string_of(&m).as_str());
            },
        },
        None => return crypto_err("credential is required"),
    };
    let identity = DeviceIdentity {
        ski: copy_string(ski),
        private_jwk: copy_json(private_jwk),
        credential,
        cert_pem: match text_of(&input, "certPem") {
            Some(c) => Some(copy_string(c)),
            None => None,
        },
        chain_pem: match text_of(&input, "chainPem") {
            Some(c) => Some(copy_string(c)),
            None => None,
        },
    };
    match materialize_mtls_client(identity, mint_self_signed) {
        Ok(material) => {
            let mut d: Vec<(String, JsonValue)> = Vec::new();
            d.push((copy_string("certPem"), JsonValue::Str(material.cert_pem)));
            d.push((copy_string("keyPem"), JsonValue::Str(material.key_pem)));
            d.push((copy_string("ski"), JsonValue::Str(material.ski)));
            d.push(
                (
                    copy_string("chainPem"),
                    match material.chain_pem {
                        Some(c) => JsonValue::Str(c),
                        None => JsonValue::Null,
                    },
                ),
            );
            let data = JsonValue::Object(d);
            assert(has_keys(data, seq!["certPem"@, "keyPem"@, "ski"@, "chainPem"@]));
            crypto_ok(data)
        },
        Err(e) => crypto_err(e.to_string().as_str()),
    }
}

} // verus!
