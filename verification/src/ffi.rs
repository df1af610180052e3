//! String-in, JSON-out entry points for language bindings.

use vstd::prelude::*;
use vstd::utf8::encode_utf8;
use crate::api::{is_license_request, ApiClient, BootstrapResult, HttpMethod, HttpRequest, HttpResponse, SyncResult};
use crate::config::{config_problem, SdkConfig, DEFAULT_POLL_INTERVAL_SECS};
use crate::error::{code_text, ErrorCode, TwoKeyError, TwoKeyResult};
use crate::json::{json_parse, json_render, number_of_i64, number_of_u64, parse_json_detailed, render_json, JsonValue};
use crate::license::{
    b64_url_nopad, bytes_opt, decode_url_safe_no_pad, outcome_view, verify_spec, LicenseVerifier,
    VerifyOutcome,
};
use crate::models::view_opt;
use crate::ports::{Clock, SystemClock};
use crate::session::{parse_session, session_to_json_value, AccountSession};
use crate::text::{chars_of, copy_string, split_chars, split_seq, string_of, trim_chars, trim_seq};
use crate::url::{normalize_api_base_url, normalize_spec};

verus! {

// ---------------------------------------------------------------------------
// JSON documents
// ---------------------------------------------------------------------------

/// `v` is an object whose members have exactly these keys, in order.
pub open spec fn has_keys(v: JsonValue, keys: Seq<Seq<char>>) -> bool {
    match v {
        JsonValue::Object(m) => m@.len() == keys.len() && forall|i: int|
            0 <= i < keys.len() ==> (#[trigger] m@[i]).0@ == keys[i],
        _ => false,
    }
}

/// Member `i` of an object.
pub open spec fn member_at(v: JsonValue, i: int) -> JsonValue {
    match v {
        JsonValue::Object(m) => m@[i].1,
        _ => JsonValue::Null,
    }
}

pub open spec fn is_text(v: JsonValue, t: Seq<char>) -> bool {
    v matches JsonValue::Str(s) && s@ == t
}

pub open spec fn is_bool(v: JsonValue, b: bool) -> bool {
    v matches JsonValue::Bool(x) && x == b
}

pub open spec fn is_count(v: JsonValue, n: int) -> bool {
    v matches JsonValue::Number(x) && 0 <= n <= u64::MAX && x.as_u64 == Some(n as u64)
}

pub open spec fn is_int(v: JsonValue, n: int) -> bool {
    v matches JsonValue::Number(x) && x.as_i64 == Some(n as i64) && crate::json::lossy_spec(x) == n
}

/// `{"ok": false, "code": …, "message": …}`.
pub open spec fn is_failure_json(v: JsonValue, code: ErrorCode, message: Seq<char>) -> bool {
    &&& has_keys(v, seq!["ok"@, "code"@, "message"@])
    &&& is_bool(member_at(v, 0), false)
    &&& is_text(member_at(v, 1), code_text(code))
    &&& is_text(member_at(v, 2), message)
}

/// `{"ok": false, "code": …, "message": …, "detail": … or null}`.
pub open spec fn is_error_json(v: JsonValue, e: TwoKeyError) -> bool {
    &&& has_keys(v, seq!["ok"@, "code"@, "message"@, "detail"@])
    &&& is_bool(member_at(v, 0), false)
    &&& is_text(member_at(v, 1), code_text(e.code))
    &&& is_text(member_at(v, 2), e.message@)
    &&& match e.detail {
        Some(d) => is_text(member_at(v, 3), d@),
        None => member_at(v, 3) is Null,
    }
}

fn text(s: &str) -> (r: JsonValue)
    ensures
        is_text(r, s@),
{
    JsonValue::Str(copy_string(s))
}

fn failure_json(code: ErrorCode, message: &str) -> (r: JsonValue)
    ensures
        is_failure_json(r, code, message@),
{
    let mut m: Vec<(String, JsonValue)> = Vec::new();
    m.push((copy_string("ok"), JsonValue::Bool(false)));
    m.push((copy_string("code"), text(code.as_str())));
    m.push((copy_string("message"), text(message)));
    JsonValue::Object(m)
}

/// The error document of an error.
pub fn error_json(e: &TwoKeyError) -> (r: JsonValue)
    ensures
        is_error_json(r, *e),
{
    let mut m: Vec<(String, JsonValue)> = Vec::new();
    m.push((copy_string("ok"), JsonValue::Bool(false)));
    m.push((copy_string("code"), text(e.code.as_str())));
    m.push((copy_string("message"), text(e.message.as_str())));
    let detail = match &e.detail {
        Some(d) => text(d.as_str()),
        None => JsonValue::Null,
    };
    m.push((copy_string("detail"), detail));
    JsonValue::Object(m)
}

/// The error document of an error, as text.
pub fn err_json(e: &TwoKeyError) -> (r: String)
    ensures
        exists|v: JsonValue| is_error_json(v, *e) && r@ == json_render(v),
{
    let v = error_json(e);
    render_json(&v)
}

// ---------------------------------------------------------------------------
// Entry points
// ---------------------------------------------------------------------------

/// Normalizes a billing API base URL.
pub fn ffi_normalize_api_base_url(input: String) -> (r: String)
    ensures
        r@ == normalize_spec(input@),
{
    normalize_api_base_url(input.as_str())
}

/// The claims of a JWT: its middle part as URL-safe unpadded base64 JSON.
pub open spec fn jwt_claims_spec(jwt: Seq<char>) -> Result<JsonValue, (ErrorCode, Seq<char>)> {
    let parts = split_seq(trim_seq(jwt), '.');
    if parts.len() != 3 {
        Err((ErrorCode::LicenseMalformed, "Invalid JWT shape"@))
    } else {
        match b64_url_nopad(encode_utf8(parts[1])) {
            None => Err((ErrorCode::LicenseMalformed, "Invalid JWT payload encoding"@)),
            Some(bytes) => match json_parse(bytes) {
                None => Err((ErrorCode::LicenseMalformed, "Invalid JWT payload JSON"@)),
                Some(v) => Ok(v),
            },
        }
    }
}

/// Decodes the claims of a JWT without verifying it.
pub fn jwt_payload_json(jwt: &str) -> (r: TwoKeyResult<JsonValue>)
    ensures
        match r {
            Ok(v) => jwt_claims_spec(jwt@) == Ok::<JsonValue, (ErrorCode, Seq<char>)>(v),
            Err(e) => jwt_claims_spec(jwt@) == Err::<JsonValue, (ErrorCode, Seq<char>)>(
                (e.code, e.message@),
            ),
        },
{
    let parts = split_chars(&trim_chars(&chars_of(jwt)), '.');
    if parts.len() != 3 {
        return Err(TwoKeyError::new(ErrorCode::LicenseMalformed, "Invalid JWT shape"));
    }
    let middle = string_of(&parts[1]);
    let bytes = match decode_url_safe_no_pad(middle.as_str().as_bytes()) {
        Ok(b) => b,
        Err(detail) => return Err(
            TwoKeyError::new(ErrorCode::LicenseMalformed, "Invalid JWT payload encoding").with_detail(
                detail.as_str(),
            ),
        ),
    };
    match parse_json_detailed(bytes.as_slice()) {
        Ok(v) => Ok(v),
        Err(detail) => Err(
            TwoKeyError::new(ErrorCode::LicenseMalformed, "Invalid JWT payload JSON").with_detail(
                detail.as_str(),
            ),
        ),
    }
}

/// `{"ok": true, "paying_party_id", "subscription_count", "payload_version",
/// "claims"}` for a verified token.
pub open spec fn is_verified_json(v: JsonValue, id: Seq<char>, count: int, version: int, claims: JsonValue) -> bool {
    &&& has_keys(v, seq!["ok"@, "paying_party_id"@, "subscription_count"@, "payload_version"@, "claims"@])
    &&& is_bool(member_at(v, 0), true)
    &&& is_text(member_at(v, 1), id)
    &&& is_count(member_at(v, 2), count)
    &&& is_int(member_at(v, 3), version)
    &&& member_at(v, 4) == claims
}

/// What verifying a token gives the bindings, at time `now`.
pub open spec fn verify_json_spec(pem: Seq<char>, jwt: Seq<char>, now: i64, v: JsonValue) -> bool {
    if !crate::license::p256_key_pem_ok(pem) {
        is_failure_json(v, ErrorCode::Config, "Invalid public_key_pem"@)
    } else {
        match verify_spec(pem, jwt, now, None) {
            Err((code, message)) => is_failure_json(v, code, message),
            Ok(p) => match jwt_claims_spec(jwt) {
                Err((code, message)) => is_failure_json(v, code, message),
                Ok(claims) => is_verified_json(
                    v,
                    p.paying_party.id,
                    p.subscriptions.len() as int,
                    p.payload_version as int,
                    claims,
                ),
            },
        }
    }
}

/// Verifies a license token at `now_unix` and describes the result as JSON.
pub fn ffi_verify_license_json_at(public_key_pem: &str, jwt: &str, now_unix: i64) -> (r: String)
    ensures
        exists|v: JsonValue| verify_json_spec(public_key_pem@, jwt@, now_unix, v) && r@ == json_render(v),
{
    let v = verify_json_value(public_key_pem, jwt, now_unix);
    render_json(&v)
}

fn verify_json_value(public_key_pem: &str, jwt: &str, now_unix: i64) -> (r: JsonValue)
    ensures
        verify_json_spec(public_key_pem@, jwt@, now_unix, r),
{
    let verifier = match LicenseVerifier::from_pem(public_key_pem) {
        Ok(v) => v,
        Err(e) => return failure_json(e.code, e.message.as_str()),
    };
    match verifier.verify_and_decode_at(jwt, now_unix, None) {
        VerifyOutcome::Success(p) => {
            let claims = match jwt_payload_json(jwt) {
                Ok(c) => c,
                Err(e) => return failure_json(e.code, e.message.as_str()),
            };
            let count = p.subscriptions.len();
            proof {
                assert(crate::models::subscriptions_view(p.subscriptions@).len() == count);
            }
            let mut m: Vec<(String, JsonValue)> = Vec::new();
            m.push((copy_string("ok"), JsonValue::Bool(true)));
            m.push((copy_string("paying_party_id"), text(p.paying_party.id.as_str())));
            m.push((copy_string("subscription_count"), JsonValue::Number(number_of_u64(count as u64))));
            m.push((copy_string("payload_version"), JsonValue::Number(number_of_i64(p.payload_version))));
            m.push((copy_string("claims"), claims));
            JsonValue::Object(m)
        },
        VerifyOutcome::Failure { code, message } => failure_json(code, message.as_str()),
    }
}

/// Verifies a license token with the system clock and describes the result
/// as JSON.
pub fn ffi_verify_license_json(public_key_pem: String, jwt: String) -> (r: String)
    ensures
        exists|now: i64, v: JsonValue|
            #[trigger] verify_json_spec(public_key_pem@, jwt@, now, v) && r@ == json_render(v),
{
    let now = SystemClock.unix_seconds();
    ffi_verify_license_json_at(public_key_pem.as_str(), jwt.as_str(), now)
}

/// Offline init: the same as [`ffi_verify_license_json`].
pub fn ffi_init_license_json(public_key_pem: String, jwt: String) -> (r: String)
    ensures
        exists|now: i64, v: JsonValue|
            #[trigger] verify_json_spec(public_key_pem@, jwt@, now, v) && r@ == json_render(v),
{
    ffi_verify_license_json(public_key_pem, jwt)
}

/// `{"ok": true, "api_base_url", "storage_prefix"}` or the failure.
pub open spec fn validate_config_json_spec(api: Seq<char>, pem: Seq<char>, prefix: Seq<char>, v: JsonValue) -> bool {
    if normalize_spec(api).len() == 0 {
        is_failure_json(v, ErrorCode::Config, "api_base_url is required"@)
    } else if trim_seq(pem).len() == 0 {
        is_failure_json(v, ErrorCode::Config, "public_key_pem is required"@)
    } else if trim_seq(prefix).len() == 0 {
        is_failure_json(v, ErrorCode::Config, "storage_prefix is required"@)
    } else {
        &&& has_keys(v, seq!["ok"@, "api_base_url"@, "storage_prefix"@])
        &&& is_bool(member_at(v, 0), true)
        &&& is_text(member_at(v, 1), normalize_spec(api))
        &&& is_text(member_at(v, 2), trim_seq(prefix))
    }
}

/// Validates the required configuration and answers with the normalized
/// values or the failure.
pub fn ffi_validate_config_json(api_base_url: String, public_key_pem: String, storage_prefix: String) -> (r:
    String)
    ensures
        exists|v: JsonValue|
            validate_config_json_spec(api_base_url@, public_key_pem@, storage_prefix@, v) && r@
                == json_render(v),
{
    let ghost api = api_base_url@;
    let ghost pem = public_key_pem@;
    let ghost prefix = storage_prefix@;
    let cfg = SdkConfig {
        api_base_url,
        public_key_pem,
        storage_prefix,
        portal_base_url: None,
        shop_path: copy_string("/shop"),
        deep_link_scheme: None,
        license_poll_interval_secs: DEFAULT_POLL_INTERVAL_SECS,
    };
    let v = match cfg.validate() {
        Ok(c) => {
            let mut m: Vec<(String, JsonValue)> = Vec::new();
            m.push((copy_string("ok"), JsonValue::Bool(true)));
            m.push((copy_string("api_base_url"), text(c.api_base_url.as_str())));
            m.push((copy_string("storage_prefix"), text(c.storage_prefix.as_str())));
            JsonValue::Object(m)
        },
        Err(e) => failure_json(e.code, e.message.as_str()),
    };
    assert(validate_config_json_spec(api, pem, prefix, v));
    render_json(&v)
}

/// The stable error codes wrappers know: every code, each once.
pub open spec fn published_codes() -> Seq<ErrorCode> {
    seq![
        ErrorCode::Config,
        ErrorCode::Network,
        ErrorCode::Unauthorized,
        ErrorCode::Offline,
        ErrorCode::LicenseInvalid,
        ErrorCode::LicenseExpired,
        ErrorCode::LicenseMalformed,
        ErrorCode::LicenseDeviceMismatch,
        ErrorCode::NotModified,
        ErrorCode::InvalidResponse,
        ErrorCode::Unknown,
    ]
}

/// The names of the stable error codes.
pub fn ffi_error_codes() -> (r: Vec<String>)
    ensures
        r@.len() == published_codes().len(),
        forall|i: int| 0 <= i < r@.len() ==> (#[trigger] r@[i])@ == code_text(published_codes()[i]),
{
    let codes = vec![
        ErrorCode::Config,
        ErrorCode::Network,
        ErrorCode::Unauthorized,
        ErrorCode::Offline,
        ErrorCode::LicenseInvalid,
        ErrorCode::LicenseExpired,
        ErrorCode::LicenseMalformed,
        ErrorCode::LicenseDeviceMismatch,
        ErrorCode::NotModified,
        ErrorCode::InvalidResponse,
        ErrorCode::Unknown,
    ];
    assert(codes@ =~= published_codes());
    let mut out: Vec<String> = Vec::new();
    let mut i: usize = 0;
    while i < codes.len()
        invariant
            i <= codes@.len(),
            codes@ == published_codes(),
            out@.len() == i,
            forall|k: int| 0 <= k < i ==> (#[trigger] out@[k])@ == code_text(published_codes()[k]),
        decreases codes.len() - i,
    {
        out.push(codes[i].to_string());
        i += 1;
    }
    out
}

/// The session document: `{"ok": true, "session": …}` or the error.
pub fn ffi_parse_session_json(session_json: String) -> (r: String)
    ensures
        exists|v: JsonValue| r@ == json_render(v) && match parse_session_outcome(session_json@) {
            Ok(s) => has_keys(v, seq!["ok"@, "session"@]) && is_bool(member_at(v, 0), true)
                && crate::session::is_session_json(s, member_at(v, 1)),
            Err(()) => is_error_doc(v, ErrorCode::Unknown, "Invalid session JSON"@),
        },
{
    let v = match parse_session(session_json.as_str()) {
        Ok(s) => {
            let mut m: Vec<(String, JsonValue)> = Vec::new();
            m.push((copy_string("ok"), JsonValue::Bool(true)));
            m.push((copy_string("session"), session_to_json_value(&s)));
            JsonValue::Object(m)
        },
        Err(e) => {
            let doc = error_json(&e);
            assert(is_error_doc(doc, ErrorCode::Unknown, "Invalid session JSON"@));
            doc
        },
    };
    render_json(&v)
}

/// The session a JSON text holds, if it is one.
pub open spec fn parse_session_outcome(text: Seq<char>) -> Result<crate::session::SessionV, ()> {
    match json_parse(encode_utf8(text)) {
        Some(v) => match crate::session::session_from_json_spec(v) {
            Some(s) => Ok(s),
            None => Err(()),
        },
        None => Err(()),
    }
}

/// `{"ok": false, "code": …, "message": …, "detail": …}` with a text or null
/// detail.
pub open spec fn is_error_doc(v: JsonValue, code: ErrorCode, message: Seq<char>) -> bool {
    &&& has_keys(v, seq!["ok"@, "code"@, "message"@, "detail"@])
    &&& is_bool(member_at(v, 0), false)
    &&& is_text(member_at(v, 1), code_text(code))
    &&& is_text(member_at(v, 2), message)
    &&& (member_at(v, 3) is Str || member_at(v, 3) is Null)
}

/// `{"ok": true, "should_poll": …}`.
pub open spec fn is_poll_json(v: JsonValue, poll: bool) -> bool {
    &&& has_keys(v, seq!["ok"@, "should_poll"@])
    &&& is_bool(member_at(v, 0), true)
    &&& is_bool(member_at(v, 1), poll)
}

/// The answer when polling is not recommended.
pub open spec fn no_poll_text() -> Seq<char> {
    "{\"ok\":true,\"should_poll\":false}"@
}

/// The polling answer for a cached token at time `now`: poll only when the
/// token verifies and lists subscriptions.
pub open spec fn should_poll_spec(pem: Seq<char>, jwt: Option<Seq<char>>, now: i64, r: Seq<char>) -> bool {
    match jwt {
        None => r == no_poll_text(),
        Some(j) => if trim_seq(j).len() == 0 {
            r == no_poll_text()
        } else if !crate::license::p256_key_pem_ok(pem) {
            exists|v: JsonValue|
                is_error_doc(v, ErrorCode::Config, "Invalid public_key_pem"@) && r
                    == #[trigger] json_render(v)
        } else {
            match verify_spec(pem, j, now, None) {
                Ok(p) => exists|v: JsonValue|
                    is_poll_json(v, p.subscriptions.len() > 0) && r == #[trigger] json_render(v),
                Err(_) => r == no_poll_text(),
            }
        },
    }
}

fn no_poll() -> (r: String)
    ensures
        r@ == no_poll_text(),
{
    copy_string("{\"ok\":true,\"should_poll\":false}")
}

/// Whether background polling is recommended for a cached token at
/// `now_unix`.
pub fn should_poll_json_at(public_key_pem: &str, license_jwt: Option<&str>, now_unix: i64) -> (r: String)
    ensures
        should_poll_spec(public_key_pem@, view_opt_str(license_jwt), now_unix, r@),
{
    let jwt = match license_jwt {
        Some(j) => {
            if trim_chars(&chars_of(j)).len() == 0 {
                return no_poll();
            }
            j
        },
        None => return no_poll(),
    };
    match LicenseVerifier::from_pem(public_key_pem) {
        Ok(v) => match v.verify_and_decode_at(jwt, now_unix, None) {
            VerifyOutcome::Success(p) => {
                let count = p.subscriptions.len();
                proof {
                    assert(crate::models::subscriptions_view(p.subscriptions@).len() == count);
                }
                let mut m: Vec<(String, JsonValue)> = Vec::new();
                m.push((copy_string("ok"), JsonValue::Bool(true)));
                m.push((copy_string("should_poll"), JsonValue::Bool(count > 0)));
                let doc = JsonValue::Object(m);
                assert(is_poll_json(doc, count > 0));
                render_json(&doc)
            },
            VerifyOutcome::Failure { .. } => no_poll(),
        },
        Err(e) => {
            let doc = error_json(&e);
            assert(is_error_doc(doc, ErrorCode::Config, "Invalid public_key_pem"@));
            render_json(&doc)
        },
    }
}

pub open spec fn view_opt_str(o: Option<&str>) -> Option<Seq<char>> {
    match o {
        Some(s) => Some(s@),
        None => None,
    }
}

pub open spec fn view_opt_string(o: Option<String>) -> Option<Seq<char>> {
    match o {
        Some(s) => Some(s@),
        None => None,
    }
}

/// Whether background polling is recommended for a cached token: only when
/// the token verifies now and lists subscriptions.
pub fn ffi_should_poll_json(public_key_pem: String, license_jwt: Option<String>) -> (r: String)
    ensures
        exists|now: i64| #[trigger] should_poll_spec(public_key_pem@, view_opt_string(license_jwt), now, r@),
{
    let now = SystemClock.unix_seconds();
    let r = match &license_jwt {
        Some(j) => should_poll_json_at(public_key_pem.as_str(), Some(j.as_str()), now),
        None => should_poll_json_at(public_key_pem.as_str(), None, now),
    };
    assert(should_poll_spec(public_key_pem@, view_opt_string(license_jwt), now, r@));
    r
}

// ---------------------------------------------------------------------------
// License sync, split around the transport
// ---------------------------------------------------------------------------

/// What a license sync needs once the request is built.
pub struct SyncStep {
    pub session: AccountSession,
    pub verifier: LicenseVerifier,
    pub request: HttpRequest,
}

/// What `sync_license_begin` owes: the session, its non-empty access token,
/// the key and the license request, or the first failure among them.
pub open spec fn sync_begin_spec(api: Seq<char>, pem: Seq<char>, session_json: Seq<char>) -> Result<
    crate::session::SessionV,
    (ErrorCode, Seq<char>),
> {
    match parse_session_outcome(session_json) {
        Err(()) => Err((ErrorCode::Unknown, "Invalid session JSON"@)),
        Ok(s) => match s.access_token {
            None => Err((ErrorCode::Unauthorized, "No access token in session"@)),
            Some(t) => if t.len() == 0 {
                Err((ErrorCode::Unauthorized, "No access token in session"@))
            } else if !crate::license::p256_key_pem_ok(pem) {
                Err((ErrorCode::Config, "Invalid public_key_pem"@))
            } else if trim_seq(t).len() == 0 {
                Err((ErrorCode::Unauthorized, "Authorization token is required."@))
            } else {
                Ok(s)
            },
        },
    }
}

/// Parses the session, checks its access token, reads the key and builds the
/// license request.
pub fn sync_license_begin(api_base_url: &str, public_key_pem: &str, session_json: &str) -> (r:
    TwoKeyResult<SyncStep>)
    ensures
        match sync_begin_spec(api_base_url@, public_key_pem@, session_json@) {
            Err((code, message)) => r matches Err(e) && e.code == code && e.message@ == message && (
            parse_session_outcome(session_json@) is Err ==> e.detail is Some) && (
            parse_session_outcome(session_json@) matches Ok(s) && (s.access_token matches Some(t) ==> t.len()
                == 0) ==> e.detail is None),
            Ok(s) => {
                &&& r matches Ok(step)
                &&& step.session@ == s
                &&& step.verifier.pem() == public_key_pem@
                &&& s.access_token matches Some(t)
                &&& is_license_request(
                    normalize_spec(api_base_url@),
                    t,
                    s.paying_party_id_header,
                    s.license_etag,
                    step.request,
                )
            },
        },
{
    let session = parse_session(session_json)?;
    let token = match &session.access_token {
        Some(t) => {
            if t.as_str().is_empty() {
                return Err(TwoKeyError::new(ErrorCode::Unauthorized, "No access token in session"));
            }
            copy_string(t.as_str())
        },
        None => return Err(TwoKeyError::new(ErrorCode::Unauthorized, "No access token in session")),
    };
    let api = ApiClient::new(api_base_url);
    let verifier = LicenseVerifier::from_pem(public_key_pem)?;
    let party = match &session.paying_party_id_header {
        Some(p) => Some(p.as_str()),
        None => None,
    };
    let etag = match &session.license_etag {
        Some(e) => Some(e.as_str()),
        None => None,
    };
    let request = api.license_request(token.as_str(), party, etag)?;
    Ok(SyncStep { session, verifier, request })
}

/// `{"ok": true, "status": …, "session": …, "claims": …}`.
pub open spec fn is_synced_json(v: JsonValue, status: Seq<char>, s: crate::session::SessionV, claims: JsonValue) -> bool {
    &&& has_keys(v, seq!["ok"@, "status"@, "session"@, "claims"@])
    &&& is_bool(member_at(v, 0), true)
    &&& is_text(member_at(v, 1), status)
    &&& crate::session::is_session_json(s, member_at(v, 2))
    &&& member_at(v, 3) == claims
}

/// The session after the fetch: a new token replaces the cached one and its
/// ETag; a 304 only refreshes the ETag when it carries one.
pub open spec fn synced_session(s: crate::session::SessionV, fetched: SyncResult) -> crate::session::SessionV {
    match fetched {
        SyncResult::NotModified { etag } => match etag {
            Some(e) => crate::session::SessionV { license_etag: Some(e@), ..s },
            None => s,
        },
        SyncResult::Success { signed_token, etag } => crate::session::SessionV {
            license_jwt: Some(signed_token@),
            license_etag: view_opt(etag),
            ..s
        },
    }
}

/// What finishing a sync gives at time `now`: the status, the session and
/// the claims, or the failure.
pub open spec fn sync_finish_spec(s: crate::session::SessionV, pem: Seq<char>, fetched: SyncResult, now: i64) -> Result<
    (Seq<char>, crate::session::SessionV, JsonValue),
    (ErrorCode, Seq<char>),
> {
    let (status, token) = match fetched {
        SyncResult::NotModified { .. } => ("not_modified"@, s.license_jwt),
        SyncResult::Success { signed_token, .. } => ("updated"@, Some(signed_token@)),
    };
    match token {
        None => Err((ErrorCode::NotModified, "License not modified but no cached JWT"@)),
        Some(jwt) => match verify_spec(pem, jwt, now, None) {
            Err(failure) => Err(failure),
            Ok(_) => match jwt_claims_spec(jwt) {
                Err(failure) => Err(failure),
                Ok(claims) => Ok((status, synced_session(s, fetched), claims)),
            },
        },
    }
}

/// Finishes a sync with what the transport fetched, at time `now_unix`: a
/// 304 re-verifies the cached token; a new token is verified and stored in
/// the session.
pub fn sync_license_finish(step: SyncStep, fetched: TwoKeyResult<SyncResult>, now_unix: i64) -> (r:
    TwoKeyResult<String>)
    ensures
        match fetched {
            Err(e) => r == Err::<String, TwoKeyError>(e),
            Ok(f) => match sync_finish_spec(step.session@, step.verifier.pem(), f, now_unix) {
                Err((code, message)) => r matches Err(e) && e.code == code && e.message@ == message,
                Ok((status, s, claims)) => r matches Ok(t) && exists|v: JsonValue|
                    #[trigger] json_render(v) == t@ && is_synced_json(v, status, s, claims),
            },
        },
{
    let mut session = step.session;
    let result = match fetched {
        Ok(x) => x,
        Err(e) => return Err(e),
    };
    let ghost fetched_view = result;
    let (status, jwt) = match result {
        SyncResult::NotModified { etag } => {
            if let Some(e) = etag {
                session.license_etag = Some(e);
            }
            let jwt = match &session.license_jwt {
                Some(j) => copy_string(j.as_str()),
                None => return Err(
                    TwoKeyError::new(ErrorCode::NotModified, "License not modified but no cached JWT"),
                ),
            };
            ("not_modified", jwt)
        },
        SyncResult::Success { signed_token, etag } => {
            let jwt = copy_string(signed_token.as_str());
            session.license_jwt = Some(signed_token);
            session.license_etag = etag;
            ("updated", jwt)
        },
    };
    assert(session@ == synced_session(step.session@, fetched_view));
    let claims = match step.verifier.verify_and_decode_at(jwt.as_str(), now_unix, None) {
        VerifyOutcome::Success(_) => jwt_payload_json(jwt.as_str())?,
        VerifyOutcome::Failure { code, message } => return Err(TwoKeyError::new(code, message.as_str())),
    };
    let mut m: Vec<(String, JsonValue)> = Vec::new();
    m.push((copy_string("ok"), JsonValue::Bool(true)));
    m.push((copy_string("status"), text(status)));
    m.push((copy_string("session"), session_to_json_value(&session)));
    m.push((copy_string("claims"), claims));
    let v = JsonValue::Object(m);
    assert(is_synced_json(v, status@, session@, claims));
    Ok(render_json(&v))
}

/// An error document for some code.
pub open spec fn is_some_error_doc(v: JsonValue) -> bool {
    exists|code: ErrorCode, message: Seq<char>| #[trigger] is_error_doc(v, code, message)
}

/// Online license sync: reads the session, sends the license request through
/// `send`, verifies what comes back with the system clock and answers with
/// the updated session and the claims, or the error document.
pub fn ffi_sync_license_json<F: FnOnce(&HttpRequest) -> TwoKeyResult<HttpResponse>>(
    api_base_url: String,
    public_key_pem: String,
    session_json: String,
    send: F,
) -> (r: String)
    requires
        forall|req: &HttpRequest| send.requires((req,)),
    ensures
        exists|v: JsonValue|
            #[trigger] json_render(v) == r@ && match sync_begin_spec(
                api_base_url@,
                public_key_pem@,
                session_json@,
            ) {
                Err((code, message)) => is_error_doc(v, code, message) && (parse_session_outcome(session_json@) is Err
                    ==> member_at(v, 3) is Str) && (parse_session_outcome(session_json@) matches Ok(s) && (
                s.access_token matches Some(t) ==> t.len() == 0) ==> member_at(v, 3) is Null),
                Ok(s) => is_some_error_doc(v) || exists|f: SyncResult, now: i64|
                    #[trigger] sync_finish_spec(s, public_key_pem@, f, now) matches Ok(
                        (status, s2, claims),
                    ) && is_synced_json(v, status, s2, claims),
            },
{
    let step = match sync_license_begin(api_base_url.as_str(), public_key_pem.as_str(), session_json.as_str()) {
        Ok(step) => step,
        Err(e) => {
            let doc = error_json(&e);
            assert(is_error_doc(doc, e.code, e.message@));
            return render_json(&doc);
        },
    };
    let ghost s = step.session@;
    let ghost pem = step.verifier.pem();
    let cached_etag = match &step.session.license_etag {
        Some(e) => Some(copy_string(e.as_str())),
        None => None,
    };
    let fetched = match send(&step.request) {
        Ok(resp) => {
            let tag = match &cached_etag {
                Some(e) => Some(e.as_str()),
                None => None,
            };
            ApiClient::license_response(resp.status, resp.etag, resp.body.as_slice(), tag)
        },
        Err(e) => Err(e),
    };
    let ghost fetched_view = fetched;
    let now = SystemClock.unix_seconds();
    match sync_license_finish(step, fetched, now) {
        Ok(t) => {
            assert(fetched_view matches Ok(f) && sync_finish_spec(s, pem, f, now) is Ok);
            t
        },
        Err(e) => {
            let doc = error_json(&e);
            assert(is_error_doc(doc, e.code, e.message@));
            render_json(&doc)
        },
    }
}

/// `v` is the billing-context document of `result`: `{"ok": true, "data":
/// …}` with the summary's data, or the error document.
pub open spec fn is_billing_doc(v: JsonValue, result: TwoKeyResult<BootstrapResult>) -> bool {
    match result {
        Ok(BootstrapResult::Success(d)) => has_keys(v, seq!["ok"@, "data"@]) && is_bool(member_at(v, 0), true)
            && member_at(v, 1) == d,
        Err(e) => is_error_json(v, e),
    }
}

/// The billing-context document of a fetch's result.
pub fn billing_context_doc(result: TwoKeyResult<BootstrapResult>) -> (r: JsonValue)
    ensures
        is_billing_doc(r, result),
{
    match result {
        Ok(BootstrapResult::Success(data)) => {
            let mut m: Vec<(String, JsonValue)> = Vec::new();
            m.push((copy_string("ok"), JsonValue::Bool(true)));
            m.push((copy_string("data"), data));
            JsonValue::Object(m)
        },
        Err(e) => error_json(&e),
    }
}

/// The billing-context document for what `send` answered: the data of a
/// 200 whose body parses, else the error for the status or the body.
pub open spec fn billing_answer_doc(v: JsonValue, sent: TwoKeyResult<HttpResponse>) -> bool {
    match sent {
        Err(e) => is_error_json(v, e),
        Ok(resp) => if resp.status == 200 {
            match json_parse(resp.body@) {
                Some(b) => has_keys(v, seq!["ok"@, "data"@]) && is_bool(member_at(v, 0), true) && member_at(v, 1)
                    == crate::api::unwrap_data_spec(b),
                None => is_error_doc(v, ErrorCode::InvalidResponse, "Invalid billing summary response."@),
            }
        } else {
            is_error_doc(v, crate::api::status_code_of(resp.status), crate::api::status_message(resp.status))
        },
    }
}

/// Billing summary: sends `GET /api/v1/subscriptions/me` through `send` and
/// answers with its data object, or the error document.
pub fn ffi_ensure_billing_context_json<F: FnOnce(&HttpRequest) -> TwoKeyResult<HttpResponse>>(
    api_base_url: String,
    access_token: String,
    send: F,
) -> (r: String)
    requires
        forall|req: &HttpRequest| send.requires((req,)),
    ensures
        exists|v: JsonValue|
            #[trigger] json_render(v) == r@ && if trim_seq(access_token@).len() == 0 {
                is_error_doc(v, ErrorCode::Unauthorized, "Authorization token is required."@) && member_at(v, 3)
                    is Null
            } else {
                exists|req: &HttpRequest, sent: TwoKeyResult<HttpResponse>|
                    {
                        &&& #[trigger] send.ensures((req,), sent)
                        &&& req.method == HttpMethod::Get && req.body is None
                        &&& req.url@ == crate::api::origin_slash_spec(normalize_spec(api_base_url@))
                            + "api/v1/subscriptions/me"@
                        &&& crate::api::headers_view(req.headers@) == seq![
                            ("Authorization"@, crate::api::bearer_spec(access_token@)),
                        ]
                        &&& billing_answer_doc(v, sent)
                    }
            },
{
    let api = ApiClient::new(api_base_url.as_str());
    let request = match api.bootstrap_request(access_token.as_str()) {
        Ok(req) => req,
        Err(e) => {
            let doc = error_json(&e);
            return render_json(&doc);
        },
    };
    let sent = send(&request);
    let ghost sent0 = sent;
    let result = match sent {
        Ok(resp) => ApiClient::bootstrap_response(resp.status, resp.body.as_slice()),
        Err(e) => Err(e),
    };
    let doc = billing_context_doc(result);
    assert(billing_answer_doc(doc, sent0));
    render_json(&doc)
}

// ---------------------------------------------------------------------------
// Binding-generator surface
// ---------------------------------------------------------------------------

pub fn frb_normalize_api_base_url(input: String) -> (r: String)
    ensures
        r@ == normalize_spec(input@),
{
    ffi_normalize_api_base_url(input)
}

pub fn frb_verify_license(public_key_pem: String, jwt: String) -> (r: String)
    ensures
        exists|now: i64, v: JsonValue|
            #[trigger] verify_json_spec(public_key_pem@, jwt@, now, v) && r@ == json_render(v),
{
    ffi_verify_license_json(public_key_pem, jwt)
}

pub fn frb_init_license(public_key_pem: String, jwt: String) -> (r: String)
    ensures
        exists|now: i64, v: JsonValue|
            #[trigger] verify_json_spec(public_key_pem@, jwt@, now, v) && r@ == json_render(v),
{
    ffi_init_license_json(public_key_pem, jwt)
}

pub fn frb_should_poll(public_key_pem: String, license_jwt: Option<String>) -> (r: String)
    ensures
        exists|now: i64| #[trigger] should_poll_spec(public_key_pem@, view_opt_string(license_jwt), now, r@),
{
    ffi_should_poll_json(public_key_pem, license_jwt)
}

pub fn frb_validate_config(api_base_url: String, public_key_pem: String, storage_prefix: String) -> (r:
    String)
    ensures
        exists|v: JsonValue|
            validate_config_json_spec(api_base_url@, public_key_pem@, storage_prefix@, v) && r@
                == json_render(v),
{
    ffi_validate_config_json(api_base_url, public_key_pem, storage_prefix)
}

pub fn frb_parse_session(session_json: String) -> (r: String)
    ensures
        exists|v: JsonValue| r@ == json_render(v) && match parse_session_outcome(session_json@) {
            Ok(s) => has_keys(v, seq!["ok"@, "session"@]) && is_bool(member_at(v, 0), true)
                && crate::session::is_session_json(s, member_at(v, 1)),
            Err(()) => is_error_doc(v, ErrorCode::Unknown, "Invalid session JSON"@),
        },
{
    ffi_parse_session_json(session_json)
}

pub fn frb_error_codes() -> (r: Vec<String>)
    ensures
        r@.len() == published_codes().len(),
        forall|i: int| 0 <= i < r@.len() ==> (#[trigger] r@[i])@ == code_text(published_codes()[i]),
{
    ffi_error_codes()
}

} // verus!
