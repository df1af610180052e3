//! Billing API routes: the requests the client sends and how it reads the
//! answers. The transport itself belongs to the host.

use vstd::prelude::*;
use vstd::utf8::encode_utf8;
use crate::error::{ErrorCode, TwoKeyError, TwoKeyResult};
use crate::json::{get, get_spec, json_parse, member_index, parse_json_detailed, JsonValue};
use crate::models::{deref_opt, view_opt};
use crate::text::{
    chars_of, concat_chars, copy_string, decimal_chars, decimal_spec, ends_with, has_prefix,
    has_suffix, lower_chars, lower_seq, starts_with, string_of, trim_chars, trim_seq,
};
use crate::url::{normalize_api_base_url, normalize_spec};

verus! {

/// Result of `GET /api/v1/license`.
#[derive(Debug)]
pub enum SyncResult {
    Success { signed_token: String, etag: Option<String> },
    NotModified { etag: Option<String> },
}

/// Result of `GET /api/v1/subscriptions/me`: the data object.
#[derive(Debug)]
pub enum BootstrapResult {
    Success(JsonValue),
}

/// Filters for the public plan list.
#[derive(Clone, Debug)]
pub struct FetchPlansQuery {
    pub product_id: Option<i64>,
    pub billing_interval: Option<String>,
    pub include_inactive: bool,
}

/// Body of `POST /api/v1/usage/report`.
#[derive(Debug)]
pub struct UsageReportRequest {
    pub meter_key: String,
    pub using_party: String,
    pub paying_party: String,
    pub idempotency_key: String,
    pub reporter_type: Option<String>,
    pub target_fqhn: Option<String>,
    pub bytes_to_target: Option<JsonValue>,
    pub bytes_from_target: Option<JsonValue>,
    pub quantity: Option<JsonValue>,
    pub reporter_id: Option<String>,
    pub session_id: Option<String>,
    pub dimensions: Option<JsonValue>,
    pub reported_at: Option<String>,
}

/// The text member `v`: the string `s`.
pub open spec fn is_text_of(v: JsonValue, s: Seq<char>) -> bool {
    v matches JsonValue::Str(x) && x@ == s
}

/// `v` is the string of `o`, or null without one.
pub open spec fn is_text_or_null(v: JsonValue, o: Option<String>) -> bool {
    match o {
        Some(s) => is_text_of(v, s@),
        None => v is Null,
    }
}

/// `v` is `o`, or null without one.
pub open spec fn is_value_or_null(v: JsonValue, o: Option<JsonValue>) -> bool {
    match o {
        Some(x) => v == x,
        None => v is Null,
    }
}

/// The member names of a usage report body, in order.
pub open spec fn usage_body_keys() -> Seq<Seq<char>> {
    seq![
        "meter_key"@,
        "using_party"@,
        "paying_party"@,
        "idempotency_key"@,
        "reporter_type"@,
        "target_fqhn"@,
        "bytes_to_target"@,
        "bytes_from_target"@,
        "quantity"@,
        "reporter_id"@,
        "session_id"@,
        "dimensions"@,
        "reported_at"@,
    ]
}

/// `v` is the JSON body of usage report `b`: its members in order, the
/// reporter type `relay` and the dimensions `{}` when not given, the other
/// absent values `null`.
pub open spec fn usage_body_spec(v: JsonValue, b: UsageReportRequest) -> bool {
    match v {
        JsonValue::Object(mm) => {
            let m = mm@;
            &&& m.len() == 13
            &&& forall|i: int| 0 <= i < 13 ==> (#[trigger] m[i]).0@ == usage_body_keys()[i]
            &&& is_text_of(m[0].1, b.meter_key@)
            &&& is_text_of(m[1].1, b.using_party@)
            &&& is_text_of(m[2].1, b.paying_party@)
            &&& is_text_of(m[3].1, b.idempotency_key@)
            &&& is_text_of(m[4].1, match b.reporter_type {
                Some(t) => t@,
                None => "relay"@,
            })
            &&& is_text_or_null(m[5].1, b.target_fqhn)
            &&& is_value_or_null(m[6].1, b.bytes_to_target)
            &&& is_value_or_null(m[7].1, b.bytes_from_target)
            &&& is_value_or_null(m[8].1, b.quantity)
            &&& is_text_or_null(m[9].1, b.reporter_id)
            &&& is_text_or_null(m[10].1, b.session_id)
            &&& match b.dimensions {
                Some(d) => m[11].1 == d,
                None => m[11].1 matches JsonValue::Object(e) && e@.len() == 0,
            }
            &&& is_text_or_null(m[12].1, b.reported_at)
        },
        _ => false,
    }
}

/// What the usage ingest answered.
#[derive(Clone, Debug)]
pub struct UsageReportResult {
    pub accepted: bool,
    pub duplicate: bool,
    pub remaining: Option<String>,
    pub generation: Option<i32>,
    pub actions: Vec<String>,
}

#[derive(Clone, Copy, Debug, PartialEq, Eq, Structural)]
pub enum HttpMethod {
    Get,
    Post,
}

/// A request for the host's transport to send.
#[derive(Debug)]
pub struct HttpRequest {
    pub method: HttpMethod,
    pub url: String,
    pub headers: Vec<(String, String)>,
    pub body: Option<JsonValue>,
}

/// What the host's transport received for a request.
#[derive(Debug)]
pub struct HttpResponse {
    pub status: u16,
    /// The `ETag` header, when present.
    pub etag: Option<String>,
    pub body: Vec<u8>,
}

/// The header list as text pairs.
pub open spec fn headers_view(h: Seq<(String, String)>) -> Seq<(Seq<char>, Seq<char>)> {
    h.map_values(|p: (String, String)| (p.0@, p.1@))
}

/// Client for the billing routes of one origin.
#[derive(Clone, Debug)]
pub struct ApiClient {
    origin: String,
}

// ---------------------------------------------------------------------------
// Specification
// ---------------------------------------------------------------------------

/// The origin with one trailing `/`.
pub open spec fn origin_slash_spec(origin: Seq<char>) -> Seq<char> {
    if has_suffix(origin, "/"@) {
        origin
    } else {
        origin + "/"@
    }
}

/// An `Authorization` value: the trimmed token, with `Bearer ` added unless
/// it already starts with it (any case).
pub open spec fn bearer_spec(token: Seq<char>) -> Seq<char> {
    let t = trim_seq(token);
    if has_prefix(lower_seq(t), "bearer "@) {
        t
    } else {
        "Bearer "@ + t
    }
}

/// An `If-None-Match` value: the ETag quoted unless it already is.
pub open spec fn quoted_etag(etag: Seq<char>) -> Seq<char> {
    if has_prefix(etag, "\""@) {
        etag
    } else {
        "\""@ + etag + "\""@
    }
}

/// The error for a failed HTTP status: `Unauthorized` for 401/403,
/// `Unknown` otherwise.
pub open spec fn status_code_of(status: u16) -> ErrorCode {
    if status == 401 || status == 403 {
        ErrorCode::Unauthorized
    } else {
        ErrorCode::Unknown
    }
}

pub open spec fn status_message(status: u16) -> Seq<char> {
    "Billing request failed (HTTP "@ + decimal_spec(status as int) + ")."@
}

/// `body.data` when present, else the body.
pub open spec fn unwrap_data_spec(body: JsonValue) -> JsonValue {
    match get_spec(body, "data"@) {
        Some(d) => d,
        None => body,
    }
}

/// The signed token of a license answer: the first of `signedToken`,
/// `signed_token`, `token` that is present, when it is a non-empty string.
pub open spec fn signed_token_spec(data: JsonValue) -> Option<Seq<char>> {
    let v = match get_spec(data, "signedToken"@) {
        Some(x) => Some(x),
        None => match get_spec(data, "signed_token"@) {
            Some(x) => Some(x),
            None => get_spec(data, "token"@),
        },
    };
    match v {
        Some(JsonValue::Str(s)) => if s@.len() > 0 {
            Some(s@)
        } else {
            None
        },
        _ => None,
    }
}

// ---------------------------------------------------------------------------
// Helpers
// ---------------------------------------------------------------------------

/// The error for an unexpected HTTP status of an operation.
pub fn http_status_error(status: u16, operation: &str) -> (r: TwoKeyError)
    ensures
        r.code == status_code_of(status),
        r.message@ == status_message(status),
        r.detail matches Some(d) && d@ == operation@ + " status="@ + decimal_spec(status as int),
{
    let code = if status == 401 || status == 403 {
        ErrorCode::Unauthorized
    } else {
        ErrorCode::Unknown
    };
    let digits = decimal_chars(status as i64);
    let m = concat_chars(&chars_of("Billing request failed (HTTP "), &digits);
    let m = string_of(&concat_chars(&m, &chars_of(").")));
    let d = concat_chars(&chars_of(operation), &chars_of(" status="));
    let d = string_of(&concat_chars(&d, &digits));
    TwoKeyError::new(code, m.as_str()).with_detail(d.as_str())
}

/// `body.data` when present, else the body.
pub fn unwrap_data(body: &JsonValue) -> (r: &JsonValue)
    ensures
        *r == unwrap_data_spec(*body),
{
    match get(body, "data") {
        Some(d) => d,
        None => body,
    }
}

fn header(name: &str, value: String) -> (r: (String, String))
    ensures
        r.0@ == name@,
        r.1@ == value@,
{
    (copy_string(name), value)
}

fn invalid_response(message: &str, detail: &str) -> (r: TwoKeyError)
    ensures
        r.code == ErrorCode::InvalidResponse,
        r.message@ == message@,
{
    TwoKeyError::new(ErrorCode::InvalidResponse, message).with_detail(detail)
}

fn token_required(message: &str) -> (r: TwoKeyError)
    ensures
        r.code == ErrorCode::Unauthorized,
        r.message@ == message@,
        r.detail is None,
{
    TwoKeyError::new(ErrorCode::Unauthorized, message)
}

/// `o` trimmed, unless blank.
pub open spec fn trimmed_nonblank(o: Option<Seq<char>>) -> Option<Seq<char>> {
    match o {
        Some(s) => if trim_seq(s).len() > 0 {
            Some(trim_seq(s))
        } else {
            None
        },
        None => None,
    }
}

/// `GET <origin>/api/v1/license` with the bearer token, the paying party and
/// the quoted ETag (each only when not blank).
pub open spec fn is_license_request(
    origin: Seq<char>,
    token: Seq<char>,
    paying_party_id: Option<Seq<char>>,
    if_none_match: Option<Seq<char>>,
    req: HttpRequest,
) -> bool {
    &&& req.method == HttpMethod::Get
    &&& req.url@ == origin_slash_spec(origin) + "api/v1/license"@
    &&& req.body is None
    &&& headers_view(req.headers@) == seq![("Authorization"@, bearer_spec(token))] + (match trimmed_nonblank(
        paying_party_id,
    ) {
        Some(p) => seq![("X-Paying-Party-Id"@, p)],
        None => Seq::empty(),
    }) + (match trimmed_nonblank(if_none_match) {
        Some(e) => seq![("If-None-Match"@, quoted_etag(e))],
        None => Seq::empty(),
    })
}

fn trimmed_nonblank_exec(o: Option<&str>) -> (r: Option<Vec<char>>)
    ensures
        match r {
            Some(v) => trimmed_nonblank(match o {
                Some(s) => Some(s@),
                None => None,
            }) == Some(v@),
            None => trimmed_nonblank(match o {
                Some(s) => Some(s@),
                None => None,
            }) is None,
        },
{
    match o {
        Some(s) => {
            let t = trim_chars(&chars_of(s));
            if t.len() > 0 {
                Some(t)
            } else {
                None
            }
        },
        None => None,
    }
}

// ---------------------------------------------------------------------------
// Client
// ---------------------------------------------------------------------------

impl ApiClient {
    /// The normalized origin.
    pub closed spec fn origin(self) -> Seq<char> {
        self.origin@
    }

    /// A client for a billing origin (normalized).
    pub fn new(base_url: &str) -> (r: ApiClient)
        ensures
            r.origin() == normalize_spec(base_url@),
    {
        ApiClient { origin: normalize_api_base_url(base_url) }
    }

    /// The origin with a trailing `/`.
    pub fn origin_slash(&self) -> (r: String)
        ensures
            r@ == origin_slash_spec(self.origin()),
    {
        let o = chars_of(self.origin.as_str());
        if ends_with(&o, &chars_of("/")) {
            string_of(&o)
        } else {
            string_of(&concat_chars(&o, &chars_of("/")))
        }
    }

    /// The `Authorization` value for a token.
    pub fn bearer(token: &str) -> (r: String)
        ensures
            r@ == bearer_spec(token@),
    {
        let t = trim_chars(&chars_of(token));
        if starts_with(&lower_chars(&t), &chars_of("bearer ")) {
            string_of(&t)
        } else {
            string_of(&concat_chars(&chars_of("Bearer "), &t))
        }
    }

    fn route(&self, path: &str) -> (r: String)
        ensures
            r@ == origin_slash_spec(self.origin()) + path@,
    {
        let o = self.origin_slash();
        string_of(&concat_chars(&chars_of(o.as_str()), &chars_of(path)))
    }

    /// `GET /api/v1/license` with the bearer token, the paying party and the
    /// cached ETag (each only when not blank).
    pub fn license_request(
        &self,
        authorization_token: &str,
        paying_party_id: Option<&str>,
        if_none_match: Option<&str>,
    ) -> (r: TwoKeyResult<HttpRequest>)
        ensures
            match r {
                Ok(req) => trim_seq(authorization_token@).len() > 0 && is_license_request(
                    self.origin(),
                    authorization_token@,
                    match paying_party_id {
                        Some(s) => Some(s@),
                        None => None,
                    },
                    match if_none_match {
                        Some(s) => Some(s@),
                        None => None,
                    },
                    req,
                ),
                Err(e) => trim_seq(authorization_token@).len() == 0 && e.code == ErrorCode::Unauthorized
                    && e.message@ == "Authorization token is required."@,
            },
    {
        if trim_chars(&chars_of(authorization_token)).len() == 0 {
            return Err(token_required("Authorization token is required."));
        }
        let url = self.route("api/v1/license");
        let mut headers: Vec<(String, String)> = Vec::new();
        headers.push(header("Authorization", ApiClient::bearer(authorization_token)));
        let ghost first = headers_view(headers@);
        match trimmed_nonblank_exec(paying_party_id) {
            Some(p) => {
                headers.push(header("X-Paying-Party-Id", string_of(&p)));
            },
            None => {},
        }
        let ghost second = headers_view(headers@);
        match trimmed_nonblank_exec(if_none_match) {
            Some(e) => {
                let value = if starts_with(&e, &chars_of("\"")) {
                    string_of(&e)
                } else {
                    let q = concat_chars(&chars_of("\""), &e);
                    string_of(&concat_chars(&q, &chars_of("\"")))
                };
                headers.push(header("If-None-Match", value));
            },
            None => {},
        }
        proof {
            let party = trimmed_nonblank(match paying_party_id {
                Some(s) => Some(s@),
                None => None,
            });
            let etag = trimmed_nonblank(match if_none_match {
                Some(s) => Some(s@),
                None => None,
            });
            assert(first =~= seq![("Authorization"@, bearer_spec(authorization_token@))]);
            assert(second =~= first + (match party {
                Some(p) => seq![("X-Paying-Party-Id"@, p)],
                None => Seq::empty(),
            }));
            assert(headers_view(headers@) =~= second + (match etag {
                Some(e) => seq![("If-None-Match"@, quoted_etag(e))],
                None => Seq::empty(),
            }));
        }
        Ok(HttpRequest { method: HttpMethod::Get, url, headers, body: None })
    }

    /// Reads the answer to the license request: 304 keeps the cached token
    /// (with the answer's ETag, else the one sent); 200 must carry a signed
    /// token; any other status is an error.
    pub fn license_response(
        status: u16,
        response_etag: Option<String>,
        body: &[u8],
        if_none_match: Option<&str>,
    ) -> (r: TwoKeyResult<SyncResult>)
        ensures
            status == 304 ==> (r matches Ok(SyncResult::NotModified { etag }) && view_opt(etag) == match response_etag {
                Some(e) => Some(e@),
                None => match if_none_match {
                    Some(s) => Some(s@),
                    None => None,
                },
            }),
            status == 200 ==> match r {
                Ok(SyncResult::Success { signed_token, etag }) => json_parse(body@) matches Some(b)
                    && signed_token_spec(unwrap_data_spec(b)) == Some(signed_token@) && etag == response_etag,
                Ok(_) => false,
                Err(e) => e.code == ErrorCode::InvalidResponse && (json_parse(body@) matches Some(b)
                    ==> signed_token_spec(unwrap_data_spec(b)) is None),
            },
            status != 304 && status != 200 ==> (r matches Err(e) && e.code == status_code_of(status)
                && e.message@ == status_message(status)),
    {
        if status == 304 {
            let etag = match response_etag {
                Some(e) => Some(e),
                None => match if_none_match {
                    Some(s) => Some(copy_string(s)),
                    None => None,
                },
            };
            return Ok(SyncResult::NotModified { etag });
        }
        if status == 200 {
            let parsed = match parse_json_detailed(body) {
                Ok(v) => v,
                Err(detail) => return Err(invalid_response("Invalid license response JSON", detail.as_str())),
            };
            let data = unwrap_data(&parsed);
            let v = match get(data, "signedToken") {
                Some(x) => Some(x),
                None => match get(data, "signed_token") {
                    Some(x) => Some(x),
                    None => get(data, "token"),
                },
            };
            match v {
                Some(JsonValue::Str(s)) => {
                    if !s.as_str().is_empty() {
                        return Ok(
                            SyncResult::Success {
                                signed_token: copy_string(s.as_str()),
                                etag: response_etag,
                            },
                        );
                    }
                },
                _ => {},
            }
            return Err(
                invalid_response(
                    "Invalid response from billing server. Try again or report this issue.",
                    "fetch_license: 200 without signedToken",
                ),
            );
        }
        Err(http_status_error(status, "fetch_license"))
    }

    /// `GET /api/v1/subscriptions/me` with the bearer token.
    pub fn bootstrap_request(&self, authorization_token: &str) -> (r: TwoKeyResult<HttpRequest>)
        ensures
            match r {
                Ok(req) => trim_seq(authorization_token@).len() > 0 && req.method == HttpMethod::Get
                    && req.url@ == origin_slash_spec(self.origin()) + "api/v1/subscriptions/me"@
                    && req.body is None && headers_view(req.headers@) == seq![
                    ("Authorization"@, bearer_spec(authorization_token@)),
                ],
                Err(e) => trim_seq(authorization_token@).len() == 0 && e.code == ErrorCode::Unauthorized
                    && e.message@ == "Authorization token is required."@ && e.detail is None,
            },
    {
        if trim_chars(&chars_of(authorization_token)).len() == 0 {
            return Err(token_required("Authorization token is required."));
        }
        let url = self.route("api/v1/subscriptions/me");
        let mut headers: Vec<(String, String)> = Vec::new();
        headers.push(header("Authorization", ApiClient::bearer(authorization_token)));
        assert(headers_view(headers@) =~= seq![("Authorization"@, bearer_spec(authorization_token@))]);
        Ok(HttpRequest { method: HttpMethod::Get, url, headers, body: None })
    }

    /// Reads the billing summary answer: the `data` object of a 200.
    pub fn bootstrap_response(status: u16, body: &[u8]) -> (r: TwoKeyResult<BootstrapResult>)
        ensures
            status == 200 ==> match r {
                Ok(BootstrapResult::Success(d)) => json_parse(body@) matches Some(b) && d == unwrap_data_spec(b),
                Err(e) => json_parse(body@) is None && e.code == ErrorCode::InvalidResponse
                    && e.message@ == "Invalid billing summary response."@,
            },
            status != 200 ==> (r matches Err(e) && e.code == status_code_of(status)
                && e.message@ == status_message(status)),
    {
        if status != 200 {
            return Err(http_status_error(status, "ensure_billing_context"));
        }
        let parsed = match parse_json_detailed(body) {
            Ok(v) => v,
            Err(detail) => return Err(invalid_response("Invalid billing summary response.", detail.as_str())),
        };
        let ghost b = parsed;
        match parsed {
            JsonValue::Object(mut m) => {
                match member_index(&m, "data") {
                    Some(i) => {
                        let (_, d) = m.remove(i);
                        Ok(BootstrapResult::Success(d))
                    },
                    None => Ok(BootstrapResult::Success(JsonValue::Object(m))),
                }
            },
            other => Ok(BootstrapResult::Success(other)),
        }
    }

    /// `GET /api/v1/plans` with the query filters.
    pub fn plans_request(&self, query: &FetchPlansQuery) -> (r: HttpRequest)
        ensures
            r.method == HttpMethod::Get,
            r.url@ == origin_slash_spec(self.origin()) + "api/v1/plans"@ + plans_query_spec(
                query.product_id,
                view_opt(query.billing_interval),
                query.include_inactive,
            ),
            r.headers@.len() == 0,
            r.body is None,
    {
        let mut parts: Vec<Vec<char>> = Vec::new();
        match query.product_id {
            Some(id) => parts.push(concat_chars(&chars_of("productId="), &decimal_chars(id))),
            None => {},
        }
        let ghost p1 = parts@.map_values(|v: Vec<char>| v@);
        match &query.billing_interval {
            Some(interval) => parts.push(
                concat_chars(&chars_of("billingInterval="), &chars_of(interval.as_str())),
            ),
            None => {},
        }
        let ghost p2 = parts@.map_values(|v: Vec<char>| v@);
        if query.include_inactive {
            parts.push(chars_of("includeInactive=true"));
        }
        let ghost p3 = parts@.map_values(|v: Vec<char>| v@);
        proof {
            assert(p3 =~= query_parts(query.product_id, view_opt(query.billing_interval), query.include_inactive));
        }
        let mut suffix: Vec<char> = Vec::new();
        if parts.len() > 0 {
            suffix.push('?');
            let mut i: usize = 0;
            while i < parts.len()
                invariant
                    i <= parts@.len(),
                    parts@.len() > 0,
                    p3 == parts@.map_values(|v: Vec<char>| v@),
                    suffix@ == seq!['?'] + joined_amp(p3.take(i as int)),
                decreases parts.len() - i,
            {
                assert(p3.take(i + 1).drop_last() =~= p3.take(i as int));
                if i > 0 {
                    suffix.push('&');
                }
                suffix = concat_chars(&suffix, &parts[i]);
                i += 1;
                proof {
                    assert(suffix@ =~= seq!['?'] + joined_amp(p3.take(i as int)));
                }
            }
            assert(p3.take(parts@.len() as int) =~= p3);
        }
        let o = self.route("api/v1/plans");
        let url = string_of(&concat_chars(&chars_of(o.as_str()), &suffix));
        HttpRequest { method: HttpMethod::Get, url, headers: Vec::new(), body: None }
    }

    /// Reads the plan list answer: the array under `data`, else under
    /// `items`, else the body itself.
    pub fn plans_list(status: u16, body: &[u8]) -> (r: TwoKeyResult<Vec<JsonValue>>)
        ensures
            status != 200 ==> (r matches Err(e) && e.code == status_code_of(status)
                && e.message@ == status_message(status)),
            status == 200 ==> match r {
                Ok(items) => json_parse(body@) matches Some(b) && plans_list_spec(b) == Some(items@),
                Err(e) => e.code == ErrorCode::InvalidResponse && (json_parse(body@) matches Some(b)
                    ==> plans_list_spec(b) is None),
            },
    {
        if status != 200 {
            return Err(http_status_error(status, "fetch_plans"));
        }
        let parsed = match parse_json_detailed(body) {
            Ok(v) => v,
            Err(detail) => return Err(invalid_response("Invalid plans response", detail.as_str())),
        };
        let ghost b = parsed;
        let use_data = match get(&parsed, "data") {
            Some(JsonValue::Array(_)) => true,
            _ => false,
        };
        let use_items = match get(&parsed, "items") {
            Some(JsonValue::Array(_)) => true,
            _ => false,
        };
        match parsed {
            JsonValue::Object(mut m) => {
                let key = if use_data {
                    "data"
                } else if use_items {
                    "items"
                } else {
                    return Err(invalid_response("plans list missing in response", ""));
                };
                match member_index(&m, key) {
                    Some(i) => {
                        let (_, v) = m.remove(i);
                        match v {
                            JsonValue::Array(a) => Ok(a),
                            _ => Err(invalid_response("plans list missing in response", "")),
                        }
                    },
                    None => Err(invalid_response("plans list missing in response", "")),
                }
            },
            JsonValue::Array(a) => Ok(a),
            _ => Err(invalid_response("plans list missing in response", "")),
        }
    }

    /// `POST /api/v1/usage/report` with the reporter token and the JSON body
    /// (reporter type `relay` and empty dimensions by default).
    pub fn usage_request(&self, reporter_token: &str, body: UsageReportRequest) -> (r: TwoKeyResult<
        HttpRequest,
    >)
        ensures
            match r {
                Ok(req) => trim_seq(reporter_token@).len() > 0 && req.method == HttpMethod::Post
                    && req.url@ == origin_slash_spec(self.origin()) + "api/v1/usage/report"@
                    && headers_view(req.headers@) == seq![
                    ("Authorization"@, bearer_spec(reporter_token@)),
                    ("Content-Type"@, "application/json"@),
                ] && (req.body matches Some(v) && usage_body_spec(v, body)),
                Err(e) => trim_seq(reporter_token@).len() == 0 && e.code == ErrorCode::Unauthorized
                    && e.message@ == "Reporter token is required."@,
            },
    {
        let ghost b0 = body;
        if trim_chars(&chars_of(reporter_token)).len() == 0 {
            return Err(token_required("Reporter token is required."));
        }
        let url = self.route("api/v1/usage/report");
        let mut m: Vec<(String, JsonValue)> = Vec::new();
        m.push((copy_string("meter_key"), JsonValue::Str(body.meter_key)));
        m.push((copy_string("using_party"), JsonValue::Str(body.using_party)));
        m.push((copy_string("paying_party"), JsonValue::Str(body.paying_party)));
        m.push((copy_string("idempotency_key"), JsonValue::Str(body.idempotency_key)));
        let reporter_type = match body.reporter_type {
            Some(t) => t,
            None => copy_string("relay"),
        };
        m.push((copy_string("reporter_type"), JsonValue::Str(reporter_type)));
        m.push((copy_string("target_fqhn"), string_or_null(body.target_fqhn)));
        m.push((copy_string("bytes_to_target"), value_or_null(body.bytes_to_target)));
        m.push((copy_string("bytes_from_target"), value_or_null(body.bytes_from_target)));
        m.push((copy_string("quantity"), value_or_null(body.quantity)));
        m.push((copy_string("reporter_id"), string_or_null(body.reporter_id)));
        m.push((copy_string("session_id"), string_or_null(body.session_id)));
        let dimensions = match body.dimensions {
            Some(d) => d,
            None => JsonValue::Object(Vec::new()),
        };
        m.push((copy_string("dimensions"), dimensions));
        m.push((copy_string("reported_at"), string_or_null(body.reported_at)));
        proof {
            reveal_strlit("relay");
            assert(m@.len() == 13);
            assert forall|i: int| 0 <= i < 13 implies (#[trigger] m@[i]).0@ == usage_body_keys()[i] by {}
            assert(usage_body_spec(JsonValue::Object(m), b0));
        }
        let mut headers: Vec<(String, String)> = Vec::new();
        headers.push(header("Authorization", ApiClient::bearer(reporter_token)));
        headers.push(header("Content-Type", copy_string("application/json")));
        assert(headers_view(headers@) =~= seq![
            ("Authorization"@, bearer_spec(reporter_token@)),
            ("Content-Type"@, "application/json"@),
        ]);
        Ok(HttpRequest { method: HttpMethod::Post, url, headers, body: Some(JsonValue::Object(m)) })
    }

    /// Reads the usage ingest answer (`accepted` defaults to true,
    /// `duplicate` to false).
    pub fn usage_response(status: u16, body: &[u8]) -> (r: TwoKeyResult<UsageReportResult>)
        ensures
            status != 200 ==> (r matches Err(e) && e.code == status_code_of(status)
                && e.message@ == status_message(status)),
            status == 200 ==> match r {
                Ok(u) => json_parse(body@) matches Some(b) && usage_result_spec(unwrap_data_spec(b), u),
                Err(e) => json_parse(body@) is None && e.code == ErrorCode::InvalidResponse
                    && e.message@ == "Invalid usage report response"@,
            },
    {
        if status == 401 || status == 403 {
            return Err(http_status_error(status, "report_usage"));
        }
        if status != 200 {
            return Err(http_status_error(status, "report_usage"));
        }
        let parsed = match parse_json_detailed(body) {
            Ok(v) => v,
            Err(detail) => return Err(invalid_response("Invalid usage report response", detail.as_str())),
        };
        let data = unwrap_data(&parsed);
        let accepted = match get(data, "accepted") {
            Some(JsonValue::Bool(b)) => *b,
            _ => true,
        };
        let duplicate = match get(data, "duplicate") {
            Some(JsonValue::Bool(b)) => *b,
            _ => false,
        };
        let remaining = match get(data, "remaining") {
            Some(JsonValue::Str(s)) => Some(copy_string(s.as_str())),
            Some(JsonValue::Number(n)) => match n.as_i64 {
                Some(i) => Some(string_of(&decimal_chars(i))),
                None => None,
            },
            _ => None,
        };
        let generation = match get(data, "generation") {
            Some(JsonValue::Number(n)) => match n.as_i64 {
                Some(i) => Some(#[verifier::truncate] (i as i32)),
                None => match n.as_u64 {
                    Some(u) => Some(#[verifier::truncate] (u as i32)),
                    None => None,
                },
            },
            _ => None,
        };
        let actions = match get(data, "actions") {
            Some(JsonValue::Array(a)) => strings_in(a),
            _ => Vec::new(),
        };
        let u = UsageReportResult { accepted, duplicate, remaining, generation, actions };
        assert(u.accepted == match get_spec(*data, "accepted"@) {
            Some(JsonValue::Bool(b)) => b,
            _ => true,
        });
        assert(view_opt(u.remaining) == match get_spec(*data, "remaining"@) {
            Some(JsonValue::Str(s)) => Some(s@),
            Some(JsonValue::Number(n)) => match n.as_i64 {
                Some(i) => Some(decimal_spec(i as int)),
                None => None,
            },
            _ => None,
        });
        assert(u.generation == match get_spec(*data, "generation"@) {
            Some(JsonValue::Number(n)) => match n.as_i64 {
                Some(i) => Some(i as i32),
                None => match n.as_u64 {
                    Some(x) => Some(x as i32),
                    None => None,
                },
            },
            _ => None,
        });
        assert(u.duplicate == match get_spec(*data, "duplicate"@) {
            Some(JsonValue::Bool(b)) => b,
            _ => false,
        });
        assert(u.actions@.map_values(|s: String| s@) == match get_spec(*data, "actions"@) {
            Some(JsonValue::Array(a)) => strings_spec(a@),
            _ => Seq::empty(),
        });
        assert(usage_result_spec(*data, u));
        Ok(u)
    }
}

fn string_or_null(o: Option<String>) -> (r: JsonValue)
    ensures
        match o {
            Some(s) => r == JsonValue::Str(s),
            None => r is Null,
        },
{
    match o {
        Some(s) => JsonValue::Str(s),
        None => JsonValue::Null,
    }
}

fn value_or_null(o: Option<JsonValue>) -> (r: JsonValue)
    ensures
        match o {
            Some(v) => r == v,
            None => r is Null,
        },
{
    match o {
        Some(v) => v,
        None => JsonValue::Null,
    }
}

/// The string items of an array, in order.
pub open spec fn strings_spec(items: Seq<JsonValue>) -> Seq<Seq<char>>
    decreases items.len(),
{
    if items.len() == 0 {
        Seq::empty()
    } else {
        match items.last() {
            JsonValue::Str(s) => strings_spec(items.drop_last()).push(s@),
            _ => strings_spec(items.drop_last()),
        }
    }
}

fn strings_in(items: &Vec<JsonValue>) -> (r: Vec<String>)
    ensures
        r@.map_values(|s: String| s@) == strings_spec(items@),
{
    let mut out: Vec<String> = Vec::new();
    let mut i: usize = 0;
    while i < items.len()
        invariant
            i <= items@.len(),
            out@.map_values(|s: String| s@) == strings_spec(items@.take(i as int)),
        decreases items.len() - i,
    {
        assert(items@.take(i + 1).drop_last() =~= items@.take(i as int));
        assert(items@.take(i + 1).last() == items@[i as int]);
        let ghost before = out@.map_values(|s: String| s@);
        match &items[i] {
            JsonValue::Str(s) => {
                out.push(copy_string(s.as_str()));
                assert(out@.map_values(|s: String| s@) =~= before.push(s@));
            },
            _ => {},
        }
        i += 1;
    }
    assert(items@.take(items@.len() as int) =~= items@);
    out
}

/// What a usage answer's data object says.
pub open spec fn usage_result_spec(data: JsonValue, u: UsageReportResult) -> bool {
    &&& u.accepted == match get_spec(data, "accepted"@) {
        Some(JsonValue::Bool(b)) => b,
        _ => true,
    }
    &&& u.duplicate == match get_spec(data, "duplicate"@) {
        Some(JsonValue::Bool(b)) => b,
        _ => false,
    }
    &&& view_opt(u.remaining) == match get_spec(data, "remaining"@) {
        Some(JsonValue::Str(s)) => Some(s@),
        Some(JsonValue::Number(n)) => match n.as_i64 {
            Some(i) => Some(decimal_spec(i as int)),
            None => None,
        },
        _ => None,
    }
    &&& u.generation == match get_spec(data, "generation"@) {
        Some(JsonValue::Number(n)) => match n.as_i64 {
            Some(i) => Some(i as i32),
            None => match n.as_u64 {
                Some(x) => Some(x as i32),
                None => None,
            },
        },
        _ => None,
    }
    &&& u.actions@.map_values(|s: String| s@) == match get_spec(data, "actions"@) {
        Some(JsonValue::Array(a)) => strings_spec(a@),
        _ => Seq::empty(),
    }
}

/// The query pieces of a plan list request.
pub open spec fn query_parts(product_id: Option<i64>, interval: Option<Seq<char>>, inactive: bool) -> Seq<
    Seq<char>,
> {
    (match product_id {
        Some(id) => seq!["productId="@ + decimal_spec(id as int)],
        None => Seq::empty(),
    }) + (match interval {
        Some(i) => seq!["billingInterval="@ + i],
        None => Seq::empty(),
    }) + (if inactive {
        seq!["includeInactive=true"@]
    } else {
        Seq::empty()
    })
}

/// Pieces joined with `&`.
pub open spec fn joined_amp(parts: Seq<Seq<char>>) -> Seq<char>
    decreases parts.len(),
{
    if parts.len() == 0 {
        Seq::empty()
    } else if parts.len() == 1 {
        parts[0]
    } else {
        joined_amp(parts.drop_last()) + seq!['&'] + parts.last()
    }
}

/// The query string of a plan list request (empty, or `?` and the pieces).
pub open spec fn plans_query_spec(product_id: Option<i64>, interval: Option<Seq<char>>, inactive: bool) -> Seq<
    char,
> {
    let parts = query_parts(product_id, interval, inactive);
    if parts.len() == 0 {
        Seq::empty()
    } else {
        seq!['?'] + joined_amp(parts)
    }
}

/// The plan list of an answer: the array under `data`, else under `items`,
/// else the body when it is an array.
pub open spec fn plans_list_spec(body: JsonValue) -> Option<Seq<JsonValue>> {
    match get_spec(body, "data"@) {
        Some(JsonValue::Array(a)) => Some(a@),
        _ => match get_spec(body, "items"@) {
            Some(JsonValue::Array(a)) => Some(a@),
            _ => match body {
                JsonValue::Array(a) => Some(a@),
                _ => None,
            },
        },
    }
}

} // verus!
