//! The human sign-in session (device-code token or pasted cookie), as opposed
//! to the machine's mTLS identity.

use vstd::prelude::*;
use crate::client_util::{looks_like_cookie, looks_like_cookie_spec, strip_label};
use crate::json::{
    get, get_spec, json_parse, member, member_of, number_of_u64, parse_json, parse_json_detailed, push_member,
    render_json_pretty, JsonValue,
};
use crate::client_util::{truncate_body, truncate_body_spec, MAX_BODY_BYTES};
use crate::state::{opt_text, req_text, text_member_is};
use crate::models::view_opt;
use vstd::utf8::{encode_utf8, is_char_boundary};
use crate::keystore::{KeyStore, KEY_SESSION};
use crate::sdk_error::{Error, SdkResult};
use crate::text::{
    chars_of, concat_chars, contains_char, copy_string, has_prefix, string_of, trim_chars,
    trim_seq, debug_str,
};

verus! {

/// Name of the session cookie.
pub const COOKIE_NAME: &'static str = "better-auth.session_token";

/// Grant type of the device flow.
pub const DEVICE_GRANT: &'static str = "urn:ietf:params:oauth:grant-type:device_code";

/// How the session token is presented.
#[derive(Clone, Copy, Debug, PartialEq, Eq, Structural)]
pub enum SessionTransport {
    /// `Authorization: Bearer <token>`.
    Bearer,
    /// A browser cookie (`better-auth.session_token=…`).
    Cookie,
}

#[derive(Clone, Debug)]
pub struct SessionUser {
    pub id: Option<String>,
    pub email: Option<String>,
    pub name: Option<String>,
}

/// A stored sign-in session.
#[derive(Clone, Debug)]
pub struct StoredSession {
    pub schema: u32,
    pub token: String,
    pub transport: SessionTransport,
    pub expires_at: Option<String>,
    pub user: Option<SessionUser>,
}

/// The current session schema.
pub fn session_schema() -> (r: u32)
    ensures
        r == 1,
{
    1
}

/// `t` without a leading `Cookie:` / `cookie:`.
pub open spec fn without_cookie_label(t: Seq<char>) -> Seq<char> {
    if has_prefix(t, "Cookie:"@) {
        t.skip("Cookie:"@.len() as int)
    } else if has_prefix(t, "cookie:"@) {
        t.skip("cookie:"@.len() as int)
    } else {
        t
    }
}

/// `t` without a leading `Bearer ` / `bearer `.
pub open spec fn without_bearer_label(t: Seq<char>) -> Seq<char> {
    if has_prefix(t, "Bearer "@) {
        t.skip("Bearer "@.len() as int)
    } else if has_prefix(t, "bearer "@) {
        t.skip("bearer "@.len() as int)
    } else {
        t
    }
}

/// What a pasted credential becomes: its token and transport.
pub open spec fn pasted_spec(raw: Seq<char>) -> Option<(Seq<char>, SessionTransport)> {
    let t = trim_seq(raw);
    if t.len() == 0 {
        None
    } else if looks_like_cookie_spec(t) {
        Some((trim_seq(without_cookie_label(t)), SessionTransport::Cookie))
    } else {
        Some((trim_seq(without_bearer_label(t)), SessionTransport::Bearer))
    }
}

/// The credential value a client sends for a session.
pub open spec fn client_auth_spec(token: Seq<char>, transport: SessionTransport) -> Seq<char> {
    match transport {
        SessionTransport::Cookie => if token.contains('=') {
            token
        } else {
            COOKIE_NAME@ + "="@ + token
        },
        SessionTransport::Bearer => token,
    }
}

/// A time `secs` seconds from now in RFC 3339, if representable (reads the
/// clock; nothing is stated of the value).
#[verifier::external_body]
fn rfc3339_after(secs: u64) -> Option<String> {
    time::OffsetDateTime::now_utc()
        .checked_add(time::Duration::seconds(secs as i64))
        .and_then(|t| t.format(&time::format_description::well_known::Rfc3339).ok())
}

proof fn lemma_trim_idem(s: Seq<char>)
    ensures
        trim_seq(trim_seq(s)) == trim_seq(s),
{
    crate::semver::law_trim_is_idempotent(s);
}

impl StoredSession {
    /// A bearer session from a device-flow access token.
    pub fn from_device_token(access_token: &str, expires_in: Option<u64>) -> (r: StoredSession)
        ensures
            r.schema == 1,
            r.token@ == trim_seq(access_token@),
            r.transport == SessionTransport::Bearer,
            expires_in is None ==> r.expires_at is None,
            r.user is None,
    {
        let expires_at = match expires_in {
            Some(secs) => rfc3339_after(secs),
            None => None,
        };
        StoredSession {
            schema: 1,
            token: string_of(&trim_chars(&chars_of(access_token))),
            transport: SessionTransport::Bearer,
            expires_at,
            user: None,
        }
    }

    /// A session from a pasted credential: a cookie (`Cookie: …` or a
    /// `session_token=` pair) or a token (optionally `Bearer `-prefixed).
    pub fn from_pasted(raw: &str) -> (r: SdkResult<StoredSession>)
        ensures
            match r {
                Ok(s) => pasted_spec(raw@) == Some((s.token@, s.transport)) && s.schema == 1
                    && s.expires_at is None && s.user is None,
                Err(e) => pasted_spec(raw@) is None && (e matches Error::Auth(m) && m@
                    == "empty token"@),
            },
    {
        let t = trim_chars(&chars_of(raw));
        if t.len() == 0 {
            return Err(Error::auth("empty token"));
        }
        let ts = string_of(&t);
        proof {
            lemma_trim_idem(raw@);
        }
        if looks_like_cookie(ts.as_str()) {
            let rest = match strip_label(&t, "Cookie:") {
                Some(v) => v,
                None => match strip_label(&t, "cookie:") {
                    Some(v) => v,
                    None => t,
                },
            };
            return Ok(
                StoredSession {
                    schema: 1,
                    token: string_of(&trim_chars(&rest)),
                    transport: SessionTransport::Cookie,
                    expires_at: None,
                    user: None,
                },
            );
        }
        let rest = match strip_label(&t, "Bearer ") {
            Some(v) => v,
            None => match strip_label(&t, "bearer ") {
                Some(v) => v,
                None => t,
            },
        };
        Ok(
            StoredSession {
                schema: 1,
                token: string_of(&trim_chars(&rest)),
                transport: SessionTransport::Bearer,
                expires_at: None,
                user: None,
            },
        )
    }

    /// The value to authenticate a client with: the cookie pair or the raw
    /// bearer token.
    pub fn to_client_auth(&self) -> (r: String)
        ensures
            r@ == client_auth_spec(self.token@, self.transport),
    {
        match self.transport {
            SessionTransport::Cookie => {
                let t = chars_of(self.token.as_str());
                if contains_char(&t, '=') {
                    string_of(&t)
                } else {
                    let v = concat_chars(&chars_of(COOKIE_NAME), &chars_of("="));
                    string_of(&concat_chars(&v, &t))
                }
            },
            SessionTransport::Bearer => copy_string(self.token.as_str()),
        }
    }
}

/// Removes the stored session, if there is one.
pub fn delete_session<S: KeyStore>(store: &S) -> SdkResult<()> {
    if store.has_key(KEY_SESSION)? {
        store.secure_delete(KEY_SESSION)?;
    }
    Ok(())
}

/// Device-code grant the server issued.
#[derive(Clone, Debug)]
pub struct DeviceCodeResponse {
    pub device_code: String,
    pub user_code: String,
    pub verification_uri: String,
    pub verification_uri_complete: Option<String>,
    pub expires_in: Option<u64>,
    pub interval: Option<u64>,
}

/// Token the device flow issued.
#[derive(Clone, Debug)]
pub struct DeviceTokenIssued {
    pub access_token: String,
    pub token_type: Option<String>,
    pub expires_in: Option<u64>,
}

/// One poll of the device flow.
#[derive(Clone, Debug)]
pub enum DeviceTokenPoll {
    Pending,
    SlowDown,
    Issued(DeviceTokenIssued),
}

/// The `error` member of a JSON error body.
pub open spec fn oauth_error_spec(body: Seq<u8>) -> Option<Seq<char>> {
    match json_parse(body) {
        Some(v) => match get_spec(v, "error"@) {
            Some(JsonValue::Str(s)) => Some(s@),
            _ => None,
        },
        None => None,
    }
}

/// The OAuth `error` code of an error body, if it has one.
pub fn oauth_error_code(body: &str) -> (r: Option<String>)
    ensures
        match r {
            Some(s) => oauth_error_spec(vstd::utf8::encode_utf8(body@)) == Some(s@),
            None => oauth_error_spec(vstd::utf8::encode_utf8(body@)) is None,
        },
{
    let v = match parse_json(body.as_bytes()) {
        Some(v) => v,
        None => return None,
    };
    match get(&v, "error") {
        Some(JsonValue::Str(s)) => Some(copy_string(s.as_str())),
        _ => None,
    }
}

/// What a non-success device-token poll means: keep polling, slow down, or
/// one of the terminal errors. `None` when the body names no known code.
pub open spec fn device_poll_spec(code: Option<Seq<char>>) -> Option<Result<DeviceTokenPoll, Seq<char>>> {
    match code {
        Some(c) => if c == "authorization_pending"@ {
            Some(Ok(DeviceTokenPoll::Pending))
        } else if c == "slow_down"@ {
            Some(Ok(DeviceTokenPoll::SlowDown))
        } else if c == "expired_token"@ {
            Some(Err("device code expired — run auth login again"@))
        } else if c == "access_denied"@ {
            Some(Err("authorization denied"@))
        } else {
            None
        },
        None => None,
    }
}

/// Classifies a non-success device-token poll by its OAuth error code:
/// pending, slow down, expired, denied; `None` for anything else.
pub fn classify_device_poll(body: &str) -> (r: Option<SdkResult<DeviceTokenPoll>>)
    ensures
        match (r, device_poll_spec(oauth_error_spec(vstd::utf8::encode_utf8(body@)))) {
            (None, None) => true,
            (Some(Ok(DeviceTokenPoll::Pending)), Some(Ok(DeviceTokenPoll::Pending))) => true,
            (Some(Ok(DeviceTokenPoll::SlowDown)), Some(Ok(DeviceTokenPoll::SlowDown))) => true,
            (Some(Err(Error::Auth(m))), Some(Err(t))) => m@ == t,
            _ => false,
        },
{
    let code = match oauth_error_code(body) {
        Some(c) => c,
        None => return None,
    };
    let c = chars_of(code.as_str());
    if crate::text::chars_eq(&c, &chars_of("authorization_pending")) {
        Some(Ok(DeviceTokenPoll::Pending))
    } else if crate::text::chars_eq(&c, &chars_of("slow_down")) {
        Some(Ok(DeviceTokenPoll::SlowDown))
    } else if crate::text::chars_eq(&c, &chars_of("expired_token")) {
        Some(Err(Error::auth("device code expired — run auth login again")))
    } else if crate::text::chars_eq(&c, &chars_of("access_denied")) {
        Some(Err(Error::auth("authorization denied")))
    } else {
        None
    }
}

// ---------------------------------------------------------------------------
// The session file
// ---------------------------------------------------------------------------

/// The lowercase name of a transport.
pub open spec fn transport_text(t: SessionTransport) -> Seq<char> {
    match t {
        SessionTransport::Bearer => "bearer"@,
        SessionTransport::Cookie => "cookie"@,
    }
}

/// The user a session names, as texts.
pub open spec fn user_view(u: SessionUser) -> (Option<Seq<char>>, Option<Seq<char>>, Option<Seq<char>>) {
    (view_opt(u.id), view_opt(u.email), view_opt(u.name))
}

/// A stored session as values.
pub open spec fn session_view(s: StoredSession) -> (
    u32,
    Seq<char>,
    SessionTransport,
    Option<Seq<char>>,
    Option<(Option<Seq<char>>, Option<Seq<char>>, Option<Seq<char>>)>,
) {
    (
        s.schema,
        s.token@,
        s.transport,
        view_opt(s.expires_at),
        match s.user {
            Some(u) => Some(user_view(u)),
            None => None,
        },
    )
}

/// The optional-text members of a user object that reads.
pub open spec fn user_read(v: JsonValue) -> Option<(Option<Seq<char>>, Option<Seq<char>>, Option<Seq<char>>)> {
    match v {
        JsonValue::Object(mm) => {
            let m = mm@;
            match (opt_text(m, "id"@), opt_text(m, "email"@), opt_text(m, "name"@)) {
                (Ok(id), Ok(email), Ok(name)) => Some((id, email, name)),
                _ => None,
            }
        },
        _ => None,
    }
}

/// The schema member: absent is the current schema; otherwise a number that
/// fits a `u32`.
pub open spec fn schema_read(m: Seq<(String, JsonValue)>) -> Option<u32> {
    match member_of(m, "schema"@) {
        None => Some(1),
        Some(JsonValue::Number(n)) => match n.as_u64 {
            Some(x) => if x <= u32::MAX {
                Some(x as u32)
            } else {
                None
            },
            None => None,
        },
        _ => None,
    }
}

/// The transport member.
pub open spec fn transport_read(m: Seq<(String, JsonValue)>) -> Option<SessionTransport> {
    match member_of(m, "transport"@) {
        Some(JsonValue::Str(t)) => if t@ == "bearer"@ {
            Some(SessionTransport::Bearer)
        } else if t@ == "cookie"@ {
            Some(SessionTransport::Cookie)
        } else {
            None
        },
        _ => None,
    }
}

/// What a session document holds, when it has the shape.
pub open spec fn session_read(v: JsonValue) -> Option<
    (u32, Seq<char>, SessionTransport, Option<Seq<char>>, Option<(Option<Seq<char>>, Option<Seq<char>>, Option<Seq<char>>)>),
> {
    match v {
        JsonValue::Object(mm) => {
            let m = mm@;
            let user = match member_of(m, "user"@) {
                None => Some(None),
                Some(JsonValue::Null) => Some(None),
                Some(u) => match user_read(u) {
                    Some(x) => Some(Some(x)),
                    None => None,
                },
            };
            match (schema_read(m), req_text(m, "token"@), transport_read(m), opt_text(m, "expiresAt"@), user) {
                (Some(schema), Ok(token), Some(transport), Ok(expires_at), Some(user)) => Some(
                    (schema, token, transport, expires_at, user),
                ),
                _ => None,
            }
        },
        _ => None,
    }
}

fn session_json_error(what: &str, key: &str) -> (e: Error)
    ensures
        e matches Error::Json(m) && m@ == what@ + key@,
{
    let m = concat_chars(&chars_of(what), &chars_of(key));
    Error::Json(string_of(&m))
}

fn read_opt(m: &Vec<(String, JsonValue)>, key: &str) -> (r: SdkResult<Option<String>>)
    ensures
        match opt_text(m@, key@) {
            Ok(o) => r matches Ok(x) && view_opt(x) == o,
            Err(()) => r matches Err(e) && e is Json,
        },
{
    match member(m, key) {
        None => Ok(None),
        Some(JsonValue::Null) => Ok(None),
        Some(JsonValue::Str(s)) => Ok(Some(copy_string(s.as_str()))),
        _ => Err(session_json_error("invalid type: expected a string for ", key)),
    }
}

/// Reads a stored session from its JSON document; `Json` when the document
/// does not have the shape.
pub fn session_from_json_value(v: &JsonValue) -> (r: SdkResult<StoredSession>)
    ensures
        match session_read(*v) {
            Some(t) => r matches Ok(s) && session_view(s) == t,
            None => r matches Err(e) && e is Json,
        },
{
    let m = match v {
        JsonValue::Object(m) => m,
        _ => return Err(session_json_error("invalid type: expected an object for ", "session")),
    };
    let schema: u32 = match member(m, "schema") {
        None => 1,
        Some(JsonValue::Number(n)) => match n.as_u64 {
            Some(x) => {
                if x <= 4294967295u64 {
                    x as u32
                } else {
                    return Err(session_json_error("invalid value: expected u32 for ", "schema"));
                }
            },
            None => return Err(session_json_error("invalid value: expected u32 for ", "schema")),
        },
        Some(_) => return Err(session_json_error("invalid type: expected u32 for ", "schema")),
    };
    let token = match member(m, "token") {
        Some(JsonValue::Str(t)) => copy_string(t.as_str()),
        Some(_) => return Err(session_json_error("invalid type: expected a string for ", "token")),
        None => return Err(session_json_error("missing field ", "token")),
    };
    let transport = match member(m, "transport") {
        Some(JsonValue::Str(t)) => {
            if crate::text::chars_eq(&chars_of(t.as_str()), &chars_of("bearer")) {
                SessionTransport::Bearer
            } else if crate::text::chars_eq(&chars_of(t.as_str()), &chars_of("cookie")) {
                SessionTransport::Cookie
            } else {
                return Err(session_json_error("unknown variant for ", "transport"));
            }
        },
        Some(_) => return Err(session_json_error("invalid type: expected a string for ", "transport")),
        None => return Err(session_json_error("missing field ", "transport")),
    };
    let expires_at = read_opt(m, "expiresAt")?;
    let user = match member(m, "user") {
        None => None,
        Some(JsonValue::Null) => None,
        Some(JsonValue::Object(um)) => {
            let id = read_opt(um, "id")?;
            let email = read_opt(um, "email")?;
            let name = read_opt(um, "name")?;
            Some(SessionUser { id, email, name })
        },
        Some(_) => return Err(session_json_error("invalid type: expected an object for ", "user")),
    };
    Ok(StoredSession { schema, token, transport, expires_at, user })
}

/// The member names of a session document, in order.
pub open spec fn session_keys(s: StoredSession) -> Seq<Seq<char>> {
    seq!["schema"@, "token"@, "transport"@] + if s.expires_at is Some {
        seq!["expiresAt"@]
    } else {
        Seq::<Seq<char>>::empty()
    } + if s.user is Some {
        seq!["user"@]
    } else {
        Seq::<Seq<char>>::empty()
    }
}

/// `v` is the document of user `u`: its present members only.
pub open spec fn records_user(v: JsonValue, u: SessionUser) -> bool {
    match v {
        JsonValue::Object(mm) => {
            let m = mm@;
            &&& match u.id {
                Some(x) => text_member_is(m, "id"@, x@),
                None => member_of(m, "id"@) is None,
            }
            &&& match u.email {
                Some(x) => text_member_is(m, "email"@, x@),
                None => member_of(m, "email"@) is None,
            }
            &&& match u.name {
                Some(x) => text_member_is(m, "name"@, x@),
                None => member_of(m, "name"@) is None,
            }
        },
        _ => false,
    }
}

/// `v` is the document of session `s`: camelCase members in field order,
/// the absent optional ones left out.
pub open spec fn records_session(v: JsonValue, s: StoredSession) -> bool {
    match v {
        JsonValue::Object(mm) => {
            let m = mm@;
            &&& m.map_values(|p: (String, JsonValue)| p.0@) == session_keys(s)
            &&& member_of(m, "schema"@) matches Some(JsonValue::Number(n)) && n.as_u64 == Some(s.schema as u64)
            &&& text_member_is(m, "token"@, s.token@)
            &&& text_member_is(m, "transport"@, transport_text(s.transport))
            &&& match s.expires_at {
                Some(x) => text_member_is(m, "expiresAt"@, x@),
                None => member_of(m, "expiresAt"@) is None,
            }
            &&& match s.user {
                Some(u) => member_of(m, "user"@) matches Some(uv) && records_user(uv, u),
                None => member_of(m, "user"@) is None,
            }
        },
        _ => false,
    }
}

fn user_document(u: &SessionUser) -> (r: JsonValue)
    ensures
        records_user(r, *u),
{
    proof {
        reveal_strlit("id");
        reveal_strlit("email");
        reveal_strlit("name");
        assert("id"@.len() == 2);
        assert("email"@.len() == 5);
        assert("name"@.len() == 4);
    }
    let mut m: Vec<(String, JsonValue)> = Vec::new();
    if let Some(x) = &u.id {
        push_member(&mut m, "id", JsonValue::Str(copy_string(x.as_str())));
    }
    if let Some(x) = &u.email {
        push_member(&mut m, "email", JsonValue::Str(copy_string(x.as_str())));
    }
    if let Some(x) = &u.name {
        push_member(&mut m, "name", JsonValue::Str(copy_string(x.as_str())));
    }
    JsonValue::Object(m)
}

/// The JSON document of a stored session.
#[verifier::spinoff_prover]
pub fn session_document(s: &StoredSession) -> (r: JsonValue)
    ensures
        records_session(r, *s),
{
    proof {
        reveal_strlit("schema");
        reveal_strlit("token");
        reveal_strlit("transport");
        reveal_strlit("expiresAt");
        reveal_strlit("user");
        assert("schema"@.len() == 6);
        assert("token"@.len() == 5);
        assert("transport"@.len() == 9);
        assert("expiresAt"@.len() == 9);
        assert("user"@.len() == 4);
        assert("transport"@[0] == 't');
        assert("expiresAt"@[0] == 'e');
    }
    let mut m: Vec<(String, JsonValue)> = Vec::new();
    assert(m@.map_values(|p: (String, JsonValue)| p.0@) =~= Seq::<Seq<char>>::empty());
    push_member(&mut m, "schema", JsonValue::Number(number_of_u64(s.schema as u64)));
    push_member(&mut m, "token", JsonValue::Str(copy_string(s.token.as_str())));
    let t = match s.transport {
        SessionTransport::Bearer => "bearer",
        SessionTransport::Cookie => "cookie",
    };
    push_member(&mut m, "transport", JsonValue::Str(copy_string(t)));
    if let Some(x) = &s.expires_at {
        push_member(&mut m, "expiresAt", JsonValue::Str(copy_string(x.as_str())));
    }
    if let Some(u) = &s.user {
        push_member(&mut m, "user", user_document(u));
    }
    assert(m@.map_values(|p: (String, JsonValue)| p.0@) =~= session_keys(*s));
    JsonValue::Object(m)
}

/// Reading back the document written for a session gives that session.
pub proof fn lemma_session_document_reads_back(v: JsonValue, s: StoredSession)
    requires
        records_session(v, s),
    ensures
        session_read(v) == Some(session_view(s)),
{
    reveal_strlit("bearer");
    reveal_strlit("cookie");
    assert("bearer"@[0] == 'b');
    assert("cookie"@[0] == 'c');
    assert((s.schema as u64) <= u32::MAX);
}

/// The stored session, if there is one; `Json` when it cannot be read.
pub fn load_session<S: KeyStore>(store: &S) -> (r: SdkResult<Option<StoredSession>>)
    ensures
        r matches Ok(Some(s)) ==> exists|bytes: Seq<u8>|
            #[trigger] stored_session_text(crate::keystore::utf8_lossy(bytes), s),
{
    match store.load_string(KEY_SESSION)? {
        None => Ok(None),
        Some(raw) => match parse_json_detailed(raw.as_str().as_bytes()) {
            Ok(v) => {
                let s = session_from_json_value(&v)?;
                proof {
                    let b = choose|bytes: Seq<u8>| raw@ == #[trigger] crate::keystore::utf8_lossy(bytes);
                    assert(stored_session_text(crate::keystore::utf8_lossy(b), s));
                }
                Ok(Some(s))
            },
            Err(detail) => Err(Error::Json(detail)),
        },
    }
}

/// `text` is a session file of session `s`.
pub open spec fn stored_session_text(text: Seq<char>, s: StoredSession) -> bool {
    json_parse(encode_utf8(text)) matches Some(v) && session_read(v) == Some(session_view(s))
}

/// Stores the session (indented JSON).
pub fn save_session<S: KeyStore>(store: &S, session: &StoredSession) -> SdkResult<()> {
    let doc = session_document(session);
    store.save_string(KEY_SESSION, render_json_pretty(&doc).as_str())
}

// ---------------------------------------------------------------------------
// Answers of the sign-in endpoints
// ---------------------------------------------------------------------------

/// Whether a body can be cut for an error message: short enough, or with a
/// character boundary at the cut.
pub open spec fn body_cut_ok(body: Seq<char>) -> bool {
    encode_utf8(body).len() <= MAX_BODY_BYTES || is_char_boundary(encode_utf8(body), MAX_BODY_BYTES as int)
}

/// The human description of a JSON error body: `error_description` when
/// that member is there (and a string), else a string `message`.
pub open spec fn error_description_spec(body: Seq<char>) -> Option<Seq<char>> {
    match json_parse(encode_utf8(body)) {
        Some(v) => match get_spec(v, "error_description"@) {
            Some(JsonValue::Str(d)) => Some(d@),
            Some(_) => None,
            None => match get_spec(v, "message"@) {
                Some(JsonValue::Str(m)) => Some(m@),
                _ => None,
            },
        },
        None => None,
    }
}

/// The error a failed sign-in call reports: `Auth` when the body names an
/// OAuth error code, otherwise `Http` with the description or the cut body.
pub open spec fn device_http_error_is(e: Error, status: u16, body: Seq<char>, path: Seq<char>) -> bool {
    match (oauth_error_spec(encode_utf8(body)), error_description_spec(body)) {
        (Some(code), Some(desc)) => e matches Error::Auth(m) && m@ == path + ": "@ + code + " ("@ + desc + ")"@,
        (Some(code), None) => e matches Error::Auth(m) && m@ == path + ": "@ + code,
        (None, Some(desc)) => e matches Error::Http { status: s, body: b } && s == status && b@ == path + ": "@
            + desc,
        (None, None) => e matches Error::Http { status: s, body: b } && s == status && b@ == path + ": "@
            + truncate_body_spec(body),
    }
}

fn error_description(body: &str) -> (r: Option<String>)
    ensures
        match error_description_spec(body@) {
            Some(d) => r matches Some(x) && x@ == d,
            None => r is None,
        },
{
    let v = match parse_json(body.as_bytes()) {
        Some(v) => v,
        None => return None,
    };
    match get(&v, "error_description") {
        Some(JsonValue::Str(d)) => Some(copy_string(d.as_str())),
        Some(_) => None,
        None => match get(&v, "message") {
            Some(JsonValue::Str(m)) => Some(copy_string(m.as_str())),
            _ => None,
        },
    }
}

/// The error of a failed sign-in call to `path` (see
/// [`device_http_error_is`]).
pub fn device_http_error(status: u16, body: &str, path: &str) -> (e: Error)
    requires
        body_cut_ok(body@),
    ensures
        device_http_error_is(e, status, body@, path@),
{
    let code = oauth_error_code(body);
    let desc = error_description(body);
    let head = concat_chars(&chars_of(path), &chars_of(": "));
    match (code, desc) {
        (Some(c), Some(d)) => {
            let m = concat_chars(&head, &chars_of(c.as_str()));
            let m = concat_chars(&m, &chars_of(" ("));
            let m = concat_chars(&m, &chars_of(d.as_str()));
            let m = concat_chars(&m, &chars_of(")"));
            Error::Auth(string_of(&m))
        },
        (Some(c), None) => Error::Auth(string_of(&concat_chars(&head, &chars_of(c.as_str())))),
        (None, Some(d)) => Error::Http { status, body: string_of(&concat_chars(&head, &chars_of(d.as_str()))) },
        (None, None) => Error::Http {
            status,
            body: string_of(&concat_chars(&head, &chars_of(truncate_body(body).as_str()))),
        },
    }
}

/// Whether an HTTP status is a success (2xx).
pub open spec fn success_status(status: u16) -> bool {
    200 <= status < 300
}

/// An optional count member: absent or `null` is none, a number that fits
/// a `u64` is the count, anything else does not read.
pub open spec fn opt_count(m: Seq<(String, JsonValue)>, key: Seq<char>) -> Result<Option<u64>, ()> {
    match member_of(m, key) {
        None => Ok(None),
        Some(JsonValue::Null) => Ok(None),
        Some(JsonValue::Number(n)) => match n.as_u64 {
            Some(x) => Ok(Some(x)),
            None => Err(()),
        },
        _ => Err(()),
    }
}

fn read_count(m: &Vec<(String, JsonValue)>, key: &str) -> (r: Result<Option<u64>, String>)
    ensures
        match opt_count(m@, key@) {
            Ok(o) => r == Ok::<Option<u64>, String>(o),
            Err(()) => r is Err,
        },
{
    match member(m, key) {
        None => Ok(None),
        Some(JsonValue::Null) => Ok(None),
        Some(JsonValue::Number(n)) => match n.as_u64 {
            Some(x) => Ok(Some(x)),
            None => Err(string_of(&concat_chars(&chars_of("invalid value: expected u64 for "), &chars_of(key)))),
        },
        _ => Err(string_of(&concat_chars(&chars_of("invalid type: expected u64 for "), &chars_of(key)))),
    }
}

fn read_text(m: &Vec<(String, JsonValue)>, key: &str) -> (r: Result<String, String>)
    ensures
        match req_text(m@, key@) {
            Ok(t) => r matches Ok(x) && x@ == t,
            Err(()) => r is Err,
        },
{
    match member(m, key) {
        Some(JsonValue::Str(s)) => Ok(copy_string(s.as_str())),
        Some(_) => Err(string_of(&concat_chars(&chars_of("invalid type: expected a string for "), &chars_of(key)))),
        None => Err(string_of(&concat_chars(&chars_of("missing field "), &chars_of(key)))),
    }
}

fn read_opt_text(m: &Vec<(String, JsonValue)>, key: &str) -> (r: Result<Option<String>, String>)
    ensures
        match opt_text(m@, key@) {
            Ok(o) => r matches Ok(x) && view_opt(x) == o,
            Err(()) => r is Err,
        },
{
    match member(m, key) {
        None => Ok(None),
        Some(JsonValue::Null) => Ok(None),
        Some(JsonValue::Str(s)) => Ok(Some(copy_string(s.as_str()))),
        _ => Err(string_of(&concat_chars(&chars_of("invalid type: expected a string for "), &chars_of(key)))),
    }
}

/// A device-code grant as values, when the document has its shape.
pub open spec fn device_code_read(v: JsonValue) -> Option<
    (Seq<char>, Seq<char>, Seq<char>, Option<Seq<char>>, Option<u64>, Option<u64>),
> {
    match v {
        JsonValue::Object(mm) => {
            let m = mm@;
            match (
                req_text(m, "device_code"@),
                req_text(m, "user_code"@),
                req_text(m, "verification_uri"@),
                opt_text(m, "verification_uri_complete"@),
                opt_count(m, "expires_in"@),
                opt_count(m, "interval"@),
            ) {
                (Ok(a), Ok(b), Ok(c), Ok(d), Ok(e), Ok(f)) => Some((a, b, c, d, e, f)),
                _ => None,
            }
        },
        _ => None,
    }
}

fn device_code_from(v: &JsonValue) -> (r: Result<DeviceCodeResponse, String>)
    ensures
        match device_code_read(*v) {
            Some(t) => r matches Ok(d) && (d.device_code@, d.user_code@, d.verification_uri@, view_opt(
                d.verification_uri_complete,
            ), d.expires_in, d.interval) == t,
            None => r is Err,
        },
{
    let m = match v {
        JsonValue::Object(m) => m,
        _ => return Err(string_of(&chars_of("invalid type: expected a device code object"))),
    };
    let device_code = read_text(m, "device_code")?;
    let user_code = read_text(m, "user_code")?;
    let verification_uri = read_text(m, "verification_uri")?;
    let verification_uri_complete = read_opt_text(m, "verification_uri_complete")?;
    let expires_in = read_count(m, "expires_in")?;
    let interval = read_count(m, "interval")?;
    Ok(DeviceCodeResponse { device_code, user_code, verification_uri, verification_uri_complete, expires_in, interval })
}

/// What the device-code endpoint answered: the grant on success, the
/// sign-in error otherwise; `Auth` when a successful body is not a grant.
pub fn device_code_answer(status: u16, body: &str) -> (r: SdkResult<DeviceCodeResponse>)
    requires
        !success_status(status) || !(json_parse(encode_utf8(body@)) matches Some(v) && device_code_read(v) is Some)
            ==> body_cut_ok(body@),
    ensures
        !success_status(status) ==> (r matches Err(e) && device_http_error_is(e, status, body@, "device/code"@)),
        success_status(status) ==> match json_parse(encode_utf8(body@)) {
            Some(v) => match device_code_read(v) {
                Some(t) => r matches Ok(d) && (d.device_code@, d.user_code@, d.verification_uri@, view_opt(
                    d.verification_uri_complete,
                ), d.expires_in, d.interval) == t,
                None => r matches Err(Error::Auth(_)),
            },
            None => r matches Err(Error::Auth(_)),
        },
{
    if !(200 <= status && status < 300) {
        return Err(device_http_error(status, body, "device/code"));
    }
    let parsed = match parse_json_detailed(body.as_bytes()) {
        Ok(v) => device_code_from(&v),
        Err(detail) => Err(detail),
    };
    match parsed {
        Ok(d) => Ok(d),
        Err(detail) => {
            let m = concat_chars(&chars_of("device/code JSON: "), &chars_of(detail.as_str()));
            let m = concat_chars(&m, &chars_of(": "));
            let m = concat_chars(&m, &chars_of(truncate_body(body).as_str()));
            Err(Error::Auth(string_of(&m)))
        },
    }
}

/// Whether an answer body may be cut for an error message (see
/// [`body_cut_ok`]).
pub fn body_cut_allowed(body: &str) -> (r: bool)
    ensures
        r == body_cut_ok(body@),
{
    body.as_bytes().len() <= MAX_BODY_BYTES || body.is_char_boundary(MAX_BODY_BYTES)
}

/// Whether a successful device-code answer's body reads as one without
/// quoting the body.
pub fn device_code_body_reads(body: &str) -> (r: bool)
    ensures
        r == (json_parse(encode_utf8(body@)) matches Some(v) && device_code_read(v) is Some),
{
    match parse_json_detailed(body.as_bytes()) {
        Ok(v) => device_code_from(&v).is_ok(),
        Err(_) => false,
    }
}

/// [`device_code_answer`] where the body can be quoted as it needs;
/// `None` where the answer would have to cut the body inside a character.
pub fn device_code_reply(status: u16, body: &str) -> (r: Option<SdkResult<DeviceCodeResponse>>)
    ensures
        match r {
            None => (!success_status(status) || !(json_parse(encode_utf8(body@)) matches Some(v)
                && device_code_read(v) is Some)) && !body_cut_ok(body@),
            Some(x) => (success_status(status) ==> match json_parse(encode_utf8(body@)) {
                Some(v) => match device_code_read(v) {
                    Some(t) => x matches Ok(d) && (d.device_code@, d.user_code@, d.verification_uri@, view_opt(
                        d.verification_uri_complete,
                    ), d.expires_in, d.interval) == t,
                    None => x matches Err(Error::Auth(_)),
                },
                None => x matches Err(Error::Auth(_)),
            }) && (!success_status(status) ==> (x matches Err(e) && device_http_error_is(e, status, body@, "device/code"@))),
        },
{
    let needs_cut = !(200 <= status && status < 300) || !device_code_body_reads(body);
    if needs_cut && !body_cut_allowed(body) {
        return None;
    }
    Some(device_code_answer(status, body))
}

/// An issued token as values, when the document has its shape.
pub open spec fn token_read(v: JsonValue) -> Option<(Seq<char>, Option<Seq<char>>, Option<u64>)> {
    match v {
        JsonValue::Object(mm) => {
            let m = mm@;
            match (req_text(m, "access_token"@), opt_text(m, "token_type"@), opt_count(m, "expires_in"@)) {
                (Ok(a), Ok(b), Ok(c)) => Some((a, b, c)),
                _ => None,
            }
        },
        _ => None,
    }
}

/// What one poll of the device-token endpoint answered: the token on
/// success (it must not be empty); otherwise pending, slow down, or the
/// errors of the OAuth codes, else the sign-in error.
pub fn device_token_answer(status: u16, body: &str) -> (r: SdkResult<DeviceTokenPoll>)
    requires
        !success_status(status) ==> body_cut_ok(body@),
    ensures
        success_status(status) ==> match json_parse(encode_utf8(body@)) {
            Some(v) => match token_read(v) {
                Some((token, kind, expires)) => if token.len() == 0 {
                    r matches Err(Error::Auth(m)) && m@ == "device/token returned an empty access_token"@
                } else {
                    r matches Ok(DeviceTokenPoll::Issued(t)) && t.access_token@ == token && view_opt(t.token_type)
                        == kind && t.expires_in == expires
                },
                None => r matches Err(Error::Auth(_)),
            },
            None => r matches Err(Error::Auth(_)),
        },
        !success_status(status) ==> match device_poll_spec(oauth_error_spec(encode_utf8(body@))) {
            Some(Ok(DeviceTokenPoll::Pending)) => r matches Ok(DeviceTokenPoll::Pending),
            Some(Ok(DeviceTokenPoll::SlowDown)) => r matches Ok(DeviceTokenPoll::SlowDown),
            Some(Err(t)) => r matches Err(Error::Auth(m)) && m@ == t,
            Some(Ok(DeviceTokenPoll::Issued(_))) => false,
            None => r matches Err(e) && device_http_error_is(e, status, body@, "device/token"@),
        },
{
    if 200 <= status && status < 300 {
        let parsed: Result<DeviceTokenIssued, String> = match parse_json_detailed(body.as_bytes()) {
            Ok(JsonValue::Object(m)) => {
                match (read_text(&m, "access_token"), read_opt_text(&m, "token_type"), read_count(&m, "expires_in")) {
                    (Ok(access_token), Ok(token_type), Ok(expires_in)) => Ok(
                        DeviceTokenIssued { access_token, token_type, expires_in },
                    ),
                    (Err(e), _, _) => Err(e),
                    (_, Err(e), _) => Err(e),
                    (_, _, Err(e)) => Err(e),
                }
            },
            Ok(_) => Err(string_of(&chars_of("invalid type: expected a token object"))),
            Err(detail) => Err(detail),
        };
        return match parsed {
            Ok(issued) => {
                if issued.access_token.as_str().is_empty() {
                    Err(Error::auth("device/token returned an empty access_token"))
                } else {
                    Ok(DeviceTokenPoll::Issued(issued))
                }
            },
            Err(detail) => Err(
                Error::Auth(string_of(&concat_chars(&chars_of("device/token JSON: "), &chars_of(detail.as_str())))),
            ),
        };
    }
    match classify_device_poll(body) {
        Some(answer) => answer,
        None => Err(device_http_error(status, body, "device/token")),
    }
}

/// What the session endpoint says of the signed-in user.
#[derive(Debug)]
pub struct GetSessionResponse {
    pub user: Option<SessionUser>,
    pub session: Option<JsonValue>,
}

/// What the session endpoint answered: no session on 401/403 or an empty
/// (or `null`) body, the sign-in error on other failures, else the user it
/// names; `Auth` when the body does not read.
pub fn get_session_answer(status: u16, body: &str) -> (r: SdkResult<Option<GetSessionResponse>>)
    requires
        status != 401 && status != 403 && !success_status(status) ==> body_cut_ok(body@),
    ensures
        (status == 401 || status == 403) ==> r matches Ok(None),
        status != 401 && status != 403 && !success_status(status) ==> (r matches Err(e) && device_http_error_is(
            e,
            status,
            body@,
            "get-session"@,
        )),
        success_status(status) && (trim_seq(body@).len() == 0 || trim_seq(body@) == "null"@) ==> r matches Ok(None),
        r matches Ok(Some(g)) ==> success_status(status) && match json_parse(encode_utf8(trim_seq(body@))) {
            Some(v) => match g.user {
                Some(u) => get_spec(v, "user"@) matches Some(uv) && user_read(uv) == Some(user_view(u)),
                None => get_spec(v, "user"@) is None || get_spec(v, "user"@) == Some(JsonValue::Null),
            },
            None => false,
        },
{
    if status == 401 || status == 403 {
        return Ok(None);
    }
    if !(200 <= status && status < 300) {
        return Err(device_http_error(status, body, "get-session"));
    }
    let trimmed = trim_chars(&chars_of(body));
    if trimmed.len() == 0 || crate::text::chars_eq(&trimmed, &chars_of("null")) {
        return Ok(None);
    }
    let text = string_of(&trimmed);
    let v = match parse_json_detailed(text.as_str().as_bytes()) {
        Ok(v) => v,
        Err(detail) => return Err(
            Error::Auth(string_of(&concat_chars(&chars_of("get-session JSON: "), &chars_of(detail.as_str())))),
        ),
    };
    let m = match &v {
        JsonValue::Object(m) => m,
        _ => return Err(Error::auth("get-session JSON: invalid type: expected a session object")),
    };
    let user = match member(m, "user") {
        None => None,
        Some(JsonValue::Null) => None,
        Some(JsonValue::Object(um)) => {
            match (read_opt_text(um, "id"), read_opt_text(um, "email"), read_opt_text(um, "name")) {
                (Ok(id), Ok(email), Ok(name)) => Some(SessionUser { id, email, name }),
                _ => return Err(Error::auth("get-session JSON: invalid user")),
            }
        },
        Some(_) => return Err(Error::auth("get-session JSON: invalid type: expected a user object")),
    };
    let session = match member(m, "session") {
        None => None,
        Some(JsonValue::Null) => None,
        Some(s) => Some(crate::json::copy_json(s)),
    };
    Ok(Some(GetSessionResponse { user, session }))
}

/// What signing out answered: done on success or 401, the sign-in error
/// otherwise.
pub fn sign_out_answer(status: u16, body: &str) -> (r: SdkResult<()>)
    requires
        !(success_status(status) || status == 401) ==> body_cut_ok(body@),
    ensures
        (success_status(status) || status == 401) ==> r is Ok,
        !(success_status(status) || status == 401) ==> (r matches Err(e) && device_http_error_is(
            e,
            status,
            body@,
            "sign-out"@,
        )),
{
    if (200 <= status && status < 300) || status == 401 {
        Ok(())
    } else {
        Err(device_http_error(status, body, "sign-out"))
    }
}

/// The check every platform call makes of its answer: a success status, or
/// `Http` with the status and the cut body.
pub fn http_status_check(status: u16, body: &str) -> (r: SdkResult<()>)
    requires
        !success_status(status) ==> body_cut_ok(body@),
    ensures
        success_status(status) ==> r is Ok,
        !success_status(status) ==> (r matches Err(Error::Http { status: s, body: b }) && s == status && b@
            == truncate_body_spec(body@)),
{
    if 200 <= status && status < 300 {
        Ok(())
    } else {
        Err(Error::Http { status, body: truncate_body(body) })
    }
}

} // verus!
