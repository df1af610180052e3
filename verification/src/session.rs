//! Persisted account session and the session manager.

use vstd::prelude::*;
use vstd::utf8::encode_utf8;
use crate::config::SdkConfig;
use crate::error::{ErrorCode, TwoKeyError, TwoKeyResult};
use crate::json::{json_parse, member, member_of, parse_json_detailed, render_json, JsonValue};
use crate::license::{outcome_view, verify_spec, LicenseVerifier, VerifyOutcome};
use crate::models::{view_opt, LicensePayload, PayloadV};
use crate::ports::{Clock, Storage, SystemClock};
use crate::text::{chars_of, concat_chars, copy_string, string_of};

verus! {

/// A license fetch that brings no token: the call failed, or the server
/// answered neither 304 nor a 200 whose body holds a signed token.
pub open spec fn license_fetch_fails(resp: TwoKeyResult<crate::api::HttpResponse>) -> bool {
    match resp {
        Err(_) => true,
        Ok(h) => h.status != 304 && (h.status != 200 || match json_parse(h.body@) {
            Some(b) => crate::api::signed_token_spec(crate::api::unwrap_data_spec(b)) is None,
            None => true,
        }),
    }
}

/// A 200 license answer whose signed token verifies against `pem` at no time.
pub open spec fn license_answer_rejected(pem: Seq<char>, resp: TwoKeyResult<crate::api::HttpResponse>) -> bool {
    &&& resp matches Ok(h)
    &&& h.status == 200
    &&& json_parse(h.body@) matches Some(b)
    &&& crate::api::signed_token_spec(crate::api::unwrap_data_spec(b)) matches Some(tok)
    &&& forall|now: i64| #[trigger] verify_spec(pem, tok, now, None) is Err
}

/// Cached account billing session.
#[derive(Clone, Debug, PartialEq)]
pub struct AccountSession {
    pub account_key: String,
    pub access_token: Option<String>,
    pub license_jwt: Option<String>,
    pub license_etag: Option<String>,
    pub paying_party_id_header: Option<String>,
}

pub struct SessionV {
    pub account_key: Seq<char>,
    pub access_token: Option<Seq<char>>,
    pub license_jwt: Option<Seq<char>>,
    pub license_etag: Option<Seq<char>>,
    pub paying_party_id_header: Option<Seq<char>>,
}

impl View for AccountSession {
    type V = SessionV;

    open spec fn view(&self) -> SessionV {
        SessionV {
            account_key: self.account_key@,
            access_token: view_opt(self.access_token),
            license_jwt: view_opt(self.license_jwt),
            license_etag: view_opt(self.license_etag),
            paying_party_id_header: view_opt(self.paying_party_id_header),
        }
    }
}

impl AccountSession {
    /// An empty session for an account.
    pub fn new(account_key: &str) -> (r: AccountSession)
        ensures
            r@ == (SessionV {
                account_key: account_key@,
                access_token: None,
                license_jwt: None,
                license_etag: None,
                paying_party_id_header: None,
            }),
    {
        AccountSession {
            account_key: copy_string(account_key),
            access_token: None,
            license_jwt: None,
            license_etag: None,
            paying_party_id_header: None,
        }
    }
}

// ---------------------------------------------------------------------------
// JSON form
// ---------------------------------------------------------------------------

/// An optional string member: absent or `null` is none; a string is some;
/// any other value makes the session invalid (`Err`).
pub open spec fn opt_string_member(m: Seq<(String, JsonValue)>, key: Seq<char>) -> Result<
    Option<Seq<char>>,
    (),
> {
    match member_of(m, key) {
        None => Ok(None),
        Some(JsonValue::Null) => Ok(None),
        Some(JsonValue::Str(s)) => Ok(Some(s@)),
        _ => Err(()),
    }
}

/// The session a JSON document holds (object with a string `account_key`
/// and optional strings `access_token`, `license_jwt`, `license_etag`,
/// `paying_party_id_header`; other members are ignored).
pub open spec fn session_from_json_spec(v: JsonValue) -> Option<SessionV> {
    match v {
        JsonValue::Object(mm) => {
            let m = mm@;
            match (
                member_of(m, "account_key"@),
                opt_string_member(m, "access_token"@),
                opt_string_member(m, "license_jwt"@),
                opt_string_member(m, "license_etag"@),
                opt_string_member(m, "paying_party_id_header"@),
            ) {
                (Some(JsonValue::Str(k)), Ok(a), Ok(j), Ok(e), Ok(p)) => Some(
                    SessionV {
                        account_key: k@,
                        access_token: a,
                        license_jwt: j,
                        license_etag: e,
                        paying_party_id_header: p,
                    },
                ),
                _ => None,
            }
        },
        _ => None,
    }
}

fn opt_string(m: &Vec<(String, JsonValue)>, key: &str) -> (r: Result<Option<String>, ()>)
    ensures
        match r {
            Ok(o) => opt_string_member(m@, key@) == Ok::<Option<Seq<char>>, ()>(view_opt(o)),
            Err(_) => opt_string_member(m@, key@) is Err,
        },
{
    match member(m, key) {
        None => Ok(None),
        Some(JsonValue::Null) => Ok(None),
        Some(JsonValue::Str(s)) => Ok(Some(copy_string(s.as_str()))),
        _ => Err(()),
    }
}

fn invalid_session(detail: &str) -> (r: TwoKeyError)
    ensures
        r.code == ErrorCode::Unknown,
        r.message@ == "Invalid session JSON"@,
        r.detail matches Some(d) && d@ == detail@,
{
    TwoKeyError::new(ErrorCode::Unknown, "Invalid session JSON").with_detail(detail)
}

/// Reads a session from its JSON document; `Unknown` / "Invalid session
/// JSON" otherwise.
pub fn session_from_json(v: &JsonValue) -> (r: TwoKeyResult<AccountSession>)
    ensures
        match r {
            Ok(s) => session_from_json_spec(*v) == Some(s@),
            Err(e) => session_from_json_spec(*v) is None && e.code == ErrorCode::Unknown
                && e.message@ == "Invalid session JSON"@ && e.detail is Some,
        },
{
    let m = match v {
        JsonValue::Object(m) => m,
        _ => return Err(invalid_session("expected a JSON object")),
    };
    let account_key = match member(m, "account_key") {
        Some(JsonValue::Str(s)) => copy_string(s.as_str()),
        Some(_) => return Err(invalid_session("invalid type for `account_key`, expected a string")),
        None => return Err(invalid_session("missing field `account_key`")),
    };
    let access_token = match opt_string(m, "access_token") {
        Ok(o) => o,
        Err(()) => return Err(invalid_session("invalid type for `access_token`, expected a string")),
    };
    let license_jwt = match opt_string(m, "license_jwt") {
        Ok(o) => o,
        Err(()) => return Err(invalid_session("invalid type for `license_jwt`, expected a string")),
    };
    let license_etag = match opt_string(m, "license_etag") {
        Ok(o) => o,
        Err(()) => return Err(invalid_session("invalid type for `license_etag`, expected a string")),
    };
    let paying_party_id_header = match opt_string(m, "paying_party_id_header") {
        Ok(o) => o,
        Err(()) => return Err(
            invalid_session("invalid type for `paying_party_id_header`, expected a string"),
        ),
    };
    Ok(AccountSession { account_key, access_token, license_jwt, license_etag, paying_party_id_header })
}

/// An optional string as JSON: the string, or `null`.
pub open spec fn opt_json(o: Option<Seq<char>>, v: JsonValue) -> bool {
    match o {
        Some(s) => v matches JsonValue::Str(t) && t@ == s,
        None => v is Null,
    }
}

/// `v` is the JSON document of session `s`, members in field order.
pub open spec fn is_session_json(s: SessionV, v: JsonValue) -> bool {
    match v {
        JsonValue::Object(mm) => {
            let m = mm@;
            &&& m.len() == 5
            &&& m[0].0@ == "account_key"@ && (m[0].1 matches JsonValue::Str(k) && k@ == s.account_key)
            &&& m[1].0@ == "access_token"@ && opt_json(s.access_token, m[1].1)
            &&& m[2].0@ == "license_jwt"@ && opt_json(s.license_jwt, m[2].1)
            &&& m[3].0@ == "license_etag"@ && opt_json(s.license_etag, m[3].1)
            &&& m[4].0@ == "paying_party_id_header"@ && opt_json(s.paying_party_id_header, m[4].1)
        },
        _ => false,
    }
}

fn opt_to_json(o: &Option<String>) -> (r: JsonValue)
    ensures
        opt_json(view_opt(*o), r),
{
    match o {
        Some(s) => JsonValue::Str(copy_string(s.as_str())),
        None => JsonValue::Null,
    }
}

/// The session's JSON document.
pub fn session_to_json_value(session: &AccountSession) -> (r: JsonValue)
    ensures
        is_session_json(session@, r),
{
    let mut m: Vec<(String, JsonValue)> = Vec::new();
    m.push((copy_string("account_key"), JsonValue::Str(copy_string(session.account_key.as_str()))));
    m.push((copy_string("access_token"), opt_to_json(&session.access_token)));
    m.push((copy_string("license_jwt"), opt_to_json(&session.license_jwt)));
    m.push((copy_string("license_etag"), opt_to_json(&session.license_etag)));
    m.push((copy_string("paying_party_id_header"), opt_to_json(&session.paying_party_id_header)));
    JsonValue::Object(m)
}

/// Parses a session from JSON text.
pub fn parse_session(session_json: &str) -> (r: TwoKeyResult<AccountSession>)
    ensures
        match r {
            Ok(s) => json_parse(encode_utf8(session_json@)) matches Some(v)
                && session_from_json_spec(v) == Some(s@),
            Err(e) => e.code == ErrorCode::Unknown && e.message@ == "Invalid session JSON"@ && e.detail is Some && (
            json_parse(encode_utf8(session_json@)) matches Some(v) ==> session_from_json_spec(v) is None),
        },
{
    match parse_json_detailed(session_json.as_bytes()) {
        Ok(v) => session_from_json(&v),
        Err(detail) => Err(invalid_session(detail.as_str())),
    }
}

/// The session as JSON text.
pub fn session_to_json(session: &AccountSession) -> (r: String)
    ensures
        exists|v: JsonValue| is_session_json(session@, v) && r@ == crate::json::json_render(v),
{
    let v = session_to_json_value(session);
    render_json(&v)
}

/// A reading of a session's JSON document gives the session back.
pub proof fn law_session_json_roundtrip(s: SessionV, v: JsonValue)
    requires
        is_session_json(s, v),
    ensures
        session_from_json_spec(v) == Some(s),
{
    let m = v->Object_0@;
    reveal_strlit("account_key");
    reveal_strlit("access_token");
    reveal_strlit("license_jwt");
    reveal_strlit("license_etag");
    reveal_strlit("paying_party_id_header");
    assert("account_key"@ != "access_token"@ && "account_key"@ != "license_jwt"@ && "account_key"@
        != "license_etag"@ && "account_key"@ != "paying_party_id_header"@ && "access_token"@
        != "license_jwt"@ && "access_token"@ != "license_etag"@ && "access_token"@
        != "paying_party_id_header"@ && "license_jwt"@ != "license_etag"@ && "license_jwt"@
        != "paying_party_id_header"@ && "license_etag"@ != "paying_party_id_header"@) by {
        assert("account_key"@[3] != "access_token"@[3]);
        assert("account_key"@[0] != "license_jwt"@[0]);
        assert("account_key"@[0] != "license_etag"@[0]);
        assert("account_key"@[0] != "paying_party_id_header"@[0]);
        assert("access_token"@[0] != "license_jwt"@[0]);
        assert("access_token"@[0] != "license_etag"@[0]);
        assert("access_token"@[0] != "paying_party_id_header"@[0]);
        assert("license_jwt"@.len() != "license_etag"@.len());
        assert("license_jwt"@[0] != "paying_party_id_header"@[0]);
        assert("license_etag"@[0] != "paying_party_id_header"@[0]);
    }
    crate::json::lemma_member_at(m, "account_key"@, 0);
    crate::json::lemma_member_at(m, "access_token"@, 1);
    crate::json::lemma_member_at(m, "license_jwt"@, 2);
    crate::json::lemma_member_at(m, "license_etag"@, 3);
    crate::json::lemma_member_at(m, "paying_party_id_header"@, 4);
}

// ---------------------------------------------------------------------------
// Session manager
// ---------------------------------------------------------------------------

/// Storage key characters: ASCII letters and digits, `-` and `_`.
pub open spec fn key_char_ok(c: char) -> bool {
    ('a' <= c && c <= 'z') || ('A' <= c && c <= 'Z') || ('0' <= c && c <= '9') || c == '-' || c
        == '_'
}

/// `account_key` with every other character replaced by `_`.
pub open spec fn sanitize_spec(s: Seq<char>) -> Seq<char> {
    s.map_values(|c: char| if key_char_ok(c) { c } else { '_' })
}

/// Makes an account key safe to embed in a storage key.
pub fn sanitize(account_key: &str) -> (r: String)
    ensures
        r@ == sanitize_spec(account_key@),
{
    let cs = chars_of(account_key);
    let mut out: Vec<char> = Vec::new();
    let mut i: usize = 0;
    while i < cs.len()
        invariant
            i <= cs@.len(),
            out@ == sanitize_spec(cs@.take(i as int)),
        decreases cs.len() - i,
    {
        let c = cs[i];
        let ok = ('a' <= c && c <= 'z') || ('A' <= c && c <= 'Z') || ('0' <= c && c <= '9') || c
            == '-' || c == '_';
        out.push(if ok { c } else { '_' });
        i += 1;
        assert(out@ =~= sanitize_spec(cs@.take(i as int)));
    }
    assert(cs@.take(cs@.len() as int) =~= cs@);
    string_of(&out)
}

/// The storage key of an account's session.
pub open spec fn session_key_spec(prefix: Seq<char>, account_key: Seq<char>) -> Seq<char> {
    prefix + ":session:"@ + sanitize_spec(account_key)
}

/// Manages session persistence and license verification.
pub struct SessionManager<S: Storage, C: Clock> {
    config: SdkConfig,
    storage: S,
    clock: C,
    verifier: LicenseVerifier,
    api: crate::api::ApiClient,
}

impl<S: Storage> SessionManager<S, SystemClock> {
    /// A manager using the system clock.
    pub fn new(config: SdkConfig, storage: S) -> (r: TwoKeyResult<SessionManager<S, SystemClock>>)
        ensures
            match crate::config::config_problem(config) {
                Some(msg) => r matches Err(e) && e.code == ErrorCode::Config && e.message@ == msg,
                None => if crate::license::p256_key_pem_ok(config.public_key_pem@) {
                    r is Ok
                } else {
                    r matches Err(e) && e.code == ErrorCode::Config && e.message@ == "Invalid public_key_pem"@
                },
            },
            r matches Ok(m) ==> m.pem() == config.public_key_pem@,
    {
        SessionManager::with_clock(config, storage, SystemClock)
    }
}

impl<S: Storage, C: Clock> SessionManager<S, C> {
    /// A manager with a custom clock: validates the configuration and reads
    /// the verification key.
    pub fn with_clock(config: SdkConfig, storage: S, clock: C) -> (r: TwoKeyResult<SessionManager<S, C>>)
        ensures
            match crate::config::config_problem(config) {
                Some(msg) => r matches Err(e) && e.code == ErrorCode::Config && e.message@ == msg,
                None => if crate::license::p256_key_pem_ok(config.public_key_pem@) {
                    r is Ok
                } else {
                    r matches Err(e) && e.code == ErrorCode::Config && e.message@ == "Invalid public_key_pem"@
                },
            },
            r matches Ok(m) ==> m.config_view().api_base_url@ == crate::url::normalize_spec(config.api_base_url@)
                && m.pem() == config.public_key_pem@ && m.api_view().origin() == crate::url::normalize_spec(
                m.config_view().api_base_url@,
            ),
    {
        let config = config.validate()?;
        let verifier = LicenseVerifier::from_pem(config.public_key_pem.as_str())?;
        let api = crate::api::ApiClient::new(config.api_base_url.as_str());
        Ok(SessionManager { config, storage, clock, verifier, api })
    }

    pub closed spec fn config_view(self) -> SdkConfig {
        self.config
    }

    /// The verification key's PEM text.
    pub closed spec fn pem(self) -> Seq<char> {
        self.verifier.pem()
    }

    /// The storage key of an account's session.
    pub fn session_key(&self, account_key: &str) -> (r: String)
        ensures
            r@ == session_key_spec(self.config_view().storage_prefix@, account_key@),
    {
        let s = sanitize(account_key);
        let v = concat_chars(&chars_of(self.config.storage_prefix.as_str()), &chars_of(":session:"));
        string_of(&concat_chars(&v, &chars_of(s.as_str())))
    }

    /// Loads an account's session from storage; `Unknown` / "Corrupt session
    /// data" when the stored text is not a session.
    pub fn load(&self, account_key: &str) -> (r: TwoKeyResult<Option<AccountSession>>)
        ensures
            r matches Ok(Some(s)) ==> exists|v: JsonValue| session_from_json_spec(v) == Some(s@),
    {
        let key = self.session_key(account_key);
        let raw = self.storage.get(key.as_str())?;
        match raw {
            None => Ok(None),
            Some(text) => match parse_session(text.as_str()) {
                Ok(s) => Ok(Some(s)),
                Err(e) => {
                    let detail = match &e.detail {
                        Some(d) => copy_string(d.as_str()),
                        None => copy_string(""),
                    };
                    Err(
                        TwoKeyError::new(ErrorCode::Unknown, "Corrupt session data").with_detail(
                            detail.as_str(),
                        ),
                    )
                },
            },
        }
    }

    /// Stores a session under its account key.
    pub fn save(&self, session: &AccountSession) -> TwoKeyResult<()> {
        let raw = session_to_json(session);
        let key = self.session_key(session.account_key.as_str());
        self.storage.set(key.as_str(), raw.as_str())
    }

    /// Removes an account's session.
    pub fn clear(&self, account_key: &str) -> TwoKeyResult<()> {
        let key = self.session_key(account_key);
        self.storage.delete(key.as_str())
    }

    /// Verifies a license token at the current time.
    pub fn verify_raw(&self, jwt: &str) -> (r: VerifyOutcome)
        ensures
            exists|now: i64| outcome_view(r) == #[trigger] verify_spec(self.pem(), jwt@, now, None),
    {
        let r = self.verifier.verify_and_decode(jwt, &self.clock);
        proof {
            let w = choose|now: i64| outcome_view(r) == #[trigger] verify_spec(self.verifier.pem(), jwt@, now, None);
            assert(outcome_view(r) == verify_spec(self.pem(), jwt@, w, None));
        }
        r
    }

    /// Verifies a cached license token offline.
    pub fn init_license(&self, jwt: &str) -> (r: TwoKeyResult<LicensePayload>)
        ensures
            exists|now: i64|
                #[trigger] verify_spec(self.pem(), jwt@, now, None) == match r {
                    Ok(p) => Ok::<PayloadV, (ErrorCode, Seq<char>)>(p@),
                    Err(e) => Err((e.code, e.message@)),
                },
    {
        match self.verify_raw(jwt) {
            VerifyOutcome::Success(p) => Ok(p),
            VerifyOutcome::Failure { code, message } => Err(TwoKeyError::new(code, message.as_str())),
        }
    }

    /// Whether background polling is worth it: the cached license verifies
    /// and lists subscriptions.
    pub fn should_poll(&self, session: &AccountSession) -> (r: bool)
        ensures
            session.license_jwt is None ==> !r,
            session.license_jwt matches Some(j) ==> exists|now: i64|
                (r <==> (#[trigger] verify_spec(self.pem(), j@, now, None) matches Ok(p) && p.subscriptions.len() > 0)),
    {
        let jwt = match &session.license_jwt {
            Some(j) => j,
            None => return false,
        };
        let out = self.verifier.verify_and_decode(jwt.as_str(), &self.clock);
        proof {
            let w = choose|now: i64| outcome_view(out) == #[trigger] verify_spec(self.verifier.pem(), jwt@, now, None);
            assert(outcome_view(out) == verify_spec(self.pem(), jwt@, w, None));
        }
        let ghost w = choose|now: i64| outcome_view(out) == #[trigger] verify_spec(self.verifier.pem(), jwt@, now, None);
        let r = match out {
            VerifyOutcome::Success(p) => {
                assert(crate::models::subscriptions_view(p.subscriptions@).len() == p.subscriptions@.len());
                p.subscriptions.len() > 0
            },
            VerifyOutcome::Failure { .. } => false,
        };
        assert(r <==> (verify_spec(self.pem(), jwt@, w, None) matches Ok(p) && p.subscriptions.len() > 0));
        r
    }

    pub fn config(&self) -> (r: &SdkConfig)
        ensures
            *r == self.config_view(),
    {
        &self.config
    }

    /// Fetches the license through `send` and verifies it: a 304 re-checks
    /// the cached token (taking a new ETag); a new token is verified, then
    /// kept in the session with its ETag and the session is saved.
    pub fn sync_license<F: FnOnce(&crate::api::HttpRequest) -> TwoKeyResult<crate::api::HttpResponse>>(
        &self,
        session: &mut AccountSession,
        send: F,
    ) -> (r: TwoKeyResult<LicensePayload>)
        requires
            forall|req: &crate::api::HttpRequest| send.requires((req,)),
        ensures
            (match old(session).access_token {
                Some(t) => t@.len() == 0,
                None => true,
            }) ==> (*final(session) == *old(session) && (r matches Err(e) && e.code == ErrorCode::Unauthorized
                && e.message@ == "No access token in session"@)),
            r matches Ok(p) ==> final(session).license_jwt matches Some(j) && exists|now: i64|
                #[trigger] verify_spec(self.pem(), j@, now, None) == Ok::<PayloadV, (ErrorCode, Seq<char>)>(p@),
            final(session).account_key@ == old(session).account_key@,
            final(session).access_token == old(session).access_token,
            final(session).paying_party_id_header == old(session).paying_party_id_header,
            final(session).license_jwt != old(session).license_jwt ==> (final(session).license_jwt matches Some(j)
                && exists|now: i64| #[trigger] verify_spec(self.pem(), j@, now, None) is Ok),
            (forall|req: &crate::api::HttpRequest, resp: TwoKeyResult<crate::api::HttpResponse>|
                #[trigger] send.ensures((req,), resp) ==> license_fetch_fails(resp)) ==> (r is Err
                && *final(session) == *old(session)),
            (forall|req: &crate::api::HttpRequest, resp: TwoKeyResult<crate::api::HttpResponse>|
                #[trigger] send.ensures((req,), resp) ==> license_answer_rejected(self.pem(), resp)) ==> (r is Err
                && *final(session) == *old(session)),
            r is Err ==> (*final(session) == *old(session) || *final(session) == (AccountSession {
                license_etag: final(session).license_etag,
                ..*old(session)
            }) || (final(session).license_jwt matches Some(j) && exists|now: i64|
                #[trigger] verify_spec(self.pem(), j@, now, None) is Ok)),
    {
        let token = match &session.access_token {
            Some(t) => {
                if t.as_str().is_empty() {
                    return Err(TwoKeyError::new(ErrorCode::Unauthorized, "No access token in session"));
                }
                copy_string(t.as_str())
            },
            None => return Err(TwoKeyError::new(ErrorCode::Unauthorized, "No access token in session")),
        };
        let party = match &session.paying_party_id_header {
            Some(p) => Some(copy_string(p.as_str())),
            None => None,
        };
        let etag = match &session.license_etag {
            Some(e) => Some(copy_string(e.as_str())),
            None => None,
        };
        let request = self.api.license_request(
            token.as_str(),
            match &party {
                Some(p) => Some(p.as_str()),
                None => None,
            },
            match &etag {
                Some(e) => Some(e.as_str()),
                None => None,
            },
        )?;
        let response = send(&request)?;
        let result = crate::api::ApiClient::license_response(
            response.status,
            response.etag,
            response.body.as_slice(),
            match &etag {
                Some(e) => Some(e.as_str()),
                None => None,
            },
        )?;
        match result {
            crate::api::SyncResult::NotModified { etag } => {
                if let Some(e) = etag {
                    session.license_etag = Some(e);
                }
                let jwt = match &session.license_jwt {
                    Some(j) => copy_string(j.as_str()),
                    None => return Err(
                        TwoKeyError::new(ErrorCode::NotModified, "License not modified but no cached JWT"),
                    ),
                };
                let out = self.init_license(jwt.as_str());
                proof {
                    if out is Ok {
                        let w = choose|now: i64| #[trigger] verify_spec(self.pem(), jwt@, now, None) == match out {
                            Ok(p) => Ok::<PayloadV, (ErrorCode, Seq<char>)>(p@),
                            Err(e) => Err((e.code, e.message@)),
                        };
                        assert(verify_spec(self.pem(), session.license_jwt->Some_0@, w, None) == Ok::<PayloadV, (ErrorCode, Seq<char>)>(out->Ok_0@));
                    }
                }
                out
            },
            crate::api::SyncResult::Success { signed_token, etag } => {
                let payload = self.init_license(signed_token.as_str())?;
                let ghost tok = signed_token@;
                proof {
                    let w = choose|now: i64| #[trigger] verify_spec(self.pem(), tok, now, None) == Ok::<PayloadV, (ErrorCode, Seq<char>)>(payload@);
                    assert(verify_spec(self.pem(), tok, w, None) == Ok::<PayloadV, (ErrorCode, Seq<char>)>(payload@));
                }
                session.license_jwt = Some(signed_token);
                session.license_etag = etag;
                self.save(session)?;
                Ok(payload)
            },
        }
    }

    /// The billing API client.
    pub closed spec fn api_view(self) -> crate::api::ApiClient {
        self.api
    }

    /// The billing API client.
    pub fn api(&self) -> (r: &crate::api::ApiClient)
        ensures
            *r == self.api_view(),
    {
        &self.api
    }

    pub fn license_verifier(&self) -> (r: &LicenseVerifier)
        ensures
            r.pem() == self.pem(),
    {
        &self.verifier
    }
}

} // verus!
