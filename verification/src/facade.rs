//! The high-level client that language bindings wrap.

use vstd::prelude::*;
use crate::api::{BootstrapResult, HttpRequest, HttpResponse};
use crate::config::SdkConfig;
use crate::error::{ErrorCode, TwoKeyResult};
use crate::license::{outcome_view, verify_spec, VerifyOutcome};
use crate::models::{LicensePayload, PayloadV};
use crate::ports::{Clock, InMemoryStorage, Storage, SystemClock};
use crate::session::{
    license_answer_rejected, license_fetch_fails, session_from_json_spec, AccountSession, SessionManager,
};
use crate::json::JsonValue;

verus! {

/// High-level client: configuration, license verification and sessions.
pub struct TwoKeyClient<S: Storage = InMemoryStorage, C: Clock = SystemClock> {
    sessions: SessionManager<S, C>,
}

impl TwoKeyClient<InMemoryStorage, SystemClock> {
    /// A client with in-memory storage and the system clock.
    pub fn with_memory(config: SdkConfig) -> (r: TwoKeyResult<TwoKeyClient<InMemoryStorage, SystemClock>>)
        ensures
            match crate::config::config_problem(config) {
                Some(msg) => r matches Err(e) && e.code == ErrorCode::Config && e.message@ == msg,
                None => if crate::license::p256_key_pem_ok(config.public_key_pem@) {
                    r is Ok
                } else {
                    r matches Err(e) && e.code == ErrorCode::Config && e.message@ == "Invalid public_key_pem"@
                },
            },
            r matches Ok(c) ==> c.pem() == config.public_key_pem@,
    {
        let sessions = SessionManager::new(config, InMemoryStorage::new())?;
        Ok(TwoKeyClient { sessions })
    }
}

impl<S: Storage, C: Clock> TwoKeyClient<S, C> {
    /// A client with the given storage and clock.
    pub fn new(config: SdkConfig, storage: S, clock: C) -> (r: TwoKeyResult<TwoKeyClient<S, C>>)
        ensures
            match crate::config::config_problem(config) {
                Some(msg) => r matches Err(e) && e.code == ErrorCode::Config && e.message@ == msg,
                None => if crate::license::p256_key_pem_ok(config.public_key_pem@) {
                    r is Ok
                } else {
                    r matches Err(e) && e.code == ErrorCode::Config && e.message@ == "Invalid public_key_pem"@
                },
            },
            r matches Ok(c) ==> c.pem() == config.public_key_pem@,
    {
        let sessions = SessionManager::with_clock(config, storage, clock)?;
        Ok(TwoKeyClient { sessions })
    }

    /// The verification key's PEM text.
    pub closed spec fn pem(self) -> Seq<char> {
        self.sessions.pem()
    }

    /// The validated configuration.
    pub closed spec fn config_view(self) -> SdkConfig {
        self.sessions.config_view()
    }

    /// The validated configuration.
    pub fn config(&self) -> (r: &SdkConfig)
        ensures
            *r == self.config_view(),
    {
        self.sessions.config()
    }

    /// Verifies a license token offline, at the clock's time.
    pub fn verify_license(&self, jwt: &str) -> (r: VerifyOutcome)
        ensures
            exists|now: i64| outcome_view(r) == #[trigger] verify_spec(self.pem(), jwt@, now, None),
    {
        let r = self.sessions.verify_raw(jwt);
        proof {
            let w = choose|now: i64| outcome_view(r) == #[trigger] verify_spec(self.sessions.pem(), jwt@, now, None);
            assert(outcome_view(r) == verify_spec(self.pem(), jwt@, w, None));
        }
        r
    }

    /// Verifies a cached license token offline, failures as errors.
    pub fn init_license(&self, jwt: &str) -> (r: TwoKeyResult<LicensePayload>)
        ensures
            exists|now: i64|
                #[trigger] verify_spec(self.pem(), jwt@, now, None) == match r {
                    Ok(p) => Ok::<PayloadV, (ErrorCode, Seq<char>)>(p@),
                    Err(e) => Err((e.code, e.message@)),
                },
    {
        let r = self.sessions.init_license(jwt);
        proof {
            let w = choose|now: i64|
                #[trigger] verify_spec(self.sessions.pem(), jwt@, now, None) == match r {
                    Ok(p) => Ok::<PayloadV, (ErrorCode, Seq<char>)>(p@),
                    Err(e) => Err((e.code, e.message@)),
                };
            assert(verify_spec(self.pem(), jwt@, w, None) == match r {
                Ok(p) => Ok::<PayloadV, (ErrorCode, Seq<char>)>(p@),
                Err(e) => Err((e.code, e.message@)),
            });
        }
        r
    }

    /// The stored session of an account.
    pub fn load_session(&self, account_key: &str) -> (r: TwoKeyResult<Option<AccountSession>>)
        ensures
            r matches Ok(Some(s)) ==> exists|v: JsonValue| session_from_json_spec(v) == Some(s@),
    {
        self.sessions.load(account_key)
    }

    /// Stores a session.
    pub fn save_session(&self, session: &AccountSession) -> TwoKeyResult<()> {
        self.sessions.save(session)
    }

    /// Removes an account's session.
    pub fn clear_session(&self, account_key: &str) -> TwoKeyResult<()> {
        self.sessions.clear(account_key)
    }

    /// Syncs the license through `send` (see [`SessionManager::sync_license`]).
    pub fn sync_license<F: FnOnce(&HttpRequest) -> TwoKeyResult<HttpResponse>>(
        &self,
        session: &mut AccountSession,
        send: F,
    ) -> (r: TwoKeyResult<LicensePayload>)
        requires
            forall|req: &HttpRequest| send.requires((req,)),
        ensures
            (match old(session).access_token {
                Some(t) => t@.len() == 0,
                None => true,
            }) ==> (*final(session) == *old(session) && (r matches Err(e) && e.code == ErrorCode::Unauthorized
                && e.message@ == "No access token in session"@)),
            r matches Ok(p) ==> final(session).license_jwt matches Some(j) && exists|now: i64|
                #[trigger] verify_spec(self.pem(), j@, now, None) == Ok::<PayloadV, (ErrorCode, Seq<char>)>(p@),
            final(session).account_key@ == old(session).account_key@,
            final(session).access_token == old(session).access_token,
            final(session).paying_party_id_header == old(session).paying_party_id_header,
            final(session).license_jwt != old(session).license_jwt ==> (final(session).license_jwt matches Some(j)
                && exists|now: i64| #[trigger] verify_spec(self.pem(), j@, now, None) is Ok),
            (forall|req: &HttpRequest, resp: TwoKeyResult<HttpResponse>|
                #[trigger] send.ensures((req,), resp) ==> license_fetch_fails(resp)) ==> (r is Err
                && *final(session) == *old(session)),
            (forall|req: &HttpRequest, resp: TwoKeyResult<HttpResponse>|
                #[trigger] send.ensures((req,), resp) ==> license_answer_rejected(self.pem(), resp)) ==> (r is Err
                && *final(session) == *old(session)),
            r is Err ==> (*final(session) == *old(session) || *final(session) == (AccountSession {
                license_etag: final(session).license_etag,
                ..*old(session)
            }) || (final(session).license_jwt matches Some(j) && exists|now: i64|
                #[trigger] verify_spec(self.pem(), j@, now, None) is Ok)),
    {
        let r = self.sessions.sync_license(session, send);
        proof {
            if r is Ok {
                let j = session.license_jwt->Some_0@;
                let w = choose|now: i64|
                    #[trigger] verify_spec(self.sessions.pem(), j, now, None) == Ok::<PayloadV, (ErrorCode, Seq<char>)>(r->Ok_0@);
                assert(verify_spec(self.pem(), j, w, None) == Ok::<PayloadV, (ErrorCode, Seq<char>)>(r->Ok_0@));
            }
        }
        r
    }

    /// The billing summary, fetched through `send`.
    pub fn ensure_billing_context<F: FnOnce(&HttpRequest) -> TwoKeyResult<HttpResponse>>(
        &self,
        access_token: &str,
        send: F,
    ) -> (r: TwoKeyResult<BootstrapResult>)
        requires
            forall|req: &HttpRequest| send.requires((req,)),
        ensures
            crate::text::trim_seq(access_token@).len() == 0 ==> (r matches Err(e) && e.code
                == ErrorCode::Unauthorized && e.message@ == "Authorization token is required."@),
            r matches Ok(BootstrapResult::Success(d)) ==> exists|req: &HttpRequest, resp: HttpResponse|
                {
                    &&& #[trigger] send.ensures((req,), Ok::<HttpResponse, crate::error::TwoKeyError>(resp))
                    &&& req.method == crate::api::HttpMethod::Get && req.body is None
                    &&& crate::api::headers_view(req.headers@) == seq![
                        ("Authorization"@, crate::api::bearer_spec(access_token@)),
                    ]
                    &&& resp.status == 200
                    &&& crate::json::json_parse(resp.body@) matches Some(b)
                    &&& d == crate::api::unwrap_data_spec(b)
                },
    {
        let request = self.sessions.api().bootstrap_request(access_token)?;
        let response = send(&request)?;
        let r = crate::api::ApiClient::bootstrap_response(response.status, response.body.as_slice());
        proof {
            if r is Ok {
                assert(send.ensures((&request,), Ok::<HttpResponse, crate::error::TwoKeyError>(response)));
            }
        }
        r
    }

    /// Whether background polling is worth it for the session.
    pub fn should_poll(&self, session: &AccountSession) -> (r: bool)
        ensures
            session.license_jwt is None ==> !r,
            session.license_jwt matches Some(j) ==> exists|now: i64|
                (r <==> (#[trigger] verify_spec(self.pem(), j@, now, None) matches Ok(p) && p.subscriptions.len() > 0)),
    {
        let r = self.sessions.should_poll(session);
        proof {
            if session.license_jwt is Some {
                let j = session.license_jwt->Some_0@;
                let w = choose|now: i64|
                    (r <==> (#[trigger] verify_spec(self.sessions.pem(), j, now, None) matches Ok(p) && p.subscriptions.len() > 0));
                assert(r <==> (verify_spec(self.pem(), j, w, None) matches Ok(p) && p.subscriptions.len() > 0));
            }
        }
        r
    }
}

} // verus!
