//! Platform ports a host injects: storage, clock and auth.

use vstd::prelude::*;
use std::collections::HashMap;
use std::sync::{Arc, Mutex};
use crate::error::{ErrorCode, TwoKeyError, TwoKeyResult};
use crate::text::{chars_of, string_of, trim_chars, trim_seq};

verus! {

/// Key-value persistence (secure storage on a device).
pub trait Storage {
    fn get(&self, key: &str) -> TwoKeyResult<Option<String>>;

    fn set(&self, key: &str, value: &str) -> TwoKeyResult<()>;

    fn delete(&self, key: &str) -> TwoKeyResult<()>;
}

/// Wall clock for expiry checks.
pub trait Clock {
    /// Seconds since the Unix epoch (UTC).
    fn unix_seconds(&self) -> i64;
}

/// Mints the billing API access token.
pub trait AuthPort {
    fn acquire_api_token(&self) -> TwoKeyResult<String>;

    /// Clears the local sign-in where supported; by default nothing to do.
    fn sign_out(&self) -> TwoKeyResult<()> {
        Ok(())
    }
}

/// A pasted token (CLI and tests).
#[derive(Clone, Debug)]
pub struct StaticTokenAuth {
    pub access_token: String,
}

impl StaticTokenAuth {
    /// The trimmed token; `Unauthorized` when it is blank.
    pub fn token(&self) -> (r: TwoKeyResult<String>)
        ensures
            match r {
                Ok(t) => trim_seq(self.access_token@).len() > 0 && t@ == trim_seq(self.access_token@),
                Err(e) => trim_seq(self.access_token@).len() == 0 && e.code == ErrorCode::Unauthorized
                    && e.message@ == "Access token is empty"@,
            },
    {
        let t = trim_chars(&chars_of(self.access_token.as_str()));
        if t.len() == 0 {
            return Err(TwoKeyError::new(ErrorCode::Unauthorized, "Access token is empty"));
        }
        Ok(string_of(&t))
    }
}

impl AuthPort for StaticTokenAuth {
    fn acquire_api_token(&self) -> TwoKeyResult<String> {
        self.token()
    }
}

/// The system clock.
#[derive(Clone, Copy, Debug)]
pub struct SystemClock;

/// Seconds since the Unix epoch from `SystemTime::now` (0 before the
/// epoch). The time is not modelled.
#[verifier::external_body]
fn system_unix_seconds() -> i64 {
    std::time::SystemTime::now()
        .duration_since(std::time::UNIX_EPOCH)
        .map(|d| d.as_secs() as i64)
        .unwrap_or(0)
}

impl Clock for SystemClock {
    fn unix_seconds(&self) -> i64 {
        system_unix_seconds()
    }
}

/// A new shared, lock-guarded, empty map.
#[verifier::external_body]
fn shared_empty_map() -> Arc<Mutex<HashMap<String, String>>> {
    Arc::new(Mutex::new(HashMap::new()))
}

/// `lock()` then `HashMap::get`, cloned; `Err` when the lock is poisoned.
/// What the map holds is not modelled.
#[verifier::external_body]
fn shared_get(m: &Arc<Mutex<HashMap<String, String>>>, key: &str) -> Result<Option<String>, ()> {
    m.lock().map(|g| g.get(key).cloned()).map_err(|_| ())
}

/// `lock()` then `HashMap::insert`.
#[verifier::external_body]
fn shared_set(m: &Arc<Mutex<HashMap<String, String>>>, key: &str, value: &str) -> Result<(), ()> {
    m.lock().map(|mut g| {
        g.insert(key.to_string(), value.to_string());
    }).map_err(|_| ())
}

/// `lock()` then `HashMap::remove`.
#[verifier::external_body]
fn shared_delete(m: &Arc<Mutex<HashMap<String, String>>>, key: &str) -> Result<(), ()> {
    m.lock().map(|mut g| {
        g.remove(key);
    }).map_err(|_| ())
}

/// In-memory storage for tests and prototypes; clones share the map.
#[derive(Clone, Debug)]
pub struct InMemoryStorage {
    inner: Arc<Mutex<HashMap<String, String>>>,
}

fn poisoned() -> (r: TwoKeyError)
    ensures
        r.code == ErrorCode::Unknown,
        r.message@ == "storage lock poisoned"@,
{
    TwoKeyError::new(ErrorCode::Unknown, "storage lock poisoned")
}

impl InMemoryStorage {
    /// An empty store.
    pub fn new() -> (r: InMemoryStorage) {
        InMemoryStorage { inner: shared_empty_map() }
    }
}

impl Storage for InMemoryStorage {
    fn get(&self, key: &str) -> (r: TwoKeyResult<Option<String>>)
        ensures
            r matches Err(e) ==> e.code == ErrorCode::Unknown && e.message@ == "storage lock poisoned"@,
    {
        match shared_get(&self.inner, key) {
            Ok(v) => Ok(v),
            Err(()) => Err(poisoned()),
        }
    }

    fn set(&self, key: &str, value: &str) -> (r: TwoKeyResult<()>)
        ensures
            r matches Err(e) ==> e.code == ErrorCode::Unknown && e.message@ == "storage lock poisoned"@,
    {
        match shared_set(&self.inner, key, value) {
            Ok(()) => Ok(()),
            Err(()) => Err(poisoned()),
        }
    }

    fn delete(&self, key: &str) -> (r: TwoKeyResult<()>)
        ensures
            r matches Err(e) ==> e.code == ErrorCode::Unknown && e.message@ == "storage lock poisoned"@,
    {
        match shared_delete(&self.inner, key) {
            Ok(()) => Ok(()),
            Err(()) => Err(poisoned()),
        }
    }
}

} // verus!
