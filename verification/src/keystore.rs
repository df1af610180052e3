//! Key storage: the store interface, key validation and an in-memory store.

use vstd::prelude::*;
use std::collections::HashMap;
use std::sync::Mutex;
use vstd::utf8::{decode_utf8, valid_utf8};
use crate::sdk_error::{Error, SdkResult};
use crate::text::{chars_of, concat_chars, contains_seq, debug_quoted, debug_str, has_prefix, string_of};

pub mod keys;

pub use keys::{
    CHAIN as KEY_CHAIN, CONFIG as KEY_CONFIG, CREDENTIAL as KEY_CREDENTIAL,
    MACHINE_CRT as KEY_MACHINE_CRT, MACHINE_CSR as KEY_MACHINE_CSR, MACHINE_KEY as KEY_MACHINE_KEY,
    MACHINE_KEY_NEW as KEY_MACHINE_KEY_NEW, ORG_CA as KEY_ORG_CA, PLATFORM_CA as KEY_PLATFORM_CA,
    PLATFORM_ENDORSED as KEY_PLATFORM_ENDORSED, SESSION as KEY_SESSION, STATE as KEY_STATE,
};

verus! {

/// A key that could escape the store: empty, absolute, or with `..`.
pub open spec fn key_illegal(key: Seq<char>) -> bool {
    key.len() == 0 || has_prefix(key, "/"@) || has_prefix(key, "\\"@) || contains_seq(key, ".."@)
}

/// The message for an illegal key.
pub open spec fn illegal_key_text(key: Seq<char>) -> Seq<char> {
    "illegal key "@ + debug_quoted(key)
}

/// `r` is the keystore error for an illegal `key`.
pub open spec fn is_illegal_key_error(e: Error, key: Seq<char>) -> bool {
    match e {
        Error::Keystore(m) => m@ == illegal_key_text(key),
        _ => false,
    }
}

/// `Path::is_absolute` on the key: whether the platform reads it as an
/// absolute path (on Unix, a leading `/`; on Windows, a drive or UNC
/// prefix). The answer depends on the platform, so nothing is stated of it.
#[verifier::external_body]
fn path_is_absolute(key: &str) -> bool {
    std::path::Path::new(key).is_absolute()
}

/// Refuses keys that could name a file outside the store: the illegal keys
/// of [`key_illegal`], and those the platform reads as absolute paths.
pub fn validate_key(key: &str) -> (r: SdkResult<()>)
    ensures
        key_illegal(key@) ==> r is Err,
        r matches Err(e) ==> is_illegal_key_error(e, key@),
{
    let k = chars_of(key);
    let bad = k.len() == 0 || crate::text::starts_with(&k, &chars_of("/"))
        || crate::text::starts_with(&k, &chars_of("\\"))
        || crate::text::contains_chars(&k, &chars_of("..")) || path_is_absolute(key);
    if bad {
        let q = debug_str(key);
        let m = string_of(&concat_chars(&chars_of("illegal key "), &chars_of(q.as_str())));
        return Err(Error::Keystore(m));
    }
    Ok(())
}

/// The text `String::from_utf8_lossy` makes of `bytes`.
pub uninterp spec fn utf8_lossy(bytes: Seq<u8>) -> Seq<char>;

/// `String::from_utf8_lossy`: valid UTF-8 decodes as is; invalid sequences
/// become U+FFFD.
#[verifier::external_body]
pub fn lossy_string(bytes: &[u8]) -> (r: String)
    ensures
        r@ == utf8_lossy(bytes@),
        valid_utf8(bytes@) ==> r@ == decode_utf8(bytes@),
{
    String::from_utf8_lossy(bytes).into_owned()
}

/// Byte storage under relative keys.
pub trait KeyStore {
    fn save(&self, key: &str, value: &[u8]) -> SdkResult<()>;

    fn load(&self, key: &str) -> SdkResult<Option<Vec<u8>>>;

    fn delete(&self, key: &str) -> SdkResult<()>;

    fn has_key(&self, key: &str) -> SdkResult<bool>;

    /// Overwrite then unlink where the backend can; by default, `delete`.
    fn secure_delete(&self, key: &str) -> SdkResult<()> {
        self.delete(key)
    }

    /// The stored bytes as text (invalid UTF-8 replaced).
    fn load_string(&self, key: &str) -> (r: SdkResult<Option<String>>)
        ensures
            r matches Ok(Some(s)) ==> exists|bytes: Seq<u8>| s@ == #[trigger] utf8_lossy(bytes),
    {
        match self.load(key) {
            Ok(Some(b)) => Ok(Some(lossy_string(b.as_slice()))),
            Ok(None) => Ok(None),
            Err(e) => Err(e),
        }
    }

    /// Stores the UTF-8 bytes of `value`.
    fn save_string(&self, key: &str, value: &str) -> SdkResult<()> {
        self.save(key, value.as_bytes())
    }
}

#[verifier::external_type_specification]
#[verifier::external_body]
#[verifier::reject_recursive_types(T)]
pub struct ExMutex<T: ?Sized>(Mutex<T>);

/// An empty lock-guarded map (`Mutex::new`).
#[verifier::external_body]
fn empty_store() -> Mutex<HashMap<String, Vec<u8>>> {
    Mutex::new(HashMap::new())
}

/// `lock()` then `HashMap::insert`; `Err` with the lock's message when it is
/// poisoned. What the map holds is not modelled.
#[verifier::external_body]
fn store_insert(m: &Mutex<HashMap<String, Vec<u8>>>, key: &str, value: &[u8]) -> Result<(), String> {
    m.lock().map_err(|e| e.to_string())?.insert(key.to_string(), value.to_vec());
    Ok(())
}

/// `lock()` then `HashMap::get`, cloned.
#[verifier::external_body]
fn store_get(m: &Mutex<HashMap<String, Vec<u8>>>, key: &str) -> Result<Option<Vec<u8>>, String> {
    Ok(m.lock().map_err(|e| e.to_string())?.get(key).cloned())
}

/// `lock()` then `HashMap::remove`.
#[verifier::external_body]
fn store_remove(m: &Mutex<HashMap<String, Vec<u8>>>, key: &str) -> Result<(), String> {
    m.lock().map_err(|e| e.to_string())?.remove(key);
    Ok(())
}

/// `lock()` then `HashMap::contains_key`.
#[verifier::external_body]
fn store_contains(m: &Mutex<HashMap<String, Vec<u8>>>, key: &str) -> Result<bool, String> {
    Ok(m.lock().map_err(|e| e.to_string())?.contains_key(key))
}

/// In-memory store for tests.
#[derive(Debug)]
pub struct MemoryKeyStore {
    inner: Mutex<HashMap<String, Vec<u8>>>,
}

impl MemoryKeyStore {
    pub fn new() -> (r: MemoryKeyStore) {
        MemoryKeyStore { inner: empty_store() }
    }
}

impl KeyStore for MemoryKeyStore {
    fn save(&self, key: &str, value: &[u8]) -> (r: SdkResult<()>)
        ensures
            key_illegal(key@) ==> (r matches Err(e) && is_illegal_key_error(e, key@)),
            !key_illegal(key@) && r is Err ==> r matches Err(Error::Keystore(_)),
    {
        validate_key(key)?;
        match store_insert(&self.inner, key, value) {
            Ok(()) => Ok(()),
            Err(m) => Err(Error::Keystore(m)),
        }
    }

    fn load(&self, key: &str) -> (r: SdkResult<Option<Vec<u8>>>)
        ensures
            key_illegal(key@) ==> (r matches Err(e) && is_illegal_key_error(e, key@)),
            !key_illegal(key@) && r is Err ==> r matches Err(Error::Keystore(_)),
    {
        validate_key(key)?;
        match store_get(&self.inner, key) {
            Ok(v) => Ok(v),
            Err(m) => Err(Error::Keystore(m)),
        }
    }

    fn delete(&self, key: &str) -> (r: SdkResult<()>)
        ensures
            key_illegal(key@) ==> (r matches Err(e) && is_illegal_key_error(e, key@)),
            !key_illegal(key@) && r is Err ==> r matches Err(Error::Keystore(_)),
    {
        validate_key(key)?;
        match store_remove(&self.inner, key) {
            Ok(()) => Ok(()),
            Err(m) => Err(Error::Keystore(m)),
        }
    }

    fn has_key(&self, key: &str) -> (r: SdkResult<bool>)
        ensures
            key_illegal(key@) ==> (r matches Err(e) && is_illegal_key_error(e, key@)),
            !key_illegal(key@) && r is Err ==> r matches Err(Error::Keystore(_)),
    {
        validate_key(key)?;
        match store_contains(&self.inner, key) {
            Ok(b) => Ok(b),
            Err(m) => Err(Error::Keystore(m)),
        }
    }
}

} // verus!
