//! SDK configuration: service URLs, product name, separator, state
//! directory and credentials.

use vstd::prelude::*;
use std::path::PathBuf;
use crate::auth_session::{client_auth_spec, StoredSession};
use crate::text::{chars_of, concat_chars, ends_with, has_suffix, string_of, sub_chars};
use crate::url::strip_slashes;

verus! {

#[verifier::external_type_specification]
#[verifier::external_body]
pub struct ExPathBuf(PathBuf);

/// Resolved configuration (defaults overridden by the environment).
pub struct ResolvedConfig {
    /// Machine AuthN base (`…/api/v1`).
    pub backend_url: String,
    /// Sign-in mount (`…/api/auth`).
    pub auth_url: String,
    pub product_name: String,
    pub separator: String,
    pub state_dir: PathBuf,
    pub auth_token: Option<String>,
    /// Device-flow client id (`{product}-cli` by default).
    pub client_id: String,
}

/// The sign-in mount next to a Machine AuthN base: `/api/v1` becomes
/// `/api/auth`; a base already at `/api/auth` is kept; otherwise `/api/auth`
/// is appended. Trailing slashes are ignored.
pub open spec fn default_auth_url_spec(backend: Seq<char>) -> Seq<char> {
    let base = strip_slashes(backend);
    if has_suffix(base, "/api/v1"@) {
        base.take(base.len() - "/api/v1"@.len()) + "/api/auth"@
    } else if has_suffix(base, "/api/auth"@) {
        base
    } else {
        base + "/api/auth"@
    }
}

/// Derives the sign-in URL from the Machine AuthN base URL.
pub fn default_auth_url(backend_url: &str) -> (r: String)
    ensures
        r@ == default_auth_url_spec(backend_url@),
{
    let b = chars_of(backend_url);
    let mut n = b.len();
    assert(b@.take(n as int) =~= b@);
    while n > 0 && b[n - 1] == '/'
        invariant
            n <= b@.len(),
            strip_slashes(b@) == strip_slashes(b@.take(n as int)),
        decreases n,
    {
        assert(b@.take(n as int).drop_last() =~= b@.take(n - 1));
        n -= 1;
    }
    let base = sub_chars(&b, 0, n);
    assert(base@ =~= b@.take(n as int));
    let v1 = chars_of("/api/v1");
    if ends_with(&base, &v1) {
        let host = sub_chars(&base, 0, base.len() - v1.len());
        assert(host@ =~= base@.take(base@.len() - "/api/v1"@.len()));
        return string_of(&concat_chars(&host, &chars_of("/api/auth")));
    }
    if ends_with(&base, &chars_of("/api/auth")) {
        return string_of(&base);
    }
    string_of(&concat_chars(&base, &chars_of("/api/auth")))
}

impl ResolvedConfig {
    /// Fills `auth_token` from the stored session when nothing set one
    /// already; `stored` is the session read from the state directory.
    pub fn apply_stored_session(&mut self, stored: Option<StoredSession>)
        ensures
            old(self).auth_token is Some ==> final(self).auth_token == old(self).auth_token,
            old(self).auth_token is None ==> match stored {
                Some(s) => final(self).auth_token matches Some(t) && t@ == client_auth_spec(
                    s.token@,
                    s.transport,
                ),
                None => final(self).auth_token is None,
            },
            final(self).backend_url == old(self).backend_url,
            final(self).auth_url == old(self).auth_url,
            final(self).product_name == old(self).product_name,
            final(self).separator == old(self).separator,
            final(self).state_dir == old(self).state_dir,
            final(self).client_id == old(self).client_id,
    {
        if self.auth_token.is_some() {
            return;
        }
        if let Some(session) = stored {
            self.auth_token = Some(session.to_client_auth());
        }
    }
}


/// This library's version.
pub fn sdk_version() -> (r: &'static str)
    ensures
        r@ == "0.1.0"@,
{
    "0.1.0"
}

} // verus!
