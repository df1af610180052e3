//! Machine agent identity: the local key and the Platform-endorsed leaf,
//! checked against the Platform root.

use vstd::prelude::*;
use crate::keystore::{KeyStore, KEY_MACHINE_KEY, KEY_PLATFORM_CA, KEY_PLATFORM_ENDORSED};
use crate::mtls::{cert_check_spec, verify_ed25519_cert_against_issuer};
use crate::sdk_error::{Error, SdkResult};
use crate::state::load_state;
use crate::text::{chars_of, concat_chars, copy_string, has_prefix, starts_with, string_of};
use crate::types::MachineState;

verus! {

/// What a resident Target/Source agent needs to present mTLS.
#[derive(Clone, Debug)]
pub struct AgentIdentity {
    pub machine_identity: String,
    pub endorsed_pem: String,
    pub key_pem: String,
    pub platform_root_pem: String,
}

/// Why agent material is unusable, if it is: the first missing file, or an
/// endorsement that does not verify against the root (`None` when the check
/// itself fails).
pub open spec fn agent_problem(
    key: Option<Seq<char>>,
    endorsed: Option<Seq<char>>,
    root: Option<Seq<char>>,
) -> Option<Option<Seq<char>>> {
    if key is None {
        Some(Some("missing identity/machine.key — run register first"@))
    } else if endorsed is None {
        Some(Some("missing identity/platform-endorsed.crt — enroll or pull first"@))
    } else if root is None {
        Some(Some("missing identity/platform-ca.crt — enroll or pull first"@))
    } else {
        match cert_check_spec(endorsed->Some_0, root->Some_0) {
            Ok(true) => None,
            Ok(false) => Some(Some("platform-endorsed.crt does not verify against platform-ca.crt"@)),
            Err(_) => Some(None),
        }
    }
}

fn agent_error(msg: &str) -> (e: Error)
    ensures
        e matches Error::Agent(m) && m@ == msg@,
{
    Error::Agent(string_of(&chars_of(msg)))
}

/// Checks the loaded key, endorsement and root: each must be present and the
/// endorsement must verify against the root.
pub fn check_agent_material(key: Option<&str>, endorsed: Option<&str>, root: Option<&str>) -> (r:
    SdkResult<()>)
    ensures
        match agent_problem(
            match key { Some(k) => Some(k@), None => None },
            match endorsed { Some(k) => Some(k@), None => None },
            match root { Some(k) => Some(k@), None => None },
        ) {
            None => r is Ok,
            Some(Some(m)) => r matches Err(Error::Agent(x)) && x@ == m,
            Some(None) => r matches Err(Error::Mtls(_)),
        },
{
    if key.is_none() {
        return Err(agent_error("missing identity/machine.key — run register first"));
    }
    let endorsed = match endorsed {
        Some(e) => e,
        None => return Err(agent_error("missing identity/platform-endorsed.crt — enroll or pull first")),
    };
    let root = match root {
        Some(p) => p,
        None => return Err(agent_error("missing identity/platform-ca.crt — enroll or pull first")),
    };
    match verify_ed25519_cert_against_issuer(endorsed, root) {
        Ok(true) => Ok(()),
        Ok(false) => Err(agent_error("platform-endorsed.crt does not verify against platform-ca.crt")),
        Err(e) => Err(Error::Mtls(e)),
    }
}

/// The machine identity a stored state names, `"unknown"` without one.
pub fn agent_machine_identity(state: Option<MachineState>) -> (r: String)
    ensures
        r@ == match state {
            Some(s) => s.machine_identity@,
            None => "unknown"@,
        },
{
    match state {
        Some(s) => s.machine_identity,
        None => copy_string("unknown"),
    }
}

/// Loads the agent identity from the store: the machine key, the
/// Platform-endorsed leaf and the Platform root (each read once the one
/// before is there), checked by [`check_agent_material`].
pub fn load_agent_identity<S: KeyStore>(store: &S) -> (r: SdkResult<AgentIdentity>)
    ensures
        r matches Ok(a) ==> cert_check_spec(a.endorsed_pem@, a.platform_root_pem@) == Ok::<
            bool,
            Option<Seq<char>>,
        >(true),
{
    let key = store.load_string(KEY_MACHINE_KEY)?;
    let endorsed = match key {
        Some(_) => store.load_string(KEY_PLATFORM_ENDORSED)?,
        None => None,
    };
    let root = match endorsed {
        Some(_) => store.load_string(KEY_PLATFORM_CA)?,
        None => None,
    };
    check_agent_material(
        match &key {
            Some(k) => Some(k.as_str()),
            None => None,
        },
        match &endorsed {
            Some(e) => Some(e.as_str()),
            None => None,
        },
        match &root {
            Some(p) => Some(p.as_str()),
            None => None,
        },
    )?;
    let (key_pem, endorsed_pem, platform_root_pem) = match (key, endorsed, root) {
        (Some(k), Some(e), Some(p)) => (k, e, p),
        _ => vstd::pervasive::unreached(),
    };
    let machine_identity = agent_machine_identity(load_state(store)?);
    Ok(AgentIdentity { machine_identity, endorsed_pem, key_pem, platform_root_pem })
}

/// The warning for a state directory that does not suit the user the agent
/// runs as: root with keys outside `/var/lib` and `/etc`, or another user
/// with keys under `/var/lib`.
pub fn state_dir_warning(uid: u32, state_dir: &str, product: &str) -> (r: Option<String>)
    ensures
        uid == 0 && !has_prefix(state_dir@, "/var/lib"@) && !has_prefix(state_dir@, "/etc"@) ==> (r matches Some(
            m,
        ) && m@ == "running as root with state dir "@ + state_dir@
            + " — prefer /var/lib/"@ + product@ + " so keys are not under a login home"@),
        uid != 0 && has_prefix(state_dir@, "/var/lib"@) ==> (r matches Some(m) && m@ == "non-root process using "@
            + state_dir@ + " — this directory is usually root-owned"@),
        (uid == 0 && (has_prefix(state_dir@, "/var/lib"@) || has_prefix(state_dir@, "/etc"@))) || (uid != 0
            && !has_prefix(state_dir@, "/var/lib"@)) ==> r is None,
{
    let dir = chars_of(state_dir);
    let under_var_lib = starts_with(&dir, &chars_of("/var/lib"));
    if uid == 0 && !under_var_lib && !starts_with(&dir, &chars_of("/etc")) {
        let m = concat_chars(&chars_of("running as root with state dir "), &dir);
        let m = concat_chars(&m, &chars_of(" — prefer /var/lib/"));
        let m = concat_chars(&m, &chars_of(product));
        let m = concat_chars(&m, &chars_of(" so keys are not under a login home"));
        return Some(string_of(&m));
    }
    if uid != 0 && under_var_lib {
        let m = concat_chars(&chars_of("non-root process using "), &dir);
        let m = concat_chars(&m, &chars_of(" — this directory is usually root-owned"));
        return Some(string_of(&m));
    }
    None
}

} // verus!
