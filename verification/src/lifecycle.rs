//! Renewal, rotation and decommissioning: the checks and the key store
//! transitions around the platform calls.

use vstd::prelude::*;
use crate::credential::{copy_credential, same_credential, CapabilityCredential};
use crate::enrollment::{store_platform_endorsement, IssuedCerts};
use crate::json::{render_json_pretty, JsonValue};
use crate::keystore::{
    KeyStore, KEY_CHAIN, KEY_CREDENTIAL, KEY_MACHINE_CRT, KEY_MACHINE_CSR, KEY_MACHINE_KEY,
    KEY_MACHINE_KEY_NEW, KEY_ORG_CA, KEY_PLATFORM_CA, KEY_PLATFORM_ENDORSED,
};
use crate::mtls::{
    MtlsError, b64_url_nopad_encode, ed25519_public_of, is_okp_jwk, jwks_from_private_pem, pkcs8_pem_seed, ski_spec,
};
use crate::models::view_opt;
use crate::sdk_error::{Error, SdkResult};
use crate::state::{load_state, save_state, StateV};
use crate::text::{chars_eq, chars_of, concat_chars, copy_string, string_of, trim_chars, trim_seq};
use crate::types::{status_text, transition_allowed, EnrollmentStatus, MachineState};

verus! {

/// What an Entity CA signed for a renewal.
#[derive(Debug)]
pub struct RenewParams {
    pub leaf_pem: String,
    pub chain_pem: String,
    pub credential: CapabilityCredential,
    pub issuer_ski: String,
}

/// `POST /machine-renew`: the old key's id, the new CSR and key, and what
/// was signed for it.
#[derive(Debug)]
pub struct MachineRenewRequest {
    pub ski: String,
    pub csr_pem: String,
    pub public_jwk: Option<JsonValue>,
    pub leaf_pem: String,
    pub chain_pem: String,
    pub credential: CapabilityCredential,
    pub issuer_ski: String,
}

fn lifecycle_error(msg: &str) -> (e: Error)
    ensures
        e matches Error::Lifecycle(m) && m@ == msg@,
{
    Error::Lifecycle(string_of(&chars_of(msg)))
}

fn status_error(prefix: &str, status: EnrollmentStatus, suffix: &str) -> (e: Error)
    ensures
        e matches Error::Lifecycle(m) && m@ == prefix@ + status_text(status) + suffix@,
{
    let m = concat_chars(&chars_of(prefix), &chars_of(status.as_str()));
    let m = concat_chars(&m, &chars_of(suffix));
    Error::Lifecycle(string_of(&m))
}

fn load_required_state<S: KeyStore>(store: &S) -> (r: SdkResult<MachineState>)
    ensures
        r matches Ok(s) ==> exists|bytes: Seq<u8>|
            #[trigger] crate::state::stored_state_text(crate::keystore::utf8_lossy(bytes), s@),
{
    match load_state(store)? {
        Some(s) => Ok(s),
        None => Err(lifecycle_error("no local machine state")),
    }
}

/// What a renewal preparation does for a stored state.
#[derive(Clone, Copy, Debug, PartialEq, Eq, Structural)]
pub enum RenewalStep {
    /// A renewal is under way with its new key and CSR stored: hand them back.
    Resume,
    /// The machine is active: make a new key and CSR.
    Start,
}

/// The renewal step for a state: `Resume` for `Renewing` or `Rotating` with
/// the new key and CSR stored, `Start` for `Active`, else refused.
pub open spec fn renewal_step_spec(status: EnrollmentStatus, has_new_key: bool, has_csr: bool) -> Option<RenewalStep> {
    match status {
        EnrollmentStatus::Renewing | EnrollmentStatus::Rotating => if has_new_key && has_csr {
            Some(RenewalStep::Resume)
        } else {
            None
        },
        EnrollmentStatus::Active => Some(RenewalStep::Start),
        _ => None,
    }
}

/// The refusal text for a machine that cannot renew.
pub open spec fn not_active_text(status: EnrollmentStatus) -> Seq<char> {
    "machine must be active to renew (currently "@ + status_text(status) + ")"@
}

/// Decides what a renewal preparation does with the stored state, given
/// whether the new key and the CSR are stored.
pub fn renewal_step(st: &MachineState, has_new_key: bool, has_csr: bool) -> (r: SdkResult<RenewalStep>)
    ensures
        match renewal_step_spec(st.status, has_new_key, has_csr) {
            Some(step) => r == Ok::<RenewalStep, Error>(step),
            None => r matches Err(Error::Lifecycle(m)) && m@ == not_active_text(st.status),
        },
{
    match st.status {
        EnrollmentStatus::Renewing | EnrollmentStatus::Rotating => {
            if has_new_key && has_csr {
                Ok(RenewalStep::Resume)
            } else {
                Err(status_error("machine must be active to renew (currently ", st.status, ")"))
            }
        },
        EnrollmentStatus::Active => Ok(RenewalStep::Start),
        other => Err(status_error("machine must be active to renew (currently ", other, ")")),
    }
}

/// A renewal preparation of stored state `s0` that gives state `s`, key id
/// `ski` and CSR `csr`: resumed with the stored new key, or started from
/// `Active` with the key `generate_key` made and the CSR `build_csr` made
/// for it and the machine identity.
pub open spec fn prepared_from<K: FnOnce() -> SdkResult<(String, String)>, C: FnOnce(&str, &str) -> SdkResult<String>>(
    s0: StateV,
    s: StateV,
    ski: Seq<char>,
    csr: String,
    generate_key: K,
    build_csr: C,
) -> bool {
    &&& exists|bytes: Seq<u8>| #[trigger] crate::state::stored_state_text(crate::keystore::utf8_lossy(bytes), s0)
    &&& ({
        ||| (renewal_step_spec(s0.status, true, true) == Some(RenewalStep::Resume) && s == s0
            && exists|pem: Seq<char>| #[trigger] renewal_key_names(pem, ski))
        ||| (renewal_step_spec(s0.status, true, true) == Some(RenewalStep::Start) && s == (StateV {
            status: EnrollmentStatus::Renewing,
            ..s0
        }) && exists|pem: String, pem_ref: &str, host: &str, key_ski: String|
            {
                &&& #[trigger] generate_key.ensures((), Ok::<(String, String), Error>((pem, key_ski)))
                &&& key_ski@ == ski
                &&& pem_ref@ == pem@
                &&& host@ == s0.machine_identity
                &&& #[trigger] build_csr.ensures((pem_ref, host), Ok::<String, Error>(csr))
            })
    })
}

/// Prepares a replacement key and its CSR; the old key stays in use until
/// the renewal completes. A renewal already under way (`Renewing` or
/// `Rotating` with the new key and CSR stored) is resumed; otherwise the
/// machine must be `Active`, and `generate_key` (a PKCS#8 PEM and its
/// subject key id) and `build_csr` (for that key and the machine identity)
/// make the new material. Returns the state, the new key's id and the CSR.
/// The store is read until [`renewal_step`] decides; nothing is written
/// before it, and nothing at all when it refuses or resumes.
pub fn prepare_renewal<S: KeyStore, K: FnOnce() -> SdkResult<(String, String)>, C: FnOnce(&str, &str) -> SdkResult<String>>(
    store: &S,
    generate_key: K,
    build_csr: C,
) -> (r: SdkResult<(MachineState, String, String)>)
    requires
        generate_key.requires(()),
        forall|pem: &str, host: &str| build_csr.requires((pem, host)),
    ensures
        r matches Ok((s, ski, csr)) ==> exists|s0: StateV| #[trigger] prepared_from(s0, s@, ski@, csr, generate_key, build_csr),
        r matches Ok((s, _, _)) ==> s.status == EnrollmentStatus::Renewing || s.status
            == EnrollmentStatus::Rotating,
{
    let ghost gk = generate_key;
    let ghost bc = build_csr;
    let mut state = load_required_state(store)?;
    let renewing = state.status == EnrollmentStatus::Renewing || state.status == EnrollmentStatus::Rotating;
    let has_new_key = if renewing { store.has_key(KEY_MACHINE_KEY_NEW)? } else { false };
    let has_csr = if renewing && has_new_key { store.has_key(KEY_MACHINE_CSR)? } else { false };
    let ghost s0 = state@;
    match renewal_step(&state, has_new_key, has_csr)? {
        RenewalStep::Resume => {
            let pem = match store.load_string(KEY_MACHINE_KEY_NEW)? {
                Some(p) => p,
                None => return Err(lifecycle_error("missing identity/machine.key.new")),
            };
            let csr = match store.load_string(KEY_MACHINE_CSR)? {
                Some(c) => c,
                None => return Err(lifecycle_error("missing identity/machine.csr")),
            };
            let (_p, _u, ski) = match jwks_from_private_pem(pem.as_str()) {
                Ok(t) => t,
                Err(e) => return Err(Error::Mtls(e)),
            };
            assert(renewal_key_names(pem@, ski@));
            proof {
                let b = choose|bytes: Seq<u8>| #[trigger] crate::state::stored_state_text(crate::keystore::utf8_lossy(bytes), s0);
                assert(crate::state::stored_state_text(crate::keystore::utf8_lossy(b), s0));
                assert(renewal_step_spec(s0.status, true, true) == Some(RenewalStep::Resume));
                assert(state@ == s0);
                assert(exists|p: Seq<char>| #[trigger] renewal_key_names(p, ski@));
                assert(prepared_from(s0, state@, ski@, csr, gk, bc));
            }
            let out: SdkResult<(MachineState, String, String)> = Ok((state, ski, csr));
            assert(out matches Ok((s1, k1, c1)) && prepared_from(s0, s1@, k1@, c1, generate_key, build_csr));
            return out;
        },
        RenewalStep::Start => {},
    }
    let made = generate_key();
    let (private_pem, ski) = match made {
        Ok(t) => t,
        Err(e) => return Err(e),
    };
    assert(generate_key.ensures((), Ok::<(String, String), Error>((private_pem, ski))));
    store.save_string(KEY_MACHINE_KEY_NEW, private_pem.as_str())?;
    let host_s = copy_string(state.machine_identity.as_str());
    let pem_ref = private_pem.as_str();
    let host = host_s.as_str();
    let built = build_csr(pem_ref, host);
    let csr_pem = match built {
        Ok(c) => c,
        Err(e) => return Err(e),
    };
    assert(build_csr.ensures((pem_ref, host), Ok::<String, Error>(csr_pem)));
    store.save_string(KEY_MACHINE_CSR, csr_pem.as_str())?;
    state.transition(EnrollmentStatus::Renewing)?;
    save_state(store, &state)?;
    proof {
        let b = choose|bytes: Seq<u8>| #[trigger] crate::state::stored_state_text(crate::keystore::utf8_lossy(bytes), s0);
        assert(crate::state::stored_state_text(crate::keystore::utf8_lossy(b), s0));
        assert(state@ == (StateV { status: EnrollmentStatus::Renewing, ..s0 }));
        assert(renewal_step_spec(s0.status, true, true) == Some(RenewalStep::Start));
        assert(exists|pem: String, pr: &str, h: &str, k: String|
            {
                &&& #[trigger] generate_key.ensures((), Ok::<(String, String), Error>((pem, k)))
                &&& k@ == ski@
                &&& pr@ == pem@
                &&& h@ == s0.machine_identity
                &&& #[trigger] build_csr.ensures((pr, h), Ok::<String, Error>(csr_pem))
            }) by {
            assert(pem_ref@ == private_pem@);
            assert(host@ == s0.machine_identity);
        }
        assert(prepared_from(s0, state@, ski@, csr_pem, gk, bc));
    }
    let out: SdkResult<(MachineState, String, String)> = Ok((state, ski, csr_pem));
    assert(out matches Ok((s1, k1, c1)) && prepared_from(s0, s1@, k1@, c1, generate_key, build_csr));
    out
}

/// `ski` is the key id of the Ed25519 key in PKCS#8 PEM `pem`.
pub open spec fn renewal_key_names(pem: Seq<char>, ski: Seq<char>) -> bool {
    pkcs8_pem_seed(pem) matches Some(seed) && ski == ski_spec(
        "OKP"@,
        "Ed25519"@,
        b64_url_nopad_encode(ed25519_public_of(seed)),
    )
}

/// The refusal text for a machine that is not renewing.
pub open spec fn not_renewing_text(status: EnrollmentStatus) -> Seq<char> {
    "machine is not in a renewal transition (currently "@ + status_text(status) + ")"@
}

/// The checks before a renewal is submitted, on what the store holds: the
/// state, the new key's PEM and the CSR. A renewal must be under way, the
/// old key's id recorded, the new key stored and named by the renewal
/// credential, and the CSR stored. Gives the state, the new key's PEM, the
/// old key's id and the request to send.
pub fn renewal_request_from(
    state: MachineState,
    new_pem: Option<String>,
    csr: Option<String>,
    params: &RenewParams,
) -> (r: SdkResult<(MachineState, String, String, MachineRenewRequest)>)
    ensures
        !(state.status == EnrollmentStatus::Renewing || state.status == EnrollmentStatus::Rotating) ==> (r matches Err(
            Error::Lifecycle(m),
        ) && m@ == not_renewing_text(state.status)),
        (state.status == EnrollmentStatus::Renewing || state.status == EnrollmentStatus::Rotating) ==> match state.ski {
            None => r matches Err(Error::Lifecycle(m)) && m@ == "state.json is missing ski"@,
            Some(old_ski) => match new_pem {
                None => r matches Err(Error::Lifecycle(m)) && m@
                    == "missing identity/machine.key.new — run prepare_renewal"@,
                Some(p) => match pkcs8_pem_seed(p@) {
                    None => r matches Err(Error::Mtls(MtlsError::Pkcs8(_))),
                    Some(seed) => {
                        let x = b64_url_nopad_encode(ed25519_public_of(seed));
                        let new_ski = ski_spec("OKP"@, "Ed25519"@, x);
                        if params.credential.ski@ != new_ski {
                            r matches Err(Error::Lifecycle(m)) && m@
                                == "renewal credential SKI does not match machine.key.new"@
                        } else {
                            match csr {
                                None => r matches Err(Error::Lifecycle(m)) && m@ == "missing CSR"@,
                                Some(c) => r matches Ok((s, pem, old, req)) && {
                                    &&& s == state
                                    &&& pem@ == p@
                                    &&& old@ == old_ski@
                                    &&& req.ski@ == old_ski@
                                    &&& req.csr_pem@ == c@
                                    &&& req.public_jwk matches Some(j) && is_okp_jwk(j, None, x, new_ski)
                                    &&& req.leaf_pem@ == params.leaf_pem@
                                    &&& req.chain_pem@ == params.chain_pem@
                                    &&& req.issuer_ski@ == params.issuer_ski@
                                    &&& same_credential(req.credential, params.credential)
                                },
                            }
                        }
                    },
                },
            },
        },
{
    if state.status != EnrollmentStatus::Renewing && state.status != EnrollmentStatus::Rotating {
        return Err(
            status_error("machine is not in a renewal transition (currently ", state.status, ")"),
        );
    }
    let old_ski = match &state.ski {
        Some(s) => copy_string(s.as_str()),
        None => return Err(lifecycle_error("state.json is missing ski")),
    };
    let new_pem = match new_pem {
        Some(p) => p,
        None => return Err(lifecycle_error("missing identity/machine.key.new — run prepare_renewal")),
    };
    let (_private_jwk, public_jwk, new_ski) = match jwks_from_private_pem(new_pem.as_str()) {
        Ok(t) => t,
        Err(e) => return Err(Error::Mtls(e)),
    };
    if !chars_eq(&chars_of(params.credential.ski.as_str()), &chars_of(new_ski.as_str())) {
        return Err(lifecycle_error("renewal credential SKI does not match machine.key.new"));
    }
    let csr_pem = match csr {
        Some(c) => c,
        None => return Err(lifecycle_error("missing CSR")),
    };
    let req = MachineRenewRequest {
        ski: copy_string(old_ski.as_str()),
        csr_pem,
        public_jwk: Some(public_jwk),
        leaf_pem: copy_string(params.leaf_pem.as_str()),
        chain_pem: copy_string(params.chain_pem.as_str()),
        credential: copy_credential(&params.credential),
        issuer_ski: copy_string(params.issuer_ski.as_str()),
    };
    Ok((state, new_pem, old_ski, req))
}

/// The checks before a renewal is submitted (see [`renewal_request_from`]),
/// on the stored state, new key and CSR.
pub fn renewal_request<S: KeyStore>(store: &S, params: &RenewParams) -> (r: SdkResult<
    (MachineState, String, String, MachineRenewRequest),
>)
    ensures
        r matches Ok((s, _, old_ski, req)) ==> {
            &&& (s.status == EnrollmentStatus::Renewing || s.status == EnrollmentStatus::Rotating)
            &&& view_opt(s.ski) == Some(old_ski@)
            &&& req.ski@ == old_ski@
            &&& req.leaf_pem@ == params.leaf_pem@
            &&& req.chain_pem@ == params.chain_pem@
            &&& req.issuer_ski@ == params.issuer_ski@
            &&& same_credential(req.credential, params.credential)
        },
{
    let state = load_required_state(store)?;
    let new_pem = store.load_string(KEY_MACHINE_KEY_NEW)?;
    let csr = store.load_string(KEY_MACHINE_CSR)?;
    renewal_request_from(state, new_pem, csr, params)
}

/// A text that is there and not blank, else the fallback.
fn nonblank_or(o: &Option<String>, fallback: &String) -> (r: String)
    ensures
        r@ == match view_opt(*o) {
            Some(s) => if trim_seq(s).len() > 0 {
                s
            } else {
                fallback@
            },
            None => fallback@,
        },
{
    match o {
        Some(s) => {
            if trim_chars(&chars_of(s.as_str())).len() > 0 {
                copy_string(s.as_str())
            } else {
                copy_string(fallback.as_str())
            }
        },
        None => copy_string(fallback.as_str()),
    }
}

/// The state after a completed renewal: `Active` under the new key.
pub open spec fn renewed_state(s: StateV, old_ski: Seq<char>, ski: Seq<char>, not_after: Seq<char>) -> StateV {
    StateV {
        renewed_from_ski: Some(old_ski),
        ski: Some(ski),
        cert_expires_at: Some(not_after),
        status: EnrollmentStatus::Active,
        ..s
    }
}

/// Stores what a renewal issued (falling back to what was submitted for a
/// blank leaf or chain and a missing credential), swaps in the new key,
/// records the old key's id and returns to `Active`.
pub fn persist_renewed<S: KeyStore>(
    store: &S,
    state: &mut MachineState,
    new_pem: &str,
    old_ski: &str,
    issued: IssuedCerts,
    submitted: RenewParams,
) -> (r: SdkResult<()>)
    ensures
        r is Ok ==> transition_allowed(old(state).status, EnrollmentStatus::Active) && ({
            let cred = match issued.credential {
                Some(c) => c,
                None => submitted.credential,
            };
            final(state)@ == renewed_state(old(state)@, old_ski@, cred.ski@, cred.not_after@)
        }),
{
    let leaf = nonblank_or(&issued.cert_pem, &submitted.leaf_pem);
    store.save_string(KEY_MACHINE_CRT, leaf.as_str())?;
    let chain = nonblank_or(&issued.chain_pem, &submitted.chain_pem);
    store.save_string(KEY_CHAIN, chain.as_str())?;
    store_platform_endorsement(
        store,
        match &issued.platform_root_pem {
            Some(p) => Some(p.as_str()),
            None => None,
        },
        match &issued.platform_cert_pem {
            Some(p) => Some(p.as_str()),
            None => None,
        },
    )?;
    let credential = match issued.credential {
        Some(c) => c,
        None => submitted.credential,
    };
    store.save_string(KEY_MACHINE_KEY, new_pem)?;
    store.secure_delete(KEY_MACHINE_KEY_NEW)?;
    let ski = copy_string(credential.ski.as_str());
    let not_after = copy_string(credential.not_after.as_str());
    let doc = crate::enrollment::credential_document(credential);
    store.save_string(KEY_CREDENTIAL, render_json_pretty(&doc).as_str())?;
    state.renewed_from_ski = Some(copy_string(old_ski));
    state.ski = Some(ski);
    state.cert_expires_at = Some(not_after);
    state.transition(EnrollmentStatus::Active)?;
    save_state(store, state)?;
    Ok(())
}

/// The key id a decommission revokes: the machine must be `Active`,
/// `Renewing` or `Rotating` and know its key id.
pub fn decommission_check(state: &MachineState) -> (r: SdkResult<String>)
    ensures
        match view_opt(state.ski) {
            None => r matches Err(Error::Lifecycle(m)) && m@ == "state.json is missing ski"@,
            Some(ski) => if state.status == EnrollmentStatus::Active || state.status
                == EnrollmentStatus::Renewing || state.status == EnrollmentStatus::Rotating {
                r matches Ok(s) && s@ == ski
            } else {
                r matches Err(Error::Lifecycle(m)) && m@ == "machine cannot be decommissioned from status "@
                    + status_text(state.status)
            },
        },
{
    let ski = match &state.ski {
        Some(s) => copy_string(s.as_str()),
        None => return Err(lifecycle_error("state.json is missing ski")),
    };
    match state.status {
        EnrollmentStatus::Active | EnrollmentStatus::Renewing | EnrollmentStatus::Rotating => Ok(ski),
        other => {
            let m = concat_chars(
                &chars_of("machine cannot be decommissioned from status "),
                &chars_of(other.as_str()),
            );
            Err(Error::Lifecycle(string_of(&m)))
        },
    }
}

/// Securely deletes the key and certificate material (the state stays as
/// audit metadata).
pub fn wipe_secrets<S: KeyStore>(store: &S) -> SdkResult<()> {
    let keys = vec![
        KEY_MACHINE_KEY,
        KEY_MACHINE_KEY_NEW,
        KEY_MACHINE_CSR,
        KEY_MACHINE_CRT,
        KEY_ORG_CA,
        KEY_PLATFORM_CA,
        KEY_PLATFORM_ENDORSED,
        KEY_CHAIN,
        KEY_CREDENTIAL,
    ];
    let mut i: usize = 0;
    while i < keys.len()
        decreases keys.len() - i,
    {
        store.secure_delete(keys[i])?;
        i += 1;
    }
    Ok(())
}

/// Marks a decommissioned machine: `Decommissioned`, no pull token.
pub fn mark_decommissioned(state: &mut MachineState) -> (r: SdkResult<()>)
    ensures
        transition_allowed(old(state).status, EnrollmentStatus::Decommissioned) ==> r is Ok
            && final(state)@ == (StateV {
            status: EnrollmentStatus::Decommissioned,
            pull_token: None,
            ..old(state)@
        }),
        !transition_allowed(old(state).status, EnrollmentStatus::Decommissioned) ==> r is Err
            && *final(state) == *old(state),
{
    state.transition(EnrollmentStatus::Decommissioned)?;
    state.pull_token = None;
    Ok(())
}

/// A renewal signs with the Entity CA of the machine's own entity.
pub fn renew_ca_check(ca_entity_id: &str, state: &MachineState) -> (r: SdkResult<()>)
    ensures
        r is Ok <==> ca_entity_id@ == state.entity_id@,
        r matches Err(e) ==> (e matches Error::Lifecycle(m) && m@ == "Entity CA "@ + ca_entity_id@
            + " does not match machine entity "@ + state.entity_id@),
{
    if chars_eq(&chars_of(ca_entity_id), &chars_of(state.entity_id.as_str())) {
        return Ok(());
    }
    let m = concat_chars(&chars_of("Entity CA "), &chars_of(ca_entity_id));
    let m = concat_chars(&m, &chars_of(" does not match machine entity "));
    let m = concat_chars(&m, &chars_of(state.entity_id.as_str()));
    Err(Error::Lifecycle(string_of(&m)))
}

} // verus!
