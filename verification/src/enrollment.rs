//! Enrollment: what an approved enrollment delivers, and how the machine
//! state and the key store take it in.

use vstd::prelude::*;
use crate::credential::{CapabilityCredential, Capability, PlatformCosign};
use crate::json::{get, get_spec, member_of, number_of_u64, push_member, render_json_pretty, JsonValue};
use crate::text::nat_decimal;
use crate::keystore::{
    KeyStore, KEY_CHAIN, KEY_CREDENTIAL, KEY_MACHINE_CRT, KEY_MACHINE_CSR, KEY_MACHINE_KEY, KEY_ORG_CA,
    KEY_PLATFORM_CA,
    KEY_PLATFORM_ENDORSED,
};
use crate::mtls::{
    b64_url_nopad_encode, cert_check_spec, ed25519_public_of, is_okp_jwk, jwks_from_private_pem, pkcs8_pem_seed,
    ski_spec, verify_ed25519_cert_against_issuer,
};
use crate::sdk_error::{Error, SdkResult};
use crate::models::view_opt;
use crate::entity_ca::{load_entity_ca, EntityCaMaterial};
use crate::state::{opt_member_is, text_member_is, StateV};
use crate::text::{
    chars_eq, chars_of, concat_chars, copy_string, debug_quoted, debug_str, has_prefix, lower_chars,
    lower_seq, split_chars, split_seq, starts_with, string_of,
};
use crate::identity::{identity_problem, MachineIdentity};
use crate::types::{transition_refused, enroll_allowed, status_text, transition_allowed, EnrollmentStatus, KeyAlgo, MachineKind, MachineState};

verus! {

/// Certificate and credential material returned by enroll, pull, approve
/// and renew.
#[derive(Debug)]
pub struct IssuedCerts {
    pub credential: Option<CapabilityCredential>,
    pub cert_pem: Option<String>,
    pub chain_pem: Option<String>,
    pub platform_cert_pem: Option<String>,
    pub platform_root_pem: Option<String>,
    /// The envelope co-signature of the platform certificate.
    pub platform_cert_cosign: Option<JsonValue>,
}

/// What polling a pending enrollment answers.
#[derive(Debug)]
pub struct EnrollPullResponse {
    pub status: String,
    pub enroll_id: Option<String>,
    pub issued: IssuedCerts,
}

// ---------------------------------------------------------------------------
// PEM blocks
// ---------------------------------------------------------------------------

/// `line` without one trailing `\r`.
pub open spec fn strip_cr(line: Seq<char>) -> Seq<char> {
    if line.len() > 0 && line.last() == '\r' {
        line.drop_last()
    } else {
        line
    }
}

/// `str::lines`: split at `\n`, a final empty piece dropped, a trailing
/// `\r` removed from each line.
pub open spec fn lines_seq(s: Seq<char>) -> Seq<Seq<char>> {
    let parts = split_seq(s, '\n');
    let kept = if parts.len() > 0 && parts.last().len() == 0 {
        parts.drop_last()
    } else {
        parts
    };
    kept.map_values(|l: Seq<char>| strip_cr(l))
}

/// Scanning lines for PEM blocks: `(in a block, the block so far, the last
/// complete block)` after the lines before `i`.
pub open spec fn pem_scan(lines: Seq<Seq<char>>, i: int) -> (bool, Seq<char>, Option<Seq<char>>)
    decreases i,
{
    if i <= 0 {
        (false, Seq::empty(), None)
    } else {
        let (in_block, current, last) = pem_scan(lines, i - 1);
        let line = lines[i - 1];
        if has_prefix(line, "-----BEGIN "@) {
            (true, line.push('\n'), last)
        } else if in_block {
            let cur = current + line.push('\n');
            if has_prefix(line, "-----END "@) {
                (false, cur, Some(cur))
            } else {
                (true, cur, last)
            }
        } else {
            (in_block, current, last)
        }
    }
}

/// The last complete `-----BEGIN …` / `-----END …` block of a PEM text,
/// each of its lines ending in `\n`.
pub open spec fn last_pem_block_spec(pem: Seq<char>) -> Option<Seq<char>> {
    let lines = lines_seq(pem);
    pem_scan(lines, lines.len() as int).2
}

fn lines_of(s: &str) -> (r: Vec<Vec<char>>)
    ensures
        r@.len() == lines_seq(s@).len(),
        forall|i: int| 0 <= i < r@.len() ==> (#[trigger] r@[i])@ == lines_seq(s@)[i],
{
    let parts = split_chars(&chars_of(s), '\n');
    let ghost p = split_seq(s@, '\n');
    let n = if parts.len() > 0 && parts[parts.len() - 1].len() == 0 {
        parts.len() - 1
    } else {
        parts.len()
    };
    let ghost kept = if p.len() > 0 && p.last().len() == 0 {
        p.drop_last()
    } else {
        p
    };
    assert(kept.len() == n);
    let mut out: Vec<Vec<char>> = Vec::new();
    let mut i: usize = 0;
    while i < n
        invariant
            n <= parts@.len(),
            parts@.len() == p.len(),
            forall|j: int| 0 <= j < parts@.len() ==> (#[trigger] parts@[j])@ == p[j],
            kept.len() == n,
            forall|j: int| 0 <= j < n ==> #[trigger] kept[j] == p[j],
            i <= n,
            out@.len() == i,
            forall|j: int| 0 <= j < i ==> (#[trigger] out@[j])@ == strip_cr(p[j]),
        decreases n - i,
    {
        let line = &parts[i];
        let mut l: Vec<char> = Vec::new();
        let keep = if line.len() > 0 && line[line.len() - 1] == '\r' {
            line.len() - 1
        } else {
            line.len()
        };
        let mut k: usize = 0;
        while k < keep
            invariant
                keep <= line@.len(),
                k <= keep,
                l@ == line@.subrange(0, k as int),
            decreases keep - k,
        {
            l.push(line[k]);
            k += 1;
        }
        assert(l@ =~= strip_cr(line@));
        out.push(l);
        i += 1;
    }
    out
}

/// The last complete PEM block of a PEM text (the CA at the end of a
/// chain), if there is one.
pub fn last_pem_block(pem: &str) -> (r: Option<String>)
    ensures
        match last_pem_block_spec(pem@) {
            Some(b) => r matches Some(s) && s@ == b,
            None => r is None,
        },
{
    let lines = lines_of(pem);
    let ghost ls = lines_seq(pem@);
    let begin = chars_of("-----BEGIN ");
    let end = chars_of("-----END ");
    let mut current: Vec<char> = Vec::new();
    let mut in_block = false;
    let mut last: Option<Vec<char>> = None;
    let mut i: usize = 0;
    while i < lines.len()
        invariant
            i <= lines@.len(),
            lines@.len() == ls.len(),
            forall|j: int| 0 <= j < lines@.len() ==> (#[trigger] lines@[j])@ == ls[j],
            begin@ == "-----BEGIN "@,
            end@ == "-----END "@,
            pem_scan(ls, i as int).0 == in_block,
            pem_scan(ls, i as int).1 == current@,
            pem_scan(ls, i as int).2 == match last {
                Some(b) => Some(b@),
                None => None,
            },
        decreases lines.len() - i,
    {
        let line = &lines[i];
        if starts_with(line, &begin) {
            in_block = true;
            current = Vec::new();
            let mut k: usize = 0;
            while k < line.len()
                invariant
                    k <= line@.len(),
                    current@ == line@.subrange(0, k as int),
                decreases line.len() - k,
            {
                current.push(line[k]);
                k += 1;
            }
            assert(current@ =~= line@);
            current.push('\n');
        } else if in_block {
            current = concat_chars(&current, line);
            current.push('\n');
            if starts_with(line, &end) {
                let mut copy: Vec<char> = Vec::new();
                let mut k: usize = 0;
                while k < current.len()
                    invariant
                        k <= current@.len(),
                        copy@ == current@.subrange(0, k as int),
                    decreases current.len() - k,
                {
                    copy.push(current[k]);
                    k += 1;
                }
                assert(copy@ =~= current@);
                last = Some(copy);
                in_block = false;
            }
        }
        i += 1;
    }
    match last {
        Some(b) => Some(string_of(&b)),
        None => None,
    }
}

// ---------------------------------------------------------------------------
// Endorsement and local key checks
// ---------------------------------------------------------------------------

/// Stores the Platform root and the Platform-endorsed certificate, and
/// checks that the endorsement verifies against the root (the one given,
/// else the one already stored).
pub fn store_platform_endorsement<S: KeyStore>(
    store: &S,
    platform_root_pem: Option<&str>,
    platform_cert_pem: Option<&str>,
) -> (r: SdkResult<()>)
    ensures
        platform_root_pem is None && platform_cert_pem is None ==> r is Ok,
        (r is Ok && platform_cert_pem is Some && platform_root_pem is Some) ==> cert_check_spec(
            platform_cert_pem->Some_0@,
            platform_root_pem->Some_0@,
        ) == Ok::<bool, Option<Seq<char>>>(true),
        r is Ok && platform_cert_pem is Some ==> exists|root: Seq<char>|
            cert_check_spec(platform_cert_pem->Some_0@, root) == Ok::<bool, Option<Seq<char>>>(true),
{
    match platform_root_pem {
        Some(root) => store.save_string(KEY_PLATFORM_CA, root)?,
        None => {},
    }
    let endorsed = match platform_cert_pem {
        Some(e) => e,
        None => return Ok(()),
    };
    store.save_string(KEY_PLATFORM_ENDORSED, endorsed)?;
    let stored_root = store.load_string(KEY_PLATFORM_CA)?;
    let root: &str = match platform_root_pem {
        Some(r) => r,
        None => match &stored_root {
            Some(s) => s.as_str(),
            None => return Err(
                Error::enrollment(
                    "platform endorsement arrived without a Platform Root (HAProxy ca-file)",
                ),
            ),
        },
    };
    match verify_ed25519_cert_against_issuer(endorsed, root) {
        Ok(true) => Ok(()),
        Ok(false) => Err(
            Error::enrollment("platform endorsement does not verify against the Platform Root"),
        ),
        Err(e) => Err(Error::Mtls(e)),
    }
}

fn verify_local_key_present<S: KeyStore>(store: &S) -> SdkResult<()> {
    if !store.has_key(KEY_MACHINE_KEY)? {
        return Err(Error::enrollment("local private key is missing"));
    }
    Ok(())
}

/// The `x` of a JWK, when it is a string.
pub open spec fn jwk_x(jwk: JsonValue) -> Option<Seq<char>> {
    match get_spec(jwk, "x"@) {
        Some(JsonValue::Str(x)) => Some(x@),
        _ => None,
    }
}

fn jwk_x_exec(jwk: &JsonValue) -> (r: Option<String>)
    ensures
        match jwk_x(*jwk) {
            Some(x) => r matches Some(s) && s@ == x,
            None => r is None,
        },
{
    match get(jwk, "x") {
        Some(JsonValue::Str(x)) => Some(copy_string(x.as_str())),
        _ => None,
    }
}

/// Checks that an issued credential names the local private key: the same
/// subject key id and the same public `x`.
/// The JWK of an Ed25519 key has its `x` member.
proof fn lemma_okp_x(v: JsonValue, x: Seq<char>, kid: Seq<char>)
    requires
        is_okp_jwk(v, None, x, kid),
    ensures
        jwk_x(v) == Some(x),
{
    reveal_strlit("kty");
    reveal_strlit("crv");
    reveal_strlit("x");
    assert("kty"@.len() == 3 && "crv"@.len() == 3 && "x"@.len() == 1);
    let m = v->Object_0@;
    let m1 = m.drop_first();
    let m2 = m1.drop_first();
    assert(m1[0] == m[1]);
    assert(m2[0] == m[2]);
    assert(m[0].0@ != "x"@);
    assert(m1[0].0@ != "x"@);
    assert(m2[0].0@ == "x"@);
    assert(member_of(m2, "x"@) == Some(m2[0].1));
    assert(member_of(m1, "x"@) == member_of(m2, "x"@));
    assert(member_of(m, "x"@) == member_of(m1, "x"@));
    assert(get_spec(v, "x"@) == Some(m[2].1));
}

/// The key id and public `x` of the Ed25519 key with seed `seed`.
pub open spec fn seed_names(seed: Seq<u8>, ski: Seq<char>, x: Seq<char>) -> bool {
    let px = b64_url_nopad_encode(ed25519_public_of(seed));
    ski_spec("OKP"@, "Ed25519"@, px) == ski && px == x
}

fn verify_local_key<S: KeyStore>(store: &S, cred_ski: &str, cred_x: Option<&str>) -> (r: SdkResult<()>)
    ensures
        r is Ok ==> (cred_x matches Some(x) && exists|seed: Seq<u8>| #[trigger] seed_names(seed, cred_ski@, x@)),
{
    let pem = match store.load_string(KEY_MACHINE_KEY)? {
        Some(p) => p,
        None => return Err(Error::enrollment("local private key is missing")),
    };
    let (_private_jwk, public_jwk, ski) = match jwks_from_private_pem(pem.as_str()) {
        Ok(t) => t,
        Err(e) => return Err(Error::Mtls(e)),
    };
    if !chars_eq(&chars_of(cred_ski), &chars_of(ski.as_str())) {
        let m = concat_chars(&chars_of("issued credential SKI "), &chars_of(cred_ski));
        let m = concat_chars(&m, &chars_of(" does not match local key "));
        let m = concat_chars(&m, &chars_of(ski.as_str()));
        return Err(Error::Enrollment(string_of(&m)));
    }
    let ghost seed = pkcs8_pem_seed(pem@)->Some_0;
    proof {
        let px = b64_url_nopad_encode(ed25519_public_of(seed));
        lemma_okp_x(public_jwk, px, ski_spec("OKP"@, "Ed25519"@, px));
    }
    let local_x = jwk_x_exec(&public_jwk);
    let same = match (&local_x, cred_x) {
        (Some(a), Some(b)) => chars_eq(&chars_of(a.as_str()), &chars_of(b)),
        _ => false,
    };
    if !same {
        return Err(
            Error::enrollment("issued credential public key does not match the local private key"),
        );
    }
    assert(seed_names(seed, cred_ski@, cred_x->Some_0@));
    Ok(())
}

// ---------------------------------------------------------------------------
// Credential documents
// ---------------------------------------------------------------------------

/// The member names of a capability's document, in order.
pub open spec fn capability_keys(c: Capability) -> Seq<Seq<char>> {
    seq!["action"@, "scope"@, "delegable"@] + if c.effect is Some {
        seq!["effect"@]
    } else {
        Seq::<Seq<char>>::empty()
    }
}

/// `v` is the document of capability `c`.
pub open spec fn records_capability(v: JsonValue, c: Capability) -> bool {
    match v {
        JsonValue::Object(mm) => {
            let m = mm@;
            &&& m.map_values(|p: (String, JsonValue)| p.0@) == capability_keys(c)
            &&& text_member_is(m, "action"@, c.action@)
            &&& member_of(m, "scope"@) == Some(c.scope)
            &&& member_of(m, "delegable"@) == Some(JsonValue::Bool(c.delegable))
            &&& opt_member_is(m, "effect"@, view_opt(c.effect))
        },
        _ => false,
    }
}

/// `v` is the document of a platform co-signature.
pub open spec fn records_cosign(v: JsonValue, p: PlatformCosign) -> bool {
    match v {
        JsonValue::Object(mm) => {
            let m = mm@;
            &&& m.map_values(|q: (String, JsonValue)| q.0@) == seq!["kid"@, "signedAt"@, "signature"@]
            &&& text_member_is(m, "kid"@, p.kid@)
            &&& text_member_is(m, "signedAt"@, p.signed_at@)
            &&& text_member_is(m, "signature"@, p.signature@)
        },
        _ => false,
    }
}

/// The member names of a credential's document, in order.
pub open spec fn credential_keys(c: CapabilityCredential) -> Seq<Seq<char>> {
    let opt = |present: bool, k: Seq<char>| if present { seq![k] } else { Seq::<Seq<char>>::empty() };
    seq!["version"@, "kind"@, "entityId"@, "ski"@, "publicJwk"@, "permissions"@]
        + opt(c.zone is Some, "zone"@)
        + opt(c.host is Some, "host"@)
        + seq!["issuerSki"@, "notBefore"@, "notAfter"@]
        + opt(c.package is Some, "package"@)
        + opt(c.platform_cosign is Some, "platformCosign"@)
        + seq!["signature"@]
}

/// `v` is the document of credential `c`: camelCase members in field order,
/// the absent optional ones left out.
pub open spec fn records_credential(v: JsonValue, c: CapabilityCredential) -> bool {
    match v {
        JsonValue::Object(mm) => {
            let m = mm@;
            &&& m.map_values(|p: (String, JsonValue)| p.0@) == credential_keys(c)
            &&& member_of(m, "version"@) matches Some(JsonValue::Number(n)) && n.as_u64 == Some(
                c.version as u64,
            ) && n.as_i64 == Some(c.version as i64) && n.text@ == nat_decimal(c.version as nat)
            &&& text_member_is(m, "kind"@, crate::credential::kind_text(c.kind))
            &&& text_member_is(m, "entityId"@, c.entity_id@)
            &&& text_member_is(m, "ski"@, c.ski@)
            &&& member_of(m, "publicJwk"@) == Some(c.public_jwk)
            &&& member_of(m, "permissions"@) matches Some(JsonValue::Array(a)) && a@.len()
                == c.permissions@.len() && forall|i: int|
                0 <= i < a@.len() ==> records_capability(#[trigger] a@[i], c.permissions@[i])
            &&& opt_member_is(m, "zone"@, view_opt(c.zone))
            &&& opt_member_is(m, "host"@, view_opt(c.host))
            &&& text_member_is(m, "issuerSki"@, c.issuer_ski@)
            &&& text_member_is(m, "notBefore"@, c.not_before@)
            &&& text_member_is(m, "notAfter"@, c.not_after@)
            &&& match c.package {
                Some(p) => text_member_is(m, "package"@, crate::credential::package_text(p)),
                None => member_of(m, "package"@) is None,
            }
            &&& match c.platform_cosign {
                Some(p) => member_of(m, "platformCosign"@) matches Some(d) && records_cosign(d, p),
                None => member_of(m, "platformCosign"@) is None,
            }
            &&& text_member_is(m, "signature"@, c.signature@)
        },
        _ => false,
    }
}

/// Appends text member `key`.
fn push_text(m: &mut Vec<(String, JsonValue)>, key: &str, value: String)
    requires
        member_of(old(m)@, key@) is None,
    ensures
        final(m)@.map_values(|p: (String, JsonValue)| p.0@) == old(m)@.map_values(
            |p: (String, JsonValue)| p.0@,
        ).push(key@),
        text_member_is(final(m)@, key@, value@),
        forall|k: Seq<char>| k != key@ ==> #[trigger] member_of(final(m)@, k) == member_of(old(m)@, k),
{
    push_member(m, key, JsonValue::Str(value));
}

/// Appends text member `key` when there is a value.
fn push_opt_text(m: &mut Vec<(String, JsonValue)>, key: &str, value: Option<String>)
    requires
        member_of(old(m)@, key@) is None,
    ensures
        final(m)@.map_values(|p: (String, JsonValue)| p.0@) == old(m)@.map_values(
            |p: (String, JsonValue)| p.0@,
        ) + if value is Some {
            seq![key@]
        } else {
            Seq::<Seq<char>>::empty()
        },
        opt_member_is(final(m)@, key@, view_opt(value)),
        forall|k: Seq<char>| k != key@ ==> #[trigger] member_of(final(m)@, k) == member_of(old(m)@, k),
{
    match value {
        Some(v) => {
            push_text(m, key, v);
            assert(seq![key@] =~= Seq::<Seq<char>>::empty().push(key@));
        },
        None => {
            assert(m@.map_values(|p: (String, JsonValue)| p.0@) =~= m@.map_values(
                |p: (String, JsonValue)| p.0@,
            ) + Seq::<Seq<char>>::empty());
        },
    }
}

/// A capability as its JSON document.
fn capability_into_json(c: Capability) -> (r: JsonValue)
    ensures
        records_capability(r, c),
{
    proof {
        reveal_strlit("action");
        assert("action"@.len() == 6 && "action"@[0] == 'a');
        reveal_strlit("scope");
        assert("scope"@.len() == 5 && "scope"@[0] == 's');
        reveal_strlit("delegable");
        assert("delegable"@.len() == 9 && "delegable"@[0] == 'd');
        reveal_strlit("effect");
        assert("effect"@.len() == 6 && "effect"@[0] == 'e');
    }
    let ghost c0 = c;
    let mut m: Vec<(String, JsonValue)> = Vec::new();
    assert(m@.map_values(|p: (String, JsonValue)| p.0@) =~= Seq::<Seq<char>>::empty());
    push_text(&mut m, "action", c.action);
    push_member(&mut m, "scope", c.scope);
    push_member(&mut m, "delegable", JsonValue::Bool(c.delegable));
    push_opt_text(&mut m, "effect", c.effect);
    assert(m@.map_values(|p: (String, JsonValue)| p.0@) =~= capability_keys(c0));
    JsonValue::Object(m)
}

/// The co-signature as its JSON document.
fn cosign_into_json(p: PlatformCosign) -> (r: JsonValue)
    ensures
        records_cosign(r, p),
{
    proof {
        reveal_strlit("kid");
        assert("kid"@.len() == 3);
        reveal_strlit("signedAt");
        assert("signedAt"@.len() == 8);
        reveal_strlit("signature");
        assert("signature"@.len() == 9);
    }
    let mut s: Vec<(String, JsonValue)> = Vec::new();
    assert(s@.map_values(|q: (String, JsonValue)| q.0@) =~= Seq::<Seq<char>>::empty());
    push_text(&mut s, "kid", p.kid);
    push_text(&mut s, "signedAt", p.signed_at);
    push_text(&mut s, "signature", p.signature);
    assert(s@.map_values(|q: (String, JsonValue)| q.0@) =~= seq!["kid"@, "signedAt"@, "signature"@]);
    JsonValue::Object(s)
}

/// The documents of a list of capabilities, in order.
fn capabilities_into_json(permissions: Vec<Capability>) -> (r: Vec<JsonValue>)
    ensures
        r@.len() == permissions@.len(),
        forall|i: int| 0 <= i < r@.len() ==> records_capability(#[trigger] r@[i], permissions@[i]),
{
    let ghost all = permissions@;
    let mut perms = permissions;
    let mut rev: Vec<JsonValue> = Vec::new();
    while perms.len() > 0
        invariant
            perms@ == all.subrange(0, perms@.len() as int),
            rev@.len() + perms@.len() == all.len(),
            forall|j: int| 0 <= j < rev@.len() ==> records_capability(#[trigger] rev@[j], all[all.len() - 1 - j]),
        decreases perms.len(),
    {
        let p = perms.pop().unwrap();
        assert(perms@ =~= all.subrange(0, perms@.len() as int));
        rev.push(capability_into_json(p));
    }
    let ghost rev0 = rev@;
    let mut arr: Vec<JsonValue> = Vec::new();
    while rev.len() > 0
        invariant
            rev@ == rev0.subrange(0, rev@.len() as int),
            rev0.len() == all.len(),
            rev@.len() + arr@.len() == all.len(),
            forall|j: int| 0 <= j < rev0.len() ==> records_capability(#[trigger] rev0[j], all[all.len() - 1 - j]),
            forall|k: int| 0 <= k < arr@.len() ==> records_capability(#[trigger] arr@[k], all[k]),
        decreases rev.len(),
    {
        let v = rev.pop().unwrap();
        assert(rev@ =~= rev0.subrange(0, rev@.len() as int));
        assert(v == rev0[rev@.len() as int]);
        arr.push(v);
    }
    arr
}

/// A credential as its JSON document: camelCase members in field order, the
/// empty optional ones left out.
#[verifier::spinoff_prover]
#[verifier::rlimit(100)]
pub fn credential_document(c: CapabilityCredential) -> (r: JsonValue)
    ensures
        records_credential(r, c),
{
    proof {
        reveal_strlit("version");
        assert("version"@.len() == 7 && "version"@[0] == 'v');
        reveal_strlit("kind");
        assert("kind"@.len() == 4 && "kind"@[0] == 'k');
        reveal_strlit("entityId");
        assert("entityId"@.len() == 8 && "entityId"@[0] == 'e');
        reveal_strlit("ski");
        assert("ski"@.len() == 3 && "ski"@[0] == 's');
        reveal_strlit("publicJwk");
        assert("publicJwk"@.len() == 9 && "publicJwk"@[0] == 'p');
        reveal_strlit("permissions");
        assert("permissions"@.len() == 11 && "permissions"@[0] == 'p');
        reveal_strlit("zone");
        assert("zone"@.len() == 4 && "zone"@[0] == 'z');
        reveal_strlit("host");
        assert("host"@.len() == 4 && "host"@[0] == 'h');
        reveal_strlit("issuerSki");
        assert("issuerSki"@.len() == 9 && "issuerSki"@[0] == 'i');
        reveal_strlit("notBefore");
        assert("notBefore"@.len() == 9 && "notBefore"@[0] == 'n');
        reveal_strlit("notAfter");
        assert("notAfter"@.len() == 8 && "notAfter"@[0] == 'n');
        reveal_strlit("package");
        assert("package"@.len() == 7 && "package"@[0] == 'p');
        reveal_strlit("platformCosign");
        assert("platformCosign"@.len() == 14 && "platformCosign"@[0] == 'p');
        reveal_strlit("signature");
        assert("signature"@.len() == 9 && "signature"@[0] == 's');
    }
    let ghost c0 = c;
    let mut m: Vec<(String, JsonValue)> = Vec::new();
    assert(m@.map_values(|p: (String, JsonValue)| p.0@) =~= Seq::<Seq<char>>::empty());
    push_member(&mut m, "version", JsonValue::Number(number_of_u64(c.version as u64)));
    push_text(&mut m, "kind", copy_string(c.kind.as_str()));
    push_text(&mut m, "entityId", c.entity_id);
    push_text(&mut m, "ski", c.ski);
    push_member(&mut m, "publicJwk", c.public_jwk);
    let arr = capabilities_into_json(c.permissions);
    push_member(&mut m, "permissions", JsonValue::Array(arr));
    push_opt_text(&mut m, "zone", c.zone);
    push_opt_text(&mut m, "host", c.host);
    push_text(&mut m, "issuerSki", c.issuer_ski);
    push_text(&mut m, "notBefore", c.not_before);
    push_text(&mut m, "notAfter", c.not_after);
    match c.package {
        Some(p) => push_text(&mut m, "package", copy_string(p.as_str())),
        None => {},
    }
    match c.platform_cosign {
        Some(p) => push_member(&mut m, "platformCosign", cosign_into_json(p)),
        None => {},
    }
    push_text(&mut m, "signature", c.signature);
    assert(m@.map_values(|p: (String, JsonValue)| p.0@) =~= credential_keys(c0));
    JsonValue::Object(m)
}

// ---------------------------------------------------------------------------
// Taking in what was issued
// ---------------------------------------------------------------------------

/// The state once an approval's material is in: `Active`, and with a
/// credential its subject key id and expiry.
pub open spec fn issued_state(s: StateV, cred: Option<(Seq<char>, Seq<char>)>) -> StateV {
    match cred {
        Some((ski, not_after)) => StateV {
            status: EnrollmentStatus::Active,
            ski: Some(ski),
            cert_expires_at: Some(not_after),
            ..s
        },
        None => StateV { status: EnrollmentStatus::Active, ..s },
    }
}

/// The subject key id and expiry of an optional credential.
pub open spec fn cred_facts(c: Option<CapabilityCredential>) -> Option<(Seq<char>, Seq<char>)> {
    match c {
        Some(c) => Some((c.ski@, c.not_after@)),
        None => None,
    }
}

/// Takes in the material of a signed enrollment: stores the leaf, the chain
/// (and the org CA at its end), the Platform endorsement and the
/// credential, checks the credential against the local key, and walks the
/// state from `Signed` to `Active`.
pub fn apply_issued<S: KeyStore>(store: &S, state: &mut MachineState, issued: IssuedCerts) -> (r: SdkResult<()>)
    ensures
        r is Ok ==> old(state).status == EnrollmentStatus::Signed && final(state)@ == issued_state(
            old(state)@,
            cred_facts(issued.credential),
        ),
        (issued.cert_pem is None && issued.credential is None) ==> *final(state) == *old(state) && (r matches Err(
            Error::Enrollment(m),
        ) && m@ == "approved enrollment did not include a leaf certificate or credential"@),
{
    let ghost start = *state;
    let IssuedCerts { credential, cert_pem, chain_pem, platform_cert_pem, platform_root_pem, .. } = issued;
    if let Some(pem) = &cert_pem {
        store.save_string(KEY_MACHINE_CRT, pem.as_str())?;
        state.transition(EnrollmentStatus::CertReceived)?;
    } else if credential.is_some() {
        state.transition(EnrollmentStatus::CertReceived)?;
    } else {
        return Err(
            Error::enrollment("approved enrollment did not include a leaf certificate or credential"),
        );
    }
    if let Some(chain) = &chain_pem {
        store.save_string(KEY_CHAIN, chain.as_str())?;
        if let Some(org_ca) = last_pem_block(chain.as_str()) {
            store.save_string(KEY_ORG_CA, org_ca.as_str())?;
        }
    }
    store_platform_endorsement(
        store,
        match &platform_root_pem {
            Some(p) => Some(p.as_str()),
            None => None,
        },
        match &platform_cert_pem {
            Some(p) => Some(p.as_str()),
            None => None,
        },
    )?;
    match credential {
        Some(cred) => {
            let ski = copy_string(cred.ski.as_str());
            let not_after = copy_string(cred.not_after.as_str());
            let x = jwk_x_exec(&cred.public_jwk);
            let doc = credential_document(cred);
            store.save_string(KEY_CREDENTIAL, render_json_pretty(&doc).as_str())?;
            state.ski = Some(copy_string(ski.as_str()));
            state.cert_expires_at = Some(not_after);
            verify_local_key(
                store,
                ski.as_str(),
                match &x {
                    Some(s) => Some(s.as_str()),
                    None => None,
                },
            )?;
            state.transition(EnrollmentStatus::CertVerified)?;
            state.transition(EnrollmentStatus::Active)?;
        },
        None => {
            verify_local_key_present(store)?;
            state.transition(EnrollmentStatus::CertVerified)?;
            state.transition(EnrollmentStatus::Active)?;
        },
    }
    Ok(())
}

/// How a pull answer's status is read (case ignored): still waiting,
/// refused, approved, or not understood.
pub open spec fn pull_kind(status: Seq<char>, has_credential: bool) -> int {
    let s = lower_seq(status);
    if s == "pending"@ || s == "submitted"@ {
        0
    } else if s == "rejected"@ || s == "denied"@ {
        1
    } else if s == "approved"@ || s == "signed"@ || has_credential {
        2
    } else {
        3
    }
}

/// Takes in an enroll-pull answer: waits on `pending`/`submitted`, records
/// a rejection, takes in approved material (moving `PendingAdmin` to
/// `Signed` first), and refuses any other status.
pub fn apply_pull<S: KeyStore>(store: &S, state: &mut MachineState, res: EnrollPullResponse) -> (r: SdkResult<()>)
    ensures
        pull_kind(res.status@, res.issued.credential is Some) == 0 ==> r is Ok && *final(state) == *old(state),
        pull_kind(res.status@, res.issued.credential is Some) == 1 ==> if transition_allowed(
            old(state).status,
            EnrollmentStatus::Rejected,
        ) {
            r is Ok && final(state)@ == (StateV { status: EnrollmentStatus::Rejected, ..old(state)@ })
        } else {
            r is Err && *final(state) == *old(state)
        },
        pull_kind(res.status@, res.issued.credential is Some) == 2 && r is Ok ==> final(state).status
            == EnrollmentStatus::Active && (old(state).status == EnrollmentStatus::PendingAdmin
            || old(state).status == EnrollmentStatus::Signed) && final(state)@ == issued_state(
            StateV { status: EnrollmentStatus::Signed, ..old(state)@ },
            cred_facts(res.issued.credential),
        ),
        pull_kind(res.status@, res.issued.credential is Some) == 2 && res.issued.cert_pem is None
            && res.issued.credential is None ==> (r matches Err(Error::Enrollment(m)) && m@
            == "approved enrollment did not include a leaf certificate or credential"@),
        pull_kind(res.status@, res.issued.credential is Some) == 3 ==> *final(state) == *old(state) && (
        r matches Err(Error::Enrollment(m)) && m@ == "unexpected enroll-pull status "@ + debug_quoted(
            lower_seq(res.status@),
        )),
{
    let status = lower_chars(&chars_of(res.status.as_str()));
    if chars_eq(&status, &chars_of("pending")) || chars_eq(&status, &chars_of("submitted")) {
        return Ok(());
    }
    if chars_eq(&status, &chars_of("rejected")) || chars_eq(&status, &chars_of("denied")) {
        state.transition(EnrollmentStatus::Rejected)?;
        return Ok(());
    }
    if chars_eq(&status, &chars_of("approved")) || chars_eq(&status, &chars_of("signed"))
        || res.issued.credential.is_some() {
        if state.status == EnrollmentStatus::PendingAdmin {
            state.transition(EnrollmentStatus::Signed)?;
        }
        apply_issued(store, state, res.issued)?;
        return Ok(());
    }
    let m = concat_chars(
        &chars_of("unexpected enroll-pull status "),
        &chars_of(debug_str(string_of(&status).as_str()).as_str()),
    );
    Err(Error::Enrollment(string_of(&m)))
}


// ---------------------------------------------------------------------------
// Starting an enrollment
// ---------------------------------------------------------------------------

/// What `machine enroll` was asked for.
#[derive(Debug)]
pub struct EnrollParams {
    pub entity_id: String,
    pub machine_name: String,
    pub kind: MachineKind,
    pub key_algo: KeyAlgo,
    pub wait: bool,
    /// Seconds between polls while waiting.
    pub wait_interval_secs: u64,
    pub separator: String,
    /// Sign locally with the Entity CA and enroll instantly.
    pub instant: bool,
    /// Redeem a push-invite instead of an uninvited pull enroll.
    pub invite_token: Option<String>,
}

/// Checks before an enrollment starts: an Ed25519 key, a valid identity,
/// and no earlier enrollment that is still in progress or active.
pub fn enroll_preflight(params: &EnrollParams, existing: Option<&MachineState>) -> (r: SdkResult<MachineIdentity>)
    ensures
        params.key_algo != KeyAlgo::Ed25519 ==> (r matches Err(Error::Unsupported(m)) && m@
            == "p256"@ + " keys are not implemented yet (use ed25519)"@),
        r matches Ok(id) ==> {
            &&& params.key_algo == KeyAlgo::Ed25519
            &&& identity_problem(params.machine_name@, params.entity_id@, params.separator@) is None
            &&& id@ == (params.machine_name@, params.entity_id@, params.separator@)
            &&& (existing matches Some(s) ==> enroll_allowed(s.status))
        },
        (params.key_algo == KeyAlgo::Ed25519 && identity_problem(params.machine_name@, params.entity_id@, params.separator@) is None
            && match existing { Some(s) => enroll_allowed(s.status), None => true }) ==> r is Ok,
{
    if params.key_algo != KeyAlgo::Ed25519 {
        let m = concat_chars(&chars_of(params.key_algo.as_str()), &chars_of(" keys are not implemented yet (use ed25519)"));
        return Err(Error::Unsupported(string_of(&m)));
    }
    let identity = MachineIdentity::new(
        params.machine_name.as_str(),
        params.entity_id.as_str(),
        params.separator.as_str(),
    )?;
    if let Some(s) = existing {
        if !s.status.allows_enroll() {
            let m = concat_chars(&chars_of("machine "), &chars_of(s.machine_identity.as_str()));
            let m = concat_chars(&m, &chars_of(" is already "));
            let m = concat_chars(&m, &chars_of(s.status.as_str()));
            let m = concat_chars(&m, &chars_of(" — use `machine pull` or `machine status`"));
            return Err(Error::Enrollment(string_of(&m)));
        }
    }
    Ok(identity)
}

/// Whether an enroll answer is already signed: status `approved` or
/// `signed` (any case; `pending` when absent), or a credential came back.
pub open spec fn enroll_answer_signed(status: Option<Seq<char>>, has_credential: bool) -> bool {
    let s = match status {
        Some(t) => lower_seq(t),
        None => "pending"@,
    };
    s == "approved"@ || s == "signed"@ || has_credential
}

/// See [`enroll_answer_signed`].
pub fn enroll_answer_is_signed(status: Option<&str>, has_credential: bool) -> (r: bool)
    ensures
        r == enroll_answer_signed(match status { Some(t) => Some(t@), None => None }, has_credential),
{
    let hint = match status {
        Some(t) => lower_chars(&chars_of(t)),
        None => chars_of("pending"),
    };
    chars_eq(&hint, &chars_of("approved")) || chars_eq(&hint, &chars_of("signed")) || has_credential
}

/// The state of a machine whose key was just generated.
pub fn new_machine_state(identity: &MachineIdentity, ski: &str, created_at: String, kind: MachineKind) -> (r: MachineState)
    ensures
        r@ == (StateV {
            machine_identity: identity@.0 + identity@.2 + identity@.1,
            entity_id: identity@.1,
            machine_name: identity@.0,
            ski: Some(ski@),
            enrollment_id: None,
            pull_token: None,
            status: EnrollmentStatus::KeyGenerated,
            cert_serial: None,
            cert_expires_at: None,
            created_at: created_at@,
            renewed_from_ski: None,
            kind: Some(kind),
        }),
{
    MachineState {
        machine_identity: identity.as_str(),
        entity_id: copy_string(identity.entity_id.as_str()),
        machine_name: copy_string(identity.machine_name.as_str()),
        ski: Some(copy_string(ski)),
        enrollment_id: None,
        pull_token: None,
        status: EnrollmentStatus::KeyGenerated,
        cert_serial: None,
        cert_expires_at: None,
        created_at,
        renewed_from_ski: None,
        kind: Some(kind),
    }
}


// ---------------------------------------------------------------------------
// Answers to an enrollment
// ---------------------------------------------------------------------------

/// Takes in the answer to an enrollment request made from `CsrCreated`:
/// records the enrollment id and pull token, then takes in material that is
/// already signed (`Ok(true)`, the machine is active) or parks the state at
/// `PendingAdmin` to wait for an admin (`Ok(false)`).
pub fn apply_enroll_answer<S: KeyStore>(
    store: &S,
    state: &mut MachineState,
    enroll_id: Option<String>,
    pull_token: Option<String>,
    status: Option<String>,
    issued: IssuedCerts,
) -> (r: SdkResult<bool>)
    ensures
        old(state).status != EnrollmentStatus::CsrCreated ==> r is Err,
        r matches Ok(active) ==> active == enroll_answer_signed(view_opt(status), issued.credential is Some),
        r matches Ok(true) ==> final(state)@ == issued_state(
            StateV {
                status: EnrollmentStatus::Signed,
                enrollment_id: view_opt(enroll_id),
                pull_token: view_opt(pull_token),
                ..old(state)@
            },
            cred_facts(issued.credential),
        ),
        old(state).status == EnrollmentStatus::CsrCreated && !enroll_answer_signed(
            view_opt(status),
            issued.credential is Some,
        ) ==> (r matches Ok(false) && final(state)@ == (StateV {
            status: EnrollmentStatus::PendingAdmin,
            enrollment_id: view_opt(enroll_id),
            pull_token: view_opt(pull_token),
            ..old(state)@
        })),
{
    state.transition(EnrollmentStatus::EnrollmentSubmitted)?;
    state.enrollment_id = enroll_id;
    state.pull_token = pull_token;
    let signed = enroll_answer_is_signed(
        match &status {
            Some(t) => Some(t.as_str()),
            None => None,
        },
        issued.credential.is_some(),
    );
    state.transition(EnrollmentStatus::PendingAdmin)?;
    if signed {
        state.transition(EnrollmentStatus::Signed)?;
        apply_issued(store, state, issued)?;
        Ok(true)
    } else {
        Ok(false)
    }
}

/// Takes in the answer to an instant enrollment made from `CsrCreated`: the
/// enrollment id, the subject key id when the answer names one, and the
/// signed material, which leaves the machine active.
pub fn apply_instant_answer<S: KeyStore>(
    store: &S,
    state: &mut MachineState,
    enroll_id: Option<String>,
    ski: Option<String>,
    issued: IssuedCerts,
) -> (r: SdkResult<()>)
    ensures
        old(state).status != EnrollmentStatus::CsrCreated ==> (*final(state) == *old(state)
            && transition_refused(r, old(state).status, EnrollmentStatus::EnrollmentSubmitted)),
        r is Ok ==> final(state)@ == issued_state(
            StateV {
                status: EnrollmentStatus::Signed,
                enrollment_id: view_opt(enroll_id),
                ski: match ski {
                    Some(k) => Some(k@),
                    None => old(state)@.ski,
                },
                ..old(state)@
            },
            cred_facts(issued.credential),
        ),
{
    state.transition(EnrollmentStatus::EnrollmentSubmitted)?;
    state.enrollment_id = enroll_id;
    if let Some(k) = ski {
        state.ski = Some(k);
    }
    state.transition(EnrollmentStatus::PendingAdmin)?;
    state.transition(EnrollmentStatus::Signed)?;
    apply_issued(store, state, issued)
}

/// What polling needs: the local state and its pull token.
pub fn pull_begin(existing: Option<MachineState>) -> (r: SdkResult<(MachineState, String)>)
    ensures
        existing is None ==> (r matches Err(Error::Enrollment(m))
            && m@ == "no local enrollment state — run `machine enroll` first"@),
        existing matches Some(s) ==> (s.pull_token is None ==> (r matches Err(Error::Enrollment(m))
            && m@ == "no pull token in state.json — re-run `machine enroll`"@)),
        existing matches Some(s) ==> (s.pull_token matches Some(t) ==> (r matches Ok((s2, t2)) && s2 == s
            && t2@ == t@)),
{
    match existing {
        None => Err(Error::enrollment("no local enrollment state — run `machine enroll` first")),
        Some(s) => match &s.pull_token {
            None => Err(Error::enrollment("no pull token in state.json — re-run `machine enroll`")),
            Some(t) => {
                let token = copy_string(t.as_str());
                Ok((s, token))
            },
        },
    }
}

/// One turn of waiting for approval: done once active (`Ok(true)`), an
/// error once rejected, otherwise poll again (`Ok(false)`).
pub fn wait_step(state: &MachineState) -> (r: SdkResult<bool>)
    ensures
        state.status == EnrollmentStatus::Active ==> r matches Ok(true),
        state.status == EnrollmentStatus::Rejected ==> (r matches Err(Error::Enrollment(m))
            && m@ == "enrollment was rejected"@),
        state.status != EnrollmentStatus::Active && state.status != EnrollmentStatus::Rejected ==> r matches Ok(
            false,
        ),
{
    match state.status {
        EnrollmentStatus::Active => Ok(true),
        EnrollmentStatus::Rejected => Err(Error::enrollment("enrollment was rejected")),
        _ => Ok(false),
    }
}

/// Starts an enrollment in the store: checks the parameters against the
/// stored state ([`enroll_preflight`]), stores the key `generate_key` makes
/// (a PKCS#8 PEM) and a `KeyGenerated` state for it, then the key's CSR for
/// the machine identity, and moves the state to `CsrCreated`. Gives the
/// state, the identity, the key's public JWK and the CSR.
pub fn begin_enrollment<S: KeyStore, K: FnOnce() -> SdkResult<String>>(
    store: &S,
    params: &EnrollParams,
    created_at: String,
    generate_key: K,
) -> (r: SdkResult<(MachineState, MachineIdentity, JsonValue, String)>)
    requires
        generate_key.requires(()),
    ensures
        r matches Ok((s, id, _, _)) ==> {
            &&& s.status == EnrollmentStatus::CsrCreated
            &&& s.machine_identity@ == id@.0 + id@.2 + id@.1
            &&& s.kind == Some(params.kind)
            &&& exists|pem: String| #[trigger] generate_key.ensures((), Ok::<String, Error>(pem))
                && (s.ski matches Some(k) && crate::lifecycle::renewal_key_names(pem@, k@))
        },
{
    let existing = crate::state::load_state(store)?;
    let identity = enroll_preflight(params, match &existing {
        Some(s) => Some(s),
        None => None,
    })?;
    let made = generate_key();
    let pem = match made {
        Ok(p) => p,
        Err(e) => return Err(e),
    };
    let (_private_jwk, public_jwk, ski) = match jwks_from_private_pem(pem.as_str()) {
        Ok(t) => t,
        Err(e) => return Err(Error::Mtls(e)),
    };
    store.save_string(KEY_MACHINE_KEY, pem.as_str())?;
    let mut state = new_machine_state(&identity, ski.as_str(), created_at, params.kind);
    crate::state::save_state(store, &state)?;
    let host = identity.as_str();
    let csr_pem = match crate::mtls::leaf::build_csr_from_private_pem(pem.as_str(), host.as_str()) {
        Ok(c) => c,
        Err(e) => return Err(Error::Mtls(e)),
    };
    store.save_string(KEY_MACHINE_CSR, csr_pem.as_str())?;
    state.transition(EnrollmentStatus::CsrCreated)?;
    crate::state::save_state(store, &state)?;
    Ok((state, identity, public_jwk, csr_pem))
}

/// The entity an invite enrolls into: the invite's (non-empty) entity, which
/// an `--org` given beside it must name (compared in ASCII lower case).
pub fn invite_entity(org: Option<&str>, invited: Option<String>) -> (r: SdkResult<String>)
    ensures
        match view_opt(invited) {
            None => r matches Err(Error::Enrollment(m)) && m@ == "enroll-invite lookup missing entityId"@,
            Some(i) => if i.len() == 0 {
                r matches Err(Error::Enrollment(m)) && m@ == "enroll-invite lookup missing entityId"@
            } else {
                match org {
                    Some(o) => if lower_seq(o@) != i {
                        r matches Err(Error::Enrollment(m)) && m@ == "--org "@ + o@ + " does not match invite org "@
                            + i
                    } else {
                        r matches Ok(e) && e@ == i
                    },
                    None => r matches Ok(e) && e@ == i,
                }
            },
        },
{
    let invited = match invited {
        Some(i) => {
            if i.as_str().is_empty() {
                return Err(Error::enrollment("enroll-invite lookup missing entityId"));
            }
            i
        },
        None => return Err(Error::enrollment("enroll-invite lookup missing entityId")),
    };
    match org {
        Some(o) => {
            if !chars_eq(&lower_chars(&chars_of(o)), &chars_of(invited.as_str())) {
                let m = concat_chars(&chars_of("--org "), &chars_of(o));
                let m = concat_chars(&m, &chars_of(" does not match invite org "));
                let m = concat_chars(&m, &chars_of(invited.as_str()));
                return Err(Error::Enrollment(string_of(&m)));
            }
            Ok(invited)
        },
        None => Ok(invited),
    }
}

/// The entity a plain enrollment (without an invite) enrolls into: the
/// `--org` given.
pub fn plain_entity(org: Option<String>) -> (r: SdkResult<String>)
    ensures
        match org {
            Some(o) => r matches Ok(e) && e == o,
            None => r matches Err(Error::Enrollment(m)) && m@ == "pass --org <entity> or --invite <token>"@,
        },
{
    match org {
        Some(o) => Ok(o),
        None => Err(Error::enrollment("pass --org <entity> or --invite <token>")),
    }
}

/// The refusal text for an instant enrollment without a local Entity CA.
pub open spec fn no_local_ca_text(entity_id: Seq<char>) -> Seq<char> {
    "instant enroll needs a local Entity CA — run `init "@ + entity_id + "` first (or omit --instant)"@
}

/// The Entity CA an instant enrollment signs with, from what the store
/// holds for the entity.
pub fn instant_ca_from(entity_id: &str, loaded: Option<EntityCaMaterial>) -> (r: SdkResult<EntityCaMaterial>)
    ensures
        match loaded {
            Some(ca) => r == Ok::<EntityCaMaterial, Error>(ca),
            None => r matches Err(Error::Enrollment(m)) && m@ == no_local_ca_text(entity_id@),
        },
{
    match loaded {
        Some(ca) => Ok(ca),
        None => {
            let m = concat_chars(&chars_of("instant enroll needs a local Entity CA — run `init "), &chars_of(entity_id));
            let m = concat_chars(&m, &chars_of("` first (or omit --instant)"));
            Err(Error::Enrollment(string_of(&m)))
        },
    }
}

/// The Entity CA an instant (local) enrollment signs with: refused for an
/// invite, and the entity's CA must be in the store (see
/// [`instant_ca_from`]).
pub fn instant_enroll_ca<S: KeyStore>(store: &S, entity_id: &str, has_invite: bool) -> (r: SdkResult<EntityCaMaterial>)
    ensures
        has_invite ==> (r matches Err(Error::Enrollment(m)) && m@ == "invite enroll cannot use --local / --instant"@),
        !has_invite && crate::admin::entity_id_illegal(entity_id@) ==> (r matches Err(Error::Admin(m)) && m@
            == crate::admin::illegal_entity_text(entity_id@)),
{
    if has_invite {
        return Err(Error::enrollment("invite enroll cannot use --local / --instant"));
    }
    let loaded = load_entity_ca(store, entity_id)?;
    instant_ca_from(entity_id, loaded)
}

} // verus!
