//! The Entity CA kept on an admin's machine: its key pair (as JWKs), its
//! certificate, and the Root Admin that issues machine credentials.
//!
//! On disk it is three files under `admin/<entity>/`: the private key as a
//! PKCS#8 PEM, the certificate, and a JSON document with the rest.

use vstd::prelude::*;
use crate::credential::{
    copy_capability, default_machine_permissions, kickstart_permissions, payload_text, same_capability,
    sign_credential, unsigned_credential, unsigned_machine_credential, with_entity_scope, Capability,
    CapabilityCredential, CredentialKind, EntityPackage,
};
use crate::admin::{leaf_machine_name, package_spec, parse_package, KickstartRequest};
use crate::mtls::{compact_jws, public_jwk_from_csr_pem, SignedClientCert};
use crate::mtls::der::csr_pem_spec;
use vstd::utf8::encode_utf8;
use crate::json::{
    copy_json, get, get_spec, json_same, lemma_json_same_trans, member, member_index, member_of, lemma_member_remove, JsonValue,
};
use crate::admin::{admin_ca_cert, admin_ca_key, admin_ca_meta, entity_id_illegal, illegal_entity_text, KickstartResponse};
use crate::json::{parse_json_detailed, render_json_pretty};
use crate::keystore::{KeyStore, KEY_PLATFORM_CA};
use crate::mtls::{ski_from_public_jwk_parts, ski_spec, signing_seed_from_jwk, seed_spec, MtlsError, SelfSignedCa};
use crate::sdk_error::{Error, SdkResult};
use crate::state::{opt_text, req_text, text_member_is};
use crate::models::view_opt;
use crate::json::push_member;
use crate::text::{chars_of, concat_chars, copy_string, lower_chars, lower_seq, string_of};
use ed25519_dalek::pkcs8::EncodePrivateKey;

verus! {

/// An Entity CA with its keys.
#[derive(Debug)]
pub struct EntityCaMaterial {
    pub entity_id: String,
    pub ski: String,
    pub common_name: String,
    pub private_jwk: JsonValue,
    pub public_jwk: JsonValue,
    pub ca_cert_pem: String,
    /// The Root Admin that issues machine credentials, when there is one.
    pub admin_ski: Option<String>,
    pub admin_private_jwk: Option<JsonValue>,
    pub admin_public_jwk: Option<JsonValue>,
}

impl EntityCaMaterial {
    /// The key id that signs machine credentials: the Root Admin's, else the
    /// CA's own.
    pub fn issuer_ski(&self) -> (r: &str)
        ensures
            r@ == match self.admin_ski {
                Some(s) => s@,
                None => self.ski@,
            },
    {
        match &self.admin_ski {
            Some(s) => s.as_str(),
            None => self.ski.as_str(),
        }
    }

    /// The private JWK that signs machine credentials: the Root Admin's,
    /// else the CA's own.
    pub fn issuer_private_jwk(&self) -> (r: &JsonValue)
        ensures
            *r == match self.admin_private_jwk {
                Some(j) => j,
                None => self.private_jwk,
            },
    {
        match &self.admin_private_jwk {
            Some(j) => j,
            None => &self.private_jwk,
        }
    }
}

// ---------------------------------------------------------------------------
// Public JWKs
// ---------------------------------------------------------------------------

/// `pubk` is `privk` without its private member `d`: an object keeps every
/// other member (as the same document); anything else is kept as it is.
pub open spec fn public_of(privk: JsonValue, pubk: JsonValue) -> bool {
    match privk {
        JsonValue::Object(a) => pubk matches JsonValue::Object(b) && member_of(b@, "d"@) is None && forall|k: Seq<char>|
            k != "d"@ ==> same_member(#[trigger] member_of(b@, k), member_of(a@, k)),
        _ => json_same(pubk, privk),
    }
}

/// Two lookups find the same document, or both find nothing.
pub open spec fn same_member(x: Option<JsonValue>, y: Option<JsonValue>) -> bool {
    match (x, y) {
        (Some(a), Some(b)) => json_same(a, b),
        (None, None) => true,
        _ => false,
    }
}

/// Objects that are the same document find the same members.
pub proof fn lemma_same_members(a: Seq<(String, JsonValue)>, b: Seq<(String, JsonValue)>, k: Seq<char>)
    requires
        a.len() == b.len(),
        forall|i: int| 0 <= i < a.len() ==> (#[trigger] a[i]).0@ == b[i].0@ && json_same(a[i].1, b[i].1),
    ensures
        same_member(member_of(a, k), member_of(b, k)),
    decreases a.len(),
{
    if a.len() > 0 {
        assert(a[0].0@ == b[0].0@);
        assert forall|i: int| 0 <= i < a.drop_first().len() implies (#[trigger] a.drop_first()[i]).0@
            == b.drop_first()[i].0@ && json_same(a.drop_first()[i].1, b.drop_first()[i].1) by {
            assert(a.drop_first()[i] == a[i + 1]);
            assert(b.drop_first()[i] == b[i + 1]);
        }
        lemma_same_members(a.drop_first(), b.drop_first(), k);
    }
}

/// Drops the private member `d` from a JWK; other documents are kept.
pub fn strip_private_jwk(jwk: JsonValue) -> (r: JsonValue)
    ensures
        match jwk {
            JsonValue::Object(m) => r matches JsonValue::Object(m2) && member_of(m2@, "d"@) is None && forall|
                k: Seq<char>,
            | k != "d"@ ==> #[trigger] member_of(m2@, k) == member_of(m@, k),
            _ => r == jwk,
        },
{
    match jwk {
        JsonValue::Object(m) => {
            let ghost orig = m@;
            let mut m = m;
            let mut idx = member_index(&m, "d");
            while idx.is_some()
                invariant
                    forall|k: Seq<char>| k != "d"@ ==> #[trigger] member_of(m@, k) == member_of(orig, k),
                    match idx {
                        Some(i) => i < m@.len() && m@[i as int].0@ == "d"@,
                        None => member_of(m@, "d"@) is None,
                    },
                decreases m@.len(),
            {
                let i = match idx {
                    Some(i) => i,
                    None => 0,
                };
                proof {
                    assert forall|k: Seq<char>| k != "d"@ implies #[trigger] member_of(m@.remove(i as int), k)
                        == member_of(orig, k) by {
                        lemma_member_remove(m@, i as int, k);
                    }
                }
                m.remove(i);
                idx = member_index(&m, "d");
            }
            JsonValue::Object(m)
        },
        other => other,
    }
}

/// The public JWK of a private one, leaving the private one as it is.
pub fn public_jwk_of(private_jwk: &JsonValue) -> (r: JsonValue)
    ensures
        public_of(*private_jwk, r),
{
    let c = copy_json(private_jwk);
    let r = strip_private_jwk(c);
    proof {
        let pj = *private_jwk;
        if pj is Object {
            let a = pj->Object_0@;
            let ca = c->Object_0@;
            assert forall|k: Seq<char>| k != "d"@ implies same_member(
                #[trigger] member_of(r->Object_0@, k),
                member_of(a, k),
            ) by {
                lemma_same_members(ca, a, k);
            }
        }
    }
    r
}

/// The subject key id of a JWK's `kty`, `crv` and `x`, when all three are
/// strings.
pub open spec fn thumbprint_spec(jwk: JsonValue) -> Option<Seq<char>> {
    match (get_spec(jwk, "kty"@), get_spec(jwk, "crv"@), get_spec(jwk, "x"@)) {
        (Some(JsonValue::Str(kty)), Some(JsonValue::Str(crv)), Some(JsonValue::Str(x))) => Some(
            ski_spec(kty@, crv@, x@),
        ),
        _ => None,
    }
}

/// See [`thumbprint_spec`].
pub fn jwk_thumbprint(jwk: &JsonValue) -> (r: Option<String>)
    ensures
        match thumbprint_spec(*jwk) {
            Some(t) => r matches Some(s) && s@ == t,
            None => r is None,
        },
{
    match (get(jwk, "kty"), get(jwk, "crv"), get(jwk, "x")) {
        (Some(JsonValue::Str(kty)), Some(JsonValue::Str(crv)), Some(JsonValue::Str(x))) => Some(
            ski_from_public_jwk_parts(kty.as_str(), crv.as_str(), x.as_str()),
        ),
        _ => None,
    }
}

// ---------------------------------------------------------------------------
// The private key as PKCS#8
// ---------------------------------------------------------------------------

/// The PKCS#8 PEM (LF line endings) of an Ed25519 seed.
pub uninterp spec fn ed25519_pkcs8_pem(seed: Seq<u8>) -> Seq<char>;

/// `SigningKey::from_bytes(seed).to_pkcs8_pem(LineEnding::LF)`: the PKCS#8
/// PEM of the key, or the encoder's error text.
#[verifier::external_body]
fn pkcs8_pem_from_seed(seed: &[u8]) -> (r: Result<String, String>)
    requires
        seed@.len() == 32,
    ensures
        r matches Ok(p) ==> p@ == ed25519_pkcs8_pem(seed@),
{
    let mut bytes = [0u8; 32];
    bytes.copy_from_slice(seed);
    ed25519_dalek::SigningKey::from_bytes(&bytes)
        .to_pkcs8_pem(pkcs8::LineEnding::LF)
        .map(|p| p.to_string())
        .map_err(|e| e.to_string())
}

/// The PKCS#8 PEM of the Ed25519 key in a private JWK.
pub fn private_pem_from_jwk(private_jwk: &JsonValue) -> (r: Result<String, MtlsError>)
    ensures
        match seed_spec(*private_jwk) {
            Ok(seed) => match r {
                Ok(p) => p@ == ed25519_pkcs8_pem(seed),
                Err(e) => e is Pkcs8,
            },
            Err(0) => r matches Err(MtlsError::MissingPrivateKey),
            Err(1) => r matches Err(MtlsError::Base64(_)),
            Err(_) => r matches Err(MtlsError::BadKeyLength),
        },
{
    let seed = signing_seed_from_jwk(private_jwk)?;
    match pkcs8_pem_from_seed(seed.as_slice()) {
        Ok(p) => Ok(p),
        Err(e) => Err(MtlsError::Pkcs8(e)),
    }
}

// ---------------------------------------------------------------------------
// The metadata document
// ---------------------------------------------------------------------------

/// The member names of the metadata document of `ca`, in order.
pub open spec fn ca_meta_keys(ca: EntityCaMaterial) -> Seq<Seq<char>> {
    let opt = |present: bool, k: Seq<char>| if present { seq![k] } else { Seq::<Seq<char>>::empty() };
    seq!["entityId"@, "ski"@, "commonName"@, "privateJwk"@, "publicJwk"@]
        + opt(ca.admin_ski is Some, "adminSki"@)
        + opt(ca.admin_private_jwk is Some, "adminPrivateJwk"@)
        + opt(ca.admin_public_jwk is Some, "adminPublicJwk"@)
}

/// `v` is the metadata document of `ca`: camelCase members in field order,
/// the absent admin members left out (the certificate is kept apart).
pub open spec fn records_ca_meta(v: JsonValue, ca: EntityCaMaterial) -> bool {
    match v {
        JsonValue::Object(mm) => {
            let m = mm@;
            &&& m.map_values(|p: (String, JsonValue)| p.0@) == ca_meta_keys(ca)
            &&& text_member_is(m, "entityId"@, ca.entity_id@)
            &&& text_member_is(m, "ski"@, ca.ski@)
            &&& text_member_is(m, "commonName"@, ca.common_name@)
            &&& same_member(member_of(m, "privateJwk"@), Some(ca.private_jwk))
            &&& same_member(member_of(m, "publicJwk"@), Some(ca.public_jwk))
            &&& match ca.admin_ski {
                Some(s) => text_member_is(m, "adminSki"@, s@),
                None => member_of(m, "adminSki"@) is None,
            }
            &&& same_member(member_of(m, "adminPrivateJwk"@), ca.admin_private_jwk)
            &&& same_member(member_of(m, "adminPublicJwk"@), ca.admin_public_jwk)
        },
        _ => false,
    }
}

fn push_text(m: &mut Vec<(String, JsonValue)>, key: &str, value: &str)
    requires
        member_of(old(m)@, key@) is None,
    ensures
        final(m)@.map_values(|p: (String, JsonValue)| p.0@) == old(m)@.map_values(
            |p: (String, JsonValue)| p.0@,
        ).push(key@),
        text_member_is(final(m)@, key@, value@),
        forall|k: Seq<char>| k != key@ ==> #[trigger] member_of(final(m)@, k) == member_of(old(m)@, k),
{
    push_member(m, key, JsonValue::Str(copy_string(value)));
}

fn push_copy(m: &mut Vec<(String, JsonValue)>, key: &str, value: &JsonValue)
    requires
        member_of(old(m)@, key@) is None,
    ensures
        final(m)@.map_values(|p: (String, JsonValue)| p.0@) == old(m)@.map_values(
            |p: (String, JsonValue)| p.0@,
        ).push(key@),
        same_member(member_of(final(m)@, key@), Some(*value)),
        forall|k: Seq<char>| k != key@ ==> #[trigger] member_of(final(m)@, k) == member_of(old(m)@, k),
{
    push_member(m, key, copy_json(value));
}

/// The metadata document of an Entity CA.
#[verifier::spinoff_prover]
#[verifier::rlimit(60)]
pub fn entity_ca_meta_json(ca: &EntityCaMaterial) -> (r: JsonValue)
    ensures
        records_ca_meta(r, *ca),
{
    proof {
        reveal_strlit("entityId");
        reveal_strlit("ski");
        reveal_strlit("commonName");
        reveal_strlit("privateJwk");
        reveal_strlit("publicJwk");
        reveal_strlit("adminSki");
        reveal_strlit("adminPrivateJwk");
        reveal_strlit("adminPublicJwk");
        assert("entityId"@.len() == 8);
        assert("ski"@.len() == 3);
        assert("commonName"@.len() == 10);
        assert("privateJwk"@.len() == 10);
        assert("publicJwk"@.len() == 9);
        assert("adminSki"@.len() == 8);
        assert("adminPrivateJwk"@.len() == 15);
        assert("adminPublicJwk"@.len() == 14);
        assert("entityId"@[0] == 'e');
        assert("adminSki"@[0] == 'a');
        assert("commonName"@[0] == 'c');
        assert("privateJwk"@[0] == 'p');
    }
    let mut m: Vec<(String, JsonValue)> = Vec::new();
    assert(m@.map_values(|p: (String, JsonValue)| p.0@) =~= Seq::<Seq<char>>::empty());
    push_text(&mut m, "entityId", ca.entity_id.as_str());
    push_text(&mut m, "ski", ca.ski.as_str());
    push_text(&mut m, "commonName", ca.common_name.as_str());
    push_copy(&mut m, "privateJwk", &ca.private_jwk);
    push_copy(&mut m, "publicJwk", &ca.public_jwk);
    let ghost k5 = m@.map_values(|p: (String, JsonValue)| p.0@);
    match &ca.admin_ski {
        Some(s) => push_text(&mut m, "adminSki", s.as_str()),
        None => {},
    }
    match &ca.admin_private_jwk {
        Some(j) => push_copy(&mut m, "adminPrivateJwk", j),
        None => {},
    }
    match &ca.admin_public_jwk {
        Some(j) => push_copy(&mut m, "adminPublicJwk", j),
        None => {},
    }
    assert(m@.map_values(|p: (String, JsonValue)| p.0@) =~= ca_meta_keys(*ca));
    JsonValue::Object(m)
}

/// An optional member: absent or `null` is none.
pub open spec fn opt_value(m: Seq<(String, JsonValue)>, key: Seq<char>) -> Option<JsonValue> {
    match member_of(m, key) {
        Some(JsonValue::Null) => None,
        o => o,
    }
}

/// Whether a metadata document has the shape that can be read: an object
/// with string `entityId`, `ski` and `commonName`, JWK members
/// `privateJwk` and `publicJwk`, and an `adminSki` that is a string when
/// present.
pub open spec fn meta_readable(v: JsonValue) -> bool {
    match v {
        JsonValue::Object(mm) => {
            let m = mm@;
            &&& req_text(m, "entityId"@) is Ok
            &&& req_text(m, "ski"@) is Ok
            &&& req_text(m, "commonName"@) is Ok
            &&& member_of(m, "privateJwk"@) is Some
            &&& member_of(m, "publicJwk"@) is Some
            &&& opt_text(m, "adminSki"@) is Ok
        },
        _ => false,
    }
}

/// `ca` is what a readable metadata document `v` holds, with certificate
/// `cert`.
pub open spec fn read_from_meta(v: JsonValue, cert: Seq<char>, ca: EntityCaMaterial) -> bool {
    let m = v->Object_0@;
    &&& req_text(m, "entityId"@) == Ok::<Seq<char>, ()>(ca.entity_id@)
    &&& req_text(m, "ski"@) == Ok::<Seq<char>, ()>(ca.ski@)
    &&& req_text(m, "commonName"@) == Ok::<Seq<char>, ()>(ca.common_name@)
    &&& same_member(Some(ca.private_jwk), member_of(m, "privateJwk"@))
    &&& same_member(Some(ca.public_jwk), member_of(m, "publicJwk"@))
    &&& opt_text(m, "adminSki"@) == Ok::<Option<Seq<char>>, ()>(view_opt(ca.admin_ski))
    &&& same_member(ca.admin_private_jwk, opt_value(m, "adminPrivateJwk"@))
    &&& same_member(ca.admin_public_jwk, opt_value(m, "adminPublicJwk"@))
    &&& ca.ca_cert_pem@ == cert
}

fn meta_error(what: &str, key: &str) -> (e: Error)
    ensures
        e matches Error::Json(m) && m@ == what@ + key@,
{
    let m = concat_chars(&chars_of(what), &chars_of(key));
    Error::Json(string_of(&m))
}

fn meta_text(m: &Vec<(String, JsonValue)>, key: &str) -> (r: SdkResult<String>)
    ensures
        match req_text(m@, key@) {
            Ok(t) => r matches Ok(x) && x@ == t,
            Err(()) => r matches Err(e) && e is Json,
        },
{
    match member(m, key) {
        Some(JsonValue::Str(s)) => Ok(copy_string(s.as_str())),
        Some(_) => Err(meta_error("invalid type: expected a string for ", key)),
        None => Err(meta_error("missing field ", key)),
    }
}

fn meta_value(m: &Vec<(String, JsonValue)>, key: &str) -> (r: SdkResult<JsonValue>)
    ensures
        match member_of(m@, key@) {
            Some(v) => r matches Ok(x) && json_same(x, v),
            None => r matches Err(e) && e is Json,
        },
{
    match member(m, key) {
        Some(v) => Ok(copy_json(v)),
        None => Err(meta_error("missing field ", key)),
    }
}

fn meta_opt_value(m: &Vec<(String, JsonValue)>, key: &str) -> (r: Option<JsonValue>)
    ensures
        same_member(r, opt_value(m@, key@)),
{
    match member(m, key) {
        None => None,
        Some(JsonValue::Null) => None,
        Some(v) => Some(copy_json(v)),
    }
}

/// Reads an Entity CA from its metadata document and its certificate;
/// `Json` when the document does not have the shape.
pub fn entity_ca_from_meta(v: &JsonValue, ca_cert_pem: String) -> (r: SdkResult<EntityCaMaterial>)
    ensures
        meta_readable(*v) ==> (r matches Ok(ca) && read_from_meta(*v, ca_cert_pem@, ca)),
        !meta_readable(*v) ==> (r matches Err(e) && e is Json),
{
    let m = match v {
        JsonValue::Object(m) => m,
        _ => return Err(meta_error("invalid type: expected an object for ", "entity CA metadata")),
    };
    let entity_id = meta_text(m, "entityId")?;
    let ski = meta_text(m, "ski")?;
    let common_name = meta_text(m, "commonName")?;
    let private_jwk = meta_value(m, "privateJwk")?;
    let public_jwk = meta_value(m, "publicJwk")?;
    let admin_ski = match member(m, "adminSki") {
        None => None,
        Some(JsonValue::Null) => None,
        Some(JsonValue::Str(s)) => Some(copy_string(s.as_str())),
        Some(_) => return Err(meta_error("invalid type: expected a string for ", "adminSki")),
    };
    let admin_private_jwk = meta_opt_value(m, "adminPrivateJwk");
    let admin_public_jwk = meta_opt_value(m, "adminPublicJwk");
    Ok(
        EntityCaMaterial {
            entity_id,
            ski,
            common_name,
            private_jwk,
            public_jwk,
            ca_cert_pem,
            admin_ski,
            admin_private_jwk,
            admin_public_jwk,
        },
    )
}

/// Two Entity CAs hold the same texts and the same documents.
pub open spec fn same_material(a: EntityCaMaterial, b: EntityCaMaterial) -> bool {
    &&& a.entity_id@ == b.entity_id@
    &&& a.ski@ == b.ski@
    &&& a.common_name@ == b.common_name@
    &&& json_same(a.private_jwk, b.private_jwk)
    &&& json_same(a.public_jwk, b.public_jwk)
    &&& a.ca_cert_pem@ == b.ca_cert_pem@
    &&& view_opt(a.admin_ski) == view_opt(b.admin_ski)
    &&& same_member(a.admin_private_jwk, b.admin_private_jwk)
    &&& same_member(a.admin_public_jwk, b.admin_public_jwk)
}

proof fn lemma_same_member_trans(x: Option<JsonValue>, y: Option<JsonValue>, z: Option<JsonValue>)
    requires
        same_member(x, y),
        same_member(y, z),
    ensures
        same_member(x, z),
{
    if x is Some && y is Some && z is Some {
        lemma_json_same_trans(x->Some_0, y->Some_0, z->Some_0);
    }
}

/// The metadata document written for an Entity CA can be read, and reading
/// it back with the CA's certificate gives the same Entity CA, unless an
/// admin JWK is a JSON `null` (written as `null`, it reads back as absent).
pub proof fn lemma_ca_meta_reads_back(v: JsonValue, ca: EntityCaMaterial, back: EntityCaMaterial)
    requires
        records_ca_meta(v, ca),
        !(ca.admin_private_jwk matches Some(JsonValue::Null)),
        !(ca.admin_public_jwk matches Some(JsonValue::Null)),
    ensures
        meta_readable(v),
        read_from_meta(v, ca.ca_cert_pem@, back) ==> same_material(back, ca),
{
    let m = v->Object_0@;
    if read_from_meta(v, ca.ca_cert_pem@, back) {
        lemma_same_member_trans(Some(back.private_jwk), member_of(m, "privateJwk"@), Some(ca.private_jwk));
        lemma_same_member_trans(Some(back.public_jwk), member_of(m, "publicJwk"@), Some(ca.public_jwk));
        assert(opt_value(m, "adminPrivateJwk"@) == member_of(m, "adminPrivateJwk"@));
        assert(opt_value(m, "adminPublicJwk"@) == member_of(m, "adminPublicJwk"@));
        lemma_same_member_trans(back.admin_private_jwk, member_of(m, "adminPrivateJwk"@), ca.admin_private_jwk);
        lemma_same_member_trans(back.admin_public_jwk, member_of(m, "adminPublicJwk"@), ca.admin_public_jwk);
    }
}

// ---------------------------------------------------------------------------
// Keeping an Entity CA in the store
// ---------------------------------------------------------------------------

/// Stores an Entity CA: its private key as PKCS#8, its certificate and its
/// metadata document (indented JSON).
pub fn save_entity_ca<S: KeyStore>(store: &S, ca: &EntityCaMaterial) -> (r: SdkResult<()>)
    ensures
        seed_spec(ca.private_jwk) is Err ==> r matches Err(Error::Mtls(_)),
        entity_id_illegal(ca.entity_id@) ==> r is Err,
{
    let pem = match private_pem_from_jwk(&ca.private_jwk) {
        Ok(p) => p,
        Err(e) => return Err(Error::Mtls(e)),
    };
    let key_path = admin_ca_key(ca.entity_id.as_str())?;
    store.save_string(key_path.as_str(), pem.as_str())?;
    let cert_path = admin_ca_cert(ca.entity_id.as_str())?;
    store.save_string(cert_path.as_str(), ca.ca_cert_pem.as_str())?;
    let meta_path = admin_ca_meta(ca.entity_id.as_str())?;
    let meta = entity_ca_meta_json(ca);
    store.save_string(meta_path.as_str(), render_json_pretty(&meta).as_str())
}

/// The Entity CA of `entity_id` from the store, if its metadata is there;
/// `Json` when the metadata cannot be read, `Admin` when the certificate is
/// missing.
pub fn load_entity_ca<S: KeyStore>(store: &S, entity_id: &str) -> (r: SdkResult<Option<EntityCaMaterial>>)
    ensures
        entity_id_illegal(entity_id@) ==> (r matches Err(Error::Admin(m)) && m@ == illegal_entity_text(
            entity_id@,
        )),
{
    let meta_path = admin_ca_meta(entity_id)?;
    let raw = match store.load_string(meta_path.as_str())? {
        None => return Ok(None),
        Some(raw) => raw,
    };
    let v = match parse_json_detailed(raw.as_str().as_bytes()) {
        Ok(v) => v,
        Err(detail) => return Err(Error::Json(detail)),
    };
    let mut ca = entity_ca_from_meta(&v, string_of(&Vec::new()))?;
    let cert_path = admin_ca_cert(entity_id)?;
    match store.load_string(cert_path.as_str())? {
        Some(cert) => {
            ca.ca_cert_pem = cert;
            Ok(Some(ca))
        },
        None => {
            let m = concat_chars(&chars_of("missing Entity CA cert for "), &chars_of(entity_id));
            Err(Error::Admin(string_of(&m)))
        },
    }
}

/// The message when an entity has no Entity CA here.
pub open spec fn no_ca_text(entity_id: Seq<char>) -> Seq<char> {
    "no Entity CA for "@ + entity_id + " — run `init "@ + entity_id + "` first"@
}

/// The Entity CA of `entity_id`, which must be in the store.
pub fn require_entity_ca<S: KeyStore>(store: &S, entity_id: &str) -> (r: SdkResult<EntityCaMaterial>)
    ensures
        entity_id_illegal(entity_id@) ==> (r matches Err(Error::Admin(m)) && m@ == illegal_entity_text(
            entity_id@,
        )),
{
    match load_entity_ca(store, entity_id)? {
        Some(ca) => Ok(ca),
        None => {
            let m = concat_chars(&chars_of("no Entity CA for "), &chars_of(entity_id));
            let m = concat_chars(&m, &chars_of(" — run `init "));
            let m = concat_chars(&m, &chars_of(entity_id));
            let m = concat_chars(&m, &chars_of("` first"));
            proof {
                assert(m@ == no_ca_text(entity_id@));
            }
            Err(Error::Admin(string_of(&m)))
        },
    }
}

/// The common name of an entity's CA.
pub open spec fn ca_common_name(entity_id: Seq<char>) -> Seq<char> {
    entity_id + " Entity CA"@
}

/// Creates an Entity CA for `entity_id` with `generate`, which is handed
/// the common name and makes the self-signed CA, and stores it. Refuses to
/// replace an Entity CA that is already stored.
pub fn create_entity_ca<S: KeyStore, G: FnOnce(&str) -> SdkResult<SelfSignedCa>>(
    store: &S,
    entity_id: &str,
    generate: G,
) -> (r: SdkResult<EntityCaMaterial>)
    requires
        forall|cn: &str| generate.requires((cn,)),
    ensures
        entity_id_illegal(entity_id@) ==> (r matches Err(Error::Admin(m)) && m@ == illegal_entity_text(
            entity_id@,
        )),
        r matches Ok(ca) ==> {
            &&& ca.entity_id@ == entity_id@
            &&& exists|cn: &str, made: SdkResult<SelfSignedCa>| {
                &&& cn@ == ca_common_name(entity_id@)
                &&& #[trigger] generate.ensures((cn,), made)
                &&& made matches Ok(g) && ca.ski == g.ski && ca.common_name == g.common_name
                    && ca.private_jwk == g.private_jwk && ca.public_jwk == g.public_jwk
                    && ca.ca_cert_pem == g.ca_cert_pem
            }
            &&& ca.admin_ski is None && ca.admin_private_jwk is None && ca.admin_public_jwk is None
        },
{
    if load_entity_ca(store, entity_id)?.is_some() {
        let m = concat_chars(&chars_of("entity CA already exists for "), &chars_of(entity_id));
        let m = concat_chars(&m, &chars_of(" — delete admin/"));
        let m = concat_chars(&m, &chars_of(entity_id));
        let m = concat_chars(&m, &chars_of("/ to rotate"));
        return Err(Error::Admin(string_of(&m)));
    }
    let cn = string_of(&concat_chars(&chars_of(entity_id), &chars_of(" Entity CA")));
    let made = generate(cn.as_str());
    let g = match made {
        Ok(g) => g,
        Err(e) => return Err(e),
    };
    let material = EntityCaMaterial {
        entity_id: copy_string(entity_id),
        ski: g.ski,
        common_name: g.common_name,
        private_jwk: g.private_jwk,
        public_jwk: g.public_jwk,
        ca_cert_pem: g.ca_cert_pem,
        admin_ski: None,
        admin_private_jwk: None,
        admin_public_jwk: None,
    };
    save_entity_ca(store, &material)?;
    Ok(material)
}

// ---------------------------------------------------------------------------
// Keys a platform kickstart returned
// ---------------------------------------------------------------------------

/// `ca` is the Entity CA that a server-keyed kickstart answer `res` for
/// `entity_id` describes.
pub open spec fn kickstart_material_ok(entity_id: Seq<char>, res: KickstartResponse, ca: EntityCaMaterial) -> bool {
    &&& match res.ca_cert_pem {
        Some(c) => ca.ca_cert_pem@ == c@,
        None => false,
    }
    &&& match res.root {
        Some(rt) => match rt.private_jwk {
            Some(pj) => {
                &&& json_same(ca.private_jwk, pj)
                &&& public_of(pj, ca.public_jwk)
                &&& ca.ski@ == match rt.credential {
                    Some(c) => c.ski@,
                    None => match thumbprint_spec(ca.public_jwk) {
                        Some(t) => t,
                        None => "unknown"@,
                    },
                }
            },
            None => false,
        },
        None => false,
    }
    &&& ca.entity_id@ == lower_seq(entity_id)
    &&& ca.common_name@ == ca_common_name(entity_id)
    &&& match res.root_admin {
        None => ca.admin_ski is None && ca.admin_private_jwk is None && ca.admin_public_jwk is None,
        Some(a) => {
            &&& view_opt(ca.admin_ski) == match a.credential {
                Some(c) => Some(c.ski@),
                None => None,
            }
            &&& same_member(ca.admin_private_jwk, a.private_jwk)
            &&& match a.private_jwk {
                Some(pj) => match ca.admin_public_jwk {
                    Some(p) => public_of(pj, p),
                    None => false,
                },
                None => same_member(
                    ca.admin_public_jwk,
                    match a.credential {
                        Some(c) => Some(c.public_jwk),
                        None => None,
                    },
                ),
            }
        },
    }
}

/// The Entity CA a server-keyed kickstart answer describes: its
/// certificate, the root's private JWK (and the public one derived from
/// it), the root's key id (from its credential, else the JWK's thumbprint,
/// else `unknown`) and the Root Admin as far as the answer has it.
pub fn kickstart_material(entity_id: &str, res: KickstartResponse) -> (r: SdkResult<EntityCaMaterial>)
    ensures
        res.ca_cert_pem is None ==> (r matches Err(Error::Admin(m)) && m@
            == "kickstart response missing caCertPem"@),
        res.ca_cert_pem is Some && res.root is None ==> (r matches Err(Error::Admin(m)) && m@
            == "kickstart response missing root key material"@),
        res.ca_cert_pem is Some ==> (res.root matches Some(rt) ==> (rt.private_jwk is None ==> (r matches Err(
            Error::Admin(m),
        ) && m@
            == "kickstart did not return root.privateJwk — use client-keyed init (default) so keys stay local"@))),
        r matches Ok(ca) ==> kickstart_material_ok(entity_id@, res, ca),
        res.ca_cert_pem is Some ==> (res.root matches Some(rt) ==> (rt.private_jwk is Some ==> r is Ok)),
{
    let KickstartResponse { ca_cert_pem, root, root_admin, .. } = res;
    let ca_cert_pem = match ca_cert_pem {
        Some(c) => c,
        None => return Err(Error::admin("kickstart response missing caCertPem")),
    };
    let root = match root {
        Some(rt) => rt,
        None => return Err(Error::admin("kickstart response missing root key material")),
    };
    let private_jwk = match &root.private_jwk {
        Some(pj) => copy_json(pj),
        None => return Err(
            Error::admin(
                "kickstart did not return root.privateJwk — use client-keyed init (default) so keys stay local",
            ),
        ),
    };
    let public_jwk = public_jwk_of(&private_jwk);
    proof {
        let pj = root.private_jwk->Some_0;
        lemma_public_of_same(pj, private_jwk, public_jwk);
    }
    let ski = match &root.credential {
        Some(c) => copy_string(c.ski.as_str()),
        None => match jwk_thumbprint(&public_jwk) {
            Some(t) => t,
            None => copy_string("unknown"),
        },
    };
    let (admin_ski, admin_private_jwk, admin_public_jwk) = match &root_admin {
        None => (None, None, None),
        Some(a) => {
            let s = match &a.credential {
                Some(c) => Some(copy_string(c.ski.as_str())),
                None => None,
            };
            let pk = match &a.private_jwk {
                Some(j) => Some(copy_json(j)),
                None => None,
            };
            let pubk = match &a.private_jwk {
                Some(j) => Some(public_jwk_of(j)),
                None => match &a.credential {
                    Some(c) => Some(copy_json(&c.public_jwk)),
                    None => None,
                },
            };
            (s, pk, pubk)
        },
    };
    Ok(
        EntityCaMaterial {
            entity_id: string_of(&lower_chars(&chars_of(entity_id))),
            ski,
            common_name: string_of(&concat_chars(&chars_of(entity_id), &chars_of(" Entity CA"))),
            private_jwk,
            public_jwk,
            ca_cert_pem,
            admin_ski,
            admin_private_jwk,
            admin_public_jwk,
        },
    )
}

/// Deriving the public JWK from a copy of a private one is deriving it from
/// the private one.
proof fn lemma_public_of_same(pj: JsonValue, copy: JsonValue, pubk: JsonValue)
    requires
        json_same(copy, pj),
        public_of(copy, pubk),
    ensures
        public_of(pj, pubk),
{
    match pj {
        JsonValue::Object(a) => {
            let c = copy->Object_0@;
            assert forall|k: Seq<char>| k != "d"@ implies same_member(
                #[trigger] member_of(pubk->Object_0@, k),
                member_of(a@, k),
            ) by {
                lemma_same_members(c, a@, k);
                lemma_same_member_trans(member_of(pubk->Object_0@, k), member_of(c, k), member_of(a@, k));
            }
        },
        _ => {
            lemma_json_same_trans(pubk, copy, pj);
        },
    }
}

/// Stores the Entity CA that a server-keyed kickstart answer describes,
/// and the Platform Root it came with.
pub fn persist_kickstart_response<S: KeyStore>(store: &S, entity_id: &str, res: KickstartResponse) -> (r: SdkResult<
    EntityCaMaterial,
>)
    ensures
        res.ca_cert_pem is None ==> (r matches Err(Error::Admin(m)) && m@
            == "kickstart response missing caCertPem"@),
        res.ca_cert_pem is Some && res.root is None ==> (r matches Err(Error::Admin(m)) && m@
            == "kickstart response missing root key material"@),
        res.ca_cert_pem is Some ==> (res.root matches Some(rt) ==> (rt.private_jwk is None ==> (r matches Err(
            Error::Admin(m),
        ) && m@
            == "kickstart did not return root.privateJwk — use client-keyed init (default) so keys stay local"@))),
        r matches Ok(ca) ==> kickstart_material_ok(entity_id@, res, ca),
{
    let platform_root = match &res.platform_root_pem {
        Some(p) => Some(copy_string(p.as_str())),
        None => None,
    };
    let material = kickstart_material(entity_id, res)?;
    save_entity_ca(store, &material)?;
    if let Some(root_pem) = &platform_root {
        store.save_string(KEY_PLATFORM_CA, root_pem.as_str())?;
    }
    Ok(material)
}

// ---------------------------------------------------------------------------
// Issuing a machine leaf
// ---------------------------------------------------------------------------

/// A signed machine leaf, its chain, and the machine's credential.
#[derive(Debug)]
pub struct IssuedMachineLeaf {
    pub leaf_pem: String,
    pub chain_pem: String,
    pub credential: CapabilityCredential,
    pub issuer_ski: String,
}

/// The seed of the key that signs an Entity CA's machine credentials.
pub open spec fn issuer_seed(ca: EntityCaMaterial) -> Result<Seq<u8>, u8> {
    seed_spec(
        match ca.admin_private_jwk {
            Some(j) => j,
            None => ca.private_jwk,
        },
    )
}

/// Issues a machine leaf for a CSR: `sign_leaf`, handed the key id the CSR
/// carries, signs the certificate; the credential names the CSR's key, the
/// host, the validity and the permissions (the given ones, else
/// `machine.connect` on the machine's name), and is signed by the CA's
/// issuer.
pub fn issue_machine_leaf<F: FnOnce(&str) -> Result<SignedClientCert, MtlsError>>(
    ca: &EntityCaMaterial,
    csr_pem: &str,
    entity_id: &str,
    host: Option<&str>,
    separator: &str,
    permissions: Option<Vec<Capability>>,
    not_before: String,
    not_after: String,
    sign_leaf: F,
) -> (r: SdkResult<IssuedMachineLeaf>)
    requires
        forall|ski: &str| sign_leaf.requires((ski,)),
    ensures
        csr_pem_spec(csr_pem@) is Err ==> r matches Err(Error::Mtls(_)),
        r matches Ok(leaf) ==> {
            &&& csr_pem_spec(csr_pem@) matches Ok((_, key, _))
            &&& exists|ski: &str, made: Result<SignedClientCert, MtlsError>| {
                &&& ski@ == leaf.credential.ski@
                &&& #[trigger] sign_leaf.ensures((ski,), made)
                &&& made matches Ok(sc) && leaf.leaf_pem == sc.leaf_pem && leaf.chain_pem == sc.chain_pem
            }
            &&& leaf.credential.ski@ == ski_spec("OKP"@, "Ed25519"@, crate::mtls::b64_url_nopad_encode(key))
            &&& leaf.credential.kind == CredentialKind::Machine
            &&& leaf.credential.entity_id@ == entity_id@
            &&& view_opt(leaf.credential.host) == match host {
                Some(h) => Some(h@),
                None => None::<Seq<char>>,
            }
            &&& leaf.credential.not_before == not_before
            &&& leaf.credential.not_after == not_after
            &&& leaf.issuer_ski@ == leaf.credential.issuer_ski@
            &&& leaf.issuer_ski@ == match ca.admin_ski {
                Some(s) => s@,
                None => ca.ski@,
            }
            &&& match permissions {
                Some(p) => leaf.credential.permissions == p,
                None => leaf.credential.permissions@.len() == 1,
            }
            &&& issuer_seed(*ca) matches Ok(seed) && leaf.credential.signature@ == compact_jws(
                seed,
                encode_utf8(payload_text(leaf.credential)),
            )
        },
{
    let (public_jwk, ski) = match public_jwk_from_csr_pem(csr_pem) {
        Ok(t) => t,
        Err(e) => return Err(Error::Mtls(e)),
    };
    let machine_name = leaf_machine_name(host, separator, ski.as_str());
    let signed = match sign_leaf(ski.as_str()) {
        Ok(sc) => sc,
        Err(e) => return Err(Error::Mtls(e)),
    };
    let perms = match permissions {
        Some(p) => p,
        None => default_machine_permissions(machine_name.as_str()),
    };
    let issuer_ski = copy_string(ca.issuer_ski());
    let unsigned = unsigned_machine_credential(
        entity_id,
        copy_string(ski.as_str()),
        public_jwk,
        match host {
            Some(h) => Some(copy_string(h)),
            None => None,
        },
        copy_string(issuer_ski.as_str()),
        perms,
        not_before,
        not_after,
    );
    let credential = sign_credential(unsigned, ca.issuer_private_jwk())?;
    Ok(IssuedMachineLeaf { leaf_pem: signed.leaf_pem, chain_pem: signed.chain_pem, credential, issuer_ski })
}

// ---------------------------------------------------------------------------
// A client-keyed kickstart
// ---------------------------------------------------------------------------

fn copy_capabilities(ps: &Vec<Capability>) -> (r: Vec<Capability>)
    ensures
        r@.len() == ps@.len(),
        forall|i: int| 0 <= i < r@.len() ==> same_capability(#[trigger] r@[i], ps@[i]),
{
    let mut out: Vec<Capability> = Vec::new();
    let mut i: usize = 0;
    while i < ps.len()
        invariant
            i <= ps@.len(),
            out@.len() == i,
            forall|j: int| 0 <= j < i ==> same_capability(#[trigger] out@[j], ps@[j]),
        decreases ps.len() - i,
    {
        out.push(copy_capability(&ps[i]));
        i += 1;
    }
    out
}

/// Prepares a kickstart whose keys stay on this machine: `make_ca`, handed
/// the common name, makes the Entity CA and `make_admin` the Root Admin's
/// key (private JWK, public JWK, key id); both credentials carry the
/// package's profile bound to the entity, run from `not_before` to
/// `not_after`, and are signed by the Entity CA.
pub fn prepare_client_keyed_kickstart<
    C: FnOnce(&str) -> SdkResult<SelfSignedCa>,
    A: FnOnce() -> SdkResult<(JsonValue, JsonValue, String)>,
>(
    entity_id: &str,
    package: &str,
    not_before: String,
    not_after: String,
    make_ca: C,
    make_admin: A,
) -> (r: SdkResult<(EntityCaMaterial, KickstartRequest)>)
    requires
        forall|cn: &str| make_ca.requires((cn,)),
        make_admin.requires(()),
    ensures
        package_spec(package@) matches Err(m) ==> (r matches Err(Error::Admin(x)) && x@ == m),
        r matches Ok((ca, req)) ==> {
            &&& package_spec(package@) is Ok
            &&& ca.entity_id@ == lower_seq(entity_id@)
            &&& req.entity_id@ == lower_seq(entity_id@)
            &&& req.package@ == lower_seq(package@)
            &&& ca.admin_ski is Some && ca.admin_private_jwk is Some && ca.admin_public_jwk is Some
            &&& req.root_public_jwk is Some && req.admin_public_jwk is Some && req.ca_cert_pem is Some
            &&& req.root_credential matches Some(rc) && rc.kind == CredentialKind::EntityRoot
                && rc.ski@ == ca.ski@ && rc.issuer_ski@ == ca.ski@
                && rc.package == Some(package_spec(package@)->Ok_0)
            &&& req.admin_credential matches Some(ac) && ac.kind == CredentialKind::RootAdmin
                && ac.ski@ == ca.admin_ski->Some_0@ && ac.issuer_ski@ == ca.ski@
                && view_opt(ac.zone) == Some(""@)
        },
{
    let entity = string_of(&lower_chars(&chars_of(entity_id)));
    let pkg = parse_package(package)?;
    let cn = string_of(&concat_chars(&chars_of(entity.as_str()), &chars_of(" Entity CA")));
    let ca = make_ca(cn.as_str())?;
    let (admin_private, admin_public, admin_ski) = make_admin()?;
    let permissions = with_entity_scope(kickstart_permissions(package), entity.as_str());
    let root_unsigned = unsigned_credential(
        CredentialKind::EntityRoot,
        entity.as_str(),
        copy_string(ca.ski.as_str()),
        public_jwk_of(&ca.public_jwk),
        copy_string(ca.ski.as_str()),
        copy_capabilities(&permissions),
        copy_string(not_before.as_str()),
        copy_string(not_after.as_str()),
        None,
        None,
        Some(pkg),
    );
    let root_credential = sign_credential(root_unsigned, &ca.private_jwk)?;
    let admin_unsigned = unsigned_credential(
        CredentialKind::RootAdmin,
        entity.as_str(),
        copy_string(admin_ski.as_str()),
        public_jwk_of(&admin_public),
        copy_string(ca.ski.as_str()),
        permissions,
        not_before,
        not_after,
        None,
        Some(copy_string("")),
        Some(pkg),
    );
    let admin_credential = sign_credential(admin_unsigned, &ca.private_jwk)?;
    let request = KickstartRequest {
        entity_id: copy_string(entity.as_str()),
        package: string_of(&lower_chars(&chars_of(package))),
        root_public_jwk: Some(public_jwk_of(&ca.public_jwk)),
        admin_public_jwk: Some(public_jwk_of(&admin_public)),
        root_credential: Some(root_credential),
        admin_credential: Some(admin_credential),
        ca_cert_pem: Some(copy_string(ca.ca_cert_pem.as_str())),
    };
    let material = EntityCaMaterial {
        entity_id: entity,
        ski: ca.ski,
        common_name: ca.common_name,
        private_jwk: ca.private_jwk,
        public_jwk: ca.public_jwk,
        ca_cert_pem: ca.ca_cert_pem,
        admin_ski: Some(admin_ski),
        admin_private_jwk: Some(admin_private),
        admin_public_jwk: Some(admin_public),
    };
    Ok((material, request))
}

} // verus!
