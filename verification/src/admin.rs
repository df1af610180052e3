//! Admin enrollment helpers: where an Entity CA is stored, packages,
//! enrollment list items and CSR fingerprints.

use vstd::prelude::*;
use vstd::utf8::encode_utf8;
use crate::credential::{CapabilityCredential, EntityPackage};
use crate::identity::{parse_identity_spec, MachineIdentity};
use crate::json::{json_render, member, member_of, render_json, JsonValue};
use crate::mtls::{hex_spec, sha256, sha256_digest, to_hex};
use crate::sdk_error::{Error, SdkResult};
use crate::text::{
    all_digits, chars_eq, chars_of, concat_chars, contains_char, contains_chars, contains_seq,
    copy_string, debug_quoted, debug_str, decimal_spec, lex_order, lower_chars, lower_seq,
    nat_decimal, parse_u64_chars, parse_u64_seq, string_of, trim_chars, trim_seq,
    u64_decimal_chars, Order,
};

verus! {

// ---------------------------------------------------------------------------
// Entity CA paths
// ---------------------------------------------------------------------------

/// An entity id that could escape `admin/`: empty, with `/`, or with `..`.
pub open spec fn entity_id_illegal(id: Seq<char>) -> bool {
    id.len() == 0 || contains_seq(id, "/"@) || contains_seq(id, ".."@)
}

/// The message for an illegal entity id.
pub open spec fn illegal_entity_text(id: Seq<char>) -> Seq<char> {
    "illegal entity id "@ + debug_quoted(id)
}

fn sanitize_entity_id(entity_id: &str) -> (r: SdkResult<()>)
    ensures
        if entity_id_illegal(entity_id@) {
            r matches Err(Error::Admin(m)) && m@ == illegal_entity_text(entity_id@)
        } else {
            r is Ok
        },
{
    let id = chars_of(entity_id);
    proof {
        reveal_strlit("/");
    }
    if id.len() == 0 || contains_chars(&id, &chars_of("/")) || contains_chars(&id, &chars_of("..")) {
        let m = concat_chars(&chars_of("illegal entity id "), &chars_of(debug_str(entity_id).as_str()));
        return Err(Error::Admin(string_of(&m)));
    }
    Ok(())
}

/// `admin/<entity>/<file>` for a legal entity id.
pub open spec fn admin_path(entity_id: Seq<char>, file: Seq<char>) -> Seq<char> {
    "admin/"@ + entity_id + "/"@ + file
}

fn admin_file(entity_id: &str, file: &str) -> (r: SdkResult<String>)
    ensures
        if entity_id_illegal(entity_id@) {
            r matches Err(Error::Admin(m)) && m@ == illegal_entity_text(entity_id@)
        } else {
            r matches Ok(p) && p@ == admin_path(entity_id@, file@)
        },
{
    sanitize_entity_id(entity_id)?;
    let p = concat_chars(&chars_of("admin/"), &chars_of(entity_id));
    let p = concat_chars(&p, &chars_of("/"));
    let p = concat_chars(&p, &chars_of(file));
    Ok(string_of(&p))
}

/// Where the Entity CA's private key is stored.
pub fn admin_ca_key(entity_id: &str) -> (r: SdkResult<String>)
    ensures
        if entity_id_illegal(entity_id@) {
            r matches Err(Error::Admin(m)) && m@ == illegal_entity_text(entity_id@)
        } else {
            r matches Ok(p) && p@ == admin_path(entity_id@, "entity-ca.key"@)
        },
{
    admin_file(entity_id, "entity-ca.key")
}

/// Where the Entity CA's certificate is stored.
pub fn admin_ca_cert(entity_id: &str) -> (r: SdkResult<String>)
    ensures
        if entity_id_illegal(entity_id@) {
            r matches Err(Error::Admin(m)) && m@ == illegal_entity_text(entity_id@)
        } else {
            r matches Ok(p) && p@ == admin_path(entity_id@, "entity-ca.crt"@)
        },
{
    admin_file(entity_id, "entity-ca.crt")
}

/// Where the Entity CA's metadata is stored.
pub fn admin_ca_meta(entity_id: &str) -> (r: SdkResult<String>)
    ensures
        if entity_id_illegal(entity_id@) {
            r matches Err(Error::Admin(m)) && m@ == illegal_entity_text(entity_id@)
        } else {
            r matches Ok(p) && p@ == admin_path(entity_id@, "entity-ca.json"@)
        },
{
    admin_file(entity_id, "entity-ca.json")
}

// ---------------------------------------------------------------------------
// Packages
// ---------------------------------------------------------------------------

/// The package a name selects, ignoring ASCII case, or the message.
pub open spec fn package_spec(package: Seq<char>) -> Result<EntityPackage, Seq<char>> {
    let p = lower_seq(package);
    if p == "personal"@ {
        Ok(EntityPackage::Personal)
    } else if p == "enterprise"@ {
        Ok(EntityPackage::Enterprise)
    } else {
        Err("package must be personal or enterprise, got "@ + p)
    }
}

/// Reads a package name.
pub fn parse_package(package: &str) -> (r: SdkResult<EntityPackage>)
    ensures
        match package_spec(package@) {
            Ok(p) => r == Ok::<EntityPackage, Error>(p),
            Err(m) => r matches Err(Error::Admin(x)) && x@ == m,
        },
{
    let p = lower_chars(&chars_of(package));
    if chars_eq(&p, &chars_of("personal")) {
        Ok(EntityPackage::Personal)
    } else if chars_eq(&p, &chars_of("enterprise")) {
        Ok(EntityPackage::Enterprise)
    } else {
        let m = concat_chars(&chars_of("package must be personal or enterprise, got "), &p);
        Err(Error::Admin(string_of(&m)))
    }
}

// ---------------------------------------------------------------------------
// Enrollment list items
// ---------------------------------------------------------------------------

/// One pending (or past) enrollment as the list shows it; members it does
/// not name are kept in `extra`.
#[derive(Debug)]
pub struct EnrollListItem {
    pub enroll_id: Option<String>,
    pub entity_id: Option<String>,
    pub host: Option<String>,
    pub status: Option<String>,
    pub kind: Option<String>,
    pub ski: Option<String>,
    pub csr_pem: Option<String>,
    pub extra: Vec<(String, JsonValue)>,
}

/// The enrollment's id: `enroll_id`, else a string `id` among the extra
/// members; an empty id counts as none.
pub open spec fn enrollment_id_spec(item: EnrollListItem) -> Option<Seq<char>> {
    let id = match item.enroll_id {
        Some(e) => Some(e@),
        None => match member_of(item.extra@, "id"@) {
            Some(JsonValue::Str(s)) => Some(s@),
            _ => None,
        },
    };
    match id {
        Some(s) => if s.len() > 0 {
            Some(s)
        } else {
            None
        },
        None => None,
    }
}

/// The enrollment's id, or `Admin("enrollment is missing enrollId")`.
pub fn enrollment_id(item: &EnrollListItem) -> (r: SdkResult<String>)
    ensures
        match enrollment_id_spec(*item) {
            Some(id) => r matches Ok(s) && s@ == id,
            None => r matches Err(Error::Admin(m)) && m@ == "enrollment is missing enrollId"@,
        },
{
    let id: Option<String> = match &item.enroll_id {
        Some(e) => Some(copy_string(e.as_str())),
        None => match member(&item.extra, "id") {
            Some(JsonValue::Str(s)) => Some(copy_string(s.as_str())),
            _ => None,
        },
    };
    match id {
        Some(s) => {
            if s.as_str().is_empty() {
                Err(Error::Admin(string_of(&chars_of("enrollment is missing enrollId"))))
            } else {
                Ok(s)
            }
        },
        None => Err(Error::Admin(string_of(&chars_of("enrollment is missing enrollId")))),
    }
}

/// The first enrollment in `list` with id `enroll_id`, as the fallback
/// when fetching it directly failed; `Admin` when it is not there.
pub fn find_enrollment(list: Vec<EnrollListItem>, enroll_id: &str, entity_id: &str) -> (r: SdkResult<EnrollListItem>)
    ensures
        r matches Ok(item) ==> enrollment_id_spec(item) == Some(enroll_id@),
        r matches Ok(item) ==> list@.contains(item),
        (exists|i: int| 0 <= i < list@.len() && enrollment_id_spec(#[trigger] list@[i]) == Some(enroll_id@))
            ==> r is Ok,
        r matches Err(e) ==> (e matches Error::Admin(m) && m@ == "enrollment "@ + enroll_id@
            + " not found in enroll-list for "@ + entity_id@),
{
    let ghost all = list@;
    let n = list.len();
    let mut rest = list;
    let mut taken: usize = 0;
    while rest.len() > 0
        invariant
            n == all.len(),
            all == list@,
            taken + rest@.len() == all.len(),
            rest@ == all.subrange(taken as int, all.len() as int),
            forall|j: int| 0 <= j < taken ==> enrollment_id_spec(#[trigger] all[j]) != Some(enroll_id@),
        decreases rest.len(),
    {
        let item = rest.remove(0);
        proof {
            assert(item == all[taken as int]);
            assert(rest@ =~= all.subrange(taken + 1, all.len() as int));
        }
        match enrollment_id(&item) {
            Ok(id) => {
                if crate::text::chars_eq(&chars_of(id.as_str()), &chars_of(enroll_id)) {
                    proof {
                        assert(all[taken as int] == item);
                    }
                    return Ok(item);
                }
            },
            Err(_) => {},
        }
        taken += 1;
    }
    let m = concat_chars(&chars_of("enrollment "), &chars_of(enroll_id));
    let m = concat_chars(&m, &chars_of(" not found in enroll-list for "));
    let m = concat_chars(&m, &chars_of(entity_id));
    Err(Error::Admin(string_of(&m)))
}

/// The extra members that may name who asked, in the order they are tried.
pub open spec fn requester_keys() -> Seq<Seq<char>> {
    seq!["requester"@, "requestedBy"@, "createdBy"@, "actor"@, "userId"@]
}

/// The label of the first requester key present among `keys`: a string
/// member's text, any other member's JSON text.
pub open spec fn requester_in(extra: Seq<(String, JsonValue)>, keys: Seq<Seq<char>>) -> Option<Seq<char>>
    decreases keys.len(),
{
    if keys.len() == 0 {
        None
    } else {
        match member_of(extra, keys[0]) {
            Some(JsonValue::Str(s)) => Some(s@),
            Some(v) => Some(json_render(v)),
            None => requester_in(extra, keys.drop_first()),
        }
    }
}

/// Who requested an enrollment, if the item says.
pub fn requester_label(item: &EnrollListItem) -> (r: Option<String>)
    ensures
        match requester_in(item.extra@, requester_keys()) {
            Some(l) => r matches Some(s) && s@ == l,
            None => r is None,
        },
{
    let keys = vec!["requester", "requestedBy", "createdBy", "actor", "userId"];
    let ghost all = requester_keys();
    assert(all.len() == 5);
    assert(all.subrange(0, 5) =~= all);
    let mut i: usize = 0;
    while i < keys.len()
        invariant
            i <= 5,
            keys@.len() == 5,
            all == requester_keys(),
            forall|j: int| 0 <= j < 5 ==> (#[trigger] keys@[j])@ == all[j],
            requester_in(item.extra@, all) == requester_in(item.extra@, all.subrange(i as int, 5)),
        decreases keys.len() - i,
    {
        assert(all.subrange(i as int, 5).drop_first() =~= all.subrange(i + 1, 5));
        match member(&item.extra, keys[i]) {
            Some(JsonValue::Str(s)) => return Some(copy_string(s.as_str())),
            Some(v) => return Some(render_json(v)),
            None => {},
        }
        i += 1;
    }
    None
}

// ---------------------------------------------------------------------------
// Fingerprints
// ---------------------------------------------------------------------------

/// The SHA-256 of a CSR's PEM text, in lowercase hex.
pub fn csr_fingerprint(csr_pem: &str) -> (r: String)
    ensures
        r@ == hex_spec(sha256_digest(encode_utf8(csr_pem@))),
{
    let digest = sha256(csr_pem.as_bytes());
    to_hex(digest.as_slice())
}


// ---------------------------------------------------------------------------
// Choosing an enrollment or an organization
// ---------------------------------------------------------------------------

/// Which list entry a selector names: a 1-based index when it is all ASCII
/// digits, otherwise the entry with that enrollment id; or the message.
pub open spec fn selector_spec(ids: Seq<Option<Seq<char>>>, selector: Seq<char>) -> Result<int, Seq<char>> {
    let t = trim_seq(selector);
    if t.len() == 0 {
        Err("pass a list index (1) or an enroll id"@)
    } else if all_digits(t) {
        match parse_u64_seq(t) {
            None => Err("invalid CSR index "@ + t),
            Some(n) => if n == 0 || n > ids.len() {
                Err("CSR index "@ + nat_decimal(n as nat) + " is out of range (1..="@ + nat_decimal(
                    ids.len(),
                ) + ")"@)
            } else {
                Ok(n - 1)
            },
        }
    } else {
        match first_with_id(ids, t, 0) {
            Some(i) => Ok(i),
            None => Err("enrollment "@ + t + " is not in this CSR list"@),
        }
    }
}

/// The first index at or after `i` whose id is `id`.
pub open spec fn first_with_id(ids: Seq<Option<Seq<char>>>, id: Seq<char>, i: int) -> Option<int>
    decreases ids.len() - i,
{
    if i < 0 || i >= ids.len() {
        None
    } else if ids[i] == Some(id) {
        Some(i)
    } else {
        first_with_id(ids, id, i + 1)
    }
}

/// The enrollment ids of a list.
pub open spec fn list_ids(list: Seq<EnrollListItem>) -> Seq<Option<Seq<char>>> {
    list.map_values(|item: EnrollListItem| enrollment_id_spec(item))
}

/// Picks an entry of an enrollment list: `1` is the first row; anything else
/// is matched against the enrollment ids.
pub fn resolve_enroll_selector<'a>(list: &'a Vec<EnrollListItem>, selector: &str) -> (r: SdkResult<
    &'a EnrollListItem,
>)
    ensures
        match selector_spec(list_ids(list@), selector@) {
            Ok(i) => r matches Ok(item) && *item == list@[i],
            Err(m) => r matches Err(Error::Admin(x)) && x@ == m,
        },
{
    let trimmed = trim_chars(&chars_of(selector));
    if trimmed.len() == 0 {
        return Err(Error::Admin(string_of(&chars_of("pass a list index (1) or an enroll id"))));
    }
    if all_ascii_digits(&trimmed) {
        let n = match parse_u64_chars(&trimmed) {
            Some(n) => n,
            None => {
                let m = concat_chars(&chars_of("invalid CSR index "), &trimmed);
                return Err(Error::Admin(string_of(&m)));
            },
        };
        if n == 0 || n > list.len() as u64 {
            let m = concat_chars(&chars_of("CSR index "), &u64_decimal_chars(n));
            let m = concat_chars(&m, &chars_of(" is out of range (1..="));
            let m = concat_chars(&m, &u64_decimal_chars(list.len() as u64));
            let m = concat_chars(&m, &chars_of(")"));
            return Err(Error::Admin(string_of(&m)));
        }
        return Ok(&list[(n - 1) as usize]);
    }
    let ghost ids = list_ids(list@);
    let mut i: usize = 0;
    while i < list.len()
        invariant
            i <= list@.len(),
            ids == list_ids(list@),
            trimmed@ == trim_seq(selector@),
            trimmed@.len() > 0,
            !all_digits(trimmed@),
            first_with_id(ids, trimmed@, 0) == first_with_id(ids, trimmed@, i as int),
        decreases list.len() - i,
    {
        assert(ids[i as int] == enrollment_id_spec(list@[i as int]));
        let same = match enrollment_id(&list[i]) {
            Ok(id) => chars_eq(&chars_of(id.as_str()), &trimmed),
            Err(_) => false,
        };
        if same {
            assert(ids[i as int] == Some(trimmed@));
            assert(first_with_id(ids, trimmed@, i as int) == Some(i as int));
            return Ok(&list[i]);
        }
        i += 1;
    }
    let m = concat_chars(&chars_of("enrollment "), &trimmed);
    let m = concat_chars(&m, &chars_of(" is not in this CSR list"));
    Err(Error::Admin(string_of(&m)))
}

fn all_ascii_digits(s: &Vec<char>) -> (r: bool)
    ensures
        r == all_digits(s@),
{
    let mut i: usize = 0;
    while i < s.len()
        invariant
            i <= s@.len(),
            forall|j: int| 0 <= j < i ==> '0' <= #[trigger] s@[j] && s@[j] <= '9',
        decreases s.len() - i,
    {
        if s[i] < '0' || s[i] > '9' {
            return false;
        }
        i += 1;
    }
    true
}

/// `names` in ascending order (by code point, as `String`'s `Ord`).
pub open spec fn ascending(names: Seq<Seq<char>>) -> bool {
    forall|i: int, j: int| 0 <= i < j < names.len() ==> lex_order(names[i], names[j]) != Order::Greater
}

/// The views of a list of strings.
pub open spec fn views(v: Seq<String>) -> Seq<Seq<char>> {
    v.map_values(|s: String| s@)
}

/// `slice::sort` of strings: the same strings, in ascending order.
#[verifier::external_body]
fn sort_strings(v: &mut Vec<String>)
    ensures
        views(final(v)@).to_multiset() == views(old(v)@).to_multiset(),
        final(v)@.len() == old(v)@.len(),
        ascending(views(final(v)@)),
{
    v.sort();
}

/// The texts joined with `", "`.
pub open spec fn comma_joined(names: Seq<Seq<char>>) -> Seq<char>
    decreases names.len(),
{
    if names.len() == 0 {
        Seq::empty()
    } else if names.len() == 1 {
        names[0]
    } else {
        comma_joined(names.drop_last()) + ", "@ + names.last()
    }
}

/// The organization to act on: the explicit one (trimmed, ASCII lower
/// case; blank is refused), else the only Entity CA found; none or several
/// found are refused, the latter naming them in ascending order.
pub fn infer_entity_id(explicit: Option<&str>, found: Vec<String>) -> (r: SdkResult<String>)
    ensures
        match explicit {
            Some(e) => if trim_seq(e@).len() == 0 {
                r matches Err(Error::Admin(m)) && m@ == "pass --org <entity-id>"@
            } else {
                r matches Ok(id) && id@ == lower_seq(trim_seq(e@))
            },
            None => if found@.len() == 1 {
                r matches Ok(id) && id@ == lower_seq(found@[0]@)
            } else if found@.len() == 0 {
                r matches Err(Error::Admin(m)) && m@ == "pass --org <entity-id> (no Entity CA in this state dir)"@
            } else {
                r matches Err(Error::Admin(m)) && exists|sorted: Seq<Seq<char>>|
                    sorted.to_multiset() == views(found@).to_multiset() && ascending(sorted) && m@
                        == "pass --org <entity-id> (multiple orgs in state dir: "@ + comma_joined(sorted)
                        + ")"@
            },
        },
{
    if let Some(id) = explicit {
        let t = trim_chars(&chars_of(id));
        if t.len() == 0 {
            return Err(Error::Admin(string_of(&chars_of("pass --org <entity-id>"))));
        }
        return Ok(string_of(&lower_chars(&t)));
    }
    let ghost before = views(found@);
    let mut found = found;
    sort_strings(&mut found);
    if found.len() == 1 {
        proof {
            let after = views(found@);
            after.to_multiset_ensures();
            before.to_multiset_ensures();
            assert(before.contains(before[0]));
            assert(after.to_multiset().count(before[0]) > 0);
            assert(after.contains(before[0]));
            assert(after[0] == before[0]);
        }
        return Ok(string_of(&lower_chars(&chars_of(found[0].as_str()))));
    }
    if found.len() == 0 {
        return Err(
            Error::Admin(string_of(&chars_of("pass --org <entity-id> (no Entity CA in this state dir)"))),
        );
    }
    let mut joined: Vec<char> = Vec::new();
    let mut i: usize = 0;
    while i < found.len()
        invariant
            1 < found@.len(),
            i <= found@.len(),
            joined@ == comma_joined(views(found@).subrange(0, i as int)),
        decreases found.len() - i,
    {
        assert(views(found@).subrange(0, i + 1).drop_last() =~= views(found@).subrange(0, i as int));
        if i > 0 {
            joined = concat_chars(&joined, &chars_of(", "));
        }
        joined = concat_chars(&joined, &chars_of(found[i].as_str()));
        i += 1;
    }
    assert(views(found@).subrange(0, found@.len() as int) =~= views(found@));
    let m = concat_chars(&chars_of("pass --org <entity-id> (multiple orgs in state dir: "), &joined);
    let m = concat_chars(&m, &chars_of(")"));
    Err(Error::Admin(string_of(&m)))
}


// ---------------------------------------------------------------------------
// Kickstart and approval
// ---------------------------------------------------------------------------

/// What creating an entity sends: client-generated keys and credentials when
/// the keys stay local.
#[derive(Debug)]
pub struct KickstartRequest {
    pub entity_id: String,
    pub package: String,
    pub root_public_jwk: Option<JsonValue>,
    pub admin_public_jwk: Option<JsonValue>,
    pub root_credential: Option<CapabilityCredential>,
    pub admin_credential: Option<CapabilityCredential>,
    pub ca_cert_pem: Option<String>,
}

impl KickstartRequest {
    /// Whether all five client-keyed fields are present (otherwise the
    /// platform generates the keys).
    pub fn is_client_keyed(&self) -> (r: bool)
        ensures
            r == (self.root_public_jwk is Some && self.admin_public_jwk is Some && self.root_credential is Some
                && self.admin_credential is Some && self.ca_cert_pem is Some),
    {
        self.root_public_jwk.is_some() && self.admin_public_jwk.is_some() && self.root_credential.is_some()
            && self.admin_credential.is_some() && self.ca_cert_pem.is_some()
    }
}

/// Key material a server-side kickstart returns for one key: its
/// credential and, when the platform generated it, the private JWK.
#[derive(Debug)]
pub struct KickstartKeyMaterial {
    pub credential: Option<CapabilityCredential>,
    pub private_jwk: Option<JsonValue>,
}

/// What creating an entity answers.
#[derive(Debug)]
pub struct KickstartResponse {
    pub entity_id: Option<String>,
    pub package: Option<String>,
    pub ca_cert_pem: Option<String>,
    pub platform_ca_cert_pem: Option<String>,
    pub platform_root_pem: Option<String>,
    pub root: Option<KickstartKeyMaterial>,
    pub root_admin: Option<KickstartKeyMaterial>,
}

/// The machine name a leaf's default permission names: the machine part of
/// a host that parses as an identity, else the host, else the key id.
pub fn leaf_machine_name(host: Option<&str>, separator: &str, ski: &str) -> (r: String)
    ensures
        r@ == match host {
            Some(h) => match parse_identity_spec(h@, separator@) {
                Ok(id) => id.0,
                Err(_) => h@,
            },
            None => ski@,
        },
{
    match host {
        Some(h) => match MachineIdentity::parse(h, separator) {
            Ok(id) => id.machine_name,
            Err(_) => copy_string(h),
        },
        None => copy_string(ski),
    }
}

/// What approving an enrollment checks, given the subject key id its CSR
/// carries: an id, a CSR, a listed key id that matches, and the Entity
/// CA's entity. Gives the enrollment id and the entity.
pub fn approval_checks(enroll: &EnrollListItem, csr_ski: &str, ca_entity_id: &str) -> (r: SdkResult<(String, String)>)
    ensures
        r matches Ok((id, entity)) ==> {
            &&& enrollment_id_spec(*enroll) == Some(id@)
            &&& enroll.csr_pem is Some
            &&& (enroll.ski matches Some(listed) ==> listed@ == csr_ski@)
            &&& entity@ == ca_entity_id@
            &&& (enroll.entity_id matches Some(e) ==> e@ == ca_entity_id@)
        },
        enrollment_id_spec(*enroll) is None ==> (r matches Err(Error::Admin(m)) && m@ == "enrollment is missing enrollId"@),
{
    let enroll_id = enrollment_id(enroll)?;
    if enroll.csr_pem.is_none() {
        let m = concat_chars(&chars_of("enrollment "), &chars_of(enroll_id.as_str()));
        let m = concat_chars(&m, &chars_of(" has no csrPem"));
        return Err(Error::Admin(string_of(&m)));
    }
    if let Some(listed) = &enroll.ski {
        if !chars_eq(&chars_of(listed.as_str()), &chars_of(csr_ski)) {
            let m = concat_chars(&chars_of("enrollment SKI "), &chars_of(listed.as_str()));
            let m = concat_chars(&m, &chars_of(" does not match CSR thumbprint "));
            let m = concat_chars(&m, &chars_of(csr_ski));
            return Err(Error::Admin(string_of(&m)));
        }
    }
    let entity_id = match &enroll.entity_id {
        Some(e) => copy_string(e.as_str()),
        None => copy_string(ca_entity_id),
    };
    if !chars_eq(&chars_of(entity_id.as_str()), &chars_of(ca_entity_id)) {
        let m = concat_chars(&chars_of("enrollment entity "), &chars_of(entity_id.as_str()));
        let m = concat_chars(&m, &chars_of(" does not match Entity CA "));
        let m = concat_chars(&m, &chars_of(ca_entity_id));
        return Err(Error::Admin(string_of(&m)));
    }
    Ok((enroll_id, entity_id))
}

} // verus!
