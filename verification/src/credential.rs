//! Capability credentials: their kinds, the permission profiles that
//! kickstart and machine enrollment grant, and entity scoping.

use vstd::prelude::*;
use crate::json::{
    copy_json, json_quote, json_render, json_same, json_string, lemma_member_at, lemma_member_of_push,
    lemma_member_update_other, member_index, member_of, render_json, JsonValue,
};
use crate::models::view_opt;
use crate::text::{
    chars_eq, chars_of, concat_chars, copy_string, lower_chars, lower_seq, nat_decimal, string_of,
    u64_decimal_chars,
};

verus! {

/// What a credential certifies.
#[derive(Clone, Copy, Debug, PartialEq, Eq, Structural)]
pub enum CredentialKind {
    EntityRoot,
    RootAdmin,
    InterimAdmin,
    ZoneAuthority,
    Machine,
}

impl CredentialKind {
    /// The wire name (snake_case).
    pub fn as_str(self) -> (r: &'static str)
        ensures
            r@ == match self {
                CredentialKind::EntityRoot => "entity_root"@,
                CredentialKind::RootAdmin => "root_admin"@,
                CredentialKind::InterimAdmin => "interim_admin"@,
                CredentialKind::ZoneAuthority => "zone_authority"@,
                CredentialKind::Machine => "machine"@,
            },
    {
        match self {
            CredentialKind::EntityRoot => "entity_root",
            CredentialKind::RootAdmin => "root_admin",
            CredentialKind::InterimAdmin => "interim_admin",
            CredentialKind::ZoneAuthority => "zone_authority",
            CredentialKind::Machine => "machine",
        }
    }
}

/// The package an entity was created with.
#[derive(Clone, Copy, Debug, PartialEq, Eq, Structural)]
pub enum EntityPackage {
    Personal,
    Enterprise,
}

impl EntityPackage {
    /// The wire name (snake_case).
    pub fn as_str(self) -> (r: &'static str)
        ensures
            r@ == match self {
                EntityPackage::Personal => "personal"@,
                EntityPackage::Enterprise => "enterprise"@,
            },
    {
        match self {
            EntityPackage::Personal => "personal",
            EntityPackage::Enterprise => "enterprise",
        }
    }
}

/// The platform's co-signature on a credential envelope.
#[derive(Clone, Debug)]
pub struct PlatformCosign {
    pub kid: String,
    pub signed_at: String,
    pub signature: String,
}

/// A granted action with its JSON scope.
#[derive(Debug)]
pub struct Capability {
    pub action: String,
    pub scope: JsonValue,
    pub delegable: bool,
    pub effect: Option<String>,
}

// ---------------------------------------------------------------------------
// Profiles
// ---------------------------------------------------------------------------

/// The scope shapes the profiles use.
pub enum ScopeShape {
    /// `{}`
    Empty,
    /// `{"name": <text>}`
    Name(Seq<char>),
    /// `{"service": ["*"]}`
    AnyService,
}

pub open spec fn has_shape(v: JsonValue, shape: ScopeShape) -> bool {
    match v {
        JsonValue::Object(m) => match shape {
            ScopeShape::Empty => m@.len() == 0,
            ScopeShape::Name(t) => m@.len() == 1 && m@[0].0@ == "name"@ && (m@[0].1 matches JsonValue::Str(
                s,
            ) && s@ == t),
            ScopeShape::AnyService => m@.len() == 1 && m@[0].0@ == "service"@ && (m@[0].1 matches JsonValue::Array(
                a,
            ) && a@.len() == 1 && (a@[0] matches JsonValue::Str(s) && s@ == "*"@)),
        },
        _ => false,
    }
}

/// `c` grants `action` over a scope of `shape`, delegable as given, with no
/// effect.
pub open spec fn is_grant(c: Capability, action: Seq<char>, shape: ScopeShape, delegable: bool) -> bool {
    &&& c.action@ == action
    &&& has_shape(c.scope, shape)
    &&& c.delegable == delegable
    &&& c.effect is None
}

fn shape_value(shape: u8, name: &str) -> (r: JsonValue)
    requires
        shape < 3,
    ensures
        shape == 0 ==> has_shape(r, ScopeShape::Empty),
        shape == 1 ==> has_shape(r, ScopeShape::Name(name@)),
        shape == 2 ==> has_shape(r, ScopeShape::AnyService),
{
    let mut m: Vec<(String, JsonValue)> = Vec::new();
    if shape == 1 {
        m.push((copy_string("name"), JsonValue::Str(copy_string(name))));
    } else if shape == 2 {
        let mut a: Vec<JsonValue> = Vec::new();
        a.push(JsonValue::Str(copy_string("*")));
        m.push((copy_string("service"), JsonValue::Array(a)));
    }
    JsonValue::Object(m)
}

fn cap(action: &str, scope: JsonValue, delegable: bool) -> (r: Capability)
    ensures
        r.action@ == action@,
        r.scope == scope,
        r.delegable == delegable,
        r.effect is None,
{
    Capability { action: copy_string(action), scope, delegable, effect: None }
}

/// The grant a machine gets by default: `machine.connect` on itself.
pub fn default_machine_permissions(machine_name: &str) -> (r: Vec<Capability>)
    ensures
        r@.len() == 1,
        is_grant(r@[0], "machine.connect"@, ScopeShape::Name(machine_name@), false),
{
    let mut v: Vec<Capability> = Vec::new();
    v.push(cap("machine.connect", shape_value(1, machine_name), false));
    v
}

/// The `root_admin` profile.
pub fn root_admin_permissions() -> (r: Vec<Capability>)
    ensures
        r@.len() == 9,
        is_grant(r@[0], "admin.invite"@, ScopeShape::Empty, true),
        is_grant(r@[1], "cert.issue"@, ScopeShape::Name(""@), true),
        is_grant(r@[2], "zone.ns"@, ScopeShape::Name(""@), true),
        is_grant(r@[3], "zone.delegate"@, ScopeShape::Name(""@), true),
        is_grant(r@[4], "machine.bind"@, ScopeShape::Name(""@), true),
        is_grant(r@[5], "machine.connect"@, ScopeShape::Name(""@), true),
        is_grant(r@[6], "seat.bind"@, ScopeShape::Empty, true),
        is_grant(r@[7], "resource.access"@, ScopeShape::AnyService, true),
        is_grant(r@[8], "entity.read"@, ScopeShape::Empty, true),
{
    let mut v: Vec<Capability> = Vec::new();
    v.push(cap("admin.invite", shape_value(0, ""), true));
    v.push(cap("cert.issue", shape_value(1, ""), true));
    v.push(cap("zone.ns", shape_value(1, ""), true));
    v.push(cap("zone.delegate", shape_value(1, ""), true));
    v.push(cap("machine.bind", shape_value(1, ""), true));
    v.push(cap("machine.connect", shape_value(1, ""), true));
    v.push(cap("seat.bind", shape_value(0, ""), true));
    v.push(cap("resource.access", shape_value(2, ""), true));
    v.push(cap("entity.read", shape_value(0, ""), true));
    v
}

/// The personal entity profile.
pub fn personal_root_permissions() -> (r: Vec<Capability>)
    ensures
        r@.len() == 6,
        is_grant(r@[0], "cert.issue"@, ScopeShape::Name(""@), true),
        is_grant(r@[1], "machine.bind"@, ScopeShape::Name(""@), true),
        is_grant(r@[2], "machine.connect"@, ScopeShape::Name(""@), true),
        is_grant(r@[3], "seat.bind"@, ScopeShape::Empty, true),
        is_grant(r@[4], "resource.access"@, ScopeShape::AnyService, true),
        is_grant(r@[5], "entity.read"@, ScopeShape::Empty, true),
{
    let mut v: Vec<Capability> = Vec::new();
    v.push(cap("cert.issue", shape_value(1, ""), true));
    v.push(cap("machine.bind", shape_value(1, ""), true));
    v.push(cap("machine.connect", shape_value(1, ""), true));
    v.push(cap("seat.bind", shape_value(0, ""), true));
    v.push(cap("resource.access", shape_value(2, ""), true));
    v.push(cap("entity.read", shape_value(0, ""), true));
    v
}

/// Whether `package` names the personal package, ignoring ASCII case.
pub open spec fn is_personal(package: Seq<char>) -> bool {
    lower_seq(package) == "personal"@
}

/// The profile kickstart grants: personal for the personal package (any
/// ASCII case), `root_admin` otherwise.
pub fn kickstart_permissions(package: &str) -> (r: Vec<Capability>)
    ensures
        is_personal(package@) ==> r@.len() == 6 && is_grant(r@[0], "cert.issue"@, ScopeShape::Name(""@), true),
        !is_personal(package@) ==> r@.len() == 9 && is_grant(r@[0], "admin.invite"@, ScopeShape::Empty, true),
{
    if chars_eq(&lower_chars(&chars_of(package)), &chars_of("personal")) {
        personal_root_permissions()
    } else {
        root_admin_permissions()
    }
}

// ---------------------------------------------------------------------------
// Entity scoping
// ---------------------------------------------------------------------------

/// `out` is `scope` bound to `entity`: an object scope gets (or has replaced)
/// its `entity` member and keeps every other member; any other scope is
/// wrapped as `{"entity": …, "value": scope}`.
pub open spec fn entity_scoped(scope: JsonValue, entity: Seq<char>, out: JsonValue) -> bool {
    match scope {
        JsonValue::Object(m) => match out {
            JsonValue::Object(n) => {
                &&& member_of(n@, "entity"@) matches Some(JsonValue::Str(e)) && e@ == entity
                &&& forall|k: Seq<char>| k != "entity"@ ==> #[trigger] member_of(n@, k) == member_of(m@, k)
                &&& n@.len() == m@.len() + if member_of(m@, "entity"@) is Some { 0int } else { 1int }
            },
            _ => false,
        },
        _ => match out {
            JsonValue::Object(n) => {
                &&& n@.len() == 2
                &&& n@[0].0@ == "entity"@ && (n@[0].1 matches JsonValue::Str(e) && e@ == entity)
                &&& n@[1].0@ == "value"@ && n@[1].1 == scope
            },
            _ => false,
        },
    }
}

fn scope_with_entity(scope: JsonValue, entity_id: &str) -> (r: JsonValue)
    ensures
        entity_scoped(scope, entity_id@, r),
{
    let ghost old_scope = scope;
    match scope {
        JsonValue::Object(mut m) => {
            let ghost before = m@;
            let entry = (copy_string("entity"), JsonValue::Str(copy_string(entity_id)));
            match member_index(&m, "entity") {
                Some(i) => {
                    m.set(i, entry);
                    proof {
                        lemma_member_at(m@, "entity"@, i as int);
                        assert forall|k: Seq<char>| k != "entity"@ implies #[trigger] member_of(m@, k)
                            == member_of(before, k) by {
                            lemma_member_update_other(before, i as int, m@[i as int], k);
                        }
                    }
                },
                None => {
                    m.push(entry);
                    proof {
                        lemma_member_of_push(before, m@.last(), "entity"@);
                        assert forall|k: Seq<char>| k != "entity"@ implies #[trigger] member_of(m@, k)
                            == member_of(before, k) by {
                            lemma_member_of_push(before, m@.last(), k);
                        }
                    }
                },
            }
            JsonValue::Object(m)
        },
        other => {
            let mut n: Vec<(String, JsonValue)> = Vec::new();
            n.push((copy_string("entity"), JsonValue::Str(copy_string(entity_id))));
            n.push((copy_string("value"), other));
            JsonValue::Object(n)
        },
    }
}

/// `out` is `p` with its scope bound to `entity`.
pub open spec fn scoped_grant(p: Capability, entity: Seq<char>, out: Capability) -> bool {
    &&& out.action == p.action
    &&& out.delegable == p.delegable
    &&& out.effect == p.effect
    &&& entity_scoped(p.scope, entity, out.scope)
}

/// Binds every permission's scope to `entity_id` (see [`entity_scoped`]);
/// actions, delegation and effects are kept.
pub fn with_entity_scope(permissions: Vec<Capability>, entity_id: &str) -> (r: Vec<Capability>)
    ensures
        r@.len() == permissions@.len(),
        forall|i: int| 0 <= i < r@.len() ==> scoped_grant(permissions@[i], entity_id@, #[trigger] r@[i]),
{
    let ghost input = permissions@;
    let ghost n = input.len();
    let mut rest = permissions;
    let mut stack: Vec<Capability> = Vec::new();
    while rest.len() > 0
        invariant
            rest@ == input.subrange(0, rest@.len() as int),
            stack@.len() + rest@.len() == n,
            n == input.len(),
            forall|k: int|
                0 <= k < stack@.len() ==> scoped_grant(input[n - 1 - k], entity_id@, #[trigger] stack@[k]),
        decreases rest.len(),
    {
        let p = rest.pop().unwrap();
        let q = Capability {
            action: p.action,
            scope: scope_with_entity(p.scope, entity_id),
            delegable: p.delegable,
            effect: p.effect,
        };
        stack.push(q);
    }
    let ghost full = stack@;
    let mut out: Vec<Capability> = Vec::new();
    while stack.len() > 0
        invariant
            stack@ == full.subrange(0, stack@.len() as int),
            out@.len() + stack@.len() == n,
            full.len() == n,
            n == input.len(),
            forall|k: int| 0 <= k < n ==> scoped_grant(input[n - 1 - k], entity_id@, #[trigger] full[k]),
            forall|k: int| 0 <= k < out@.len() ==> #[trigger] out@[k] == full[n - 1 - k],
        decreases stack.len(),
    {
        let q = stack.pop().unwrap();
        out.push(q);
    }
    assert forall|i: int| 0 <= i < out@.len() implies scoped_grant(input[i], entity_id@, #[trigger] out@[i]) by {
        assert(out@[i] == full[n - 1 - i]);
        assert(scoped_grant(input[n - 1 - (n - 1 - i)], entity_id@, full[n - 1 - i]));
    }
    out
}


// ---------------------------------------------------------------------------
// Credentials
// ---------------------------------------------------------------------------

/// A capability credential: who (`ski`, `public_jwk`) may do what
/// (`permissions`) for which entity, issued by `issuer_ski`, signed.
#[derive(Debug)]
pub struct CapabilityCredential {
    pub version: u8,
    pub kind: CredentialKind,
    pub entity_id: String,
    pub ski: String,
    pub public_jwk: JsonValue,
    pub permissions: Vec<Capability>,
    pub zone: Option<String>,
    pub host: Option<String>,
    pub issuer_ski: String,
    pub not_before: String,
    pub not_after: String,
    pub package: Option<EntityPackage>,
    pub platform_cosign: Option<PlatformCosign>,
    pub signature: String,
}

pub open spec fn kind_text(k: CredentialKind) -> Seq<char> {
    match k {
        CredentialKind::EntityRoot => "entity_root"@,
        CredentialKind::RootAdmin => "root_admin"@,
        CredentialKind::InterimAdmin => "interim_admin"@,
        CredentialKind::ZoneAuthority => "zone_authority"@,
        CredentialKind::Machine => "machine"@,
    }
}

pub open spec fn package_text(p: EntityPackage) -> Seq<char> {
    match p {
        EntityPackage::Personal => "personal"@,
        EntityPackage::Enterprise => "enterprise"@,
    }
}

/// A JSON string, or `null`.
pub open spec fn opt_quote(o: Option<Seq<char>>) -> Seq<char> {
    match o {
        Some(s) => json_quote(s),
        None => "null"@,
    }
}

pub open spec fn bool_text(b: bool) -> Seq<char> {
    if b {
        "true"@
    } else {
        "false"@
    }
}

/// A capability as compact JSON: `action`, `scope`, `delegable`, then
/// `effect` when there is one.
pub open spec fn cap_text(c: Capability) -> Seq<char> {
    "{\"action\":"@ + json_quote(c.action@) + ",\"scope\":"@ + json_render(c.scope) + ",\"delegable\":"@
        + bool_text(c.delegable) + match c.effect {
        Some(e) => ",\"effect\":"@ + json_quote(e@),
        None => ""@,
    } + "}"@
}

/// Capabilities as the inside of a compact JSON array.
pub open spec fn caps_text(cs: Seq<Capability>) -> Seq<char>
    decreases cs.len(),
{
    if cs.len() == 0 {
        Seq::empty()
    } else if cs.len() == 1 {
        cap_text(cs[0])
    } else {
        caps_text(cs.drop_last()) + ","@ + cap_text(cs.last())
    }
}

/// The signed payload: the credential's members in a fixed order, `zone`,
/// `host` and `package` as `null` when absent, without the signature and
/// the co-signature.
pub open spec fn payload_text(c: CapabilityCredential) -> Seq<char> {
    "{\"version\":"@ + nat_decimal(c.version as nat) + ",\"kind\":"@ + json_quote(kind_text(c.kind))
        + ",\"entityId\":"@ + json_quote(c.entity_id@) + ",\"ski\":"@ + json_quote(c.ski@)
        + ",\"publicJwk\":"@ + json_render(c.public_jwk) + ",\"permissions\":["@ + caps_text(
        c.permissions@,
    ) + "],\"zone\":"@ + opt_quote(view_opt(c.zone)) + ",\"host\":"@ + opt_quote(view_opt(c.host))
        + ",\"issuerSki\":"@ + json_quote(c.issuer_ski@) + ",\"notBefore\":"@ + json_quote(
        c.not_before@,
    ) + ",\"notAfter\":"@ + json_quote(c.not_after@) + ",\"package\":"@ + match c.package {
        Some(p) => json_quote(package_text(p)),
        None => "null"@,
    } + "}"@
}

fn push_text(out: &mut Vec<char>, s: &str)
    ensures
        final(out)@ == old(out)@ + s@,
{
    let t = chars_of(s);
    let mut i: usize = 0;
    let ghost start = out@;
    while i < t.len()
        invariant
            i <= t@.len(),
            t@ == s@,
            out@ == start + t@.subrange(0, i as int),
        decreases t.len() - i,
    {
        out.push(t[i]);
        i += 1;
        assert(out@ =~= start + t@.subrange(0, i as int));
    }
    assert(t@.subrange(0, t@.len() as int) =~= t@);
}

fn opt_quoted(o: &Option<String>) -> (r: String)
    ensures
        r@ == opt_quote(view_opt(*o)),
{
    match o {
        Some(s) => json_string(s.as_str()),
        None => copy_string("null"),
    }
}

fn cap_json_text(c: &Capability) -> (r: String)
    ensures
        r@ == cap_text(*c),
{
    let mut out: Vec<char> = Vec::new();
    push_text(&mut out, "{\"action\":");
    push_text(&mut out, json_string(c.action.as_str()).as_str());
    push_text(&mut out, ",\"scope\":");
    push_text(&mut out, render_json(&c.scope).as_str());
    push_text(&mut out, ",\"delegable\":");
    push_text(&mut out, if c.delegable { "true" } else { "false" });
    match &c.effect {
        Some(e) => {
            push_text(&mut out, ",\"effect\":");
            push_text(&mut out, json_string(e.as_str()).as_str());
        },
        None => {
            push_text(&mut out, "");
        },
    }
    push_text(&mut out, "}");
    string_of(&out)
}

/// The bytes an issuer signs for a credential (compact JSON, see
/// [`payload_text`]).
pub fn canonical_credential_payload(credential: &CapabilityCredential) -> (r: crate::sdk_error::SdkResult<
    Vec<u8>,
>)
    ensures
        r matches Ok(b) && b@ == vstd::utf8::encode_utf8(payload_text(*credential)),
{
    let c = credential;
    let mut out: Vec<char> = Vec::new();
    push_text(&mut out, "{\"version\":");
    push_text(&mut out, string_of(&u64_decimal_chars(c.version as u64)).as_str());
    push_text(&mut out, ",\"kind\":");
    push_text(&mut out, json_string(c.kind.as_str()).as_str());
    push_text(&mut out, ",\"entityId\":");
    push_text(&mut out, json_string(c.entity_id.as_str()).as_str());
    push_text(&mut out, ",\"ski\":");
    push_text(&mut out, json_string(c.ski.as_str()).as_str());
    push_text(&mut out, ",\"publicJwk\":");
    push_text(&mut out, render_json(&c.public_jwk).as_str());
    push_text(&mut out, ",\"permissions\":[");
    let mut i: usize = 0;
    let ghost before = out@;
    while i < c.permissions.len()
        invariant
            i <= c.permissions@.len(),
            out@ == before + caps_text(c.permissions@.subrange(0, i as int)),
        decreases c.permissions.len() - i,
    {
        assert(c.permissions@.subrange(0, i + 1).drop_last() =~= c.permissions@.subrange(0, i as int));
        if i > 0 {
            push_text(&mut out, ",");
        }
        push_text(&mut out, cap_json_text(&c.permissions[i]).as_str());
        i += 1;
        assert(out@ =~= before + caps_text(c.permissions@.subrange(0, i as int)));
    }
    assert(c.permissions@.subrange(0, c.permissions@.len() as int) =~= c.permissions@);
    push_text(&mut out, "],\"zone\":");
    push_text(&mut out, opt_quoted(&c.zone).as_str());
    push_text(&mut out, ",\"host\":");
    push_text(&mut out, opt_quoted(&c.host).as_str());
    push_text(&mut out, ",\"issuerSki\":");
    push_text(&mut out, json_string(c.issuer_ski.as_str()).as_str());
    push_text(&mut out, ",\"notBefore\":");
    push_text(&mut out, json_string(c.not_before.as_str()).as_str());
    push_text(&mut out, ",\"notAfter\":");
    push_text(&mut out, json_string(c.not_after.as_str()).as_str());
    push_text(&mut out, ",\"package\":");
    match c.package {
        Some(p) => push_text(&mut out, json_string(p.as_str()).as_str()),
        None => push_text(&mut out, "null"),
    }
    push_text(&mut out, "}");
    assert(out@ =~= payload_text(*credential));
    let text = string_of(&out);
    Ok(vstd::slice::slice_to_vec(text.as_str().as_bytes()))
}

/// A credential with everything but the signature: version 1, no
/// co-signature, an empty signature.
pub fn unsigned_credential(
    kind: CredentialKind,
    entity_id: &str,
    ski: String,
    public_jwk: JsonValue,
    issuer_ski: String,
    permissions: Vec<Capability>,
    not_before: String,
    not_after: String,
    host: Option<String>,
    zone: Option<String>,
    package: Option<EntityPackage>,
) -> (r: CapabilityCredential)
    ensures
        r.version == 1,
        r.kind == kind,
        r.entity_id@ == entity_id@,
        r.ski == ski,
        r.public_jwk == public_jwk,
        r.permissions == permissions,
        r.zone == zone,
        r.host == host,
        r.issuer_ski == issuer_ski,
        r.not_before == not_before,
        r.not_after == not_after,
        r.package == package,
        r.platform_cosign is None,
        r.signature@ == ""@,
{
    CapabilityCredential {
        version: 1,
        kind,
        entity_id: copy_string(entity_id),
        ski,
        public_jwk,
        permissions,
        zone,
        host,
        issuer_ski,
        not_before,
        not_after,
        package,
        platform_cosign: None,
        signature: copy_string(""),
    }
}

/// An unsigned machine credential: kind `Machine`, no zone, no package.
pub fn unsigned_machine_credential(
    entity_id: &str,
    ski: String,
    public_jwk: JsonValue,
    host: Option<String>,
    issuer_ski: String,
    permissions: Vec<Capability>,
    not_before: String,
    not_after: String,
) -> (r: CapabilityCredential)
    ensures
        r.version == 1,
        r.kind == CredentialKind::Machine,
        r.entity_id@ == entity_id@,
        r.ski == ski,
        r.public_jwk == public_jwk,
        r.permissions == permissions,
        r.zone is None,
        r.host == host,
        r.issuer_ski == issuer_ski,
        r.not_before == not_before,
        r.not_after == not_after,
        r.package is None,
        r.platform_cosign is None,
        r.signature@ == ""@,
{
    unsigned_credential(
        CredentialKind::Machine,
        entity_id,
        ski,
        public_jwk,
        issuer_ski,
        permissions,
        not_before,
        not_after,
        host,
        None,
        None,
    )
}


/// `a` and `b` grant the same.
pub open spec fn same_capability(a: Capability, b: Capability) -> bool {
    &&& a.action@ == b.action@
    &&& json_same(a.scope, b.scope)
    &&& a.delegable == b.delegable
    &&& view_opt(a.effect) == view_opt(b.effect)
}

/// `a` and `b` are the same credential.
pub open spec fn same_credential(a: CapabilityCredential, b: CapabilityCredential) -> bool {
    &&& a.version == b.version
    &&& a.kind == b.kind
    &&& a.entity_id@ == b.entity_id@
    &&& a.ski@ == b.ski@
    &&& json_same(a.public_jwk, b.public_jwk)
    &&& a.permissions@.len() == b.permissions@.len()
    &&& forall|i: int| 0 <= i < a.permissions@.len() ==> same_capability(#[trigger] a.permissions@[i], b.permissions@[i])
    &&& view_opt(a.zone) == view_opt(b.zone)
    &&& view_opt(a.host) == view_opt(b.host)
    &&& a.issuer_ski@ == b.issuer_ski@
    &&& a.not_before@ == b.not_before@
    &&& a.not_after@ == b.not_after@
    &&& a.package == b.package
    &&& a.platform_cosign is Some == b.platform_cosign is Some
    &&& a.signature@ == b.signature@
}

fn copy_opt(o: &Option<String>) -> (r: Option<String>)
    ensures
        view_opt(r) == view_opt(*o),
{
    match o {
        Some(s) => Some(copy_string(s.as_str())),
        None => None,
    }
}

/// A copy of a capability.
pub fn copy_capability(c: &Capability) -> (r: Capability)
    ensures
        same_capability(r, *c),
{
    Capability {
        action: copy_string(c.action.as_str()),
        scope: copy_json(&c.scope),
        delegable: c.delegable,
        effect: copy_opt(&c.effect),
    }
}

/// A copy of a credential.
pub fn copy_credential(c: &CapabilityCredential) -> (r: CapabilityCredential)
    ensures
        same_credential(r, *c),
{
    let mut permissions: Vec<Capability> = Vec::new();
    let mut i: usize = 0;
    while i < c.permissions.len()
        invariant
            i <= c.permissions@.len(),
            permissions@.len() == i,
            forall|j: int| 0 <= j < i ==> same_capability(#[trigger] permissions@[j], c.permissions@[j]),
        decreases c.permissions.len() - i,
    {
        permissions.push(copy_capability(&c.permissions[i]));
        i += 1;
    }
    let platform_cosign = match &c.platform_cosign {
        Some(p) => Some(
            PlatformCosign {
                kid: copy_string(p.kid.as_str()),
                signed_at: copy_string(p.signed_at.as_str()),
                signature: copy_string(p.signature.as_str()),
            },
        ),
        None => None,
    };
    CapabilityCredential {
        version: c.version,
        kind: c.kind,
        entity_id: copy_string(c.entity_id.as_str()),
        ski: copy_string(c.ski.as_str()),
        public_jwk: copy_json(&c.public_jwk),
        permissions,
        zone: copy_opt(&c.zone),
        host: copy_opt(&c.host),
        issuer_ski: copy_string(c.issuer_ski.as_str()),
        not_before: copy_string(c.not_before.as_str()),
        not_after: copy_string(c.not_after.as_str()),
        package: c.package,
        platform_cosign,
        signature: copy_string(c.signature.as_str()),
    }
}

// ---------------------------------------------------------------------------
// Signing
// ---------------------------------------------------------------------------

/// Signs a credential with the issuer's private JWK: the signature and the
/// platform co-signature are cleared, then the signature is the compact JWS
/// of the canonical payload.
pub fn sign_credential(credential: CapabilityCredential, issuer_private_jwk: &JsonValue) -> (r: crate::sdk_error::SdkResult<
    CapabilityCredential,
>)
    ensures
        match crate::mtls::seed_spec(*issuer_private_jwk) {
            Ok(seed) => r matches Ok(c) && c == (CapabilityCredential {
                signature: c.signature,
                platform_cosign: None,
                ..credential
            }) && c.signature@ == crate::mtls::compact_jws(seed, vstd::utf8::encode_utf8(payload_text(credential))),
            Err(_) => r matches Err(crate::sdk_error::Error::Mtls(_)),
        },
{
    let mut credential = credential;
    credential.signature = copy_string("");
    credential.platform_cosign = None;
    let payload = canonical_credential_payload(&credential)?;
    let seed = match crate::mtls::signing_seed_from_jwk(issuer_private_jwk) {
        Ok(s) => s,
        Err(e) => return Err(crate::sdk_error::Error::Mtls(e)),
    };
    credential.signature = crate::mtls::compact_jws_with_seed(seed.as_slice(), payload.as_slice());
    Ok(credential)
}

/// Checks a credential's signature against the issuer's public JWK; an
/// error when the JWK holds no usable key.
pub fn verify_credential_signature(credential: &CapabilityCredential, issuer_public_jwk: &JsonValue) -> (r: crate::sdk_error::SdkResult<bool>)
    ensures
        match crate::mtls::jwk_key_spec(*issuer_public_jwk) {
            Ok(key) => r matches Ok(b) && b == crate::mtls::jws_verifies(
                key,
                credential.signature@,
                vstd::utf8::encode_utf8(payload_text(*credential)),
            ),
            Err(_) => r matches Err(crate::sdk_error::Error::Mtls(_)),
        },
{
    let payload = canonical_credential_payload(credential)?;
    match crate::mtls::compact_jws_verify(issuer_public_jwk, credential.signature.as_str(), payload.as_slice()) {
        Ok(b) => Ok(b),
        Err(e) => Err(crate::sdk_error::Error::Mtls(e)),
    }
}

} // verus!
