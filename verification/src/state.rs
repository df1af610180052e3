//! The machine's `state.json`: reading it from and writing it to JSON.
//!
//! The document is an object with camelCase member names; optional members
//! are left out when empty, and unknown members are ignored on reading.

use vstd::prelude::*;
use vstd::utf8::encode_utf8;
use crate::json::{json_parse, member, member_of, parse_json_detailed, render_json_pretty, JsonValue};
use crate::keystore::{KeyStore, KEY_STATE};
use crate::models::view_opt;
use crate::sdk_error::{Error, SdkResult};
use crate::text::{chars_eq, chars_of, concat_chars, copy_string, string_of};
use crate::types::{status_text, EnrollmentStatus, MachineKind, MachineState};

verus! {

/// The machine state with its texts as sequences.
pub struct StateV {
    pub machine_identity: Seq<char>,
    pub entity_id: Seq<char>,
    pub machine_name: Seq<char>,
    pub ski: Option<Seq<char>>,
    pub enrollment_id: Option<Seq<char>>,
    pub pull_token: Option<Seq<char>>,
    pub status: EnrollmentStatus,
    pub cert_serial: Option<Seq<char>>,
    pub cert_expires_at: Option<Seq<char>>,
    pub created_at: Seq<char>,
    pub renewed_from_ski: Option<Seq<char>>,
    pub kind: Option<MachineKind>,
}

impl View for MachineState {
    type V = StateV;

    open spec fn view(&self) -> StateV {
        StateV {
            machine_identity: self.machine_identity@,
            entity_id: self.entity_id@,
            machine_name: self.machine_name@,
            ski: view_opt(self.ski),
            enrollment_id: view_opt(self.enrollment_id),
            pull_token: view_opt(self.pull_token),
            status: self.status,
            cert_serial: view_opt(self.cert_serial),
            cert_expires_at: view_opt(self.cert_expires_at),
            created_at: self.created_at@,
            renewed_from_ski: view_opt(self.renewed_from_ski),
            kind: self.kind,
        }
    }
}

// ---------------------------------------------------------------------------
// Names
// ---------------------------------------------------------------------------

/// Every status, in declaration order.
pub open spec fn all_statuses() -> Seq<EnrollmentStatus> {
    seq![
        EnrollmentStatus::Uninitialized,
        EnrollmentStatus::KeyGenerated,
        EnrollmentStatus::CsrCreated,
        EnrollmentStatus::EnrollmentSubmitted,
        EnrollmentStatus::PendingAdmin,
        EnrollmentStatus::Rejected,
        EnrollmentStatus::Signed,
        EnrollmentStatus::CertReceived,
        EnrollmentStatus::CertVerified,
        EnrollmentStatus::Active,
        EnrollmentStatus::Renewing,
        EnrollmentStatus::Rotating,
        EnrollmentStatus::Revoked,
        EnrollmentStatus::Decommissioned,
    ]
}

/// The first status in `ss` named `t`.
pub open spec fn status_named_in(ss: Seq<EnrollmentStatus>, t: Seq<char>) -> Option<EnrollmentStatus>
    decreases ss.len(),
{
    if ss.len() == 0 {
        None
    } else if status_text(ss[0]) == t {
        Some(ss[0])
    } else {
        status_named_in(ss.drop_first(), t)
    }
}

/// The status whose snake_case name is `t`.
pub open spec fn status_named(t: Seq<char>) -> Option<EnrollmentStatus> {
    status_named_in(all_statuses(), t)
}

/// The kind whose lowercase name is `t`.
pub open spec fn kind_named(t: Seq<char>) -> Option<MachineKind> {
    if t == "target"@ {
        Some(MachineKind::Target)
    } else if t == "source"@ {
        Some(MachineKind::Source)
    } else {
        None
    }
}

fn text_is(s: &str, lit: &str) -> (r: bool)
    ensures
        r == (s@ == lit@),
{
    chars_eq(&chars_of(s), &chars_of(lit))
}

fn status_from_name(t: &str) -> (r: Option<EnrollmentStatus>)
    ensures
        r == status_named(t@),
{
    let all = vec![
        EnrollmentStatus::Uninitialized,
        EnrollmentStatus::KeyGenerated,
        EnrollmentStatus::CsrCreated,
        EnrollmentStatus::EnrollmentSubmitted,
        EnrollmentStatus::PendingAdmin,
        EnrollmentStatus::Rejected,
        EnrollmentStatus::Signed,
        EnrollmentStatus::CertReceived,
        EnrollmentStatus::CertVerified,
        EnrollmentStatus::Active,
        EnrollmentStatus::Renewing,
        EnrollmentStatus::Rotating,
        EnrollmentStatus::Revoked,
        EnrollmentStatus::Decommissioned,
    ];
    assert(all@ =~= all_statuses());
    assert(all@.subrange(0, all@.len() as int) =~= all@);
    let mut i: usize = 0;
    while i < all.len()
        invariant
            i <= all@.len(),
            all@ == all_statuses(),
            status_named(t@) == status_named_in(all@.subrange(i as int, all@.len() as int), t@),
        decreases all.len() - i,
    {
        assert(all@.subrange(i as int, all@.len() as int).drop_first() =~= all@.subrange(
            i + 1,
            all@.len() as int,
        ));
        if text_is(t, all[i].as_str()) {
            return Some(all[i]);
        }
        i += 1;
    }
    None
}

// ---------------------------------------------------------------------------
// Reading
// ---------------------------------------------------------------------------

/// An optional string member: absent or `null` is none.
pub open spec fn opt_text(m: Seq<(String, JsonValue)>, key: Seq<char>) -> Result<Option<Seq<char>>, ()> {
    match member_of(m, key) {
        None => Ok(None),
        Some(JsonValue::Null) => Ok(None),
        Some(JsonValue::Str(s)) => Ok(Some(s@)),
        _ => Err(()),
    }
}

/// A required string member.
pub open spec fn req_text(m: Seq<(String, JsonValue)>, key: Seq<char>) -> Result<Seq<char>, ()> {
    match member_of(m, key) {
        Some(JsonValue::Str(s)) => Ok(s@),
        _ => Err(()),
    }
}

/// The optional `kind` member.
pub open spec fn opt_kind(m: Seq<(String, JsonValue)>) -> Result<Option<MachineKind>, ()> {
    match member_of(m, "kind"@) {
        None => Ok(None),
        Some(JsonValue::Null) => Ok(None),
        Some(JsonValue::Str(s)) => match kind_named(s@) {
            Some(k) => Ok(Some(k)),
            None => Err(()),
        },
        _ => Err(()),
    }
}

/// The required `status` member.
pub open spec fn req_status(m: Seq<(String, JsonValue)>) -> Result<EnrollmentStatus, ()> {
    match member_of(m, "status"@) {
        Some(JsonValue::Str(s)) => match status_named(s@) {
            Some(st) => Ok(st),
            None => Err(()),
        },
        _ => Err(()),
    }
}

/// The machine state a JSON document holds.
pub open spec fn state_from_json_spec(v: JsonValue) -> Option<StateV> {
    match v {
        JsonValue::Object(mm) => {
            let m = mm@;
            match (
                req_text(m, "machineIdentity"@),
                req_text(m, "entityId"@),
                req_text(m, "machineName"@),
                opt_text(m, "ski"@),
                opt_text(m, "enrollmentId"@),
                opt_text(m, "pullToken"@),
                req_status(m),
                opt_text(m, "certSerial"@),
                opt_text(m, "certExpiresAt"@),
                req_text(m, "createdAt"@),
                opt_text(m, "renewedFromSki"@),
                opt_kind(m),
            ) {
                (
                    Ok(machine_identity),
                    Ok(entity_id),
                    Ok(machine_name),
                    Ok(ski),
                    Ok(enrollment_id),
                    Ok(pull_token),
                    Ok(status),
                    Ok(cert_serial),
                    Ok(cert_expires_at),
                    Ok(created_at),
                    Ok(renewed_from_ski),
                    Ok(kind),
                ) => Some(
                    StateV {
                        machine_identity,
                        entity_id,
                        machine_name,
                        ski,
                        enrollment_id,
                        pull_token,
                        status,
                        cert_serial,
                        cert_expires_at,
                        created_at,
                        renewed_from_ski,
                        kind,
                    },
                ),
                _ => None,
            }
        },
        _ => None,
    }
}

fn json_error(what: &str, key: &str) -> (e: Error)
    ensures
        e matches Error::Json(m) && m@ == what@ + seq!['`'] + key@ + seq!['`'],
{
    let mut m = chars_of(what);
    m.push('`');
    assert(m@ =~= what@ + seq!['`']);
    let mut m = concat_chars(&m, &chars_of(key));
    m.push('`');
    assert(m@ =~= what@ + seq!['`'] + key@ + seq!['`']);
    Error::Json(string_of(&m))
}

fn read_opt_text(m: &Vec<(String, JsonValue)>, key: &str) -> (r: SdkResult<Option<String>>)
    ensures
        match opt_text(m@, key@) {
            Ok(o) => r matches Ok(x) && view_opt(x) == o,
            Err(()) => r matches Err(e) && e is Json,
        },
{
    match member(m, key) {
        None => Ok(None),
        Some(JsonValue::Null) => Ok(None),
        Some(JsonValue::Str(s)) => Ok(Some(copy_string(s.as_str()))),
        _ => Err(json_error("invalid type: expected a string for ", key)),
    }
}

fn read_req_text(m: &Vec<(String, JsonValue)>, key: &str) -> (r: SdkResult<String>)
    ensures
        match req_text(m@, key@) {
            Ok(t) => r matches Ok(x) && x@ == t,
            Err(()) => r matches Err(e) && e is Json,
        },
{
    match member(m, key) {
        Some(JsonValue::Str(s)) => Ok(copy_string(s.as_str())),
        Some(_) => Err(json_error("invalid type: expected a string for ", key)),
        None => Err(json_error("missing field ", key)),
    }
}

/// Reads the machine state from its JSON document; `Json` when the document
/// does not have the shape.
pub fn state_from_json(v: &JsonValue) -> (r: SdkResult<MachineState>)
    ensures
        match state_from_json_spec(*v) {
            Some(s) => r matches Ok(x) && x@ == s,
            None => r matches Err(e) && e is Json,
        },
{
    let m = match v {
        JsonValue::Object(m) => m,
        _ => return Err(Error::Json(string_of(&chars_of("invalid type: expected a state object")))),
    };
    let machine_identity = read_req_text(m, "machineIdentity")?;
    let entity_id = read_req_text(m, "entityId")?;
    let machine_name = read_req_text(m, "machineName")?;
    let ski = read_opt_text(m, "ski")?;
    let enrollment_id = read_opt_text(m, "enrollmentId")?;
    let pull_token = read_opt_text(m, "pullToken")?;
    let status = match member(m, "status") {
        Some(JsonValue::Str(s)) => match status_from_name(s.as_str()) {
            Some(st) => st,
            None => return Err(json_error("unknown variant for ", "status")),
        },
        Some(_) => return Err(json_error("invalid type: expected a string for ", "status")),
        None => return Err(json_error("missing field ", "status")),
    };
    let cert_serial = read_opt_text(m, "certSerial")?;
    let cert_expires_at = read_opt_text(m, "certExpiresAt")?;
    let created_at = read_req_text(m, "createdAt")?;
    let renewed_from_ski = read_opt_text(m, "renewedFromSki")?;
    let kind = match member(m, "kind") {
        None => None,
        Some(JsonValue::Null) => None,
        Some(JsonValue::Str(s)) => {
            if text_is(s.as_str(), "target") {
                Some(MachineKind::Target)
            } else if text_is(s.as_str(), "source") {
                Some(MachineKind::Source)
            } else {
                return Err(json_error("unknown variant for ", "kind"));
            }
        },
        Some(_) => return Err(json_error("invalid type: expected a string for ", "kind")),
    };
    Ok(
        MachineState {
            machine_identity,
            entity_id,
            machine_name,
            ski,
            enrollment_id,
            pull_token,
            status,
            cert_serial,
            cert_expires_at,
            created_at,
            renewed_from_ski,
            kind,
        },
    )
}

/// `text` is a `state.json` document of state `s`.
pub open spec fn stored_state_text(text: Seq<char>, s: StateV) -> bool {
    json_parse(encode_utf8(text)) matches Some(v) && state_from_json_spec(v) == Some(s)
}

/// Parses `state.json` text.
pub fn parse_state(raw: &str) -> (r: SdkResult<MachineState>)
    ensures
        match json_parse(encode_utf8(raw@)) {
            Some(v) => match state_from_json_spec(v) {
                Some(s) => r matches Ok(x) && x@ == s,
                None => r matches Err(e) && e is Json,
            },
            None => r matches Err(e) && e is Json,
        },
{
    match parse_json_detailed(raw.as_bytes()) {
        Ok(v) => state_from_json(&v),
        Err(detail) => Err(Error::Json(detail)),
    }
}


// ---------------------------------------------------------------------------
// Writing
// ---------------------------------------------------------------------------

/// Member `key` of `m` is the string `t`.
pub open spec fn text_member_is(m: Seq<(String, JsonValue)>, key: Seq<char>, t: Seq<char>) -> bool {
    member_of(m, key) matches Some(JsonValue::Str(x)) && x@ == t
}

/// Member `key` of `m` is the string `t` when there is one, absent otherwise.
pub open spec fn opt_member_is(m: Seq<(String, JsonValue)>, key: Seq<char>, t: Option<Seq<char>>) -> bool {
    match t {
        Some(x) => text_member_is(m, key, x),
        None => member_of(m, key) is None,
    }
}

/// The lowercase name of a kind.
pub open spec fn kind_text(k: MachineKind) -> Seq<char> {
    match k {
        MachineKind::Target => "target"@,
        MachineKind::Source => "source"@,
    }
}

/// The member names that the document of `s` has, in order.
pub open spec fn state_keys(s: StateV) -> Seq<Seq<char>> {
    let opt = |present: bool, k: Seq<char>| if present { seq![k] } else { Seq::<Seq<char>>::empty() };
    seq!["machineIdentity"@, "entityId"@, "machineName"@]
        + opt(s.ski is Some, "ski"@)
        + opt(s.enrollment_id is Some, "enrollmentId"@)
        + opt(s.pull_token is Some, "pullToken"@)
        + seq!["status"@]
        + opt(s.cert_serial is Some, "certSerial"@)
        + opt(s.cert_expires_at is Some, "certExpiresAt"@)
        + seq!["createdAt"@]
        + opt(s.renewed_from_ski is Some, "renewedFromSki"@)
        + opt(s.kind is Some, "kind"@)
}

/// `v` is the JSON document that records `s`: an object whose members are
/// the names of `state_keys(s)` in that order, each holding its field's text.
pub open spec fn records_state(v: JsonValue, s: StateV) -> bool {
    match v {
        JsonValue::Object(mm) => {
            let m = mm@;
            &&& m.map_values(|p: (String, JsonValue)| p.0@) == state_keys(s)
            &&& text_member_is(m, "machineIdentity"@, s.machine_identity)
            &&& text_member_is(m, "entityId"@, s.entity_id)
            &&& text_member_is(m, "machineName"@, s.machine_name)
            &&& opt_member_is(m, "ski"@, s.ski)
            &&& opt_member_is(m, "enrollmentId"@, s.enrollment_id)
            &&& opt_member_is(m, "pullToken"@, s.pull_token)
            &&& text_member_is(m, "status"@, status_text(s.status))
            &&& opt_member_is(m, "certSerial"@, s.cert_serial)
            &&& opt_member_is(m, "certExpiresAt"@, s.cert_expires_at)
            &&& text_member_is(m, "createdAt"@, s.created_at)
            &&& opt_member_is(m, "renewedFromSki"@, s.renewed_from_ski)
            &&& match s.kind {
                Some(k) => text_member_is(m, "kind"@, kind_text(k)),
                None => member_of(m, "kind"@) is None,
            }
        },
        _ => false,
    }
}

fn push_text_member(m: &mut Vec<(String, JsonValue)>, key: &str, value: &str)
    requires
        member_of(old(m)@, key@) is None,
    ensures
        final(m)@.map_values(|p: (String, JsonValue)| p.0@) == old(m)@.map_values(
            |p: (String, JsonValue)| p.0@,
        ).push(key@),
        text_member_is(final(m)@, key@, value@),
        forall|k: Seq<char>| k != key@ ==> #[trigger] member_of(final(m)@, k) == member_of(old(m)@, k),
{
    let ghost before = m@;
    m.push((copy_string(key), JsonValue::Str(copy_string(value))));
    proof {
        let p = m@.last();
        assert(m@ == before.push(p));
        assert(m@.map_values(|p: (String, JsonValue)| p.0@) =~= before.map_values(
            |p: (String, JsonValue)| p.0@,
        ).push(key@));
        crate::json::lemma_member_of_push(before, p, key@);
        assert forall|k: Seq<char>| k != key@ implies #[trigger] member_of(m@, k) == member_of(before, k) by {
            crate::json::lemma_member_of_push(before, p, k);
        }
    }
}

fn push_opt_member(m: &mut Vec<(String, JsonValue)>, key: &str, value: &Option<String>)
    requires
        member_of(old(m)@, key@) is None,
    ensures
        final(m)@.map_values(|p: (String, JsonValue)| p.0@) == old(m)@.map_values(
            |p: (String, JsonValue)| p.0@,
        ) + if value is Some { seq![key@] } else { Seq::<Seq<char>>::empty() },
        opt_member_is(final(m)@, key@, view_opt(*value)),
        forall|k: Seq<char>| k != key@ ==> #[trigger] member_of(final(m)@, k) == member_of(old(m)@, k),
{
    match value {
        Some(v) => {
            push_text_member(m, key, v.as_str());
            assert(seq![key@] =~= Seq::<Seq<char>>::empty().push(key@));
        },
        None => {
            assert(m@.map_values(|p: (String, JsonValue)| p.0@) =~= m@.map_values(
                |p: (String, JsonValue)| p.0@,
            ) + Seq::<Seq<char>>::empty());
        },
    }
}

/// The state's JSON document: camelCase members in field order, the empty
/// optional ones left out.
#[verifier::spinoff_prover]
#[verifier::rlimit(100)]
pub fn state_to_json_value(s: &MachineState) -> (r: JsonValue)
    ensures
        records_state(r, s@),
{
    proof {
        reveal_strlit("machineIdentity");
        assert("machineIdentity"@.len() == 15);
        assert("machineIdentity"@[0] == 'm');
        reveal_strlit("entityId");
        assert("entityId"@.len() == 8);
        assert("entityId"@[0] == 'e');
        reveal_strlit("machineName");
        assert("machineName"@.len() == 11);
        assert("machineName"@[0] == 'm');
        reveal_strlit("ski");
        assert("ski"@.len() == 3);
        assert("ski"@[0] == 's');
        reveal_strlit("enrollmentId");
        assert("enrollmentId"@.len() == 12);
        assert("enrollmentId"@[0] == 'e');
        reveal_strlit("pullToken");
        assert("pullToken"@.len() == 9);
        assert("pullToken"@[0] == 'p');
        reveal_strlit("status");
        assert("status"@.len() == 6);
        assert("status"@[0] == 's');
        reveal_strlit("certSerial");
        assert("certSerial"@.len() == 10);
        assert("certSerial"@[0] == 'c');
        reveal_strlit("certExpiresAt");
        assert("certExpiresAt"@.len() == 13);
        assert("certExpiresAt"@[0] == 'c');
        reveal_strlit("createdAt");
        assert("createdAt"@.len() == 9);
        assert("createdAt"@[0] == 'c');
        reveal_strlit("renewedFromSki");
        assert("renewedFromSki"@.len() == 14);
        assert("renewedFromSki"@[0] == 'r');
        reveal_strlit("kind");
        assert("kind"@.len() == 4);
        assert("kind"@[0] == 'k');
    }
    let mut m: Vec<(String, JsonValue)> = Vec::new();
    assert(m@.map_values(|p: (String, JsonValue)| p.0@) =~= Seq::<Seq<char>>::empty());
    push_text_member(&mut m, "machineIdentity", s.machine_identity.as_str());
    push_text_member(&mut m, "entityId", s.entity_id.as_str());
    push_text_member(&mut m, "machineName", s.machine_name.as_str());
    push_opt_member(&mut m, "ski", &s.ski);
    push_opt_member(&mut m, "enrollmentId", &s.enrollment_id);
    push_opt_member(&mut m, "pullToken", &s.pull_token);
    push_text_member(&mut m, "status", s.status.as_str());
    push_opt_member(&mut m, "certSerial", &s.cert_serial);
    push_opt_member(&mut m, "certExpiresAt", &s.cert_expires_at);
    push_text_member(&mut m, "createdAt", s.created_at.as_str());
    push_opt_member(&mut m, "renewedFromSki", &s.renewed_from_ski);
    match s.kind {
        Some(k) => push_text_member(&mut m, "kind", k.as_str()),
        None => {},
    }
    assert(m@.map_values(|p: (String, JsonValue)| p.0@) =~= state_keys(s@));
    JsonValue::Object(m)
}

/// Reading back the document written for a state gives that state.
pub proof fn lemma_state_document_reads_back(v: JsonValue, s: StateV)
    requires
        records_state(v, s),
    ensures
        state_from_json_spec(v) == Some(s),
{
    lemma_status_named_text(s.status);
    reveal_strlit("target");
    reveal_strlit("source");
    assert("target"@.len() == 6);
    assert("source"@.len() == 6);
    assert("target"@[0] == 't');
    assert("source"@[0] == 's');
}

/// No two statuses share a name.
pub proof fn lemma_status_texts_distinct(a: EnrollmentStatus, b: EnrollmentStatus)
    ensures
        status_text(a) == status_text(b) ==> a == b,
{
    reveal_strlit("uninitialized");
    assert("uninitialized"@.len() == 13);
    assert("uninitialized"@[0] == 'u');
    assert("uninitialized"@[1] == 'n');
    assert("uninitialized"@[2] == 'i');
    assert("uninitialized"@[5] == 't');
    reveal_strlit("key_generated");
    assert("key_generated"@.len() == 13);
    assert("key_generated"@[0] == 'k');
    assert("key_generated"@[1] == 'e');
    assert("key_generated"@[2] == 'y');
    assert("key_generated"@[5] == 'e');
    reveal_strlit("csr_created");
    assert("csr_created"@.len() == 11);
    assert("csr_created"@[0] == 'c');
    assert("csr_created"@[1] == 's');
    assert("csr_created"@[2] == 'r');
    assert("csr_created"@[5] == 'r');
    reveal_strlit("enrollment_submitted");
    assert("enrollment_submitted"@.len() == 20);
    assert("enrollment_submitted"@[0] == 'e');
    assert("enrollment_submitted"@[1] == 'n');
    assert("enrollment_submitted"@[2] == 'r');
    assert("enrollment_submitted"@[5] == 'l');
    reveal_strlit("pending_admin");
    assert("pending_admin"@.len() == 13);
    assert("pending_admin"@[0] == 'p');
    assert("pending_admin"@[1] == 'e');
    assert("pending_admin"@[2] == 'n');
    assert("pending_admin"@[5] == 'n');
    reveal_strlit("rejected");
    assert("rejected"@.len() == 8);
    assert("rejected"@[0] == 'r');
    assert("rejected"@[1] == 'e');
    assert("rejected"@[2] == 'j');
    assert("rejected"@[5] == 't');
    reveal_strlit("signed");
    assert("signed"@.len() == 6);
    assert("signed"@[0] == 's');
    assert("signed"@[1] == 'i');
    assert("signed"@[2] == 'g');
    assert("signed"@[5] == 'd');
    reveal_strlit("cert_received");
    assert("cert_received"@.len() == 13);
    assert("cert_received"@[0] == 'c');
    assert("cert_received"@[1] == 'e');
    assert("cert_received"@[2] == 'r');
    assert("cert_received"@[5] == 'r');
    reveal_strlit("cert_verified");
    assert("cert_verified"@.len() == 13);
    assert("cert_verified"@[0] == 'c');
    assert("cert_verified"@[1] == 'e');
    assert("cert_verified"@[2] == 'r');
    assert("cert_verified"@[5] == 'v');
    reveal_strlit("active");
    assert("active"@.len() == 6);
    assert("active"@[0] == 'a');
    assert("active"@[1] == 'c');
    assert("active"@[2] == 't');
    assert("active"@[5] == 'e');
    reveal_strlit("renewing");
    assert("renewing"@.len() == 8);
    assert("renewing"@[0] == 'r');
    assert("renewing"@[1] == 'e');
    assert("renewing"@[2] == 'n');
    assert("renewing"@[5] == 'i');
    reveal_strlit("rotating");
    assert("rotating"@.len() == 8);
    assert("rotating"@[0] == 'r');
    assert("rotating"@[1] == 'o');
    assert("rotating"@[2] == 't');
    assert("rotating"@[5] == 'i');
    reveal_strlit("revoked");
    assert("revoked"@.len() == 7);
    assert("revoked"@[0] == 'r');
    assert("revoked"@[1] == 'e');
    assert("revoked"@[2] == 'v');
    assert("revoked"@[5] == 'e');
    reveal_strlit("decommissioned");
    assert("decommissioned"@.len() == 14);
    assert("decommissioned"@[0] == 'd');
    assert("decommissioned"@[1] == 'e');
    assert("decommissioned"@[2] == 'c');
    assert("decommissioned"@[5] == 'm');
}

/// Looking a name up in a list that holds its status finds that status.
proof fn lemma_status_named_in(ss: Seq<EnrollmentStatus>, st: EnrollmentStatus)
    requires
        ss.contains(st),
    ensures
        status_named_in(ss, status_text(st)) == Some(st),
    decreases ss.len(),
{
    lemma_status_texts_distinct(ss[0], st);
    if ss[0] != st {
        let i = choose|i: int| 0 <= i < ss.len() && ss[i] == st;
        assert(ss.drop_first()[i - 1] == st);
        lemma_status_named_in(ss.drop_first(), st);
    }
}

/// Every status is found again by its name.
pub proof fn lemma_status_named_text(st: EnrollmentStatus)
    ensures
        status_named(status_text(st)) == Some(st),
{
    let all = all_statuses();
    match st {
        EnrollmentStatus::Uninitialized => assert(all[0] == st),
        EnrollmentStatus::KeyGenerated => assert(all[1] == st),
        EnrollmentStatus::CsrCreated => assert(all[2] == st),
        EnrollmentStatus::EnrollmentSubmitted => assert(all[3] == st),
        EnrollmentStatus::PendingAdmin => assert(all[4] == st),
        EnrollmentStatus::Rejected => assert(all[5] == st),
        EnrollmentStatus::Signed => assert(all[6] == st),
        EnrollmentStatus::CertReceived => assert(all[7] == st),
        EnrollmentStatus::CertVerified => assert(all[8] == st),
        EnrollmentStatus::Active => assert(all[9] == st),
        EnrollmentStatus::Renewing => assert(all[10] == st),
        EnrollmentStatus::Rotating => assert(all[11] == st),
        EnrollmentStatus::Revoked => assert(all[12] == st),
        EnrollmentStatus::Decommissioned => assert(all[13] == st),
    }
    lemma_status_named_in(all, st);
}

/// `state.json` from the store, if there is one.
pub fn load_state<S: KeyStore>(store: &S) -> (r: SdkResult<Option<MachineState>>)
    ensures
        r matches Ok(Some(s)) ==> exists|bytes: Seq<u8>|
            #[trigger] stored_state_text(crate::keystore::utf8_lossy(bytes), s@),
{
    match store.load_string(KEY_STATE)? {
        None => Ok(None),
        Some(raw) => {
            let s = parse_state(raw.as_str())?;
            proof {
                let b = choose|bytes: Seq<u8>| raw@ == #[trigger] crate::keystore::utf8_lossy(bytes);
                assert(stored_state_text(crate::keystore::utf8_lossy(b), s@));
            }
            Ok(Some(s))
        },
    }
}

/// Writes `state.json` (indented JSON).
pub fn save_state<S: KeyStore>(store: &S, state: &MachineState) -> SdkResult<()> {
    let doc = state_to_json_value(state);
    store.save_string(KEY_STATE, render_json_pretty(&doc).as_str())
}

} // verus!
