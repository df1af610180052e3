//! Machine lifecycle types: kinds, key algorithms, the enrollment status
//! machine and the persisted machine state.

use vstd::prelude::*;
use crate::sdk_error::{Error, SdkResult};
use crate::text::{
    chars_of, concat_chars, contains_chars, contains_seq, string_of, trim_chars, trim_seq,
};

verus! {

/// Machine kind sent on enroll requests.
#[derive(Clone, Copy, Debug, PartialEq, Eq, Structural)]
pub enum MachineKind {
    Target,
    Source,
}

impl MachineKind {
    pub fn as_str(self) -> (r: &'static str)
        ensures
            r@ == (match self {
                MachineKind::Target => "target"@,
                MachineKind::Source => "source"@,
            }),
    {
        match self {
            MachineKind::Target => "target",
            MachineKind::Source => "source",
        }
    }

    /// The default kind, `Target`.
    pub fn default_kind() -> (r: MachineKind)
        ensures
            r == MachineKind::Target,
    {
        MachineKind::Target
    }
}

/// Key algorithm for machine keys.
#[derive(Clone, Copy, Debug, PartialEq, Eq, Structural)]
pub enum KeyAlgo {
    Ed25519,
    P256,
}

impl KeyAlgo {
    pub fn as_str(self) -> (r: &'static str)
        ensures
            r@ == (match self {
                KeyAlgo::Ed25519 => "ed25519"@,
                KeyAlgo::P256 => "p256"@,
            }),
    {
        match self {
            KeyAlgo::Ed25519 => "ed25519",
            KeyAlgo::P256 => "p256",
        }
    }

    /// The default algorithm, Ed25519.
    pub fn default_algo() -> (r: KeyAlgo)
        ensures
            r == KeyAlgo::Ed25519,
    {
        KeyAlgo::Ed25519
    }
}

/// Persisted enrollment / lifecycle status.
#[derive(Clone, Copy, Debug, PartialEq, Eq, Structural)]
pub enum EnrollmentStatus {
    Uninitialized,
    KeyGenerated,
    CsrCreated,
    EnrollmentSubmitted,
    PendingAdmin,
    Rejected,
    Signed,
    CertReceived,
    CertVerified,
    Active,
    Renewing,
    Rotating,
    Revoked,
    Decommissioned,
}

/// Snake-case name of each status.
pub open spec fn status_text(s: EnrollmentStatus) -> Seq<char> {
    match s {
        EnrollmentStatus::Uninitialized => "uninitialized"@,
        EnrollmentStatus::KeyGenerated => "key_generated"@,
        EnrollmentStatus::CsrCreated => "csr_created"@,
        EnrollmentStatus::EnrollmentSubmitted => "enrollment_submitted"@,
        EnrollmentStatus::PendingAdmin => "pending_admin"@,
        EnrollmentStatus::Rejected => "rejected"@,
        EnrollmentStatus::Signed => "signed"@,
        EnrollmentStatus::CertReceived => "cert_received"@,
        EnrollmentStatus::CertVerified => "cert_verified"@,
        EnrollmentStatus::Active => "active"@,
        EnrollmentStatus::Renewing => "renewing"@,
        EnrollmentStatus::Rotating => "rotating"@,
        EnrollmentStatus::Revoked => "revoked"@,
        EnrollmentStatus::Decommissioned => "decommissioned"@,
    }
}

/// The legal lifecycle steps.
pub open spec fn transition_allowed(from: EnrollmentStatus, to: EnrollmentStatus) -> bool {
            match (from, to) {
        (EnrollmentStatus::Uninitialized, EnrollmentStatus::KeyGenerated) => true,
        (EnrollmentStatus::KeyGenerated, EnrollmentStatus::CsrCreated) => true,
        (EnrollmentStatus::CsrCreated, EnrollmentStatus::EnrollmentSubmitted) => true,
        (EnrollmentStatus::EnrollmentSubmitted, EnrollmentStatus::PendingAdmin) => true,
        (EnrollmentStatus::PendingAdmin, EnrollmentStatus::Rejected) => true,
        (EnrollmentStatus::PendingAdmin, EnrollmentStatus::Signed) => true,
        (EnrollmentStatus::Signed, EnrollmentStatus::CertReceived) => true,
        (EnrollmentStatus::CertReceived, EnrollmentStatus::CertVerified) => true,
        (EnrollmentStatus::CertVerified, EnrollmentStatus::Active) => true,
        (EnrollmentStatus::Active, EnrollmentStatus::Renewing) => true,
        (EnrollmentStatus::Active, EnrollmentStatus::Rotating) => true,
        (EnrollmentStatus::Active, EnrollmentStatus::Revoked) => true,
        (EnrollmentStatus::Active, EnrollmentStatus::Decommissioned) => true,
        (EnrollmentStatus::Renewing, EnrollmentStatus::Active) => true,
        (EnrollmentStatus::Rotating, EnrollmentStatus::Active) => true,
        (EnrollmentStatus::Renewing, EnrollmentStatus::Decommissioned) => true,
        (EnrollmentStatus::Rotating, EnrollmentStatus::Decommissioned) => true,
        (EnrollmentStatus::Renewing, EnrollmentStatus::Revoked) => true,
        (EnrollmentStatus::Rotating, EnrollmentStatus::Revoked) => true,
        (EnrollmentStatus::Renewing, EnrollmentStatus::Rejected) => true,
        (EnrollmentStatus::Rotating, EnrollmentStatus::Rejected) => true,
        _ => false,
    }
}

/// A fresh enroll may start from these states.
pub open spec fn enroll_allowed(s: EnrollmentStatus) -> bool {
    s == EnrollmentStatus::Uninitialized || s == EnrollmentStatus::Rejected || s
        == EnrollmentStatus::Decommissioned || s == EnrollmentStatus::Revoked
}

impl EnrollmentStatus {
    pub fn as_str(self) -> (r: &'static str)
        ensures
            r@ == status_text(self),
    {
        match self {
            EnrollmentStatus::Uninitialized => "uninitialized",
            EnrollmentStatus::KeyGenerated => "key_generated",
            EnrollmentStatus::CsrCreated => "csr_created",
            EnrollmentStatus::EnrollmentSubmitted => "enrollment_submitted",
            EnrollmentStatus::PendingAdmin => "pending_admin",
            EnrollmentStatus::Rejected => "rejected",
            EnrollmentStatus::Signed => "signed",
            EnrollmentStatus::CertReceived => "cert_received",
            EnrollmentStatus::CertVerified => "cert_verified",
            EnrollmentStatus::Active => "active",
            EnrollmentStatus::Renewing => "renewing",
            EnrollmentStatus::Rotating => "rotating",
            EnrollmentStatus::Revoked => "revoked",
            EnrollmentStatus::Decommissioned => "decommissioned",
        }
    }

    /// Whether this status may start a fresh `machine enroll`.
    pub fn allows_enroll(self) -> (r: bool)
        ensures
            r == enroll_allowed(self),
    {
        match self {
            EnrollmentStatus::Uninitialized | EnrollmentStatus::Rejected
            | EnrollmentStatus::Decommissioned | EnrollmentStatus::Revoked => true,
            _ => false,
        }
    }

    /// Whether the machine has a usable certificate.
    pub fn is_active(self) -> (r: bool)
        ensures
            r == (self == EnrollmentStatus::Active),
    {
        match self {
            EnrollmentStatus::Active => true,
            _ => false,
        }
    }

    /// Whether `next` is a legal next state.
    pub fn can_transition_to(self, next: EnrollmentStatus) -> (r: bool)
        ensures
            r == transition_allowed(self, next),
    {
                    match (self, next) {
            (EnrollmentStatus::Uninitialized, EnrollmentStatus::KeyGenerated)
            | (EnrollmentStatus::KeyGenerated, EnrollmentStatus::CsrCreated)
            | (EnrollmentStatus::CsrCreated, EnrollmentStatus::EnrollmentSubmitted)
            | (EnrollmentStatus::EnrollmentSubmitted, EnrollmentStatus::PendingAdmin)
            | (EnrollmentStatus::PendingAdmin, EnrollmentStatus::Rejected)
            | (EnrollmentStatus::PendingAdmin, EnrollmentStatus::Signed)
            | (EnrollmentStatus::Signed, EnrollmentStatus::CertReceived)
            | (EnrollmentStatus::CertReceived, EnrollmentStatus::CertVerified)
            | (EnrollmentStatus::CertVerified, EnrollmentStatus::Active)
            | (EnrollmentStatus::Active, EnrollmentStatus::Renewing)
            | (EnrollmentStatus::Active, EnrollmentStatus::Rotating)
            | (EnrollmentStatus::Active, EnrollmentStatus::Revoked)
            | (EnrollmentStatus::Active, EnrollmentStatus::Decommissioned)
            | (EnrollmentStatus::Renewing, EnrollmentStatus::Active)
            | (EnrollmentStatus::Rotating, EnrollmentStatus::Active)
            | (EnrollmentStatus::Renewing, EnrollmentStatus::Decommissioned)
            | (EnrollmentStatus::Rotating, EnrollmentStatus::Decommissioned)
            | (EnrollmentStatus::Renewing, EnrollmentStatus::Revoked)
            | (EnrollmentStatus::Rotating, EnrollmentStatus::Revoked)
            | (EnrollmentStatus::Renewing, EnrollmentStatus::Rejected)
            | (EnrollmentStatus::Rotating, EnrollmentStatus::Rejected) => true,
            _ => false,
        }
    }

    /// The status as `Display` prints it.
    pub fn to_string(self) -> (r: String)
        ensures
            r@ == status_text(self),
    {
        string_of(&chars_of(self.as_str()))
    }
}

/// Persisted machine metadata (no private keys).
#[derive(Clone, Debug, PartialEq)]
pub struct MachineState {
    pub machine_identity: String,
    pub entity_id: String,
    pub machine_name: String,
    pub ski: Option<String>,
    pub enrollment_id: Option<String>,
    pub pull_token: Option<String>,
    pub status: EnrollmentStatus,
    pub cert_serial: Option<String>,
    pub cert_expires_at: Option<String>,
    pub created_at: String,
    pub renewed_from_ski: Option<String>,
    pub kind: Option<MachineKind>,
}

/// The message of a refused step.
pub open spec fn illegal_transition_text(from: EnrollmentStatus, to: EnrollmentStatus) -> Seq<
    char,
> {
    "illegal transition "@ + status_text(from) + " → "@ + status_text(to)
}

/// `r` reports the refused step from `from` to `to`.
pub open spec fn transition_refused(r: SdkResult<()>, from: EnrollmentStatus, to: EnrollmentStatus) -> bool {
    match r {
        Err(Error::Enrollment(m)) => m@ == illegal_transition_text(from, to),
        _ => false,
    }
}

impl MachineState {
    /// Moves to `next` when that is a legal step; otherwise leaves the state
    /// as it is and reports the illegal step.
    pub fn transition(&mut self, next: EnrollmentStatus) -> (r: SdkResult<()>)
        ensures
            transition_allowed(old(self).status, next) ==> (r is Ok && *final(self) == (MachineState {
                status: next,
                ..*old(self)
            })),
            !transition_allowed(old(self).status, next) ==> (*final(self) == *old(self)
                && transition_refused(r, old(self).status, next)),
    {
        if !self.status.can_transition_to(next) {
            let v = concat_chars(&chars_of("illegal transition "), &chars_of(self.status.as_str()));
            let v = concat_chars(&v, &chars_of(" → "));
            let v = concat_chars(&v, &chars_of(next.as_str()));
            return Err(Error::Enrollment(string_of(&v)));
        }
        self.status = next;
        Ok(())
    }
}

/// Invite request for enrolling machines.
#[derive(Clone, Debug)]
pub struct EnrollInviteRequest {
    pub entity_id: String,
    pub kind: Option<MachineKind>,
    pub expires_in: Option<u64>,
    pub max_uses: Option<u64>,
}

/// Invite the server created.
#[derive(Clone, Debug)]
pub struct EnrollInviteResponse {
    pub invite_id: Option<String>,
    pub invite_token: Option<String>,
    pub host: Option<String>,
    pub entity_id: Option<String>,
    pub kind: Option<String>,
    pub expires_at: Option<String>,
    pub max_uses: Option<u64>,
}

/// A CA PEM for HAProxy `ca-file`: trimmed, with one trailing newline; `None`
/// when it holds no certificate.
pub fn normalize_ca_file_pem(pem: &str) -> (r: Option<String>)
    ensures
        match r {
            Some(s) => contains_seq(pem@, "BEGIN CERTIFICATE"@) && s@ == trim_seq(pem@).push('\n'),
            None => !contains_seq(pem@, "BEGIN CERTIFICATE"@),
        },
{
    let p = chars_of(pem);
    if !contains_chars(&p, &chars_of("BEGIN CERTIFICATE")) {
        return None;
    }
    let mut out = trim_chars(&p);
    out.push('\n');
    Some(string_of(&out))
}

// ---------------------------------------------------------------------------
// Laws
// ---------------------------------------------------------------------------

/// No status steps to itself.
pub proof fn law_no_self_transition(s: EnrollmentStatus)
    ensures
        !transition_allowed(s, s),
{
}

/// Rejected, revoked and decommissioned machines have no further step.
pub proof fn law_terminal_states(s: EnrollmentStatus, next: EnrollmentStatus)
    requires
        s == EnrollmentStatus::Rejected || s == EnrollmentStatus::Revoked || s
            == EnrollmentStatus::Decommissioned,
    ensures
        !transition_allowed(s, next),
{
}

/// A fresh enroll starts only from the initial state or a terminal one.
pub proof fn law_enroll_only_from_rest(s: EnrollmentStatus, next: EnrollmentStatus)
    requires
        enroll_allowed(s),
        s != EnrollmentStatus::Uninitialized,
    ensures
        !transition_allowed(s, next),
{
}

/// Only a certified machine becomes active, and only an active machine is
/// renewed, rotated, revoked or decommissioned directly.
pub proof fn law_activation_path(s: EnrollmentStatus)
    ensures
        transition_allowed(s, EnrollmentStatus::Active) ==> (s == EnrollmentStatus::CertVerified
            || s == EnrollmentStatus::Renewing || s == EnrollmentStatus::Rotating),
        transition_allowed(s, EnrollmentStatus::Renewing) ==> s == EnrollmentStatus::Active,
        transition_allowed(s, EnrollmentStatus::Rotating) ==> s == EnrollmentStatus::Active,
{
}

/// A machine may be decommissioned exactly from the active state or while
/// its key is being renewed or rotated.
pub proof fn law_decommission_sources(s: EnrollmentStatus)
    ensures
        transition_allowed(s, EnrollmentStatus::Decommissioned) <==> (s == EnrollmentStatus::Active || s
            == EnrollmentStatus::Renewing || s == EnrollmentStatus::Rotating),
{
}

/// An active machine steps only to renewing, rotating, revoked or
/// decommissioned, and to each of them.
pub proof fn law_active_successors(next: EnrollmentStatus)
    ensures
        transition_allowed(EnrollmentStatus::Active, next) <==> (next == EnrollmentStatus::Renewing
            || next == EnrollmentStatus::Rotating || next == EnrollmentStatus::Revoked || next
            == EnrollmentStatus::Decommissioned),
{
}

/// A renewing or rotating machine steps back to active, or ends: revoked,
/// rejected or decommissioned; nothing else.
pub proof fn law_key_change_successors(s: EnrollmentStatus, next: EnrollmentStatus)
    requires
        s == EnrollmentStatus::Renewing || s == EnrollmentStatus::Rotating,
    ensures
        transition_allowed(s, next) <==> (next == EnrollmentStatus::Active || next
            == EnrollmentStatus::Revoked || next == EnrollmentStatus::Rejected || next
            == EnrollmentStatus::Decommissioned),
{
}

/// Enrollment runs one way: uninitialized, key generated, CSR created,
/// submitted, pending admin, signed, certificate received, verified, active;
/// each of these steps only to the next, except that a pending enrollment
/// may also be rejected.
pub proof fn law_enrollment_path(s: EnrollmentStatus, next: EnrollmentStatus)
    ensures
        s == EnrollmentStatus::Uninitialized ==> (transition_allowed(s, next) <==> next
            == EnrollmentStatus::KeyGenerated),
        s == EnrollmentStatus::KeyGenerated ==> (transition_allowed(s, next) <==> next
            == EnrollmentStatus::CsrCreated),
        s == EnrollmentStatus::CsrCreated ==> (transition_allowed(s, next) <==> next
            == EnrollmentStatus::EnrollmentSubmitted),
        s == EnrollmentStatus::EnrollmentSubmitted ==> (transition_allowed(s, next) <==> next
            == EnrollmentStatus::PendingAdmin),
        s == EnrollmentStatus::PendingAdmin ==> (transition_allowed(s, next) <==> (next
            == EnrollmentStatus::Signed || next == EnrollmentStatus::Rejected)),
        s == EnrollmentStatus::Signed ==> (transition_allowed(s, next) <==> next
            == EnrollmentStatus::CertReceived),
        s == EnrollmentStatus::CertReceived ==> (transition_allowed(s, next) <==> next
            == EnrollmentStatus::CertVerified),
        s == EnrollmentStatus::CertVerified ==> (transition_allowed(s, next) <==> next
            == EnrollmentStatus::Active),
{
}

} // verus!
