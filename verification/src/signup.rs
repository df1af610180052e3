//! Product sign-up: which organization a session creates.

use vstd::prelude::*;
use crate::sdk_config::ResolvedConfig;
use crate::sdk_error::{Error, SdkResult};
use crate::text::{
    chars_of, concat_chars, contains_char, contains_chars, contains_seq, debug_quoted, debug_str,
    is_ascii_chars, is_ascii_seq, lower_chars, lower_seq, string_of, trim_chars, trim_seq,
};

verus! {

/// The organization a sign-up creates.
pub struct SignupTarget {
    pub entity_id: String,
    pub package: &'static str,
    pub kind: &'static str,
}

/// How the organization is named.
pub enum SignupKind {
    Personal { email: String },
    Domain { domain: String },
    Brand { brand: String },
}

/// Why `raw` (labelled `label`) is not an entity id, or the entity id.
pub open spec fn normalize_entity_spec(raw: Seq<char>, label: Seq<char>) -> Result<Seq<char>, Seq<char>> {
    let id = lower_seq(trim_seq(raw));
    if id.len() == 0 {
        Err(label + " must not be empty"@)
    } else if contains_seq(id, "--"@) {
        Err(label + " "@ + debug_quoted(id) + " must not contain `--` (plugin host separator)"@)
    } else if !is_ascii_seq(id) {
        Err(label + " "@ + debug_quoted(id) + " must be ASCII"@)
    } else {
        Ok(id)
    }
}

/// An auth error with message `m`.
pub open spec fn auth_error(e: Error, m: Seq<char>) -> bool {
    match e {
        Error::Auth(s) => s@ == m,
        _ => false,
    }
}

fn quoted_message(label: &str, id: &Vec<char>, tail: &str) -> (r: String)
    ensures
        r@ == label@ + " "@ + debug_quoted(id@) + tail@,
{
    let ids = string_of(id);
    let q = debug_str(ids.as_str());
    let v = concat_chars(&chars_of(label), &chars_of(" "));
    let v = concat_chars(&v, &chars_of(q.as_str()));
    string_of(&concat_chars(&v, &chars_of(tail)))
}

/// Lower-cases and trims `raw` into an entity id, refusing empty ids, the
/// host separator `--` and non-ASCII text.
pub fn normalize_entity_id(raw: &str, label: &str) -> (r: SdkResult<String>)
    ensures
        match r {
            Ok(id) => normalize_entity_spec(raw@, label@) == Ok::<Seq<char>, Seq<char>>(id@),
            Err(e) => normalize_entity_spec(raw@, label@) matches Err(m) && auth_error(e, m),
        },
{
    let id = lower_chars(&trim_chars(&chars_of(raw)));
    if id.len() == 0 {
        return Err(Error::Auth(string_of(&concat_chars(&chars_of(label), &chars_of(" must not be empty")))));
    }
    if contains_chars(&id, &chars_of("--")) {
        return Err(Error::Auth(quoted_message(label, &id, " must not contain `--` (plugin host separator)")));
    }
    if !is_ascii_chars(&id) {
        return Err(Error::Auth(quoted_message(label, &id, " must be ASCII")));
    }
    Ok(string_of(&id))
}

/// The target of a sign-up: its entity id, package and kind, or the message.
pub open spec fn signup_spec(kind: SignupKind) -> Result<(Seq<char>, Seq<char>, Seq<char>), Seq<char>> {
    match kind {
        SignupKind::Personal { email } => match normalize_entity_spec(email@, "email"@) {
            Err(m) => Err(m),
            Ok(id) => if !id.contains('@') {
                Err(
                    "session email "@ + debug_quoted(id)
                        + " does not look like an email — use --domain or --brand"@,
                )
            } else {
                Ok((id, "personal"@, "personal"@))
            },
        },
        SignupKind::Domain { domain } => match normalize_entity_spec(domain@, "domain"@) {
            Err(m) => Err(m),
            Ok(id) => Ok((id, "enterprise"@, "domain"@)),
        },
        SignupKind::Brand { brand } => match normalize_entity_spec(brand@, "brand"@) {
            Err(m) => Err(m),
            Ok(id) => Ok((id, "enterprise"@, "brand"@)),
        },
    }
}

/// Resolves the organization a sign-up creates: a personal org keyed by the
/// session email, or an enterprise org keyed by a domain or a brand slug.
pub fn resolve_signup(kind: SignupKind) -> (r: SdkResult<SignupTarget>)
    ensures
        match r {
            Ok(t) => signup_spec(kind) == Ok::<(Seq<char>, Seq<char>, Seq<char>), Seq<char>>(
                (t.entity_id@, t.package@, t.kind@),
            ),
            Err(e) => signup_spec(kind) matches Err(m) && auth_error(e, m),
        },
{
    match kind {
        SignupKind::Personal { email } => {
            let entity_id = normalize_entity_id(email.as_str(), "email")?;
            if !contains_char(&chars_of(entity_id.as_str()), '@') {
                let q = debug_str(entity_id.as_str());
                let v = concat_chars(&chars_of("session email "), &chars_of(q.as_str()));
                let v = concat_chars(&v, &chars_of(" does not look like an email — use --domain or --brand"));
                return Err(Error::Auth(string_of(&v)));
            }
            Ok(SignupTarget { entity_id, package: "personal", kind: "personal" })
        },
        SignupKind::Domain { domain } => {
            let entity_id = normalize_entity_id(domain.as_str(), "domain")?;
            Ok(SignupTarget { entity_id, package: "enterprise", kind: "domain" })
        },
        SignupKind::Brand { brand } => {
            let entity_id = normalize_entity_id(brand.as_str(), "brand")?;
            Ok(SignupTarget { entity_id, package: "enterprise", kind: "brand" })
        },
    }
}

/// Refuses to go on without a signed-in session.
pub fn require_session(cfg: &ResolvedConfig) -> (r: SdkResult<()>)
    ensures
        r is Ok <==> cfg.auth_token is Some,
        r matches Err(e) ==> auth_error(
            e,
            "not logged in — run `"@ + cfg.product_name@ + " auth login` first"@,
        ),
{
    if cfg.auth_token.is_some() {
        return Ok(());
    }
    let v = concat_chars(&chars_of("not logged in — run `"), &chars_of(cfg.product_name.as_str()));
    let v = concat_chars(&v, &chars_of(" auth login` first"));
    Err(Error::Auth(string_of(&v)))
}

/// The error for a command planned for a later phase.
pub fn not_yet(phase: &str, command: &str) -> (r: SdkResult<()>)
    ensures
        r matches Err(Error::Unsupported(m)) && m@ == command@ + " is planned for "@ + phase@,
{
    let v = concat_chars(&chars_of(command), &chars_of(" is planned for "));
    Err(Error::Unsupported(string_of(&concat_chars(&v, &chars_of(phase)))))
}

} // verus!
