use two_key_core::auth_session::{SessionTransport, StoredSession};
use two_key_core::billing_ids::jwt_claim_string;
use two_key_core::client_util::join_url;
use two_key_core::identity::MachineIdentity;
use two_key_core::keystore::keys;
use two_key_core::keystore::{KeyStore, MemoryKeyStore};
use two_key_core::sdk_config::default_auth_url;
use two_key_core::signup::{resolve_signup, SignupKind};
use two_key_core::types::{normalize_ca_file_pem, EnrollmentStatus};

fn base64_url(bytes: &[u8]) -> String {
    const T: &[u8] = b"ABCDEFGHIJKLMNOPQRSTUVWXYZabcdefghijklmnopqrstuvwxyz0123456789+/";
    let mut out = String::new();
    let mut i = 0;
    while i < bytes.len() {
        let b0 = bytes[i];
        let b1 = if i + 1 < bytes.len() { bytes[i + 1] } else { 0 };
        let b2 = if i + 2 < bytes.len() { bytes[i + 2] } else { 0 };
        out.push(T[(b0 >> 2) as usize] as char);
        out.push(T[(((b0 & 3) << 4) | (b1 >> 4)) as usize] as char);
        if i + 1 < bytes.len() {
            out.push(T[(((b1 & 15) << 2) | (b2 >> 6)) as usize] as char);
        }
        if i + 2 < bytes.len() {
            out.push(T[(b2 & 63) as usize] as char);
        }
        i += 3;
    }
    out.replace('+', "-").replace('/', "_").trim_end_matches('=').to_string()
}

#[test]
fn personal_uses_email_and_personal_package() {
    let t = resolve_signup(SignupKind::Personal {
        email: "Alice@Example.COM".into(),
    })
    .unwrap();
    assert_eq!(t.entity_id, "alice@example.com");
    assert_eq!(t.package, "personal");
}

#[test]
fn domain_and_brand_are_enterprise() {
    let d = resolve_signup(SignupKind::Domain {
        domain: "Acme.COM".into(),
    })
    .unwrap();
    assert_eq!(d.entity_id, "acme.com");
    assert_eq!(d.package, "enterprise");
    let b = resolve_signup(SignupKind::Brand {
        brand: "Acme".into(),
    })
    .unwrap();
    assert_eq!(b.entity_id, "acme");
    assert_eq!(b.package, "enterprise");
    assert_eq!(b.kind, "brand");
}

#[test]
fn rejects_separator_in_slug() {
    assert!(resolve_signup(SignupKind::Brand {
        brand: "acme--corp".into(),
    })
    .is_err());
}

#[test]
fn rejects_personal_without_at() {
    assert!(resolve_signup(SignupKind::Personal {
        email: "not-an-email".into(),
    })
    .is_err());
}

#[test]
fn jwt_payload_reads_member_id() {
    let payload = base64_url(br#"{"member_id":"abc","email":"a@b.c"}"#);
    let token = format!("eyJhbGciOiJub25lIn0.{payload}.x");
    assert_eq!(jwt_claim_string(&token, "member_id").as_deref(), Some("abc"));
    assert_eq!(jwt_claim_string(&token, "email").as_deref(), Some("a@b.c"));
}

#[test]
fn join_url_keeps_auth_prefix() {
    assert_eq!(
        join_url(
            "https://api.example.com/api/auth",
            "delegate-permissions/enroll-create"
        ),
        "https://api.example.com/api/auth/delegate-permissions/enroll-create"
    );
}

#[test]
fn auth_url_from_api_v1() {
    assert_eq!(
        default_auth_url("https://billing.idr.to/api/v1"),
        "https://billing.idr.to/api/auth"
    );
    assert_eq!(
        default_auth_url("http://localhost:3000/api/v1/"),
        "http://localhost:3000/api/auth"
    );
}

#[test]
fn auth_url_keeps_explicit_auth_mount() {
    assert_eq!(
        default_auth_url("https://billing.idr.to/api/auth"),
        "https://billing.idr.to/api/auth"
    );
}

#[test]
fn formats_and_parses_from_the_right() {
    let id = MachineIdentity::new("api.prod.eu", "acme.com", "--").unwrap();
    assert_eq!(id.as_str(), "api.prod.eu--acme.com");
    let parsed = MachineIdentity::parse("api.prod.eu--acme.com", "--").unwrap();
    assert_eq!(parsed, id);
}

#[test]
fn rejects_separator_inside_name() {
    let err = MachineIdentity::parse("a--b--acme.com", "--").unwrap_err();
    assert!(err.to_string().contains("must not contain separator"));
}

#[test]
fn rejects_uppercase_name() {
    let err = MachineIdentity::new("DB1", "acme.com", "--").unwrap_err();
    assert!(err.to_string().contains("machine name"));
}

#[test]
fn rejects_missing_separator() {
    assert!(MachineIdentity::parse("db1.acme.com", "--").is_err());
}

#[test]
fn memory_roundtrip() {
    let store = MemoryKeyStore::new();
    store.save(keys::STATE, b"{}").unwrap();
    assert!(store.has_key(keys::STATE).unwrap());
    assert_eq!(
        store.load(keys::STATE).unwrap().as_deref(),
        Some(&b"{}"[..])
    );
    store.delete(keys::STATE).unwrap();
    assert!(!store.has_key(keys::STATE).unwrap());
}

#[test]
fn rejects_path_escape() {
    let store = MemoryKeyStore::new();
    assert!(store.save("../etc/passwd", b"x").is_err());
    assert!(store.save("/tmp/x", b"x").is_err());
}

#[test]
fn paste_cookie_and_bearer() {
    let cookie = StoredSession::from_pasted("better-auth.session_token=abc").unwrap();
    assert_eq!(cookie.transport, SessionTransport::Cookie);
    assert!(cookie.to_client_auth().contains("session_token=abc"));
    let bearer = StoredSession::from_pasted("Bearer tok123").unwrap();
    assert_eq!(bearer.transport, SessionTransport::Bearer);
    assert_eq!(bearer.to_client_auth(), "tok123");
}

#[test]
fn active_cannot_enroll() {
    assert!(!EnrollmentStatus::Active.allows_enroll());
    assert!(EnrollmentStatus::Rejected.allows_enroll());
    assert!(EnrollmentStatus::Active.can_transition_to(EnrollmentStatus::Renewing));
    assert!(!EnrollmentStatus::PendingAdmin.can_transition_to(EnrollmentStatus::Active));
}

#[test]
fn ca_file_pem_has_trailing_newline() {
    let pem = "-----BEGIN CERTIFICATE-----\nMII\n-----END CERTIFICATE-----";
    let out = normalize_ca_file_pem(pem).unwrap();
    assert!(out.ends_with('\n'));
    assert!(out.contains("BEGIN CERTIFICATE"));
    assert!(normalize_ca_file_pem("not a cert").is_none());
}

#[test]
fn missing_machine_key_errors() {
    let store = MemoryKeyStore::new();
    let err = two_key_core::agent::load_agent_identity(&store).unwrap_err();
    assert!(err.to_string().contains("machine.key"));
}
