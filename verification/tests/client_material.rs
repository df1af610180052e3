use ed25519_dalek::pkcs8::EncodePrivateKey;
use ed25519_dalek::SigningKey;
use two_key_core::api::{ApiClient, HttpMethod, UsageReportRequest};
use two_key_core::credential::{default_machine_permissions, unsigned_machine_credential};
use two_key_core::enrollment::{begin_enrollment, invite_entity, plain_entity, EnrollParams};
use two_key_core::error::ErrorCode;
use two_key_core::json::{get, parse_json, render_json, JsonValue};
use two_key_core::keystore::{keys, KeyStore, MemoryKeyStore};
use two_key_core::mtls::leaf::self_signed_ca_pem;
use two_key_core::mtls::pem::{load_client_auth, load_root_certs};
use two_key_core::mtls::{jwks_from_private_pem, public_jwk_from_csr_pem, verify_ed25519_cert_against_issuer, MtlsClientMaterial, MtlsError};
use two_key_core::sdk_error::{Error, SdkResult};
use two_key_core::state::load_state;
use two_key_core::types::{EnrollmentStatus, KeyAlgo, MachineKind};

fn key_pem(seed: u8) -> String {
    SigningKey::from_bytes(&[seed; 32]).to_pkcs8_pem(pkcs8::LineEnding::LF).unwrap().to_string()
}

fn material(cert_pem: &str, key_pem: &str) -> MtlsClientMaterial {
    MtlsClientMaterial {
        cert_pem: cert_pem.into(),
        chain_pem: None,
        key_pem: key_pem.into(),
        ski: "ski".into(),
        credential: unsigned_machine_credential(
            "acme.com",
            "ski".into(),
            parse_json(b"{\"kty\":\"OKP\",\"crv\":\"Ed25519\",\"x\":\"AA\"}").unwrap(),
            Some("db1--acme.com".into()),
            "issuer".into(),
            default_machine_permissions("db1"),
            "2026-01-01T00:00:00Z".into(),
            "2027-01-01T00:00:00Z".into(),
        ),
    }
}

#[test]
fn self_signed_ca_verifies_against_itself() {
    let cert = self_signed_ca_pem("Acme Entity CA", &key_pem(3)).unwrap();
    assert!(cert.starts_with("-----BEGIN CERTIFICATE-----"));
    assert_eq!(verify_ed25519_cert_against_issuer(&cert, &cert).unwrap(), true);
    assert!(matches!(self_signed_ca_pem("Acme", "not a key"), Err(MtlsError::Pkcs8(_))));
}

#[test]
fn client_auth_reads_certificate_and_key_as_der() {
    let key = key_pem(5);
    let cert = self_signed_ca_pem("Acme Entity CA", &key).unwrap();
    let loaded = load_client_auth(&material(&cert, &key)).unwrap();
    assert_eq!(loaded.certs.len(), 1);
    assert_eq!(loaded.certs[0][0], 0x30);
    assert_ne!(loaded.certs[0], cert.as_bytes().to_vec());
    let der = SigningKey::from_bytes(&[5; 32]).to_pkcs8_der().unwrap();
    assert_eq!(loaded.key, der.as_bytes().to_vec());
}

#[test]
fn client_auth_without_a_key_is_a_pem_error() {
    let cert = self_signed_ca_pem("Acme Entity CA", &key_pem(6)).unwrap();
    match load_client_auth(&material(&cert, &cert)) {
        Err(MtlsError::Pem(m)) => assert_eq!(m, "no PKCS8 private key in PEM"),
        other => panic!("unexpected: {other:?}"),
    }
}

#[test]
fn root_certs_come_back_in_order() {
    let a = self_signed_ca_pem("Root A", &key_pem(7)).unwrap();
    let b = self_signed_ca_pem("Root B", &key_pem(8)).unwrap();
    let both = format!("{a}{b}");
    let roots = load_root_certs(&[a.as_str(), both.as_str()]).unwrap();
    assert_eq!(roots.len(), 3);
    assert_eq!(roots[0], roots[1]);
    assert_ne!(roots[1], roots[2]);
    assert!(load_root_certs(&[]).unwrap().is_empty());
    let broken = "-----BEGIN CERTIFICATE-----\n@@@@\n";
    assert!(matches!(load_root_certs(&[a.as_str(), broken]), Err(MtlsError::Pem(_))));
}

fn usage(reporter_type: Option<&str>) -> UsageReportRequest {
    UsageReportRequest {
        meter_key: "relay.bytes".into(),
        using_party: "pp_user".into(),
        paying_party: "pp_payer".into(),
        idempotency_key: "idem-1".into(),
        reporter_type: reporter_type.map(String::from),
        target_fqhn: Some("db1.acme.com".into()),
        bytes_to_target: None,
        bytes_from_target: None,
        quantity: None,
        reporter_id: None,
        session_id: None,
        dimensions: None,
        reported_at: None,
    }
}

#[test]
fn usage_report_body_defaults_to_relay_and_empty_dimensions() {
    let api = ApiClient::new("https://billing.example.com/api/v1");
    let req = api.usage_request("rtok", usage(None)).unwrap();
    assert!(matches!(req.method, HttpMethod::Post));
    assert_eq!(req.url, "https://billing.example.com/api/v1/usage/report");
    assert_eq!(
        req.headers,
        vec![
            ("Authorization".to_string(), "Bearer rtok".to_string()),
            ("Content-Type".to_string(), "application/json".to_string()),
        ]
    );
    let body = render_json(&req.body.unwrap());
    assert_eq!(
        body,
        "{\"meter_key\":\"relay.bytes\",\"using_party\":\"pp_user\",\"paying_party\":\"pp_payer\",\
         \"idempotency_key\":\"idem-1\",\"reporter_type\":\"relay\",\"target_fqhn\":\"db1.acme.com\",\
         \"bytes_to_target\":null,\"bytes_from_target\":null,\"quantity\":null,\"reporter_id\":null,\
         \"session_id\":null,\"dimensions\":{},\"reported_at\":null}"
    );
    let req = api.usage_request("rtok", usage(Some("direct"))).unwrap();
    match req.body.unwrap() {
        JsonValue::Object(m) => assert!(matches!(&m[4].1, JsonValue::Str(s) if s == "direct")),
        _ => panic!("body is an object"),
    }
    let err = api.usage_request("   ", usage(None)).unwrap_err();
    assert_eq!(err.code, ErrorCode::Unauthorized);
    assert_eq!(err.message, "Reporter token is required.");
}

#[test]
fn invite_entity_must_agree_with_org() {
    assert_eq!(invite_entity(None, Some("acme.com".into())).unwrap(), "acme.com");
    assert_eq!(invite_entity(Some("ACME.com"), Some("acme.com".into())).unwrap(), "acme.com");
    match invite_entity(Some("other.org"), Some("acme.com".into())) {
        Err(Error::Enrollment(m)) => assert_eq!(m, "--org other.org does not match invite org acme.com"),
        other => panic!("unexpected: {other:?}"),
    }
    match invite_entity(None, Some(String::new())) {
        Err(Error::Enrollment(m)) => assert_eq!(m, "enroll-invite lookup missing entityId"),
        other => panic!("unexpected: {other:?}"),
    }
    assert_eq!(plain_entity(Some("acme.com".into())).unwrap(), "acme.com");
    match plain_entity(None) {
        Err(Error::Enrollment(m)) => assert_eq!(m, "pass --org <entity> or --invite <token>"),
        other => panic!("unexpected: {other:?}"),
    }
}

#[test]
fn begin_enrollment_stores_key_state_and_csr() {
    let store = MemoryKeyStore::new();
    let params = EnrollParams {
        entity_id: "acme.com".into(),
        machine_name: "db1".into(),
        kind: MachineKind::Target,
        key_algo: KeyAlgo::Ed25519,
        wait: false,
        wait_interval_secs: 5,
        separator: "--".into(),
        instant: false,
        invite_token: None,
    };
    let pem = key_pem(9);
    let made = pem.clone();
    let generate = move || -> SdkResult<String> { Ok(made) };
    let (state, identity, public_jwk, csr) =
        begin_enrollment(&store, &params, "2026-01-01T00:00:00Z".into(), generate).unwrap();
    let (_, expected_jwk, ski) = jwks_from_private_pem(&pem).unwrap();
    assert_eq!(state.status, EnrollmentStatus::CsrCreated);
    assert_eq!(state.ski.as_deref(), Some(ski.as_str()));
    assert_eq!(state.machine_identity, "db1--acme.com");
    assert_eq!(identity.as_str(), "db1--acme.com");
    assert_eq!(render_json(&public_jwk), render_json(&expected_jwk));
    assert!(csr.starts_with("-----BEGIN CERTIFICATE REQUEST-----"));
    let (csr_jwk, csr_ski) = public_jwk_from_csr_pem(&csr).unwrap();
    assert_eq!(render_json(&csr_jwk), render_json(&expected_jwk));
    assert_eq!(csr_ski, ski);
    assert_eq!(store.load_string(keys::MACHINE_KEY).unwrap().as_deref(), Some(pem.as_str()));
    assert_eq!(store.load_string(keys::MACHINE_CSR).unwrap().as_deref(), Some(csr.as_str()));
    let stored = load_state(&store).unwrap().unwrap();
    assert_eq!(stored.status, EnrollmentStatus::CsrCreated);

    let failing = || -> SdkResult<String> { Err(Error::Mtls(MtlsError::MissingPrivateKey)) };
    let fresh = MemoryKeyStore::new();
    assert!(begin_enrollment(&fresh, &params, "2026-01-01T00:00:00Z".into(), failing).is_err());
    assert!(load_state(&fresh).unwrap().is_none());
}

#[test]
fn public_jwk_x_is_unpadded_url_safe_base64_of_the_key() {
    let signing = SigningKey::from_bytes(&[11; 32]);
    let pem = signing.to_pkcs8_pem(pkcs8::LineEnding::LF).unwrap().to_string();
    let (_, public_jwk, _) = jwks_from_private_pem(&pem).unwrap();
    let x = match get(&public_jwk, "x") {
        Some(JsonValue::Str(s)) => s.clone(),
        _ => panic!("jwk has no x"),
    };
    let public = signing.verifying_key().to_bytes();
    let digits = b"ABCDEFGHIJKLMNOPQRSTUVWXYZabcdefghijklmnopqrstuvwxyz0123456789-_";
    let mut expected = String::new();
    for chunk in public.chunks(3) {
        let b = [chunk[0], *chunk.get(1).unwrap_or(&0), *chunk.get(2).unwrap_or(&0)];
        let n = ((b[0] as u32) << 16) | ((b[1] as u32) << 8) | b[2] as u32;
        for k in 0..(chunk.len() + 1) {
            expected.push(digits[((n >> (18 - 6 * k)) & 63) as usize] as char);
        }
    }
    assert_eq!(x.len(), 43);
    assert_eq!(x, expected);
}
