use base64::engine::general_purpose::URL_SAFE_NO_PAD;
use base64::Engine;
use p256::ecdsa::signature::Signer;
use p256::ecdsa::{Signature, SigningKey};
use p256::pkcs8::{EncodePublicKey, LineEnding};
use two_key_core::api::{HttpRequest, HttpResponse};
use two_key_core::config::SdkConfig;
use two_key_core::error::{ErrorCode, TwoKeyResult};
use two_key_core::facade::TwoKeyClient;
use two_key_core::ffi::{
    ffi_ensure_billing_context_json, ffi_error_codes, ffi_parse_session_json,
    ffi_should_poll_json, ffi_sync_license_json, ffi_validate_config_json,
    ffi_verify_license_json_at, jwt_payload_json, should_poll_json_at,
};
use two_key_core::license::{LicenseVerifier, VerifyOutcome};
use two_key_core::ports::{Clock, InMemoryStorage};
use two_key_core::session::AccountSession;

struct FixedClock(i64);
impl Clock for FixedClock {
    fn unix_seconds(&self) -> i64 {
        self.0
    }
}

fn key(seed: u8) -> (SigningKey, String) {
    let mut bytes = [0u8; 32];
    bytes[31] = seed;
    bytes[0] = 1;
    let signing = SigningKey::from_bytes(&bytes.into()).unwrap();
    let pem = signing.verifying_key().to_public_key_pem(LineEnding::LF).unwrap();
    (signing, pem)
}

fn claims(exp: i64, subscriptions: &str) -> String {
    format!(
        "{{\"payload_version\":1,\"iat\":1700000000,\"exp\":{exp},\"iss\":\"billing\",\
         \"paying_party\":{{\"id\":\"pp_1\",\"identity_provider\":\"email\",\"identity_subject\":\"u1\",\
         \"billing_email\":\"billing@example.com\"}},\"subscriptions\":[{subscriptions}]}}"
    )
}

fn subscription() -> &'static str {
    "{\"subscription_id\":\"sub_1\",\"plan_id\":\"plan_1\",\"plan_name\":\"Pro\",\
     \"product_id\":\"prod_mail\",\"product_name\":\"Mail\",\"subscription_status\":\"active\",\
     \"valid_until\":4102444800}"
}

fn sign_jwt(signing: &SigningKey, claims: &str) -> String {
    let h = URL_SAFE_NO_PAD.encode(b"{\"alg\":\"ES256\",\"typ\":\"JWT\"}");
    let p = URL_SAFE_NO_PAD.encode(claims.as_bytes());
    let input = format!("{h}.{p}");
    let sig: Signature = signing.sign(input.as_bytes());
    format!("{input}.{}", URL_SAFE_NO_PAD.encode(sig.to_bytes()))
}

fn config(pem: String, prefix: &str) -> SdkConfig {
    SdkConfig {
        api_base_url: "https://billing.example.com/api/v1".into(),
        public_key_pem: pem,
        storage_prefix: prefix.into(),
        portal_base_url: None,
        shop_path: "/shop".into(),
        deep_link_scheme: None,
        license_poll_interval_secs: 6 * 3600,
    }
}

#[test]
fn verify_signed_license_es256() {
    let (signing, pub_pem) = key(7);
    let now = 1_800_000_000;
    let token = sign_jwt(&signing, &claims(now + 3600, subscription()));
    let client = TwoKeyClient::new(config(pub_pem, "test_app"), InMemoryStorage::new(), FixedClock(now)).unwrap();
    match client.verify_license(&token) {
        VerifyOutcome::Success(p) => assert_eq!(p.paying_party.billing_email, "billing@example.com"),
        VerifyOutcome::Failure { code, message } => panic!("{code:?}: {message}"),
    }
}

#[test]
fn verify_rejects_wrong_key() {
    let (signing, _) = key(7);
    let (_, other_pub) = key(9);
    let token = sign_jwt(&signing, &claims(4_102_444_800, subscription()));
    let client = TwoKeyClient::new(config(other_pub, "test_app"), InMemoryStorage::new(), FixedClock(1_800_000_000)).unwrap();
    match client.verify_license(&token) {
        VerifyOutcome::Failure { code, .. } => {
            assert!(matches!(code, ErrorCode::LicenseInvalid | ErrorCode::LicenseMalformed));
        }
        VerifyOutcome::Success(_) => panic!("expected failure"),
    }
}

#[test]
fn session_roundtrip() {
    let (_, pub_pem) = key(3);
    let client = TwoKeyClient::with_memory(config(pub_pem, "billing_test")).unwrap();
    let mut session = AccountSession::new("user-1");
    session.access_token = Some("tok".into());
    client.save_session(&session).unwrap();
    let loaded = client.load_session("user-1").unwrap().unwrap();
    assert_eq!(loaded.access_token.as_deref(), Some("tok"));
    client.clear_session("user-1").unwrap();
    assert!(client.load_session("user-1").unwrap().is_none());
}

#[test]
fn config_requires_storage_prefix() {
    let (_, pub_pem) = key(3);
    assert!(TwoKeyClient::with_memory(config(pub_pem, "  ")).is_err());
}

#[test]
fn sha256_smoke() {
    let _ = <sha2::Sha256 as sha2::Digest>::digest(b"2key");
}

#[test]
fn validate_config_json_ok() {
    let out = ffi_validate_config_json(
        "https://billing.example.com/api/v1".into(),
        "pem".into(),
        "app".into(),
    );
    assert!(out.contains("\"ok\":true"));
    assert!(out.contains("billing.example.com"));
}

#[test]
fn should_poll_false_without_jwt() {
    let out = ffi_should_poll_json("pem".into(), None);
    assert!(out.contains("\"should_poll\":false"));
}

#[test]
fn parse_session_roundtrip() {
    let session = r#"{"account_key":"u1","access_token":"tok","license_jwt":null,"license_etag":null,"paying_party_id_header":null}"#;
    let out = ffi_parse_session_json(session.into());
    assert!(out.contains("\"ok\":true"));
    assert!(out.contains("u1"));
}

#[test]
fn verify_json_reports_summary_and_claims() {
    let (signing, pub_pem) = key(5);
    let token = sign_jwt(&signing, &claims(2_000_000_000, subscription()));
    let out = ffi_verify_license_json_at(&pub_pem, &token, 1_900_000_000);
    assert!(out.starts_with("{\"ok\":true,\"paying_party_id\":\"pp_1\",\"subscription_count\":1,\"payload_version\":1,\"claims\":{"), "{out}");
    assert!(out.contains("\"billing_email\":\"billing@example.com\""));
}

#[test]
fn verify_json_expired_token() {
    let (signing, pub_pem) = key(5);
    let token = sign_jwt(&signing, &claims(1_000, subscription()));
    let out = ffi_verify_license_json_at(&pub_pem, &token, 1_900_000_000);
    assert!(out.contains("\"ok\":false"));
    assert!(out.contains("\"code\":\"license_expired\""));
}

#[test]
fn verify_json_bad_key_and_malformed_token() {
    let out = ffi_verify_license_json_at("not a key", "a.b.c", 0);
    assert_eq!(out, "{\"ok\":false,\"code\":\"config\",\"message\":\"Invalid public_key_pem\"}");
    let (_, pub_pem) = key(5);
    let out = ffi_verify_license_json_at(&pub_pem, "only.two", 0);
    assert!(out.contains("\"code\":\"license_malformed\""));
}

#[test]
fn tampered_signature_is_invalid() {
    let (signing, pub_pem) = key(5);
    let token = sign_jwt(&signing, &claims(2_000_000_000, subscription()));
    let (other, _) = key(6);
    let forged = sign_jwt(&other, &claims(2_000_000_000, subscription()));
    let mixed = format!(
        "{}.{}",
        token.rsplit_once('.').unwrap().0,
        forged.rsplit_once('.').unwrap().1
    );
    let verifier = LicenseVerifier::from_pem(&pub_pem).unwrap();
    match verifier.verify_and_decode_at(&mixed, 1_900_000_000, None) {
        VerifyOutcome::Failure { code, .. } => assert_eq!(code, ErrorCode::LicenseInvalid),
        VerifyOutcome::Success(_) => panic!("forged signature accepted"),
    }
}

#[test]
fn jwt_payload_json_reads_claims_and_reports_encoding() {
    let (signing, _) = key(5);
    let token = sign_jwt(&signing, &claims(2_000_000_000, ""));
    assert!(jwt_payload_json(&token).is_ok());
    let err = jwt_payload_json("a.%%%.c").unwrap_err();
    assert_eq!(err.message, "Invalid JWT payload encoding");
    assert!(err.detail.is_some());
    let err = jwt_payload_json("a.b").unwrap_err();
    assert_eq!(err.message, "Invalid JWT shape");
}

#[test]
fn error_codes_are_the_published_list() {
    assert_eq!(
        ffi_error_codes(),
        vec![
            "config", "network", "unauthorized", "offline", "license_invalid", "license_expired",
            "license_malformed", "license_device_mismatch", "not_modified", "invalid_response", "unknown"
        ]
    );
}

#[test]
fn should_poll_needs_subscriptions() {
    let (signing, pub_pem) = key(5);
    let with = sign_jwt(&signing, &claims(2_000_000_000, subscription()));
    let without = sign_jwt(&signing, &claims(2_000_000_000, ""));
    assert_eq!(
        should_poll_json_at(&pub_pem, Some(&with), 1_900_000_000),
        "{\"ok\":true,\"should_poll\":true}"
    );
    assert_eq!(
        should_poll_json_at(&pub_pem, Some(&without), 1_900_000_000),
        "{\"ok\":true,\"should_poll\":false}"
    );
    assert_eq!(
        should_poll_json_at(&pub_pem, Some("   "), 1_900_000_000),
        "{\"ok\":true,\"should_poll\":false}"
    );
}

#[test]
fn sync_not_modified_reverifies_cached_token() {
    let (signing, pub_pem) = key(5);
    let now = std::time::SystemTime::now()
        .duration_since(std::time::UNIX_EPOCH)
        .unwrap()
        .as_secs() as i64;
    let token = sign_jwt(&signing, &claims(now + 3600, subscription()));
    let session = format!(
        "{{\"account_key\":\"u1\",\"access_token\":\"tok\",\"license_jwt\":\"{token}\",\"license_etag\":\"v1\",\"paying_party_id_header\":null}}"
    );
    let send = |req: &HttpRequest| -> TwoKeyResult<HttpResponse> {
        assert_eq!(req.url, "https://billing.example.com/api/v1/license");
        assert!(req
            .headers
            .iter()
            .any(|(k, v)| k == "If-None-Match" && v == "\"v1\""));
        Ok(HttpResponse { status: 304, etag: Some("\"v2\"".into()), body: Vec::new() })
    };
    let out = ffi_sync_license_json("https://billing.example.com/api/v1".into(), pub_pem, session, send);
    assert!(out.contains("\"status\":\"not_modified\""), "{out}");
    assert!(out.contains("\"license_etag\":\"\\\"v2\\\"\""), "{out}");
}

#[test]
fn billing_context_unwraps_data() {
    let send = |req: &HttpRequest| -> TwoKeyResult<HttpResponse> {
        assert_eq!(req.url, "https://billing.example.com/api/v1/subscriptions/me");
        Ok(HttpResponse { status: 200, etag: None, body: b"{\"data\":{\"plan\":\"pro\"}}".to_vec() })
    };
    let out = ffi_ensure_billing_context_json("https://billing.example.com".into(), "tok".into(), send);
    assert_eq!(out, "{\"ok\":true,\"data\":{\"plan\":\"pro\"}}");
    let never = |_req: &HttpRequest| -> TwoKeyResult<HttpResponse> { panic!("no request expected") };
    let out = ffi_ensure_billing_context_json("https://billing.example.com".into(), "  ".into(), never);
    assert!(out.contains("\"code\":\"unauthorized\""));
}

#[test]
fn device_list_on_an_inactive_seat_still_binds() {
    let (signing, pub_pem) = key(9);
    let inactive = "{\"subscription_id\":\"sub_2\",\"plan_id\":\"plan_1\",\"plan_name\":\"Pro\",\
     \"product_id\":\"prod_mail\",\"product_name\":\"Mail\",\"subscription_status\":\"canceled\",\
     \"valid_until\":4102444800,\"devices\":[{\"ski\":\"dev-a\"}]}";
    let subs = format!("{},{}", subscription(), inactive);
    let token = sign_jwt(&signing, &claims(2_000_000_000, &subs));
    let verifier = LicenseVerifier::from_pem(&pub_pem).unwrap();
    match verifier.verify_and_decode_at(&token, 1_900_000_000, Some("dev-b")) {
        VerifyOutcome::Failure { code, .. } => assert_eq!(code, ErrorCode::LicenseDeviceMismatch),
        VerifyOutcome::Success(_) => panic!("a device list binds the license"),
    }
    match verifier.verify_and_decode_at(&token, 1_900_000_000, None) {
        VerifyOutcome::Success(_) => {}
        VerifyOutcome::Failure { code, message } => panic!("{code:?}: {message}"),
    }
}

struct UnreadClock;
impl Clock for UnreadClock {
    fn unix_seconds(&self) -> i64 {
        panic!("the clock is read only after the token's format and signature are checked")
    }
}

#[test]
fn malformed_tokens_fail_before_the_clock_is_read() {
    let (_, pub_pem) = key(4);
    let verifier = LicenseVerifier::from_pem(&pub_pem).unwrap();
    for token in ["", "   ", "a.b", "a.b.c.d"] {
        match verifier.verify_and_decode_for_device(token, &UnreadClock, None) {
            VerifyOutcome::Failure { code, message } => {
                assert_eq!(code, ErrorCode::LicenseMalformed);
                assert_eq!(message, "Invalid format. Please paste the full token from the billing portal.");
            }
            VerifyOutcome::Success(_) => panic!("malformed token accepted"),
        }
    }
}

fn session_with_token() -> AccountSession {
    let mut session = AccountSession::new("u1");
    session.access_token = Some("tok".into());
    session.license_jwt = Some("cached.jwt.value".into());
    session.license_etag = Some("\"v1\"".into());
    session
}

#[test]
fn sync_leaves_the_session_alone_when_the_fetch_fails() {
    let (_, pub_pem) = key(6);
    let client = TwoKeyClient::new(config(pub_pem, "sync_fail"), InMemoryStorage::new(), FixedClock(1_800_000_000)).unwrap();
    let mut session = session_with_token();
    let before = session.clone();
    let down = |_req: &HttpRequest| -> TwoKeyResult<HttpResponse> {
        Ok(HttpResponse { status: 503, etag: Some("\"v9\"".into()), body: b"busy".to_vec() })
    };
    assert!(client.sync_license(&mut session, down).is_err());
    assert_eq!(session, before);
    let no_token = |_req: &HttpRequest| -> TwoKeyResult<HttpResponse> {
        Ok(HttpResponse { status: 200, etag: Some("\"v9\"".into()), body: b"{\"data\":{}}".to_vec() })
    };
    let err = client.sync_license(&mut session, no_token).unwrap_err();
    assert_eq!(err.code, ErrorCode::InvalidResponse);
    assert_eq!(session, before);
}

#[test]
fn sync_leaves_the_session_alone_when_the_token_is_rejected() {
    let (signing, _) = key(6);
    let (_, other_pub) = key(8);
    let forged = sign_jwt(&signing, &claims(4_102_444_800, subscription()));
    let client = TwoKeyClient::new(config(other_pub, "sync_reject"), InMemoryStorage::new(), FixedClock(1_800_000_000)).unwrap();
    let mut session = session_with_token();
    let before = session.clone();
    let body = format!("{{\"signedToken\":\"{forged}\"}}").into_bytes();
    let send = move |_req: &HttpRequest| -> TwoKeyResult<HttpResponse> {
        Ok(HttpResponse { status: 200, etag: Some("\"v9\"".into()), body })
    };
    assert!(client.sync_license(&mut session, send).is_err());
    assert_eq!(session, before);
    assert!(client.load_session("u1").unwrap().is_none());
}

#[test]
fn sync_takes_a_verified_token_and_saves_the_session() {
    let (signing, pub_pem) = key(6);
    let now = 1_800_000_000;
    let token = sign_jwt(&signing, &claims(now + 3600, subscription()));
    let client = TwoKeyClient::new(config(pub_pem, "sync_ok"), InMemoryStorage::new(), FixedClock(now)).unwrap();
    let mut session = session_with_token();
    let body = format!("{{\"data\":{{\"signedToken\":\"{token}\"}}}}").into_bytes();
    let send = move |_req: &HttpRequest| -> TwoKeyResult<HttpResponse> {
        Ok(HttpResponse { status: 200, etag: Some("\"v2\"".into()), body })
    };
    let payload = client.sync_license(&mut session, send).unwrap();
    assert_eq!(payload.paying_party.billing_email, "billing@example.com");
    assert_eq!(session.license_jwt.as_deref(), Some(token.as_str()));
    assert_eq!(session.license_etag.as_deref(), Some("\"v2\""));
    let saved = client.load_session("u1").unwrap().unwrap();
    assert_eq!(saved.license_jwt.as_deref(), Some(token.as_str()));
}
