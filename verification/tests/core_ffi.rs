use two_key_core::api::HttpResponse;
use two_key_core::error::TwoKeyResult;
use two_key_core::ffi::{ffi_error_codes, ffi_sync_license_json};
use two_key_core::url::normalize_api_base_url;

fn never_sent(_req: &two_key_core::api::HttpRequest) -> TwoKeyResult<HttpResponse> {
    panic!("no request expected")
}

#[test]
fn error_codes_non_empty() {
    assert!(ffi_error_codes().contains(&"license_invalid".into()));
}

#[test]
fn sync_license_rejects_missing_token() {
    let session = r#"{"account_key":"u1","access_token":null,"license_jwt":null,"license_etag":null,"paying_party_id_header":null}"#;
    let out = ffi_sync_license_json(
        "https://billing.example.com".into(),
        "-----BEGIN PUBLIC KEY-----\nMFkwEwYHKoZIzj0CAQYIKoZIzj0DAQcDQgAE\n-----END PUBLIC KEY-----".into(),
        session.into(),
        never_sent,
    );
    assert!(out.contains("\"ok\":false"));
    assert!(out.contains("unauthorized") || out.contains("No access token"));
}

#[test]
fn strips_api_v1() {
    assert_eq!(
        normalize_api_base_url("https://billing.example.com/api/v1/"),
        "https://billing.example.com"
    );
}

#[test]
fn normalize_strips_suffix() {
    assert_eq!(
        normalize_api_base_url("https://x.example/api/v1"),
        "https://x.example"
    );
}
