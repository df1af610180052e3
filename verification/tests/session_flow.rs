use two_key_core::agent::state_dir_warning;
use two_key_core::auth_session::{
    delete_session, device_code_answer, device_http_error, device_token_answer, get_session_answer,
    http_status_check, load_session, save_session, session_document, session_from_json_value,
    sign_out_answer, DeviceTokenPoll, SessionTransport, SessionUser, StoredSession,
};
use two_key_core::json::render_json;
use two_key_core::keystore::{keys, KeyStore, MemoryKeyStore};
use two_key_core::sdk_error::Error;

#[test]
fn session_file_roundtrip() {
    let store = MemoryKeyStore::new();
    let mut s = StoredSession::from_device_token("raw-token", Some(60));
    s.user = Some(SessionUser { id: Some("u1".into()), email: Some("a@b.c".into()), name: None });
    save_session(&store, &s).ok().unwrap();
    let loaded = load_session(&store).ok().unwrap().unwrap();
    assert_eq!(loaded.token, "raw-token");
    assert_eq!(loaded.user.unwrap().email.as_deref(), Some("a@b.c"));
    delete_session(&store).ok().unwrap();
    assert!(load_session(&store).ok().unwrap().is_none());
}

#[test]
fn session_document_shape_and_reading() {
    let s = StoredSession {
        schema: 1,
        token: "tok".into(),
        transport: SessionTransport::Cookie,
        expires_at: None,
        user: None,
    };
    let doc = session_document(&s);
    assert_eq!(render_json(&doc), "{\"schema\":1,\"token\":\"tok\",\"transport\":\"cookie\"}");
    let back = session_from_json_value(&doc).ok().unwrap();
    assert_eq!(back.transport, SessionTransport::Cookie);
    assert_eq!(back.token, "tok");
    let store = MemoryKeyStore::new();
    store.save_string(keys::SESSION, "{\"token\":\"t\",\"transport\":\"bearer\"}").ok().unwrap();
    let loaded = load_session(&store).ok().unwrap().unwrap();
    assert_eq!(loaded.schema, 1);
    assert_eq!(loaded.transport, SessionTransport::Bearer);
    store.save_string(keys::SESSION, "{\"token\":\"t\",\"transport\":\"carrier\"}").ok().unwrap();
    assert!(matches!(load_session(&store), Err(Error::Json(_))));
    store.save_string(keys::SESSION, "not json").ok().unwrap();
    assert!(matches!(load_session(&store), Err(Error::Json(_))));
}

#[test]
fn sign_in_error_messages() {
    match device_http_error(400, "{\"error\":\"invalid_client\",\"error_description\":\"bad id\"}", "device/code") {
        Error::Auth(m) => assert_eq!(m, "device/code: invalid_client (bad id)"),
        other => panic!("unexpected {other:?}"),
    }
    match device_http_error(400, "{\"error\":\"invalid_client\"}", "device/code") {
        Error::Auth(m) => assert_eq!(m, "device/code: invalid_client"),
        other => panic!("unexpected {other:?}"),
    }
    match device_http_error(404, "{\"message\":\"Not Found\"}", "device/code") {
        Error::Http { status, body } => {
            assert_eq!(status, 404);
            assert_eq!(body, "device/code: Not Found");
        }
        other => panic!("unexpected {other:?}"),
    }
    match device_http_error(500, "oops", "sign-out") {
        Error::Http { status, body } => {
            assert_eq!(status, 500);
            assert_eq!(body, "sign-out: oops");
        }
        other => panic!("unexpected {other:?}"),
    }
}

#[test]
fn device_code_and_token_answers() {
    let code = device_code_answer(
        200,
        "{\"device_code\":\"dc\",\"user_code\":\"ABCD-EFGH\",\"verification_uri\":\"http://example/device\",\"expires_in\":600,\"interval\":0}",
    )
    .ok()
    .unwrap();
    assert_eq!(code.user_code, "ABCD-EFGH");
    assert_eq!(code.expires_in, Some(600));
    assert_eq!(code.interval, Some(0));
    assert!(matches!(device_code_answer(200, "{\"user_code\":\"x\"}"), Err(Error::Auth(_))));
    assert!(matches!(device_code_answer(404, "{}"), Err(Error::Http { status: 404, .. })));
    assert!(matches!(device_token_answer(400, "{\"error\":\"authorization_pending\"}"), Ok(DeviceTokenPoll::Pending)));
    assert!(matches!(device_token_answer(400, "{\"error\":\"slow_down\"}"), Ok(DeviceTokenPoll::SlowDown)));
    match device_token_answer(400, "{\"error\":\"access_denied\"}") {
        Err(Error::Auth(m)) => assert_eq!(m, "authorization denied"),
        other => panic!("unexpected {other:?}"),
    }
    match device_token_answer(200, "{\"access_token\":\"sess-1\",\"token_type\":\"Bearer\",\"expires_in\":3600}") {
        Ok(DeviceTokenPoll::Issued(t)) => {
            assert_eq!(t.access_token, "sess-1");
            assert_eq!(t.expires_in, Some(3600));
        }
        other => panic!("unexpected {other:?}"),
    }
    match device_token_answer(200, "{\"access_token\":\"\"}") {
        Err(Error::Auth(m)) => assert_eq!(m, "device/token returned an empty access_token"),
        other => panic!("unexpected {other:?}"),
    }
}

#[test]
fn session_and_sign_out_answers() {
    assert!(get_session_answer(401, "").ok().unwrap().is_none());
    assert!(get_session_answer(200, "  null ").ok().unwrap().is_none());
    let got = get_session_answer(200, "{\"user\":{\"email\":\"a@b.c\"},\"session\":{\"id\":\"s\"}}").ok().unwrap().unwrap();
    assert_eq!(got.user.unwrap().email.as_deref(), Some("a@b.c"));
    assert!(got.session.is_some());
    assert!(matches!(get_session_answer(500, "x"), Err(Error::Http { status: 500, .. })));
    assert!(sign_out_answer(204, "").is_ok());
    assert!(sign_out_answer(401, "").is_ok());
    assert!(sign_out_answer(500, "{}").is_err());
    assert!(http_status_check(200, "").is_ok());
    match http_status_check(502, "bad gateway") {
        Err(Error::Http { status, body }) => {
            assert_eq!(status, 502);
            assert_eq!(body, "bad gateway");
        }
        other => panic!("unexpected {other:?}"),
    }
}

#[test]
fn state_dir_warnings() {
    assert_eq!(
        state_dir_warning(0, "/home/a/.dp", "dp").as_deref(),
        Some("running as root with state dir /home/a/.dp — prefer /var/lib/dp so keys are not under a login home")
    );
    assert_eq!(state_dir_warning(0, "/var/lib/dp", "dp"), None);
    assert_eq!(
        state_dir_warning(1000, "/var/lib/dp", "dp").as_deref(),
        Some("non-root process using /var/lib/dp — this directory is usually root-owned")
    );
    assert_eq!(state_dir_warning(1000, "/home/a/.dp", "dp"), None);
}
