use ed25519_dalek::pkcs8::EncodePrivateKey;
use ed25519_dalek::SigningKey;
use two_key_core::admin::{
    admin_ca_cert, admin_ca_key, admin_ca_meta, approval_checks, csr_fingerprint, enrollment_id,
    infer_entity_id, leaf_machine_name, parse_package, requester_label, resolve_enroll_selector,
    EnrollListItem, KickstartRequest,
};
use two_key_core::credential::{
    canonical_credential_payload, default_machine_permissions, kickstart_permissions,
    personal_root_permissions, root_admin_permissions, unsigned_machine_credential,
    with_entity_scope, Capability, CredentialKind, EntityPackage,
};
use two_key_core::enrollment::{
    apply_issued, apply_pull, enroll_answer_is_signed, enroll_preflight, last_pem_block,
    new_machine_state, EnrollParams, EnrollPullResponse, IssuedCerts,
};
use two_key_core::identity::MachineIdentity;
use two_key_core::json::{parse_json, render_json, JsonValue};
use two_key_core::keystore::{keys, KeyStore, MemoryKeyStore};
use two_key_core::lifecycle::{decommission_check, mark_decommissioned, prepare_renewal, wipe_secrets};
use two_key_core::mtls::jwks_from_private_pem;
use two_key_core::sdk_config::sdk_version;
use two_key_core::sdk_error::{Error, SdkResult};
use two_key_core::state::{load_state, parse_state, save_state};
use two_key_core::types::{EnrollmentStatus, KeyAlgo, MachineKind, MachineState};

fn state(status: EnrollmentStatus) -> MachineState {
    MachineState {
        machine_identity: "db1--acme.com".into(),
        entity_id: "acme.com".into(),
        machine_name: "db1".into(),
        ski: Some("oldski".into()),
        enrollment_id: None,
        pull_token: Some("tok".into()),
        status,
        cert_serial: None,
        cert_expires_at: None,
        created_at: "2026-01-01T00:00:00Z".into(),
        renewed_from_ski: None,
        kind: Some(MachineKind::Target),
    }
}

fn item(id: &str, host: &str) -> EnrollListItem {
    EnrollListItem {
        enroll_id: Some(id.into()),
        entity_id: Some("acme.com".into()),
        host: Some(host.into()),
        status: Some("pending".into()),
        kind: None,
        ski: None,
        csr_pem: None,
        extra: Vec::new(),
    }
}

fn obj(text: &str) -> JsonValue {
    parse_json(text.as_bytes()).unwrap()
}

fn credential(ski: &str, x: &str) -> two_key_core::credential::CapabilityCredential {
    unsigned_machine_credential(
        "acme.com",
        ski.into(),
        obj(&format!("{{\"kty\":\"OKP\",\"crv\":\"Ed25519\",\"x\":\"{x}\"}}")),
        Some("db1--acme.com".into()),
        "issuer".into(),
        default_machine_permissions("db1"),
        "2026-01-01T00:00:00Z".into(),
        "2027-01-01T00:00:00Z".into(),
    )
}

fn issued(cred: Option<two_key_core::credential::CapabilityCredential>, cert: Option<&str>, chain: Option<&str>) -> IssuedCerts {
    IssuedCerts {
        credential: cred,
        cert_pem: cert.map(String::from),
        chain_pem: chain.map(String::from),
        platform_cert_pem: None,
        platform_root_pem: None,
        platform_cert_cosign: None,
    }
}

fn local_key(store: &MemoryKeyStore) -> (String, String) {
    let signing = SigningKey::from_bytes(&[42; 32]);
    let pem = signing.to_pkcs8_pem(pkcs8::LineEnding::LF).unwrap().to_string();
    store.save_string(keys::MACHINE_KEY, &pem).unwrap();
    let (_p, public_jwk, ski) = jwks_from_private_pem(&pem).ok().unwrap();
    let x = match &public_jwk {
        JsonValue::Object(m) => m
            .iter()
            .find(|(k, _)| k == "x")
            .and_then(|(_, v)| match v {
                JsonValue::Str(s) => Some(s.clone()),
                _ => None,
            })
            .unwrap(),
        _ => panic!("jwk"),
    };
    (ski, x)
}

#[test]
fn index_is_one_based() {
    let list = vec![item("aaa", "a--acme.com"), item("bbb", "b--acme.com")];
    assert_eq!(enrollment_id(resolve_enroll_selector(&list, "1").unwrap()).unwrap(), "aaa");
    assert_eq!(enrollment_id(resolve_enroll_selector(&list, "2").unwrap()).unwrap(), "bbb");
    assert!(resolve_enroll_selector(&list, "0").is_err());
    assert!(resolve_enroll_selector(&list, "3").is_err());
}

#[test]
fn enroll_id_still_works() {
    let list = vec![item("enr_1", "a--acme.com"), item("enr_2", "b--acme.com")];
    assert_eq!(enrollment_id(resolve_enroll_selector(&list, "enr_2").unwrap()).unwrap(), "enr_2");
    assert!(resolve_enroll_selector(&list, "missing").is_err());
}

#[test]
fn selector_messages() {
    let list = vec![item("aaa", "a--acme.com")];
    let msg = |r: SdkResult<&EnrollListItem>| match r {
        Err(e) => e.to_string(),
        Ok(_) => panic!("expected error"),
    };
    assert_eq!(msg(resolve_enroll_selector(&list, "  ")), "admin: pass a list index (1) or an enroll id");
    assert_eq!(msg(resolve_enroll_selector(&list, "5")), "admin: CSR index 5 is out of range (1..=1)");
    assert_eq!(msg(resolve_enroll_selector(&list, "x")), "admin: enrollment x is not in this CSR list");
}

#[test]
fn persist_state_roundtrip() {
    let store = MemoryKeyStore::new();
    let mut s = state(EnrollmentStatus::PendingAdmin);
    s.enrollment_id = Some("e1".into());
    save_state(&store, &s).unwrap();
    let loaded = load_state(&store).unwrap().unwrap();
    assert_eq!(loaded.status, EnrollmentStatus::PendingAdmin);
    assert_eq!(loaded.pull_token.as_deref(), Some("tok"));
    assert_eq!(loaded, s);
}

#[test]
fn state_json_rejects_bad_shapes() {
    assert!(matches!(parse_state("{}"), Err(Error::Json(_))));
    assert!(matches!(parse_state("not json"), Err(Error::Json(_))));
    let bad_status = "{\"machineIdentity\":\"a--b\",\"entityId\":\"b\",\"machineName\":\"a\",\"status\":\"weird\",\"createdAt\":\"t\"}";
    assert!(matches!(parse_state(bad_status), Err(Error::Json(_))));
    let ok = "{\"machineIdentity\":\"a--b\",\"entityId\":\"b\",\"machineName\":\"a\",\"status\":\"cert_verified\",\"createdAt\":\"t\",\"kind\":\"source\",\"extra\":1}";
    let s = parse_state(ok).unwrap();
    assert_eq!(s.status, EnrollmentStatus::CertVerified);
    assert_eq!(s.kind, Some(MachineKind::Source));
    assert_eq!(s.ski, None);
}

#[test]
fn apply_issued_rejects_key_mismatch() {
    let store = MemoryKeyStore::new();
    let (_ski, _x) = local_key(&store);
    let mut st = state(EnrollmentStatus::Signed);
    let material = issued(
        Some(credential("deadbeef", "not-the-key")),
        Some("-----BEGIN CERTIFICATE-----\nMII\n-----END CERTIFICATE-----\n"),
        None,
    );
    let err = apply_issued(&store, &mut st, material).unwrap_err();
    assert!(err.to_string().contains("does not match"));
}

#[test]
fn apply_issued_accepts_matching_key() {
    let store = MemoryKeyStore::new();
    let (ski, x) = local_key(&store);
    let mut st = state(EnrollmentStatus::Signed);
    let material = issued(
        Some(credential(&ski, &x)),
        Some("-----BEGIN CERTIFICATE-----\nMII\n-----END CERTIFICATE-----\n"),
        Some("-----BEGIN CERTIFICATE-----\nLEAF\n-----END CERTIFICATE-----\n-----BEGIN CERTIFICATE-----\nCA\n-----END CERTIFICATE-----\n"),
    );
    apply_issued(&store, &mut st, material).unwrap();
    assert_eq!(st.status, EnrollmentStatus::Active);
    assert_eq!(st.ski.as_deref(), Some(ski.as_str()));
    assert!(store.has_key(keys::ORG_CA).unwrap());
    assert_eq!(
        store.load_string(keys::ORG_CA).unwrap().as_deref(),
        Some("-----BEGIN CERTIFICATE-----\nCA\n-----END CERTIFICATE-----\n")
    );
}

#[test]
fn apply_issued_needs_material() {
    let store = MemoryKeyStore::new();
    let mut st = state(EnrollmentStatus::Signed);
    let err = apply_issued(&store, &mut st, issued(None, None, None)).unwrap_err();
    assert_eq!(err.to_string(), "enrollment: approved enrollment did not include a leaf certificate or credential");
    assert_eq!(st.status, EnrollmentStatus::Signed);
}

#[test]
fn apply_pull_statuses() {
    let store = MemoryKeyStore::new();
    let mut st = state(EnrollmentStatus::PendingAdmin);
    let pull = |status: &str| EnrollPullResponse { status: status.into(), enroll_id: None, issued: issued(None, None, None) };
    apply_pull(&store, &mut st, pull("Pending")).unwrap();
    assert_eq!(st.status, EnrollmentStatus::PendingAdmin);
    let err = apply_pull(&store, &mut st, pull("bogus")).unwrap_err();
    assert_eq!(err.to_string(), "enrollment: unexpected enroll-pull status \"bogus\"");
    apply_pull(&store, &mut st, pull("DENIED")).unwrap();
    assert_eq!(st.status, EnrollmentStatus::Rejected);
}

#[test]
fn apply_pull_approved_reaches_active() {
    let store = MemoryKeyStore::new();
    let (ski, x) = local_key(&store);
    let mut st = state(EnrollmentStatus::PendingAdmin);
    let res = EnrollPullResponse {
        status: "approved".into(),
        enroll_id: None,
        issued: issued(Some(credential(&ski, &x)), None, None),
    };
    apply_pull(&store, &mut st, res).unwrap();
    assert_eq!(st.status, EnrollmentStatus::Active);
    assert_eq!(st.cert_expires_at.as_deref(), Some("2027-01-01T00:00:00Z"));
    assert!(store.has_key(keys::CREDENTIAL).unwrap());
}

#[test]
fn last_block_of_a_chain() {
    let chain = "-----BEGIN CERTIFICATE-----\r\nA\r\n-----END CERTIFICATE-----\r\n-----BEGIN CERTIFICATE-----\nB\n-----END CERTIFICATE-----";
    assert_eq!(last_pem_block(chain).as_deref(), Some("-----BEGIN CERTIFICATE-----\nB\n-----END CERTIFICATE-----\n"));
    assert_eq!(last_pem_block("no blocks"), None);
    assert_eq!(last_pem_block("-----BEGIN X-----\nunterminated\n"), None);
}

#[test]
fn enroll_preflight_checks() {
    let params = |algo: KeyAlgo| EnrollParams {
        entity_id: "acme.com".into(),
        machine_name: "db1".into(),
        kind: MachineKind::Target,
        key_algo: algo,
        wait: false,
        wait_interval_secs: 5,
        separator: "--".into(),
        instant: false,
        invite_token: None,
    };
    let err = enroll_preflight(&params(KeyAlgo::P256), None).unwrap_err();
    assert_eq!(err.to_string(), "unsupported: p256 keys are not implemented yet (use ed25519)");
    let active = state(EnrollmentStatus::Active);
    let err = enroll_preflight(&params(KeyAlgo::Ed25519), Some(&active)).unwrap_err();
    assert!(err.to_string().contains("is already active"));
    let id = enroll_preflight(&params(KeyAlgo::Ed25519), Some(&state(EnrollmentStatus::Rejected))).unwrap();
    assert_eq!(id.as_str(), "db1--acme.com");
    let fresh = new_machine_state(&id, "ski1", "t0".into(), MachineKind::Source);
    assert_eq!(fresh.status, EnrollmentStatus::KeyGenerated);
    assert_eq!(fresh.machine_identity, "db1--acme.com");
}

#[test]
fn enroll_answer_signed_cases() {
    assert!(enroll_answer_is_signed(Some("APPROVED"), false));
    assert!(enroll_answer_is_signed(None, true));
    assert!(!enroll_answer_is_signed(None, false));
    assert!(!enroll_answer_is_signed(Some("pending"), false));
}

#[test]
fn prepare_renewal_requires_active() {
    let store = MemoryKeyStore::new();
    save_state(&store, &state(EnrollmentStatus::PendingAdmin)).unwrap();
    let err = prepare_renewal(&store, || -> SdkResult<(String, String)> { panic!("no key expected") }, |_p: &str, _h: &str| -> SdkResult<String> { panic!("no csr expected") }).unwrap_err();
    assert!(err.to_string().contains("must be active"));
}

#[test]
fn prepare_renewal_writes_new_key_and_resumes() {
    let store = MemoryKeyStore::new();
    save_state(&store, &state(EnrollmentStatus::Active)).unwrap();
    let signing = SigningKey::from_bytes(&[5; 32]);
    let pem = signing.to_pkcs8_pem(pkcs8::LineEnding::LF).unwrap().to_string();
    let (_p, _u, ski) = jwks_from_private_pem(&pem).ok().unwrap();
    let pem2 = pem.clone();
    let ski2 = ski.clone();
    let (s1, new_ski, csr) = prepare_renewal(&store, move || Ok((pem2, ski2)), |_p: &str, host: &str| Ok(format!("CSR for {host}"))).unwrap();
    assert_eq!(s1.status, EnrollmentStatus::Renewing);
    assert_eq!(new_ski, ski);
    assert_eq!(csr, "CSR for db1--acme.com");
    assert!(store.has_key(keys::MACHINE_KEY_NEW).unwrap());
    let (s2, again, csr2) = prepare_renewal(&store, || -> SdkResult<(String, String)> { panic!("resume expected") }, |_p: &str, _h: &str| -> SdkResult<String> { panic!("resume expected") }).unwrap();
    assert_eq!(s2.status, EnrollmentStatus::Renewing);
    assert_eq!(again, ski);
    assert_eq!(csr2, csr);
}

#[test]
fn decommission_rules() {
    assert_eq!(decommission_check(&state(EnrollmentStatus::Active)).unwrap(), "oldski");
    let err = decommission_check(&state(EnrollmentStatus::PendingAdmin)).unwrap_err();
    assert_eq!(err.to_string(), "lifecycle: machine cannot be decommissioned from status pending_admin");
    let mut s = state(EnrollmentStatus::Renewing);
    mark_decommissioned(&mut s).unwrap();
    assert_eq!(s.status, EnrollmentStatus::Decommissioned);
    assert_eq!(s.pull_token, None);
    let store = MemoryKeyStore::new();
    store.save_string(keys::MACHINE_KEY, "k").unwrap();
    store.save_string(keys::STATE, "{}").unwrap();
    wipe_secrets(&store).unwrap();
    assert!(!store.has_key(keys::MACHINE_KEY).unwrap());
    assert!(store.has_key(keys::STATE).unwrap());
}

#[test]
fn admin_paths_and_packages() {
    assert_eq!(admin_ca_key("acme.com").unwrap(), "admin/acme.com/entity-ca.key");
    assert_eq!(admin_ca_cert("acme.com").unwrap(), "admin/acme.com/entity-ca.crt");
    assert_eq!(admin_ca_meta("acme.com").unwrap(), "admin/acme.com/entity-ca.json");
    assert_eq!(admin_ca_key("../x").unwrap_err().to_string(), "admin: illegal entity id \"../x\"");
    assert!(admin_ca_key("").is_err());
    assert_eq!(parse_package("Enterprise").unwrap(), EntityPackage::Enterprise);
    assert_eq!(parse_package("TEAM").unwrap_err().to_string(), "admin: package must be personal or enterprise, got team");
}

#[test]
fn fingerprint_is_sha256_hex() {
    assert_eq!(
        csr_fingerprint("abc"),
        "ba7816bf8f01cfea414140de5dae2223b00361a396177a9cb410ff61f20015ad"
    );
}

#[test]
fn requester_and_ids_from_extra() {
    let mut it = item("", "h");
    it.enroll_id = None;
    it.extra = vec![("id".into(), JsonValue::Str("e9".into())), ("createdBy".into(), obj("{\"n\":1}"))];
    assert_eq!(enrollment_id(&it).unwrap(), "e9");
    assert_eq!(requester_label(&it).as_deref(), Some("{\"n\":1}"));
    it.extra.insert(0, ("requester".into(), JsonValue::Str("alice".into())));
    assert_eq!(requester_label(&it).as_deref(), Some("alice"));
    let empty = item("", "h");
    assert_eq!(enrollment_id(&empty).unwrap_err().to_string(), "admin: enrollment is missing enrollId");
}

#[test]
fn approval_checks_cases() {
    let mut it = item("e1", "db1--acme.com");
    it.csr_pem = Some("csr".into());
    assert_eq!(approval_checks(&it, "ski", "acme.com").unwrap(), ("e1".to_string(), "acme.com".to_string()));
    it.ski = Some("other".into());
    assert!(approval_checks(&it, "ski", "acme.com").unwrap_err().to_string().contains("does not match CSR thumbprint"));
    it.ski = None;
    assert!(approval_checks(&it, "ski", "other.org").unwrap_err().to_string().contains("does not match Entity CA"));
    it.csr_pem = None;
    assert_eq!(approval_checks(&it, "ski", "acme.com").unwrap_err().to_string(), "admin: enrollment e1 has no csrPem");
}

#[test]
fn org_inference() {
    assert_eq!(infer_entity_id(Some(" Acme.COM "), vec![]).unwrap(), "acme.com");
    assert!(infer_entity_id(Some("  "), vec![]).is_err());
    assert_eq!(infer_entity_id(None, vec!["Only.Org".into()]).unwrap(), "only.org");
    assert_eq!(
        infer_entity_id(None, vec![]).unwrap_err().to_string(),
        "admin: pass --org <entity-id> (no Entity CA in this state dir)"
    );
    assert_eq!(
        infer_entity_id(None, vec!["b.org".into(), "a.org".into()]).unwrap_err().to_string(),
        "admin: pass --org <entity-id> (multiple orgs in state dir: a.org, b.org)"
    );
}

#[test]
fn leaf_names() {
    assert_eq!(leaf_machine_name(Some("db1--acme.com"), "--", "ski"), "db1");
    assert_eq!(leaf_machine_name(Some("plainhost"), "--", "ski"), "plainhost");
    assert_eq!(leaf_machine_name(None, "--", "ski"), "ski");
}

#[test]
fn permission_profiles() {
    let root = root_admin_permissions();
    assert_eq!(root.len(), 9);
    assert_eq!(root[0].action, "admin.invite");
    assert_eq!(render_json(&root[7].scope), "{\"service\":[\"*\"]}");
    assert_eq!(personal_root_permissions().len(), 6);
    assert_eq!(kickstart_permissions("PERSONAL").len(), 6);
    assert_eq!(kickstart_permissions("enterprise").len(), 9);
    let m = default_machine_permissions("db1");
    assert_eq!(render_json(&m[0].scope), "{\"name\":\"db1\"}");
}

#[test]
fn entity_scope_binding() {
    let caps = vec![
        Capability { action: "a".into(), scope: obj("{\"name\":\"x\",\"entity\":\"old\"}"), delegable: true, effect: None },
        Capability { action: "b".into(), scope: obj("{}"), delegable: false, effect: Some("deny".into()) },
        Capability { action: "c".into(), scope: obj("\"raw\""), delegable: true, effect: None },
    ];
    let out = with_entity_scope(caps, "acme.com");
    assert_eq!(render_json(&out[0].scope), "{\"name\":\"x\",\"entity\":\"acme.com\"}");
    assert_eq!(render_json(&out[1].scope), "{\"entity\":\"acme.com\"}");
    assert_eq!(render_json(&out[2].scope), "{\"entity\":\"acme.com\",\"value\":\"raw\"}");
    assert_eq!(out[1].effect.as_deref(), Some("deny"));
    assert_eq!(out[2].action, "c");
}

#[test]
fn canonical_payload_key_order_matches_ts() {
    let cred = credential("ski1", "xx");
    let json = String::from_utf8(canonical_credential_payload(&cred).unwrap()).unwrap();
    let version = json.find("\"version\"").unwrap();
    let kind = json.find("\"kind\"").unwrap();
    let entity = json.find("\"entityId\"").unwrap();
    let package = json.find("\"package\"").unwrap();
    assert!(version < kind && kind < entity && entity < package);
    assert!(json.contains("\"zone\":null"));
    assert!(json.starts_with("{\"version\":1,\"kind\":\"machine\",\"entityId\":\"acme.com\",\"ski\":\"ski1\""));
    assert!(json.ends_with(",\"package\":null}"));
    assert_eq!(CredentialKind::RootAdmin.as_str(), "root_admin");
}

#[test]
fn kickstart_keyed_needs_all_fields() {
    let req = KickstartRequest {
        entity_id: "smoke.test".into(),
        package: "enterprise".into(),
        root_public_jwk: Some(obj("{\"kty\":\"OKP\"}")),
        admin_public_jwk: Some(obj("{\"kty\":\"OKP\"}")),
        root_credential: None,
        admin_credential: None,
        ca_cert_pem: Some("-----BEGIN CERTIFICATE-----\n".into()),
    };
    assert!(!req.is_client_keyed());
}

#[test]
fn version_and_identity_roundtrip() {
    assert_eq!(sdk_version(), "0.1.0");
    let id = MachineIdentity::new("db1", "acme.com", "--").unwrap();
    assert_eq!(MachineIdentity::parse(&id.as_str(), "--").unwrap(), id);
}
