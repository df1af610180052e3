use base64::engine::general_purpose::{STANDARD, URL_SAFE_NO_PAD};
use base64::Engine;
use ed25519_dalek::pkcs8::EncodePrivateKey;
use ed25519_dalek::{Signer, SigningKey};
use rcgen::{CertificateParams, KeyPair, RemoteKeyPair, SignatureAlgorithm, PKCS_ED25519};
use two_key_core::mtls::der::{parse_ed25519_csr, pem_to_der, read_tlv};
use two_key_core::mtls::{
    chain_pem, jwks_from_private_pem, public_jwk_from_csr_pem, signing_seed_from_jwk,
    ski_from_public_jwk_parts, ski_san_uri, to_hex, verified_csr_public_key,
    verify_ed25519_cert_against_issuer, MtlsError, SignedClientCert,
};
use two_key_core::crypto_ffi::{ffi_sign_json_b64url_json, ffi_verify_ed25519_cert_json};
use two_key_core::json::{parse_json, JsonValue};

struct DalekKey {
    signing: SigningKey,
    public: Vec<u8>,
}

impl RemoteKeyPair for DalekKey {
    fn public_key(&self) -> &[u8] {
        &self.public
    }
    fn sign(&self, msg: &[u8]) -> Result<Vec<u8>, rcgen::Error> {
        Ok(self.signing.sign(msg).to_bytes().to_vec())
    }
    fn algorithm(&self) -> &'static SignatureAlgorithm {
        &PKCS_ED25519
    }
}

fn key_pair(seed: u8) -> KeyPair {
    let signing = SigningKey::from_bytes(&[seed; 32]);
    let public = signing.verifying_key().to_bytes().to_vec();
    KeyPair::from_remote(Box::new(DalekKey { signing, public })).unwrap()
}

fn self_signed(seed: u8, cn: &str) -> String {
    let mut params = CertificateParams::new(Vec::<String>::new()).unwrap();
    params.distinguished_name.push(rcgen::DnType::CommonName, cn);
    params.serial_number = Some(rcgen::SerialNumber::from(seed as u64));
    params.self_signed(&key_pair(seed)).unwrap().pem()
}

fn csr(seed: u8) -> String {
    let params = CertificateParams::new(vec!["db1--acme.com".to_string()]).unwrap();
    params.serialize_request(&key_pair(seed)).unwrap().pem().unwrap()
}

fn pem_of(label: &str, der: &[u8]) -> String {
    format!("-----BEGIN {label}-----\n{}\n-----END {label}-----\n", STANDARD.encode(der))
}

#[test]
fn tlv_short_and_long_forms() {
    let (tag, h, total) = read_tlv(&[0x30, 0x02, 0xaa, 0xbb, 0xcc]).ok().unwrap();
    assert_eq!((tag, h, total), (0x30, 2, 4));
    let mut long = vec![0x04, 0x82, 0x01, 0x00];
    long.extend(std::iter::repeat(7u8).take(256));
    let (tag, h, total) = read_tlv(&long).ok().unwrap();
    assert_eq!((tag, h, total), (0x04, 4, 260));
}

#[test]
fn tlv_errors() {
    let msg = |r: Result<(u8, usize, usize), MtlsError>| match r {
        Err(MtlsError::Pem(m)) => m,
        other => panic!("unexpected {other:?}"),
    };
    assert_eq!(msg(read_tlv(&[0x30])), "truncated DER TLV");
    assert_eq!(msg(read_tlv(&[0x30, 0x05, 0x00])), "truncated DER value");
    assert_eq!(msg(read_tlv(&[0x30, 0x80])), "invalid DER length");
    assert_eq!(msg(read_tlv(&[0x30, 0x85, 1, 2, 3, 4, 5])), "invalid DER length");
    assert_eq!(msg(read_tlv(&[0x30, 0x82, 0x01])), "invalid DER length");
}

#[test]
fn pem_markers_and_base64() {
    let der = pem_to_der("junk\n-----BEGIN X-----\nAQID\nBA==\n-----END X-----\n", "X").ok().unwrap();
    assert_eq!(der, vec![1, 2, 3, 4]);
    match pem_to_der("no markers", "X") {
        Err(MtlsError::Pem(m)) => assert_eq!(m, "missing -----BEGIN X-----"),
        other => panic!("{other:?}"),
    }
    match pem_to_der("-----BEGIN X-----\nAQID", "X") {
        Err(MtlsError::Pem(m)) => assert_eq!(m, "missing -----END X-----"),
        other => panic!("{other:?}"),
    }
    assert!(matches!(pem_to_der("-----BEGIN X-----\n!!\n-----END X-----", "X"), Err(MtlsError::Base64(_))));
}

#[test]
fn rcgen_csr_parses_and_verifies() {
    let pem = csr(11);
    let (cri, key, sig) = parse_ed25519_csr(&pem).ok().unwrap();
    assert_eq!(key, SigningKey::from_bytes(&[11; 32]).verifying_key().to_bytes().to_vec());
    assert_eq!(sig.len(), 64);
    assert_eq!(cri[0], 0x30);
    assert_eq!(verified_csr_public_key(&pem).ok().unwrap(), key);
}

#[test]
fn tampered_csr_fails_verification() {
    let pem = csr(12);
    let der = pem_to_der(&pem, "CERTIFICATE REQUEST").ok().unwrap();
    let mut bad = der.clone();
    let n = bad.len();
    bad[n - 1] ^= 0x01;
    match verified_csr_public_key(&pem_of("CERTIFICATE REQUEST", &bad)) {
        Err(MtlsError::Rcgen(m)) => assert_eq!(m, "CSR signature verification failed"),
        other => panic!("{other:?}"),
    }
}

#[test]
fn csr_shape_errors() {
    match parse_ed25519_csr(&pem_of("CERTIFICATE REQUEST", &[0x31, 0x00])) {
        Err(MtlsError::Pem(m)) => assert_eq!(m, "CSR is not a single DER SEQUENCE"),
        other => panic!("{other:?}"),
    }
    match parse_ed25519_csr(&pem_of("CERTIFICATE REQUEST", &[0x30, 0x02, 0x02, 0x00])) {
        Err(MtlsError::Pem(m)) => assert_eq!(m, "CSR missing certificationRequestInfo"),
        other => panic!("{other:?}"),
    }
}

#[test]
fn self_signed_certificate_verifies_against_itself_only() {
    let ca = self_signed(21, "DP Test CA");
    let other = self_signed(22, "Other Root");
    assert_eq!(verify_ed25519_cert_against_issuer(&ca, &ca).ok(), Some(true));
    assert_eq!(verify_ed25519_cert_against_issuer(&ca, &other).ok(), Some(false));
    assert!(verify_ed25519_cert_against_issuer("not a cert", &ca).is_err());
}

#[test]
fn hex_and_ski() {
    assert_eq!(to_hex(&[0x00, 0x0f, 0xa5, 0xff]), "000fa5ff");
    let ski = ski_from_public_jwk_parts("OKP", "Ed25519", "abc");
    assert_eq!(ski.len(), 32);
    assert!(ski.chars().all(|c| c.is_ascii_hexdigit() && !c.is_ascii_uppercase()));
    assert_ne!(ski, ski_from_public_jwk_parts("OKP", "Ed25519", "abd"));
}

#[test]
fn san_uri_and_chain() {
    assert_eq!(ski_san_uri("abc"), "urn:dp:ski:abc");
    assert_eq!(chain_pem("LEAF", "CA"), "LEAF\nCA\n");
    assert_eq!(chain_pem("LEAF\n", "CA\n"), "LEAF\nCA\n");
    let s = SignedClientCert::with_chain("L".into(), "C");
    assert_eq!(s.chain_pem, "L\nC\n");
}

#[test]
fn private_pem_gives_the_same_ski_as_its_csr() {
    let signing = SigningKey::from_bytes(&[31; 32]);
    let pem = signing.to_pkcs8_pem(pkcs8::LineEnding::LF).unwrap().to_string();
    let (private_jwk, public_jwk, ski) = jwks_from_private_pem(&pem).ok().unwrap();
    let x = URL_SAFE_NO_PAD.encode(signing.verifying_key().to_bytes());
    assert_eq!(ski, ski_from_public_jwk_parts("OKP", "Ed25519", &x));
    let (csr_jwk, csr_ski) = public_jwk_from_csr_pem(&csr(31)).ok().unwrap();
    assert_eq!(csr_ski, ski);
    assert!(matches!(public_jwk, JsonValue::Object(ref m) if m.len() == 5));
    assert!(matches!(csr_jwk, JsonValue::Object(ref m) if m.len() == 5));
    let seed = signing_seed_from_jwk(&private_jwk).ok().unwrap();
    assert_eq!(seed, vec![31u8; 32]);
    assert!(matches!(jwks_from_private_pem("nope"), Err(MtlsError::Pkcs8(_))));
}

#[test]
fn seed_from_jwk_errors() {
    let missing = parse_json(b"{\"x\":\"abc\"}").unwrap();
    assert!(matches!(signing_seed_from_jwk(&missing), Err(MtlsError::MissingPrivateKey)));
    let bad = parse_json(b"{\"d\":\"!!\"}").unwrap();
    assert!(matches!(signing_seed_from_jwk(&bad), Err(MtlsError::Base64(_))));
    let short = parse_json(b"{\"d\":\"AAAA\"}").unwrap();
    assert!(matches!(signing_seed_from_jwk(&short), Err(MtlsError::BadKeyLength)));
}

#[test]
fn error_messages() {
    assert_eq!(MtlsError::MissingPrivateKey.to_string(), "private JWK missing Ed25519 d parameter");
    assert_eq!(MtlsError::Pem("x".into()).to_string(), "pem parse failed: x");
}

#[test]
fn crypto_json_verify_and_sign() {
    let ca = self_signed(23, "JSON CA");
    let input = format!(
        "{{\"leafPem\":{},\"issuerPem\":{}}}",
        two_key_core::json::json_string(&ca),
        two_key_core::json::json_string(&ca)
    );
    assert_eq!(ffi_verify_ed25519_cert_json(input), "{\"ok\":true,\"data\":{\"valid\":true}}");
    assert_eq!(
        ffi_verify_ed25519_cert_json("{}".into()),
        "{\"ok\":false,\"code\":\"crypto\",\"message\":\"leafPem is required\"}"
    );
    assert!(ffi_verify_ed25519_cert_json("nope".into()).contains("invalid input JSON: "));

    let signing = SigningKey::from_bytes(&[24; 32]);
    let pem = signing.to_pkcs8_pem(pkcs8::LineEnding::LF).unwrap().to_string();
    let input = format!(
        "{{\"privatePem\":{},\"payloadJson\":\"{{}}\"}}",
        two_key_core::json::json_string(&pem)
    );
    let expected = URL_SAFE_NO_PAD.encode(signing.sign(b"{}").to_bytes());
    assert_eq!(
        ffi_sign_json_b64url_json(input),
        format!("{{\"ok\":true,\"data\":{{\"signature\":\"{expected}\"}}}}")
    );
}
