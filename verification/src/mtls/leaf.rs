//! Client leaf certificates signed with an Entity CA: what a leaf certifies
//! is decided here from the trusted parameters, and `rcgen` writes and signs
//! the certificate.

use vstd::prelude::*;
use crate::entity_ca::private_pem_from_jwk;
use crate::models::view_opt;
use crate::mtls::der::{csr_pem_spec, is_failure};
use crate::mtls::{
    csr_check_spec, seed_spec, ski_san_uri, verified_csr_public_key, with_newline,
    MtlsError, SignClientCertFromCsrParams, SignedClientCert,
};
use crate::text::copy_string;

verus! {

#[verifier::external_type_specification]
#[verifier::external_body]
pub struct ExCertificateParams(rcgen::CertificateParams);

#[verifier::external_type_specification]
#[verifier::external_body]
pub struct ExCertificate(rcgen::Certificate);

#[verifier::external_type_specification]
#[verifier::external_body]
pub struct ExKeyPair(rcgen::KeyPair);

#[verifier::external_type_specification]
#[verifier::external_body]
pub struct ExSubjectPublicKeyInfo(rcgen::SubjectPublicKeyInfo);

/// A key usage a certificate grants.
#[derive(Clone, Copy, Debug, PartialEq, Eq, Structural)]
pub enum CertKeyUsage {
    DigitalSignature,
    KeyAgreement,
    KeyCertSign,
    CrlSign,
}

/// What a certificate certifies: its subject's common name, its URI and DNS
/// names, whether it is a CA, its key usages, whether it is for TLS client
/// authentication, how many days from now it is valid (`rcgen`'s default
/// validity without), and its serial number (random without).
#[derive(Debug)]
pub struct CertSpec {
    pub common_name: String,
    pub san_uri: Option<String>,
    pub dns_name: Option<String>,
    pub is_ca: bool,
    pub key_usages: Vec<CertKeyUsage>,
    pub client_auth: bool,
    pub validity_days: Option<i64>,
    pub serial: Option<u64>,
}

/// The days a client leaf is valid when none are asked for.
pub open spec fn default_leaf_days() -> i64 {
    365
}

/// The leaf for a device key: named by its key id (subject and SAN URI),
/// with the host as DNS name, a client-authentication end entity for
/// digital signature and key agreement, valid for the days asked or 365.
pub fn client_leaf_spec(ski: &str, host: Option<&str>, not_after_days: Option<i64>) -> (r: CertSpec)
    ensures
        r.common_name@ == ski@,
        r.san_uri matches Some(u) && u@ == "urn:dp:ski:"@ + ski@,
        view_opt(r.dns_name) == match host {
            Some(h) => Some(h@),
            None => None::<Seq<char>>,
        },
        !r.is_ca,
        r.key_usages@ == seq![CertKeyUsage::DigitalSignature, CertKeyUsage::KeyAgreement],
        r.client_auth,
        r.validity_days == Some(
            match not_after_days {
                Some(d) => d,
                None => default_leaf_days(),
            },
        ),
        r.serial is None,
{
    let dns_name = match host {
        Some(h) => Some(copy_string(h)),
        None => None,
    };
    let days: i64 = match not_after_days {
        Some(d) => d,
        None => 365,
    };
    CertSpec {
        common_name: copy_string(ski),
        san_uri: Some(ski_san_uri(ski)),
        dns_name,
        is_ca: false,
        key_usages: vec![CertKeyUsage::DigitalSignature, CertKeyUsage::KeyAgreement],
        client_auth: true,
        validity_days: Some(days),
        serial: None,
    }
}

/// The issuer certificate that a leaf is signed under: the Entity CA's
/// name, an unconstrained CA for certificate and CRL signing, ten years.
pub fn issuer_spec(ca_common_name: &str) -> (r: CertSpec)
    ensures
        r.common_name@ == ca_common_name@,
        r.san_uri is None,
        r.dns_name is None,
        r.is_ca,
        r.key_usages@ == seq![CertKeyUsage::KeyCertSign, CertKeyUsage::CrlSign],
        !r.client_auth,
        r.validity_days == Some(3650i64),
        r.serial is None,
{
    CertSpec {
        common_name: copy_string(ca_common_name),
        san_uri: None,
        dns_name: None,
        is_ca: true,
        key_usages: vec![CertKeyUsage::KeyCertSign, CertKeyUsage::CrlSign],
        client_auth: false,
        validity_days: Some(3650),
        serial: None,
    }
}

/// The DER SubjectPublicKeyInfo of an Ed25519 public key (RFC 8410): the
/// fixed algorithm header, then the 32 key bytes.
pub open spec fn ed25519_spki_spec(key: Seq<u8>) -> Seq<u8> {
    seq![0x30u8, 0x2au8, 0x30u8, 0x05u8, 0x06u8, 0x03u8, 0x2bu8, 0x65u8, 0x70u8, 0x03u8, 0x21u8, 0x00u8] + key
}

/// Builds [`ed25519_spki_spec`].
pub fn ed25519_spki(key: &[u8]) -> (r: Vec<u8>)
    ensures
        r@ == ed25519_spki_spec(key@),
{
    let mut out: Vec<u8> = vec![0x30u8, 0x2au8, 0x30u8, 0x05u8, 0x06u8, 0x03u8, 0x2bu8, 0x65u8, 0x70u8, 0x03u8, 0x21u8, 0x00u8];
    let ghost head = out@;
    let mut i: usize = 0;
    while i < key.len()
        invariant
            i <= key@.len(),
            out@ == head + key@.subrange(0, i as int),
        decreases key.len() - i,
    {
        out.push(key[i]);
        i += 1;
        assert(out@ =~= head + key@.subrange(0, i as int));
    }
    assert(key@.subrange(0, key@.len() as int) =~= key@);
    out
}

/// `CertificateParams::default()` with the subject's common name set.
#[verifier::external_body]
fn params_named(common_name: &str) -> rcgen::CertificateParams {
    let mut p = rcgen::CertificateParams::default();
    p.distinguished_name = rcgen::DistinguishedName::new();
    p.distinguished_name.push(rcgen::DnType::CommonName, common_name);
    p
}

/// Sets `is_ca`: unconstrained CA, or an end entity.
#[verifier::external_body]
fn set_is_ca(p: &mut rcgen::CertificateParams, is_ca: bool) {
    p.is_ca = match is_ca {
        true => rcgen::IsCa::Ca(rcgen::BasicConstraints::Unconstrained),
        false => rcgen::IsCa::NoCa,
    };
}

/// Appends a key usage.
#[verifier::external_body]
fn add_key_usage(p: &mut rcgen::CertificateParams, u: CertKeyUsage) {
    p.key_usages.push(match u {
        CertKeyUsage::DigitalSignature => rcgen::KeyUsagePurpose::DigitalSignature,
        CertKeyUsage::KeyAgreement => rcgen::KeyUsagePurpose::KeyAgreement,
        CertKeyUsage::KeyCertSign => rcgen::KeyUsagePurpose::KeyCertSign,
        CertKeyUsage::CrlSign => rcgen::KeyUsagePurpose::CrlSign,
    });
}

/// Appends the TLS client-authentication extended key usage.
#[verifier::external_body]
fn add_client_auth(p: &mut rcgen::CertificateParams) {
    p.extended_key_usages.push(rcgen::ExtendedKeyUsagePurpose::ClientAuth);
}

/// Appends a URI subject alternative name; `Err` when it is not IA5 text.
#[verifier::external_body]
fn add_san_uri(p: &mut rcgen::CertificateParams, uri: &str) -> Result<(), String> {
    let name = rcgen::Ia5String::try_from(uri).map_err(|e| e.to_string())?;
    p.subject_alt_names.push(rcgen::SanType::URI(name));
    Ok(())
}

/// Appends a DNS subject alternative name; `Err` when it is not IA5 text.
#[verifier::external_body]
fn add_san_dns(p: &mut rcgen::CertificateParams, dns: &str) -> Result<(), String> {
    let name = rcgen::Ia5String::try_from(dns).map_err(|e| e.to_string())?;
    p.subject_alt_names.push(rcgen::SanType::DnsName(name));
    Ok(())
}

/// Valid from now (the system clock) for `days` days; `Err` when the end
/// falls outside the dates `time` represents.
#[verifier::external_body]
fn set_validity_from_now(p: &mut rcgen::CertificateParams, days: i64) -> Result<(), String>
    requires
        -1_000_000_000 <= days <= 1_000_000_000,
{
    let now = time::OffsetDateTime::now_utc();
    p.not_before = now;
    p.not_after = now.checked_add(time::Duration::days(days)).ok_or_else(|| "validity out of range".to_string())?;
    Ok(())
}

/// A serial number of 16 random bytes from the operating system.
#[verifier::external_body]
fn set_random_serial(p: &mut rcgen::CertificateParams) {
    let bytes: [u8; 16] = rand::random();
    p.serial_number = Some(rcgen::SerialNumber::from_slice(&bytes));
}

/// `KeyPair::from_pkcs8_pem_and_sign_algo` for an Ed25519 PKCS#8 PEM.
#[verifier::external_body]
fn ed25519_key_pair(pkcs8_pem: &str) -> Result<rcgen::KeyPair, String> {
    rcgen::KeyPair::from_pkcs8_pem_and_sign_algo(pkcs8_pem, &rcgen::PKCS_ED25519).map_err(|e| e.to_string())
}

/// `SubjectPublicKeyInfo::from_der`.
#[verifier::external_body]
fn public_key_info(spki_der: &[u8]) -> Result<rcgen::SubjectPublicKeyInfo, String> {
    rcgen::SubjectPublicKeyInfo::from_der(spki_der).map_err(|e| e.to_string())
}

/// `CertificateParams::self_signed`.
#[verifier::external_body]
fn self_signed(p: rcgen::CertificateParams, key: &rcgen::KeyPair) -> Result<rcgen::Certificate, String> {
    p.self_signed(key).map_err(|e| e.to_string())
}

/// `CertificateParams::signed_by`, then the certificate's PEM.
#[verifier::external_body]
fn signed_by_pem(
    p: rcgen::CertificateParams,
    subject: &rcgen::SubjectPublicKeyInfo,
    issuer: &rcgen::Certificate,
    issuer_key: &rcgen::KeyPair,
) -> Result<String, String> {
    p.signed_by(subject, issuer, issuer_key).map(|c| c.pem()).map_err(|e| e.to_string())
}

/// Sets the serial number.
#[verifier::external_body]
fn set_serial(p: &mut rcgen::CertificateParams, serial: u64) {
    p.serial_number = Some(rcgen::SerialNumber::from(serial));
}

/// The certificate parameters for a spec: those of [`request_params_for`],
/// and the spec's serial (a random one when it names none).
fn params_for(spec: &CertSpec) -> (r: Result<rcgen::CertificateParams, MtlsError>)
    requires
        spec.validity_days matches Some(d) ==> -1_000_000_000 <= d <= 1_000_000_000,
{
    let mut p = request_params_for(spec)?;
    match spec.serial {
        Some(s) => set_serial(&mut p, s),
        None => set_random_serial(&mut p),
    }
    Ok(p)
}

/// The parameters for a spec without a serial (a request carries none):
/// its name, CA flag, key usages, client authentication, names and validity.
fn request_params_for(spec: &CertSpec) -> (r: Result<rcgen::CertificateParams, MtlsError>)
    requires
        spec.validity_days matches Some(d) ==> -1_000_000_000 <= d <= 1_000_000_000,
{
    let mut p = params_named(spec.common_name.as_str());
    set_is_ca(&mut p, spec.is_ca);
    let mut i: usize = 0;
    while i < spec.key_usages.len()
        decreases spec.key_usages.len() - i,
    {
        add_key_usage(&mut p, spec.key_usages[i]);
        i += 1;
    }
    if spec.client_auth {
        add_client_auth(&mut p);
    }
    match &spec.san_uri {
        Some(u) => {
            match add_san_uri(&mut p, u.as_str()) {
                Ok(()) => {},
                Err(m) => return Err(MtlsError::Rcgen(m)),
            }
        },
        None => {},
    }
    match &spec.dns_name {
        Some(d) => {
            match add_san_dns(&mut p, d.as_str()) {
                Ok(()) => {},
                Err(m) => return Err(MtlsError::Rcgen(m)),
            }
        },
        None => {},
    }
    match spec.validity_days {
        Some(d) => match set_validity_from_now(&mut p, d) {
            Ok(()) => {},
            Err(m) => return Err(MtlsError::Rcgen(m)),
        },
        None => {},
    }
    Ok(p)
}

/// Signs a device CSR with the Entity CA: the CSR must parse and carry a
/// valid self-signature, and the CA's private JWK an Ed25519 seed; the leaf
/// certifies the CSR's key under the trusted key id and host of the
/// parameters (see [`client_leaf_spec`]) and is delivered with the chain
/// (the leaf, then the CA certificate).
pub fn sign_client_cert_from_csr(params: SignClientCertFromCsrParams) -> (r: Result<SignedClientCert, MtlsError>)
    requires
        params.not_after_days matches Some(d) ==> -1_000_000_000 <= d <= 1_000_000_000,
    ensures
        match csr_check_spec(params.csr_pem@) {
            Err(0) => csr_pem_spec(params.csr_pem@) matches Err(f) && r matches Err(e) && is_failure(e, f),
            Err(1) => r matches Err(MtlsError::Rcgen(m)) && m@.len() >= 24 && m@.subrange(0, 24)
                == "invalid CSR public key: "@,
            Err(_) => r matches Err(MtlsError::Rcgen(m)) && m@ == "CSR signature verification failed"@,
            Ok(_) => match seed_spec(params.ca_private_jwk) {
                Err(0) => r matches Err(MtlsError::MissingPrivateKey),
                Err(1) => r matches Err(MtlsError::Base64(_)),
                Err(_) => r matches Err(MtlsError::BadKeyLength),
                Ok(_) => true,
            },
        },
        r matches Ok(c) ==> c.chain_pem@ == with_newline(with_newline(c.leaf_pem@) + params.ca_cert_pem@),
{
    let device_key = verified_csr_public_key(params.csr_pem.as_str())?;
    let ca_pem = private_pem_from_jwk(&params.ca_private_jwk)?;
    let ca_key = match ed25519_key_pair(ca_pem.as_str()) {
        Ok(k) => k,
        Err(m) => return Err(MtlsError::Rcgen(m)),
    };
    let issuer = issuer_spec(params.ca_common_name.as_str());
    let issuer_params = params_for(&issuer)?;
    let issuer_cert = match self_signed(issuer_params, &ca_key) {
        Ok(c) => c,
        Err(m) => return Err(MtlsError::Rcgen(m)),
    };
    let subject = match public_key_info(ed25519_spki(device_key.as_slice()).as_slice()) {
        Ok(s) => s,
        Err(m) => return Err(MtlsError::Rcgen(m)),
    };
    let host = match &params.host {
        Some(h) => Some(h.as_str()),
        None => None,
    };
    let leaf = client_leaf_spec(params.ski.as_str(), host, params.not_after_days);
    let leaf_params = params_for(&leaf)?;
    let leaf_pem = match signed_by_pem(leaf_params, &subject, &issuer_cert, &ca_key) {
        Ok(p) => p,
        Err(m) => return Err(MtlsError::Rcgen(m)),
    };
    Ok(SignedClientCert::with_chain(leaf_pem, params.ca_cert_pem.as_str()))
}

/// A self-signed development certificate for a device key: named by the
/// key id (subject and SAN URI), a client-authentication end entity for
/// digital signature, serial 1, `rcgen`'s default validity.
pub fn dev_cert_spec(ski: &str) -> (r: CertSpec)
    ensures
        r.common_name@ == ski@,
        r.san_uri matches Some(u) && u@ == "urn:dp:ski:"@ + ski@,
        r.dns_name is None,
        !r.is_ca,
        r.key_usages@ == seq![CertKeyUsage::DigitalSignature],
        r.client_auth,
        r.validity_days is None,
        r.serial == Some(1u64),
{
    CertSpec {
        common_name: copy_string(ski),
        san_uri: Some(ski_san_uri(ski)),
        dns_name: None,
        is_ca: false,
        key_usages: vec![CertKeyUsage::DigitalSignature],
        client_auth: true,
        validity_days: None,
        serial: Some(1),
    }
}

/// A self-signed development client certificate (see [`dev_cert_spec`])
/// for the Ed25519 key in a PKCS#8 PEM; `Pkcs8` when the PEM holds no such
/// key.
pub fn mint_self_signed(ski: &str, key_pem: &str) -> (r: Result<String, MtlsError>)
    ensures
        crate::mtls::pkcs8_pem_seed(key_pem@) is None ==> r matches Err(MtlsError::Pkcs8(_)),
{
    match crate::mtls::seed_from_pkcs8_pem(key_pem) {
        Ok(_) => {},
        Err(e) => return Err(MtlsError::Pkcs8(e)),
    }
    let key = match ed25519_key_pair(key_pem) {
        Ok(k) => k,
        Err(m) => return Err(MtlsError::Rcgen(m)),
    };
    let spec = dev_cert_spec(ski);
    let params = params_for(&spec)?;
    match self_signed(params, &key) {
        Ok(c) => Ok(certificate_pem(&c)),
        Err(m) => Err(MtlsError::Rcgen(m)),
    }
}

/// A self-signed Entity CA certificate (see [`issuer_spec`]) named
/// `common_name`, for the Ed25519 key in a PKCS#8 PEM; `Pkcs8` when the PEM
/// holds no such key.
pub fn self_signed_ca_pem(common_name: &str, key_pem: &str) -> (r: Result<String, MtlsError>)
    ensures
        crate::mtls::pkcs8_pem_seed(key_pem@) is None ==> r matches Err(MtlsError::Pkcs8(_)),
{
    match crate::mtls::seed_from_pkcs8_pem(key_pem) {
        Ok(_) => {},
        Err(e) => return Err(MtlsError::Pkcs8(e)),
    }
    let key = match ed25519_key_pair(key_pem) {
        Ok(k) => k,
        Err(m) => return Err(MtlsError::Rcgen(m)),
    };
    let spec = issuer_spec(common_name);
    let params = params_for(&spec)?;
    match self_signed(params, &key) {
        Ok(c) => Ok(certificate_pem(&c)),
        Err(m) => Err(MtlsError::Rcgen(m)),
    }
}

/// `Certificate::pem`.
#[verifier::external_body]
fn certificate_pem(c: &rcgen::Certificate) -> String {
    c.pem()
}

/// The request for a device key: the common name, the host as DNS name,
/// the key id as SAN URI, a client-authentication end entity for digital
/// signature and key agreement.
pub fn csr_spec(ski: &str, common_name: &str, host: &str) -> (r: CertSpec)
    ensures
        r.common_name@ == common_name@,
        r.san_uri matches Some(u) && u@ == "urn:dp:ski:"@ + ski@,
        r.dns_name matches Some(d) && d@ == host@,
        !r.is_ca,
        r.key_usages@ == seq![CertKeyUsage::DigitalSignature, CertKeyUsage::KeyAgreement],
        r.client_auth,
        r.validity_days is None,
        r.serial is None,
{
    CertSpec {
        common_name: copy_string(common_name),
        san_uri: Some(ski_san_uri(ski)),
        dns_name: Some(copy_string(host)),
        is_ca: false,
        key_usages: vec![CertKeyUsage::DigitalSignature, CertKeyUsage::KeyAgreement],
        client_auth: true,
        validity_days: None,
        serial: None,
    }
}

/// `CertificateParams::serialize_request`, then the request's PEM.
#[verifier::external_body]
fn request_pem(p: rcgen::CertificateParams, key: &rcgen::KeyPair) -> Result<String, String> {
    p.serialize_request(key).and_then(|c| c.pem()).map_err(|e| e.to_string())
}

/// The CSR (see [`csr_spec`]) of the Ed25519 key in a PKCS#8 PEM, for the
/// machine identity `host` (also its common name); `Pkcs8` when the PEM
/// holds no such key.
pub fn build_csr_from_private_pem(private_pem: &str, host: &str) -> (r: Result<String, MtlsError>)
    ensures
        crate::mtls::pkcs8_pem_seed(private_pem@) is None ==> r matches Err(MtlsError::Pkcs8(_)),
{
    csr_from_private_pem(private_pem, host, host)
}

/// The CSR (see [`csr_spec`]) of the Ed25519 key in a PKCS#8 PEM with the
/// given common name and host; `Pkcs8` when the PEM holds no such key.
pub fn csr_from_private_pem(private_pem: &str, common_name: &str, host: &str) -> (r: Result<String, MtlsError>)
    ensures
        crate::mtls::pkcs8_pem_seed(private_pem@) is None ==> r matches Err(MtlsError::Pkcs8(_)),
{
    let (_p, _u, ski) = crate::mtls::jwks_from_private_pem(private_pem)?;
    let key = match ed25519_key_pair(private_pem) {
        Ok(k) => k,
        Err(m) => return Err(MtlsError::Rcgen(m)),
    };
    let spec = csr_spec(ski.as_str(), common_name, host);
    let params = request_params_for(&spec)?;
    match request_pem(params, &key) {
        Ok(p) => Ok(p),
        Err(m) => Err(MtlsError::Rcgen(m)),
    }
}

} // verus!
