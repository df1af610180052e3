//! PEM client material for a TLS stack: certificates and the PKCS#8 key as
//! DER, read with `rustls-pemfile`.

use vstd::prelude::*;
use crate::mtls::{MtlsClientMaterial, MtlsError};
use crate::text::{chars_of, string_of};

verus! {

/// The DER certificates `rustls_pemfile::certs` reads from `pem`, in order,
/// or `None` when it reports an error.
pub uninterp spec fn pem_cert_ders(pem: Seq<char>) -> Option<Seq<Seq<u8>>>;

/// The DER PKCS#8 keys `rustls_pemfile::pkcs8_private_keys` reads from
/// `pem`, in order, or `None` when it reports an error.
pub uninterp spec fn pem_pkcs8_ders(pem: Seq<char>) -> Option<Seq<Seq<u8>>>;

/// The views of a list of byte strings.
pub open spec fn ders_view(v: Seq<Vec<u8>>) -> Seq<Seq<u8>> {
    v.map_values(|d: Vec<u8>| d@)
}

/// `rustls_pemfile::certs` over the PEM text, each item's DER bytes, or the
/// first error's text.
#[verifier::external_body]
fn pem_certs(pem: &str) -> (r: Result<Vec<Vec<u8>>, String>)
    ensures
        match r {
            Ok(v) => pem_cert_ders(pem@) == Some(ders_view(v@)),
            Err(_) => pem_cert_ders(pem@) is None,
        },
{
    let mut reader = std::io::Cursor::new(pem.as_bytes());
    rustls_pemfile::certs(&mut reader)
        .map(|c| c.map(|d| d.to_vec()))
        .collect::<Result<Vec<_>, _>>()
        .map_err(|e| e.to_string())
}

/// `rustls_pemfile::pkcs8_private_keys` over the PEM text, each item's DER
/// bytes, or the first error's text.
#[verifier::external_body]
fn pem_pkcs8_keys(pem: &str) -> (r: Result<Vec<Vec<u8>>, String>)
    ensures
        match r {
            Ok(v) => pem_pkcs8_ders(pem@) == Some(ders_view(v@)),
            Err(_) => pem_pkcs8_ders(pem@) is None,
        },
{
    let mut reader = std::io::Cursor::new(pem.as_bytes());
    rustls_pemfile::pkcs8_private_keys(&mut reader)
        .map(|k| k.map(|d| d.secret_pkcs8_der().to_vec()))
        .collect::<Result<Vec<_>, _>>()
        .map_err(|e| e.to_string())
}

/// Client certificates (the chain or leaf) and the PKCS#8 key, as DER.
#[derive(Debug)]
pub struct LoadedClientAuth {
    pub certs: Vec<Vec<u8>>,
    pub key: Vec<u8>,
}

/// Reads the certificates of a PEM text; `Pem` when the reader fails.
pub fn load_certs(pem: &str) -> (r: Result<Vec<Vec<u8>>, MtlsError>)
    ensures
        match pem_cert_ders(pem@) {
            Some(ds) => r matches Ok(v) && ders_view(v@) == ds,
            None => r matches Err(MtlsError::Pem(_)),
        },
{
    match pem_certs(pem) {
        Ok(v) => Ok(v),
        Err(m) => Err(MtlsError::Pem(m)),
    }
}

/// Reads the first PKCS#8 private key of a PEM text; `Pem` when the reader
/// fails or there is none.
pub fn load_private_key(pem: &str) -> (r: Result<Vec<u8>, MtlsError>)
    ensures
        match pem_pkcs8_ders(pem@) {
            Some(ks) => if ks.len() > 0 {
                r matches Ok(k) && k@ == ks[0]
            } else {
                r matches Err(MtlsError::Pem(m)) && m@ == "no PKCS8 private key in PEM"@
            },
            None => r matches Err(MtlsError::Pem(_)),
        },
{
    let mut keys = match pem_pkcs8_keys(pem) {
        Ok(v) => v,
        Err(m) => return Err(MtlsError::Pem(m)),
    };
    if keys.len() == 0 {
        return Err(MtlsError::Pem(string_of(&chars_of("no PKCS8 private key in PEM"))));
    }
    let ghost ks = ders_view(keys@);
    let k = keys.swap_remove(0);
    assert(k@ == ks[0]);
    Ok(k)
}

/// Parses client material's PEMs into DER: the certificates, then the key.
pub fn load_client_auth(material: &MtlsClientMaterial) -> (r: Result<LoadedClientAuth, MtlsError>)
    ensures
        match (pem_cert_ders(material.cert_pem@), pem_pkcs8_ders(material.key_pem@)) {
            (None, _) => r matches Err(MtlsError::Pem(_)),
            (Some(cs), None) => r matches Err(MtlsError::Pem(_)),
            (Some(cs), Some(ks)) => if ks.len() > 0 {
                r matches Ok(a) && ders_view(a.certs@) == cs && a.key@ == ks[0]
            } else {
                r matches Err(MtlsError::Pem(m)) && m@ == "no PKCS8 private key in PEM"@
            },
        },
{
    let certs = load_certs(material.cert_pem.as_str())?;
    let key = load_private_key(material.key_pem.as_str())?;
    Ok(LoadedClientAuth { certs, key })
}

/// The certificates of PEM texts, concatenated in order, or `None` when a
/// text fails to read.
pub open spec fn roots_spec(pems: Seq<Seq<char>>) -> Option<Seq<Seq<u8>>>
    decreases pems.len(),
{
    if pems.len() == 0 {
        Some(Seq::empty())
    } else {
        match (roots_spec(pems.drop_last()), pem_cert_ders(pems.last())) {
            (Some(a), Some(b)) => Some(a + b),
            _ => None,
        }
    }
}

/// Loads PEM trust roots as DER certificates, in order.
pub fn load_root_certs(root_pems: &[&str]) -> (r: Result<Vec<Vec<u8>>, MtlsError>)
    ensures
        match roots_spec(root_pems@.map_values(|p: &str| p@)) {
            Some(ds) => r matches Ok(v) && ders_view(v@) == ds,
            None => r matches Err(MtlsError::Pem(_)),
        },
{
    let ghost pems = root_pems@.map_values(|p: &str| p@);
    let mut out: Vec<Vec<u8>> = Vec::new();
    let mut i: usize = 0;
    while i < root_pems.len()
        invariant
            i <= root_pems@.len(),
            pems == root_pems@.map_values(|p: &str| p@),
            roots_spec(pems.take(i as int)) == Some(ders_view(out@)),
        decreases root_pems.len() - i,
    {
        assert(pems.take(i as int + 1).drop_last() =~= pems.take(i as int));
        assert(pems.take(i as int + 1).last() == root_pems@[i as int]@);
        let mut ds = match load_certs(root_pems[i]) {
            Ok(v) => v,
            Err(e) => {
                proof {
                    lemma_roots_none_extends(pems, i as int + 1);
                }
                return Err(e);
            },
        };
        let ghost before = ders_view(out@);
        let ghost added = ders_view(ds@);
        out.append(&mut ds);
        assert(ders_view(out@) =~= before + added);
        i += 1;
    }
    assert(pems.take(i as int) =~= pems);
    Ok(out)
}

/// Once a prefix fails to read, every longer one does.
proof fn lemma_roots_none_extends(pems: Seq<Seq<char>>, n: int)
    requires
        0 < n <= pems.len(),
        roots_spec(pems.take(n)) is None,
    ensures
        roots_spec(pems) is None,
    decreases pems.len() - n,
{
    if n < pems.len() {
        assert(pems.take(n + 1).drop_last() =~= pems.take(n));
        lemma_roots_none_extends(pems, n + 1);
    } else {
        assert(pems.take(n) =~= pems);
    }
}

} // verus!
