//! PEM bodies, DER TLVs and the Ed25519 PKCS#10 CSR layout.
//!
//! Only the shapes this crate's CSRs have are understood (RFC 2986 with an
//! RFC 8410 Ed25519 key): SEQUENCE { certificationRequestInfo,
//! signatureAlgorithm, signature BIT STRING }.

use vstd::prelude::*;
use vstd::slice::{slice_subrange, slice_to_vec};
use vstd::utf8::encode_utf8;
use crate::license::{b64_standard, decode_standard};
use crate::mtls::MtlsError;
use crate::text::{
    chars_of, concat_chars, is_ws, is_ws_char, occurs_at, occurs_at_exec, string_of, sub_chars,
};

verus! {

// ---------------------------------------------------------------------------
// Text search
// ---------------------------------------------------------------------------

/// The first index at or after `i` where `p` occurs in `s`.
pub open spec fn find_from(s: Seq<char>, p: Seq<char>, i: int) -> Option<int>
    decreases s.len() + 1 - i,
{
    if i < 0 || i + p.len() > s.len() {
        None
    } else if occurs_at(s, p, i) {
        Some(i)
    } else {
        find_from(s, p, i + 1)
    }
}

/// The first index where `p` occurs in `s` (`str::find`, counted in chars).
pub open spec fn find_seq(s: Seq<char>, p: Seq<char>) -> Option<int> {
    find_from(s, p, 0)
}

proof fn lemma_find_from_range(s: Seq<char>, p: Seq<char>, i: int)
    ensures
        find_from(s, p, i) matches Some(k) ==> i <= k && occurs_at(s, p, k),
    decreases s.len() + 1 - i,
{
    if i < 0 || i + p.len() > s.len() {
    } else if occurs_at(s, p, i) {
    } else {
        lemma_find_from_range(s, p, i + 1);
    }
}

/// `str::find`: the index of the first occurrence of `p` in `s`.
pub fn find_chars(s: &Vec<char>, p: &Vec<char>) -> (r: Option<usize>)
    ensures
        match find_seq(s@, p@) {
            Some(k) => r matches Some(j) && j == k,
            None => r is None,
        },
        r matches Some(k) ==> occurs_at(s@, p@, k as int),
{
    proof {
        lemma_find_from_range(s@, p@, 0);
    }
    if p.len() > s.len() {
        return None;
    }
    let mut i: usize = 0;
    loop
        invariant
            p.len() <= s.len(),
            i <= s.len() - p.len(),
            find_from(s@, p@, 0) == find_from(s@, p@, i as int),
        decreases s.len() - p.len() - i,
    {
        if occurs_at_exec(s, p, i) {
            return Some(i);
        }
        if i == s.len() - p.len() {
            assert(find_from(s@, p@, i + 1) is None);
            return None;
        }
        i += 1;
    }
}

// ---------------------------------------------------------------------------
// PEM
// ---------------------------------------------------------------------------

/// `s` without its whitespace characters.
pub open spec fn strip_ws(s: Seq<char>) -> Seq<char>
    decreases s.len(),
{
    if s.len() == 0 {
        s
    } else if is_ws(s.last()) {
        strip_ws(s.drop_last())
    } else {
        strip_ws(s.drop_last()).push(s.last())
    }
}

fn strip_ws_chars(s: &Vec<char>, lo: usize, hi: usize) -> (out: Vec<char>)
    requires
        lo <= hi <= s.len(),
    ensures
        out@ == strip_ws(s@.subrange(lo as int, hi as int)),
{
    let mut out: Vec<char> = Vec::new();
    let mut i: usize = lo;
    while i < hi
        invariant
            lo <= i <= hi <= s.len(),
            out@ == strip_ws(s@.subrange(lo as int, i as int)),
        decreases hi - i,
    {
        assert(s@.subrange(lo as int, i + 1).drop_last() =~= s@.subrange(lo as int, i as int));
        if !is_ws_char(s[i]) {
            out.push(s[i]);
        }
        i += 1;
    }
    out
}

pub open spec fn begin_marker(label: Seq<char>) -> Seq<char> {
    "-----BEGIN "@ + label + "-----"@
}

pub open spec fn end_marker(label: Seq<char>) -> Seq<char> {
    "-----END "@ + label + "-----"@
}

/// The base64 text between the first `BEGIN label` marker and the `END
/// label` marker after it, whitespace removed; or which marker is missing.
pub open spec fn pem_body_spec(pem: Seq<char>, label: Seq<char>) -> Result<Seq<char>, Seq<char>> {
    match find_seq(pem, begin_marker(label)) {
        None => Err("missing "@ + begin_marker(label)),
        Some(i) => {
            let start = i + begin_marker(label).len();
            match find_seq(pem.subrange(start, pem.len() as int), end_marker(label)) {
                None => Err("missing "@ + end_marker(label)),
                Some(j) => Ok(strip_ws(pem.subrange(start, start + j))),
            }
        },
    }
}

/// The DER bytes a PEM block with `label` carries, or the failure: the
/// missing marker (`Some` message) or undecodable base64 (`None`).
pub open spec fn pem_der_spec(pem: Seq<char>, label: Seq<char>) -> Result<Seq<u8>, Option<Seq<char>>> {
    match pem_body_spec(pem, label) {
        Err(m) => Err(Some(m)),
        Ok(body) => match b64_standard(encode_utf8(body)) {
            Some(der) => Ok(der),
            None => Err(None),
        },
    }
}

/// `e` is the error that `f` describes: `Pem` with its message, or `Base64`.
pub open spec fn is_failure(e: MtlsError, f: Option<Seq<char>>) -> bool {
    match f {
        Some(m) => e matches MtlsError::Pem(x) && x@ == m,
        None => e is Base64,
    }
}

/// The DER bytes a PEM block with `label` carries.
pub fn pem_to_der(pem: &str, label: &str) -> (r: Result<Vec<u8>, MtlsError>)
    ensures
        match pem_der_spec(pem@, label@) {
            Ok(der) => r matches Ok(v) && v@ == der,
            Err(f) => r matches Err(e) && is_failure(e, f),
        },
{
    let text = chars_of(pem);
    let begin = concat_chars(&concat_chars(&chars_of("-----BEGIN "), &chars_of(label)), &chars_of("-----"));
    let end = concat_chars(&concat_chars(&chars_of("-----END "), &chars_of(label)), &chars_of("-----"));
    let i = match find_chars(&text, &begin) {
        Some(i) => i,
        None => return Err(MtlsError::Pem(string_of(&concat_chars(&chars_of("missing "), &begin)))),
    };
    assert(text@ == pem@);
    assert(begin@ == begin_marker(label@));
    assert(end@ == end_marker(label@));
    assert(occurs_at(text@, begin@, i as int));
    let text_len = text.len();
    let start = i + begin.len();
    let tail = sub_chars(&text, start, text.len());
    let j = match find_chars(&tail, &end) {
        Some(j) => j,
        None => return Err(MtlsError::Pem(string_of(&concat_chars(&chars_of("missing "), &end)))),
    };
    let body = strip_ws_chars(&text, start, start + j);
    proof {
        assert(text@.subrange(start as int, start + j) =~= tail@.subrange(0, j as int));
    }
    let body_text = string_of(&body);
    match decode_standard(body_text.as_str().as_bytes()) {
        Ok(der) => Ok(der),
        Err(detail) => Err(MtlsError::Base64(detail)),
    }
}

// ---------------------------------------------------------------------------
// DER
// ---------------------------------------------------------------------------

/// A big-endian unsigned number.
pub open spec fn be_uint(s: Seq<u8>) -> nat
    decreases s.len(),
{
    if s.len() == 0 {
        0
    } else {
        be_uint(s.drop_last()) * 256 + s.last() as nat
    }
}

pub open spec fn pow256(n: nat) -> nat
    decreases n,
{
    if n == 0 {
        1
    } else {
        pow256((n - 1) as nat) * 256
    }
}

proof fn lemma_be_uint_bound(s: Seq<u8>)
    ensures
        be_uint(s) < pow256(s.len()),
    decreases s.len(),
{
    if s.len() > 0 {
        lemma_be_uint_bound(s.drop_last());
        let a = be_uint(s.drop_last());
        let p = pow256(s.drop_last().len());
        let b = s.last() as nat;
        assert(a * 256 + b < p * 256) by (nonlinear_arith)
            requires
                a < p,
                b < 256,
        ;
    }
}

/// The TLV at the start of `input`: its tag, where its value starts and
/// where it ends (the bytes it takes in all); or why it cannot be read.
pub open spec fn tlv_spec(input: Seq<u8>) -> Result<(u8, int, int), Seq<char>> {
    if input.len() < 2 {
        Err("truncated DER TLV"@)
    } else if input[1] < 0x80 {
        if input.len() < 2 + input[1] {
            Err("truncated DER value"@)
        } else {
            Ok((input[0], 2, 2 + input[1]))
        }
    } else {
        let n = input[1] - 0x80;
        if n == 0 || n > 4 || input.len() < 2 + n {
            Err("invalid DER length"@)
        } else {
            let len = be_uint(input.subrange(2, 2 + n));
            if input.len() < 2 + n + len {
                Err("truncated DER value"@)
            } else {
                Ok((input[0], 2 + n, 2 + n + len))
            }
        }
    }
}

proof fn lemma_tlv_range(input: Seq<u8>)
    ensures
        tlv_spec(input) matches Ok((t, h, e)) ==> 2 <= h <= e <= input.len(),
{
}

/// Reads one DER TLV from `input`: its tag, the offset of its value and the
/// bytes it takes in all (header and value).
pub fn read_tlv(input: &[u8]) -> (r: Result<(u8, usize, usize), MtlsError>)
    ensures
        match tlv_spec(input@) {
            Ok((t, h, e)) => r matches Ok((t2, h2, e2)) && t2 == t && h2 == h && e2 == e,
            Err(m) => r matches Err(MtlsError::Pem(x)) && x@ == m,
        },
{
    if input.len() < 2 {
        return Err(MtlsError::Pem(string_of(&chars_of("truncated DER TLV"))));
    }
    let tag = input[0];
    let mut idx: usize = 1;
    let len_byte = input[idx];
    idx += 1;
    let len: usize = if len_byte < 0x80 {
        len_byte as usize
    } else {
        let n = (len_byte - 0x80) as usize;
        if n == 0 || n > 4 || input.len() < idx + n {
            return Err(MtlsError::Pem(string_of(&chars_of("invalid DER length"))));
        }
        let mut acc: u64 = 0;
        let mut k: usize = 0;
        while k < n
            invariant
                n <= 4,
                idx == 2,
                idx + n <= input.len(),
                k <= n,
                acc == be_uint(input@.subrange(2, 2 + k as int)),
                acc < pow256(k as nat),
            decreases n - k,
        {
            assert(input@.subrange(2, 2 + k + 1).drop_last() =~= input@.subrange(2, 2 + k as int));
            proof {
                lemma_be_uint_bound(input@.subrange(2, 2 + k + 1));
                lemma_pow256_mono(k as nat, 3);
                assert(pow256(3) == 0x100_0000) by {
                    reveal_with_fuel(pow256, 4);
                }
            }
            acc = acc * 256 + input[idx + k] as u64;
            k += 1;
        }
        idx += n;
        proof {
            assert(pow256(4) == 0x1_0000_0000) by {
                reveal_with_fuel(pow256, 5);
            }
            lemma_pow256_mono(n as nat, 4);
        }
        acc as usize
    };
    if len > input.len() - idx {
        return Err(MtlsError::Pem(string_of(&chars_of("truncated DER value"))));
    }
    Ok((tag, idx, idx + len))
}

proof fn lemma_pow256_mono(a: nat, b: nat)
    requires
        a <= b,
    ensures
        pow256(a) <= pow256(b),
    decreases b,
{
    if a < b {
        lemma_pow256_mono(a, (b - 1) as nat);
    }
}


// ---------------------------------------------------------------------------
// Ed25519 CSR
// ---------------------------------------------------------------------------

/// SEQUENCE { OBJECT IDENTIFIER 1.3.101.112 }: Ed25519 without parameters.
pub open spec fn ed25519_spki_alg() -> Seq<u8> {
    seq![0x30u8, 0x05u8, 0x06u8, 0x03u8, 0x2bu8, 0x65u8, 0x70u8]
}

/// The bytes of a byte-aligned BIT STRING value of exactly `n` bytes, or
/// which of the two checks fails (`what` names the field in the message).
pub open spec fn bit_string_spec(tag: u8, bits: Seq<u8>, n: int, what: Seq<char>) -> Result<Seq<u8>, Seq<char>> {
    if tag != 0x03 || bits.len() == 0 || bits[0] != 0 {
        Err(what + " is not a byte-aligned BIT STRING"@)
    } else if bits.len() - 1 != n {
        Err(what + " must be "@ + if n == 32 { "32"@ } else { "64"@ } + " bytes (Ed25519)"@)
    } else {
        Ok(bits.subrange(1, bits.len() as int))
    }
}

/// The raw Ed25519 key in a subjectPublicKeyInfo value: the algorithm must
/// be exactly Ed25519, then a 32-byte BIT STRING (`who` names the key's
/// owner in the messages).
pub open spec fn spki_key_spec(spki: Seq<u8>, who: Seq<char>) -> Result<Seq<u8>, Seq<char>> {
    match tlv_spec(spki) {
        Err(m) => Err(m),
        Ok((atag, _, ae)) => if atag != 0x30 || spki.subrange(0, ae) != ed25519_spki_alg() {
            Err(who + " public key is not Ed25519"@)
        } else {
            let after_alg = spki.subrange(ae, spki.len() as int);
            match tlv_spec(after_alg) {
                Err(m) => Err(m),
                Ok((ktag, kh, ke)) => bit_string_spec(
                    ktag,
                    after_alg.subrange(kh, ke),
                    32,
                    who + " public key"@,
                ),
            }
        },
    }
}

/// The Ed25519 key in a certificationRequestInfo value: after the version
/// and the subject comes the subjectPKInfo.
pub open spec fn cri_key_spec(cri: Seq<u8>) -> Result<Seq<u8>, Seq<char>> {
    match tlv_spec(cri) {
        Err(m) => Err(m),
        Ok((_, _, ve)) => {
            let after_version = cri.subrange(ve, cri.len() as int);
            match tlv_spec(after_version) {
                Err(m) => Err(m),
                Ok((_, _, se)) => {
                    let after_subject = after_version.subrange(se, after_version.len() as int);
                    match tlv_spec(after_subject) {
                        Err(m) => Err(m),
                        Ok((ptag, ph, pe)) => if ptag != 0x30 {
                            Err("CSR missing subjectPKInfo"@)
                        } else {
                            spki_key_spec(after_subject.subrange(ph, pe), "CSR"@)
                        },
                    }
                },
            }
        },
    }
}

/// A DER CSR: the certificationRequestInfo bytes (what the signature
/// covers), the 32-byte public key and the 64-byte signature.
pub open spec fn csr_der_spec(der: Seq<u8>) -> Result<(Seq<u8>, Seq<u8>, Seq<u8>), Seq<char>> {
    match tlv_spec(der) {
        Err(m) => Err(m),
        Ok((tag, h, e)) => if tag != 0x30 || e != der.len() {
            Err("CSR is not a single DER SEQUENCE"@)
        } else {
            let body = der.subrange(h, e);
            match tlv_spec(body) {
                Err(m) => Err(m),
                Ok((ctag, ch, ce)) => if ctag != 0x30 {
                    Err("CSR missing certificationRequestInfo"@)
                } else {
                    let after_cri = body.subrange(ce, body.len() as int);
                    match tlv_spec(after_cri) {
                        Err(m) => Err(m),
                        Ok((_, _, ae)) => {
                            let after_alg = after_cri.subrange(ae, after_cri.len() as int);
                            match tlv_spec(after_alg) {
                                Err(m) => Err(m),
                                Ok((stag, sh, se)) => match bit_string_spec(
                                    stag,
                                    after_alg.subrange(sh, se),
                                    64,
                                    "CSR signature"@,
                                ) {
                                    Err(m) => Err(m),
                                    Ok(sig) => match cri_key_spec(body.subrange(ch, ce)) {
                                        Err(m) => Err(m),
                                        Ok(key) => Ok((body.subrange(0, ce), key, sig)),
                                    },
                                },
                            }
                        },
                    }
                },
            }
        },
    }
}

/// A PEM CSR, parsed; failures as in [`pem_der_spec`].
pub open spec fn csr_pem_spec(pem: Seq<char>) -> Result<(Seq<u8>, Seq<u8>, Seq<u8>), Option<Seq<char>>> {
    match pem_der_spec(pem, "CERTIFICATE REQUEST"@) {
        Err(f) => Err(f),
        Ok(der) => match csr_der_spec(der) {
            Ok(t) => Ok(t),
            Err(m) => Err(Some(m)),
        },
    }
}

fn pem_error(m: &str) -> (e: MtlsError)
    ensures
        e matches MtlsError::Pem(x) && x@ == m@,
{
    MtlsError::Pem(string_of(&chars_of(m)))
}

/// Checks a byte-aligned BIT STRING of `n` bytes and copies its bytes.
fn bit_string(tag: u8, bits: &[u8], n: usize, what: &Vec<char>) -> (r: Result<Vec<u8>, MtlsError>)
    requires
        n == 32 || n == 64,
    ensures
        match bit_string_spec(tag, bits@, n as int, what@) {
            Ok(v) => r matches Ok(x) && x@ == v,
            Err(m) => r matches Err(e) && e matches MtlsError::Pem(x) && x@ == m,
        },
{
    if tag != 0x03 || bits.len() == 0 || bits[0] != 0 {
        let m = concat_chars(what, &chars_of(" is not a byte-aligned BIT STRING"));
        return Err(MtlsError::Pem(string_of(&m)));
    }
    if bits.len() - 1 != n {
        let size = if n == 32 {
            "32"
        } else {
            "64"
        };
        let m = concat_chars(
            &concat_chars(&concat_chars(what, &chars_of(" must be ")), &chars_of(size)),
            &chars_of(" bytes (Ed25519)"),
        );
        return Err(MtlsError::Pem(string_of(&m)));
    }
    Ok(slice_to_vec(slice_subrange(bits, 1, bits.len())))
}

/// The raw key of a subjectPublicKeyInfo value.
fn spki_key(spki: &[u8], who: &str) -> (r: Result<Vec<u8>, MtlsError>)
    ensures
        match spki_key_spec(spki@, who@) {
            Ok(k) => r matches Ok(x) && x@ == k,
            Err(m) => r matches Err(e) && e matches MtlsError::Pem(x) && x@ == m,
        },
{
    proof {
        lemma_tlv_range(spki@);
    }
    let (atag, _, a_total) = read_tlv(spki)?;
    let alg = slice_subrange(spki, 0, a_total);
    if atag != 0x30 || !is_ed25519_alg(alg) {
        let m = concat_chars(&chars_of(who), &chars_of(" public key is not Ed25519"));
        return Err(MtlsError::Pem(string_of(&m)));
    }
    let after_alg = slice_subrange(spki, a_total, spki.len());
    proof {
        lemma_tlv_range(after_alg@);
    }
    let (ktag, kh, ke) = read_tlv(after_alg)?;
    let what = concat_chars(&chars_of(who), &chars_of(" public key"));
    bit_string(ktag, slice_subrange(after_alg, kh, ke), 32, &what)
}

fn cri_key(cri: &[u8]) -> (r: Result<Vec<u8>, MtlsError>)
    ensures
        match cri_key_spec(cri@) {
            Ok(k) => r matches Ok(x) && x@ == k,
            Err(m) => r matches Err(e) && e matches MtlsError::Pem(x) && x@ == m,
        },
{
    proof {
        lemma_tlv_range(cri@);
    }
    let (_, _, v_total) = read_tlv(cri)?;
    let after_version = slice_subrange(cri, v_total, cri.len());
    proof {
        lemma_tlv_range(after_version@);
    }
    let (_, _, s_total) = read_tlv(after_version)?;
    let after_subject = slice_subrange(after_version, s_total, after_version.len());
    proof {
        lemma_tlv_range(after_subject@);
    }
    let (ptag, ph, pe) = read_tlv(after_subject)?;
    if ptag != 0x30 {
        return Err(pem_error("CSR missing subjectPKInfo"));
    }
    spki_key(slice_subrange(after_subject, ph, pe), "CSR")
}

fn is_ed25519_alg(alg: &[u8]) -> (r: bool)
    ensures
        r == (alg@ == ed25519_spki_alg()),
{
    let expected: [u8; 7] = [0x30, 0x05, 0x06, 0x03, 0x2b, 0x65, 0x70];
    if alg.len() != 7 {
        return false;
    }
    let mut i: usize = 0;
    while i < 7
        invariant
            alg@.len() == 7,
            expected@ == ed25519_spki_alg(),
            i <= 7,
            forall|j: int| 0 <= j < i ==> alg@[j] == expected@[j],
        decreases 7 - i,
    {
        if alg[i] != expected[i] {
            return false;
        }
        i += 1;
    }
    assert(alg@ =~= ed25519_spki_alg());
    true
}

/// Minimal PKCS#10 parser for Ed25519 CSRs: the certificationRequestInfo
/// DER bytes, the raw 32-byte public key and the 64-byte signature.
pub fn parse_ed25519_csr(csr_pem: &str) -> (r: Result<(Vec<u8>, Vec<u8>, Vec<u8>), MtlsError>)
    ensures
        match csr_pem_spec(csr_pem@) {
            Ok((cri, key, sig)) => r matches Ok((a, b, c)) && a@ == cri && b@ == key && c@ == sig,
            Err(f) => r matches Err(e) && is_failure(e, f),
        },
{
    let der = pem_to_der(csr_pem, "CERTIFICATE REQUEST")?;
    let d = der.as_slice();
    proof {
        lemma_tlv_range(d@);
    }
    let (tag, h, outer_total) = read_tlv(d)?;
    if tag != 0x30 || outer_total != d.len() {
        return Err(pem_error("CSR is not a single DER SEQUENCE"));
    }
    let body = slice_subrange(d, h, outer_total);
    proof {
        lemma_tlv_range(body@);
    }
    let (ctag, ch, cri_total) = read_tlv(body)?;
    if ctag != 0x30 {
        return Err(pem_error("CSR missing certificationRequestInfo"));
    }
    let cri_bytes = slice_to_vec(slice_subrange(body, 0, cri_total));
    let after_cri = slice_subrange(body, cri_total, body.len());
    proof {
        lemma_tlv_range(after_cri@);
    }
    let (_, _, sig_alg_total) = read_tlv(after_cri)?;
    let after_sig_alg = slice_subrange(after_cri, sig_alg_total, after_cri.len());
    proof {
        lemma_tlv_range(after_sig_alg@);
    }
    let (stag, sh, se) = read_tlv(after_sig_alg)?;
    let signature = bit_string(stag, slice_subrange(after_sig_alg, sh, se), 64, &chars_of("CSR signature"))?;
    let public_key = cri_key(slice_subrange(body, ch, cri_total))?;
    Ok((cri_bytes, public_key, signature))
}


// ---------------------------------------------------------------------------
// Certificates
// ---------------------------------------------------------------------------

/// `s` after its first `n` TLVs.
pub open spec fn skip_tlvs_spec(s: Seq<u8>, n: nat) -> Result<Seq<u8>, Seq<char>>
    decreases n,
{
    if n == 0 {
        Ok(s)
    } else {
        match tlv_spec(s) {
            Err(m) => Err(m),
            Ok((_, _, e)) => skip_tlvs_spec(s.subrange(e, s.len() as int), (n - 1) as nat),
        }
    }
}

/// A DER certificate: the tbsCertificate bytes (what the signature covers),
/// the tbsCertificate value and the 64-byte signature.
pub open spec fn cert_der_spec(der: Seq<u8>) -> Result<(Seq<u8>, Seq<u8>, Seq<u8>), Seq<char>> {
    match tlv_spec(der) {
        Err(m) => Err(m),
        Ok((tag, h, e)) => if tag != 0x30 || e != der.len() {
            Err("certificate is not a single DER SEQUENCE"@)
        } else {
            let body = der.subrange(h, e);
            match tlv_spec(body) {
                Err(m) => Err(m),
                Ok((ttag, th, te)) => if ttag != 0x30 {
                    Err("certificate missing tbsCertificate"@)
                } else {
                    let after_tbs = body.subrange(te, body.len() as int);
                    match skip_tlvs_spec(after_tbs, 1) {
                        Err(m) => Err(m),
                        Ok(after_alg) => match tlv_spec(after_alg) {
                            Err(m) => Err(m),
                            Ok((stag, sh, se)) => match bit_string_spec(
                                stag,
                                after_alg.subrange(sh, se),
                                64,
                                "certificate signature"@,
                            ) {
                                Err(m) => Err(m),
                                Ok(sig) => Ok((body.subrange(0, te), body.subrange(th, te), sig)),
                            },
                        },
                    }
                },
            }
        },
    }
}

/// The subject key in a tbsCertificate value: after the optional explicit
/// version come the serial number, the signature algorithm, the issuer, the
/// validity and the subject, then the subjectPublicKeyInfo.
pub open spec fn tbs_key_spec(tbs: Seq<u8>) -> Result<Seq<u8>, Seq<char>> {
    match tlv_spec(tbs) {
        Err(m) => Err(m),
        Ok((vtag, _, ve)) => {
            let fields = if vtag == 0xa0 {
                tbs.subrange(ve, tbs.len() as int)
            } else {
                tbs
            };
            match skip_tlvs_spec(fields, 5) {
                Err(m) => Err(m),
                Ok(rest) => match tlv_spec(rest) {
                    Err(m) => Err(m),
                    Ok((ptag, ph, pe)) => if ptag != 0x30 {
                        Err("certificate missing subjectPublicKeyInfo"@)
                    } else {
                        spki_key_spec(rest.subrange(ph, pe), "issuer"@)
                    },
                },
            }
        },
    }
}

/// A PEM certificate, parsed; failures as in [`pem_der_spec`].
pub open spec fn cert_pem_spec(pem: Seq<char>) -> Result<(Seq<u8>, Seq<u8>, Seq<u8>), Option<Seq<char>>> {
    match pem_der_spec(pem, "CERTIFICATE"@) {
        Err(f) => Err(f),
        Ok(der) => match cert_der_spec(der) {
            Ok(t) => Ok(t),
            Err(m) => Err(Some(m)),
        },
    }
}

/// Skips the first `n` TLVs of `s`.
fn skip_tlvs(s: &[u8], n: usize) -> (r: Result<&[u8], MtlsError>)
    ensures
        match skip_tlvs_spec(s@, n as nat) {
            Ok(rest) => r matches Ok(x) && x@ == rest,
            Err(m) => r matches Err(e) && e matches MtlsError::Pem(x) && x@ == m,
        },
{
    let mut rest = s;
    let mut k: usize = 0;
    while k < n
        invariant
            k <= n,
            skip_tlvs_spec(s@, n as nat) == skip_tlvs_spec(rest@, (n - k) as nat),
        decreases n - k,
    {
        proof {
            lemma_tlv_range(rest@);
        }
        let (_, _, e) = read_tlv(rest)?;
        rest = slice_subrange(rest, e, rest.len());
        k += 1;
    }
    Ok(rest)
}

/// Parses a PEM certificate: the tbsCertificate bytes, its value and the
/// 64-byte signature.
pub fn parse_ed25519_cert(cert_pem: &str) -> (r: Result<(Vec<u8>, Vec<u8>, Vec<u8>), MtlsError>)
    ensures
        match cert_pem_spec(cert_pem@) {
            Ok((tbs, tv, sig)) => r matches Ok((a, b, c)) && a@ == tbs && b@ == tv && c@ == sig,
            Err(f) => r matches Err(e) && is_failure(e, f),
        },
{
    let der = pem_to_der(cert_pem, "CERTIFICATE")?;
    let d = der.as_slice();
    proof {
        lemma_tlv_range(d@);
    }
    let (tag, h, total) = read_tlv(d)?;
    if tag != 0x30 || total != d.len() {
        return Err(pem_error("certificate is not a single DER SEQUENCE"));
    }
    let body = slice_subrange(d, h, total);
    proof {
        lemma_tlv_range(body@);
    }
    let (ttag, th, te) = read_tlv(body)?;
    if ttag != 0x30 {
        return Err(pem_error("certificate missing tbsCertificate"));
    }
    let after_tbs = slice_subrange(body, te, body.len());
    let after_alg = skip_tlvs(after_tbs, 1)?;
    proof {
        lemma_tlv_range(after_alg@);
    }
    let (stag, sh, se) = read_tlv(after_alg)?;
    let signature = bit_string(
        stag,
        slice_subrange(after_alg, sh, se),
        64,
        &chars_of("certificate signature"),
    )?;
    let tbs = slice_to_vec(slice_subrange(body, 0, te));
    let tbs_value = slice_to_vec(slice_subrange(body, th, te));
    Ok((tbs, tbs_value, signature))
}

/// The subject key of a tbsCertificate value.
pub fn tbs_subject_key(tbs: &[u8]) -> (r: Result<Vec<u8>, MtlsError>)
    ensures
        match tbs_key_spec(tbs@) {
            Ok(k) => r matches Ok(x) && x@ == k,
            Err(m) => r matches Err(e) && e matches MtlsError::Pem(x) && x@ == m,
        },
{
    proof {
        lemma_tlv_range(tbs@);
    }
    let (vtag, _, ve) = read_tlv(tbs)?;
    let fields = if vtag == 0xa0 {
        slice_subrange(tbs, ve, tbs.len())
    } else {
        tbs
    };
    let rest = skip_tlvs(fields, 5)?;
    proof {
        lemma_tlv_range(rest@);
    }
    let (ptag, ph, pe) = read_tlv(rest)?;
    if ptag != 0x30 {
        return Err(pem_error("certificate missing subjectPublicKeyInfo"));
    }
    spki_key(slice_subrange(rest, ph, pe), "issuer")
}

} // verus!
