//! The self-signed certificate of a LocalSend node and its fingerprint.

use vstd::prelude::*;
use sha2::Digest;
use crate::text::push_char;
use vstd::string::StringExecFns;

verus! {

#[verifier::external_type_specification]
#[verifier::external_body]
pub struct ExKeyPair(rcgen::KeyPair);

/// What SHA-256 gives for a byte string.
pub uninterp spec fn sha256_of(data: Seq<u8>) -> Seq<u8>;

/// Relies on `sha2::Sha256::digest`: the SHA-256 digest of the bytes,
/// 32 bytes long.
#[verifier::external_body]
fn sha256(data: &Vec<u8>) -> (r: Vec<u8>)
    ensures
        r@ == sha256_of(data@),
        r@.len() == 32,
{
    sha2::Sha256::digest(data.as_slice()).to_vec()
}

/// Relies on `rcgen::KeyPair::generate`: a fresh random ECDSA P-256 key
/// pair, or rcgen's error, which carries nothing the caller uses.
#[verifier::external_body]
fn generate_key_pair() -> (r: Result<rcgen::KeyPair, ()>) {
    rcgen::KeyPair::generate().map_err(|_| ())
}

/// Relies on `rcgen::KeyPair::serialize_der`: the PKCS#8 DER of the key pair.
/// It panics only for remote key pairs, which `generate` never makes.
#[verifier::external_body]
fn key_pair_der(key_pair: &rcgen::KeyPair) -> (r: Vec<u8>) {
    key_pair.serialize_der()
}

/// Relies on `rcgen::CertificateParams::self_signed`: the DER of a
/// certificate with this common name, signed by the key pair itself, or
/// rcgen's error, which carries nothing the caller uses.
#[verifier::external_body]
fn self_signed_der(key_pair: &rcgen::KeyPair, common_name: &str) -> (r: Result<Vec<u8>, ()>) {
    let mut params = rcgen::CertificateParams::default();
    params.distinguished_name.push(rcgen::DnType::CommonName, common_name);
    params.self_signed(key_pair).map(|c| c.der().to_vec()).map_err(|_| ())
}

/// Uppercase hexadecimal digit of `n < 16`.
pub open spec fn hex_digit(n: nat) -> char {
    if n < 10 {
        crate::text::digit_char(n)
    } else if n == 10 {
        'A'
    } else if n == 11 {
        'B'
    } else if n == 12 {
        'C'
    } else if n == 13 {
        'D'
    } else if n == 14 {
        'E'
    } else {
        'F'
    }
}

/// Two uppercase hexadecimal digits of a byte.
pub open spec fn hex_pair(b: u8) -> Seq<char> {
    seq![hex_digit(b as nat / 16), hex_digit(b as nat % 16)]
}

/// Bytes as uppercase hexadecimal pairs joined by `:`.
pub open spec fn colon_hex(b: Seq<u8>) -> Seq<char>
    decreases b.len(),
{
    if b.len() == 0 {
        Seq::empty()
    } else if b.len() == 1 {
        hex_pair(b[0])
    } else {
        colon_hex(b.drop_last()).push(':') + hex_pair(b.last())
    }
}

/// Bytes as uppercase hexadecimal pairs, without separators.
pub open spec fn plain_hex(b: Seq<u8>) -> Seq<char>
    decreases b.len(),
{
    if b.len() == 0 {
        Seq::empty()
    } else {
        plain_hex(b.drop_last()) + hex_pair(b.last())
    }
}

/// The device identifier of a digest: its first 32 hex digits.
pub open spec fn device_id_of(digest: Seq<u8>) -> Seq<char> {
    plain_hex(digest.take(if digest.len() < 16 { digest.len() as int } else { 16 }))
}

fn hex_char(n: u8) -> (c: char)
    requires
        n < 16,
    ensures
        c == hex_digit(n as nat),
{
    if n < 10 {
        crate::text::digit_u8(n)
    } else if n == 10 {
        'A'
    } else if n == 11 {
        'B'
    } else if n == 12 {
        'C'
    } else if n == 13 {
        'D'
    } else if n == 14 {
        'E'
    } else {
        'F'
    }
}

fn push_hex_pair(s: &mut String, b: u8)
    ensures
        final(s)@ == old(s)@ + hex_pair(b),
{
    push_char(s, hex_char(b / 16));
    push_char(s, hex_char(b % 16));
}

/// The fingerprint text of a digest: `AB:CD:...`.
pub fn colon_hex_of(digest: &Vec<u8>) -> (r: String)
    ensures
        r@ == colon_hex(digest@),
{
    let mut s = String::new();
    let mut i: usize = 0;
    while i < digest.len()
        invariant
            i <= digest@.len(),
            s@ == colon_hex(digest@.take(i as int)),
        decreases digest.len() - i,
    {
        if i > 0 {
            push_char(&mut s, ':');
        }
        push_hex_pair(&mut s, digest[i]);
        proof {
            let t = digest@.take(i + 1);
            assert(t.drop_last() == digest@.take(i as int));
            assert(t.last() == digest@[i as int]);
            if i == 0 {
                assert(t.len() == 1);
                assert(colon_hex(digest@.take(0)) == Seq::<char>::empty());
            }
        }
        i = i + 1;
    }
    assert(digest@.take(digest@.len() as int) == digest@);
    s
}

/// The first `n` bytes of `digest` as plain hexadecimal.
fn plain_hex_prefix(digest: &Vec<u8>, n: usize) -> (r: String)
    requires
        n <= digest@.len(),
    ensures
        r@ == plain_hex(digest@.take(n as int)),
{
    let mut s = String::new();
    let mut i: usize = 0;
    while i < n
        invariant
            n <= digest@.len(),
            i <= n,
            s@ == plain_hex(digest@.take(i as int)),
        decreases n - i,
    {
        push_hex_pair(&mut s, digest[i]);
        proof {
            let t = digest@.take(i + 1);
            assert(t.drop_last() == digest@.take(i as int));
        }
        i = i + 1;
    }
    s
}

/// The device identifier of a digest: its first 32 hex digits.
pub fn device_id_of_digest(digest: &Vec<u8>) -> (r: String)
    ensures
        r@ == device_id_of(digest@),
{
    let n = if digest.len() < 16 { digest.len() } else { 16 };
    plain_hex_prefix(digest, n)
}

/// Certificate material of a node.
#[derive(Clone)]
pub struct CertInfo {
    pub cert_der: Vec<u8>,
    pub key_der: Vec<u8>,
    /// SHA-256 of the certificate, as colon-joined uppercase hex.
    pub fingerprint: String,
    /// First 32 hex digits of the SHA-256 of the certificate.
    pub device_id: String,
}

impl CertInfo {
    /// Fingerprint and device identifier both derive from the certificate.
    pub open spec fn wf(&self) -> bool {
        &&& self.fingerprint@ == colon_hex(sha256_of(self.cert_der@))
        &&& self.device_id@ == device_id_of(sha256_of(self.cert_der@))
    }
}

/// The certificate information for given certificate and key bytes.
pub fn cert_info_from_der(cert_der: Vec<u8>, key_der: Vec<u8>) -> (r: CertInfo)
    ensures
        r.wf(),
        r.cert_der == cert_der,
        r.key_der == key_der,
        r.device_id@.len() == 32,
        sha256_of(r.cert_der@).len() == 32,
        r.fingerprint@.len() == 95,
        r.device_id@ == without_colons(r.fingerprint@).take(32),
{
    let digest = sha256(&cert_der);
    proof {
        lemma_plain_hex_len(digest@.take(16));
        lemma_colon_hex_len(digest@);
        lemma_without_colons(digest@);
        lemma_plain_hex_take(digest@, 16);
    }
    let fingerprint = colon_hex_of(&digest);
    let device_id = device_id_of_digest(&digest);
    CertInfo { cert_der, key_der, fingerprint, device_id }
}

/// A fresh self-signed certificate with the given common name, with its
/// fingerprint.
pub fn generate_self_signed(common_name: &str) -> (r: Result<CertInfo, crate::error::Error>)
    ensures
        r matches Ok(c) ==> {
            &&& c.wf()
            &&& sha256_of(c.cert_der@).len() == 32
            &&& c.fingerprint@.len() == 95
            &&& c.device_id@.len() == 32
            &&& c.device_id@ == without_colons(c.fingerprint@).take(32)
        },
        r matches Err(e) ==> e is Internal,
{
    let key_pair = match generate_key_pair() {
        Ok(k) => k,
        Err(_) => {
            return Err(crate::error::Error::Internal(String::from_str("key pair generation failed")));
        },
    };
    let cert_der = match self_signed_der(&key_pair, common_name) {
        Ok(d) => d,
        Err(_) => {
            return Err(crate::error::Error::Internal(String::from_str("certificate signing failed")));
        },
    };
    let key_der = key_pair_der(&key_pair);
    Ok(cert_info_from_der(cert_der, key_der))
}

proof fn lemma_plain_hex_len(b: Seq<u8>)
    ensures
        plain_hex(b).len() == 2 * b.len(),
    decreases b.len(),
{
    if b.len() > 0 {
        lemma_plain_hex_len(b.drop_last());
    }
}

/// The characters of `s` other than `:`.
pub open spec fn without_colons(s: Seq<char>) -> Seq<char>
    decreases s.len(),
{
    if s.len() == 0 {
        Seq::empty()
    } else if s.last() == ':' {
        without_colons(s.drop_last())
    } else {
        without_colons(s.drop_last()).push(s.last())
    }
}

proof fn lemma_without_colons_concat(a: Seq<char>, b: Seq<char>)
    ensures
        without_colons(a + b) == without_colons(a) + without_colons(b),
    decreases b.len(),
{
    if b.len() == 0 {
        assert(a + b == a);
    } else {
        lemma_without_colons_concat(a, b.drop_last());
        assert((a + b).drop_last() == a + b.drop_last());
        assert((a + b).last() == b.last());
    }
}

proof fn lemma_hex_pair_plain(b: u8)
    ensures
        without_colons(hex_pair(b)) == hex_pair(b),
{
    let p = hex_pair(b);
    assert(p[0] != ':' && p[1] != ':');
    let q = p.drop_last();
    assert(q =~= seq![p[0]]);
    assert(q.drop_last() =~= Seq::<char>::empty());
    assert(without_colons(q.drop_last()) == Seq::<char>::empty());
    assert(without_colons(q) =~= seq![p[0]]);
    assert(without_colons(p) =~= p);
}

/// Removing the colons of the fingerprint text leaves the plain hex.
proof fn lemma_without_colons(b: Seq<u8>)
    ensures
        without_colons(colon_hex(b)) == plain_hex(b),
    decreases b.len(),
{
    if b.len() == 0 {
    } else if b.len() == 1 {
        lemma_hex_pair_plain(b[0]);
        assert(b.drop_last() =~= Seq::<u8>::empty());
        assert(plain_hex(b.drop_last()) == Seq::<char>::empty());
        assert(plain_hex(b) =~= hex_pair(b[0]));
    } else {
        lemma_without_colons(b.drop_last());
        let pre = colon_hex(b.drop_last()).push(':');
        lemma_without_colons_concat(pre, hex_pair(b.last()));
        lemma_hex_pair_plain(b.last());
        assert(pre.drop_last() == colon_hex(b.drop_last()));
    }
}

proof fn lemma_colon_hex_len(b: Seq<u8>)
    ensures
        b.len() > 0 ==> colon_hex(b).len() == 3 * b.len() - 1,
    decreases b.len(),
{
    if b.len() > 1 {
        lemma_colon_hex_len(b.drop_last());
    }
}

proof fn lemma_plain_hex_take(b: Seq<u8>, k: int)
    requires
        0 <= k <= b.len(),
    ensures
        plain_hex(b).take(2 * k) == plain_hex(b.take(k)),
    decreases b.len(),
{
    lemma_plain_hex_len(b);
    if k == b.len() {
        assert(b.take(k) == b);
    } else {
        lemma_plain_hex_take(b.drop_last(), k);
        lemma_plain_hex_len(b.drop_last());
        assert(b.drop_last().take(k) == b.take(k));
        assert(plain_hex(b).take(2 * k) == plain_hex(b.drop_last()).take(2 * k));
    }
}

} // verus!
