//! Authenticated records: `IV (16 bytes) || CBC ciphertext || HMAC-SHA-256 tag
//! (32 bytes)`, the tag taken over IV and ciphertext, the plaintext padded
//! with PKCS#7.

use crate::cbc::{append_bytes, block_at, cbc_decrypt, cbc_decrypt_spec, cbc_encrypt, cbc_encrypt_spec};
use crate::error::{bytes_result, Error};
use crate::primitives::{hmac_sha256, hmac_sha256_of, sha256, sha256_of};
use vstd::prelude::*;
use vstd::slice::slice_subrange;

verus! {

/// Length of the initialization vector at the front of a record.
pub const IV_LEN: usize = 16;

/// Length of the integrity tag at the end of a record.
pub const TAG_LEN: usize = 32;

/// The cipher key and the MAC key of one message, both taken from the
/// SHA-256 digest of its session key.
#[derive(Debug, Clone, Copy)]
pub struct SubKeys {
    pub c_key: [u8; 16],
    pub m_key: [u8; 16],
}

/// Cipher key derived from a session key: the first half of its digest.
pub open spec fn cipher_key_of(session_key: Seq<u8>) -> Seq<u8> {
    sha256_of(session_key).subrange(0, 16)
}

/// MAC key derived from a session key: the second half of its digest.
pub open spec fn mac_key_of(session_key: Seq<u8>) -> Seq<u8> {
    sha256_of(session_key).subrange(16, 32)
}

impl SubKeys {
    /// Derives both sub-keys from a session key.
    pub fn new(session_key: [u8; 16]) -> (r: SubKeys)
        ensures
            r.c_key@ == cipher_key_of(session_key@),
            r.m_key@ == mac_key_of(session_key@),
    {
        let digest = sha256(&session_key);
        let c_key = block_at(digest.as_slice(), 0);
        let m_key = block_at(digest.as_slice(), 16);
        SubKeys { c_key, m_key }
    }
}

/// PKCS#7 padding: one to sixteen bytes, each holding the padding length,
/// up to the next multiple of 16.
pub open spec fn pad_spec(pt: Seq<u8>) -> Seq<u8> {
    let n = 16 - pt.len() % 16;
    pt + Seq::new(n as nat, |i: int| n as u8)
}

/// Removes PKCS#7 padding; `None` where the padding is not well formed.
pub open spec fn unpad_spec(p: Seq<u8>) -> Option<Seq<u8>> {
    if p.len() == 0 {
        None
    } else {
        let n = p.last() as int;
        if 1 <= n <= 16 && n <= p.len() && (forall|i: int|
            p.len() - n <= i < p.len() ==> #[trigger] p[i] == n as u8) {
            Some(p.subrange(0, p.len() - n))
        } else {
            None
        }
    }
}

/// Padding followed by its removal gives the plaintext back.
pub proof fn lemma_unpad_pad(pt: Seq<u8>)
    ensures
        unpad_spec(pad_spec(pt)) == Some(pt),
        pad_spec(pt).len() % 16 == 0,
        pad_spec(pt).len() >= 16,
{
    let p = pad_spec(pt);
    assert(p.last() == (16 - pt.len() % 16) as u8);
    assert(p.subrange(0, pt.len() as int) =~= pt);
}

/// Appends PKCS#7 padding.
pub fn pkcs7_pad(pt: &[u8]) -> (r: Vec<u8>)
    ensures
        r@ == pad_spec(pt@),
{
    let n: usize = 16 - pt.len() % 16;
    let mut out: Vec<u8> = Vec::new();
    append_bytes(&mut out, pt);
    let mut j: usize = 0;
    while j < n
        invariant
            n == 16 - pt@.len() % 16,
            j <= n,
            out@ == pt@ + Seq::new(j as nat, |i: int| n as u8),
        decreases n - j,
    {
        out.push(n as u8);
        j = j + 1;
        assert(out@ =~= pt@ + Seq::new(j as nat, |i: int| n as u8));
    }
    out
}

/// Strips PKCS#7 padding, or `None` where it is not well formed.
pub fn pkcs7_unpad(p: &[u8]) -> (r: Option<Vec<u8>>)
    ensures
        match r {
            Some(v) => unpad_spec(p@) == Some(v@),
            None => unpad_spec(p@) is None,
        },
{
    let len = p.len();
    if len == 0 {
        return None;
    }
    let n = p[len - 1] as usize;
    if n < 1 || n > 16 || n > len {
        return None;
    }
    let mut j: usize = len - n;
    while j < len
        invariant
            len == p@.len(),
            n == p@.last() as int,
            1 <= n <= 16,
            n <= len,
            len - n <= j <= len,
            forall|i: int| len - n <= i < j ==> #[trigger] p@[i] == n as u8,
        decreases len - j,
    {
        if p[j] != n as u8 {
            return None;
        }
        j = j + 1;
    }
    let mut out: Vec<u8> = Vec::new();
    append_bytes(&mut out, slice_subrange(p, 0, len - n));
    Some(out)
}

/// Compares two byte strings in time that depends on their lengths only.
pub fn constant_time_eq(a: &[u8], b: &[u8]) -> (r: bool)
    ensures
        r == (a@ == b@),
{
    if a.len() != b.len() {
        return false;
    }
    let mut diff: u8 = 0;
    let mut i: usize = 0;
    assert(a@.subrange(0, 0) =~= b@.subrange(0, 0));
    while i < a.len()
        invariant
            a@.len() == b@.len(),
            i <= a@.len(),
            (diff == 0) == (a@.subrange(0, i as int) == b@.subrange(0, i as int)),
        decreases a@.len() - i,
    {
        let x = a[i];
        let y = b[i];
        let d = diff;
        assert((d | (x ^ y)) == 0 <==> (d == 0 && x == y)) by (bit_vector);
        diff = d | (x ^ y);
        proof {
            let i1 = (i + 1) as int;
            if a@.subrange(0, i1) == b@.subrange(0, i1) {
                assert(a@.subrange(0, i as int) =~= a@.subrange(0, i1).subrange(0, i as int));
                assert(b@.subrange(0, i as int) =~= b@.subrange(0, i1).subrange(0, i as int));
                assert(a@.subrange(0, i1)[i as int] == x);
            }
            if d == 0 && x == y {
                assert(a@.subrange(0, i1) =~= b@.subrange(0, i1));
            }
        }
        i = i + 1;
    }
    assert(a@.subrange(0, a@.len() as int) =~= a@);
    assert(b@.subrange(0, b@.len() as int) =~= b@);
    diff == 0
}

/// What decrypting a record yields. An empty record, and a record with an
/// empty ciphertext, stand for an empty field.
pub open spec fn decrypt_with_mac_spec(c_key: Seq<u8>, m_key: Seq<u8>, record: Seq<u8>) -> Result<Seq<u8>, Error> {
    let len = record.len();
    if len == 0 {
        Ok(Seq::empty())
    } else if len < 48 || (len - 48) % 16 != 0 {
        Err(Error::MalformedRecord)
    } else if hmac_sha256_of(m_key, record.subrange(0, len - 32)) != record.subrange(
        len - 32,
        len as int,
    ) {
        Err(Error::AuthenticationFailed)
    } else if len == 48 {
        Ok(Seq::empty())
    } else {
        match unpad_spec(
            cbc_decrypt_spec(c_key, record.subrange(0, 16), record.subrange(16, len - 32)),
        ) {
            Some(p) => Ok(p),
            None => Err(Error::MalformedRecord),
        }
    }
}

/// The record that encrypting a plaintext under an IV produces.
pub open spec fn encrypt_with_mac_spec(c_key: Seq<u8>, m_key: Seq<u8>, iv: Seq<u8>, pt: Seq<u8>) -> Seq<u8> {
    let body = iv + cbc_encrypt_spec(c_key, iv, pad_spec(pt));
    body + hmac_sha256_of(m_key, body)
}

/// Checks a record's tag and, only where it matches, decrypts it.
pub fn decrypt_with_mac(keys: &SubKeys, record: &[u8]) -> (r: Result<Vec<u8>, Error>)
    ensures
        bytes_result(r) == decrypt_with_mac_spec(keys.c_key@, keys.m_key@, record@),
{
    let len = record.len();
    if len == 0 {
        return Ok(Vec::new());
    }
    if len < 48 || (len - 48) % 16 != 0 {
        return Err(Error::MalformedRecord);
    }
    let body = slice_subrange(record, 0, len - TAG_LEN);
    let tag = slice_subrange(record, len - TAG_LEN, len);
    let expected = hmac_sha256(&keys.m_key, body);
    if !constant_time_eq(expected.as_slice(), tag) {
        return Err(Error::AuthenticationFailed);
    }
    if len == 48 {
        return Ok(Vec::new());
    }
    let iv = block_at(record, 0);
    let ct = slice_subrange(record, IV_LEN, len - TAG_LEN);
    let padded = cbc_decrypt(&keys.c_key, &iv, ct);
    match pkcs7_unpad(padded.as_slice()) {
        Some(p) => Ok(p),
        None => Err(Error::MalformedRecord),
    }
}

/// Encrypts and tags a plaintext under a caller-chosen IV. Decrypting the
/// record with the same keys gives the plaintext back.
pub fn encrypt_with_mac(keys: &SubKeys, iv: &[u8; 16], pt: &[u8]) -> (r: Vec<u8>)
    ensures
        r@ == encrypt_with_mac_spec(keys.c_key@, keys.m_key@, iv@, pt@),
        decrypt_with_mac_spec(keys.c_key@, keys.m_key@, r@) == Ok::<Seq<u8>, Error>(pt@),
{
    let padded = pkcs7_pad(pt);
    proof {
        lemma_unpad_pad(pt@);
    }
    let ct = cbc_encrypt(&keys.c_key, iv, padded.as_slice());
    let mut out: Vec<u8> = Vec::new();
    append_bytes(&mut out, iv);
    append_bytes(&mut out, ct.as_slice());
    let tag = hmac_sha256(&keys.m_key, out.as_slice());
    let ghost body = out@;
    append_bytes(&mut out, tag.as_slice());
    proof {
        let len = out@.len();
        assert(out@.subrange(0, len - 32) =~= body);
        assert(out@.subrange(len - 32, len as int) =~= tag@);
        assert(out@.subrange(0, 16) =~= iv@);
        assert(out@.subrange(16, len - 32) =~= ct@);
    }
    out
}

/// A record that authenticates stops doing so once any bit of its tag is
/// flipped: decryption then reports an authentication failure.
pub proof fn lemma_tag_tamper_detected(c_key: Seq<u8>, m_key: Seq<u8>, record: Seq<u8>, i: int, bit: u8)
    requires
        decrypt_with_mac_spec(c_key, m_key, record) is Ok,
        record.len() >= 48,
        record.len() - 32 <= i < record.len(),
        bit < 8,
    ensures
        decrypt_with_mac_spec(c_key, m_key, record.update(i, record[i] ^ (1u8 << bit))) == Err::<
            Seq<u8>,
            Error,
        >(Error::AuthenticationFailed),
{
    let x = record[i];
    let t = record.update(i, x ^ (1u8 << bit));
    let len = record.len();
    assert(x ^ (1u8 << bit) != x) by (bit_vector)
        requires
            bit < 8,
    ;
    assert(t.subrange(0, len - 32) =~= record.subrange(0, len - 32));
    assert(t.subrange(len - 32, len as int)[i - (len - 32)] != record.subrange(
        len - 32,
        len as int,
    )[i - (len - 32)]);
}

} // verus!
