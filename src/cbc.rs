//! AES-128 in cipher block chaining mode, over whole 16-byte blocks.

use crate::primitives::{
    aes128_decrypt_block, aes128_decrypt_of, aes128_encrypt_block, aes128_encrypt_of,
};
use vstd::prelude::*;

verus! {

/// Bytewise exclusive or of two sequences, as long as the first.
pub open spec fn xor_bytes(a: Seq<u8>, b: Seq<u8>) -> Seq<u8> {
    Seq::new(a.len(), |i: int| a[i] ^ b[i])
}

/// The value chained into the next block: the IV before the first block,
/// after that the last ciphertext block.
pub open spec fn chain_value(iv: Seq<u8>, ct: Seq<u8>) -> Seq<u8> {
    if ct.len() < 16 {
        iv
    } else {
        ct.subrange(ct.len() - 16, ct.len() as int)
    }
}

/// CBC decryption of a ciphertext whose length is a multiple of 16.
pub open spec fn cbc_decrypt_spec(key: Seq<u8>, iv: Seq<u8>, ct: Seq<u8>) -> Seq<u8>
    decreases ct.len(),
{
    if ct.len() < 16 {
        Seq::empty()
    } else {
        let init = ct.subrange(0, ct.len() - 16);
        let last = ct.subrange(ct.len() - 16, ct.len() as int);
        cbc_decrypt_spec(key, iv, init) + xor_bytes(
            aes128_decrypt_of(key, last),
            chain_value(iv, init),
        )
    }
}

/// CBC encryption of a plaintext whose length is a multiple of 16.
pub open spec fn cbc_encrypt_spec(key: Seq<u8>, iv: Seq<u8>, pt: Seq<u8>) -> Seq<u8>
    decreases pt.len(),
{
    if pt.len() < 16 {
        Seq::empty()
    } else {
        let init = pt.subrange(0, pt.len() - 16);
        let last = pt.subrange(pt.len() - 16, pt.len() as int);
        let prev = cbc_encrypt_spec(key, iv, init);
        prev + aes128_encrypt_of(key, xor_bytes(last, chain_value(iv, prev)))
    }
}

pub(crate) proof fn lemma_xor_cancel(a: u8, b: u8)
    ensures
        (a ^ b) ^ b == a,
{
    assert((a ^ b) ^ b == a) by (bit_vector);
}

/// The 16 bytes of `s` that start at `start`.
pub(crate) fn block_at(s: &[u8], start: usize) -> (r: [u8; 16])
    requires
        start + 16 <= s@.len(),
    ensures
        r@ == s@.subrange(start as int, start + 16),
{
    let len = s.len();
    let mut b = [0u8; 16];
    let mut j: usize = 0;
    while j < 16
        invariant
            j <= 16,
            start + 16 <= s@.len(),
            len == s@.len(),
            b@.len() == 16,
            forall|k: int| 0 <= k < j ==> b@[k] == s@[start + k],
        decreases 16 - j,
    {
        b[j] = s[start + j];
        j = j + 1;
    }
    assert(b@ =~= s@.subrange(start as int, start + 16));
    b
}

pub(crate) fn xor_block(a: &[u8; 16], b: &[u8; 16]) -> (r: [u8; 16])
    ensures
        r@ == xor_bytes(a@, b@),
{
    let mut x = [0u8; 16];
    let mut j: usize = 0;
    while j < 16
        invariant
            j <= 16,
            x@.len() == 16,
            forall|k: int| 0 <= k < j ==> x@[k] == a@[k] ^ b@[k],
        decreases 16 - j,
    {
        x[j] = a[j] ^ b[j];
        j = j + 1;
    }
    assert(x@ =~= xor_bytes(a@, b@));
    x
}

pub(crate) fn append_bytes(out: &mut Vec<u8>, b: &[u8])
    ensures
        final(out)@ == old(out)@ + b@,
{
    let mut j: usize = 0;
    while j < b.len()
        invariant
            j <= b@.len(),
            out@ == old(out)@ + b@.subrange(0, j as int),
        decreases b@.len() - j,
    {
        out.push(b[j]);
        j = j + 1;
        assert(out@ =~= old(out)@ + b@.subrange(0, j as int));
    }
    assert(b@.subrange(0, b@.len() as int) =~= b@);
}

/// Decrypts whole blocks in CBC mode.
pub fn cbc_decrypt(key: &[u8; 16], iv: &[u8; 16], ct: &[u8]) -> (r: Vec<u8>)
    requires
        ct@.len() % 16 == 0,
    ensures
        r@ == cbc_decrypt_spec(key@, iv@, ct@),
{
    let mut out: Vec<u8> = Vec::new();
    let mut prev: [u8; 16] = *iv;
    let len = ct.len();
    let n: usize = len / 16;
    let mut i: usize = 0;
    while i < n
        invariant
            len == ct@.len(),
            n == ct@.len() / 16,
            ct@.len() % 16 == 0,
            i <= n,
            out@ == cbc_decrypt_spec(key@, iv@, ct@.subrange(0, 16 * i)),
            prev@ == chain_value(iv@, ct@.subrange(0, 16 * i)),
        decreases n - i,
    {
        assert(16 * i + 16 <= ct@.len()) by (nonlinear_arith)
            requires
                i < n,
                len == ct@.len(),
            n == ct@.len() / 16,
        ;
        let block = block_at(ct, 16 * i);
        let plain = aes128_decrypt_block(key, &block);
        let x = xor_block(&plain, &prev);
        let ghost before = out@;
        append_bytes(&mut out, &x);
        proof {
            let s = ct@.subrange(0, 16 * (i + 1));
            assert(s.subrange(0, s.len() - 16) =~= ct@.subrange(0, 16 * i));
            assert(s.subrange(s.len() - 16, s.len() as int) =~= block@);
        }
        prev = block;
        i = i + 1;
    }
    assert(ct@.subrange(0, 16 * n) =~= ct@);
    out
}

/// Encrypts whole blocks in CBC mode; decrypting the result under the same
/// key and IV gives the plaintext back.
pub fn cbc_encrypt(key: &[u8; 16], iv: &[u8; 16], pt: &[u8]) -> (r: Vec<u8>)
    requires
        pt@.len() % 16 == 0,
    ensures
        r@ == cbc_encrypt_spec(key@, iv@, pt@),
        r@.len() == pt@.len(),
        cbc_decrypt_spec(key@, iv@, r@) == pt@,
{
    let mut out: Vec<u8> = Vec::new();
    let mut prev: [u8; 16] = *iv;
    let len = pt.len();
    let n: usize = len / 16;
    let mut i: usize = 0;
    while i < n
        invariant
            len == pt@.len(),
            n == pt@.len() / 16,
            pt@.len() % 16 == 0,
            i <= n,
            out@.len() == 16 * i,
            out@ == cbc_encrypt_spec(key@, iv@, pt@.subrange(0, 16 * i)),
            cbc_decrypt_spec(key@, iv@, out@) == pt@.subrange(0, 16 * i),
            prev@ == chain_value(iv@, out@),
        decreases n - i,
    {
        assert(16 * i + 16 <= pt@.len()) by (nonlinear_arith)
            requires
                i < n,
                len == pt@.len(),
            n == pt@.len() / 16,
        ;
        let block = block_at(pt, 16 * i);
        let x = xor_block(&block, &prev);
        let c = aes128_encrypt_block(key, &x);
        let ghost before = out@;
        append_bytes(&mut out, &c);
        proof {
            let s = pt@.subrange(0, 16 * (i + 1));
            assert(s.subrange(0, s.len() - 16) =~= pt@.subrange(0, 16 * i));
            assert(s.subrange(s.len() - 16, s.len() as int) =~= block@);
            assert(out@.subrange(0, out@.len() - 16) =~= before);
            assert(out@.subrange(out@.len() - 16, out@.len() as int) =~= c@);
            assert forall|k: int| 0 <= k < 16 implies #[trigger] xor_bytes(
                aes128_decrypt_of(key@, c@),
                prev@,
            )[k] == block@[k] by {
                lemma_xor_cancel(block@[k], prev@[k]);
            }
            assert(xor_bytes(aes128_decrypt_of(key@, c@), prev@) =~= block@);
            assert(pt@.subrange(0, 16 * i) + block@ =~= s);
        }
        prev = c;
        i = i + 1;
    }
    assert(pt@.subrange(0, 16 * n) =~= pt@);
    out
}

} // verus!
