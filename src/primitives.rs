//! Calls into the cryptographic and compression crates. Every result is
//! given a name over plain byte sequences; the rest of the library is
//! proved over those names.

use aes::cipher::{BlockDecrypt, BlockEncrypt, KeyInit};
use hmac::Mac;
use sha2::Digest;
use vstd::prelude::*;

verus! {

/// AES-128 encryption of one 16-byte block under a 16-byte key.
pub uninterp spec fn aes128_encrypt_of(key: Seq<u8>, block: Seq<u8>) -> Seq<u8>;

/// AES-128 decryption of one 16-byte block under a 16-byte key.
pub uninterp spec fn aes128_decrypt_of(key: Seq<u8>, block: Seq<u8>) -> Seq<u8>;

/// SHA-256 digest of a byte string.
pub uninterp spec fn sha256_of(data: Seq<u8>) -> Seq<u8>;

/// HMAC-SHA-256 tag of a message under a key.
pub uninterp spec fn hmac_sha256_of(key: Seq<u8>, data: Seq<u8>) -> Seq<u8>;

/// The 24-byte raw bcrypt output for a cost, a salt and a password.
pub uninterp spec fn bcrypt_of(cost: u32, salt: Seq<u8>, password: Seq<u8>) -> Seq<u8>;

/// What an LZ4 block decodes to with unbounded output space;
/// `None` where the block is malformed.
pub uninterp spec fn lz4_block_of(input: Seq<u8>) -> Option<Seq<u8>>;

/// Relies on aes::Aes128 (BlockEncrypt::encrypt_block): AES-128 on one block.
/// AES is a permutation of blocks for each key, so decrypting the result
/// under the same key gives the block back.
#[verifier::external_body]
pub(crate) fn aes128_encrypt_block(key: &[u8; 16], block: &[u8; 16]) -> (r: [u8; 16])
    ensures
        r@ == aes128_encrypt_of(key@, block@),
        aes128_decrypt_of(key@, r@) == block@,
{
    let cipher = aes::Aes128::new(key.into());
    let mut b = aes::Block::from(*block);
    cipher.encrypt_block(&mut b);
    b.into()
}

/// Relies on aes::Aes128 (BlockDecrypt::decrypt_block): inverse AES-128 on one block.
#[verifier::external_body]
pub(crate) fn aes128_decrypt_block(key: &[u8; 16], block: &[u8; 16]) -> (r: [u8; 16])
    ensures
        r@ == aes128_decrypt_of(key@, block@),
{
    let cipher = aes::Aes128::new(key.into());
    let mut b = aes::Block::from(*block);
    cipher.decrypt_block(&mut b);
    b.into()
}

/// Relies on sha2::Sha256::digest: a 32-byte digest.
#[verifier::external_body]
pub(crate) fn sha256(data: &[u8]) -> (r: Vec<u8>)
    ensures
        r@ == sha256_of(data@),
        r@.len() == 32,
{
    sha2::Sha256::digest(data).to_vec()
}

/// Relies on hmac::Hmac<sha2::Sha256>: a 32-byte tag. Its `new_from_slice`
/// accepts keys of every length, so the `expect` never fires.
#[verifier::external_body]
pub(crate) fn hmac_sha256(key: &[u8], data: &[u8]) -> (r: Vec<u8>)
    ensures
        r@ == hmac_sha256_of(key@, data@),
        r@.len() == 32,
{
    let mut mac = <hmac::Hmac<sha2::Sha256> as Mac>::new_from_slice(key)
        .expect("HMAC takes keys of any length");
    mac.update(data);
    mac.finalize().into_bytes().to_vec()
}

/// Relies on bcrypt::bcrypt: the raw 24-byte bcrypt hash. It asserts a cost
/// below 32 and a password of 1 to 72 bytes, hence the `requires`.
#[verifier::external_body]
pub(crate) fn bcrypt_raw(cost: u32, salt: &[u8; 16], password: &[u8]) -> (r: Vec<u8>)
    requires
        cost < 32,
        1 <= password@.len() <= 72,
    ensures
        r@ == bcrypt_of(cost, salt@, password@),
        r@.len() == 24,
{
    bcrypt::bcrypt(cost, *salt, password).to_vec()
}

/// How one attempt to decode an LZ4 block into a bounded buffer failed.
pub(crate) enum Lz4Failure {
    /// The buffer was too small for the output decoded so far.
    OutputTooSmall,
    /// The block is malformed.
    Malformed,
}

/// Relies on lz4_flex::block::decompress_into: decodes into a buffer of
/// `capacity` bytes and reports `OutputTooSmall` as soon as the output would
/// pass its end; every other error is a malformed block, whatever the buffer.
#[verifier::external_body]
pub(crate) fn lz4_decompress_bounded(input: &[u8], capacity: usize) -> (r: Result<Vec<u8>, Lz4Failure>)
    ensures
        r matches Ok(v) ==> lz4_block_of(input@) == Some(v@) && v@.len() <= capacity,
        r matches Err(Lz4Failure::OutputTooSmall) ==> (lz4_block_of(input@) matches Some(
            v,
        ) ==> v.len() > capacity),
        r matches Err(Lz4Failure::Malformed) ==> lz4_block_of(input@) is None,
{
    let mut buffer = vec![0u8; capacity];
    match lz4_flex::block::decompress_into(input, &mut buffer) {
        Ok(n) => {
            buffer.truncate(n);
            Ok(buffer)
        },
        Err(lz4_flex::block::DecompressError::OutputTooSmall { .. }) => Err(
            Lz4Failure::OutputTooSmall,
        ),
        Err(_) => Err(Lz4Failure::Malformed),
    }
}

} // verus!
