//! The key hierarchy: passphrase key, user group key, group key of a
//! membership, and a message's session key, each unlocking the next.

use crate::cbc::{block_at, lemma_xor_cancel, xor_block, xor_bytes};
use crate::error::{Error, KeyStage};
use crate::primitives::{
    aes128_decrypt_block, aes128_decrypt_of, aes128_encrypt_block, bcrypt_of, bcrypt_raw, sha256,
    sha256_of,
};
use vstd::prelude::*;
use vstd::string::{StringExecFns, StringSliceAdditionalSpecFns};

verus! {

/// Cost parameter of the passphrase hash.
pub const BCRYPT_COST: u32 = 8;

/// Byte value of the fixed IV under which keys are wrapped.
pub const KEY_WRAP_IV_BYTE: u8 = 0x88;

/// The group type of a user's mail group.
pub const MAIL_GROUP_TYPE: &'static str = "5";

/// The passphrase key for a password (as UTF-8 bytes) and a salt: the first
/// 16 bytes of bcrypt over the SHA-256 digest of the password.
pub open spec fn passphrase_key_of(password: Seq<u8>, salt: Seq<u8>) -> Seq<u8> {
    bcrypt_of(BCRYPT_COST, salt, sha256_of(password)).subrange(0, 16)
}

/// Derives the user passphrase key from a password and the account's salt.
pub fn derive_passphrase_key(password: &str, salt: &[u8; 16]) -> (r: [u8; 16])
    ensures
        r@ == passphrase_key_of(password.spec_bytes(), salt@),
{
    let digest = sha256(password.as_bytes());
    let hash = bcrypt_raw(BCRYPT_COST, salt, digest.as_slice());
    block_at(hash.as_slice(), 0)
}

/// The same password and salt always give the same passphrase key.
pub proof fn lemma_passphrase_key_deterministic(p1: Seq<u8>, s1: Seq<u8>, p2: Seq<u8>, s2: Seq<u8>)
    requires
        p1 == p2,
        s1 == s2,
    ensures
        passphrase_key_of(p1, s1) == passphrase_key_of(p2, s2),
{
}

/// The fixed IV under which keys are wrapped.
pub open spec fn key_wrap_iv() -> Seq<u8> {
    Seq::new(16, |i: int| KEY_WRAP_IV_BYTE)
}

/// What a wrapped key unwraps to: one AES block in CBC mode under the
/// fixed IV, without padding. A record of another length is malformed.
pub open spec fn unwrap_key_spec(key: Seq<u8>, record: Seq<u8>) -> Option<Seq<u8>> {
    if record.len() == 16 {
        Some(xor_bytes(aes128_decrypt_of(key, record), key_wrap_iv()))
    } else {
        None
    }
}

fn wrap_iv() -> (r: [u8; 16])
    ensures
        r@ == key_wrap_iv(),
{
    let r = [KEY_WRAP_IV_BYTE; 16];
    assert(r@ =~= key_wrap_iv());
    r
}

/// Unwraps a key encrypted under `key`.
pub fn decrypt_key(key: &[u8; 16], record: &[u8]) -> (r: Result<[u8; 16], Error>)
    ensures
        match r {
            Ok(k) => unwrap_key_spec(key@, record@) == Some(k@),
            Err(e) => unwrap_key_spec(key@, record@) is None && e == Error::MalformedRecord,
        },
{
    if record.len() != 16 {
        return Err(Error::MalformedRecord);
    }
    let block = block_at(record, 0);
    assert(block@ =~= record@);
    let plain = aes128_decrypt_block(key, &block);
    Ok(xor_block(&plain, &wrap_iv()))
}

/// Wraps `plain_key` under `key`; `decrypt_key` gives it back.
pub fn encrypt_key(key: &[u8; 16], plain_key: &[u8; 16]) -> (r: [u8; 16])
    ensures
        unwrap_key_spec(key@, r@) == Some(plain_key@),
{
    let iv = wrap_iv();
    let x = xor_block(plain_key, &iv);
    let r = aes128_encrypt_block(key, &x);
    proof {
        assert forall|k: int| 0 <= k < 16 implies #[trigger] xor_bytes(x@, iv@)[k]
            == plain_key@[k] by {
            lemma_xor_cancel(plain_key@[k], iv@[k]);
        }
        assert(xor_bytes(x@, iv@) =~= plain_key@);
    }
    r
}

/// A membership of a user in a group, with the group's key wrapped under
/// the user group key.
#[derive(Debug)]
pub struct GroupMembership {
    pub group: String,
    pub group_type: String,
    pub sym_enc_g_key: Vec<u8>,
}

/// The parts of a user record that the key hierarchy needs.
#[derive(Debug)]
pub struct User {
    /// The user's own group; its key is wrapped under the passphrase key.
    pub user_group: GroupMembership,
    pub memberships: Vec<GroupMembership>,
}

/// Index of the first membership at or after `from` whose group type is `tag`.
pub open spec fn membership_index(ms: Seq<GroupMembership>, tag: Seq<char>, from: int) -> Option<int>
    decreases ms.len() - from,
{
    if from < 0 || from >= ms.len() {
        None
    } else if ms[from].group_type@ == tag {
        Some(from)
    } else {
        membership_index(ms, tag, from + 1)
    }
}

proof fn lemma_membership_index_in_range(ms: Seq<GroupMembership>, tag: Seq<char>, from: int)
    ensures
        membership_index(ms, tag, from) matches Some(i) ==> from <= i < ms.len(),
    decreases ms.len() - from,
{
    if 0 <= from < ms.len() && ms[from].group_type@ != tag {
        lemma_membership_index_in_range(ms, tag, from + 1);
    }
}

/// Finds the first membership whose group type is `group_type`.
pub fn find_membership(memberships: &Vec<GroupMembership>, group_type: &str) -> (r: Option<usize>)
    ensures
        match r {
            Some(i) => membership_index(memberships@, group_type@, 0) == Some(i as int) && i
                < memberships@.len(),
            None => membership_index(memberships@, group_type@, 0) is None,
        },
{
    proof {
        lemma_membership_index_in_range(memberships@, group_type@, 0);
    }
    let wanted = String::from_str(group_type);
    let mut i: usize = 0;
    while i < memberships.len()
        invariant
            i <= memberships@.len(),
            wanted@ == group_type@,
            membership_index(memberships@, group_type@, 0) == membership_index(
                memberships@,
                group_type@,
                i as int,
            ),
        decreases memberships@.len() - i,
    {
        if memberships[i].group_type == wanted {
            return Some(i);
        }
        i = i + 1;
    }
    None
}

/// The session key that the key hierarchy leads to: the user group key
/// from the passphrase key, the group key of the first membership of the
/// given type from that, and the session key from the group key.
pub open spec fn resolve_session_key_spec(
    passphrase_key: Seq<u8>,
    user: User,
    group_type: Seq<char>,
    owner_enc_session_key: Seq<u8>,
) -> Result<Seq<u8>, Error> {
    match unwrap_key_spec(passphrase_key, user.user_group.sym_enc_g_key@) {
        None => Err(Error::KeyDerivationFailed(KeyStage::UserGroup)),
        Some(user_group_key) => match membership_index(user.memberships@, group_type, 0) {
            None => Err(Error::MembershipNotFound),
            Some(i) => match unwrap_key_spec(
                user_group_key,
                user.memberships@[i].sym_enc_g_key@,
            ) {
                None => Err(Error::KeyDerivationFailed(KeyStage::Membership)),
                Some(group_key) => match unwrap_key_spec(group_key, owner_enc_session_key) {
                    None => Err(Error::KeyDerivationFailed(KeyStage::Session)),
                    Some(session_key) => Ok(session_key),
                },
            },
        },
    }
}

/// Walks the key hierarchy from the passphrase key down to the session key
/// of one message.
pub fn resolve_session_key(
    passphrase_key: &[u8; 16],
    user: &User,
    group_type: &str,
    owner_enc_session_key: &[u8],
) -> (r: Result<[u8; 16], Error>)
    ensures
        match r {
            Ok(k) => resolve_session_key_spec(
                passphrase_key@,
                *user,
                group_type@,
                owner_enc_session_key@,
            ) == Ok::<Seq<u8>, Error>(k@),
            Err(e) => resolve_session_key_spec(
                passphrase_key@,
                *user,
                group_type@,
                owner_enc_session_key@,
            ) == Err::<Seq<u8>, Error>(e),
        },
{
    let user_group_key = match decrypt_key(passphrase_key, user.user_group.sym_enc_g_key.as_slice()) {
        Ok(k) => k,
        Err(_) => return Err(Error::KeyDerivationFailed(KeyStage::UserGroup)),
    };
    let i = match find_membership(&user.memberships, group_type) {
        Some(i) => i,
        None => return Err(Error::MembershipNotFound),
    };
    let group_key = match decrypt_key(&user_group_key, user.memberships[i].sym_enc_g_key.as_slice()) {
        Ok(k) => k,
        Err(_) => return Err(Error::KeyDerivationFailed(KeyStage::Membership)),
    };
    match decrypt_key(&group_key, owner_enc_session_key) {
        Ok(k) => Ok(k),
        Err(_) => Err(Error::KeyDerivationFailed(KeyStage::Session)),
    }
}

/// A chain of wrapped keys resolves to its last key: K0 unwraps the user
/// group key K1, K1 unwraps K2 from the first membership of the requested
/// group type, and K2 unwraps the session key K3.
pub proof fn lemma_chain_resolves(
    k0: Seq<u8>,
    user: User,
    group_type: Seq<char>,
    owner_enc_session_key: Seq<u8>,
    k1: Seq<u8>,
    k2: Seq<u8>,
    k3: Seq<u8>,
)
    requires
        unwrap_key_spec(k0, user.user_group.sym_enc_g_key@) == Some(k1),
        membership_index(user.memberships@, group_type, 0) matches Some(i) && unwrap_key_spec(
            k1,
            user.memberships@[i].sym_enc_g_key@,
        ) == Some(k2),
        unwrap_key_spec(k2, owner_enc_session_key) == Some(k3),
    ensures
        resolve_session_key_spec(k0, user, group_type, owner_enc_session_key) == Ok::<
            Seq<u8>,
            Error,
        >(k3),
{
}

proof fn lemma_no_membership_of_type(ms: Seq<GroupMembership>, tag: Seq<char>, from: int)
    requires
        forall|i: int| 0 <= i < ms.len() ==> #[trigger] ms[i].group_type@ != tag,
    ensures
        membership_index(ms, tag, from) is None,
    decreases ms.len() - from,
{
    if 0 <= from < ms.len() {
        lemma_no_membership_of_type(ms, tag, from + 1);
    }
}

/// Where the user group key unwraps but no membership carries the requested
/// group type, resolution fails with `MembershipNotFound`.
pub proof fn lemma_chain_needs_membership(
    k0: Seq<u8>,
    user: User,
    group_type: Seq<char>,
    owner_enc_session_key: Seq<u8>,
)
    requires
        unwrap_key_spec(k0, user.user_group.sym_enc_g_key@) is Some,
        forall|i: int|
            0 <= i < user.memberships@.len() ==> #[trigger] user.memberships@[i].group_type@
                != group_type,
    ensures
        resolve_session_key_spec(k0, user, group_type, owner_enc_session_key) == Err::<
            Seq<u8>,
            Error,
        >(Error::MembershipNotFound),
{
    lemma_no_membership_of_type(user.memberships@, group_type, 0);
}

} // verus!
