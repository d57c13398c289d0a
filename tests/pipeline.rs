use tutanota_client::auth::{constant_time_eq, pkcs7_pad, pkcs7_unpad};
use tutanota_client::body::MAX_BODY_SIZE;
use tutanota_client::cbc::{cbc_decrypt, cbc_encrypt};
use tutanota_client::keys::{find_membership, MAIL_GROUP_TYPE};
use tutanota_client::mail::{decrypt_body, decrypt_mail, mail_list_url};
use tutanota_client::{
    decompress, decrypt_field, decrypt_key, decrypt_with_mac, derive_passphrase_key,
    encrypt_key, encrypt_with_mac, open_mail, resolve_session_key, Error, GroupMembership,
    KeyStage, Mail, Sender, SubKeys, User,
};

fn hex(s: &str) -> Vec<u8> {
    (0..s.len())
        .step_by(2)
        .map(|i| u8::from_str_radix(&s[i..i + 2], 16).unwrap())
        .collect()
}

fn key_of(b: u8) -> [u8; 16] {
    let mut k = [0u8; 16];
    for (i, x) in k.iter_mut().enumerate() {
        *x = b.wrapping_add(i as u8);
    }
    k
}

fn membership(group_type: &str, wrapped: [u8; 16]) -> GroupMembership {
    GroupMembership {
        group: "group-id".to_string(),
        group_type: group_type.to_string(),
        sym_enc_g_key: wrapped.to_vec(),
    }
}

/// K0 wraps K1 (user group), K1 wraps K2 (membership of `tag`), K2 wraps K3.
fn hierarchy(k0: [u8; 16], tag: &str) -> (User, Vec<u8>, [u8; 16]) {
    let k1 = key_of(0x10);
    let k2 = key_of(0x20);
    let k3 = key_of(0x30);
    let user = User {
        user_group: membership("0", encrypt_key(&k0, &k1)),
        memberships: vec![membership("3", encrypt_key(&k1, &key_of(0x40))), membership(tag, encrypt_key(&k1, &k2))],
    };
    (user, encrypt_key(&k2, &k3).to_vec(), k3)
}

fn mail_with(session_key: [u8; 16], wrapped_session_key: Vec<u8>, subject: &[u8]) -> Mail {
    let keys = SubKeys::new(session_key);
    Mail {
        attachments: vec![],
        body: "body-id".to_string(),
        id: ("list".to_string(), "element".to_string()),
        owner_enc_session_key: wrapped_session_key,
        received_date: "0".to_string(),
        sent_date: "0".to_string(),
        sender: Sender {
            address: "alice@example.com".to_string(),
            name: encrypt_with_mac(&keys, &[7u8; 16], b"Alice"),
        },
        subject: encrypt_with_mac(&keys, &[9u8; 16], subject),
        unread: "1".to_string(),
    }
}

#[test]
fn round_trip_for_several_lengths() {
    let keys = SubKeys::new(key_of(1));
    for len in [0usize, 1, 5, 15, 16, 17, 32, 100] {
        let pt: Vec<u8> = (0..len).map(|i| (i * 7) as u8).collect();
        let record = encrypt_with_mac(&keys, &[3u8; 16], &pt);
        assert_eq!(record.len(), 16 + (len / 16 + 1) * 16 + 32);
        assert_eq!(decrypt_with_mac(&keys, &record), Ok(pt));
    }
}

#[test]
fn flipping_a_tag_bit_fails_authentication() {
    let keys = SubKeys::new(key_of(2));
    let record = encrypt_with_mac(&keys, &[4u8; 16], b"secret message");
    for i in record.len() - 32..record.len() {
        let mut t = record.clone();
        t[i] ^= 1 << (i % 8);
        assert_eq!(decrypt_with_mac(&keys, &t), Err(Error::AuthenticationFailed));
    }
}

#[test]
fn flipping_a_ciphertext_or_iv_bit_fails_authentication() {
    let keys = SubKeys::new(key_of(2));
    let record = encrypt_with_mac(&keys, &[4u8; 16], b"secret message");
    for i in 0..record.len() - 32 {
        let mut t = record.clone();
        t[i] ^= 0x80;
        assert_eq!(decrypt_with_mac(&keys, &t), Err(Error::AuthenticationFailed));
    }
}

#[test]
fn wrong_key_fails_authentication() {
    let record = encrypt_with_mac(&SubKeys::new(key_of(5)), &[0u8; 16], b"x");
    assert_eq!(decrypt_with_mac(&SubKeys::new(key_of(6)), &record), Err(Error::AuthenticationFailed));
}

#[test]
fn malformed_records_are_rejected() {
    let keys = SubKeys::new(key_of(1));
    assert_eq!(decrypt_with_mac(&keys, &[0u8; 47]), Err(Error::MalformedRecord));
    assert_eq!(decrypt_with_mac(&keys, &[0u8; 49]), Err(Error::MalformedRecord));
    assert_eq!(decrypt_key(&key_of(1), &[0u8; 15]), Err(Error::MalformedRecord));
}

#[test]
fn empty_field_decrypts_to_empty() {
    assert_eq!(decrypt_field(key_of(1), &[]), Ok(vec![]));
    let keys = SubKeys::new(key_of(1));
    assert_eq!(decrypt_with_mac(&keys, &[]), Ok(vec![]));
}

#[test]
fn passphrase_key_is_deterministic() {
    let salt = [0u8; 16];
    let a = derive_passphrase_key("correct horse", &salt);
    let b = derive_passphrase_key("correct horse", &salt);
    assert_eq!(a, b);
    let mut other_salt = [0u8; 16];
    other_salt[0] = 1;
    assert_ne!(a, derive_passphrase_key("correct horse", &other_salt));
    assert_ne!(a, derive_passphrase_key("correct horsf", &salt));
}

#[test]
fn sub_keys_are_the_halves_of_the_digest() {
    let keys = SubKeys::new([0u8; 16]);
    let digest = hex("374708fff7719dd5979ec875d56cd2286f6d3cf7ec317a3b25632aab28ec37bb");
    assert_eq!(keys.c_key.to_vec(), digest[..16].to_vec());
    assert_eq!(keys.m_key.to_vec(), digest[16..].to_vec());
}

#[test]
fn key_wrap_matches_the_aes_test_vector() {
    let key: [u8; 16] = hex("000102030405060708090a0b0c0d0e0f").try_into().unwrap();
    let block = hex("00112233445566778899aabbccddeeff");
    let mut plain = [0u8; 16];
    for i in 0..16 {
        plain[i] = block[i] ^ 0x88;
    }
    let wrapped = encrypt_key(&key, &plain);
    assert_eq!(wrapped.to_vec(), hex("69c4e0d86a7b0430d8cdb78070b4c55a"));
    assert_eq!(decrypt_key(&key, &wrapped), Ok(plain));
}

#[test]
fn cbc_round_trip_and_chaining() {
    let key = key_of(9);
    let iv = [1u8; 16];
    let pt = [5u8; 48];
    let ct = cbc_encrypt(&key, &iv, &pt);
    assert_eq!(ct.len(), 48);
    assert_ne!(ct[0..16], ct[16..32]);
    assert_eq!(cbc_decrypt(&key, &iv, &ct), pt.to_vec());
}

#[test]
fn padding_round_trip() {
    assert_eq!(pkcs7_pad(b"abc"), [b"abc".to_vec(), vec![13u8; 13]].concat());
    assert_eq!(pkcs7_pad(&[1u8; 16]), [vec![1u8; 16], vec![16u8; 16]].concat());
    assert_eq!(pkcs7_unpad(&pkcs7_pad(b"abc")), Some(b"abc".to_vec()));
    assert_eq!(pkcs7_unpad(&[1, 2, 3, 0]), None);
    assert_eq!(pkcs7_unpad(&[1, 2, 3, 2]), None);
    assert_eq!(pkcs7_unpad(&[]), None);
}

#[test]
fn constant_time_comparison() {
    assert!(constant_time_eq(b"abc", b"abc"));
    assert!(!constant_time_eq(b"abc", b"abd"));
    assert!(!constant_time_eq(b"abc", b"ab"));
    assert!(constant_time_eq(b"", b""));
}

#[test]
fn chain_resolves_to_the_session_key() {
    let k0 = key_of(0);
    let (user, wrapped, k3) = hierarchy(k0, "5");
    assert_eq!(resolve_session_key(&k0, &user, MAIL_GROUP_TYPE, &wrapped), Ok(k3));
    assert_eq!(find_membership(&user.memberships, "5"), Some(1));
}

#[test]
fn chain_without_mail_membership_fails() {
    let k0 = key_of(0);
    let (user, wrapped, _) = hierarchy(k0, "6");
    assert_eq!(
        resolve_session_key(&k0, &user, MAIL_GROUP_TYPE, &wrapped),
        Err(Error::MembershipNotFound)
    );
}

#[test]
fn chain_reports_the_failing_link() {
    let k0 = key_of(0);
    let (mut user, wrapped, _) = hierarchy(k0, "5");
    assert_eq!(
        resolve_session_key(&k0, &user, "5", &wrapped[..8]),
        Err(Error::KeyDerivationFailed(KeyStage::Session))
    );
    user.memberships[1].sym_enc_g_key.push(0);
    assert_eq!(
        resolve_session_key(&k0, &user, "5", &wrapped),
        Err(Error::KeyDerivationFailed(KeyStage::Membership))
    );
    user.user_group.sym_enc_g_key.clear();
    assert_eq!(
        resolve_session_key(&k0, &user, "5", &wrapped),
        Err(Error::KeyDerivationFailed(KeyStage::UserGroup))
    );
}

#[test]
fn decompression_bomb_is_bounded() {
    // One literal, then a match of offset 1 whose length runs on for
    // 40 extension bytes of 255, then a last literal.
    let mut bomb = vec![0x1f, b'a', 0x01, 0x00];
    bomb.extend(std::iter::repeat(255u8).take(40));
    bomb.extend([0u8, 0x10, b'b']);
    assert_eq!(decompress(&bomb, 1000), Err(Error::OutputTooLarge));
    let full = decompress(&bomb, MAX_BODY_SIZE).unwrap();
    assert_eq!(full.len(), 1 + 19 + 40 * 255 + 1);
    assert!(full[..full.len() - 1].iter().all(|&b| b == b'a'));
}

#[test]
fn decompression_of_malformed_block_fails() {
    assert_eq!(decompress(&[0x1f, b'a', 0x00, 0x00, 0x00], 1000), Err(Error::DecompressionFailed));
    assert_eq!(decompress(&[], 1000), Err(Error::DecompressionFailed));
}

#[test]
fn decompression_grows_its_buffer() {
    let text = vec![b'z'; 5000];
    let compressed = lz4_flex::block::compress(&text);
    assert!(compressed.len() * 6 < text.len());
    assert_eq!(decompress(&compressed, MAX_BODY_SIZE), Ok(text.clone()));
    assert_eq!(decompress(&compressed, 5000), Ok(text));
    assert_eq!(decompress(&compressed, 4999), Err(Error::OutputTooLarge));
}

#[test]
fn fields_decrypt_independently() {
    let k = key_of(0x30);
    let mut mail = mail_with(k, vec![], b"Hello");
    mail.sender.name.push(0);
    let d = decrypt_mail(k, &mail);
    assert_eq!(d.subject, Ok(b"Hello".to_vec()));
    assert_eq!(d.sender_name, Err(Error::MalformedRecord));
}

#[test]
fn body_decrypts_and_decompresses() {
    let k = key_of(0x30);
    let record = encrypt_with_mac(&SubKeys::new(k), &[2u8; 16], &lz4_flex::block::compress(b"Hi there"));
    assert_eq!(decrypt_body(k, &record, MAX_BODY_SIZE), Ok(b"Hi there".to_vec()));
    assert_eq!(decrypt_body(key_of(0x31), &record, MAX_BODY_SIZE), Err(Error::AuthenticationFailed));
}

#[test]
fn end_to_end_pipeline() {
    let k0 = derive_passphrase_key("correct horse", &[0u8; 16]);
    let (user, wrapped, k3) = hierarchy(k0, "5");
    let mail = mail_with(k3, wrapped, b"Hello");
    let body_record = encrypt_with_mac(&SubKeys::new(k3), &[6u8; 16], &lz4_flex::block::compress(b"Hi there"));
    let opened = open_mail(&k0, &user, &mail, &body_record, MAX_BODY_SIZE).unwrap();
    assert_eq!(opened.subject, Ok(b"Hello".to_vec()));
    assert_eq!(opened.sender_name, Ok(b"Alice".to_vec()));
    assert_eq!(opened.body, Ok(b"Hi there".to_vec()));
}

#[test]
fn end_to_end_with_wrong_password_fails() {
    let k0 = derive_passphrase_key("correct horse", &[0u8; 16]);
    let (user, wrapped, k3) = hierarchy(k0, "5");
    let mail = mail_with(k3, wrapped, b"Hello");
    let wrong = derive_passphrase_key("wrong horse", &[0u8; 16]);
    let opened = open_mail(&wrong, &user, &mail, &[], MAX_BODY_SIZE).unwrap();
    assert_eq!(opened.subject, Err(Error::AuthenticationFailed));
}

#[test]
fn mail_list_address() {
    assert_eq!(
        mail_list_url("abc"),
        "https://mail.tutanota.com/rest/tutanota/mail/abc?start=zzzzzzzzzzzz&count=100&reverse=true"
    );
}
