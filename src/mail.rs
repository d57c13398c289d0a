//! Mail records as the service stores them, and their decryption.

use crate::auth::{cipher_key_of, decrypt_with_mac, decrypt_with_mac_spec, mac_key_of, SubKeys};
use crate::body::{decompress, decompress_outcome};
use crate::error::{bytes_result, Error};
use crate::keys::{resolve_session_key, resolve_session_key_spec, User, MAIL_GROUP_TYPE};
use vstd::prelude::*;
use vstd::string::StringExecFns;

verus! {

/// Where the list of a folder's mails is fetched, up to the folder's id.
pub const MAIL_LIST_PREFIX: &'static str = "https://mail.tutanota.com/rest/tutanota/mail/";

/// The query that asks for the newest hundred mails.
pub const MAIL_LIST_QUERY: &'static str = "?start=zzzzzzzzzzzz&count=100&reverse=true";

/// The sender of a mail; its display name is encrypted.
#[derive(Debug)]
pub struct Sender {
    pub address: String,
    pub name: Vec<u8>,
}

/// A mail as listed in a folder. The subject and the sender's name are
/// encrypted under the mail's session key, itself wrapped under the key of
/// the owner's mail group; the body is a reference to a separate record.
#[derive(Debug)]
pub struct Mail {
    pub attachments: Vec<(String, String)>,
    pub body: String,
    pub id: (String, String),
    pub owner_enc_session_key: Vec<u8>,
    pub received_date: String,
    pub sent_date: String,
    pub sender: Sender,
    pub subject: Vec<u8>,
    pub unread: String,
}

/// The address of the newest mails of the mail list `mails`.
pub fn mail_list_url(mails: &str) -> (r: String)
    ensures
        r@ == MAIL_LIST_PREFIX@ + mails@ + MAIL_LIST_QUERY@,
{
    String::from_str(MAIL_LIST_PREFIX).concat(mails).concat(MAIL_LIST_QUERY)
}

/// The decrypted fields of one mail, each with its own outcome.
#[derive(Debug)]
pub struct DecryptedMail {
    pub subject: Result<Vec<u8>, Error>,
    pub sender_name: Result<Vec<u8>, Error>,
}

/// Decrypts an encrypted field of a mail under its session key; an empty
/// field decrypts to empty.
pub fn decrypt_field(session_key: [u8; 16], field: &[u8]) -> (r: Result<Vec<u8>, Error>)
    ensures
        bytes_result(r) == decrypt_with_mac_spec(
            cipher_key_of(session_key@),
            mac_key_of(session_key@),
            field@,
        ),
{
    let keys = SubKeys::new(session_key);
    decrypt_with_mac(&keys, field)
}

/// Decrypts the subject and the sender's name of a mail, each on its own,
/// with sub-keys derived once from the session key.
pub fn decrypt_mail(session_key: [u8; 16], mail: &Mail) -> (r: DecryptedMail)
    ensures
        bytes_result(r.subject) == decrypt_with_mac_spec(
            cipher_key_of(session_key@),
            mac_key_of(session_key@),
            mail.subject@,
        ),
        bytes_result(r.sender_name) == decrypt_with_mac_spec(
            cipher_key_of(session_key@),
            mac_key_of(session_key@),
            mail.sender.name@,
        ),
{
    let keys = SubKeys::new(session_key);
    let subject = decrypt_with_mac(&keys, mail.subject.as_slice());
    let sender_name = decrypt_with_mac(&keys, mail.sender.name.as_slice());
    DecryptedMail { subject, sender_name }
}

/// What decrypting and then decompressing a body record may return.
pub open spec fn body_outcome(
    session_key: Seq<u8>,
    record: Seq<u8>,
    max_output: usize,
    r: Result<Seq<u8>, Error>,
) -> bool {
    match decrypt_with_mac_spec(cipher_key_of(session_key), mac_key_of(session_key), record) {
        Err(e) => r == Err::<Seq<u8>, Error>(e),
        Ok(compressed) => decompress_outcome(compressed, max_output, r),
    }
}

/// Decrypts a mail body record and decompresses what it holds.
pub fn decrypt_body(session_key: [u8; 16], record: &[u8], max_output: usize) -> (r: Result<
    Vec<u8>,
    Error,
>)
    ensures
        body_outcome(session_key@, record@, max_output, bytes_result(r)),
{
    let keys = SubKeys::new(session_key);
    match decrypt_with_mac(&keys, record) {
        Err(e) => Err(e),
        Ok(compressed) => decompress(compressed.as_slice(), max_output),
    }
}

/// A mail opened from the passphrase key down: its subject, sender name
/// and body, each decrypted on its own.
#[derive(Debug)]
pub struct OpenedMail {
    pub subject: Result<Vec<u8>, Error>,
    pub sender_name: Result<Vec<u8>, Error>,
    pub body: Result<Vec<u8>, Error>,
}

/// Resolves a mail's session key through the user's mail group and
/// decrypts its fields and its body record. Fails as a whole only where the
/// session key cannot be resolved.
pub fn open_mail(
    passphrase_key: &[u8; 16],
    user: &User,
    mail: &Mail,
    body_record: &[u8],
    max_body: usize,
) -> (r: Result<OpenedMail, Error>)
    ensures
        match resolve_session_key_spec(
            passphrase_key@,
            *user,
            MAIL_GROUP_TYPE@,
            mail.owner_enc_session_key@,
        ) {
            Err(e) => r == Err::<OpenedMail, Error>(e),
            Ok(k) => r matches Ok(m) && bytes_result(m.subject) == decrypt_with_mac_spec(
                cipher_key_of(k),
                mac_key_of(k),
                mail.subject@,
            ) && bytes_result(m.sender_name) == decrypt_with_mac_spec(
                cipher_key_of(k),
                mac_key_of(k),
                mail.sender.name@,
            ) && body_outcome(k, body_record@, max_body, bytes_result(m.body)),
        },
{
    let session_key = match resolve_session_key(
        passphrase_key,
        user,
        MAIL_GROUP_TYPE,
        mail.owner_enc_session_key.as_slice(),
    ) {
        Ok(k) => k,
        Err(e) => return Err(e),
    };
    let fields = decrypt_mail(session_key, mail);
    let body = decrypt_body(session_key, body_record, max_body);
    Ok(OpenedMail { subject: fields.subject, sender_name: fields.sender_name, body })
}

} // verus!
