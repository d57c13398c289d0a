//! Client-side decryption of an end-to-end encrypted mailbox: the key
//! hierarchy from passphrase to message session key, authenticated field
//! decryption, and bounded decompression of message bodies.

pub mod auth;
pub mod body;
pub mod cbc;
pub mod error;
pub mod keys;
pub mod mail;
mod primitives;

pub use auth::{decrypt_with_mac, encrypt_with_mac, SubKeys};
pub use body::decompress;
pub use error::{Error, KeyStage};
pub use keys::{decrypt_key, derive_passphrase_key, encrypt_key, resolve_session_key, GroupMembership, User};
pub use mail::{decrypt_field, open_mail, Mail, Sender};
