//! Errors of the decryption pipeline.

use vstd::prelude::*;

verus! {

/// The link of the key hierarchy that failed to decrypt.
#[derive(Debug, Clone, Copy, PartialEq, Eq, Structural)]
pub enum KeyStage {
    /// The user group key, under the passphrase key.
    UserGroup,
    /// The group key of a membership, under the user group key.
    Membership,
    /// A message's session key, under its group key.
    Session,
}

/// Everything that can go wrong while decrypting; none carries key bytes.
#[derive(Debug, Clone, Copy, PartialEq, Eq, Structural)]
pub enum Error {
    /// The integrity tag of a record does not match its contents.
    AuthenticationFailed,
    /// A link of the key hierarchy could not be decrypted.
    KeyDerivationFailed(KeyStage),
    /// No membership carries the requested group type.
    MembershipNotFound,
    /// A record is too short or not framed as its format declares.
    MalformedRecord,
    /// The compressed body is not a valid block.
    DecompressionFailed,
    /// The body would expand beyond the allowed size.
    OutputTooLarge,
}

/// A byte-vector result seen through the vector's view.
pub open spec fn bytes_result(r: Result<Vec<u8>, Error>) -> Result<Seq<u8>, Error> {
    match r {
        Ok(v) => Ok(v@),
        Err(e) => Err(e),
    }
}

} // verus!
