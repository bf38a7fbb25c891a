//! The error cases of the list-key recovery flow.

use vstd::prelude::*;

verus! {

/// Why recovering or regenerating the user's list key failed.  The variants
/// that wrap a collaborator's failure (the Twitter client, the text
/// encoding, the database) record only which collaborator refused.
#[derive(Clone, Copy, Debug, PartialEq, Eq, Structural)]
pub enum E {
    /// The user record names no key list.
    NoListID,
    /// No owned list looks like a key list (or a stale one was discarded).
    NoMatchingList,
    /// The key list carries no description to read the key from.
    NoDescription,
    /// The encoded key material has the wrong length.
    KeyTooShort,
    /// The decrypted key is not a valid secretbox key.
    BadKeyFormat,
    /// The sealed key did not open under the recorded nonce and master key.
    CannotDecrypt,
    /// Re-sealing the user record failed.
    CannotUpdateUser,
    /// The Twitter client reported an error.
    Twitter,
    /// The key text was not valid base65536.
    Encoding,
    /// The database reported an error.
    Database,
}

impl From<base65536::Error> for E {
    fn from(_err: base65536::Error) -> (r: Self) {
        E::Encoding
    }
}

impl vstd::std_specs::convert::FromSpecImpl<base65536::Error> for E {
    open spec fn obeys_from_spec() -> bool {
        true
    }

    open spec fn from_spec(_v: base65536::Error) -> Self {
        E::Encoding
    }
}

} // verus!
