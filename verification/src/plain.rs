//! The plaintext shapes this crate keeps sealed at rest, and the contract
//! between a sealed record and its plaintext.

use vstd::prelude::*;

verus! {

/// What a reason tells its owner to do about an account.
#[derive(Clone, Debug, PartialEq, Eq, Structural)]
pub enum Action {
    Follow,
    Unfollow,
    Block,
    Mute,
    /// Just anything worth remembering.
    Note,
    /// Like a note, but explicitly negative.
    Warning,
}

/// One remembered judgement about an account.  The text is meant to stay
/// within 500 bytes of UTF-8; the padding budget of the sealed form
/// enforces the limit when the record is stored.
#[derive(Clone, Debug)]
pub struct Reason {
    pub action: Action,
    /// Max 500 characters.
    pub text: String,
    /// Milliseconds since the Unix epoch.
    pub created: i64,
    /// Milliseconds since the Unix epoch.
    pub updated: i64,
}

impl Reason {
    /// A reason written down now: both timestamps carry the same instant.
    pub fn new(action: Action, text: &str) -> (r: Self)
        ensures
            r.action == action,
            r.text@ == text@,
            r.created == r.updated,
    {
        let now = now_millis();
        Reason { action, text: text.to_owned(), created: now, updated: now }
    }
}

/// A user as this crate reasons about one: the Twitter identity, the key
/// list (if any) with the nonce its key was sealed under, and the user's
/// access token pair.
#[derive(Clone, Debug)]
pub struct User {
    pub twitter_id: u64,
    pub list_id: Option<u64>,
    /// The secretbox nonce under which the list key was sealed (a
    /// secretbox nonce's 24 bytes, when present).
    pub list_nonce: Option<Vec<u8>>,
    pub access_keys: Option<(String, String)>,
}

impl User {
    /// The user's Twitter identity, as the API client addresses it.
    pub fn twitter(&self) -> (r: u64)
        ensures
            r == self.twitter_id,
    {
        self.twitter_id
    }

    /// The key list to address, when the record names one.
    pub fn list(&self) -> (r: Option<u64>)
        ensures
            r == self.list_id,
    {
        self.list_id
    }

    /// The stored access token pair for the API client.
    pub fn keypair(&self) -> (r: Option<(String, String)>)
        ensures
            r == self.access_keys,
    {
        match &self.access_keys {
            Some((p, s)) => Some((p.clone(), s.clone())),
            None => None,
        }
    }
}

/// An encrypted record that can be refreshed from its plaintext.  The
/// caller hands both the plaintext and its serialized bytes: producing the
/// bytes is the serializer's business, outside this crate's reasoning.
pub trait Cipher: Sized {
    type Plain;

    /// Whether `update` succeeds for a payload of this size.
    spec fn update_some(&self, plain_bytes: Seq<u8>) -> bool;

    /// What a successful update guarantees about the refreshed record.
    spec fn update_ok(
        &self,
        plain: &Self::Plain,
        plain_bytes: Seq<u8>,
        key: Seq<u8>,
        out: Self,
    ) -> bool;

    /// Re-seal the record around the new plaintext under a fresh nonce.
    fn update(&self, plain: &Self::Plain, plain_bytes: &Vec<u8>, key: &Vec<u8>) -> (r: Option<
        Self,
    >)
        requires
            key@.len() == 32,
            plain_bytes@.len() + 1000 <= usize::MAX,
        ensures
            r matches Some(c) ==> self.update_ok(plain, plain_bytes@, key@, c),
            (r is Some) == self.update_some(plain_bytes@),
    ;
}

/// Relies on chrono's `Utc::now`: the current wall-clock time in
/// milliseconds; nothing is assumed of its value.
#[verifier::external_body]
pub fn now_millis() -> i64 {
    chrono::Utc::now().timestamp_millis()
}

} // verus!
