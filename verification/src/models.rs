//! The sealed database rows: a user record and a reason record, each
//! holding its plaintext encrypted under the master key, plus the blind
//! index that lets a user be found by Twitter id without storing the id.

use vstd::prelude::*;
use vstd::bytes::{spec_u64_to_le_bytes, u64_to_le_bytes};
use vstd::slice::slice_to_vec;
use uuid::Uuid;
use twox_hash::XxHash64;
use core::hash::Hasher;
use crate::codec::{pad, unpad, unpad_spec, padded_to};
use crate::crypto::{KEY_LEN, MAC_LEN, NONCE_LEN};
use crate::crypto::{gen_nonce, secretbox_open, secretbox_open_of, secretbox_seal, secretbox_seal_of};
use crate::plain;
use crate::plain::Cipher;

verus! {

/// uuid's `Uuid`, carried through opaquely as a record identifier.
#[verifier::external_type_specification]
#[verifier::external_body]
pub struct ExUuid(Uuid);

/// Relies on uuid's `Uuid::new_v4`: a fresh random identifier; nothing is
/// assumed of its value.
#[verifier::external_body]
pub fn new_uuid() -> Uuid {
    Uuid::new_v4()
}

/// Relies on `Uuid::default`: the nil UUID; nothing about its value is
/// needed here.
#[verifier::external_body]
pub fn nil_uuid() -> Uuid {
    Uuid::default()
}

/// The XxHash64 digest (seed zero) of a byte stream.
pub uninterp spec fn xxhash64_of(data: Seq<u8>) -> u64;

/// Relies on twox_hash's `XxHash64` with its default seed (zero): the
/// digest is a function of the byte stream alone, the same on every
/// machine.
#[verifier::external_body]
pub fn xxhash64(data: &Vec<u8>) -> (r: u64)
    ensures
        r == xxhash64_of(data@),
{
    let mut h = XxHash64::default();
    h.write(data);
    h.finish()
}

/// The blind index stored for a user: the XxHash64 digest of the master
/// key followed by the Twitter id (as little-endian bytes), rendered as
/// eight little-endian bytes.
pub open spec fn twitter_hash_spec(key: Seq<u8>, id: u64) -> Seq<u8> {
    spec_u64_to_le_bytes(xxhash64_of(key + spec_u64_to_le_bytes(id)))
}

/// Hash a Twitter id with the master key into the blind index bytes.
pub fn twitter_hash(id: u64, key: &Vec<u8>) -> (r: Vec<u8>)
    ensures
        r@ == twitter_hash_spec(key@, id),
{
    let mut data = slice_to_vec(key.as_slice());
    let mut idb = u64_to_le_bytes(id);
    data.append(&mut idb);
    let digest = xxhash64(&data);
    u64_to_le_bytes(digest)
}

/// A sealed user row.
#[derive(Debug)]
pub struct User {
    /// Internal id.
    pub id: Uuid,
    /// Blind index: the Twitter id hashed with the master key.
    pub twitter: Vec<u8>,
    pub data_version: i32,
    /// The nonce the payload was sealed under.
    pub nonce: Vec<u8>,
    /// The sealed, serialized plaintext.
    pub data: Vec<u8>,
}

impl User {
    /// Seal a fresh user row: a new internal id, the blind Twitter index,
    /// and the serialized plaintext sealed under a fresh nonce.
    pub fn new(plain: &plain::User, plain_bytes: &Vec<u8>, key: &Vec<u8>) -> (r: Self)
        requires
            key@.len() == KEY_LEN,
            plain_bytes@.len() + MAC_LEN <= usize::MAX,
        ensures
            r.data_version == 1,
            r.nonce@.len() == NONCE_LEN,
            r.data@ == secretbox_seal_of(plain_bytes@, r.nonce@, key@),
            secretbox_open_of(r.data@, r.nonce@, key@) == Some(plain_bytes@),
            r.twitter@ == twitter_hash_spec(key@, plain.twitter_id),
    {
        let nonce = gen_nonce();
        let data = secretbox_seal(plain_bytes, &nonce, key);
        let twitter = twitter_hash(plain.twitter_id, key);
        User { id: new_uuid(), twitter, data_version: 1, nonce, data }
    }

    /// Unseal the row's payload bytes; deserializing them is the caller's
    /// business.
    pub fn open(&self, key: &Vec<u8>) -> (r: Option<Vec<u8>>)
        requires
            key@.len() == KEY_LEN,
        ensures
            match r {
                Some(b) => self.nonce@.len() == NONCE_LEN && secretbox_open_of(
                    self.data@,
                    self.nonce@,
                    key@,
                ) == Some(b@),
                None => self.nonce@.len() != NONCE_LEN || secretbox_open_of(
                    self.data@,
                    self.nonce@,
                    key@,
                ) is None,
            },
    {
        if self.nonce.len() != NONCE_LEN {
            return None;
        }
        secretbox_open(&self.data, &self.nonce, key)
    }
}

impl Cipher for User {
    type Plain = plain::User;

    open spec fn update_some(&self, plain_bytes: Seq<u8>) -> bool {
        true
    }

    open spec fn update_ok(
        &self,
        plain: &plain::User,
        plain_bytes: Seq<u8>,
        key: Seq<u8>,
        out: Self,
    ) -> bool {
        &&& out.id == self.id
        &&& out.data_version == self.data_version
        &&& out.nonce@.len() == NONCE_LEN
        &&& out.data@ == secretbox_seal_of(plain_bytes, out.nonce@, key)
        &&& secretbox_open_of(out.data@, out.nonce@, key) == Some(plain_bytes)
        &&& out.twitter@ == twitter_hash_spec(key, plain.twitter_id)
    }

    fn update(&self, plain: &plain::User, plain_bytes: &Vec<u8>, key: &Vec<u8>) -> (r: Option<
        Self,
    >) {
        let nonce = gen_nonce();
        let data = secretbox_seal(plain_bytes, &nonce, key);
        let twitter = twitter_hash(plain.twitter_id, key);
        Some(User { id: self.id, twitter, data_version: self.data_version, nonce, data })
    }
}

/// Every sealed reason payload is padded to this many bytes before
/// sealing: at most 500 bytes of UTF-8 text, around 125 bytes of encoding
/// overhead, and some future proofing, so every sealed row is the same
/// size.
pub const REASON_PAD: usize = 650;

/// A sealed reason row.
#[derive(Debug)]
pub struct Reason {
    id: Uuid,
    user_id: Uuid,
    /// The nonce the payload was sealed under.
    nonce: Vec<u8>,
    /// The sealed, padded, serialized plaintext.
    data: Vec<u8>,
}

impl Reason {
    /// The row's internal id.
    pub closed spec fn spec_id(&self) -> Uuid {
        self.id
    }

    /// The owning user's id.
    pub closed spec fn spec_user_id(&self) -> Uuid {
        self.user_id
    }

    /// The row's nonce bytes.
    pub closed spec fn spec_nonce(&self) -> Seq<u8> {
        self.nonce@
    }

    /// The row's sealed payload bytes.
    pub closed spec fn spec_data(&self) -> Seq<u8> {
        self.data@
    }

    /// Unseal and unpad the row's payload bytes; deserializing them is the
    /// caller's business.
    pub fn open(&self, key: &Vec<u8>) -> (r: Option<Vec<u8>>)
        requires
            key@.len() == KEY_LEN,
        ensures
            match r {
                Some(b) => self.spec_nonce().len() == NONCE_LEN && (secretbox_open_of(
                    self.spec_data(),
                    self.spec_nonce(),
                    key@,
                ) matches Some(p) && unpad_spec(p) == Some(b@)),
                None => self.spec_nonce().len() != NONCE_LEN || secretbox_open_of(
                    self.spec_data(),
                    self.spec_nonce(),
                    key@,
                ) is None || (secretbox_open_of(
                    self.spec_data(),
                    self.spec_nonce(),
                    key@,
                ) matches Some(p) && unpad_spec(p) is None),
            },
    {
        if self.nonce.len() != NONCE_LEN {
            return None;
        }
        match secretbox_open(&self.data, &self.nonce, key) {
            Some(p) => unpad(p),
            None => None,
        }
    }
}

impl Default for Reason {
    /// An empty row under a fresh id, belonging to the nil user.
    fn default() -> (r: Self)
        ensures
            r.spec_nonce() == Seq::<u8>::empty(),
            r.spec_data() == Seq::<u8>::empty(),
    {
        Reason { id: new_uuid(), user_id: nil_uuid(), nonce: Vec::new(), data: Vec::new() }
    }
}

impl Cipher for Reason {
    type Plain = plain::Reason;

    open spec fn update_some(&self, plain_bytes: Seq<u8>) -> bool {
        plain_bytes.len() <= REASON_PAD
    }

    open spec fn update_ok(
        &self,
        plain: &plain::Reason,
        plain_bytes: Seq<u8>,
        key: Seq<u8>,
        out: Self,
    ) -> bool {
        &&& out.spec_id() == self.spec_id()
        &&& out.spec_user_id() == self.spec_user_id()
        &&& out.spec_nonce().len() == NONCE_LEN
        &&& exists|p: Seq<u8>|
            {
                &&& #[trigger] padded_to(p, plain_bytes, REASON_PAD as int)
                &&& out.spec_data() == secretbox_seal_of(p, out.spec_nonce(), key)
                &&& secretbox_open_of(out.spec_data(), out.spec_nonce(), key) == Some(p)
                &&& unpad_spec(p) == Some(plain_bytes)
            }
    }

    fn update(&self, plain: &plain::Reason, plain_bytes: &Vec<u8>, key: &Vec<u8>) -> (r: Option<
        Self,
    >) {
        let nonce = gen_nonce();
        match pad(plain_bytes, REASON_PAD) {
            Some(padded) => {
                let data = secretbox_seal(&padded, &nonce, key);
                proof {
                    assert(padded_to(padded@, plain_bytes@, REASON_PAD as int));
                }
                Some(Reason { id: self.id, user_id: self.user_id, nonce, data })
            }
            None => None,
        }
    }
}

} // verus!
