//! Authenticated encryption, as this crate uses it.
//!
//! All keys, nonces and ciphertexts cross this boundary as plain byte
//! vectors; the conversions to libsodium's own key and nonce types happen
//! inside the trusted wrappers.  The embedding program initializes
//! libsodium once before threads start using these.

use vstd::prelude::*;
use sodiumoxide::crypto::secretbox;
use sodiumoxide::crypto::sealedbox;
use sodiumoxide::crypto::box_;
use sodiumoxide::randombytes::randombytes;

verus! {

/// Length in bytes of a secretbox key (libsodium `KEYBYTES`).
pub const KEY_LEN: usize = 32;

/// Length in bytes of a secretbox nonce (libsodium `NONCEBYTES`).
pub const NONCE_LEN: usize = 24;

/// Length in bytes of the authentication tag that `secretbox_seal` prepends
/// (libsodium `MACBYTES`).
pub const MAC_LEN: usize = 16;

/// Length in bytes a sealed box adds in front of its message (libsodium
/// `SEALBYTES`): an ephemeral public key and an authentication tag.
pub const SEALEDBOX_OVERHEAD: usize = 48;

/// The ciphertext that sealing `m` under nonce `n` and key `k` produces.
pub uninterp spec fn secretbox_seal_of(m: Seq<u8>, n: Seq<u8>, k: Seq<u8>) -> Seq<u8>;

/// What opening ciphertext `c` under nonce `n` and key `k` yields: the sealed
/// message, or nothing when authentication fails.
pub uninterp spec fn secretbox_open_of(c: Seq<u8>, n: Seq<u8>, k: Seq<u8>) -> Option<Seq<u8>>;

/// What opening sealed box `c` addressed to the key pair `(pk, sk)` yields.
pub uninterp spec fn sealedbox_open_of(c: Seq<u8>, pk: Seq<u8>, sk: Seq<u8>) -> Option<Seq<u8>>;

/// Relies on sodiumoxide's `secretbox::seal` (XSalsa20-Poly1305): the
/// ciphertext is a function of message, nonce and key alone, is `MAC_LEN`
/// bytes longer than the message, and `secretbox::open` inverts it under the
/// same nonce and key.
#[verifier::external_body]
pub fn secretbox_seal(m: &Vec<u8>, n: &Vec<u8>, k: &Vec<u8>) -> (r: Vec<u8>)
    requires
        n@.len() == NONCE_LEN,
        k@.len() == KEY_LEN,
        m@.len() + MAC_LEN <= usize::MAX,
    ensures
        r@ == secretbox_seal_of(m@, n@, k@),
        r@.len() == m@.len() + MAC_LEN,
        secretbox_open_of(r@, n@, k@) == Some(m@),
{
    let nonce = secretbox::Nonce::from_slice(n).unwrap();
    let key = secretbox::Key::from_slice(k).unwrap();
    secretbox::seal(m, &nonce, &key)
}

/// Relies on sodiumoxide's `secretbox::open`: deterministic in ciphertext,
/// nonce and key; it recovers exactly the message that `secretbox::seal`
/// sealed under the same nonce and key, and authenticates what it accepts.
#[verifier::external_body]
pub fn secretbox_open(c: &Vec<u8>, n: &Vec<u8>, k: &Vec<u8>) -> (r: Option<Vec<u8>>)
    requires
        n@.len() == NONCE_LEN,
        k@.len() == KEY_LEN,
    ensures
        match r {
            Some(m) => secretbox_open_of(c@, n@, k@) == Some(m@)
                && c@.len() == m@.len() + MAC_LEN,
            None => secretbox_open_of(c@, n@, k@) is None
                && (forall|m: Seq<u8>| c@ != secretbox_seal_of(m, n@, k@)),
        },
{
    let nonce = secretbox::Nonce::from_slice(n).unwrap();
    let key = secretbox::Key::from_slice(k).unwrap();
    secretbox::open(c, &nonce, &key).ok()
}

/// Relies on sodiumoxide's `sealedbox::open`: deterministic in ciphertext and
/// key pair; the recovered message is `SEALEDBOX_OVERHEAD` bytes shorter than
/// the ciphertext.
#[verifier::external_body]
pub fn sealedbox_open(c: &Vec<u8>, pk: &Vec<u8>, sk: &Vec<u8>) -> (r: Option<Vec<u8>>)
    requires
        pk@.len() == 32,
        sk@.len() == 32,
    ensures
        match r {
            Some(m) => sealedbox_open_of(c@, pk@, sk@) == Some(m@)
                && c@.len() == m@.len() + SEALEDBOX_OVERHEAD,
            None => sealedbox_open_of(c@, pk@, sk@) is None,
        },
{
    let pk = box_::PublicKey::from_slice(pk)?;
    let sk = box_::SecretKey::from_slice(sk)?;
    sealedbox::open(c, &pk, &sk).ok()
}

/// Relies on sodiumoxide's `secretbox::gen_key`: a fresh key is `KEY_LEN`
/// bytes; nothing is assumed of its value.
#[verifier::external_body]
pub fn gen_key() -> (r: Vec<u8>)
    ensures
        r@.len() == KEY_LEN,
{
    secretbox::gen_key()[..].to_vec()
}

/// Relies on sodiumoxide's `secretbox::gen_nonce`: a fresh nonce is
/// `NONCE_LEN` bytes; nothing is assumed of its value.
#[verifier::external_body]
pub fn gen_nonce() -> (r: Vec<u8>)
    ensures
        r@.len() == NONCE_LEN,
{
    secretbox::gen_nonce()[..].to_vec()
}

/// Relies on sodiumoxide's `randombytes`: returns `size` bytes; nothing is
/// assumed of their values.
#[verifier::external_body]
pub fn random_bytes(size: usize) -> (r: Vec<u8>)
    ensures
        r@.len() == size,
{
    randombytes(size)
}

} // verus!
