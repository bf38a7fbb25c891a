//! The verified core of a small Twitter companion service: a
//! reference-counted cache with delayed eviction, sealed user and reason
//! records, the list-key recovery rules, and the route payloads of its web
//! front.

use vstd::prelude::*;

pub mod cache;
pub mod codec;
pub mod crypto;
pub mod encoding;
pub mod error;
pub mod models;
pub mod plain;
pub mod server;
pub mod text;
pub mod user_key;

use crate::crypto::{sealedbox_open, sealedbox_open_of, KEY_LEN};
use crate::encoding::{b64_decode_of, base64_decode};

verus! {

/// Recover the master key: the base64 environment value decodes to a
/// sealed box addressed to the archive key pair, and what it opens to must
/// be a secretbox key.  Reading the environment and deserializing the
/// archive key pair are the embedding program's business; the key pair
/// arrives here as plain bytes.
pub fn master_key(arch_pk: &Vec<u8>, arch_sk: &Vec<u8>, master_b64: &String) -> (r: Option<
    Vec<u8>,
>)
    requires
        arch_pk@.len() == 32,
        arch_sk@.len() == 32,
    ensures
        match r {
            Some(k) => {
                &&& k@.len() == KEY_LEN
                &&& b64_decode_of(master_b64@) matches Some(c) && sealedbox_open_of(
                    c,
                    arch_pk@,
                    arch_sk@,
                ) == Some(k@)
            },
            None => match b64_decode_of(master_b64@) {
                None => true,
                Some(c) => sealedbox_open_of(c, arch_pk@, arch_sk@) is None || (sealedbox_open_of(
                    c,
                    arch_pk@,
                    arch_sk@,
                ) matches Some(k) && k.len() != KEY_LEN),
            },
        },
{
    let enc = match base64_decode(master_b64) {
        Some(e) => e,
        None => {
            return None;
        },
    };
    let dec = match sealedbox_open(&enc, arch_pk, arch_sk) {
        Some(d) => d,
        None => {
            return None;
        },
    };
    if dec.len() != KEY_LEN {
        return None;
    }
    Some(dec)
}

} // verus!
