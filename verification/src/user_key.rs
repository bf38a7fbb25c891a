//! Recovering a user's list key.
//!
//! The key that seals a user's reasons hides, sealed under the master key
//! and encoded as base65536, behind the last word of the description of a
//! Twitter list the user owns.  The decisions of that recovery — which
//! list to look at, which owned list counts as a key list, how to read the
//! key out of a description, and what a fresh key list must say so the key
//! can be read back — live here; the Twitter and database calls themselves
//! are the embedding program's business, which feeds their results back in
//! as plain values.

use vstd::prelude::*;
use vstd::string::StringExecFns;
use crate::crypto::{KEY_LEN, MAC_LEN, NONCE_LEN};
use crate::crypto::{gen_key, gen_nonce, secretbox_open, secretbox_open_of, secretbox_seal,
    secretbox_seal_of};
use crate::encoding::{b65536_decode, b65536_decode_of, b65536_encode, b65536_encode_of};
use crate::error::E;
use crate::plain;
use crate::text::{is_space, last_word, last_word_of, lemma_last_word_append, starts_with,
    str_starts_with};

verus! {

/// The length of sealed list-key material: a secretbox key plus its tag.
pub const LISTKEYBYTES: usize = KEY_LEN + MAC_LEN;

/// What the Twitter client must report about a list for the recovery to
/// decide.
pub struct ListInfo {
    pub id: u64,
    pub name: String,
    pub description: String,
}

/// Where the recovery starts: show the list the user record names, or go
/// looking through the lists the user owns.
pub enum Lookup {
    Show(u64),
    Ownerships,
}

/// The first lookup to attempt for this user.
pub fn initial_lookup(plain: &plain::User) -> (r: Lookup)
    ensures
        match plain.list_id {
            Some(id) => r matches Lookup::Show(i) && i == id,
            None => r matches Lookup::Ownerships,
        },
{
    match plain.list_id {
        Some(id) => Lookup::Show(id),
        None => Lookup::Ownerships,
    }
}

/// Among the owned lists, the candidate key list: the position of the
/// last one whose name starts with `"Reasonable key"`.
pub fn select_owned_list(lists: &Vec<ListInfo>) -> (r: Option<usize>)
    ensures
        match r {
            Some(i) => {
                &&& i < lists@.len()
                &&& starts_with(lists@[i as int].name@, "Reasonable key"@)
                &&& forall|j: int| i < j < lists@.len()
                    ==> !starts_with(#[trigger] lists@[j].name@, "Reasonable key"@)
            },
            None => forall|i: int| 0 <= i < lists@.len()
                ==> !starts_with(#[trigger] lists@[i].name@, "Reasonable key"@),
        },
{
    let mut i: usize = lists.len();
    while i > 0
        invariant
            i <= lists@.len(),
            forall|j: int| i <= j < lists@.len()
                ==> !starts_with(#[trigger] lists@[j].name@, "Reasonable key"@),
        decreases i,
    {
        i -= 1;
        if str_starts_with(lists[i].name.as_str(), "Reasonable key") {
            return Some(i);
        }
    }
    None
}

/// What reading the key out of a candidate list comes to, step by step:
/// without a recorded nonce the list is useless (`NoMatchingList`); the
/// key text is the last word of the description (`NoDescription` if there
/// is none), must decode as base65536 (`Encoding`), must have the length
/// of sealed key material (`KeyTooShort`), must open under the recorded
/// nonce and the master key (`CannotDecrypt`), and what opens must be a
/// secretbox key (`BadKeyFormat`).
pub open spec fn recover_key_spec(desc: Seq<char>, nonce: Option<Seq<u8>>, mk: Seq<u8>) -> Result<
    Seq<u8>,
    E,
> {
    match nonce {
        None => Err(E::NoMatchingList),
        Some(n) => match last_word(desc) {
            None => Err(E::NoDescription),
            Some(w) => match b65536_decode_of(w, true) {
                None => Err(E::Encoding),
                Some(enc) => if enc.len() != LISTKEYBYTES {
                    Err(E::KeyTooShort)
                } else {
                    match secretbox_open_of(enc, n, mk) {
                        None => Err(E::CannotDecrypt),
                        Some(k) => if k.len() != KEY_LEN {
                            Err(E::BadKeyFormat)
                        } else {
                            Ok(k)
                        },
                    }
                },
            },
        },
    }
}

/// The byte view of an optional nonce.
pub open spec fn opt_bytes(o: Option<Vec<u8>>) -> Option<Seq<u8>> {
    match o {
        Some(n) => Some(n@),
        None => None,
    }
}

/// Whether an executable key-recovery result agrees with the specified
/// one.
pub open spec fn key_result_matches(r: Result<Vec<u8>, E>, s: Result<Seq<u8>, E>) -> bool {
    match (r, s) {
        (Ok(k), Ok(ks)) => k@ == ks,
        (Err(e), Err(es)) => e == es,
        _ => false,
    }
}

/// Read the user's list key out of a candidate list.  When this fails with
/// `NoMatchingList` (no nonce is recorded), the caller discards the stale
/// list before regenerating; on any failure a fresh key is generated.
pub fn recover_key(list: &ListInfo, list_nonce: &Option<Vec<u8>>, master_key: &Vec<u8>) -> (r:
    Result<Vec<u8>, E>)
    requires
        master_key@.len() == KEY_LEN,
        list_nonce matches Some(n) ==> n@.len() == NONCE_LEN,
    ensures
        key_result_matches(r, recover_key_spec(list.description@, opt_bytes(*list_nonce), master_key@)),
{
    let nonce = match list_nonce {
        Some(n) => n,
        None => {
            return Err(E::NoMatchingList);
        },
    };
    let w = match last_word_of(&list.description) {
        Some(w) => w,
        None => {
            return Err(E::NoDescription);
        },
    };
    let enc = match b65536_decode(&w, true) {
        Ok(b) => b,
        Err(err) => {
            return Err(E::from(err));
        },
    };
    if enc.len() != LISTKEYBYTES {
        return Err(E::KeyTooShort);
    }
    let key = match secretbox_open(&enc, nonce, master_key) {
        Some(k) => k,
        None => {
            return Err(E::CannotDecrypt);
        },
    };
    if key.len() != KEY_LEN {
        return Err(E::BadKeyFormat);
    }
    Ok(key)
}

/// The name a freshly created key list is given; it qualifies for
/// `select_owned_list`.
pub fn list_name() -> (r: &'static str)
    ensures
        starts_with(r@, "Reasonable key"@),
{
    proof {
        reveal_strlit("Reasonable key (pls keep)");
        reveal_strlit("Reasonable key");
        assert(("Reasonable key (pls keep)")@.subrange(0, 14) =~= ("Reasonable key")@);
    }
    "Reasonable key (pls keep)"
}

/// A freshly generated list key, with the nonce it was sealed under and
/// the description a new key list must carry so that `recover_key` reads
/// the same key back.
pub struct FreshKey {
    pub key: Vec<u8>,
    pub nonce: Vec<u8>,
    pub description: String,
}

/// Generate a new list key and the description that hides it: the sealed
/// key, base65536-encoded, stands as the last word after the help address.
/// Reading that description back under the same nonce and master key
/// yields exactly the new key.
pub fn fresh_key(master_key: &Vec<u8>) -> (r: FreshKey)
    requires
        master_key@.len() == KEY_LEN,
    ensures
        r.key@.len() == KEY_LEN,
        r.nonce@.len() == NONCE_LEN,
        r.description@ == ("Don’t change! ➡️ https://reasonable.kiwi/help/list-key ")@
            + b65536_encode_of(secretbox_seal_of(r.key@, r.nonce@, master_key@)),
        recover_key_spec(r.description@, Some(r.nonce@), master_key@) == Ok::<Seq<u8>, E>(r.key@),
{
    let key = gen_key();
    let non = gen_nonce();
    let enc = secretbox_seal(&key, &non, master_key);
    let b65 = b65536_encode(&enc);
    let mut description = String::from_str("Don’t change! ➡️ https://reasonable.kiwi/help/list-key ");
    description.append(b65.as_str());
    proof {
        let prefix = ("Don’t change! ➡️ https://reasonable.kiwi/help/list-key ")@;
        reveal_strlit("Don’t change! ➡️ https://reasonable.kiwi/help/list-key ");
        assert(prefix.len() > 0);
        assert(prefix.last() == ' ');
        assert(b65@.len() == 24);
        assert forall|j: int| 0 <= j < b65@.len() implies !is_space(b65@[j]) by {
            assert((0x1500 <= (b65@[j] as u32) && (b65@[j] as u32) < 0x1600) || 0x3400 <= (
            b65@[j] as u32));
        }
        lemma_last_word_append(prefix, b65@);
        assert(description@ == prefix + b65@);
        assert(enc@.len() == LISTKEYBYTES);
        assert(recover_key_spec(description@, Some(non@), master_key@) == Ok::<Seq<u8>, E>(key@));
    }
    FreshKey { key, nonce: non, description }
}

/// Record a freshly created key list on the user: the new list and the
/// nonce its key was sealed under; everything else stays as it was.
pub fn apply_fresh_key(plain: &mut plain::User, list_id: u64, nonce: Vec<u8>)
    ensures
        final(plain).list_id == Some(list_id),
        final(plain).list_nonce matches Some(n) && n@ == nonce@,
        final(plain).twitter_id == old(plain).twitter_id,
        final(plain).access_keys == old(plain).access_keys,
{
    plain.list_id = Some(list_id);
    plain.list_nonce = Some(nonce);
}

} // verus!
