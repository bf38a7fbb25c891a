use std::hash::Hasher;

use reasonable::models::{twitter_hash, Reason, User};
use reasonable::plain;
use reasonable::plain::Cipher;

fn master() -> Vec<u8> {
    sodiumoxide::init().expect("sodium init");
    sodiumoxide::crypto::secretbox::gen_key()[..].to_vec()
}

fn plain_user() -> plain::User {
    plain::User { twitter_id: 92200252, list_id: None, list_nonce: None, access_keys: None }
}

#[test]
fn user_new_then_open_returns_payload() {
    let key = master();
    let bytes = b"serialized user payload".to_vec();
    let user = User::new(&plain_user(), &bytes, &key);
    assert_eq!(user.data_version, 1);
    assert_eq!(user.nonce.len(), 24);
    assert_eq!(user.twitter.len(), 8);
    assert_eq!(user.open(&key), Some(bytes));
}

#[test]
fn user_update_reseals_under_fresh_nonce() {
    let key = master();
    let user = User::new(&plain_user(), &b"old payload".to_vec(), &key);
    let updated = user.update(&plain_user(), &b"new payload".to_vec(), &key).unwrap();
    assert_eq!(updated.id, user.id);
    assert_eq!(updated.data_version, user.data_version);
    assert_eq!(updated.open(&key), Some(b"new payload".to_vec()));
    // the old row still opens to the old payload
    assert_eq!(user.open(&key), Some(b"old payload".to_vec()));
}

#[test]
fn wrong_key_does_not_open_a_row() {
    let key = master();
    let other = master();
    let user = User::new(&plain_user(), &b"secret".to_vec(), &key);
    assert_eq!(user.open(&other), None);
}

#[test]
fn reason_update_then_open_returns_payload() {
    let key = master();
    let row = Reason::default();
    let note = plain::Reason::new(plain::Action::Note, "worth remembering");
    assert_eq!(note.created, note.updated);
    let bytes = b"serialized reason payload".to_vec();
    let sealed = row.update(&note, &bytes, &key).unwrap();
    assert_eq!(sealed.open(&key), Some(bytes));
}

#[test]
fn reason_update_rejects_oversize_payload() {
    let key = master();
    let row = Reason::default();
    let warning = plain::Reason::new(plain::Action::Warning, "too long");
    assert!(row.update(&warning, &vec![0u8; 651], &key).is_none());
    assert!(row.update(&warning, &vec![0u8; 650], &key).is_some());
}

#[test]
fn default_reason_row_is_empty() {
    let key = master();
    // a fresh row holds no sealed payload yet, so it does not open
    assert_eq!(Reason::default().open(&key), None);
}

#[test]
fn twitter_hash_matches_the_hasher() {
    let key = master();
    let id = 92200252u64;
    let mut h = twox_hash::XxHash64::default();
    for b in &key {
        h.write_u8(*b);
    }
    h.write_u64(id);
    let expected = h.finish().to_le_bytes().to_vec();
    assert_eq!(twitter_hash(id, &key), expected);
    // a different id gives a different blind index
    assert_ne!(twitter_hash(id + 1, &key), twitter_hash(id, &key));
}
