use reasonable::error::E;
use reasonable::master_key;
use reasonable::plain;
use reasonable::user_key::{
    fresh_key, initial_lookup, list_name, recover_key, select_owned_list, ListInfo, Lookup,
};

fn master() -> Vec<u8> {
    sodiumoxide::init().expect("sodium init");
    sodiumoxide::crypto::secretbox::gen_key()[..].to_vec()
}

fn list_with(description: &str) -> ListInfo {
    ListInfo { id: 9, name: String::from("x"), description: String::from(description) }
}

#[test]
fn fresh_key_description_recovers_same_key() {
    let mk = master();
    let fresh = fresh_key(&mk);
    assert_eq!(fresh.key.len(), 32);
    assert_eq!(fresh.nonce.len(), 24);
    let list = ListInfo {
        id: 1,
        name: list_name().to_string(),
        description: fresh.description.clone(),
    };
    assert_eq!(recover_key(&list, &Some(fresh.nonce.clone()), &mk), Ok(fresh.key.clone()));
}

#[test]
fn recover_key_reports_each_failure() {
    let mk = master();
    let nonce = Some(vec![0u8; 24]);
    // no recorded nonce: the list is useless, whatever it says
    assert_eq!(recover_key(&list_with("anything"), &None, &mk), Err(E::NoMatchingList));
    // a description of white space has no last word
    assert_eq!(recover_key(&list_with(" \t "), &nonce, &mk), Err(E::NoDescription));
    // a plain ASCII last word decodes (as ignored garbage) to no key material
    assert_eq!(
        recover_key(&list_with("see https://example.org key"), &nonce, &mk),
        Err(E::KeyTooShort)
    );
    // a base65536 stream that continues after its final byte does not decode
    let odd = base65536::encode(&[1u8][..], None);
    let even = base65536::encode(&[1u8, 2][..], None);
    let word = format!("{}{}", odd, even);
    assert_eq!(
        recover_key(&list_with(&format!("k {}", word)), &nonce, &mk),
        Err(E::Encoding)
    );
    // well-formed key material that was never sealed under this key
    let bogus = base65536::encode(&[7u8; 48][..], None);
    assert_eq!(
        recover_key(&list_with(&format!("k {}", bogus)), &nonce, &mk),
        Err(E::CannotDecrypt)
    );
}

#[test]
fn select_owned_list_takes_last_key_list() {
    let li = |name: &str| ListInfo { id: 0, name: name.into(), description: String::new() };
    let lists = vec![
        li("Reasonable key (pls keep)"),
        li("groceries"),
        li("Reasonable key, old"),
        li("other"),
    ];
    assert_eq!(select_owned_list(&lists), Some(2));
    assert_eq!(select_owned_list(&vec![li("a"), li("b")]), None);
    assert_eq!(select_owned_list(&Vec::new()), None);
    // the name a fresh list gets qualifies
    assert_eq!(select_owned_list(&vec![li(list_name())]), Some(0));
}

#[test]
fn initial_lookup_prefers_recorded_list() {
    let with_list = plain::User {
        twitter_id: 1,
        list_id: Some(5),
        list_nonce: None,
        access_keys: None,
    };
    assert!(matches!(initial_lookup(&with_list), Lookup::Show(5)));
    let without = plain::User { twitter_id: 1, list_id: None, list_nonce: None, access_keys: None };
    assert!(matches!(initial_lookup(&without), Lookup::Ownerships));
}

#[test]
fn plain_user_getters_mirror_fields() {
    let user = plain::User {
        twitter_id: 7,
        list_id: Some(11),
        list_nonce: None,
        access_keys: Some((String::from("k"), String::from("s"))),
    };
    assert_eq!(user.twitter(), 7);
    assert_eq!(user.list(), Some(11));
    assert_eq!(user.keypair(), Some((String::from("k"), String::from("s"))));
    let bare = plain::User { twitter_id: 7, list_id: None, list_nonce: None, access_keys: None };
    assert_eq!(bare.list(), None);
    assert_eq!(bare.keypair(), None);
}

#[test]
fn encoded_key_text_has_no_whitespace() {
    let samples: Vec<Vec<u8>> = vec![
        Vec::new(),
        vec![0u8],
        vec![9u8, 10, 13, 32, 0x85],
        (0u8..=255).collect(),
    ];
    for bytes in samples {
        let text = reasonable::encoding::b65536_encode(&bytes);
        assert_eq!(text.chars().count(), (bytes.len() + 1) / 2);
        for c in text.chars() {
            assert!(!c.is_whitespace());
        }
    }
}

#[test]
fn master_key_recovers_sealed_key() {
    sodiumoxide::init().expect("sodium init");
    let (pk, sk) = sodiumoxide::crypto::box_::gen_keypair();
    let key = sodiumoxide::crypto::secretbox::gen_key();
    let enc = sodiumoxide::crypto::sealedbox::seal(&key[..], &pk);
    let b64 = base64::encode(&enc);
    assert_eq!(
        master_key(&pk[..].to_vec(), &sk[..].to_vec(), &b64),
        Some(key[..].to_vec())
    );
}

#[test]
fn master_key_rejects_bad_input() {
    sodiumoxide::init().expect("sodium init");
    let (pk, sk) = sodiumoxide::crypto::box_::gen_keypair();
    // not base64 at all
    assert_eq!(master_key(&pk[..].to_vec(), &sk[..].to_vec(), &String::from("!!!")), None);
    // sealed for somebody else
    let (other_pk, _) = sodiumoxide::crypto::box_::gen_keypair();
    let key = sodiumoxide::crypto::secretbox::gen_key();
    let enc = sodiumoxide::crypto::sealedbox::seal(&key[..], &other_pk);
    let b64 = base64::encode(&enc);
    assert_eq!(master_key(&pk[..].to_vec(), &sk[..].to_vec(), &b64), None);
}
