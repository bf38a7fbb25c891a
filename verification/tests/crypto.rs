use reasonable::crypto::{
    gen_key, gen_nonce, random_bytes, secretbox_open, secretbox_seal, sealedbox_open,
};

#[test]
fn secretbox_seal_then_open_inverts() {
    sodiumoxide::init().expect("sodium init");
    let key = gen_key();
    let nonce = gen_nonce();
    assert_eq!(key.len(), 32);
    assert_eq!(nonce.len(), 24);
    let message = b"attack at dawn".to_vec();
    let sealed = secretbox_seal(&message, &nonce, &key);
    assert_eq!(sealed.len(), message.len() + 16);
    assert_eq!(secretbox_open(&sealed, &nonce, &key), Some(message));
}

#[test]
fn secretbox_open_rejects_tampering() {
    sodiumoxide::init().expect("sodium init");
    let key = gen_key();
    let nonce = gen_nonce();
    let mut sealed = secretbox_seal(&b"payload".to_vec(), &nonce, &key);
    sealed[0] ^= 1;
    assert_eq!(secretbox_open(&sealed, &nonce, &key), None);
    // the wrong nonce fails too
    let sealed = secretbox_seal(&b"payload".to_vec(), &nonce, &key);
    let other_nonce = gen_nonce();
    assert_eq!(secretbox_open(&sealed, &other_nonce, &key), None);
}

#[test]
fn sealedbox_open_matches_key_pair() {
    sodiumoxide::init().expect("sodium init");
    let (pk, sk) = sodiumoxide::crypto::box_::gen_keypair();
    let sealed = sodiumoxide::crypto::sealedbox::seal(b"for your eyes", &pk);
    assert_eq!(
        sealedbox_open(&sealed, &pk[..].to_vec(), &sk[..].to_vec()),
        Some(b"for your eyes".to_vec())
    );
    let (other_pk, other_sk) = sodiumoxide::crypto::box_::gen_keypair();
    assert_eq!(sealedbox_open(&sealed, &other_pk[..].to_vec(), &other_sk[..].to_vec()), None);
}

#[test]
fn random_bytes_has_requested_length() {
    sodiumoxide::init().expect("sodium init");
    assert_eq!(random_bytes(0).len(), 0);
    assert_eq!(random_bytes(655).len(), 655);
}
