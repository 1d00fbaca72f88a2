//! Ratchet, key-derivation and encrypt/decrypt behaviour, run against the
//! real X25519 / HKDF / AES-SIV implementations.

use lib_sig::crypto::{kdf_chain_key, kdf_root_key, KeyPair, PublicKey, RootKey, State};
use lib_sig::errors::CryptoError;
use lib_sig::message::Message;

fn fixed_pair(seed: u8) -> KeyPair {
    KeyPair::from_private(vec![seed; 32])
}

#[test]
fn public_key_is_not_the_private_key() {
    let kp = fixed_pair(7);
    assert_ne!(kp.public().bytes, vec![7u8; 32]);
}

#[test]
fn invalid_public_key_rejected() {
    let r = PublicKey::from_bytes(vec![1u8; 31]);
    assert!(matches!(r, Err(CryptoError::InvalidPublicKey)));
    let r = PublicKey::from_bytes(vec![1u8; 32]);
    assert!(r.is_ok());
}

#[test]
fn initial_states_agree_on_root_key() {
    // The two ends of the exchange derive the same initial root key.
    let alice = fixed_pair(1);
    let bob = fixed_pair(2);
    let a_state = State::new(alice.duplicate(), bob.public());
    let b_state = State::new(bob.duplicate(), alice.public());
    assert_eq!(a_state.root_key().key, b_state.root_key().key);
    // And it is not just either party's input echoed back.
    assert_ne!(a_state.root_key().key, vec![1u8; 32]);
    assert_ne!(a_state.root_key().key, alice.public().bytes);
}

#[test]
fn root_step_deterministic() {
    // Two derivations from identical inputs yield identical outputs.
    let alice = fixed_pair(3);
    let bob = fixed_pair(4);
    let root = RootKey::from_bytes(vec![9u8; 32]);
    let (r1, c1) = kdf_root_key(&root, alice.private(), &bob.public());
    let (r2, c2) = kdf_root_key(&root, alice.private(), &bob.public());
    assert_eq!(r1.key, r2.key);
    assert_eq!(c1.key, c2.key);
    assert_eq!(c1.count, 0);
    // The step actually moves: the new root differs from the old.
    assert_ne!(r1.key, vec![9u8; 32]);
}

#[test]
fn chain_step_deterministic_and_splits() {
    let chain = lib_sig::crypto::ChainKey::from_bytes(vec![5u8; 32]);
    let (n1, m1) = kdf_chain_key(&chain);
    let (n2, m2) = kdf_chain_key(&chain);
    assert_eq!(n1.key, n2.key);
    assert_eq!(m1, m2);
    assert_eq!(m1.len(), 32);
    assert_ne!(n1.key, m1);
    assert_ne!(n1.key, vec![5u8; 32]);
}

#[test]
fn encrypt_then_decrypt_round_trip() {
    let alice = fixed_pair(11);
    let bob = fixed_pair(12);
    let a_state = State::new(alice.duplicate(), bob.public());
    let b_state = State::new(bob.duplicate(), alice.public());

    let m = Message::new(
        "hello across the wire".to_string(),
        "alice".to_string(),
        "bob".to_string(),
        alice.public(),
    );
    let (env, a_next) = m.encrypt(&a_state).unwrap();
    // The ciphertext is not the plaintext: it carries a 16-byte synthetic IV
    // and the encrypted bytes.
    assert_ne!(env.encrypted_msg, "hello across the wire".as_bytes().to_vec());
    assert!(env.encrypted_msg.len() > "hello across the wire".len());
    let (plain, b_next) = env.decrypt(&b_state).unwrap();
    assert_eq!(plain.msg, "hello across the wire");
    assert_eq!(plain.sender_name, "alice");
    assert_eq!(plain.recv_name, "bob");
    // Both ends ratcheted to the same new root key.
    assert_eq!(a_next.root_key().key, b_next.root_key().key);
    // The envelope carries the fresh ephemeral key, not the identity key.
    assert_ne!(env.public_key.bytes, alice.public().bytes);
    assert_eq!(env.public_key.bytes, a_next.key_pair().public().bytes);
}

#[test]
fn encrypt_without_peer_key_fails() {
    let alice = fixed_pair(13);
    let bob = fixed_pair(14);
    let mut st = State::new(alice.duplicate(), bob.public());
    st.set_dh_pub(None);
    let m = Message::new("x".to_string(), "a".to_string(), "b".to_string(), alice.public());
    assert!(matches!(m.encrypt(&st), Err(CryptoError::NoPeerKey)));
}

#[test]
fn tampered_ciphertext_fails_authentication() {
    let alice = fixed_pair(15);
    let bob = fixed_pair(16);
    let a_state = State::new(alice.duplicate(), bob.public());
    let b_state = State::new(bob.duplicate(), alice.public());
    let m = Message::new("secret".to_string(), "a".to_string(), "b".to_string(), alice.public());
    let (mut env, _) = m.encrypt(&a_state).unwrap();
    env.encrypted_msg[0] ^= 0xff;
    assert!(matches!(env.decrypt(&b_state), Err(CryptoError::DecryptionFailure)));
}

#[test]
fn wrong_state_fails_authentication() {
    let alice = fixed_pair(17);
    let bob = fixed_pair(18);
    let carol = fixed_pair(19);
    let a_state = State::new(alice.duplicate(), bob.public());
    let c_state = State::new(carol.duplicate(), alice.public());
    let m = Message::new("secret".to_string(), "a".to_string(), "b".to_string(), alice.public());
    let (env, _) = m.encrypt(&a_state).unwrap();
    assert!(matches!(env.decrypt(&c_state), Err(CryptoError::DecryptionFailure)));
}

#[test]
fn successive_encrypts_use_fresh_ephemerals() {
    // Same plaintext, same state: different ciphertext and different carried
    // public keys, because each call draws a new ephemeral pair.
    let alice = fixed_pair(21);
    let bob = fixed_pair(22);
    let a_state = State::new(alice.duplicate(), bob.public());
    let m = Message::new("same text".to_string(), "a".to_string(), "b".to_string(), alice.public());
    let (env1, _) = m.encrypt(&a_state).unwrap();
    let (env2, _) = m.encrypt(&a_state).unwrap();
    assert_ne!(env1.public_key.bytes, env2.public_key.bytes);
    assert_ne!(env1.encrypted_msg, env2.encrypted_msg);
}

#[test]
fn decrypt_updates_peer_key_to_envelope_key() {
    let alice = fixed_pair(23);
    let bob = fixed_pair(24);
    let a_state = State::new(alice.duplicate(), bob.public());
    let b_state = State::new(bob.duplicate(), alice.public());
    let m = Message::new("m".to_string(), "a".to_string(), "b".to_string(), alice.public());
    let (env, _) = m.encrypt(&a_state).unwrap();
    let (_, b_next) = env.decrypt(&b_state).unwrap();
    assert_eq!(b_next.dh_pub().unwrap().bytes, env.public_key.bytes);
    assert!(b_next.chain_send().is_some());
    assert_eq!(b_next.pn(), 0);
}

#[test]
fn bootstrap_pair_round_trip() {
    // A pre-shared root key instead of a derived one: the two states still
    // carry one conversation.
    let alice = fixed_pair(25);
    let bob = fixed_pair(26);
    let shared = vec![42u8; 32];
    let a_state = State::bootstrap_pair(
        alice.duplicate(),
        bob.public(),
        RootKey::from_bytes(shared.clone()),
    );
    let b_state = State::bootstrap_pair(
        bob.duplicate(),
        alice.public(),
        RootKey::from_bytes(shared.clone()),
    );
    assert_eq!(a_state.root_key().key, shared);
    let m = Message::new("boot".to_string(), "a".to_string(), "b".to_string(), alice.public());
    let (env, _) = m.encrypt(&a_state).unwrap();
    let (plain, _) = env.decrypt(&b_state).unwrap();
    assert_eq!(plain.msg, "boot");
}

#[test]
fn chain_key_accessors() {
    let mut c = lib_sig::crypto::ChainKey::from_bytes(vec![8u8; 32]);
    assert_eq!(c.key(), vec![8u8; 32]);
    assert_eq!(c.count(), 0);
    c.set_count(5);
    assert_eq!(c.count(), 5);
    c.inc_count();
    assert_eq!(c.count(), 6);
    let other = lib_sig::crypto::ChainKey::from_bytes(vec![9u8; 32]);
    c.set_key(other);
    assert_eq!(c.key(), vec![9u8; 32]);
    assert_eq!(c.count(), 0);
}

#[test]
fn fresh_key_pairs_differ() {
    let a = KeyPair::new();
    let b = KeyPair::new();
    assert_ne!(a.public().bytes, b.public().bytes);
}
