//! The peer directory: uniqueness of registration, routing, broadcast,
//! removal and queue draining.

use lib_sig::crypto::PublicKey;
use lib_sig::directory::Directory;
use lib_sig::errors::{DirectoryError, ProtocolError};

fn key(seed: u8) -> PublicKey {
    PublicKey::from_bytes(vec![seed; 32]).unwrap()
}

fn s(t: &str) -> String {
    t.to_string()
}

#[test]
fn second_registration_of_a_name_is_rejected() {
    let mut dir = Directory::new();
    assert!(dir.register(s("alice"), 1).is_ok());
    assert!(matches!(
        dir.register(s("alice"), 2),
        Err(ProtocolError::AlreadyRegistered)
    ));
    // Exactly one record remains, under the first registration's handle.
    assert_eq!(dir.peers.len(), 1);
    assert_eq!(dir.peers[0].addr, 1);
}

#[test]
fn route_to_unknown_name_fails_and_changes_nothing() {
    let mut dir = Directory::new();
    dir.register(s("alice"), 1).unwrap();
    let r = dir.route(&s("bob"), &s("payload"));
    assert!(matches!(r, Err(DirectoryError::UnknownRecipient)));
    assert_eq!(dir.peers.len(), 1);
    assert!(dir.peers[0].queue.is_empty());
}

#[test]
fn route_enqueues_the_exact_line() {
    let mut dir = Directory::new();
    dir.register(s("alice"), 1).unwrap();
    dir.register(s("bob"), 2).unwrap();
    dir.route(&s("bob"), &s("enc 61 62 0102 ff")).unwrap();
    assert!(dir.peers[0].queue.is_empty());
    assert_eq!(dir.peers[1].queue, vec![s("enc 61 62 0102 ff")]);
}

#[test]
fn announce_is_first_wins() {
    let mut dir = Directory::new();
    dir.register(s("alice"), 1).unwrap();
    dir.announce_public_key(&s("alice"), &key(1));
    dir.announce_public_key(&s("alice"), &key(2));
    assert_eq!(dir.peers[0].public_key.as_ref().unwrap().bytes, vec![1u8; 32]);
    // Announcing for an unknown name is a no-op.
    dir.announce_public_key(&s("nobody"), &key(3));
    assert_eq!(dir.peers.len(), 1);
}

#[test]
fn broadcast_reaches_everyone_but_the_excluded() {
    let mut dir = Directory::new();
    dir.register(s("alice"), 1).unwrap();
    dir.register(s("bob"), 2).unwrap();
    dir.register(s("carol"), 3).unwrap();
    dir.broadcast_except(&s("bob"), &s("announcement"));
    assert_eq!(dir.peers[0].queue, vec![s("announcement")]);
    assert!(dir.peers[1].queue.is_empty());
    assert_eq!(dir.peers[2].queue, vec![s("announcement")]);
}

#[test]
fn removed_name_routes_nowhere_and_is_free_again() {
    let mut dir = Directory::new();
    dir.register(s("alice"), 1).unwrap();
    dir.register(s("bob"), 2).unwrap();
    dir.remove(&s("alice"));
    assert!(matches!(
        dir.route(&s("alice"), &s("x")),
        Err(DirectoryError::UnknownRecipient)
    ));
    assert!(dir.register(s("alice"), 3).is_ok());
    assert_eq!(dir.peers.len(), 2);
    // Removing an absent name is a no-op.
    dir.remove(&s("nobody"));
    assert_eq!(dir.peers.len(), 2);
}

#[test]
fn take_outbound_drains_the_queue_in_order() {
    let mut dir = Directory::new();
    dir.register(s("alice"), 1).unwrap();
    dir.route(&s("alice"), &s("one")).unwrap();
    dir.route(&s("alice"), &s("two")).unwrap();
    let lines = dir.take_outbound(&s("alice"));
    assert_eq!(lines, vec![s("one"), s("two")]);
    assert!(dir.take_outbound(&s("alice")).is_empty());
    // Draining an unknown name yields nothing.
    assert!(dir.take_outbound(&s("nobody")).is_empty());
}

#[test]
fn roster_lists_names_in_registration_order() {
    let mut dir = Directory::new();
    dir.register(s("alice"), 1).unwrap();
    dir.register(s("bob"), 2).unwrap();
    assert_eq!(dir.roster(), vec![s("alice"), s("bob")]);
    assert!(dir.contains_name(&s("alice")));
    assert!(!dir.contains_name(&s("carol")));
}
