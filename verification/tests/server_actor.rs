//! The connection actor: the registration handshake, dispatch in the active
//! phase, disconnect cleanup, and the end-to-end two-client scenario.

use lib_sig::crypto::{KeyPair, State};
use lib_sig::directory::Directory;
use lib_sig::message::{Message, Msg, PubKey, RegisterMessage};
use lib_sig::server::{ActorPhase, ConnActor};
use lib_sig::wire::{parse_line, serialize_msg};

fn s(t: &str) -> String {
    t.to_string()
}

fn reg_line(name: &str) -> String {
    serialize_msg(&Msg::Register(RegisterMessage::new(s(name))))
}

fn key_line(user: &str, kp: &KeyPair) -> String {
    serialize_msg(&Msg::PubKey(PubKey::new(s(user), kp.public())))
}

#[test]
fn first_registration_is_admitted_with_motd() {
    let mut dir = Directory::new();
    let mut a = ConnActor::new(1);
    let out = a.handle_line(&mut dir, &reg_line("alice"));
    assert!(out.is_empty());
    assert!(matches!(a.phase, ActorPhase::Active));
    assert_eq!(a.name, "alice");
    let lines = dir.take_outbound(&s("alice"));
    // No keys are known yet, so the queue holds only the admission notice.
    assert_eq!(lines.len(), 1);
    match parse_line(&lines[0]).unwrap() {
        Msg::Info(i) => assert_eq!(
            i.info,
            "Welcome to this simple server! Users currently connected: alice"
        ),
        _ => panic!("expected the admission notice"),
    }
}

#[test]
fn conflicting_registration_is_refused_and_not_admitted() {
    let mut dir = Directory::new();
    let mut a = ConnActor::new(1);
    a.handle_line(&mut dir, &reg_line("alice"));
    let mut b = ConnActor::new(2);
    let out = b.handle_line(&mut dir, &reg_line("alice"));
    assert!(matches!(b.phase, ActorPhase::Closed));
    assert_eq!(dir.peers.len(), 1);
    assert_eq!(dir.peers[0].addr, 1);
    // The error goes back to the new connection, not to the existing holder.
    assert_eq!(out.len(), 1);
    match parse_line(&out[0]).unwrap() {
        Msg::Error(e) => assert_eq!(e.error, "user already exists"),
        _ => panic!("expected an error envelope"),
    }
}

#[test]
fn non_register_first_line_closes_without_directory_change() {
    let mut dir = Directory::new();
    let mut a = ConnActor::new(1);
    let out = a.handle_line(&mut dir, &key_line("alice", &KeyPair::from_private(vec![1; 32])));
    assert!(out.is_empty());
    assert!(matches!(a.phase, ActorPhase::Closed));
    assert_eq!(dir.peers.len(), 0);
}

#[test]
fn malformed_first_line_closes_without_directory_change() {
    let mut dir = Directory::new();
    let mut a = ConnActor::new(1);
    a.handle_line(&mut dir, &s("not an envelope"));
    assert!(matches!(a.phase, ActorPhase::Closed));
    assert_eq!(dir.peers.len(), 0);
}

#[test]
fn malformed_line_in_active_phase_is_dropped() {
    let mut dir = Directory::new();
    let mut a = ConnActor::new(1);
    a.handle_line(&mut dir, &reg_line("alice"));
    dir.take_outbound(&s("alice"));
    a.handle_line(&mut dir, &s("garbage ###"));
    assert!(matches!(a.phase, ActorPhase::Active));
    assert!(dir.take_outbound(&s("alice")).is_empty());
}

#[test]
fn close_releases_the_registration() {
    let mut dir = Directory::new();
    let mut a = ConnActor::new(1);
    a.handle_line(&mut dir, &reg_line("alice"));
    a.close(&mut dir);
    assert!(matches!(a.phase, ActorPhase::Closed));
    assert_eq!(dir.peers.len(), 0);
    // The name is free for a new connection again.
    let mut b = ConnActor::new(2);
    b.handle_line(&mut dir, &reg_line("alice"));
    assert!(matches!(b.phase, ActorPhase::Active));
}

#[test]
fn end_to_end_two_clients() {
    let mut dir = Directory::new();
    let alice_keys = KeyPair::from_private(vec![31; 32]);
    let bob_keys = KeyPair::from_private(vec![32; 32]);

    // Alice registers and announces her key.
    let mut a = ConnActor::new(1);
    a.handle_line(&mut dir, &reg_line("alice"));
    dir.take_outbound(&s("alice"));  // the admission notice
    a.handle_line(&mut dir, &key_line("alice", &alice_keys));
    // Nobody else is connected: the broadcast reached no queue.
    assert!(dir.take_outbound(&s("alice")).is_empty());

    // Bob registers: his queue starts with the dump of Alice's key.
    let mut b = ConnActor::new(2);
    b.handle_line(&mut dir, &reg_line("bob"));
    let bob_admission = dir.take_outbound(&s("bob"));
    assert_eq!(bob_admission.len(), 2);
    match parse_line(&bob_admission[0]).unwrap() {
        Msg::PubKey(p) => {
            assert_eq!(p.user, "alice");
            assert_eq!(p.public_key.bytes, alice_keys.public().bytes);
        },
        _ => panic!("expected the key dump"),
    }
    match parse_line(&bob_admission[1]).unwrap() {
        Msg::Info(i) => assert_eq!(
            i.info,
            "Welcome to this simple server! Users currently connected: alice, bob"
        ),
        _ => panic!("expected the admission notice"),
    }

    // Bob announces his key; Alice receives the broadcast exactly once.
    b.handle_line(&mut dir, &key_line("bob", &bob_keys));
    let alice_queue = dir.take_outbound(&s("alice"));
    assert_eq!(alice_queue.len(), 1);
    match parse_line(&alice_queue[0]).unwrap() {
        Msg::PubKey(p) => {
            assert_eq!(p.user, "bob");
            assert_eq!(p.public_key.bytes, bob_keys.public().bytes);
        },
        _ => panic!("expected the broadcast announcement"),
    }
    assert!(dir.take_outbound(&s("bob")).is_empty());

    // Alice encrypts "hi" to Bob and the server routes the exact line.
    let a_state = State::new(alice_keys.duplicate(), bob_keys.public());
    let b_state = State::new(bob_keys.duplicate(), alice_keys.public());
    let m = Message::new(s("hi"), s("alice"), s("bob"), alice_keys.public());
    let (env, _) = m.encrypt(&a_state).unwrap();
    let wire = serialize_msg(&Msg::EncryptedMessage(env));
    a.handle_line(&mut dir, &wire);
    let bob_queue = dir.take_outbound(&s("bob"));
    assert_eq!(bob_queue, vec![wire.clone()]);

    // Bob decrypts what arrived and recovers "hi".
    match parse_line(&bob_queue[0]).unwrap() {
        Msg::EncryptedMessage(env2) => {
            let (plain, _) = env2.decrypt(&b_state).unwrap();
            assert_eq!(plain.msg, "hi");
            assert_eq!(plain.sender_name, "alice");
        },
        _ => panic!("expected the routed envelope"),
    }
}

#[test]
fn encrypted_to_unknown_recipient_changes_nothing() {
    let mut dir = Directory::new();
    let mut a = ConnActor::new(1);
    a.handle_line(&mut dir, &reg_line("alice"));
    dir.take_outbound(&s("alice"));
    let alice_keys = KeyPair::from_private(vec![41; 32]);
    let bob_keys = KeyPair::from_private(vec![42; 32]);
    let a_state = State::new(alice_keys.duplicate(), bob_keys.public());
    let m = Message::new(s("hi"), s("alice"), s("bob"), alice_keys.public());
    let (env, _) = m.encrypt(&a_state).unwrap();
    let wire = serialize_msg(&Msg::EncryptedMessage(env));
    a.handle_line(&mut dir, &wire);
    assert_eq!(dir.peers.len(), 1);
    assert!(dir.take_outbound(&s("alice")).is_empty());
}

#[test]
fn announcement_after_key_is_set_keeps_first_key_but_still_broadcasts() {
    let mut dir = Directory::new();
    let mut a = ConnActor::new(1);
    let mut b = ConnActor::new(2);
    let k1 = KeyPair::from_private(vec![51; 32]);
    let k2 = KeyPair::from_private(vec![52; 32]);
    a.handle_line(&mut dir, &reg_line("alice"));
    b.handle_line(&mut dir, &reg_line("bob"));
    dir.take_outbound(&s("alice"));
    dir.take_outbound(&s("bob"));
    a.handle_line(&mut dir, &key_line("alice", &k1));
    a.handle_line(&mut dir, &key_line("alice", &k2));
    // First announcement wins in the directory.
    assert_eq!(dir.peers[0].public_key.as_ref().unwrap().bytes, k1.public().bytes);
    // But each announcement was broadcast to Bob.
    assert_eq!(dir.take_outbound(&s("bob")).len(), 2);
}
