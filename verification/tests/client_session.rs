//! The client session: command handling, the send path, key bookkeeping, and
//! a full client-to-client conversation over the wire format.

use lib_sig::crypto::KeyPair;
use lib_sig::message::{Msg, PubKey};
use lib_sig::session::{ClientOutcome, ClientSession};
use lib_sig::wire::parse_line;

fn s(t: &str) -> String {
    t.to_string()
}

fn session(name: &str, seed: u8) -> ClientSession {
    ClientSession::new(s(name), KeyPair::from_private(vec![seed; 32]))
}

#[test]
fn hello_lines_parse_back() {
    let alice = session("alice", 61);
    let (register, announce) = alice.hello_lines();
    match parse_line(&register).unwrap() {
        Msg::Register(r) => assert_eq!(r.client_name, "alice"),
        _ => panic!("expected a registration"),
    }
    match parse_line(&announce).unwrap() {
        Msg::PubKey(p) => {
            assert_eq!(p.user, "alice");
            assert_eq!(p.public_key.bytes, alice.my_keys.public().bytes);
        },
        _ => panic!("expected a key announcement"),
    }
}

#[test]
fn help_and_list_commands() {
    let mut alice = session("alice", 62);
    match alice.handle_input(&s("!help")) {
        ClientOutcome::Notice(t) => assert_eq!(t, "to message someone type: username>message"),
        _ => panic!("expected the help notice"),
    }
    match alice.handle_input(&s("!list")) {
        ClientOutcome::Notice(t) => assert_eq!(t, "connected users: , alice"),
        _ => panic!("expected the roster notice"),
    }
    assert!(matches!(alice.handle_input(&s("!quit")), ClientOutcome::Ignored));
}

#[test]
fn input_without_separator_is_rejected() {
    let mut alice = session("alice", 63);
    match alice.handle_input(&s("just some words")) {
        ClientOutcome::Notice(t) => {
            assert_eq!(t, "wrong message format, to write message use \"<user> > <msg>\"")
        },
        _ => panic!("expected the format notice"),
    }
}

#[test]
fn messaging_yourself_is_rejected() {
    let mut alice = session("alice", 64);
    match alice.handle_input(&s("alice>hi me")) {
        ClientOutcome::Notice(t) => assert_eq!(t, "cannot message yourself"),
        _ => panic!("expected the self-message notice"),
    }
}

#[test]
fn messaging_an_unknown_peer_is_rejected() {
    let mut alice = session("alice", 65);
    match alice.handle_input(&s("bob>hello")) {
        ClientOutcome::Notice(t) => {
            assert_eq!(t, "the user you tried to message does not exist: bob")
        },
        _ => panic!("expected the unknown-peer notice"),
    }
}

#[test]
fn conversation_between_two_sessions() {
    let mut alice = session("alice", 66);
    let mut bob = session("bob", 67);

    // Each side learns the other's key, as the server would broadcast it.
    let bob_ann = PubKey::new(s("bob"), bob.my_keys.public());
    alice.handle_pubkey(&bob_ann);
    let alice_ann = PubKey::new(s("alice"), alice.my_keys.public());
    bob.handle_pubkey(&alice_ann);

    // Alice sends; the line crosses the wire verbatim; Bob decrypts.
    let wire = match alice.handle_input(&s("bob>hello bob")) {
        ClientOutcome::SendLine(l) => l,
        _ => panic!("expected a line to send"),
    };
    match bob.handle_server_line(&wire) {
        ClientOutcome::Delivered(m) => {
            assert_eq!(m.msg, "hello bob");
            assert_eq!(m.sender_name, "alice");
            assert_eq!(m.recv_name, "bob");
        },
        other => panic!("expected delivery, got {:?}", other),
    }

    // And back: Bob answers and Alice decrypts.
    let wire = match bob.handle_input(&s("alice>hi bob")) {
        ClientOutcome::SendLine(l) => l,
        _ => panic!("expected a line to send"),
    };
    match alice.handle_server_line(&wire) {
        ClientOutcome::Delivered(m) => assert_eq!(m.msg, "hi bob"),
        other => panic!("expected delivery, got {:?}", other),
    }
}

#[test]
fn text_after_second_separator_is_dropped() {
    // The message is the segment between the first and second separator.
    let mut alice = session("alice", 68);
    let mut bob = session("bob", 69);
    alice.handle_pubkey(&PubKey::new(s("bob"), bob.my_keys.public()));
    bob.handle_pubkey(&PubKey::new(s("alice"), alice.my_keys.public()));
    let wire = match alice.handle_input(&s("bob>first>second")) {
        ClientOutcome::SendLine(l) => l,
        _ => panic!("expected a line to send"),
    };
    match bob.handle_server_line(&wire) {
        ClientOutcome::Delivered(m) => assert_eq!(m.msg, "first"),
        other => panic!("expected delivery, got {:?}", other),
    }
}

#[test]
fn own_announcement_is_ignored() {
    let mut alice = session("alice", 70);
    let own = PubKey::new(s("alice"), KeyPair::from_private(vec![99; 32]).public());
    alice.handle_pubkey(&own);
    assert!(alice.peer_keys.is_empty());
    assert!(alice.sessions.is_empty());
}

#[test]
fn later_announcement_replaces_key_but_keeps_session() {
    let mut alice = session("alice", 71);
    let k1 = KeyPair::from_private(vec![72; 32]);
    let k2 = KeyPair::from_private(vec![73; 32]);
    alice.handle_pubkey(&PubKey::new(s("bob"), k1.public()));
    alice.handle_pubkey(&PubKey::new(s("bob"), k2.public()));
    assert_eq!(alice.peer_keys.len(), 1);
    assert_eq!(alice.peer_keys[0].public_key.bytes, k2.public().bytes);
    assert_eq!(alice.sessions.len(), 1);
}

#[test]
fn undecryptable_message_leaves_session_usable() {
    let mut alice = session("alice", 74);
    let mut bob = session("bob", 75);
    let mut carol = session("carol", 76);
    alice.handle_pubkey(&PubKey::new(s("bob"), bob.my_keys.public()));
    bob.handle_pubkey(&PubKey::new(s("alice"), alice.my_keys.public()));
    // Carol impersonates Alice without her key material.
    carol.handle_pubkey(&PubKey::new(s("bob"), bob.my_keys.public()));
    let mut forged = match carol.handle_input(&s("bob>intercepted")) {
        ClientOutcome::SendLine(l) => l,
        _ => panic!("expected a line to send"),
    };
    forged = forged.replace("enc 6361726f6c", "enc 616c696365");
    match bob.handle_server_line(&forged) {
        ClientOutcome::Failed(_) => {},
        other => panic!("expected a failure, got {:?}", other),
    }
    // The honest conversation still works afterwards.
    let wire = match alice.handle_input(&s("bob>still here")) {
        ClientOutcome::SendLine(l) => l,
        _ => panic!("expected a line to send"),
    };
    match bob.handle_server_line(&wire) {
        ClientOutcome::Delivered(m) => assert_eq!(m.msg, "still here"),
        other => panic!("expected delivery, got {:?}", other),
    }
}
