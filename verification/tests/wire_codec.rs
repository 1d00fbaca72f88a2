//! The wire codec: serialization and parsing of each envelope kind, and the
//! malformed cases.

use lib_sig::crypto::PublicKey;
use lib_sig::errors::ProtocolError;
use lib_sig::message::{
    EncryptedMessage, ErrMessage, Info, Message, Msg, PubKey, RegisterMessage,
};
use lib_sig::wire::{parse_line, serialize_msg};

fn key(seed: u8) -> PublicKey {
    PublicKey::from_bytes(vec![seed; 32]).unwrap()
}

#[test]
fn register_round_trip() {
    let line = serialize_msg(&Msg::Register(RegisterMessage::new("alice".to_string())));
    match parse_line(&line).unwrap() {
        Msg::Register(r) => assert_eq!(r.client_name, "alice"),
        _ => panic!("wrong variant"),
    }
}

#[test]
fn register_wire_form_is_readable_text() {
    let line = serialize_msg(&Msg::Register(RegisterMessage::new("hi".to_string())));
    // "hi" is 0x68 0x69 in UTF-8, so the line is the tag and its hex.
    assert_eq!(line, "reg 6869");
}

#[test]
fn info_and_error_round_trip() {
    let line = serialize_msg(&Msg::Info(Info::new("all good".to_string())));
    match parse_line(&line).unwrap() {
        Msg::Info(i) => assert_eq!(i.info, "all good"),
        _ => panic!("wrong variant"),
    }
    let line = serialize_msg(&Msg::Error(ErrMessage::new("nope".to_string())));
    match parse_line(&line).unwrap() {
        Msg::Error(e) => assert_eq!(e.error, "nope"),
        _ => panic!("wrong variant"),
    }
}

#[test]
fn empty_text_round_trip() {
    let line = serialize_msg(&Msg::Info(Info::new(String::new())));
    match parse_line(&line).unwrap() {
        Msg::Info(i) => assert_eq!(i.info, ""),
        _ => panic!("wrong variant"),
    }
}

#[test]
fn unicode_text_round_trip() {
    let text = "gr\u{fc}\u{df}e \u{1f511}".to_string();
    let line = serialize_msg(&Msg::Info(Info::new(text.clone())));
    match parse_line(&line).unwrap() {
        Msg::Info(i) => assert_eq!(i.info, text),
        _ => panic!("wrong variant"),
    }
}

#[test]
fn pubkey_round_trip() {
    let line = serialize_msg(&Msg::PubKey(PubKey::new("bob".to_string(), key(5))));
    match parse_line(&line).unwrap() {
        Msg::PubKey(p) => {
            assert_eq!(p.user, "bob");
            assert_eq!(p.public_key.bytes, vec![5u8; 32]);
        },
        _ => panic!("wrong variant"),
    }
}

#[test]
fn encrypted_round_trip() {
    let env = EncryptedMessage {
        sender_name: "alice".to_string(),
        recv_name: "bob".to_string(),
        encrypted_msg: vec![0, 1, 2, 250, 255],
        public_key: key(9),
    };
    let line = serialize_msg(&Msg::EncryptedMessage(env));
    match parse_line(&line).unwrap() {
        Msg::EncryptedMessage(e) => {
            assert_eq!(e.sender_name, "alice");
            assert_eq!(e.recv_name, "bob");
            assert_eq!(e.encrypted_msg, vec![0, 1, 2, 250, 255]);
            assert_eq!(e.public_key.bytes, vec![9u8; 32]);
        },
        _ => panic!("wrong variant"),
    }
}

#[test]
fn plaintext_message_round_trip() {
    let m = Message::new(
        "the text".to_string(),
        "alice".to_string(),
        "bob".to_string(),
        key(3),
    );
    let line = serialize_msg(&Msg::Message(m));
    match parse_line(&line).unwrap() {
        Msg::Message(m2) => {
            assert_eq!(m2.msg, "the text");
            assert_eq!(m2.sender_name, "alice");
            assert_eq!(m2.recv_name, "bob");
            assert_eq!(m2.public_key.bytes, vec![3u8; 32]);
        },
        _ => panic!("wrong variant"),
    }
}

fn assert_malformed(line: &str) {
    assert!(matches!(
        parse_line(&line.to_string()),
        Err(ProtocolError::MalformedEnvelope)
    ));
}

#[test]
fn unknown_tag_is_malformed() {
    assert_malformed("zzz 6869");
}

#[test]
fn missing_field_is_malformed() {
    assert_malformed("reg");
    assert_malformed("key 6869");
    assert_malformed("enc 61 62 0102");
}

#[test]
fn extra_field_is_malformed() {
    assert_malformed("reg 6869 6869");
}

#[test]
fn odd_hex_is_malformed() {
    assert_malformed("reg 686");
}

#[test]
fn non_hex_digit_is_malformed() {
    assert_malformed("reg 68X9");
    assert_malformed("reg 68AB"); // uppercase is not part of the grammar
}

#[test]
fn short_key_is_malformed() {
    // 4 bytes instead of 32.
    assert_malformed("key 626f62 01020304");
}

#[test]
fn invalid_utf8_field_is_malformed() {
    // 0xff 0xfe is not UTF-8.
    assert_malformed("reg fffe");
}

#[test]
fn empty_line_is_malformed() {
    assert_malformed("");
}
