//! The envelope protocol: the closed set of tagged wire messages, and the
//! encrypt/decrypt boundary where plaintext envelopes meet the ratchet.

use vstd::prelude::*;
use vstd::utf8::{decode_utf8, encode_utf8, valid_utf8};

use crate::bytes_util::string_from_utf8;
use crate::crypto::{
    dh_shared, kdf_chain_key, kdf_root_key, message_nonce, message_nonce_bytes, public_key_of,
    siv_open, siv_open_bytes, siv_seal, siv_seal_bytes, spec_chain_step, spec_message_key,
    spec_root_step, ChainKey, ChainKeyV, KeyPair, KeyPairV, PublicKey, State, StateV,
};
use crate::errors::CryptoError;

verus! {

// ---------------------------------------------------------------------------
// The envelope variants.
// ---------------------------------------------------------------------------

/// The mathematical content of a [`RegisterMessage`].
#[verifier::ext_equal]
pub struct RegisterMessageV {
    pub client_name: Seq<char>,
}

/// The registration request a client sends as its first line.
#[derive(Debug)]
pub struct RegisterMessage {
    pub client_name: String,
}

impl View for RegisterMessage {
    type V = RegisterMessageV;

    open spec fn view(&self) -> RegisterMessageV {
        RegisterMessageV { client_name: self.client_name@ }
    }
}

impl RegisterMessage {
    /// A registration request under the given name.
    pub fn new(client_name: String) -> (r: RegisterMessage)
        ensures
            r@.client_name == client_name@,
    {
        RegisterMessage { client_name }
    }
}

/// The mathematical content of a [`Message`].
#[verifier::ext_equal]
pub struct MessageV {
    pub sender_name: Seq<char>,
    pub recv_name: Seq<char>,
    pub msg: Seq<char>,
    pub public_key: Seq<u8>,
}

/// A plaintext message; exists only transiently around the encrypt/decrypt
/// boundary and never crosses the network in this form.
#[derive(Debug)]
pub struct Message {
    pub sender_name: String,
    pub recv_name: String,
    pub msg: String,
    pub public_key: PublicKey,
}

impl View for Message {
    type V = MessageV;

    open spec fn view(&self) -> MessageV {
        MessageV {
            sender_name: self.sender_name@,
            recv_name: self.recv_name@,
            msg: self.msg@,
            public_key: self.public_key@,
        }
    }
}

/// The mathematical content of an [`EncryptedMessage`].
#[verifier::ext_equal]
pub struct EncryptedMessageV {
    pub sender_name: Seq<char>,
    pub recv_name: Seq<char>,
    pub encrypted_msg: Seq<u8>,
    pub public_key: Seq<u8>,
}

/// The wire form of a message: the ciphertext together with the sender's
/// fresh ephemeral public key.  The only form that crosses the network.
#[derive(Debug)]
pub struct EncryptedMessage {
    pub sender_name: String,
    pub recv_name: String,
    pub encrypted_msg: Vec<u8>,
    pub public_key: PublicKey,
}

impl View for EncryptedMessage {
    type V = EncryptedMessageV;

    open spec fn view(&self) -> EncryptedMessageV {
        EncryptedMessageV {
            sender_name: self.sender_name@,
            recv_name: self.recv_name@,
            encrypted_msg: self.encrypted_msg@,
            public_key: self.public_key@,
        }
    }
}

impl EncryptedMessage {
    /// The carried public key has its required length.
    pub open spec fn wf(&self) -> bool {
        self.public_key.wf()
    }
}

/// The mathematical content of an [`ErrMessage`].
#[verifier::ext_equal]
pub struct ErrMessageV {
    pub error: Seq<char>,
}

/// An error report sent to a client.
#[derive(Debug)]
pub struct ErrMessage {
    pub error: String,
}

impl View for ErrMessage {
    type V = ErrMessageV;

    open spec fn view(&self) -> ErrMessageV {
        ErrMessageV { error: self.error@ }
    }
}

impl ErrMessage {
    /// An error report with the given text.
    pub fn new(error: String) -> (r: ErrMessage)
        ensures
            r@.error == error@,
    {
        ErrMessage { error }
    }
}

/// The mathematical content of an [`Info`].
#[verifier::ext_equal]
pub struct InfoV {
    pub info: Seq<char>,
}

/// An informational notice sent to a client.
#[derive(Debug)]
pub struct Info {
    pub info: String,
}

impl View for Info {
    type V = InfoV;

    open spec fn view(&self) -> InfoV {
        InfoV { info: self.info@ }
    }
}

impl Info {
    /// A notice with the given text.
    pub fn new(info: String) -> (r: Info)
        ensures
            r@.info == info@,
    {
        Info { info }
    }
}

/// The mathematical content of a [`PubKey`].
#[verifier::ext_equal]
pub struct PubKeyV {
    pub user: Seq<char>,
    pub public_key: Seq<u8>,
}

/// A public-key announcement: which user the key belongs to, and the key.
#[derive(Debug)]
pub struct PubKey {
    pub user: String,
    pub public_key: PublicKey,
}

impl View for PubKey {
    type V = PubKeyV;

    open spec fn view(&self) -> PubKeyV {
        PubKeyV { user: self.user@, public_key: self.public_key@ }
    }
}

impl PubKey {
    /// The carried public key has its required length.
    pub open spec fn wf(&self) -> bool {
        self.public_key.wf()
    }

    /// An announcement of `public_key` as the key of `user`.
    pub fn new(user: String, public_key: PublicKey) -> (r: PubKey)
        ensures
            r@.user == user@,
            r@.public_key == public_key@,
    {
        PubKey { user, public_key }
    }
}

/// The mathematical content of a [`Msg`].
#[verifier::ext_equal]
pub enum MsgV {
    Message(MessageV),
    EncryptedMessage(EncryptedMessageV),
    Register(RegisterMessageV),
    Error(ErrMessageV),
    Info(InfoV),
    PubKey(PubKeyV),
}

/// The closed set of envelopes that cross the wire, one per line.
#[derive(Debug)]
pub enum Msg {
    Message(Message),
    EncryptedMessage(EncryptedMessage),
    Register(RegisterMessage),
    Error(ErrMessage),
    Info(Info),
    PubKey(PubKey),
}

impl Msg {
    /// Any public key the envelope carries has its required length.
    pub open spec fn wf(&self) -> bool {
        match self {
            Msg::PubKey(m) => m.wf(),
            Msg::EncryptedMessage(m) => m.wf(),
            Msg::Message(m) => m.public_key.wf(),
            _ => true,
        }
    }
}

impl View for Msg {
    type V = MsgV;

    open spec fn view(&self) -> MsgV {
        match self {
            Msg::Message(m) => MsgV::Message(m@),
            Msg::EncryptedMessage(m) => MsgV::EncryptedMessage(m@),
            Msg::Register(m) => MsgV::Register(m@),
            Msg::Error(m) => MsgV::Error(m@),
            Msg::Info(m) => MsgV::Info(m@),
            Msg::PubKey(m) => MsgV::PubKey(m@),
        }
    }
}

// ---------------------------------------------------------------------------
// The encrypt/decrypt boundary.
// ---------------------------------------------------------------------------

/// What a successful encryption step produces, given the peer public key
/// `peer` known to the old state and the ephemeral pair `eph` drawn for this
/// step: the envelope carries the ciphertext of the message text under the
/// one-time key of this step and the fresh ephemeral public key, and the new
/// state has ratcheted forward.
pub open spec fn spec_encrypt_ok(
    m: MessageV,
    eph: KeyPairV,
    st: StateV,
    peer: Seq<u8>,
    env: EncryptedMessageV,
    st2: StateV,
) -> bool {
    let ikm = dh_shared(eph.private, peer);
    &&& env.sender_name == m.sender_name
    &&& env.recv_name == m.recv_name
    &&& env.public_key == eph.public
    &&& env.encrypted_msg == siv_seal_bytes(
        spec_message_key(st.root_key, ikm),
        message_nonce(),
        encode_utf8(m.msg),
    )
    &&& siv_open_bytes(spec_message_key(st.root_key, ikm), message_nonce(), env.encrypted_msg)
        == Some(encode_utf8(m.msg))
    &&& st2.key_pair == eph
    &&& st2.dh_pub == st.dh_pub
    &&& st2.root_key == spec_root_step(st.root_key, ikm).0
    &&& st2.chain_send == Some(
        ChainKeyV { key: spec_chain_step(spec_root_step(st.root_key, ikm).1).0, count: 0 },
    )
    &&& st2.chain_recv == st.chain_recv
    &&& st2.pn == st.pn
}

/// What a successful decryption step produces when the opened plaintext bytes
/// decode to the text `text`: the message fields are taken from the envelope,
/// and the new state has ratcheted forward and adopted the envelope's
/// public key as the peer's.
pub open spec fn spec_decrypt_ok(
    env: EncryptedMessageV,
    st: StateV,
    text: Seq<char>,
    m: MessageV,
    st2: StateV,
) -> bool {
    let ikm = dh_shared(st.key_pair.private, env.public_key);
    &&& m.sender_name == env.sender_name
    &&& m.recv_name == env.recv_name
    &&& m.msg == text
    &&& m.public_key == env.public_key
    &&& st2.key_pair == st.key_pair
    &&& st2.dh_pub == Some(env.public_key)
    &&& st2.root_key == spec_root_step(st.root_key, ikm).0
    &&& st2.chain_send == Some(
        ChainKeyV { key: spec_chain_step(spec_root_step(st.root_key, ikm).1).0, count: 0 },
    )
    &&& st2.chain_recv == st.chain_recv
    &&& st2.pn == st.pn
}

impl Message {
    /// A plaintext message from `from` to `to` carrying the sender's public key.
    pub fn new(msg: String, from: String, to: String, public_key: PublicKey) -> (r: Message)
        ensures
            r@.msg == msg@,
            r@.sender_name == from@,
            r@.recv_name == to@,
            r@.public_key == public_key@,
    {
        Message { sender_name: from, recv_name: to, msg, public_key }
    }

    /// One full ratchet step under the given fresh ephemeral pair: derives a
    /// new root key from the ephemeral secret and the peer's known public
    /// key, derives the one-time message key, and seals the message text.
    /// Fails exactly when no public key of the peer is known yet.
    pub fn encrypt_with(&self, ephemeral: KeyPair, state: &State) -> (r: Result<
        (EncryptedMessage, State),
        CryptoError,
    >)
        requires
            ephemeral.wf(),
            state.wf(),
        ensures
            state@.dh_pub is None ==> (r matches Err(e) && e == CryptoError::NoPeerKey),
            state@.dh_pub matches Some(peer) ==> (r matches Ok(p) && spec_encrypt_ok(
                self@,
                ephemeral@,
                state@,
                peer,
                p.0@,
                p.1@,
            ) && p.0.wf() && p.1.wf()),
    {
        match &state.dh_pub {
            None => Err(CryptoError::NoPeerKey),
            Some(peer) => {
                let (root_key, chain_key) = kdf_root_key(
                    &state.root_key,
                    &ephemeral.private,
                    peer,
                );
                let (chain_key_send, mk) = kdf_chain_key(&chain_key);
                let nonce = message_nonce_bytes();
                let msg_bytes = self.msg.as_str().as_bytes_vec();
                let encrypted_msg = siv_seal(&mk, &nonce, &msg_bytes);
                let peer_copy = peer.duplicate();
                Ok(
                    (
                        EncryptedMessage {
                            sender_name: self.sender_name.clone(),
                            recv_name: self.recv_name.clone(),
                            encrypted_msg,
                            public_key: ephemeral.public.duplicate(),
                        },
                        State {
                            key_pair: ephemeral,
                            dh_pub: Some(peer_copy),
                            root_key,
                            chain_send: Some(chain_key_send),
                            chain_recv: match &state.chain_recv {
                                Some(c) => Some(c.duplicate()),
                                None => None,
                            },
                            pn: state.pn,
                        },
                    ),
                )
            },
        }
    }

    /// Encrypts under a freshly generated ephemeral key pair.  The envelope
    /// carries the fresh ephemeral public key, not the long-term one, and the
    /// returned state's key pair is the fresh pair, so two calls from the
    /// same state carry independent key material.
    pub fn encrypt(&self, state: &State) -> (r: Result<(EncryptedMessage, State), CryptoError>)
        requires
            state.wf(),
        ensures
            state@.dh_pub is None ==> (r matches Err(e) && e == CryptoError::NoPeerKey),
            state@.dh_pub matches Some(peer) ==> (r matches Ok(p) && (exists|eph: KeyPairV|
                #![auto]
                eph.public == public_key_of(eph.private) && spec_encrypt_ok(
                    self@,
                    eph,
                    state@,
                    peer,
                    p.0@,
                    p.1@,
                )) && p.0.wf() && p.1.wf()),
    {
        let ephemeral = KeyPair::new();
        let ghost eph_v = ephemeral@;
        let r = self.encrypt_with(ephemeral, state);
        proof {
            if state@.dh_pub is Some {
                assert(exists|eph: KeyPairV|
                    #![auto]
                    eph.public == public_key_of(eph.private) && spec_encrypt_ok(
                        self@,
                        eph,
                        state@,
                        state@.dh_pub.unwrap(),
                        r.unwrap().0@,
                        r.unwrap().1@,
                    )) by {
                    assert(spec_encrypt_ok(
                        self@,
                        eph_v,
                        state@,
                        state@.dh_pub.unwrap(),
                        r.unwrap().0@,
                        r.unwrap().1@,
                    ));
                }
            }
        }
        r
    }
}

impl EncryptedMessage {
    /// The inverse ratchet step: derives the same root and message keys from
    /// the receiver's own private key and the envelope's carried public key,
    /// opens the ciphertext, and decodes the text.
    ///
    /// Round trip: the final ensures clause states that an envelope whose
    /// carried key is the public key of some ephemeral secret and whose
    /// ciphertext opens under the key this state derives for that ephemeral
    /// — exactly what an honest encrypt step against this state's public key
    /// and root key produces — decrypts successfully to the sender's text.
    pub fn decrypt(&self, state: &State) -> (r: Result<(Message, State), CryptoError>)
        requires
            state.wf(),
            self.wf(),
        ensures
            ({
                let ikm = dh_shared(state@.key_pair.private, self@.public_key);
                let mk = spec_message_key(state@.root_key, ikm);
                let opened = siv_open_bytes(mk, message_nonce(), self@.encrypted_msg);
                match opened {
                    None => r matches Err(e) && e == CryptoError::DecryptionFailure,
                    Some(pt) => if !valid_utf8(pt) {
                        r matches Err(e) && e == CryptoError::TextDecodeFailure
                    } else {
                        r matches Ok(p) && spec_decrypt_ok(self@, state@, decode_utf8(pt), p.0@, p.1@)
                            && p.1.wf()
                    },
                }
            }),
            forall|e: Seq<u8>|
                #![trigger public_key_of(e)]
                ({
                    let opened = siv_open_bytes(
                        spec_message_key(
                            state@.root_key,
                            dh_shared(e, public_key_of(state@.key_pair.private)),
                        ),
                        message_nonce(),
                        self@.encrypted_msg,
                    );
                    (self@.public_key == public_key_of(e) && opened is Some && valid_utf8(
                        opened->0,
                    )) ==> (r matches Ok(pr) && pr.0@.msg == decode_utf8(opened->0))
                }),
    {
        let (root_key, chain_key) = kdf_root_key(
            &state.root_key,
            &state.key_pair.private,
            &self.public_key,
        );
        let (chain_key_recv, mk) = kdf_chain_key(&chain_key);
        let nonce = message_nonce_bytes();
        match siv_open(&mk, &nonce, &self.encrypted_msg) {
            None => Err(CryptoError::DecryptionFailure),
            Some(pt) => match string_from_utf8(pt) {
                None => Err(CryptoError::TextDecodeFailure),
                Some(text) => Ok(
                    (
                        Message {
                            sender_name: self.sender_name.clone(),
                            recv_name: self.recv_name.clone(),
                            msg: text,
                            public_key: self.public_key.duplicate(),
                        },
                        State {
                            key_pair: state.key_pair.duplicate(),
                            dh_pub: Some(self.public_key.duplicate()),
                            root_key,
                            chain_send: Some(chain_key_recv),
                            chain_recv: match &state.chain_recv {
                                Some(c) => Some(c.duplicate()),
                                None => None,
                            },
                            pn: state.pn,
                        },
                    ),
                ),
            },
        }
    }
}

// ---------------------------------------------------------------------------
// Laws of the encrypt/decrypt boundary.
// ---------------------------------------------------------------------------

/// Law: two encryption steps that carry the public keys of ephemeral secrets
/// with distinct public keys produce envelopes whose carried keys differ —
/// the deterministic half of non-replayability; that two random draws yield
/// distinct ephemerals is a property of the randomness itself.
pub proof fn lemma_distinct_ephemerals_distinct_envelopes(
    env1: EncryptedMessageV,
    env2: EncryptedMessageV,
    e1: Seq<u8>,
    e2: Seq<u8>,
)
    requires
        env1.public_key == public_key_of(e1),
        env2.public_key == public_key_of(e2),
        public_key_of(e1) != public_key_of(e2),
    ensures
        env1.public_key != env2.public_key,
{
}

} // verus!
