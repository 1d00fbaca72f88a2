//! The client-side session: one ratchet state per peer, the roster of known
//! public keys, and the decisions taken on every terminal line and every
//! line from the server.  The surrounding runtime only moves bytes and shows
//! text; every rule — who may be messaged, when a session is created, how a
//! state advances — stands here with a contract.

use vstd::prelude::*;
use vstd::utf8::{decode_utf8, encode_utf8, valid_utf8};

use vstd::string::{StrSliceExecFns, StringExecFns};

use crate::crypto::{dh_shared, message_nonce, public_key_of, siv_open_bytes, spec_message_key, KeyPair, KeyPairV, State, StateV};
use crate::errors::CryptoError;
use crate::message::{
    spec_decrypt_ok, spec_encrypt_ok, EncryptedMessageV, Message, MessageV, Msg, MsgV, PubKey,
    PubKeyV,
};
use crate::server::joined_names;
use crate::wire::{parse_line, serialize_msg, spec_parse, wire_chars};

verus! {

/// The mathematical content of a [`PeerSession`].
#[verifier::ext_equal]
pub struct PeerSessionV {
    pub name: Seq<char>,
    pub state: StateV,
}

/// One peer's ratchet state, keyed by the peer's display name.
#[derive(Debug)]
pub struct PeerSession {
    pub name: String,
    pub state: State,
}

impl View for PeerSession {
    type V = PeerSessionV;

    open spec fn view(&self) -> PeerSessionV {
        PeerSessionV { name: self.name@, state: self.state@ }
    }
}

/// Whether some session in `ss` belongs to `name`.
pub open spec fn sess_has(ss: Seq<PeerSessionV>, name: Seq<char>) -> bool {
    exists|i: int| 0 <= i < ss.len() && (#[trigger] ss[i]).name == name
}

/// The index of the session of `name`; unique when the sessions are well
/// formed and the name present.
pub open spec fn sess_index(ss: Seq<PeerSessionV>, name: Seq<char>) -> int {
    choose|i: int| 0 <= i < ss.len() && (#[trigger] ss[i]).name == name
}

/// Whether some known key in `ks` belongs to `name`.
pub open spec fn key_has(ks: Seq<PubKeyV>, name: Seq<char>) -> bool {
    exists|i: int| 0 <= i < ks.len() && (#[trigger] ks[i]).user == name
}

/// The index of the known key of `name`; unique when the keys are well
/// formed and the name present.
pub open spec fn key_index(ks: Seq<PubKeyV>, name: Seq<char>) -> int {
    choose|i: int| 0 <= i < ks.len() && (#[trigger] ks[i]).user == name
}

proof fn lemma_sess_index_unique(ss: Seq<PeerSessionV>, name: Seq<char>, i: int)
    requires
        forall|p: int, q: int|
            0 <= p < q < ss.len() ==> (#[trigger] ss[p]).name != (#[trigger] ss[q]).name,
        0 <= i < ss.len(),
        ss[i].name == name,
    ensures
        sess_has(ss, name),
        sess_index(ss, name) == i,
{
    assert(sess_has(ss, name));
    let k = sess_index(ss, name);
    if k < i {
        assert(ss[k].name != ss[i].name);
    } else if k > i {
        assert(ss[i].name != ss[k].name);
    }
}

proof fn lemma_key_index_unique(ks: Seq<PubKeyV>, name: Seq<char>, i: int)
    requires
        forall|p: int, q: int|
            0 <= p < q < ks.len() ==> (#[trigger] ks[p]).user != (#[trigger] ks[q]).user,
        0 <= i < ks.len(),
        ks[i].user == name,
    ensures
        key_has(ks, name),
        key_index(ks, name) == i,
{
    assert(key_has(ks, name));
    let k = key_index(ks, name);
    if k < i {
        assert(ks[k].user != ks[i].user);
    } else if k > i {
        assert(ks[i].user != ks[k].user);
    }
}


/// What handling one routed envelope does to the sessions of a client: with
/// no session for the sender it fails with `NoPeerKey`; otherwise the
/// sender's session state decides, exactly as in
/// [`crate::message::EncryptedMessage::decrypt`]: authentication failure and
/// undecodable text leave every session unchanged, and success delivers the
/// message and advances the sender's session.
pub open spec fn spec_received(
    env: EncryptedMessageV,
    ss_old: Seq<PeerSessionV>,
    r: ClientOutcome,
    ss_new: Seq<PeerSessionV>,
) -> bool {
    if !sess_has(ss_old, env.sender_name) {
        (r matches ClientOutcome::Failed(e) && e == CryptoError::NoPeerKey) && ss_new == ss_old
    } else {
        let i = sess_index(ss_old, env.sender_name);
        let st = ss_old[i].state;
        let ikm = dh_shared(st.key_pair.private, env.public_key);
        let opened = siv_open_bytes(
            spec_message_key(st.root_key, ikm),
            message_nonce(),
            env.encrypted_msg,
        );
        match opened {
            None => (r matches ClientOutcome::Failed(e) && e == CryptoError::DecryptionFailure)
                && ss_new == ss_old,
            Some(pt) => if !valid_utf8(pt) {
                (r matches ClientOutcome::Failed(e) && e == CryptoError::TextDecodeFailure)
                    && ss_new == ss_old
            } else {
                r matches ClientOutcome::Delivered(m) && (exists|st2: StateV|
                    #![auto]
                    spec_decrypt_ok(env, st, decode_utf8(pt), m@, st2) && ss_new == ss_old.update(
                        i,
                        (PeerSessionV { name: env.sender_name, state: st2 }),
                    ))
            },
        }
    }
}

/// What the client does with one handled line.
#[derive(Debug)]
pub enum ClientOutcome {
    /// A line to send to the server.
    SendLine(String),
    /// A notice to show the local user.
    Notice(String),
    /// A decrypted message from a peer.
    Delivered(Message),
    /// An error the server reported.
    ServerError(String),
    /// A message that could not be decrypted; the affected state is left
    /// unchanged, so a later message can still be tried.
    Failed(CryptoError),
    /// Nothing to do.
    Ignored,
}

/// The client's whole conversational state.
#[derive(Debug)]
pub struct ClientSession {
    /// The local display name.
    pub username: String,
    /// The local long-term identity pair.
    pub my_keys: KeyPair,
    /// The last announced public key of each known peer.
    pub peer_keys: Vec<PubKey>,
    /// One ratchet state per peer a conversation exists with.
    pub sessions: Vec<PeerSession>,
}

impl ClientSession {
    /// The well-formedness invariant: the identity pair is consistent, known
    /// keys and sessions are unique per name and hold keys of the right
    /// size, and every session knows a public key of its peer.
    pub open spec fn wf(&self) -> bool {
        &&& self.my_keys.wf()
        &&& forall|p: int, q: int|
            0 <= p < q < self.peer_keys@.len() ==> (#[trigger] self.peer_keys@[p]@).user != (
            #[trigger] self.peer_keys@[q]@).user
        &&& forall|i: int|
            0 <= i < self.peer_keys@.len() ==> (#[trigger] self.peer_keys@[i]@).public_key.len()
                == 32
        &&& forall|p: int, q: int|
            0 <= p < q < self.sessions@.len() ==> (#[trigger] self.sessions@[p]@).name != (
            #[trigger] self.sessions@[q]@).name
        &&& forall|i: int| 0 <= i < self.sessions@.len() ==> (#[trigger] self.sessions@[i]).state.wf()
        &&& forall|i: int|
            0 <= i < self.sessions@.len() ==> (#[trigger] self.sessions@[i]@).state.dh_pub is Some
    }

    /// The view of the known keys.
    pub open spec fn keys_view(&self) -> Seq<PubKeyV> {
        Seq::new(self.peer_keys@.len(), |i: int| self.peer_keys@[i]@)
    }

    /// The view of the sessions.
    pub open spec fn sessions_view(&self) -> Seq<PeerSessionV> {
        Seq::new(self.sessions@.len(), |i: int| self.sessions@[i]@)
    }

    /// A fresh session that knows no peers yet.
    pub fn new(username: String, my_keys: KeyPair) -> (r: ClientSession)
        requires
            my_keys.wf(),
        ensures
            r.wf(),
            r.username@ == username@,
            r.my_keys@ == my_keys@,
            r.keys_view().len() == 0,
            r.sessions_view().len() == 0,
    {
        ClientSession { username, my_keys, peer_keys: Vec::new(), sessions: Vec::new() }
    }

    /// The two lines a client sends on connecting: its registration and the
    /// announcement of its public key.
    pub fn hello_lines(&self) -> (r: (String, String))
        ensures
            r.0@ == wire_chars(MsgV::Register(crate::message::RegisterMessageV {
                client_name: self.username@,
            })),
            r.1@ == wire_chars(MsgV::PubKey(PubKeyV {
                user: self.username@,
                public_key: self.my_keys@.public,
            })),
    {
        let reg = serialize_msg(
            &Msg::Register(crate::message::RegisterMessage::new(self.username.clone())),
        );
        let ann = serialize_msg(
            &Msg::PubKey(PubKey::new(self.username.clone(), self.my_keys.public())),
        );
        (reg, ann)
    }

    fn find_key(&self, name: &String) -> (r: Option<usize>)
        requires
            self.wf(),
        ensures
            match r {
                Some(i) => key_has(self.keys_view(), name@) && i == key_index(
                    self.keys_view(),
                    name@,
                ) && i < self.keys_view().len() && self.keys_view()[i as int].user == name@,
                None => !key_has(self.keys_view(), name@),
            },
    {
        let mut i: usize = 0;
        while i < self.peer_keys.len()
            invariant
                self.wf(),
                i <= self.peer_keys@.len(),
                forall|k: int| 0 <= k < i ==> (#[trigger] self.keys_view()[k]).user != name@,
            decreases self.peer_keys@.len() - i,
        {
            if self.peer_keys[i].user == *name {
                proof {
                    lemma_key_index_unique(self.keys_view(), name@, i as int);
                }
                return Some(i);
            }
            i = i + 1;
        }
        None
    }

    fn find_session(&self, name: &String) -> (r: Option<usize>)
        requires
            self.wf(),
        ensures
            match r {
                Some(i) => sess_has(self.sessions_view(), name@) && i == sess_index(
                    self.sessions_view(),
                    name@,
                ) && i < self.sessions_view().len() && self.sessions_view()[i as int].name
                    == name@,
                None => !sess_has(self.sessions_view(), name@),
            },
    {
        let mut i: usize = 0;
        while i < self.sessions.len()
            invariant
                self.wf(),
                i <= self.sessions@.len(),
                forall|k: int| 0 <= k < i ==> (#[trigger] self.sessions_view()[k]).name != name@,
            decreases self.sessions@.len() - i,
        {
            if self.sessions[i].name == *name {
                proof {
                    lemma_sess_index_unique(self.sessions_view(), name@, i as int);
                }
                return Some(i);
            }
            i = i + 1;
        }
        None
    }

    /// Takes note of a key announcement: an announcement of the local name is
    /// ignored; otherwise the latest announced key replaces any earlier one,
    /// and a session seeded from the announced key is created if none exists
    /// for that peer yet.
    pub fn handle_pubkey(&mut self, ann: &PubKey)
        requires
            old(self).wf(),
            ann.wf(),
        ensures
            final(self).wf(),
            final(self).username@ == old(self).username@,
            final(self).my_keys@ == old(self).my_keys@,
            ann@.user == old(self).username@ ==> final(self).keys_view() == old(self).keys_view()
                && final(self).sessions_view() == old(self).sessions_view(),
            ann@.user != old(self).username@ ==> ({
                &&& (if key_has(old(self).keys_view(), ann@.user) {
                    final(self).keys_view() == old(self).keys_view().update(
                        key_index(old(self).keys_view(), ann@.user),
                        ann@,
                    )
                } else {
                    final(self).keys_view() == old(self).keys_view().push(ann@)
                })
                &&& (if sess_has(old(self).sessions_view(), ann@.user) {
                    final(self).sessions_view() == old(self).sessions_view()
                } else {
                    final(self).sessions_view() == old(self).sessions_view().push(
                        (PeerSessionV {
                            name: ann@.user,
                            state: StateV {
                                key_pair: old(self).my_keys@,
                                dh_pub: Some(ann@.public_key),
                                root_key: dh_shared(old(self).my_keys@.private, ann@.public_key),
                                chain_send: None,
                                chain_recv: None,
                                pn: 0,
                            },
                        }),
                    )
                })
            }),
    {
        if self.username == ann.user {
            return ;
        }
        match self.find_session(&ann.user) {
            Some(_) => {},
            None => {
                let ghost old_sessions = self.sessions_view();
                let st = State::new(self.my_keys.duplicate(), ann.public_key.duplicate());
                self.sessions.push(PeerSession { name: ann.user.clone(), state: st });
                proof {
                    assert(self.sessions_view() =~~= old_sessions.push(
                        PeerSessionV {
                            name: ann@.user,
                            state: StateV {
                                key_pair: self.my_keys@,
                                dh_pub: Some(ann@.public_key),
                                root_key: dh_shared(self.my_keys@.private, ann@.public_key),
                                chain_send: None,
                                chain_recv: None,
                                pn: 0,
                            },
                        },
                    ));
                    assert forall|p: int, q: int|
                        0 <= p < q < self.sessions@.len() implies (
                    #[trigger] self.sessions@[p]@).name != (#[trigger] self.sessions@[q]@).name by {
                        if q < old_sessions.len() {
                            assert(self.sessions@[p]@ == old_sessions[p]);
                            assert(self.sessions@[q]@ == old_sessions[q]);
                        } else {
                            assert(self.sessions@[p]@ == old_sessions[p]);
                            assert(old_sessions[p] == old(self).sessions_view()[p]);
                            assert(old_sessions[p].name != ann@.user);
                        }
                    }
                    assert(self.wf());
                }
            },
        }
        match self.find_key(&ann.user) {
            Some(i) => {
                let ghost old_keys = self.keys_view();
                let mut rec = self.peer_keys.remove(i);
                rec = PubKey { user: rec.user, public_key: ann.public_key.duplicate() };
                self.peer_keys.insert(i, rec);
                proof {
                    assert(self.keys_view() =~~= old_keys.update(i as int, ann@));
                    assert forall|p: int, q: int|
                        0 <= p < q < self.peer_keys@.len() implies (
                    #[trigger] self.peer_keys@[p]@).user != (#[trigger] self.peer_keys@[q]@).user by {
                        assert(self.peer_keys@[p]@.user == old_keys[p].user);
                        assert(self.peer_keys@[q]@.user == old_keys[q].user);
                        assert(old_keys[p] == old(self).peer_keys@[p]@);
                        assert(old_keys[q] == old(self).peer_keys@[q]@);
                    }
                    assert(self.wf());
                }
            },
            None => {
                let ghost old_keys = self.keys_view();
                self.peer_keys.push(
                    PubKey { user: ann.user.clone(), public_key: ann.public_key.duplicate() },
                );
                proof {
                    assert(self.keys_view() =~~= old_keys.push(ann@));
                    assert forall|p: int, q: int|
                        0 <= p < q < self.peer_keys@.len() implies (
                    #[trigger] self.peer_keys@[p]@).user != (#[trigger] self.peer_keys@[q]@).user by {
                        if q < old_keys.len() {
                            assert(self.peer_keys@[p]@ == old_keys[p]);
                            assert(self.peer_keys@[q]@ == old_keys[q]);
                            assert(old_keys[p] == old(self).peer_keys@[p]@);
                            assert(old_keys[q] == old(self).peer_keys@[q]@);
                        } else {
                            assert(self.peer_keys@[p]@ == old_keys[p]);
                            assert(old_keys[p].user != ann@.user);
                        }
                    }
                    assert(self.wf());
                }
            },
        }
    }
}


// ---------------------------------------------------------------------------
// The receive path.
// ---------------------------------------------------------------------------

impl ClientSession {
    /// One routed envelope: decrypted under the sender's session, which
    /// advances exactly on success, per [`spec_received`].
    fn receive_encrypted(&mut self, env: crate::message::EncryptedMessage) -> (r: ClientOutcome)
        requires
            old(self).wf(),
            env.wf(),
        ensures
            final(self).wf(),
            final(self).username@ == old(self).username@,
            final(self).my_keys@ == old(self).my_keys@,
            final(self).keys_view() == old(self).keys_view(),
            spec_received(env@, old(self).sessions_view(), r, final(self).sessions_view()),
    {
        match self.find_session(&env.sender_name) {
                None => {
                    let out = ClientOutcome::Failed(CryptoError::NoPeerKey);
                    proof {
                        assert(spec_received(
                            env@,
                            old(self).sessions_view(),
                            out,
                            self.sessions_view(),
                        ));
                    }
                    out
                },
                Some(i) => {
                    let ghost old_sessions = self.sessions_view();
                    let ps = self.sessions.remove(i);
                    let ghost st = ps.state@;
                    match env.decrypt(&ps.state) {
                        Ok((m, st2)) => {
                            let ghost st2v = st2@;
                            self.sessions.insert(
                                i,
                                PeerSession { name: ps.name, state: st2 },
                            );
                            proof {
                                let ikm = dh_shared(st.key_pair.private, env@.public_key);
                                let opened = siv_open_bytes(
                                    spec_message_key(st.root_key, ikm),
                                    message_nonce(),
                                    env@.encrypted_msg,
                                );
                                assert(self.keys_view() =~~= old(self).keys_view());
                                assert(st == old(self).sessions_view()[i as int].state);
                                assert(opened is Some);
                                assert(valid_utf8(opened->0));
                                assert(spec_decrypt_ok(
                                    env@,
                                    st,
                                    decode_utf8(opened->0),
                                    m@,
                                    st2v,
                                ));
                                assert(self.sessions_view() =~~= old_sessions.update(
                                    i as int,
                                    PeerSessionV {
                                        name: env@.sender_name,
                                        state: st2v,
                                    },
                                ));
                                assert forall|p: int, q: int|
                                    0 <= p < q < self.sessions@.len() implies (
                                #[trigger] self.sessions@[p]@).name != (
                                #[trigger] self.sessions@[q]@).name by {
                                    assert(old_sessions[p].name != old_sessions[q].name);
                                }
                                assert(self.wf());
                            }
                            let ghost delivered = m@;
                            let out = ClientOutcome::Delivered(m);
                            proof {
                                let ss_old = old(self).sessions_view();
                                let iq = sess_index(ss_old, env@.sender_name);
                                let stq = ss_old[iq].state;
                                let ikmq = dh_shared(stq.key_pair.private, env@.public_key);
                                let openedq = siv_open_bytes(
                                    spec_message_key(stq.root_key, ikmq),
                                    message_nonce(),
                                    env@.encrypted_msg,
                                );
                                assert(iq == i as int);
                                assert(stq == st);
                                assert(openedq is Some && valid_utf8(openedq->0));
                                assert(exists|st2: StateV|
                                    #![auto]
                                    spec_decrypt_ok(env@, stq, decode_utf8(openedq->0), delivered, st2)
                                        && self.sessions_view() == ss_old.update(
                                        iq,
                                        (PeerSessionV { name: env@.sender_name, state: st2 }),
                                    )) by {
                                    assert(spec_decrypt_ok(
                                        env@,
                                        stq,
                                        decode_utf8(openedq->0),
                                        delivered,
                                        st2v,
                                    ) && self.sessions_view() == ss_old.update(
                                        iq,
                                        (PeerSessionV { name: env@.sender_name, state: st2v }),
                                    ));
                                }
                                assert(out matches ClientOutcome::Delivered(m2) && m2@
                                    == delivered);
                                assert(sess_has(ss_old, env@.sender_name));
                                assert(out matches ClientOutcome::Delivered(m2) && (exists|st2: StateV|
                                    #![auto]
                                    spec_decrypt_ok(env@, stq, decode_utf8(openedq->0), m2@, st2)
                                        && self.sessions_view() == ss_old.update(
                                        iq,
                                        (PeerSessionV { name: env@.sender_name, state: st2 }),
                                    )));
                                assert(spec_received(
                                    env@,
                                    old(self).sessions_view(),
                                    out,
                                    self.sessions_view(),
                                ));
                            }
                            out
                        },
                        Err(e) => {
                            self.sessions.insert(i, ps);
                            proof {
                                assert(old_sessions == old(self).sessions_view());
                                assert(st == old(self).sessions_view()[i as int].state);
                                assert(self.keys_view() =~~= old(self).keys_view());
                                assert(self.sessions_view() =~~= old_sessions);
                                assert(self.sessions_view() == old(self).sessions_view());
                                let iq = sess_index(old(self).sessions_view(), env@.sender_name);
                                assert(iq == i as int);
                                let ikm = dh_shared(st.key_pair.private, env@.public_key);
                                let opened = siv_open_bytes(
                                    spec_message_key(st.root_key, ikm),
                                    message_nonce(),
                                    env@.encrypted_msg,
                                );
                                assert(opened is None ==> e == CryptoError::DecryptionFailure);
                                assert(opened matches Some(pt) ==> !valid_utf8(pt) && e
                                    == CryptoError::TextDecodeFailure);
                                assert(self.wf());
                            }
                            let out = ClientOutcome::Failed(e);
                            proof {
                                assert(spec_received(
                                    env@,
                                    old(self).sessions_view(),
                                    out,
                                    self.sessions_view(),
                                ));
                            }
                            out
                        },
                    }
                },
            }
    }

    /// One line from the server.  A routed envelope is decrypted under the
    /// sender's session, which advances on success and is left unchanged on
    /// failure (so a later message can still be tried); a key announcement
    /// is recorded as in [`ClientSession::handle_pubkey`]; notices and
    /// server errors are handed back to be shown; every other line, well
    /// formed or not, is dropped.
    #[verifier::rlimit(80)]
    pub fn handle_server_line(&mut self, line: &String) -> (r: ClientOutcome)
        requires
            old(self).wf(),
        ensures
            final(self).wf(),
            final(self).username@ == old(self).username@,
            final(self).my_keys@ == old(self).my_keys@,
            (spec_parse(encode_utf8(line@)) matches Some(
                MsgV::EncryptedMessage(ev),
            ) ==> final(self).keys_view() == old(self).keys_view() && spec_received(
                ev,
                old(self).sessions_view(),
                r,
                final(self).sessions_view(),
            )),
            (spec_parse(encode_utf8(line@)) matches Some(MsgV::PubKey(_)) ==> r is Ignored),
            (spec_parse(encode_utf8(line@)) matches Some(MsgV::Info(iv)) ==> (r
                matches ClientOutcome::Notice(t) && t@ == iv.info) && final(self).keys_view()
                == old(self).keys_view() && final(self).sessions_view() == old(self).sessions_view()),
            (spec_parse(encode_utf8(line@)) matches Some(MsgV::Error(evv)) ==> (r
                matches ClientOutcome::ServerError(t) && t@ == evv.error) && final(self).keys_view() == old(self).keys_view() && final(self).sessions_view() == old(self).sessions_view()),
            (spec_parse(encode_utf8(line@)) matches Some(MsgV::Message(_)) ==> r is Ignored
                && final(self).keys_view() == old(self).keys_view() && final(self).sessions_view()
                == old(self).sessions_view()),
            (spec_parse(encode_utf8(line@)) matches Some(MsgV::Register(_)) ==> r is Ignored
                && final(self).keys_view() == old(self).keys_view() && final(self).sessions_view()
                == old(self).sessions_view()),
            (spec_parse(encode_utf8(line@)) is None ==> (r matches ClientOutcome::Failed(_))
                && final(self).keys_view() == old(self).keys_view() && final(self).sessions_view() == old(self).sessions_view()),
    {
        let msg = match parse_line(line) {
            Ok(m) => m,
            Err(_) => {
                proof {
                    assert(spec_parse(encode_utf8(line@)) is None);
                }
                return ClientOutcome::Failed(CryptoError::DecryptionFailure);
            },
        };
        proof {
            assert(spec_parse(encode_utf8(line@)) matches Some(mv) && mv == msg@);
        }
        match msg {
            Msg::EncryptedMessage(env) => self.receive_encrypted(env),
            Msg::PubKey(ann) => {
                self.handle_pubkey(&ann);
                ClientOutcome::Ignored
            },
            Msg::Info(i) => ClientOutcome::Notice(i.info),
            Msg::Error(e) => ClientOutcome::ServerError(e.error),
            _ => ClientOutcome::Ignored,
        }
    }
}

// ---------------------------------------------------------------------------
// The send path.
// ---------------------------------------------------------------------------

/// The initial ratchet state the client seeds for a peer from the peer's
/// announced key.
pub open spec fn fresh_session_state(my: KeyPairV, key: Seq<u8>) -> StateV {
    StateV {
        key_pair: my,
        dh_pub: Some(key),
        root_key: dh_shared(my.private, key),
        chain_send: None,
        chain_recv: None,
        pn: 0,
    }
}

/// The sessions once a conversation with `peer` exists: unchanged when one
/// does, extended by a fresh one seeded from the peer's known key when not.
pub open spec fn sessions_after_ensure(
    ss: Seq<PeerSessionV>,
    my: KeyPairV,
    ks: Seq<PubKeyV>,
    peer: Seq<char>,
) -> Seq<PeerSessionV> {
    if sess_has(ss, peer) {
        ss
    } else {
        ss.push(
            PeerSessionV {
                name: peer,
                state: fresh_session_state(my, ks[key_index(ks, peer)].public_key),
            },
        )
    }
}

/// What sending `text` to `peer` does: one encrypt step under a fresh
/// ephemeral pair from the (possibly freshly seeded) session state, with the
/// produced envelope on the wire and the session advanced to the new state.
pub open spec fn spec_sent(
    username: Seq<char>,
    my: KeyPairV,
    ks: Seq<PubKeyV>,
    ss_old: Seq<PeerSessionV>,
    peer: Seq<char>,
    text: Seq<char>,
    l: Seq<char>,
    ss_new: Seq<PeerSessionV>,
) -> bool {
    let ss = sessions_after_ensure(ss_old, my, ks, peer);
    let i = sess_index(ss, peer);
    let st0 = ss[i].state;
    exists|eph: KeyPairV, env: EncryptedMessageV, st2: StateV|
        #![auto]
        {
            &&& eph.public == public_key_of(eph.private)
            &&& spec_encrypt_ok(
                MessageV {
                    sender_name: username,
                    recv_name: peer,
                    msg: text,
                    public_key: st0.key_pair.public,
                },
                eph,
                st0,
                st0.dh_pub->0,
                env,
                st2,
            )
            &&& l == wire_chars(MsgV::EncryptedMessage(env))
            &&& ss_new == ss.update(i, PeerSessionV { name: peer, state: st2 })
        }
}

impl ClientSession {
    /// Encrypts `text` for `peer` under a fresh ephemeral pair and hands back
    /// the wire line; a session is seeded from the peer's announced key
    /// first, if none exists yet.
    pub fn encrypt_to(&mut self, peer: &String, text: String) -> (r: String)
        requires
            old(self).wf(),
            key_has(old(self).keys_view(), peer@),
        ensures
            final(self).wf(),
            final(self).username@ == old(self).username@,
            final(self).my_keys@ == old(self).my_keys@,
            final(self).keys_view() == old(self).keys_view(),
            spec_sent(
                old(self).username@,
                old(self).my_keys@,
                old(self).keys_view(),
                old(self).sessions_view(),
                peer@,
                text@,
                r@,
                final(self).sessions_view(),
            ),
    {
        let ghost old_sessions = self.sessions_view();
        match self.find_session(peer) {
            Some(_) => {},
            None => {
                let ki = match self.find_key(peer) {
                    Some(ki) => ki,
                    None => {
                        proof {
                            assert(false);
                        }
                        vstd::pervasive::unreached()
                    },
                };
                let key = self.peer_keys[ki].public_key.duplicate();
                let st = State::new(self.my_keys.duplicate(), key);
                self.sessions.push(PeerSession { name: peer.clone(), state: st });
                proof {
                    assert(self.sessions_view() =~~= sessions_after_ensure(
                        old_sessions,
                        self.my_keys@,
                        self.keys_view(),
                        peer@,
                    ));
                    assert forall|p: int, q: int|
                        0 <= p < q < self.sessions@.len() implies (
                    #[trigger] self.sessions@[p]@).name != (#[trigger] self.sessions@[q]@).name by {
                        if q < old_sessions.len() {
                            assert(self.sessions@[p]@ == old_sessions[p]);
                            assert(self.sessions@[q]@ == old_sessions[q]);
                            assert(old_sessions[p] == old(self).sessions_view()[p]);
                            assert(old_sessions[q] == old(self).sessions_view()[q]);
                        } else {
                            assert(self.sessions@[p]@ == old_sessions[p]);
                            assert(old_sessions[p] == old(self).sessions_view()[p]);
                            assert(old_sessions[p].name != peer@);
                        }
                    }
                    assert(self.wf());
                }
            },
        }
        let ghost ss = self.sessions_view();
        proof {
            assert(ss =~~= sessions_after_ensure(
                old_sessions,
                old(self).my_keys@,
                old(self).keys_view(),
                peer@,
            ));
        }
        let i = match self.find_session(peer) {
            Some(i) => i,
            None => {
                proof {
                    if !sess_has(old_sessions, peer@) {
                        assert(ss[ss.len() - 1].name == peer@);
                    }
                    assert(false);
                }
                vstd::pervasive::unreached()
            },
        };
        let ps = self.sessions.remove(i);
        let ghost st0 = ps.state@;
        let m = Message::new(text, self.username.clone(), peer.clone(), ps.state.key_pair().public());
        match m.encrypt(&ps.state) {
            Ok((env, st2)) => {
                let ghost envv = env@;
                let ghost st2v = st2@;
                let line = serialize_msg(&Msg::EncryptedMessage(env));
                self.sessions.insert(i, PeerSession { name: ps.name, state: st2 });
                proof {
                    assert(self.sessions_view() =~~= ss.update(
                        i as int,
                        PeerSessionV { name: peer@, state: st2v },
                    ));
                    assert forall|p: int, q: int|
                        0 <= p < q < self.sessions@.len() implies (
                    #[trigger] self.sessions@[p]@).name != (#[trigger] self.sessions@[q]@).name by {
                        assert(ss[p].name != ss[q].name);
                    }
                    let eph0 = choose|eph: KeyPairV|
                        #![auto]
                        eph.public == public_key_of(eph.private) && spec_encrypt_ok(
                            m@,
                            eph,
                            st0,
                            st0.dh_pub->0,
                            envv,
                            st2v,
                        );
                    assert(spec_sent(
                        old(self).username@,
                        old(self).my_keys@,
                        old(self).keys_view(),
                        old_sessions,
                        peer@,
                        m@.msg,
                        line@,
                        self.sessions_view(),
                    )) by {
                        assert(eph0.public == public_key_of(eph0.private) && spec_encrypt_ok(
                            MessageV {
                                sender_name: old(self).username@,
                                recv_name: peer@,
                                msg: m@.msg,
                                public_key: st0.key_pair.public,
                            },
                            eph0,
                            st0,
                            st0.dh_pub->0,
                            envv,
                            st2v,
                        ));
                    }
                    assert(self.wf());
                }
                line
            },
            Err(_) => {
                proof {
                    assert(false);
                }
                vstd::pervasive::unreached()
            },
        }
    }
}



// ---------------------------------------------------------------------------
// The terminal-input path.
// ---------------------------------------------------------------------------

/// The index of the first `'>'` at or after `i`, or the length when there is
/// none.
pub open spec fn first_gt_from(s: Seq<char>, i: int) -> int
    decreases s.len() - i,
{
    if i >= s.len() || i < 0 {
        s.len() as int
    } else if s[i] == '>' {
        i
    } else {
        first_gt_from(s, i + 1)
    }
}

proof fn lemma_first_gt_from_is(s: Seq<char>, from: int, j: int)
    requires
        0 <= from <= j <= s.len(),
        forall|k: int| from <= k < j ==> s[k] != '>',
        j == s.len() || s[j] == '>',
    ensures
        first_gt_from(s, from) == j,
    decreases j - from,
{
    if from < j {
        lemma_first_gt_from_is(s, from + 1, j);
    }
}

/// A command line: it starts with `'!'`.
pub open spec fn is_command(s: Seq<char>) -> bool {
    s.len() > 0 && s[0] == '!'
}

/// The help command prefix.
pub open spec fn is_help_cmd(s: Seq<char>) -> bool {
    s.len() >= 5 && s[0] == '!' && s[1] == 'h' && s[2] == 'e' && s[3] == 'l' && s[4] == 'p'
}

/// The list command prefix.
pub open spec fn is_list_cmd(s: Seq<char>) -> bool {
    s.len() >= 5 && s[0] == '!' && s[1] == 'l' && s[2] == 'i' && s[3] == 's' && s[4] == 't'
}

/// The names the sessions are held under, in order.
pub open spec fn session_names(ss: Seq<PeerSessionV>) -> Seq<Seq<char>> {
    Seq::new(ss.len(), |i: int| ss[i].name)
}

/// The index of the first `'>'` at or after `from`, or the length.
fn find_gt(s: &String, from: usize) -> (r: usize)
    requires
        from <= s@.len(),
    ensures
        r == first_gt_from(s@, from as int),
        from <= r <= s@.len(),
{
    let n = s.as_str().unicode_len();
    let mut j = from;
    while j < n && s.as_str().get_char(j) != '>'
        invariant
            from <= j <= s@.len(),
            n == s@.len(),
            forall|k: int| from <= k < j ==> s@[k] != '>',
        decreases n - j,
    {
        j = j + 1;
    }
    proof {
        lemma_first_gt_from_is(s@, from as int, j as int);
    }
    j
}

impl ClientSession {
    /// The roster reply of the list command.
    fn list_line(&self) -> (r: String)
        ensures
            r@ == "connected users: "@ + joined_names(session_names(self.sessions_view())) + ", "@
                + self.username@,
    {
        let ghost nv = session_names(self.sessions_view());
        let mut out = String::from_str("connected users: ");
        let mut k: usize = 0;
        proof {
            assert(joined_names(nv.subrange(0, 0)) =~= Seq::<char>::empty());
            assert(out@ =~= "connected users: "@ + joined_names(nv.subrange(0, 0)));
        }
        while k < self.sessions.len()
            invariant
                k <= self.sessions@.len(),
                nv == session_names(self.sessions_view()),
                nv.len() == self.sessions@.len(),
                out@ == "connected users: "@ + joined_names(nv.subrange(0, k as int)),
            decreases self.sessions@.len() - k,
        {
            if k > 0 {
                out.append(", ");
            }
            out.append(self.sessions[k].name.as_str());
            proof {
                assert(nv.subrange(0, k as int + 1).drop_last() =~= nv.subrange(0, k as int));
                assert(nv.subrange(0, k as int + 1).last() == nv[k as int]);
                if k == 0 {
                    assert(joined_names(nv.subrange(0, 1)) =~= nv[0]);
                    assert(out@ =~= "connected users: "@ + joined_names(nv.subrange(0, 1)));
                } else {
                    assert(joined_names(nv.subrange(0, k as int + 1)) =~= joined_names(
                        nv.subrange(0, k as int),
                    ) + ", "@ + nv[k as int]);
                    assert(out@ =~= "connected users: "@ + joined_names(
                        nv.subrange(0, k as int + 1),
                    ));
                }
            }
            k = k + 1;
        }
        proof {
            assert(nv.subrange(0, nv.len() as int) =~= nv);
        }
        out.append(", ");
        out.append(self.username.as_str());
        out
    }

    /// One terminal line.  `!help` and `!list` answer locally; any other
    /// command is dropped.  Everything else must read `peer>message`: a
    /// missing `'>'`, the local name as peer, or an unknown peer earn a
    /// notice and change nothing; a known peer gets one encrypted envelope,
    /// exactly as [`spec_sent`] describes.
    pub fn handle_input(&mut self, input: &String) -> (r: ClientOutcome)
        requires
            old(self).wf(),
        ensures
            final(self).wf(),
            final(self).username@ == old(self).username@,
            final(self).my_keys@ == old(self).my_keys@,
            final(self).keys_view() == old(self).keys_view(),
            is_help_cmd(input@) ==> (r matches ClientOutcome::Notice(t) && t@
                == "to message someone type: username>message"@) && final(self).sessions_view()
                == old(self).sessions_view(),
            !is_help_cmd(input@) && is_list_cmd(input@) ==> (r matches ClientOutcome::Notice(t)
                && t@ == "connected users: "@ + joined_names(
                session_names(old(self).sessions_view()),
            ) + ", "@ + old(self).username@) && final(self).sessions_view() == old(self).sessions_view(),
            is_command(input@) && !is_help_cmd(input@) && !is_list_cmd(input@) ==> r is Ignored
                && final(self).sessions_view() == old(self).sessions_view(),
            !is_command(input@) ==> ({
                let b = first_gt_from(input@, 0);
                if b >= input@.len() {
                    (r matches ClientOutcome::Notice(t) && t@
                        == "wrong message format, to write message use \"<user> > <msg>\""@)
                        && final(self).sessions_view() == old(self).sessions_view()
                } else {
                    let peer = input@.subrange(0, b);
                    let text = input@.subrange(b + 1, first_gt_from(input@, b + 1));
                    if peer == old(self).username@ {
                        (r matches ClientOutcome::Notice(t) && t@ == "cannot message yourself"@)
                            && final(self).sessions_view() == old(self).sessions_view()
                    } else if !key_has(old(self).keys_view(), peer) {
                        (r matches ClientOutcome::Notice(t) && t@
                            == "the user you tried to message does not exist: "@ + peer) && final(self).sessions_view() == old(self).sessions_view()
                    } else {
                        r matches ClientOutcome::SendLine(l) && spec_sent(
                            old(self).username@,
                            old(self).my_keys@,
                            old(self).keys_view(),
                            old(self).sessions_view(),
                            peer,
                            text,
                            l@,
                            final(self).sessions_view(),
                        )
                    }
                }
            }),
    {
        let n = input.as_str().unicode_len();
        if n > 0 && input.as_str().get_char(0) == '!' {
            if n >= 5 && input.as_str().get_char(1) == 'h' && input.as_str().get_char(2) == 'e'
                && input.as_str().get_char(3) == 'l' && input.as_str().get_char(4) == 'p' {
                ClientOutcome::Notice(String::from_str("to message someone type: username>message"))
            } else if n >= 5 && input.as_str().get_char(1) == 'l' && input.as_str().get_char(2)
                == 'i' && input.as_str().get_char(3) == 's' && input.as_str().get_char(4) == 't' {
                ClientOutcome::Notice(self.list_line())
            } else {
                ClientOutcome::Ignored
            }
        } else {
            let b = find_gt(input, 0);
            if b >= n {
                return ClientOutcome::Notice(
                    String::from_str(
                        "wrong message format, to write message use \"<user> > <msg>\"",
                    ),
                );
            }
            let peer = String::from_str(input.as_str().substring_char(0, b));
            if peer == self.username {
                return ClientOutcome::Notice(String::from_str("cannot message yourself"));
            }
            let e2 = find_gt(input, b + 1);
            let text = String::from_str(input.as_str().substring_char(b + 1, e2));
            match self.find_key(&peer) {
                None => {
                    let mut t = String::from_str("the user you tried to message does not exist: ");
                    t.append(peer.as_str());
                    ClientOutcome::Notice(t)
                },
                Some(_) => ClientOutcome::SendLine(self.encrypt_to(&peer, text)),
            }
        }
    }
}


} // verus!
