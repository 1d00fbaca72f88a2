//! The server-side connection actor: one per accepted connection, a state
//! machine from awaiting registration through active envelope dispatch to
//! closed.  The actor owns no I/O; the surrounding runtime feeds it one
//! received line at a time while holding the directory, writes out the lines
//! the actor hands back, drains the actor's own queue to its socket, and
//! calls [`ConnActor::close`] when the stream ends.

use vstd::prelude::*;
use vstd::utf8::encode_utf8;

use vstd::string::StringExecFns;

use crate::directory::{
    has_name, index_of_name, lemma_index_of_name_unique, Directory, PeerRecordV,
};
use crate::message::{ErrMessage, ErrMessageV, Info, InfoV, Msg, MsgV, PubKey, PubKeyV};
use crate::wire::{parse_line, serialize_msg, spec_parse, wire_chars};

verus! {

// ---------------------------------------------------------------------------
// What admission sends the new peer.
// ---------------------------------------------------------------------------

/// The lines that dump the currently-known public keys to a newly admitted
/// peer: one announcement per registered peer that has announced a key, in
/// directory order.
pub open spec fn key_dump(peers: Seq<PeerRecordV>) -> Seq<Seq<char>>
    decreases peers.len(),
{
    if peers.len() == 0 {
        Seq::empty()
    } else {
        key_dump(peers.drop_last()) + (match peers.last().public_key {
            Some(k) => seq![
                wire_chars(MsgV::PubKey(PubKeyV { user: peers.last().name, public_key: k })),
            ],
            None => Seq::<Seq<char>>::empty(),
        })
    }
}

/// The names of the records, in directory order.
pub open spec fn names_of(peers: Seq<PeerRecordV>) -> Seq<Seq<char>> {
    Seq::new(peers.len(), |i: int| peers[i].name)
}

/// Names joined with a comma separator.
pub open spec fn joined_names(names: Seq<Seq<char>>) -> Seq<char>
    decreases names.len(),
{
    if names.len() == 0 {
        Seq::empty()
    } else if names.len() == 1 {
        names[0]
    } else {
        joined_names(names.drop_last()) + ", "@ + names.last()
    }
}

/// The fixed greeting that precedes the roster in the admission notice.
pub open spec fn motd_prefix() -> Seq<char> {
    "Welcome to this simple server! Users currently connected: "@
}

/// The admission notice: the greeting followed by the roster as it stands
/// once the new peer is registered.
pub open spec fn motd_chars(peers: Seq<PeerRecordV>) -> Seq<char> {
    motd_prefix() + joined_names(names_of(peers))
}

// ---------------------------------------------------------------------------
// Directory transitions of the active phase, at the specification level.
// ---------------------------------------------------------------------------

/// The directory after a public-key announcement for `name`: the key is set
/// only where the record exists and has no key yet (first announcement wins).
pub open spec fn spec_announce(peers: Seq<PeerRecordV>, name: Seq<char>, key: Seq<u8>) -> Seq<
    PeerRecordV,
> {
    if !has_name(peers, name) {
        peers
    } else {
        let i = index_of_name(peers, name);
        if peers[i].public_key is Some {
            peers
        } else {
            peers.update(
                i,
                PeerRecordV {
                    name: peers[i].name,
                    addr: peers[i].addr,
                    public_key: Some(key),
                    queue: peers[i].queue,
                },
            )
        }
    }
}

/// The directory after a broadcast of `line` to everyone but `exclude`.
pub open spec fn spec_broadcast(
    peers: Seq<PeerRecordV>,
    exclude: Seq<char>,
    line: Seq<char>,
) -> Seq<PeerRecordV> {
    Seq::new(
        peers.len(),
        |k: int|
            PeerRecordV {
                name: peers[k].name,
                addr: peers[k].addr,
                public_key: peers[k].public_key,
                queue: if peers[k].name != exclude {
                    peers[k].queue.push(line)
                } else {
                    peers[k].queue
                },
            },
    )
}

// ---------------------------------------------------------------------------
// The actor.
// ---------------------------------------------------------------------------

/// The lifecycle of one connection.
#[derive(Clone, Copy, Debug, PartialEq, Eq, Structural)]
pub enum ActorPhase {
    /// Nothing received yet; the first line must be a registration.
    AwaitingRegistration,
    /// Registered; envelopes are dispatched.
    Active,
    /// The connection is finished and its registration released.
    Closed,
}

/// The per-connection state machine.
#[derive(Debug)]
pub struct ConnActor {
    /// Where in its lifecycle the connection stands.
    pub phase: ActorPhase,
    /// The opaque handle of the underlying connection.
    pub addr: u64,
    /// The registered display name; meaningful once the phase is `Active`.
    pub name: String,
}

impl ConnActor {
    /// A fresh actor for an accepted connection.
    pub fn new(addr: u64) -> (r: ConnActor)
        ensures
            r.phase is AwaitingRegistration,
            r.addr == addr,
    {
        ConnActor { phase: ActorPhase::AwaitingRegistration, addr, name: String::new() }
    }

    /// Entry to `Closed`: releases the registration, if the actor held one.
    /// Afterwards the name routes nowhere and is free for re-registration.
    pub fn close(&mut self, dir: &mut Directory)
        requires
            old(dir).wf(),
        ensures
            final(dir).wf(),
            final(self).phase is Closed,
            final(self).addr == old(self).addr,
            final(self).name@ == old(self).name@,
            old(self).phase is Active ==> !has_name(final(dir)@, old(self).name@) && (has_name(
                old(dir)@,
                old(self).name@,
            ) ==> final(dir)@ == old(dir)@.remove(index_of_name(old(dir)@, old(self).name@))) && (
            !has_name(old(dir)@, old(self).name@) ==> final(dir)@ == old(dir)@),
            !(old(self).phase is Active) ==> final(dir)@ == old(dir)@,
    {
        match self.phase {
            ActorPhase::Active => {
                dir.remove(&self.name);
            },
            _ => {},
        }
        self.phase = ActorPhase::Closed;
    }
}

// ---------------------------------------------------------------------------
// Helpers of the admission step.
// ---------------------------------------------------------------------------

/// The public-key announcements currently known, serialized for the dump.
fn collect_key_dump(dir: &Directory) -> (r: Vec<String>)
    ensures
        r.deep_view() == key_dump(dir@),
{
    let mut out: Vec<String> = Vec::new();
    let mut i: usize = 0;
    proof {
        assert(dir@.subrange(0, 0) =~= Seq::<PeerRecordV>::empty());
        assert(out.deep_view() =~= key_dump(dir@.subrange(0, 0)));
    }
    while i < dir.peers.len()
        invariant
            i <= dir@.len(),
            out.deep_view() == key_dump(dir@.subrange(0, i as int)),
        decreases dir@.len() - i,
    {
        let ghost prev = out.deep_view();
        match &dir.peers[i].public_key {
            Some(k) => {
                let line = serialize_msg(
                    &Msg::PubKey(PubKey { user: dir.peers[i].name.clone(), public_key: k.duplicate() }),
                );
                out.push(line);
                proof {
                    assert(out.deep_view() =~= prev.push(
                        wire_chars(
                            MsgV::PubKey(
                                PubKeyV { user: dir@[i as int].name, public_key: k@ },
                            ),
                        ),
                    ));
                }
            },
            None => {},
        }
        proof {
            assert(dir@.subrange(0, i as int + 1).drop_last() =~= dir@.subrange(0, i as int));
            assert(dir@.subrange(0, i as int + 1).last() == dir@[i as int]);
            assert(out.deep_view() =~= key_dump(dir@.subrange(0, i as int + 1)));
        }
        i = i + 1;
    }
    proof {
        assert(dir@.subrange(0, dir@.len() as int) =~= dir@);
    }
    out
}

/// Appends each of `lines`, in order, to the queue of `name`.
fn enqueue_lines(dir: &mut Directory, name: &String, lines: &Vec<String>)
    requires
        old(dir).wf(),
        has_name(old(dir)@, name@),
    ensures
        final(dir).wf(),
        ({
            let i = index_of_name(old(dir)@, name@);
            final(dir)@ == old(dir)@.update(
                i,
                (PeerRecordV {
                    name: old(dir)@[i].name,
                    addr: old(dir)@[i].addr,
                    public_key: old(dir)@[i].public_key,
                    queue: old(dir)@[i].queue + lines.deep_view(),
                }),
            )
        }),
{
    let ghost i = index_of_name(old(dir)@, name@);
    let mut k: usize = 0;
    proof {
        assert(old(dir)@[i].queue + lines.deep_view().subrange(0, 0) =~= old(dir)@[i].queue);
        assert(old(dir)@.update(
            i,
            PeerRecordV {
                name: old(dir)@[i].name,
                addr: old(dir)@[i].addr,
                public_key: old(dir)@[i].public_key,
                queue: old(dir)@[i].queue + lines.deep_view().subrange(0, 0),
            },
        ) =~~= old(dir)@);
    }
    while k < lines.len()
        invariant
            k <= lines@.len(),
            dir.wf(),
            0 <= i < old(dir)@.len(),
            old(dir)@[i].name == name@,
            dir@ == old(dir)@.update(
                i,
                (PeerRecordV {
                    name: old(dir)@[i].name,
                    addr: old(dir)@[i].addr,
                    public_key: old(dir)@[i].public_key,
                    queue: old(dir)@[i].queue + lines.deep_view().subrange(0, k as int),
                }),
            ),
        decreases lines@.len() - k,
    {
        let ghost before = dir@;
        proof {
            assert(before[i].name == name@);
            lemma_index_of_name_unique(before, name@, i);
        }
        let _ = dir.route(name, &lines[k]);
        proof {
            assert(lines.deep_view().subrange(0, k as int + 1) =~= lines.deep_view().subrange(
                0,
                k as int,
            ).push(lines@[k as int]@));
            assert(dir@ =~~= old(dir)@.update(
                i,
                PeerRecordV {
                    name: old(dir)@[i].name,
                    addr: old(dir)@[i].addr,
                    public_key: old(dir)@[i].public_key,
                    queue: old(dir)@[i].queue + lines.deep_view().subrange(0, k as int + 1),
                },
            ));
        }
        k = k + 1;
    }
    proof {
        assert(lines.deep_view().subrange(0, lines@.len() as int) =~= lines.deep_view());
    }
}

/// The admission notice for the directory as it now stands.
fn build_motd(dir: &Directory) -> (r: String)
    ensures
        r@ == motd_chars(dir@),
{
    let names = dir.roster();
    let ghost nv = names.deep_view();
    proof {
        assert(nv =~= names_of(dir@));
    }
    let mut motd = String::from_str("Welcome to this simple server! Users currently connected: ");
    let mut k: usize = 0;
    proof {
        assert(joined_names(nv.subrange(0, 0)) =~= Seq::<char>::empty());
        assert(motd@ =~= motd_prefix() + joined_names(nv.subrange(0, 0)));
    }
    while k < names.len()
        invariant
            k <= names@.len(),
            nv == names.deep_view(),
            nv.len() == names@.len(),
            motd@ == motd_prefix() + joined_names(nv.subrange(0, k as int)),
        decreases names@.len() - k,
    {
        let ghost before = motd@;
        if k > 0 {
            motd.append(", ");
        }
        motd.append(names[k].as_str());
        proof {
            assert(nv.subrange(0, k as int + 1).drop_last() =~= nv.subrange(0, k as int));
            assert(nv.subrange(0, k as int + 1).last() == nv[k as int]);
            if k == 0 {
                assert(joined_names(nv.subrange(0, 1)) =~= nv[0]);
                assert(motd@ =~= motd_prefix() + joined_names(nv.subrange(0, 1)));
            } else {
                assert(joined_names(nv.subrange(0, k as int + 1)) =~= joined_names(
                    nv.subrange(0, k as int),
                ) + ", "@ + nv[k as int]);
                assert(motd@ =~= motd_prefix() + joined_names(nv.subrange(0, k as int + 1)));
            }
        }
        k = k + 1;
    }
    proof {
        assert(nv.subrange(0, nv.len() as int) =~= nv);
    }
    motd
}

// ---------------------------------------------------------------------------
// The dispatch step.
// ---------------------------------------------------------------------------

impl ConnActor {
    /// One received line, dispatched under the directory lock.
    ///
    /// Awaiting registration: the line must parse as a registration; anything
    /// else closes the connection with the directory untouched.  A
    /// non-conflicting registration admits the peer: its record is created,
    /// and its queue starts with the dump of all currently-known public keys
    /// followed by the admission notice.  A conflicting one is answered with
    /// an error line (returned, to be written to this connection) and not
    /// admitted; the existing registration is untouched.
    ///
    /// Active: an encrypted envelope is routed to its recipient's queue as
    /// the exact line that arrived, unmodified; a key announcement sets this
    /// peer's key if none is set (first announcement wins) and is broadcast,
    /// re-serialized under this peer's registered name, to everyone else;
    /// every other line, well formed or not, is dropped and the directory is
    /// untouched.
    pub fn handle_line(&mut self, dir: &mut Directory, line: &String) -> (out: Vec<String>)
        requires
            old(dir).wf(),
        ensures
            final(dir).wf(),
            final(self).addr == old(self).addr,
            old(self).phase is Closed ==> *final(self) == *old(self) && final(dir)@ == old(dir)@
                && out@.len() == 0,
            old(self).phase is AwaitingRegistration ==> match spec_parse(encode_utf8(line@)) {
                Some(mv) => match mv {
                    MsgV::Register(rv) => if has_name(old(dir)@, rv.client_name) {
                        final(self).phase is Closed && final(dir)@ == old(dir)@ && out.deep_view()
                            == seq![
                            wire_chars(MsgV::Error(ErrMessageV { error: "user already exists"@ })),
                        ]
                    } else {
                        final(self).phase is Active && final(self).name@ == rv.client_name
                            && out@.len() == 0 && final(dir)@ == old(dir)@.push(
                            (PeerRecordV {
                                name: rv.client_name,
                                addr: old(self).addr,
                                public_key: None,
                                queue: key_dump(old(dir)@) + seq![
                                    wire_chars(
                                        MsgV::Info(
                                            InfoV {
                                                info: motd_chars(
                                                    old(dir)@.push(
                                                        (PeerRecordV {
                                                            name: rv.client_name,
                                                            addr: old(self).addr,
                                                            public_key: None,
                                                            queue: Seq::empty(),
                                                        }),
                                                    ),
                                                ),
                                            },
                                        ),
                                    ),
                                ],
                            }),
                        )
                    },
                    _ => final(self).phase is Closed && final(dir)@ == old(dir)@ && out@.len()
                        == 0,
                },
                None => final(self).phase is Closed && final(dir)@ == old(dir)@ && out@.len()
                    == 0,
            },
            old(self).phase is Active ==> *final(self) == *old(self) && out@.len() == 0 && match
                spec_parse(encode_utf8(line@)) {
                Some(mv) => match mv {
                    MsgV::EncryptedMessage(ev) => if has_name(old(dir)@, ev.recv_name) {
                        final(dir)@ == old(dir)@.update(
                            index_of_name(old(dir)@, ev.recv_name),
                            (PeerRecordV {
                                name: old(dir)@[index_of_name(old(dir)@, ev.recv_name)].name,
                                addr: old(dir)@[index_of_name(old(dir)@, ev.recv_name)].addr,
                                public_key: old(dir)@[index_of_name(
                                    old(dir)@,
                                    ev.recv_name,
                                )].public_key,
                                queue: old(dir)@[index_of_name(
                                    old(dir)@,
                                    ev.recv_name,
                                )].queue.push(line@),
                            }),
                        )
                    } else {
                        final(dir)@ == old(dir)@
                    },
                    MsgV::PubKey(pv) => if has_name(old(dir)@, old(self).name@) {
                        final(dir)@ == spec_broadcast(
                            spec_announce(old(dir)@, old(self).name@, pv.public_key),
                            old(self).name@,
                            wire_chars(
                                MsgV::PubKey(
                                    PubKeyV { user: old(self).name@, public_key: pv.public_key },
                                ),
                            ),
                        )
                    } else {
                        final(dir)@ == old(dir)@
                    },
                    _ => final(dir)@ == old(dir)@,
                },
                None => final(dir)@ == old(dir)@,
            },
    {
        match self.phase {
            ActorPhase::Closed => Vec::new(),
            ActorPhase::AwaitingRegistration => {
                match parse_line(line) {
                    Ok(Msg::Register(rm)) => {
                        let dump = collect_key_dump(dir);
                        let ghost old_dir = dir@;
                        match dir.register(rm.client_name.clone(), self.addr) {
                            Err(_) => {
                                self.phase = ActorPhase::Closed;
                                let reply = serialize_msg(
                                    &Msg::Error(
                                        ErrMessage {
                                            error: String::from_str("user already exists"),
                                        },
                                    ),
                                );
                                let mut out: Vec<String> = Vec::new();
                                out.push(reply);
                                proof {
                                    assert(out.deep_view() =~= seq![
                                        wire_chars(
                                            MsgV::Error(
                                                ErrMessageV { error: "user already exists"@ },
                                            ),
                                        ),
                                    ]);
                                }
                                out
                            },
                            Ok(()) => {
                                self.name = rm.client_name;
                                self.phase = ActorPhase::Active;
                                let ghost after_reg = dir@;
                                let ghost n = old_dir.len() as int;
                                proof {
                                    assert(after_reg[n].name == self.name@);
                                    lemma_index_of_name_unique(after_reg, self.name@, n);
                                }
                                let motd = build_motd(dir);
                                let info_line = serialize_msg(&Msg::Info(Info { info: motd }));
                                let mut lines = dump;
                                lines.push(info_line);
                                enqueue_lines(dir, &self.name, &lines);
                                proof {
                                    assert(lines.deep_view() =~= key_dump(old_dir) + seq![
                                        wire_chars(
                                            MsgV::Info(InfoV { info: motd_chars(after_reg) }),
                                        ),
                                    ]);
                                    assert(dir@ =~~= old_dir.push(
                                        PeerRecordV {
                                            name: self.name@,
                                            addr: self.addr,
                                            public_key: None,
                                            queue: key_dump(old_dir) + seq![
                                                wire_chars(
                                                    MsgV::Info(
                                                        InfoV { info: motd_chars(after_reg) },
                                                    ),
                                                ),
                                            ],
                                        },
                                    ));
                                }
                                Vec::new()
                            },
                        }
                    },
                    Ok(_) => {
                        self.phase = ActorPhase::Closed;
                        Vec::new()
                    },
                    Err(_) => {
                        self.phase = ActorPhase::Closed;
                        Vec::new()
                    },
                }
            },
            ActorPhase::Active => {
                match parse_line(line) {
                    Ok(Msg::EncryptedMessage(em)) => {
                        let _ = dir.route(&em.recv_name, line);
                        Vec::new()
                    },
                    Ok(Msg::PubKey(pk)) => {
                        if dir.contains_name(&self.name) {
                            let ghost old_dir = dir@;
                            dir.announce_public_key(&self.name, &pk.public_key);
                            proof {
                                assert(dir@ =~~= spec_announce(
                                    old_dir,
                                    self.name@,
                                    pk.public_key@,
                                ));
                            }
                            let ghost announced = dir@;
                            let bline = serialize_msg(
                                &Msg::PubKey(
                                    PubKey {
                                        user: self.name.clone(),
                                        public_key: pk.public_key.duplicate(),
                                    },
                                ),
                            );
                            dir.broadcast_except(&self.name, &bline);
                            proof {
                                assert(dir@ =~~= spec_broadcast(
                                    announced,
                                    self.name@,
                                    wire_chars(
                                        MsgV::PubKey(
                                            PubKeyV {
                                                user: self.name@,
                                                public_key: pk.public_key@,
                                            },
                                        ),
                                    ),
                                ));
                            }
                        }
                        Vec::new()
                    },
                    Ok(_) => Vec::new(),
                    Err(_) => Vec::new(),
                }
            },
        }
    }
}


} // verus!
