//! The server's peer directory: the live mapping from display name to peer
//! record, with registration, public-key distribution, routing and removal.
//!
//! The directory is a single-owner value: the server serializes all
//! operations on it (one exclusive lock, or one owning task), so each method
//! here describes one atomic directory operation.  Outbound delivery is
//! modelled by a queue per record: routing appends the raw line to the
//! recipient's queue, and the connection actor drains its own queue to its
//! socket.

use vstd::prelude::*;

use crate::crypto::PublicKey;
use crate::errors::{DirectoryError, ProtocolError};

verus! {

/// The mathematical content of a [`PeerRecord`].
#[verifier::ext_equal]
pub struct PeerRecordV {
    pub name: Seq<char>,
    pub addr: u64,
    pub public_key: Option<Seq<u8>>,
    pub queue: Seq<Seq<char>>,
}

/// One registered peer: its display name, an opaque connection handle, the
/// announced public key once one arrived, and the queue of outbound lines.
#[derive(Debug)]
pub struct PeerRecord {
    pub name: String,
    pub addr: u64,
    pub public_key: Option<PublicKey>,
    pub queue: Vec<String>,
}

impl View for PeerRecord {
    type V = PeerRecordV;

    open spec fn view(&self) -> PeerRecordV {
        PeerRecordV {
            name: self.name@,
            addr: self.addr,
            public_key: match self.public_key {
                Some(k) => Some(k@),
                None => None,
            },
            queue: self.queue.deep_view(),
        }
    }
}

/// Whether some record in `peers` bears `name`.
pub open spec fn has_name(peers: Seq<PeerRecordV>, name: Seq<char>) -> bool {
    exists|i: int| 0 <= i < peers.len() && (#[trigger] peers[i]).name == name
}

/// The index of the record bearing `name`; when the directory is well formed
/// and the name present, it is the unique such index.
pub open spec fn index_of_name(peers: Seq<PeerRecordV>, name: Seq<char>) -> int {
    choose|i: int| 0 <= i < peers.len() && (#[trigger] peers[i]).name == name
}

/// At most one record per display name.
pub open spec fn directory_wf(peers: Seq<PeerRecordV>) -> bool {
    forall|i: int, j: int|
        0 <= i < j < peers.len() ==> (#[trigger] peers[i]).name != (#[trigger] peers[j]).name
}

/// In a well-formed directory, any record bearing a name stands at
/// [`index_of_name`] for it.
pub proof fn lemma_index_of_name_unique(peers: Seq<PeerRecordV>, name: Seq<char>, i: int)
    requires
        directory_wf(peers),
        0 <= i < peers.len(),
        peers[i].name == name,
    ensures
        has_name(peers, name),
        index_of_name(peers, name) == i,
{
    assert(has_name(peers, name));
    let k = index_of_name(peers, name);
    if k < i {
        assert(peers[k].name != peers[i].name);
    } else if k > i {
        assert(peers[i].name != peers[k].name);
    }
}

proof fn lemma_wf_push(peers: Seq<PeerRecordV>, rec: PeerRecordV)
    requires
        directory_wf(peers),
        !has_name(peers, rec.name),
    ensures
        directory_wf(peers.push(rec)),
{
    let after = peers.push(rec);
    assert forall|i: int, j: int| 0 <= i < j < after.len() implies (#[trigger] after[i]).name != (
    #[trigger] after[j]).name by {
        if j < peers.len() {
            assert(after[i] == peers[i]);
            assert(after[j] == peers[j]);
        } else {
            assert(after[i] == peers[i]);
            assert(after[j] == rec);
        }
    }
}

proof fn lemma_wf_update(peers: Seq<PeerRecordV>, i: int, rec: PeerRecordV)
    requires
        directory_wf(peers),
        0 <= i < peers.len(),
        rec.name == peers[i].name,
    ensures
        directory_wf(peers.update(i, rec)),
{
    let after = peers.update(i, rec);
    assert forall|p: int, q: int| 0 <= p < q < after.len() implies (#[trigger] after[p]).name != (
    #[trigger] after[q]).name by {
        assert(peers[p].name != peers[q].name);
    }
}

proof fn lemma_wf_remove(peers: Seq<PeerRecordV>, i: int)
    requires
        directory_wf(peers),
        0 <= i < peers.len(),
    ensures
        directory_wf(peers.remove(i)),
{
    let after = peers.remove(i);
    assert forall|p: int, q: int| 0 <= p < q < after.len() implies (#[trigger] after[p]).name != (
    #[trigger] after[q]).name by {
        let p0 = if p < i {
            p
        } else {
            p + 1
        };
        let q0 = if q < i {
            q
        } else {
            q + 1
        };
        assert(after[p] == peers[p0]);
        assert(after[q] == peers[q0]);
        assert(peers[p0].name != peers[q0].name);
    }
}

/// Law: removing the record of a name leaves no record bearing that name, so
/// a subsequent route to it fails and a new registration under it succeeds.
pub proof fn lemma_remove_frees_name(peers: Seq<PeerRecordV>, name: Seq<char>)
    requires
        directory_wf(peers),
        has_name(peers, name),
    ensures
        !has_name(peers.remove(index_of_name(peers, name)), name),
{
    let i = index_of_name(peers, name);
    let rem = peers.remove(i);
    assert forall|j: int| 0 <= j < rem.len() implies (#[trigger] rem[j]).name != name by {
        if j < i {
            assert(rem[j] == peers[j]);
            assert(peers[j].name != peers[i].name);
        } else {
            assert(rem[j] == peers[j + 1]);
            assert(peers[i].name != peers[j + 1].name);
        }
    }
}

/// Law: once a registration of `name` has succeeded, the directory holds the
/// name — so a second registration of it is rejected (registration errs
/// exactly on present names) — and the directory is still free of duplicate
/// names.
pub proof fn lemma_second_registration_rejected(
    peers: Seq<PeerRecordV>,
    name: Seq<char>,
    addr: u64,
)
    requires
        directory_wf(peers),
        !has_name(peers, name),
    ensures
        has_name(
            peers.push(PeerRecordV { name: name, addr: addr, public_key: None, queue: Seq::empty() }),
            name,
        ),
        directory_wf(
            peers.push(PeerRecordV { name: name, addr: addr, public_key: None, queue: Seq::empty() }),
        ),
{
    let rec = PeerRecordV { name: name, addr: addr, public_key: None, queue: Seq::empty() };
    let after = peers.push(rec);
    assert(after[peers.len() as int].name == name);
    lemma_wf_push(peers, rec);
}

/// The live directory.
#[derive(Debug)]
pub struct Directory {
    pub peers: Vec<PeerRecord>,
}

impl View for Directory {
    type V = Seq<PeerRecordV>;

    open spec fn view(&self) -> Seq<PeerRecordV> {
        Seq::new(self.peers@.len(), |i: int| self.peers@[i]@)
    }
}

impl Directory {
    /// At most one record per display name.
    pub open spec fn wf(&self) -> bool {
        directory_wf(self@)
    }

    /// An empty directory.
    pub fn new() -> (r: Directory)
        ensures
            r@.len() == 0,
            r.wf(),
    {
        Directory { peers: Vec::new() }
    }

    /// The index of the record bearing `name`, if any.
    fn find_index(&self, name: &String) -> (r: Option<usize>)
        requires
            self.wf(),
        ensures
            match r {
                Some(i) => has_name(self@, name@) && i == index_of_name(self@, name@) && i
                    < self@.len() && self@[i as int].name == name@,
                None => !has_name(self@, name@),
            },
    {
        let mut i: usize = 0;
        while i < self.peers.len()
            invariant
                self.wf(),
                i <= self@.len(),
                forall|k: int| 0 <= k < i ==> (#[trigger] self@[k]).name != name@,
            decreases self@.len() - i,
        {
            if self.peers[i].name == *name {
                proof {
                    lemma_index_of_name_unique(self@, name@, i as int);
                }
                return Some(i);
            }
            i = i + 1;
        }
        None
    }

    /// Whether `name` is registered.
    pub fn contains_name(&self, name: &String) -> (r: bool)
        requires
            self.wf(),
        ensures
            r == has_name(self@, name@),
    {
        match self.find_index(name) {
            Some(_) => true,
            None => false,
        }
    }

    /// Registers `name` with a fresh empty queue and no public key yet.
    /// Succeeds exactly when no record with that name exists; on conflict the
    /// existing registration is untouched.
    pub fn register(&mut self, name: String, addr: u64) -> (r: Result<(), ProtocolError>)
        requires
            old(self).wf(),
        ensures
            final(self).wf(),
            has_name(old(self)@, name@) ==> (r matches Err(e) && e
                == ProtocolError::AlreadyRegistered) && final(self)@ == old(self)@,
            !has_name(old(self)@, name@) ==> r is Ok && final(self)@ == old(self)@.push(
                (PeerRecordV { name: name@, addr: addr, public_key: None, queue: Seq::empty() }),
            ),
    {
        match self.find_index(&name) {
            Some(_) => Err(ProtocolError::AlreadyRegistered),
            None => {
                let ghost old_view = self@;
                let ghost name_view = name@;
                self.peers.push(PeerRecord { name, addr, public_key: None, queue: Vec::new() });
                proof {
                    let rec = PeerRecordV {
                        name: name_view,
                        addr: addr,
                        public_key: None,
                        queue: Seq::empty(),
                    };
                    assert(self@ =~~= old_view.push(rec));
                    lemma_wf_push(old_view, rec);
                }
                Ok(())
            },
        }
    }

    /// Records `key` as `name`'s public key, unless a key is already set or
    /// the name is unknown: the first announcement wins, and later ones are
    /// ignored, so a late duplicate cannot clobber an established session.
    pub fn announce_public_key(&mut self, name: &String, key: &PublicKey)
        requires
            old(self).wf(),
        ensures
            final(self).wf(),
            !has_name(old(self)@, name@) ==> final(self)@ == old(self)@,
            has_name(old(self)@, name@) ==> ({
                let i = index_of_name(old(self)@, name@);
                if old(self)@[i].public_key is Some {
                    final(self)@ == old(self)@
                } else {
                    final(self)@ == old(self)@.update(
                        i,
                        (PeerRecordV {
                            name: old(self)@[i].name,
                            addr: old(self)@[i].addr,
                            public_key: Some(key@),
                            queue: old(self)@[i].queue,
                        }),
                    )
                }
            }),
    {
        match self.find_index(name) {
            None => {},
            Some(i) => {
                if self.peers[i].public_key.is_none() {
                    let ghost old_view = self@;
                    let mut rec = self.peers.remove(i);
                    rec.public_key = Some(key.duplicate());
                    self.peers.insert(i, rec);
                    proof {
                        let updated = PeerRecordV {
                            name: old_view[i as int].name,
                            addr: old_view[i as int].addr,
                            public_key: Some(key@),
                            queue: old_view[i as int].queue,
                        };
                        assert(self@ =~~= old_view.update(i as int, updated));
                        lemma_wf_update(old_view, i as int, updated);
                    }
                }
            },
        }
    }

    /// Enqueues `line` unmodified onto the recipient's outbound queue.
    /// Fails with `UnknownRecipient`, leaving the directory unchanged, exactly
    /// when the name is not registered; nothing else in the directory is
    /// touched either way.
    pub fn route(&mut self, recipient_name: &String, line: &String) -> (r: Result<
        (),
        DirectoryError,
    >)
        requires
            old(self).wf(),
        ensures
            final(self).wf(),
            !has_name(old(self)@, recipient_name@) ==> (r matches Err(e) && e
                == DirectoryError::UnknownRecipient) && final(self)@ == old(self)@,
            has_name(old(self)@, recipient_name@) ==> r is Ok && ({
                let i = index_of_name(old(self)@, recipient_name@);
                final(self)@ == old(self)@.update(
                    i,
                    (PeerRecordV {
                        name: old(self)@[i].name,
                        addr: old(self)@[i].addr,
                        public_key: old(self)@[i].public_key,
                        queue: old(self)@[i].queue.push(line@),
                    }),
                )
            }),
    {
        match self.find_index(recipient_name) {
            None => Err(DirectoryError::UnknownRecipient),
            Some(i) => {
                let ghost old_view = self@;
                let mut rec = self.peers.remove(i);
                rec.queue.push(line.clone());
                self.peers.insert(i, rec);
                proof {
                    let updated = PeerRecordV {
                        name: old_view[i as int].name,
                        addr: old_view[i as int].addr,
                        public_key: old_view[i as int].public_key,
                        queue: old_view[i as int].queue.push(line@),
                    };
                    assert(self@ =~~= old_view.update(i as int, updated));
                    lemma_wf_update(old_view, i as int, updated);
                }
                Ok(())
            },
        }
    }

    /// Enqueues `line` to every registered peer except `exclude_name`; used
    /// to announce a new public key to everyone else.  Queues of excluded and
    /// absent names, and every other field, are untouched.
    pub fn broadcast_except(&mut self, exclude_name: &String, line: &String)
        requires
            old(self).wf(),
        ensures
            final(self).wf(),
            final(self)@.len() == old(self)@.len(),
            forall|k: int|
                0 <= k < old(self)@.len() ==> final(self)@[k] == (PeerRecordV {
                    name: old(self)@[k].name,
                    addr: old(self)@[k].addr,
                    public_key: old(self)@[k].public_key,
                    queue: if old(self)@[k].name != exclude_name@ {
                        old(self)@[k].queue.push(line@)
                    } else {
                        old(self)@[k].queue
                    },
                }),
    {
        let mut i: usize = 0;
        while i < self.peers.len()
            invariant
                self@.len() == old(self)@.len(),
                i <= self@.len(),
                forall|k: int|
                    0 <= k < i ==> self@[k] == (PeerRecordV {
                        name: old(self)@[k].name,
                        addr: old(self)@[k].addr,
                        public_key: old(self)@[k].public_key,
                        queue: if old(self)@[k].name != exclude_name@ {
                            old(self)@[k].queue.push(line@)
                        } else {
                            old(self)@[k].queue
                        },
                    }),
                forall|k: int| i <= k < self@.len() ==> self@[k] == old(self)@[k],
            decreases self@.len() - i,
        {
            if !(self.peers[i].name == *exclude_name) {
                let ghost prev_view = self@;
                let mut rec = self.peers.remove(i);
                rec.queue.push(line.clone());
                self.peers.insert(i, rec);
                proof {
                    let updated = PeerRecordV {
                        name: prev_view[i as int].name,
                        addr: prev_view[i as int].addr,
                        public_key: prev_view[i as int].public_key,
                        queue: prev_view[i as int].queue.push(line@),
                    };
                    assert(self@ =~~= prev_view.update(i as int, updated));
                }
            }
            i = i + 1;
        }
        proof {
            assert forall|p: int, q: int| 0 <= p < q < self@.len() implies (
            #[trigger] self@[p]).name != (#[trigger] self@[q]).name by {
                assert(old(self)@[p].name != old(self)@[q].name);
            }
        }
    }

    /// Removes the record of `name`; a no-op when the name is absent.  Either
    /// way, no record bears the name afterwards, so the name routes nowhere
    /// and is free for re-registration.
    pub fn remove(&mut self, name: &String)
        requires
            old(self).wf(),
        ensures
            final(self).wf(),
            !has_name(old(self)@, name@) ==> final(self)@ == old(self)@,
            has_name(old(self)@, name@) ==> final(self)@ == old(self)@.remove(
                index_of_name(old(self)@, name@),
            ),
            !has_name(final(self)@, name@),
    {
        match self.find_index(name) {
            None => {},
            Some(i) => {
                let ghost old_view = self@;
                self.peers.remove(i);
                proof {
                    assert(self@ =~~= old_view.remove(i as int));
                    lemma_wf_remove(old_view, i as int);
                    lemma_remove_frees_name(old_view, name@);
                }
            },
        }
    }

    /// Hands out the recipient's queued lines and leaves its queue empty; the
    /// connection actor drains its own queue through this before writing to
    /// its socket.
    pub fn take_outbound(&mut self, name: &String) -> (r: Vec<String>)
        requires
            old(self).wf(),
        ensures
            final(self).wf(),
            !has_name(old(self)@, name@) ==> final(self)@ == old(self)@ && r@.len() == 0,
            has_name(old(self)@, name@) ==> ({
                let i = index_of_name(old(self)@, name@);
                r.deep_view() == old(self)@[i].queue && final(self)@ == old(self)@.update(
                    i,
                    (PeerRecordV {
                        name: old(self)@[i].name,
                        addr: old(self)@[i].addr,
                        public_key: old(self)@[i].public_key,
                        queue: Seq::empty(),
                    }),
                )
            }),
    {
        match self.find_index(name) {
            None => Vec::new(),
            Some(i) => {
                let ghost old_view = self@;
                let rec = self.peers.remove(i);
                let PeerRecord { name: rec_name, addr, public_key, queue } = rec;
                self.peers.insert(
                    i,
                    PeerRecord { name: rec_name, addr, public_key, queue: Vec::new() },
                );
                proof {
                    let updated = PeerRecordV {
                        name: old_view[i as int].name,
                        addr: old_view[i as int].addr,
                        public_key: old_view[i as int].public_key,
                        queue: Seq::empty(),
                    };
                    assert(self@ =~~= old_view.update(i as int, updated));
                    lemma_wf_update(old_view, i as int, updated);
                }
                queue
            },
        }
    }

    /// A snapshot of the registered names, in registration order.
    pub fn roster(&self) -> (r: Vec<String>)
        ensures
            r@.len() == self@.len(),
            forall|k: int| 0 <= k < self@.len() ==> (#[trigger] r@[k])@ == self@[k].name,
    {
        let mut out: Vec<String> = Vec::new();
        let mut i: usize = 0;
        while i < self.peers.len()
            invariant
                i <= self@.len(),
                out@.len() == i,
                forall|k: int| 0 <= k < i ==> (#[trigger] out@[k])@ == self@[k].name,
            decreases self@.len() - i,
        {
            out.push(self.peers[i].name.clone());
            i = i + 1;
        }
        out
    }
}

} // verus!
