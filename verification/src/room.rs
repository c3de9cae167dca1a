//! The room actor's command processing.
//!
//! One room owns one replicated document and one peer registry, and is the
//! only writer of either. All commands reach it through a single ordered
//! mailbox and are processed to completion one at a time: that is the whole
//! serialization story, so the state a command sees is exactly the state the
//! previous command left.
//!
//! [`step`] is the room's abstract transition function over [`RoomModel`];
//! [`Room::handle_command`] is proved to implement it. The laws of the
//! protocol (who receives a broadcast, what a join reply holds, which history
//! a snapshot encodes) are proved over [`step`] in [`crate::laws`].

use vstd::prelude::*;

use tokio::sync::mpsc::Sender;
use tokio::sync::oneshot;

use crate::crdt::{crdt_applies, crdt_decodes, crdt_encodes, DocHandle};
use crate::peers::{spec_remove_id, try_deliver, Peers};
use crate::protocol::{ReplyView, ServerReply};

verus! {

#[verifier::external_type_specification]
#[verifier::external_body]
#[verifier::reject_recursive_types(T)]
pub struct ExOneshotSender<T>(oneshot::Sender<T>);

/// Relies on tokio::sync::oneshot::Sender::send: hands the value to the
/// receiving half if it is still listening; the sender is consumed either
/// way. Unlike the broadcast path this reply is not dropped for lack of
/// capacity: a oneshot channel always has room for its one value.
#[verifier::external_body]
fn respond_snapshot(tx: oneshot::Sender<Vec<u8>>, snapshot: Vec<u8>) -> (delivered: bool) {
    tx.send(snapshot).is_ok()
}

/// A command submitted to a room actor through its mailbox.
pub enum RoomCmd {
    /// Register a peer: reply with the roster as it was before the peer,
    /// then add the peer's outbound channel to the registry.
    Join { peer_id: u64, tx: Sender<ServerReply> },
    /// Deregister a peer; a no-op if it is not registered.
    Leave { peer_id: u64 },
    /// Hand an incremental update to the document and, if the
    /// replicated-state layer accepts it, broadcast it to the other peers.
    ClientUpdate { peer_id: u64, bytes: Vec<u8> },
    /// Broadcast ephemeral presence data to the other peers; never applied
    /// to the document.
    ClientAwareness { peer_id: u64, bytes: Vec<u8> },
    /// Encode the document's full current state and deliver it once through
    /// the given reply channel.
    Snapshot { peer_id: u64, tx: oneshot::Sender<Vec<u8>> },
}

/// The mathematical shape of a [`RoomCmd`]: the channels drop away.
pub enum CmdView {
    Join { peer: u64 },
    Leave { peer: u64 },
    Update { peer: u64, bytes: Seq<u8> },
    Awareness { peer: u64, bytes: Seq<u8> },
    SnapshotRequest { peer: u64 },
}

impl View for RoomCmd {
    type V = CmdView;

    open spec fn view(&self) -> CmdView {
        match self {
            RoomCmd::Join { peer_id, tx: _ } => CmdView::Join { peer: *peer_id },
            RoomCmd::Leave { peer_id } => CmdView::Leave { peer: *peer_id },
            RoomCmd::ClientUpdate { peer_id, bytes } => CmdView::Update {
                peer: *peer_id,
                bytes: bytes@,
            },
            RoomCmd::ClientAwareness { peer_id, bytes } => CmdView::Awareness {
                peer: *peer_id,
                bytes: bytes@,
            },
            RoomCmd::Snapshot { peer_id, tx: _ } => CmdView::SnapshotRequest { peer: *peer_id },
        }
    }
}

/// The abstract state of one room: the registered peer ids in registration
/// order, and the decodable update payloads handed to the document, oldest
/// first. A payload that does not decode never touches the document; one
/// that decodes is recorded whether integration accepted it or not, since
/// integration is not atomic and even a rejected update may leave parts of
/// itself in the document.
#[verifier::ext_equal]
pub struct RoomModel {
    pub roster: Seq<u64>,
    pub history: Seq<Seq<u8>>,
}

/// The reply a command hands back to its issuer, abstractly. A snapshot
/// reply is characterized by the history it encodes: the bytes themselves
/// are the replicated-state layer's business.
pub enum DirectView {
    NoReply,
    JoinReply { id: u64, peers: Seq<u64> },
    SnapshotReply { history: Seq<Seq<u8>> },
}

/// The message a command broadcasts to the other peers, abstractly.
pub enum FanoutView {
    NoBroadcast,
    Update(Seq<u8>),
    Awareness(Seq<u8>),
}

/// Everything one command does: the room's next state, the issuer's reply,
/// the broadcast and its recipients, and whether an update was accepted.
pub struct StepView {
    pub room: RoomModel,
    pub direct: DirectView,
    pub broadcast: FanoutView,
    pub fanout: Seq<u64>,
    pub applied: bool,
}

/// `s` extended by `id` if it is new; re-registering keeps the roster.
pub open spec fn spec_add_id(s: Seq<u64>, id: u64) -> Seq<u64> {
    if s.contains(id) {
        s
    } else {
        s.push(id)
    }
}

/// The room actor's transition function: what one command, processed alone,
/// does to the room and delivers to whom.
pub open spec fn step(m: RoomModel, c: CmdView) -> StepView {
    match c {
        CmdView::Join { peer } => StepView {
            room: RoomModel { roster: spec_add_id(m.roster, peer), history: m.history },
            direct: DirectView::JoinReply { id: peer, peers: m.roster },
            broadcast: FanoutView::NoBroadcast,
            fanout: Seq::empty(),
            applied: false,
        },
        CmdView::Leave { peer } => StepView {
            room: RoomModel { roster: spec_remove_id(m.roster, peer), history: m.history },
            direct: DirectView::NoReply,
            broadcast: FanoutView::NoBroadcast,
            fanout: Seq::empty(),
            applied: false,
        },
        CmdView::Update { peer, bytes } => {
            let accepted = crdt_decodes(bytes) && crdt_applies(bytes, m.history);
            StepView {
                room: RoomModel {
                    roster: m.roster,
                    history: if crdt_decodes(bytes) {
                        m.history.push(bytes)
                    } else {
                        m.history
                    },
                },
                direct: DirectView::NoReply,
                broadcast: if accepted {
                    FanoutView::Update(bytes)
                } else {
                    FanoutView::NoBroadcast
                },
                fanout: if accepted {
                    m.roster.filter(|i: u64| i != peer)
                } else {
                    Seq::empty()
                },
                applied: accepted,
            }
        },
        CmdView::Awareness { peer, bytes } => StepView {
            room: m,
            direct: DirectView::NoReply,
            broadcast: FanoutView::Awareness(bytes),
            fanout: m.roster.filter(|i: u64| i != peer),
            applied: false,
        },
        CmdView::SnapshotRequest { peer: _ } => StepView {
            room: m,
            direct: DirectView::SnapshotReply { history: m.history },
            broadcast: FanoutView::NoBroadcast,
            fanout: Seq::empty(),
            applied: false,
        },
    }
}

/// What processing one command reports back: the reply handed to the
/// issuer, the broadcast message and the ids it was offered to (in roster
/// order), and whether the document accepted an update.
pub struct CmdOutcome {
    /// The reply delivered to the command's issuer: the join reply sent to
    /// the joining peer's own channel, or the snapshot sent through the
    /// command's reply channel.
    pub direct: Option<ServerReply>,
    /// The message offered to every other registered peer, if any.
    pub broadcast: Option<ServerReply>,
    /// The ids the broadcast was offered to, in roster order; never the
    /// issuer's own id.
    pub fanout_to: Vec<u64>,
    /// Whether a [`RoomCmd::ClientUpdate`] was accepted by the
    /// replicated-state layer; only an accepted update is broadcast.
    pub applied: bool,
}

/// Whether an outcome reports exactly what the abstract step says.
pub open spec fn outcome_matches(out: CmdOutcome, s: StepView) -> bool {
    &&& out.fanout_to@ == s.fanout
    &&& out.applied == s.applied
    &&& (match s.broadcast {
        FanoutView::NoBroadcast => out.broadcast is None,
        FanoutView::Update(b) => out.broadcast matches Some(r) && r@ == ReplyView::Update(b),
        FanoutView::Awareness(b) => out.broadcast matches Some(r) && r@ == ReplyView::Awareness(b),
    })
    &&& (match s.direct {
        DirectView::NoReply => out.direct is None,
        DirectView::JoinReply { id, peers } => out.direct matches Some(r) && r@
            == (ReplyView::Join { id, peers }),
        DirectView::SnapshotReply { history } => out.direct matches Some(r) && (r matches
        ServerReply::Snapshot(b) && crdt_encodes(b@, history)),
    })
}

/// One room: the document it owns and the registry of its live peers.
pub struct Room {
    doc: DocHandle,
    peers: Peers,
}

impl View for Room {
    type V = RoomModel;

    closed spec fn view(&self) -> RoomModel {
        RoomModel { roster: self.peers@, history: self.doc@ }
    }
}

impl Room {
    /// The registry holds no id twice.
    pub closed spec fn wf(&self) -> bool {
        self.peers.wf()
    }

    /// A fresh room: empty roster, untouched document.
    pub fn new() -> (r: Room)
        ensures
            r.wf(),
            r@ == (RoomModel { roster: Seq::<u64>::empty(), history: Seq::<Seq<u8>>::empty() }),
    {
        let r = Room { doc: DocHandle::new(), peers: Peers::new() };
        proof {
            assert(r@ =~= RoomModel {
                roster: Seq::<u64>::empty(),
                history: Seq::<Seq<u8>>::empty(),
            });
        }
        r
    }

    /// Processes one command to completion, exactly as [`step`] says.
    ///
    /// A join replies with the roster as it was before the joiner, then
    /// registers it. A leave is idempotent. An update that does not decode
    /// is refused with the document untouched; a decodable payload joins the
    /// document's history whether integration accepted it or not (a rejected
    /// one may still leave traces), and it is broadcast only if accepted, to
    /// every registered peer but its sender. Awareness is
    /// broadcast the same way but never applied. A snapshot
    /// request is answered with an encoding of the full history as of this
    /// command, through the command's own reply channel. Broadcast delivery
    /// is non-blocking: a saturated peer misses the message and no one else
    /// waits.
    pub fn handle_command(&mut self, cmd: RoomCmd) -> (out: CmdOutcome)
        requires
            old(self).wf(),
        ensures
            final(self).wf(),
            final(self)@ == step(old(self)@, cmd@).room,
            outcome_matches(out, step(old(self)@, cmd@)),
    {
        match cmd {
            RoomCmd::Join { peer_id, tx } => {
                let roster = self.peers.ids();
                let reply = ServerReply::Join { id: peer_id, peers: roster };
                try_deliver(&tx, reply.clone());
                self.peers.add(peer_id, tx);
                proof {
                    assert(final(self)@ =~= step(old(self)@, cmd@).room);
                }
                CmdOutcome {
                    direct: Some(reply),
                    broadcast: None,
                    fanout_to: Vec::new(),
                    applied: false,
                }
            },
            RoomCmd::Leave { peer_id } => {
                self.peers.remove(peer_id);
                proof {
                    assert(final(self)@ =~= step(old(self)@, cmd@).room);
                }
                CmdOutcome { direct: None, broadcast: None, fanout_to: Vec::new(), applied: false }
            },
            RoomCmd::ClientUpdate { peer_id, bytes } => {
                let ok = self.doc.apply(&bytes);
                if ok {
                    let reply = ServerReply::Update(bytes);
                    let sent = self.peers.notify(peer_id, &reply);
                    proof {
                        assert(final(self)@ =~= step(old(self)@, cmd@).room);
                    }
                    CmdOutcome {
                        direct: None,
                        broadcast: Some(reply),
                        fanout_to: sent,
                        applied: true,
                    }
                } else {
                    proof {
                        assert(final(self)@ =~= step(old(self)@, cmd@).room);
                    }
                    CmdOutcome {
                        direct: None,
                        broadcast: None,
                        fanout_to: Vec::new(),
                        applied: false,
                    }
                }
            },
            RoomCmd::ClientAwareness { peer_id, bytes } => {
                let reply = ServerReply::Awareness(bytes);
                let sent = self.peers.notify(peer_id, &reply);
                proof {
                    assert(final(self)@ =~= step(old(self)@, cmd@).room);
                }
                CmdOutcome {
                    direct: None,
                    broadcast: Some(reply),
                    fanout_to: sent,
                    applied: false,
                }
            },
            RoomCmd::Snapshot { peer_id: _, tx } => {
                let snapshot = self.doc.encode_full_state();
                respond_snapshot(tx, snapshot.clone());
                proof {
                    assert(final(self)@ =~= step(old(self)@, cmd@).room);
                }
                CmdOutcome {
                    direct: Some(ServerReply::Snapshot(snapshot)),
                    broadcast: None,
                    fanout_to: Vec::new(),
                    applied: false,
                }
            },
        }
    }
}

} // verus!
