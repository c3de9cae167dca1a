//! The typed message vocabulary of the room protocol.
//!
//! A [`ServerRequest`] is a message a client sends to the server; a
//! [`ServerReply`] is a message the server delivers to a peer's outbound
//! channel. Both carry document updates as opaque byte payloads: the
//! replicated-state layer owns their meaning.

use vstd::prelude::*;

verus! {

/// A client-to-server message, as carried by an inbound wire frame.
#[derive(Clone, Debug, PartialEq)]
pub enum ServerRequest {
    /// An incremental document update produced by the client.
    Update(Vec<u8>),
    /// Ephemeral presence data (cursors and the like); never merged into
    /// the document state.
    Awareness(Vec<u8>),
    /// Ask for a full encoding of the room's current document state.
    SnapshotRequest,
    /// Heartbeat echo.
    PingPong,
}

/// A server-to-peer message.
#[derive(Clone, Debug, PartialEq)]
pub enum ServerReply {
    /// An incremental document update from another peer.
    Update(Vec<u8>),
    /// The reply to a join: the id the room knows the peer by, and the ids
    /// of the peers that were already registered at that moment.
    Join { id: u64, peers: Vec<u64> },
    /// Ephemeral presence data from another peer.
    Awareness(Vec<u8>),
    /// A full encoding of the room's document state.
    Snapshot(Vec<u8>),
    /// Heartbeat echo.
    PingPong,
    /// The bytes of a human-readable description of a failure that affects
    /// this peer only.
    Error(Vec<u8>),
}

/// The mathematical shape of a [`ServerRequest`].
pub enum RequestView {
    Update(Seq<u8>),
    Awareness(Seq<u8>),
    SnapshotRequest,
    PingPong,
}

/// The mathematical shape of a [`ServerReply`].
pub enum ReplyView {
    Update(Seq<u8>),
    Join { id: u64, peers: Seq<u64> },
    Awareness(Seq<u8>),
    Snapshot(Seq<u8>),
    PingPong,
    Error(Seq<u8>),
}

impl View for ServerRequest {
    type V = RequestView;

    open spec fn view(&self) -> RequestView {
        match self {
            ServerRequest::Update(b) => RequestView::Update(b@),
            ServerRequest::Awareness(b) => RequestView::Awareness(b@),
            ServerRequest::SnapshotRequest => RequestView::SnapshotRequest,
            ServerRequest::PingPong => RequestView::PingPong,
        }
    }
}

impl View for ServerReply {
    type V = ReplyView;

    open spec fn view(&self) -> ReplyView {
        match self {
            ServerReply::Update(b) => ReplyView::Update(b@),
            ServerReply::Join { id, peers } => ReplyView::Join { id: *id, peers: peers@ },
            ServerReply::Awareness(b) => ReplyView::Awareness(b@),
            ServerReply::Snapshot(b) => ReplyView::Snapshot(b@),
            ServerReply::PingPong => ReplyView::PingPong,
            ServerReply::Error(s) => ReplyView::Error(s@),
        }
    }
}

} // verus!
