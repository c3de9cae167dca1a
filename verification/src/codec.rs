//! The tag-prefixed binary wire form of the room protocol.
//!
//! A frame is one tag byte followed by an opaque payload. The one structured
//! payload is the join reply: the assigned peer id followed by the ids of the
//! already-registered peers, each as eight little-endian bytes. A first byte
//! that matches no known tag never fails a connection: decoding reports it as
//! an unknown frame so the caller can ignore it.

use vstd::prelude::*;

use crate::protocol::{ReplyView, RequestView, ServerReply, ServerRequest};

verus! {

/// Tag of a frame carrying an incremental document update.
pub const TAG_UPDATE: u8 = 0x00;
/// Tag of a frame carrying ephemeral presence data.
pub const TAG_AWARENESS: u8 = 0x01;
/// Tag of a client frame asking for a full-state snapshot.
pub const TAG_SNAPSHOT_REQ: u8 = 0x02;
/// Tag of a server frame carrying a full-state snapshot.
pub const TAG_SNAPSHOT: u8 = 0x03;
/// Tag of a heartbeat echo frame.
pub const TAG_PINGPONG: u8 = 0x04;
/// Tag of the structured join reply frame.
pub const TAG_JOIN: u8 = 0x05;
/// Tag of a server frame carrying an error description.
pub const TAG_ERROR: u8 = 0x11;

/// The eight little-endian bytes of `x`.
pub open spec fn u64_le_bytes(x: u64) -> Seq<u8> {
    seq![
        (x & 0xff) as u8,
        ((x >> 8) & 0xff) as u8,
        ((x >> 16) & 0xff) as u8,
        ((x >> 24) & 0xff) as u8,
        ((x >> 32) & 0xff) as u8,
        ((x >> 40) & 0xff) as u8,
        ((x >> 48) & 0xff) as u8,
        ((x >> 56) & 0xff) as u8,
    ]
}

/// The value whose little-endian bytes are `b`.
pub open spec fn u64_from_le_bytes(b: Seq<u8>) -> u64
    recommends
        b.len() == 8,
{
    (b[0] as u64) | ((b[1] as u64) << 8) | ((b[2] as u64) << 16) | ((b[3] as u64) << 24) | ((
    b[4] as u64) << 32) | ((b[5] as u64) << 40) | ((b[6] as u64) << 48) | ((b[7] as u64) << 56)
}

/// Reading back the little-endian bytes of a value yields the value.
pub proof fn lemma_u64_le_round_trip(x: u64)
    ensures
        u64_from_le_bytes(u64_le_bytes(x)) == x,
{
    assert((((x & 0xff) as u8) as u64) | (((((x >> 8) & 0xff) as u8) as u64) << 8) | (((((x >> 16)
        & 0xff) as u8) as u64) << 16) | (((((x >> 24) & 0xff) as u8) as u64) << 24) | (((((x >> 32)
        & 0xff) as u8) as u64) << 32) | (((((x >> 40) & 0xff) as u8) as u64) << 40) | (((((x >> 48)
        & 0xff) as u8) as u64) << 48) | (((((x >> 56) & 0xff) as u8) as u64) << 56) == x)
        by (bit_vector);
}

/// Appends the eight little-endian bytes of `x` to `out`.
pub fn push_u64_le(out: &mut Vec<u8>, x: u64)
    ensures
        final(out)@ == old(out)@ + u64_le_bytes(x),
{
    proof {
        assert(x & 0xff <= 0xff && (x >> 8) & 0xff <= 0xff && (x >> 16) & 0xff <= 0xff && (x >> 24)
            & 0xff <= 0xff && (x >> 32) & 0xff <= 0xff && (x >> 40) & 0xff <= 0xff && (x >> 48)
            & 0xff <= 0xff && (x >> 56) & 0xff <= 0xff) by (bit_vector);
    }
    out.push((x & 0xff) as u8);
    out.push(((x >> 8) & 0xff) as u8);
    out.push(((x >> 16) & 0xff) as u8);
    out.push(((x >> 24) & 0xff) as u8);
    out.push(((x >> 32) & 0xff) as u8);
    out.push(((x >> 40) & 0xff) as u8);
    out.push(((x >> 48) & 0xff) as u8);
    out.push(((x >> 56) & 0xff) as u8);
    proof {
        assert(final(out)@ =~= old(out)@ + u64_le_bytes(x));
    }
}

/// Reads the eight little-endian bytes at `off`.
pub fn read_u64_le(b: &[u8], off: usize) -> (x: u64)
    requires
        off + 8 <= b@.len(),
    ensures
        x == u64_from_le_bytes(b@.subrange(off as int, off as int + 8)),
{
    let x = (b[off] as u64) | ((b[off + 1] as u64) << 8) | ((b[off + 2] as u64) << 16) | ((b[off
        + 3] as u64) << 24) | ((b[off + 4] as u64) << 32) | ((b[off + 5] as u64) << 40) | ((b[off
        + 6] as u64) << 48) | ((b[off + 7] as u64) << 56);
    proof {
        let s = b@.subrange(off as int, off as int + 8);
        assert(s[0] == b@[off as int] && s[1] == b@[off as int + 1] && s[2] == b@[off as int + 2]
            && s[3] == b@[off as int + 3] && s[4] == b@[off as int + 4] && s[5] == b@[off as int
            + 5] && s[6] == b@[off as int + 6] && s[7] == b@[off as int + 7]);
    }
    x
}

/// The wire bytes of a client-to-server message: its tag, then its payload.
pub open spec fn spec_encode_request(r: RequestView) -> Seq<u8> {
    match r {
        RequestView::Update(p) => seq![TAG_UPDATE] + p,
        RequestView::Awareness(p) => seq![TAG_AWARENESS] + p,
        RequestView::SnapshotRequest => seq![TAG_SNAPSHOT_REQ],
        RequestView::PingPong => seq![TAG_PINGPONG],
    }
}

/// The outcome of decoding one inbound frame.
#[derive(Clone, Debug, PartialEq)]
pub enum InboundFrame {
    /// The frame carried a recognized client-to-server message.
    Known(ServerRequest),
    /// The first byte matched no known tag; the frame is to be ignored.
    Unknown(u8),
    /// The frame was empty; there is nothing to interpret.
    Malformed,
}

/// The mathematical shape of an [`InboundFrame`].
pub enum InboundFrameView {
    Known(RequestView),
    Unknown(u8),
    Malformed,
}

impl View for InboundFrame {
    type V = InboundFrameView;

    open spec fn view(&self) -> InboundFrameView {
        match self {
            InboundFrame::Known(r) => InboundFrameView::Known(r@),
            InboundFrame::Unknown(t) => InboundFrameView::Unknown(*t),
            InboundFrame::Malformed => InboundFrameView::Malformed,
        }
    }
}

/// What decoding the bytes of one inbound frame yields.
pub open spec fn spec_decode_request(b: Seq<u8>) -> InboundFrameView {
    if b.len() == 0 {
        InboundFrameView::Malformed
    } else if b[0] == TAG_UPDATE {
        InboundFrameView::Known(RequestView::Update(b.subrange(1, b.len() as int)))
    } else if b[0] == TAG_AWARENESS {
        InboundFrameView::Known(RequestView::Awareness(b.subrange(1, b.len() as int)))
    } else if b[0] == TAG_SNAPSHOT_REQ {
        InboundFrameView::Known(RequestView::SnapshotRequest)
    } else if b[0] == TAG_PINGPONG {
        InboundFrameView::Known(RequestView::PingPong)
    } else {
        InboundFrameView::Unknown(b[0])
    }
}

/// Encodes a client-to-server message as one wire frame.
pub fn encode_request(r: &ServerRequest) -> (out: Vec<u8>)
    ensures
        out@ == spec_encode_request(r@),
{
    let mut out: Vec<u8> = Vec::new();
    match r {
        ServerRequest::Update(p) => {
            out.push(TAG_UPDATE);
            out.extend_from_slice(p.as_slice());
            proof {
                assert(out@ =~= spec_encode_request(r@));
            }
        },
        ServerRequest::Awareness(p) => {
            out.push(TAG_AWARENESS);
            out.extend_from_slice(p.as_slice());
            proof {
                assert(out@ =~= spec_encode_request(r@));
            }
        },
        ServerRequest::SnapshotRequest => {
            out.push(TAG_SNAPSHOT_REQ);
            proof {
                assert(out@ =~= spec_encode_request(r@));
            }
        },
        ServerRequest::PingPong => {
            out.push(TAG_PINGPONG);
            proof {
                assert(out@ =~= spec_encode_request(r@));
            }
        },
    }
    out
}

/// Decodes the bytes of one inbound frame.
pub fn decode_request(b: &[u8]) -> (f: InboundFrame)
    ensures
        f@ == spec_decode_request(b@),
{
    if b.len() == 0 {
        return InboundFrame::Malformed;
    }
    let tag = b[0];
    if tag == TAG_UPDATE {
        let payload = vstd::slice::slice_to_vec(vstd::slice::slice_subrange(b, 1, b.len()));
        InboundFrame::Known(ServerRequest::Update(payload))
    } else if tag == TAG_AWARENESS {
        let payload = vstd::slice::slice_to_vec(vstd::slice::slice_subrange(b, 1, b.len()));
        InboundFrame::Known(ServerRequest::Awareness(payload))
    } else if tag == TAG_SNAPSHOT_REQ {
        InboundFrame::Known(ServerRequest::SnapshotRequest)
    } else if tag == TAG_PINGPONG {
        InboundFrame::Known(ServerRequest::PingPong)
    } else {
        InboundFrame::Unknown(tag)
    }
}

/// The concatenated little-endian bytes of a list of peer ids.
pub open spec fn spec_ids_bytes(ids: Seq<u64>) -> Seq<u8>
    decreases ids.len(),
{
    if ids.len() == 0 {
        Seq::empty()
    } else {
        u64_le_bytes(ids[0]) + spec_ids_bytes(ids.drop_first())
    }
}

/// The list of peer ids whose concatenated little-endian bytes are `b`;
/// trailing bytes that do not fill eight are dropped.
pub open spec fn spec_parse_ids(b: Seq<u8>) -> Seq<u64>
    decreases b.len(),
{
    if b.len() < 8 {
        Seq::empty()
    } else {
        seq![u64_from_le_bytes(b.subrange(0, 8))] + spec_parse_ids(b.skip(8))
    }
}

/// A list of ids encodes to eight bytes per id.
pub proof fn lemma_ids_bytes_len(ids: Seq<u64>)
    ensures
        spec_ids_bytes(ids).len() == 8 * ids.len(),
    decreases ids.len(),
{
    if ids.len() > 0 {
        lemma_ids_bytes_len(ids.drop_first());
    }
}

/// Appending one id appends its eight bytes.
pub proof fn lemma_ids_bytes_push(ids: Seq<u64>, x: u64)
    ensures
        spec_ids_bytes(ids.push(x)) == spec_ids_bytes(ids) + u64_le_bytes(x),
    decreases ids.len(),
{
    if ids.len() == 0 {
        assert(ids.push(x).drop_first() =~= Seq::<u64>::empty());
        assert(ids.push(x)[0] == x);
        assert(spec_ids_bytes(ids.push(x)) == u64_le_bytes(x) + spec_ids_bytes(
            ids.push(x).drop_first()));
        assert(spec_ids_bytes(ids.push(x)) =~= spec_ids_bytes(ids) + u64_le_bytes(x));
    } else {
        assert(ids.push(x).drop_first() =~= ids.drop_first().push(x));
        lemma_ids_bytes_push(ids.drop_first(), x);
        assert(ids.push(x)[0] == ids[0]);
        assert(spec_ids_bytes(ids.push(x)) == u64_le_bytes(ids[0]) + spec_ids_bytes(
            ids.drop_first().push(x)));
        assert(spec_ids_bytes(ids.push(x)) =~= spec_ids_bytes(ids) + u64_le_bytes(x));
    }
}

/// Law: parsing the concatenated little-endian bytes of a list of peer ids
/// yields the list back.
pub proof fn lemma_parse_ids_round_trip(ids: Seq<u64>)
    ensures
        spec_parse_ids(spec_ids_bytes(ids)) == ids,
    decreases ids.len(),
{
    if ids.len() == 0 {
        assert(spec_parse_ids(spec_ids_bytes(ids)) =~= ids);
    } else {
        let b = spec_ids_bytes(ids);
        lemma_ids_bytes_len(ids.drop_first());
        assert(b.subrange(0, 8) =~= u64_le_bytes(ids[0]));
        assert(b.skip(8) =~= spec_ids_bytes(ids.drop_first()));
        lemma_u64_le_round_trip(ids[0]);
        lemma_parse_ids_round_trip(ids.drop_first());
        assert(spec_parse_ids(b) =~= ids);
    }
}

/// The wire bytes of a server-to-peer message: its tag, then its payload.
/// The join reply's payload is the assigned id followed by the roster ids,
/// eight little-endian bytes each.
pub open spec fn spec_encode_reply(r: ReplyView) -> Seq<u8> {
    match r {
        ReplyView::Update(p) => seq![TAG_UPDATE] + p,
        ReplyView::Awareness(p) => seq![TAG_AWARENESS] + p,
        ReplyView::Snapshot(p) => seq![TAG_SNAPSHOT] + p,
        ReplyView::PingPong => seq![TAG_PINGPONG],
        ReplyView::Join { id, peers } => seq![TAG_JOIN] + u64_le_bytes(id) + spec_ids_bytes(peers),
        ReplyView::Error(p) => seq![TAG_ERROR] + p,
    }
}

/// The outcome of decoding one server-to-peer frame.
#[derive(Clone, Debug, PartialEq)]
pub enum ReplyFrame {
    /// The frame carried a recognized server-to-peer message.
    Known(ServerReply),
    /// The first byte matched no known tag; the frame is to be ignored.
    Unknown(u8),
    /// The frame was empty, or a join frame's payload did not hold an
    /// assigned id followed by whole ids.
    Malformed,
}

/// The mathematical shape of a [`ReplyFrame`].
pub enum ReplyFrameView {
    Known(ReplyView),
    Unknown(u8),
    Malformed,
}

impl View for ReplyFrame {
    type V = ReplyFrameView;

    open spec fn view(&self) -> ReplyFrameView {
        match self {
            ReplyFrame::Known(r) => ReplyFrameView::Known(r@),
            ReplyFrame::Unknown(t) => ReplyFrameView::Unknown(*t),
            ReplyFrame::Malformed => ReplyFrameView::Malformed,
        }
    }
}

/// Whether `b` is a well-formed join payload: an assigned id and then whole
/// roster ids.
pub open spec fn spec_join_payload_ok(b: Seq<u8>) -> bool {
    b.len() >= 9 && (b.len() - 9) % 8 == 0
}

/// What decoding the bytes of one server-to-peer frame yields.
pub open spec fn spec_decode_reply(b: Seq<u8>) -> ReplyFrameView {
    if b.len() == 0 {
        ReplyFrameView::Malformed
    } else if b[0] == TAG_UPDATE {
        ReplyFrameView::Known(ReplyView::Update(b.subrange(1, b.len() as int)))
    } else if b[0] == TAG_AWARENESS {
        ReplyFrameView::Known(ReplyView::Awareness(b.subrange(1, b.len() as int)))
    } else if b[0] == TAG_SNAPSHOT {
        ReplyFrameView::Known(ReplyView::Snapshot(b.subrange(1, b.len() as int)))
    } else if b[0] == TAG_PINGPONG {
        ReplyFrameView::Known(ReplyView::PingPong)
    } else if b[0] == TAG_JOIN {
        if spec_join_payload_ok(b) {
            ReplyFrameView::Known(
                ReplyView::Join {
                    id: u64_from_le_bytes(b.subrange(1, 9)),
                    peers: spec_parse_ids(b.skip(9)),
                },
            )
        } else {
            ReplyFrameView::Malformed
        }
    } else if b[0] == TAG_ERROR {
        ReplyFrameView::Known(ReplyView::Error(b.subrange(1, b.len() as int)))
    } else {
        ReplyFrameView::Unknown(b[0])
    }
}

/// Encodes a server-to-peer message as one wire frame.
pub fn encode_reply(r: &ServerReply) -> (out: Vec<u8>)
    ensures
        out@ == spec_encode_reply(r@),
{
    let mut out: Vec<u8> = Vec::new();
    match r {
        ServerReply::Update(p) => {
            out.push(TAG_UPDATE);
            out.extend_from_slice(p.as_slice());
            proof {
                assert(out@ =~= spec_encode_reply(r@));
            }
        },
        ServerReply::Awareness(p) => {
            out.push(TAG_AWARENESS);
            out.extend_from_slice(p.as_slice());
            proof {
                assert(out@ =~= spec_encode_reply(r@));
            }
        },
        ServerReply::Snapshot(p) => {
            out.push(TAG_SNAPSHOT);
            out.extend_from_slice(p.as_slice());
            proof {
                assert(out@ =~= spec_encode_reply(r@));
            }
        },
        ServerReply::PingPong => {
            out.push(TAG_PINGPONG);
            proof {
                assert(out@ =~= spec_encode_reply(r@));
            }
        },
        ServerReply::Join { id, peers } => {
            out.push(TAG_JOIN);
            push_u64_le(&mut out, *id);
            let ghost prefix = out@;
            let mut i: usize = 0;
            while i < peers.len()
                invariant
                    0 <= i <= peers@.len(),
                    out@ == prefix + spec_ids_bytes(peers@.take(i as int)),
                decreases peers@.len() - i,
            {
                push_u64_le(&mut out, peers[i]);
                proof {
                    lemma_ids_bytes_push(peers@.take(i as int), peers@[i as int]);
                    assert(peers@.take(i as int).push(peers@[i as int]) =~= peers@.take(
                        i as int + 1));
                    assert(out@ =~= prefix + spec_ids_bytes(peers@.take(i as int + 1)));
                }
                i = i + 1;
            }
            proof {
                assert(peers@.take(peers@.len() as int) =~= peers@);
                assert(out@ =~= spec_encode_reply(r@));
            }
        },
        ServerReply::Error(p) => {
            out.push(TAG_ERROR);
            out.extend_from_slice(p.as_slice());
            proof {
                assert(out@ =~= spec_encode_reply(r@));
            }
        },
    }
    out
}

/// Decodes the bytes of one server-to-peer frame.
pub fn decode_reply(b: &[u8]) -> (f: ReplyFrame)
    ensures
        f@ == spec_decode_reply(b@),
{
    if b.len() == 0 {
        return ReplyFrame::Malformed;
    }
    let tag = b[0];
    if tag == TAG_UPDATE {
        let payload = vstd::slice::slice_to_vec(vstd::slice::slice_subrange(b, 1, b.len()));
        ReplyFrame::Known(ServerReply::Update(payload))
    } else if tag == TAG_AWARENESS {
        let payload = vstd::slice::slice_to_vec(vstd::slice::slice_subrange(b, 1, b.len()));
        ReplyFrame::Known(ServerReply::Awareness(payload))
    } else if tag == TAG_SNAPSHOT {
        let payload = vstd::slice::slice_to_vec(vstd::slice::slice_subrange(b, 1, b.len()));
        ReplyFrame::Known(ServerReply::Snapshot(payload))
    } else if tag == TAG_PINGPONG {
        ReplyFrame::Known(ServerReply::PingPong)
    } else if tag == TAG_JOIN {
        if b.len() < 9 || (b.len() - 9) % 8 != 0 {
            return ReplyFrame::Malformed;
        }
        let id = read_u64_le(b, 1);
        proof {
            assert(b@.subrange(1, 9) =~= b@.skip(1).subrange(0, 8));
        }
        let mut peers: Vec<u64> = Vec::new();
        let mut off: usize = 9;
        while b.len() - off >= 8
            invariant
                9 <= off <= b@.len(),
                off % 8 == 1,
                (b@.len() - 9) % 8 == 0,
                b@.len() >= 9,
                spec_parse_ids(b@.skip(9)) == peers@ + spec_parse_ids(b@.skip(off as int)),
            decreases b@.len() - off,
        {
            let x = read_u64_le(b, off);
            proof {
                let rest = b@.skip(off as int);
                assert(rest.subrange(0, 8) =~= b@.subrange(off as int, off as int + 8));
                assert(rest.skip(8) =~= b@.skip(off as int + 8));
                assert(spec_parse_ids(rest) == seq![u64_from_le_bytes(rest.subrange(0, 8))]
                    + spec_parse_ids(rest.skip(8)));
                assert(peers@.push(x) + spec_parse_ids(b@.skip(off as int + 8)) =~= peers@
                    + spec_parse_ids(b@.skip(off as int)));
            }
            peers.push(x);
            off = off + 8;
        }
        proof {
            assert(off == b@.len());
            assert(b@.skip(off as int).len() < 8);
            assert(spec_parse_ids(b@.skip(9)) =~= peers@);
        }
        ReplyFrame::Known(ServerReply::Join { id, peers })
    } else if tag == TAG_ERROR {
        let payload = vstd::slice::slice_to_vec(vstd::slice::slice_subrange(b, 1, b.len()));
        ReplyFrame::Known(ServerReply::Error(payload))
    } else {
        ReplyFrame::Unknown(tag)
    }
}

/// Law: the outbound codec is lossless. Decoding the encoding of any
/// server-to-peer message yields that message back.
pub proof fn lemma_reply_round_trip(r: ReplyView)
    ensures
        spec_decode_reply(spec_encode_reply(r)) == ReplyFrameView::Known(r),
{
    let b = spec_encode_reply(r);
    match r {
        ReplyView::Update(p) => {
            assert(b.subrange(1, b.len() as int) =~= p);
        },
        ReplyView::Awareness(p) => {
            assert(b.subrange(1, b.len() as int) =~= p);
        },
        ReplyView::Snapshot(p) => {
            assert(b.subrange(1, b.len() as int) =~= p);
        },
        ReplyView::PingPong => {
        },
        ReplyView::Join { id, peers } => {
            lemma_ids_bytes_len(peers);
            assert(b.subrange(1, 9) =~= u64_le_bytes(id));
            lemma_u64_le_round_trip(id);
            assert(b.skip(9) =~= spec_ids_bytes(peers));
            lemma_parse_ids_round_trip(peers);
        },
        ReplyView::Error(p) => {
            assert(b.subrange(1, b.len() as int) =~= p);
        },
    }
}

/// Law: the inbound codec is lossless. Decoding the encoding of any
/// client-to-server message yields that message back.
pub proof fn lemma_request_round_trip(r: RequestView)
    ensures
        spec_decode_request(spec_encode_request(r)) == InboundFrameView::Known(r),
{
    match r {
        RequestView::Update(p) => {
            assert(spec_encode_request(r).subrange(1, spec_encode_request(r).len() as int) =~= p);
        },
        RequestView::Awareness(p) => {
            assert(spec_encode_request(r).subrange(1, spec_encode_request(r).len() as int) =~= p);
        },
        RequestView::SnapshotRequest => {
        },
        RequestView::PingPong => {
        },
    }
}

/// A raw wire frame split into its tag byte and its payload, without
/// interpreting the tag.
#[derive(Clone, Debug, PartialEq)]
pub struct SocketMessage(pub u8, pub Vec<u8>);

/// The mathematical shape of a [`SocketMessage`]: its tag and its payload.
pub open spec fn socket_message_view(m: SocketMessage) -> (u8, Seq<u8>) {
    (m.0, m.1@)
}

/// The frame bytes a [`SocketMessage`] stands for.
pub open spec fn spec_socket_encode(tag: u8, payload: Seq<u8>) -> Seq<u8> {
    seq![tag] + payload
}

/// The uninterpreted tag-and-payload split of the bytes of one frame.
pub struct SocketCodec;

impl SocketCodec {
    /// Splits frame bytes into their tag and their payload.
    pub fn decode(val: &[u8]) -> (r: Result<SocketMessage, ()>)
        requires
            val@.len() >= 1,
        ensures
            r is Ok,
            socket_message_view(r->Ok_0) == (val@[0], val@.skip(1)),
    {
        let tag = val[0];
        let payload = vstd::slice::slice_to_vec(vstd::slice::slice_subrange(val, 1, val.len()));
        proof {
            assert(val@.subrange(1, val@.len() as int) =~= val@.skip(1));
        }
        Ok(SocketMessage(tag, payload))
    }

    /// Joins a tag and a payload back into frame bytes.
    pub fn encode(val: &SocketMessage) -> (r: Result<Vec<u8>, ()>)
        ensures
            r is Ok,
            r->Ok_0@ == spec_socket_encode(val.0, val.1@),
    {
        let mut out: Vec<u8> = Vec::new();
        out.push(val.0);
        out.extend_from_slice(val.1.as_slice());
        proof {
            assert(out@ =~= spec_socket_encode(val.0, val.1@));
        }
        Ok(out)
    }
}

/// Law: the raw frame split is lossless in both directions. Splitting the
/// bytes of a frame and joining them again yields the same bytes, and joining
/// a tag with a payload and splitting the result yields them back.
pub proof fn lemma_socket_round_trip(tag: u8, payload: Seq<u8>, frame: Seq<u8>)
    requires
        frame.len() >= 1,
    ensures
        spec_socket_encode(frame[0], frame.skip(1)) == frame,
        spec_socket_encode(tag, payload)[0] == tag,
        spec_socket_encode(tag, payload).skip(1) == payload,
{
    assert(spec_socket_encode(frame[0], frame.skip(1)) =~= frame);
    assert(spec_socket_encode(tag, payload).skip(1) =~= payload);
}

} // verus!
