use scriptre::codec::{
    decode_reply, decode_request, encode_reply, encode_request, push_u64_le, read_u64_le,
    InboundFrame, ReplyFrame, SocketCodec, SocketMessage, TAG_AWARENESS, TAG_ERROR, TAG_JOIN,
    TAG_PINGPONG, TAG_SNAPSHOT, TAG_SNAPSHOT_REQ, TAG_UPDATE,
};
use scriptre::protocol::{ServerReply, ServerRequest};

#[test]
fn u64_le_round_trips() {
    let mut buf: Vec<u8> = Vec::new();
    push_u64_le(&mut buf, 0x0123_4567_89ab_cdef);
    assert_eq!(buf, vec![0xef, 0xcd, 0xab, 0x89, 0x67, 0x45, 0x23, 0x01]);
    assert_eq!(read_u64_le(&buf, 0), 0x0123_4567_89ab_cdef);
    push_u64_le(&mut buf, u64::MAX);
    assert_eq!(read_u64_le(&buf, 8), u64::MAX);
}

#[test]
fn update_request_round_trips() {
    let frame = encode_request(&ServerRequest::Update(vec![1, 2, 3]));
    assert_eq!(frame, vec![TAG_UPDATE, 1, 2, 3]);
    let decoded = decode_request(&frame);
    assert_eq!(decoded, InboundFrame::Known(ServerRequest::Update(vec![1, 2, 3])));
}

#[test]
fn awareness_request_round_trips() {
    let frame = encode_request(&ServerRequest::Awareness(vec![9]));
    assert_eq!(frame, vec![TAG_AWARENESS, 9]);
    let decoded = decode_request(&frame);
    assert_eq!(decoded, InboundFrame::Known(ServerRequest::Awareness(vec![9])));
}

#[test]
fn snapshot_request_round_trips() {
    let frame = encode_request(&ServerRequest::SnapshotRequest);
    assert_eq!(frame, vec![TAG_SNAPSHOT_REQ]);
    let decoded = decode_request(&frame);
    assert_eq!(decoded, InboundFrame::Known(ServerRequest::SnapshotRequest));
}

#[test]
fn pingpong_request_round_trips() {
    let frame = encode_request(&ServerRequest::PingPong);
    assert_eq!(frame, vec![TAG_PINGPONG]);
    let decoded = decode_request(&frame);
    assert_eq!(decoded, InboundFrame::Known(ServerRequest::PingPong));
}

#[test]
fn unknown_request_tag_is_reported_not_fatal() {
    assert_eq!(decode_request(&[0x7f, 1, 2]), InboundFrame::Unknown(0x7f));
}

#[test]
fn empty_request_frame_is_malformed() {
    assert_eq!(decode_request(&[]), InboundFrame::Malformed);
}

#[test]
fn update_reply_round_trips() {
    let frame = encode_reply(&ServerReply::Update(vec![4, 5]));
    assert_eq!(frame, vec![TAG_UPDATE, 4, 5]);
    assert_eq!(decode_reply(&frame), ReplyFrame::Known(ServerReply::Update(vec![4, 5])));
}

#[test]
fn awareness_reply_round_trips() {
    let frame = encode_reply(&ServerReply::Awareness(vec![6]));
    assert_eq!(frame, vec![TAG_AWARENESS, 6]);
    assert_eq!(decode_reply(&frame), ReplyFrame::Known(ServerReply::Awareness(vec![6])));
}

#[test]
fn snapshot_reply_round_trips() {
    let frame = encode_reply(&ServerReply::Snapshot(vec![7, 8, 9]));
    assert_eq!(frame, vec![TAG_SNAPSHOT, 7, 8, 9]);
    assert_eq!(decode_reply(&frame), ReplyFrame::Known(ServerReply::Snapshot(vec![7, 8, 9])));
}

#[test]
fn pingpong_reply_has_empty_payload() {
    let frame = encode_reply(&ServerReply::PingPong);
    assert_eq!(frame, vec![TAG_PINGPONG]);
    assert_eq!(decode_reply(&frame), ReplyFrame::Known(ServerReply::PingPong));
}

#[test]
fn join_reply_round_trips() {
    let reply = ServerReply::Join { id: 42, peers: vec![7, u64::MAX, 0] };
    let frame = encode_reply(&reply);
    assert_eq!(frame.len(), 1 + 8 + 3 * 8);
    assert_eq!(frame[0], TAG_JOIN);
    assert_eq!(decode_reply(&frame), ReplyFrame::Known(reply));
}

#[test]
fn join_reply_with_empty_roster_round_trips() {
    let reply = ServerReply::Join { id: 1, peers: vec![] };
    let frame = encode_reply(&reply);
    assert_eq!(frame.len(), 9);
    assert_eq!(decode_reply(&frame), ReplyFrame::Known(reply));
}

#[test]
fn join_frame_with_ragged_payload_is_malformed() {
    // Too short for an assigned id.
    assert_eq!(decode_reply(&[TAG_JOIN, 1, 2, 3]), ReplyFrame::Malformed);
    // An id plus half a roster entry.
    let mut frame = vec![TAG_JOIN];
    frame.extend_from_slice(&[0; 12]);
    assert_eq!(decode_reply(&frame), ReplyFrame::Malformed);
}

#[test]
fn error_reply_round_trips() {
    let reply = ServerReply::Error(b"room unavailable".to_vec());
    let frame = encode_reply(&reply);
    assert_eq!(frame[0], TAG_ERROR);
    assert_eq!(decode_reply(&frame), ReplyFrame::Known(reply));
}

#[test]
fn unknown_reply_tag_is_reported_not_fatal() {
    assert_eq!(decode_reply(&[0x40]), ReplyFrame::Unknown(0x40));
    assert_eq!(decode_reply(&[]), ReplyFrame::Malformed);
}

#[test]
fn socket_codec_round_trips() {
    let msg = SocketCodec::decode(&[TAG_SNAPSHOT, 1, 2, 3]).unwrap();
    assert_eq!(msg, SocketMessage(TAG_SNAPSHOT, vec![1, 2, 3]));
    let bytes = SocketCodec::encode(&msg).unwrap();
    assert_eq!(bytes, vec![TAG_SNAPSHOT, 1, 2, 3]);
    let empty_payload = SocketCodec::encode(&SocketMessage(TAG_PINGPONG, vec![])).unwrap();
    assert_eq!(empty_payload, vec![TAG_PINGPONG]);
}
