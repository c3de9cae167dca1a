use scriptre::protocol::ServerReply;
use scriptre::room::{CmdOutcome, Room, RoomCmd};

use yrs::updates::decoder::Decode;
use yrs::{GetString, ReadTxn, Text, Transact};

/// A valid incremental update that writes `chunk` at the start of the shared
/// text named `name`, as one of this room's clients would produce it.
fn make_update(name: &str, chunk: &str) -> Vec<u8> {
    let doc = yrs::Doc::new();
    let text = doc.get_or_insert_text(name);
    let mut txn = doc.transact_mut();
    text.insert(&mut txn, 0, chunk);
    txn.encode_update_v1()
}

/// The content of the shared text named `name` inside an encoded full-state
/// snapshot.
fn text_in_snapshot(snapshot: &[u8], name: &str) -> String {
    let doc = yrs::Doc::new();
    let text = doc.get_or_insert_text(name);
    let mut txn = doc.transact_mut();
    txn.apply_update(yrs::Update::decode_v1(snapshot).unwrap()).unwrap();
    drop(txn);
    let txn = doc.transact();
    text.get_string(&txn)
}

fn join(room: &mut Room, id: u64) -> (CmdOutcome, tokio::sync::mpsc::Receiver<ServerReply>) {
    let (tx, rx) = tokio::sync::mpsc::channel::<ServerReply>(64);
    let out = room.handle_command(RoomCmd::Join { peer_id: id, tx });
    (out, rx)
}

fn request_snapshot(room: &mut Room, id: u64) -> Vec<u8> {
    let (tx, mut rx) = tokio::sync::oneshot::channel::<Vec<u8>>();
    room.handle_command(RoomCmd::Snapshot { peer_id: id, tx });
    rx.try_recv().expect("a snapshot request is always answered")
}

#[test]
fn lobby_scenario() {
    // Room "lobby" starts empty.
    let mut room = Room::new();
    let a: u64 = 11;
    let b: u64 = 22;

    // Peer A joins and is told an empty roster.
    let (out_a, mut rx_a) = join(&mut room, a);
    assert_eq!(out_a.direct, Some(ServerReply::Join { id: a, peers: vec![] }));
    assert_eq!(rx_a.try_recv().unwrap(), ServerReply::Join { id: a, peers: vec![] });

    // Peer B joins and is told [A]; A hears nothing of it.
    let (out_b, mut rx_b) = join(&mut room, b);
    assert_eq!(out_b.direct, Some(ServerReply::Join { id: b, peers: vec![a] }));
    assert_eq!(rx_b.try_recv().unwrap(), ServerReply::Join { id: b, peers: vec![a] });
    assert!(rx_a.try_recv().is_err());

    // A sends an update: B and only B receives it; A does not get it back.
    let x = make_update("lobby", "hello");
    let out = room.handle_command(RoomCmd::ClientUpdate { peer_id: a, bytes: x.clone() });
    assert!(out.applied);
    assert_eq!(out.fanout_to, vec![b]);
    assert_eq!(out.broadcast, Some(ServerReply::Update(x.clone())));
    assert_eq!(rx_b.try_recv().unwrap(), ServerReply::Update(x.clone()));
    assert!(rx_a.try_recv().is_err());

    // B asks for a snapshot and receives state reflecting X.
    let snapshot = request_snapshot(&mut room, b);
    assert_eq!(text_in_snapshot(&snapshot, "lobby"), "hello");

    // A disconnects; B's next update reaches zero other peers, with no error.
    room.handle_command(RoomCmd::Leave { peer_id: a });
    let y = make_update("lobby", "bye ");
    let out = room.handle_command(RoomCmd::ClientUpdate { peer_id: b, bytes: y });
    assert!(out.applied);
    assert_eq!(out.fanout_to, Vec::<u64>::new());
}

#[test]
fn snapshot_is_fresh_after_update() {
    let mut room = Room::new();
    let (_, _rx) = join(&mut room, 1);
    let x = make_update("doc", "fresh");
    let out = room.handle_command(RoomCmd::ClientUpdate { peer_id: 1, bytes: x });
    assert!(out.applied);
    let snapshot = request_snapshot(&mut room, 1);
    assert_eq!(text_in_snapshot(&snapshot, "doc"), "fresh");
}

#[test]
fn saturated_peer_can_still_resync() {
    let mut room = Room::new();
    let a: u64 = 1;
    let b: u64 = 2;
    // B joins with a channel of capacity 1: the join reply fills it.
    let (tx_b, mut rx_b) = tokio::sync::mpsc::channel::<ServerReply>(1);
    room.handle_command(RoomCmd::Join { peer_id: b, tx: tx_b });
    let (_, _rx_a) = join(&mut room, a);

    // A's broadcast finds B's channel saturated: B's copy is dropped, the
    // room carries on and still reports B as an intended recipient.
    let x = make_update("doc", "lost on b");
    let out = room.handle_command(RoomCmd::ClientUpdate { peer_id: a, bytes: x });
    assert!(out.applied);
    assert_eq!(out.fanout_to, vec![b]);
    assert_eq!(rx_b.try_recv().unwrap(), ServerReply::Join { id: b, peers: vec![] });
    assert!(rx_b.try_recv().is_err());

    // B is not blocked: its own snapshot request is answered with full state.
    let snapshot = request_snapshot(&mut room, b);
    assert_eq!(text_in_snapshot(&snapshot, "doc"), "lost on b");
}

#[test]
fn leave_of_unknown_peer_is_idempotent() {
    let mut room = Room::new();
    let (_, mut rx_a) = join(&mut room, 5);
    rx_a.try_recv().unwrap();

    // Leaving an id that was never registered neither errors nor disturbs
    // the registered peer.
    let out = room.handle_command(RoomCmd::Leave { peer_id: 999 });
    assert_eq!(out.direct, None);
    assert_eq!(out.fanout_to, Vec::<u64>::new());

    let x = make_update("doc", "still here");
    let out = room.handle_command(RoomCmd::ClientUpdate { peer_id: 7, bytes: x.clone() });
    assert_eq!(out.fanout_to, vec![5]);
    assert_eq!(rx_a.try_recv().unwrap(), ServerReply::Update(x));
}

// Bytes that do not even decode as an update: the layer rejects them before
// integrating anything, so the document state is untouched and the snapshots
// around the attempt are byte-identical.
#[test]
fn rejected_update_is_not_applied_and_not_broadcast() {
    let mut room = Room::new();
    let (_, mut rx_a) = join(&mut room, 1);
    rx_a.try_recv().unwrap();
    let (_, _rx_b) = join(&mut room, 2);

    let before = request_snapshot(&mut room, 1);
    let out = room.handle_command(RoomCmd::ClientUpdate {
        peer_id: 2,
        bytes: vec![0xff, 0xff, 0xff, 0xff],
    });
    assert!(!out.applied);
    assert_eq!(out.broadcast, None);
    assert_eq!(out.fanout_to, Vec::<u64>::new());
    assert!(rx_a.try_recv().is_err());
    let after = request_snapshot(&mut room, 1);
    assert_eq!(before, after);
}

#[test]
fn awareness_is_broadcast_but_never_applied() {
    let mut room = Room::new();
    let a: u64 = 1;
    let b: u64 = 2;
    let (_, mut rx_a) = join(&mut room, a);
    rx_a.try_recv().unwrap();
    let (_, mut rx_b) = join(&mut room, b);
    rx_b.try_recv().unwrap();

    let before = request_snapshot(&mut room, a);
    let out = room.handle_command(RoomCmd::ClientAwareness { peer_id: a, bytes: vec![1, 2] });
    assert!(!out.applied);
    assert_eq!(out.fanout_to, vec![b]);
    assert_eq!(rx_b.try_recv().unwrap(), ServerReply::Awareness(vec![1, 2]));
    assert!(rx_a.try_recv().is_err());
    let after = request_snapshot(&mut room, a);
    assert_eq!(before, after);
}

#[test]
fn convergence_across_interleavings() {
    // Two peers each produce two causally ordered updates. Two rooms drain
    // them in different interleavings that preserve each peer's own order:
    // the final document states converge.
    let doc_a = yrs::Doc::new();
    let text_a = doc_a.get_or_insert_text("doc");
    let mut txn = doc_a.transact_mut();
    text_a.insert(&mut txn, 0, "alpha ");
    let a1 = txn.encode_update_v1();
    drop(txn);
    let mut txn = doc_a.transact_mut();
    text_a.insert(&mut txn, 0, "amber ");
    let a2 = txn.encode_update_v1();
    drop(txn);

    let doc_b = yrs::Doc::new();
    let text_b = doc_b.get_or_insert_text("doc");
    let mut txn = doc_b.transact_mut();
    text_b.insert(&mut txn, 0, "bravo ");
    let b1 = txn.encode_update_v1();
    drop(txn);
    let mut txn = doc_b.transact_mut();
    text_b.insert(&mut txn, 0, "basil ");
    let b2 = txn.encode_update_v1();
    drop(txn);

    let drain = |order: Vec<(u64, Vec<u8>)>| -> String {
        let mut room = Room::new();
        let (_, _rx1) = join(&mut room, 1);
        let (_, _rx2) = join(&mut room, 2);
        for (peer_id, bytes) in order {
            let out = room.handle_command(RoomCmd::ClientUpdate { peer_id, bytes });
            assert!(out.applied);
        }
        let snapshot = request_snapshot(&mut room, 1);
        text_in_snapshot(&snapshot, "doc")
    };

    let one = drain(vec![(1, a1.clone()), (2, b1.clone()), (1, a2.clone()), (2, b2.clone())]);
    let two = drain(vec![(2, b1), (2, b2), (1, a1), (1, a2)]);
    assert_eq!(one, two);
}

#[test]
fn rejoin_replaces_channel_without_duplicating_peer() {
    let mut room = Room::new();
    let a: u64 = 1;
    let b: u64 = 2;
    let (_, mut rx_a_old) = join(&mut room, a);
    rx_a_old.try_recv().unwrap();
    let (_, _rx_b) = join(&mut room, b);

    // A joins again with a new channel: the roster it is told already holds
    // both ids, and the roster keeps one entry for A.
    let (out, mut rx_a_new) = join(&mut room, a);
    assert_eq!(out.direct, Some(ServerReply::Join { id: a, peers: vec![a, b] }));
    rx_a_new.try_recv().unwrap();

    let x = make_update("doc", "once");
    let out = room.handle_command(RoomCmd::ClientUpdate { peer_id: b, bytes: x.clone() });
    assert_eq!(out.fanout_to, vec![a]);
    assert_eq!(rx_a_new.try_recv().unwrap(), ServerReply::Update(x));
    assert!(rx_a_new.try_recv().is_err());
}
