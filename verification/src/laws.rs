//! The global guarantees of the room protocol, proved over the abstract
//! transition function [`step`].
//!
//! Everything here speaks of [`RoomModel`] and [`CmdView`]: by
//! [`crate::room::Room::handle_command`]'s contract, whatever holds of
//! [`step`] holds of the executable room.

use vstd::prelude::*;

use crate::crdt::{crdt_applies, crdt_decodes};
use crate::peers::lemma_filter_push;
use crate::room::{step, CmdView, DirectView, FanoutView, RoomModel};
use crate::session::{
    is_leave, session_trace, spec_session_transition, SessionDirectiveView, SessionInputView,
    SessionPhase,
};

verus! {

/// The state a room reaches after processing a batch of commands in arrival
/// order, one at a time.
pub open spec fn run(m: RoomModel, cmds: Seq<CmdView>) -> RoomModel
    decreases cmds.len(),
{
    if cmds.len() == 0 {
        m
    } else {
        run(step(m, cmds[0]).room, cmds.drop_first())
    }
}

/// Whether a command is a client update.
pub open spec fn is_update() -> spec_fn(CmdView) -> bool {
    |c: CmdView| c is Update
}

/// A client update command as the pair of its sender and its payload.
pub open spec fn update_entry() -> spec_fn(CmdView) -> (u64, Seq<u8>) {
    |c: CmdView|
        match c {
            CmdView::Update { peer, bytes } => (peer, bytes),
            _ => (0u64, Seq::<u8>::empty()),
        }
}

/// The updates submitted in `cmds`, each as the pair of its sender and its
/// payload, in arrival order.
pub open spec fn updates_of(cmds: Seq<CmdView>) -> Seq<(u64, Seq<u8>)> {
    cmds.filter(is_update()).map_values(update_entry())
}

/// A sender-payload pair's payload.
pub open spec fn entry_payload() -> spec_fn((u64, Seq<u8>)) -> Seq<u8> {
    |e: (u64, Seq<u8>)| e.1
}

/// The payloads of a batch of sender-payload pairs, in order.
pub open spec fn payloads(s: Seq<(u64, Seq<u8>)>) -> Seq<Seq<u8>> {
    s.map_values(entry_payload())
}

/// Whether a sender-payload pair's payload decodes as an update.
pub open spec fn entry_decodes() -> spec_fn((u64, Seq<u8>)) -> bool {
    |e: (u64, Seq<u8>)| crdt_decodes(e.1)
}

/// The submitted updates whose payloads decode, in arrival order: exactly
/// the ones the document records.
pub open spec fn decoded_updates(cmds: Seq<CmdView>) -> Seq<(u64, Seq<u8>)> {
    updates_of(cmds).filter(entry_decodes())
}

/// Law: draining a batch of commands extends the document's history by
/// exactly the decodable submitted update payloads, in arrival order — each
/// handed to the document once, whether or not integration then accepts it;
/// an update that does not decode, and every join, leave, awareness and
/// snapshot request, never touches the history. Since commands reach a room
/// only through its one ordered mailbox, processing is this fold and
/// nothing else.
pub proof fn lemma_run_appends_exactly(m: RoomModel, cmds: Seq<CmdView>)
    ensures
        run(m, cmds).history == m.history + payloads(decoded_updates(cmds)),
    decreases cmds.len(),
{
    if cmds.len() == 0 {
        lemma_filter_none(cmds, is_update());
        lemma_filter_none(updates_of(cmds), entry_decodes());
        assert(m.history + payloads(decoded_updates(cmds)) =~= m.history);
    } else {
        lemma_updates_of_head(cmds);
        let m1 = step(m, cmds[0]).room;
        let rest = cmds.drop_first();
        lemma_run_appends_exactly(m1, rest);
        match cmds[0] {
            CmdView::Update { peer, bytes } => {
                assert(updates_of(cmds) =~= seq![(peer, bytes)] + updates_of(rest));
                Seq::filter_distributes_over_add(
                    seq![(peer, bytes)],
                    updates_of(rest),
                    entry_decodes(),
                );
                lemma_filter_push(
                    Seq::<(u64, Seq<u8>)>::empty(),
                    (peer, bytes),
                    entry_decodes(),
                );
                assert(Seq::<(u64, Seq<u8>)>::empty().push((peer, bytes)) =~= seq![(peer, bytes)]);
                lemma_filter_none(Seq::<(u64, Seq<u8>)>::empty(), entry_decodes());
                if crdt_decodes(bytes) {
                    assert(m1.history == m.history.push(bytes));
                    assert(decoded_updates(cmds) =~= seq![(peer, bytes)] + decoded_updates(rest));
                    assert(payloads(seq![(peer, bytes)] + decoded_updates(rest)) =~= seq![bytes]
                        + payloads(decoded_updates(rest)));
                    assert(m.history + (seq![bytes] + payloads(decoded_updates(rest))) =~= (
                    m.history + seq![bytes]) + payloads(decoded_updates(rest)));
                    assert(m.history.push(bytes) =~= m.history + seq![bytes]);
                } else {
                    assert(m1.history == m.history);
                    assert(decoded_updates(cmds) =~= decoded_updates(rest));
                }
            },
            _ => {
                assert(m1.history == m.history);
                assert(updates_of(cmds) =~= updates_of(rest));
                assert(decoded_updates(cmds) =~= decoded_updates(rest));
            },
        }
    }
}

/// Whether a keyed element's key (first component) is `p`.
pub open spec fn has_key<V>(p: u64) -> spec_fn((u64, V)) -> bool {
    |e: (u64, V)| e.0 == p
}

/// The elements of `s` whose key is `p`, in order.
pub open spec fn key_filter<V>(s: Seq<(u64, V)>, p: u64) -> Seq<(u64, V)> {
    s.filter(has_key(p))
}

/// The updates submitted by peer `p` in `cmds`, in `p`'s own submission
/// order.
pub open spec fn peer_updates(cmds: Seq<CmdView>, p: u64) -> Seq<(u64, Seq<u8>)> {
    key_filter(updates_of(cmds), p)
}

/// A sequence none of whose elements satisfies the predicate filters to
/// nothing.
proof fn lemma_filter_none<A>(s: Seq<A>, pred: spec_fn(A) -> bool)
    requires
        forall|k: int| 0 <= k < s.len() ==> !pred(s[k]),
    ensures
        s.filter(pred) == Seq::<A>::empty(),
    decreases s.len(),
{
    reveal(Seq::filter);
    if s.len() > 0 {
        lemma_filter_none(s.drop_last(), pred);
    }
}

/// Taking one element out of a sequence takes it out of the filtered
/// sequence: an element that fails the predicate changes nothing, and the
/// last element to satisfy it is the filtered sequence's last.
proof fn lemma_filter_remove_at<A>(s: Seq<A>, pred: spec_fn(A) -> bool, j: int)
    requires
        0 <= j < s.len(),
    ensures
        !pred(s[j]) ==> s.remove(j).filter(pred) == s.filter(pred),
        (pred(s[j]) && (forall|k: int| j < k < s.len() ==> !pred(s[k]))) ==> s.filter(pred)
            == s.remove(j).filter(pred).push(s[j]),
{
    let a = s.subrange(0, j);
    let c = s.subrange(j + 1, s.len() as int);
    let one = seq![s[j]];
    assert(s =~= (a + one) + c);
    assert(s.remove(j) =~= a + c);
    Seq::filter_distributes_over_add(a + one, c, pred);
    Seq::filter_distributes_over_add(a, one, pred);
    Seq::filter_distributes_over_add(a, c, pred);
    lemma_filter_push(Seq::<A>::empty(), s[j], pred);
    assert(Seq::<A>::empty().push(s[j]) =~= one);
    lemma_filter_none(Seq::<A>::empty(), pred);
    if pred(s[j]) {
        if forall|k: int| j < k < s.len() ==> !pred(s[k]) {
            assert(forall|k: int| 0 <= k < c.len() ==> !pred(c[k]));
            lemma_filter_none(c, pred);
            assert(s.filter(pred) =~= a.filter(pred).push(s[j]));
            assert(s.remove(j).filter(pred) =~= a.filter(pred));
        }
    } else {
        assert(s.filter(pred) =~= a.filter(pred) + c.filter(pred));
        assert(s.remove(j).filter(pred) =~= a.filter(pred) + c.filter(pred));
    }
}

/// A nonempty filtered sequence pins down the last matching element of the
/// sequence it was filtered from: it is the filtered sequence's last, and
/// nothing after it matches.
proof fn lemma_filter_last_matching<A>(s: Seq<A>, pred: spec_fn(A) -> bool) -> (j: int)
    requires
        s.filter(pred).len() > 0,
    ensures
        0 <= j < s.len(),
        pred(s[j]),
        s[j] == s.filter(pred).last(),
        forall|k: int| j < k < s.len() ==> !pred(#[trigger] s[k]),
    decreases s.len(),
{
    reveal(Seq::filter);
    if s.len() == 0 {
        assert(s.filter(pred).len() == 0);
        0
    } else if pred(s.last()) {
        assert(s.filter(pred) == s.drop_last().filter(pred).push(s.last()));
        let j: int = s.len() - 1;
        assert(s[j] == s.last());
        j
    } else {
        assert(s.filter(pred) == s.drop_last().filter(pred));
        let j = lemma_filter_last_matching(s.drop_last(), pred);
        assert(s.drop_last()[j] == s[j]);
        assert forall|k: int| j < k < s.len() implies !pred(#[trigger] s[k]) by {
            if k < s.len() - 1 {
                assert(s[k] == s.drop_last()[k]);
            } else {
                assert(s[k] == s.last());
            }
        }
        j
    }
}

/// Two sequences of keyed elements with the same per-key subsequences hold
/// the same elements, each the same number of times.
proof fn lemma_per_key_filters_determine_multiset<V>(x: Seq<(u64, V)>, y: Seq<(u64, V)>)
    requires
        forall|p: u64| #[trigger] key_filter(x, p) == key_filter(y, p),
    ensures
        x.to_multiset() == y.to_multiset(),
    decreases x.len(),
{
    broadcast use vstd::seq_lib::group_filter_ensures;
    broadcast use vstd::seq_lib::group_to_multiset_ensures;
    broadcast use vstd::multiset::group_multiset_axioms;

    if x.len() == 0 {
        if y.len() > 0 {
            let e = y[0];
            let p = e.0;
            let pred = has_key::<V>(p);
            assert(key_filter(y, p).contains(e)) by {
                y.lemma_filter_contains(pred, 0);
            }
            assert(key_filter(x, p).len() == 0) by {
                lemma_filter_none(x, pred);
            }
            assert(false);
        }
        assert(x.to_multiset() =~= y.to_multiset());
    } else {
        let e = x.last();
        let p = e.0;
        let pred = has_key::<V>(p);
        let jx: int = x.len() - 1;
        assert(pred(x[jx]));
        lemma_filter_remove_at(x, pred, jx);
        assert(x.remove(jx) =~= x.drop_last());
        let x1 = x.drop_last();
        let fx = key_filter(x, p);
        assert(x.filter(pred) == x.remove(jx).filter(pred).push(x[jx]));
        assert(fx == key_filter(x1, p).push(e));
        let fy = key_filter(y, p);
        assert(fy == fx);
        assert(fy.len() > 0);
        let j = lemma_filter_last_matching(y, pred);
        assert(y[j] == fy.last());
        assert(fy.last() == e);
        let y1 = y.remove(j);
        lemma_filter_remove_at(y, pred, j);
        assert(fy == key_filter(y1, p).push(e));
        assert forall|q: u64| #[trigger] key_filter(x1, q) == key_filter(y1, q) by {
            if q == p {
                assert(key_filter(x1, p).push(e).drop_last() =~= key_filter(x1, p));
                assert(key_filter(y1, p).push(e).drop_last() =~= key_filter(y1, p));
                assert(key_filter(x1, p) == fx.drop_last());
                assert(key_filter(y1, p) == fy.drop_last());
            } else {
                let predq = has_key::<V>(q);
                lemma_filter_remove_at(x, predq, jx);
                lemma_filter_remove_at(y, predq, j);
                assert(key_filter(x1, q) == key_filter(x, q));
                assert(key_filter(y1, q) == key_filter(y, q));
            }
        }
        lemma_per_key_filters_determine_multiset(x1, y1);
        assert(x1.push(e) =~= x);
        assert(x.to_multiset() == x1.to_multiset().insert(e));
        assert(y1.to_multiset() == y.to_multiset().remove(e));
        assert(y.to_multiset().contains(e));
        assert(y.to_multiset().remove(e).insert(e) =~= y.to_multiset());
        assert(x.to_multiset() == y.to_multiset());
    }
}

/// Law: convergence across interleavings, at the room's level. Two command
/// batches in which every peer submits the same updates in the same order
/// (any interleaving across peers) carry the same collection of updates:
/// sender-payload pairs, each the same number of times.
/// [`lemma_convergent_histories`] carries this through to the drained
/// histories.
pub proof fn lemma_interleaving_update_multiset(a: Seq<CmdView>, b: Seq<CmdView>)
    requires
        forall|p: u64| #[trigger] peer_updates(a, p) == peer_updates(b, p),
    ensures
        updates_of(a).to_multiset() == updates_of(b).to_multiset(),
{
    assert forall|p: u64| #[trigger] key_filter(updates_of(a), p) == key_filter(
        updates_of(b),
        p,
    ) by {
        assert(peer_updates(a, p) == peer_updates(b, p));
    }
    lemma_per_key_filters_determine_multiset(updates_of(a), updates_of(b));
}

/// Peeling the first command off a batch peels its update entry, if it is an
/// update, off the batch's submitted updates.
proof fn lemma_updates_of_head(cmds: Seq<CmdView>)
    requires
        cmds.len() > 0,
    ensures
        updates_of(cmds) == (match cmds[0] {
            CmdView::Update { peer, bytes } => seq![(peer, bytes)],
            _ => Seq::<(u64, Seq<u8>)>::empty(),
        }) + updates_of(cmds.drop_first()),
{
    let rest = cmds.drop_first();
    let one = seq![cmds[0]];
    assert(cmds =~= one + rest);
    Seq::filter_distributes_over_add(one, rest, is_update());
    lemma_filter_push(Seq::<CmdView>::empty(), cmds[0], is_update());
    assert(Seq::<CmdView>::empty().push(cmds[0]) =~= one);
    lemma_filter_none(Seq::<CmdView>::empty(), is_update());
    match cmds[0] {
        CmdView::Update { peer, bytes } => {
            assert(one.filter(is_update()) == one);
            assert(updates_of(cmds) =~= seq![(peer, bytes)] + updates_of(rest));
        },
        _ => {
            assert(one.filter(is_update()) == Seq::<CmdView>::empty());
            assert(updates_of(cmds) =~= updates_of(rest));
        },
    }
}

/// Two filters applied one after the other keep the same elements in the
/// same order whichever is applied first.
proof fn lemma_filter_commutes<A>(s: Seq<A>, f: spec_fn(A) -> bool, g: spec_fn(A) -> bool)
    ensures
        s.filter(f).filter(g) == s.filter(g).filter(f),
    decreases s.len(),
{
    reveal(Seq::filter);
    if s.len() > 0 {
        let s1 = s.drop_last();
        let e = s.last();
        lemma_filter_commutes(s1, f, g);
        if f(e) {
            assert(s.filter(f) == s1.filter(f).push(e));
            lemma_filter_push(s1.filter(f), e, g);
        } else {
            assert(s.filter(f) == s1.filter(f));
        }
        if g(e) {
            assert(s.filter(g) == s1.filter(g).push(e));
            lemma_filter_push(s1.filter(g), e, f);
        } else {
            assert(s.filter(g) == s1.filter(g));
        }
    }
}

/// Sequences holding the same elements the same number of times still do
/// after mapping each element.
proof fn lemma_map_values_multiset<A, B>(x: Seq<A>, y: Seq<A>, f: spec_fn(A) -> B)
    requires
        x.to_multiset() == y.to_multiset(),
    ensures
        x.map_values(f).to_multiset() == y.map_values(f).to_multiset(),
    decreases x.len(),
{
    broadcast use vstd::seq_lib::group_to_multiset_ensures;
    broadcast use vstd::multiset::group_multiset_axioms;

    if x.len() == 0 {
        assert(x.to_multiset().len() == x.len());
        assert(y.to_multiset().len() == y.len());
        assert(y.len() == 0);
        assert(x.map_values(f) =~= y.map_values(f));
    } else {
        let e = x.last();
        assert(x.contains(e));
        assert(y.to_multiset().count(e) > 0);
        assert(y.contains(e));
        let j = choose|j: int| 0 <= j < y.len() && y[j] == e;
        let x1 = x.drop_last();
        let y1 = y.remove(j);
        assert(x.remove(x.len() - 1) =~= x1);
        assert(x1.to_multiset() == x.to_multiset().remove(e));
        assert(y1.to_multiset() == y.to_multiset().remove(e));
        lemma_map_values_multiset(x1, y1, f);
        assert(x1.map_values(f).push(f(e)) =~= x.map_values(f));
        assert(x.map_values(f).to_multiset() == x1.map_values(f).to_multiset().insert(f(e)));
        assert(y1.map_values(f) =~= y.map_values(f).remove(j));
        assert(y.map_values(f)[j] == f(e));
        assert(y1.map_values(f).to_multiset() == y.map_values(f).to_multiset().remove(f(e)));
        assert(y.map_values(f).to_multiset().count(f(e)) > 0);
        assert(y.map_values(f).to_multiset().remove(f(e)).insert(f(e)) =~= y.map_values(
            f,
        ).to_multiset());
        assert(x.map_values(f).to_multiset() == y.map_values(f).to_multiset());
    }
}

/// Law: convergence across interleavings, end to end at this layer. Drain,
/// from one starting state, two command batches in which every peer submits
/// the same updates in its own order: the final histories hold the same
/// update payloads, each the same number of times. The document's state is
/// a deterministic function of its history, and that reordering commutative
/// updates across peers folds to the identical state is the
/// replicated-state layer's guarantee, which this crate uses as stated and
/// does not re-prove.
pub proof fn lemma_convergent_histories(m: RoomModel, a: Seq<CmdView>, b: Seq<CmdView>)
    requires
        forall|p: u64| #[trigger] peer_updates(a, p) == peer_updates(b, p),
    ensures
        run(m, a).history.to_multiset() == run(m, b).history.to_multiset(),
{
    broadcast use vstd::seq_lib::lemma_multiset_commutative;

    lemma_run_appends_exactly(m, a);
    lemma_run_appends_exactly(m, b);
    assert forall|p: u64| #[trigger] key_filter(decoded_updates(a), p) == key_filter(
        decoded_updates(b),
        p,
    ) by {
        lemma_filter_commutes(updates_of(a), entry_decodes(), has_key::<Seq<u8>>(p));
        lemma_filter_commutes(updates_of(b), entry_decodes(), has_key::<Seq<u8>>(p));
        assert(peer_updates(a, p) == peer_updates(b, p));
    }
    lemma_per_key_filters_determine_multiset(decoded_updates(a), decoded_updates(b));
    lemma_map_values_multiset(decoded_updates(a), decoded_updates(b), entry_payload());
    assert(run(m, a).history.to_multiset() =~= run(m, b).history.to_multiset());
}

/// Law: an update rejected at decode changes nothing. Its payload is not
/// applied and not broadcast: the room is left exactly as it was, no peer is
/// offered anything, and a snapshot taken afterwards encodes the same
/// history as one taken before.
pub proof fn lemma_rejected_update_leaves_state(m: RoomModel, peer: u64, bytes: Seq<u8>, q: u64)
    requires
        !crdt_decodes(bytes),
    ensures
        step(m, CmdView::Update { peer, bytes }).room == m,
        !step(m, CmdView::Update { peer, bytes }).applied,
        step(m, CmdView::Update { peer, bytes }).fanout == Seq::<u64>::empty(),
        step(m, CmdView::Update { peer, bytes }).broadcast == FanoutView::NoBroadcast,
        step(step(m, CmdView::Update { peer, bytes }).room, CmdView::SnapshotRequest { peer: q })
            .direct == (DirectView::SnapshotReply { history: m.history }),
{
}

/// Law: a broadcast never reaches its own sender, and reaches every other
/// registered peer. Holds of updates and of awareness alike.
pub proof fn lemma_broadcast_excludes_sender(m: RoomModel, peer: u64, bytes: Seq<u8>)
    ensures
        !step(m, CmdView::Update { peer, bytes }).fanout.contains(peer),
        !step(m, CmdView::Awareness { peer, bytes }).fanout.contains(peer),
        forall|q: u64|
            m.roster.contains(q) && q != peer ==> step(
                m,
                CmdView::Awareness { peer, bytes },
            ).fanout.contains(q),
        (crdt_decodes(bytes) && crdt_applies(bytes, m.history)) ==> forall|q: u64|
            m.roster.contains(q) && q != peer ==> step(
                m,
                CmdView::Update { peer, bytes },
            ).fanout.contains(q),
{
    broadcast use vstd::seq_lib::group_filter_ensures;

    let pred = |i: u64| i != peer;
    let f = m.roster.filter(pred);
    if f.contains(peer) {
        let k = choose|k: int| 0 <= k < f.len() && f[k] == peer;
        m.roster.lemma_filter_pred(pred, k);
        assert(false);
    }
    assert forall|q: u64| m.roster.contains(q) && q != peer implies f.contains(q) by {
        let k = choose|k: int| 0 <= k < m.roster.len() && m.roster[k] == q;
        m.roster.lemma_filter_contains(pred, k);
    }
}

/// Law: join ordering. A peer joining a room with `N` registered peers is
/// told exactly that roster — `N` entries, its own id not among them — and
/// is itself visible to any peer that joins after it.
pub proof fn lemma_join_roster(m: RoomModel, a: u64, b: u64)
    requires
        !m.roster.contains(a),
    ensures
        step(m, CmdView::Join { peer: a }).direct == (DirectView::JoinReply {
            id: a,
            peers: m.roster,
        }),
        step(m, CmdView::Join { peer: a }).room.roster.contains(a),
        step(step(m, CmdView::Join { peer: a }).room, CmdView::Join { peer: b }).direct
            == (DirectView::JoinReply { id: b, peers: m.roster.push(a) }),
        m.roster.push(a).contains(a),
{
    let r1 = step(m, CmdView::Join { peer: a }).room.roster;
    assert(r1 == m.roster.push(a));
    assert(r1[m.roster.len() as int] == a);
    assert(r1.contains(a));
}

/// Law: snapshot freshness. A snapshot requested after an accepted update
/// encodes the history that ends with that update: both commands pass
/// through the same mailbox, so no stale state can be read past a committed
/// mutation.
pub proof fn lemma_snapshot_fresh(m: RoomModel, peer: u64, bytes: Seq<u8>, q: u64)
    requires
        crdt_decodes(bytes),
        crdt_applies(bytes, m.history),
    ensures
        step(m, CmdView::Update { peer, bytes }).applied,
        step(step(m, CmdView::Update { peer, bytes }).room, CmdView::SnapshotRequest { peer: q })
            .direct == (DirectView::SnapshotReply { history: m.history.push(bytes) }),
        m.history.push(bytes).last() == bytes,
{
}

/// Law: drop-and-resync. Whether earlier broadcast deliveries reached a peer
/// is no part of the room's state, so a snapshot request is always answered,
/// from any room state, with the full current history — a peer whose channel
/// was saturated during a broadcast is never blocked from resynchronizing.
pub proof fn lemma_snapshot_always_answered(m: RoomModel, q: u64)
    ensures
        step(m, CmdView::SnapshotRequest { peer: q }).direct == (DirectView::SnapshotReply {
            history: m.history,
        }),
        step(m, CmdView::SnapshotRequest { peer: q }).room == m,
{
}

/// A closed session emits nothing further, whatever arrives.
proof fn lemma_closed_trace_silent(inputs: Seq<SessionInputView>)
    ensures
        forall|k: int|
            0 <= k < session_trace(SessionPhase::Closed, inputs).len() ==> session_trace(
                SessionPhase::Closed,
                inputs,
            )[k] == SessionDirectiveView::Nothing,
    decreases inputs.len(),
{
    if inputs.len() > 0 {
        lemma_closed_trace_silent(inputs.drop_first());
    }
}

/// Law: one session deregisters at most once. Over any whole sequence of
/// inputs from the start of a session's life, the leave directive appears at
/// most once: it is emitted only on the transition into the terminal phase,
/// and a closed session emits nothing further.
pub proof fn lemma_leave_at_most_once(phase: SessionPhase, inputs: Seq<SessionInputView>)
    ensures
        session_trace(phase, inputs).filter(is_leave()).len() <= 1,
    decreases inputs.len(),
{
    if inputs.len() == 0 {
        lemma_filter_none(session_trace(phase, inputs), is_leave());
    } else {
        let r = spec_session_transition(phase, inputs[0]);
        let rest = inputs.drop_first();
        let tail = session_trace(r.0, rest);
        Seq::filter_distributes_over_add(seq![r.1], tail, is_leave());
        lemma_filter_push(Seq::<SessionDirectiveView>::empty(), r.1, is_leave());
        assert(Seq::<SessionDirectiveView>::empty().push(r.1) =~= seq![r.1]);
        lemma_filter_none(Seq::<SessionDirectiveView>::empty(), is_leave());
        if r.1 is Leave {
            assert(r.0 == SessionPhase::Closed);
            lemma_closed_trace_silent(rest);
            lemma_filter_none(tail, is_leave());
        } else {
            lemma_leave_at_most_once(r.0, rest);
        }
    }
}

/// Law: leave is idempotent. Removing an id that is not registered leaves
/// the room exactly as it was and delivers nothing to anybody; and whoever
/// else is registered stays registered through any leave.
pub proof fn lemma_leave_idempotent(m: RoomModel, p: u64, q: u64)
    ensures
        !m.roster.contains(p) ==> step(m, CmdView::Leave { peer: p }).room == m,
        step(m, CmdView::Leave { peer: p }).direct == DirectView::NoReply,
        step(m, CmdView::Leave { peer: p }).fanout == Seq::<u64>::empty(),
        m.roster.contains(q) && q != p ==> step(m, CmdView::Leave { peer: p }).room.roster.contains(
            q,
        ),
{
    if m.roster.contains(p) {
        let s = m.roster;
        let k = s.index_of(p);
        assert(0 <= k < s.len() && s[k] == p);
        if m.roster.contains(q) && q != p {
            let i = choose|i: int| 0 <= i < s.len() && s[i] == q;
            assert(i != k);
            let r = s.remove(k);
            if i < k {
                assert(r[i] == q);
            } else {
                assert(r[i - 1] == q);
            }
            assert(r.contains(q));
        }
    }
}

} // verus!
