//! The per-room registry of peers and their outbound delivery channels.
//!
//! A room knows each live peer by its 64-bit id and holds the sending half of
//! that peer's outbound channel. The registry is a vector of id-channel
//! pairs under a no-duplicate-id invariant, so that fan-out iterates in a
//! verified, deterministic order; its view is the sequence of registered ids
//! in registration order. Fan-out is non-blocking: a peer whose channel is
//! full or closed misses that message rather than stalling the room, and
//! recovers by asking for a snapshot.

use vstd::prelude::*;

use tokio::sync::mpsc::Sender;

use crate::protocol::ServerReply;

verus! {

#[verifier::external_type_specification]
#[verifier::external_body]
#[verifier::reject_recursive_types(T)]
pub struct ExMpscSender<T>(Sender<T>);

/// Relies on tokio::sync::mpsc::Sender::try_send: a non-blocking attempt to
/// deliver one message; a full or closed channel refuses it and the message
/// is dropped. Nothing is promised of the outcome: whether the channel has
/// capacity at this instant is the receiving side's affair.
#[verifier::external_body]
pub(crate) fn try_deliver(tx: &Sender<ServerReply>, reply: ServerReply) -> (delivered: bool) {
    tx.try_send(reply).is_ok()
}

/// `s` with the one occurrence of `id` taken out, if it occurs at all.
pub open spec fn spec_remove_id(s: Seq<u64>, id: u64) -> Seq<u64> {
    if s.contains(id) {
        s.remove(s.index_of(id))
    } else {
        s
    }
}

/// The registry of one room's live peers.
pub struct Peers {
    entries: Vec<(u64, Sender<ServerReply>)>,
}

impl View for Peers {
    type V = Seq<u64>;

    closed spec fn view(&self) -> Seq<u64> {
        self.entries@.map_values(|e: (u64, Sender<ServerReply>)| e.0)
    }
}

impl Peers {
    /// No id is registered twice.
    pub open spec fn wf(&self) -> bool {
        forall|i: int, j: int| 0 <= i < j < self@.len() ==> self@[i] != self@[j]
    }

    /// An empty registry.
    pub fn new() -> (r: Peers)
        ensures
            r@ == Seq::<u64>::empty(),
            r.wf(),
    {
        let entries: Vec<(u64, Sender<ServerReply>)> = Vec::new();
        proof {
            assert(entries@.map_values(|e: (u64, Sender<ServerReply>)| e.0) =~= Seq::<
                u64,
            >::empty());
        }
        Peers { entries }
    }

    /// The position of `id` in the registry, if it is registered.
    fn position_of(&self, id: u64) -> (r: Option<usize>)
        ensures
            match r {
                Some(i) => i < self@.len() && self@[i as int] == id,
                None => !self@.contains(id),
            },
    {
        let mut i: usize = 0;
        while i < self.entries.len()
            invariant
                0 <= i <= self@.len(),
                self@.len() == self.entries@.len(),
                forall|j: int| 0 <= j < i ==> self@[j] != id,
            decreases self.entries@.len() - i,
        {
            if self.entries[i].0 == id {
                return Some(i);
            }
            i = i + 1;
        }
        None
    }

    /// The ids of the currently registered peers, in registration order.
    pub fn ids(&self) -> (r: Vec<u64>)
        ensures
            r@ == self@,
    {
        let mut r: Vec<u64> = Vec::new();
        let mut i: usize = 0;
        while i < self.entries.len()
            invariant
                0 <= i <= self@.len(),
                self@.len() == self.entries@.len(),
                r@ == self@.take(i as int),
            decreases self.entries@.len() - i,
        {
            r.push(self.entries[i].0);
            proof {
                assert(r@ =~= self@.take(i as int + 1));
            }
            i = i + 1;
        }
        proof {
            assert(self@.take(self@.len() as int) =~= self@);
        }
        r
    }

    /// Registers `id` with its outbound channel. A fresh id is appended to
    /// the roster; re-registering an id replaces its channel and leaves the
    /// roster as it was.
    pub fn add(&mut self, id: u64, tx: Sender<ServerReply>)
        requires
            old(self).wf(),
        ensures
            final(self).wf(),
            final(self)@ == if old(self)@.contains(id) {
                old(self)@
            } else {
                old(self)@.push(id)
            },
    {
        let pos = self.position_of(id);
        match pos {
            Some(i) => {
                self.entries.remove(i);
                self.entries.insert(i, (id, tx));
                proof {
                    assert(final(self)@ =~= old(self)@);
                }
            },
            None => {
                self.entries.push((id, tx));
                proof {
                    assert(final(self)@ =~= old(self)@.push(id));
                }
            },
        }
    }

    /// Deregisters `id`. Removing an id that is not registered is a no-op:
    /// the roster is left as it was and no other peer is affected.
    pub fn remove(&mut self, id: u64)
        requires
            old(self).wf(),
        ensures
            final(self).wf(),
            final(self)@ == spec_remove_id(old(self)@, id),
            !old(self)@.contains(id) ==> final(self)@ == old(self)@,
    {
        let pos = self.position_of(id);
        match pos {
            Some(i) => {
                self.entries.remove(i);
                proof {
                    let s = old(self)@;
                    let k = s.index_of(id);
                    assert(s.contains(id));
                    assert(s[k] == id);
                    assert(k == i as int);
                    assert(final(self)@ =~= s.remove(i as int));
                }
            },
            None => {
            },
        }
    }

    /// Attempts a non-blocking delivery of `reply` to every registered peer
    /// but `from`, and reports, in roster order, the ids the delivery was
    /// attempted for. A peer whose channel is full or closed misses the
    /// message; the room is never stalled on its account.
    pub fn notify(&self, from: u64, reply: &ServerReply) -> (sent: Vec<u64>)
        ensures
            sent@ == self@.filter(|i: u64| i != from),
    {
        let mut sent: Vec<u64> = Vec::new();
        let mut i: usize = 0;
        while i < self.entries.len()
            invariant
                0 <= i <= self@.len(),
                self@.len() == self.entries@.len(),
                sent@ == self@.take(i as int).filter(|i: u64| i != from),
            decreases self.entries@.len() - i,
        {
            let peer_id = self.entries[i].0;
            if peer_id != from {
                try_deliver(&self.entries[i].1, reply.clone());
                sent.push(peer_id);
            }
            proof {
                lemma_filter_push(self@.take(i as int), self@[i as int], |i: u64| i != from);
                assert(self@.take(i as int).push(self@[i as int]) =~= self@.take(i as int + 1));
            }
            i = i + 1;
        }
        proof {
            assert(self@.take(self@.len() as int) =~= self@);
        }
        sent
    }
}

/// Filtering a sequence extended by one element keeps the filtered prefix and
/// appends the element exactly when it satisfies the predicate.
pub proof fn lemma_filter_push<A>(s: Seq<A>, x: A, pred: spec_fn(A) -> bool)
    ensures
        s.push(x).filter(pred) == if pred(x) {
            s.filter(pred).push(x)
        } else {
            s.filter(pred)
        },
{
    reveal(Seq::filter);
    assert(s.push(x).drop_last() =~= s);
    assert(s.push(x).last() == x);
}

} // verus!
