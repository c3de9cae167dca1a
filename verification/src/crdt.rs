//! The handle around the external replicated document.
//!
//! A room's content lives in a conflict-free replicated document owned by the
//! yrs crate. This module wraps it behind a [`DocHandle`] whose mathematical
//! view is the sequence of decodable update payloads handed to it so far, in
//! order. A payload that does not decode is refused before the document is
//! touched and is not recorded. Integration of a decoded update, though, is
//! not atomic: one rejected partway through keeps its already-integrated
//! blocks. So the document's store (integrated blocks, any such residue, and
//! the pending set) is a function of every decoded payload ever handed in,
//! not of the accepted ones alone; what the contracts here say, they say
//! over that full sequence.

use vstd::prelude::*;

use yrs::updates::decoder::Decode;
use yrs::{ReadTxn, Transact};

verus! {

#[verifier::external_type_specification]
#[verifier::external_body]
pub struct ExDoc(yrs::Doc);

/// The sequence of update payloads that have been handed to `d` and
/// decoded, oldest first — whether or not integration then accepted each. A
/// payload that does not decode never touches the document and is not
/// recorded. A document created by yrs::Doc::new and mutated only by being
/// handed remote updates is determined by this sequence: integration folds
/// the blocks of an update client by client in ascending id order and
/// resolves pending updates deterministically, so two documents with the
/// same recorded sequence hold the same store.
pub uninterp spec fn doc_history(d: yrs::Doc) -> Seq<Seq<u8>>;

/// Whether `update` decodes as an update at all. Deterministic in the bytes
/// alone.
pub uninterp spec fn crdt_decodes(update: Seq<u8>) -> bool;

/// Whether, once decoded, `update` integrates without error into a document
/// that has been handed `history`. Deterministic in these two alone;
/// meaningful only for payloads that decode.
pub uninterp spec fn crdt_applies(update: Seq<u8>, history: Seq<Seq<u8>>) -> bool;

/// Whether `snapshot` is a full encoding of the state of a document that has
/// been handed `history`.
pub uninterp spec fn crdt_encodes(snapshot: Seq<u8>, history: Seq<Seq<u8>>) -> bool;

/// Relies on yrs::Doc::new: a freshly created document has been handed
/// nothing.
#[verifier::external_body]
fn new_doc() -> (d: yrs::Doc)
    ensures
        doc_history(d) == Seq::<Seq<u8>>::empty(),
{
    yrs::Doc::new()
}

/// Relies on yrs::Update::decode_v1 (yrs::updates::decoder::Decode) and
/// yrs::TransactionMut::apply_update (via yrs::Transact::transact_mut):
/// whether an update decodes depends on its bytes alone, and whether a
/// decoded update integrates depends only on its bytes and on what the
/// document was handed before. A payload that does not decode is refused
/// before the document is touched, so only a decodable payload joins the
/// history. Integration, though, is not atomic — an update rejected partway
/// through keeps its already-integrated blocks — so a decodable payload
/// joins the history whether integration accepted it or not. Additionally
/// trusted to return rather than panic on arbitrary bytes: decoding and
/// integration report the content errors they detect as values of yrs's
/// update error type. The panicking arms they keep were not shown reachable
/// from update bytes; that they are not is part of what this item trusts.
#[verifier::external_body]
fn doc_apply(d: &mut yrs::Doc, bytes: &Vec<u8>) -> (ok: bool)
    ensures
        ok == (crdt_decodes(bytes@) && crdt_applies(bytes@, doc_history(*old(d)))),
        doc_history(*final(d)) == if crdt_decodes(bytes@) {
            doc_history(*old(d)).push(bytes@)
        } else {
            doc_history(*old(d))
        },
{
    let update = match yrs::Update::decode_v1(bytes.as_slice()) {
        Ok(u) => u,
        Err(_) => {
            return false;
        },
    };
    let mut txn = d.transact_mut();
    txn.apply_update(update).is_ok()
}

/// Relies on yrs::transaction::ReadTxn::encode_state_as_update_v1 (via
/// yrs::Transact::transact), asked for the difference against the empty state
/// vector: the returned bytes encode the document's full current state, that
/// is, the state its handed-in history determines. Additionally trusted to
/// return rather than panic: the encoder keeps panicking arms for items
/// whose parent link cannot be written back; that integration never stores
/// such an item is part of what this item trusts.
#[verifier::external_body]
fn doc_encode_full(d: &yrs::Doc) -> (snapshot: Vec<u8>)
    ensures
        crdt_encodes(snapshot@, doc_history(*d)),
{
    let txn = d.transact();
    txn.encode_state_as_update_v1(&yrs::StateVector::default())
}

/// One room's replicated document. Its view is the sequence of decodable
/// update payloads handed to it so far, oldest first, whether or not
/// integration accepted each.
pub struct DocHandle {
    doc: yrs::Doc,
}

impl View for DocHandle {
    type V = Seq<Seq<u8>>;

    closed spec fn view(&self) -> Seq<Seq<u8>> {
        doc_history(self.doc)
    }
}

impl DocHandle {
    /// A handle on a fresh document that has been handed nothing yet.
    pub fn new() -> (d: DocHandle)
        ensures
            d@ == Seq::<Seq<u8>>::empty(),
    {
        DocHandle { doc: new_doc() }
    }

    /// Hands one update to the document. A payload that does not decode is
    /// refused before the document is touched and leaves it exactly as it
    /// was. A decodable payload joins the history whether integration then
    /// accepted it or not, because an update rejected partway through may
    /// still leave parts of itself in the document.
    pub fn apply(&mut self, bytes: &Vec<u8>) -> (ok: bool)
        ensures
            ok == (crdt_decodes(bytes@) && crdt_applies(bytes@, old(self)@)),
            final(self)@ == if crdt_decodes(bytes@) {
                old(self)@.push(bytes@)
            } else {
                old(self)@
            },
    {
        doc_apply(&mut self.doc, bytes)
    }

    /// Encodes the document's full current state: the state its handed-in
    /// history determines.
    pub fn encode_full_state(&self) -> (snapshot: Vec<u8>)
        ensures
            crdt_encodes(snapshot@, self@),
    {
        doc_encode_full(&self.doc)
    }
}

} // verus!
