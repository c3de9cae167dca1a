//! Room synchronization engine for a collaborative document editor.
//!
//! Many clients attach to a named document ("room") over a persistent
//! bidirectional connection. Each room is owned by a single actor that
//! serializes all mutations of the shared document state, fans change
//! notifications out to the other peers, and answers snapshot requests so
//! that a newly attached (or resynchronizing) peer can catch up.
//!
//! Bottom up: [`protocol`] is the typed message vocabulary; [`codec`] its
//! tag-prefixed binary wire form; [`crdt`] the handle around the external
//! replicated document; [`peers`] the per-room registry of outbound delivery
//! channels; [`room`] the room actor's command processing, together with the
//! abstract transition function it is proved to implement; [`session`] the
//! per-connection dispatch of inbound traffic; [`laws`] the proofs of the
//! protocol's global guarantees; [`format`] the screenplay paragraph
//! categories the edited documents are written in.

pub mod codec;
pub mod crdt;
pub mod format;
pub mod laws;
pub mod peers;
pub mod protocol;
pub mod room;
pub mod session;
