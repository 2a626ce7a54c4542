//! A blockchain synchronization engine: the decision logic that brings a
//! node from an arbitrary local chain state into agreement with the
//! network's canonical history, over an unreliable multi-peer transport.
//!
//! The crate verifies the engine's decisions: staging and sequence-checking
//! of candidate headers, tip consensus selection, batch-wise block
//! consumption and the orchestration state around them.  Peer I/O, the
//! ledger and the consensus collaborator stay outside; callers hand their
//! responses in as plain values and perform the actions the engine asks
//! for.

pub mod codec;
pub mod condvar;
pub mod digest;
pub mod exchange;
pub mod header;
pub mod list;
pub mod opcode;
pub mod privmsg;
pub mod proto;
pub mod reqrep;
pub mod rng;
pub mod rpc;
pub mod staging;
pub mod sync;
pub mod tip;
