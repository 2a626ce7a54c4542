//! The typed messages the sync engine exchanges with peers.  The
//! transport that carries them stays outside the library; callers hand
//! responses in as plain values.

use vstd::prelude::*;

use crate::header::{Header, HeaderHash};

verus! {

/// How many staged headers are read, verified and consumed per round:
/// keeps memory bounded while the chain is walked.
pub const BATCH: usize = 20;

/// Asks a peer whether it is synced, carrying our current tip hash.
#[derive(Clone, Copy, PartialEq, Eq, Debug)]
pub struct TipRequest {
    pub tip: HeaderHash,
}

/// A peer's answer to a [`TipRequest`].  Only a synced peer that names
/// both a height and a hash contributes a candidate tip.
#[derive(Clone, Copy, PartialEq, Eq, Debug)]
pub struct TipResponse {
    pub synced: bool,
    pub height: Option<u32>,
    pub hash: Option<HeaderHash>,
}

/// Asks a peer for the run of headers below the named height.
#[derive(Clone, Copy, PartialEq, Eq, Debug)]
pub struct HeaderSyncRequest {
    pub height: u32,
}

/// A peer's run of headers, ordered by height.
#[derive(Clone, PartialEq, Eq, Debug)]
pub struct HeaderSyncResponse {
    pub headers: Vec<Header>,
}

/// Asks a peer for the blocks matching the listed header hashes.
#[derive(Clone, PartialEq, Eq, Debug)]
pub struct SyncRequest {
    pub headers: Vec<HeaderHash>,
}

/// Asks one peer for its best-fork proposal chain above our tip.
#[derive(Clone, Copy, PartialEq, Eq, Debug)]
pub struct ForkSyncRequest {
    pub tip: HeaderHash,
    pub fork_tip: Option<HeaderHash>,
}

} // verus!
