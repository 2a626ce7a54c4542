//! The sync orchestrator's decision core.  One `SyncEngine` value holds
//! the state of a single synchronization run: the staging area, the
//! last-known frontier, the optional checkpoint and the synced flag.
//! The caller performs the peer requests and collaborator calls the
//! engine asks for and hands every response back as plain values; every
//! decision over those values is made, and verified, here.

use vstd::prelude::*;

use crate::header::{chain_linked, follows, hash_of, Header, HeaderHash};
use crate::proto::{ForkSyncRequest, HeaderSyncRequest, HeaderSyncResponse, SyncRequest, TipRequest, BATCH};
use crate::staging::{insert_all, HeaderStaging};
use crate::tip::Checkpoint;

verus! {

/// Chain-integrity failure: the staged sequence broke at the header
/// with this hash.  The staging area has been purged; no part of the
/// unverified sequence survives.
#[derive(Clone, Copy, PartialEq, Eq, Debug)]
pub enum SyncError {
    BlockIsInvalid(HeaderHash),
}

/// What one header-fetch round decided: keep walking backward from a
/// new frontier, or stop because the response brought nothing new.
#[derive(Clone, Copy, PartialEq, Eq, Debug)]
pub enum FetchOutcome {
    More { frontier: u32 },
    Done,
}

/// A configured checkpoint that the local chain has not reached yet.
pub open spec fn checkpoint_pending(checkpoint: Option<Checkpoint>, last_height: u32) -> bool {
    match checkpoint {
        Some(c) => c.height > last_height,
        None => false,
    }
}

/// What the start phase leaves behind, as `(staging, height, hash)`:
/// an unreached checkpoint discards all staged headers; a staged run
/// contiguous with the frontier is resumed, moving the frontier to its
/// last header; any other staged leftover is discarded as stale.
pub open spec fn start_state(
    last_height: u32,
    last_hash: Seq<u8>,
    checkpoint: Option<Checkpoint>,
    staged: Seq<Header>,
) -> (Seq<Header>, u32, Seq<u8>) {
    if checkpoint_pending(checkpoint, last_height) {
        (Seq::<Header>::empty(), last_height, last_hash)
    } else if staged.len() > 0 && staged[0].height == last_height + 1 {
        (staged, staged.last().height, hash_of(staged.last()))
    } else if staged.len() > 0 {
        (Seq::<Header>::empty(), last_height, last_hash)
    } else {
        (staged, last_height, last_hash)
    }
}

/// The headers of a response that are new to us: those strictly above
/// the last known height, in response order.
pub open spec fn retained(s: Seq<Header>, last_known: u32) -> Seq<Header>
    decreases s.len(),
{
    if s.len() == 0 {
        s
    } else if s[0].height > last_known {
        seq![s[0]] + retained(s.drop_first(), last_known)
    } else {
        retained(s.drop_first(), last_known)
    }
}

/// The least height among a non-empty run of headers: the next fetch
/// frontier after the run is staged.
pub open spec fn min_height_of(s: Seq<Header>) -> u32
    recommends
        s.len() > 0,
    decreases s.len(),
{
    if s.len() <= 1 {
        s[0].height
    } else {
        let m = min_height_of(s.drop_last());
        if s.last().height < m {
            s.last().height
        } else {
            m
        }
    }
}

/// Index of the first header that breaks the chain anchored at the
/// root, or the length when none does.
pub open spec fn first_break(root_height: u32, root_hash: Seq<u8>, s: Seq<Header>) -> int
    decreases s.len(),
{
    if s.len() == 0 {
        0
    } else if !follows(root_height, root_hash, s[0]) {
        0
    } else {
        1 + first_break(s[0].height, hash_of(s[0]), s.drop_first())
    }
}

/// A response with nothing above the frontier retains nothing.
proof fn lemma_retained_empty(s: Seq<Header>, last_known: u32)
    requires
        forall|i: int| 0 <= i < s.len() ==> #[trigger] s[i].height <= last_known,
    ensures
        retained(s, last_known) == Seq::<Header>::empty(),
    decreases s.len(),
{
    if s.len() > 0 {
        assert(s[0].height <= last_known);
        lemma_retained_empty(s.drop_first(), last_known);
    }
}

/// Two linked runs whose frontier matches glue into one linked run.
proof fn lemma_chain_append(root_height: u32, root_hash: Seq<u8>, a: Seq<Header>, b: Seq<Header>)
    requires
        chain_linked(root_height, root_hash, a),
        chain_linked(
            if a.len() == 0 {
                root_height
            } else {
                a.last().height
            },
            if a.len() == 0 {
                root_hash
            } else {
                hash_of(a.last())
            },
            b,
        ),
    ensures
        chain_linked(root_height, root_hash, a + b),
{
    let t = a + b;
    assert(t.len() == a.len() + b.len());
    if t.len() > 0 {
        if a.len() == 0 {
            assert(t[0] == b[0]);
        } else {
            assert(t[0] == a[0]);
        }
    }
    assert forall|i: int| 1 <= i < t.len() implies follows(
        (#[trigger] t[i - 1]).height,
        hash_of(t[i - 1]),
        t[i],
    ) by {
        if i < a.len() {
            assert(t[i] == a[i]);
            assert(t[i - 1] == a[i - 1]);
        } else if i == a.len() {
            assert(t[i] == b[0]);
            assert(t[i - 1] == a[i - 1]);
            assert(a[i - 1] == a.last());
        } else {
            assert(t[i] == b[i - a.len()]);
            assert(t[i - 1] == b[i - a.len() - 1]);
        }
    }
}

/// Pins `first_break` to the index where a left-to-right walk of a
/// linked prefix first sees the linkage fail.
proof fn lemma_first_break_at(root_height: u32, root_hash: Seq<u8>, s: Seq<Header>, i: int)
    requires
        0 <= i < s.len(),
        chain_linked(root_height, root_hash, s.take(i)),
        !follows(
            if i == 0 {
                root_height
            } else {
                s[i - 1].height
            },
            if i == 0 {
                root_hash
            } else {
                hash_of(s[i - 1])
            },
            s[i],
        ),
    ensures
        first_break(root_height, root_hash, s) == i,
    decreases s.len(),
{
    if i == 0 {
    } else {
        assert(s.take(i)[0] == s[0]);
        assert(follows(root_height, root_hash, s[0]));
        let d = s.drop_first();
        assert(d.take(i - 1) =~= s.take(i).drop_first());
        assert(chain_linked(s[0].height, hash_of(s[0]), d.take(i - 1))) by {
            let u = d.take(i - 1);
            if u.len() > 0 {
                assert(u[0] == s.take(i)[1]);
                assert(s.take(i)[0] == s[0]);
                assert(follows(s[0].height, hash_of(s[0]), s.take(i)[1]));
            }
            assert forall|j: int| 1 <= j < u.len() implies follows(
                (#[trigger] u[j - 1]).height,
                hash_of(u[j - 1]),
                u[j],
            ) by {
                assert(u[j] == s.take(i)[j + 1]);
                assert(u[j - 1] == s.take(i)[j]);
            }
        }
        assert(d[i - 1] == s[i]);
        if i - 1 == 0 {
            lemma_first_break_at(s[0].height, hash_of(s[0]), d, 0);
        } else {
            assert(d[i - 2] == s[i - 1]);
            lemma_first_break_at(s[0].height, hash_of(s[0]), d, i - 1);
        }
    }
}

/// One verified batch extends the verified prefix of the staged run.
proof fn lemma_verified_advance(
    root_height: u32,
    root_hash: Seq<u8>,
    s: Seq<Header>,
    verified: int,
    b: Seq<Header>,
    prev_height: u32,
    prev_hash: Seq<u8>,
)
    requires
        0 <= verified,
        verified + b.len() <= s.len(),
        chain_linked(root_height, root_hash, s.take(verified)),
        verified == 0 ==> prev_height == root_height && prev_hash == root_hash,
        verified > 0 ==> prev_height == s[verified - 1].height && prev_hash == hash_of(
            s[verified - 1],
        ),
        chain_linked(prev_height, prev_hash, b),
        b == s.subrange(verified, verified + b.len()),
    ensures
        chain_linked(root_height, root_hash, s.take(verified + b.len())),
{
    if verified > 0 {
        assert(s.take(verified).last() == s[verified - 1]);
    }
    lemma_chain_append(root_height, root_hash, s.take(verified), b);
    assert(s.take(verified) + b =~= s.take(verified + b.len()));
}

/// A linkage failure inside a batch names the first break of the whole
/// staged run and refutes its chain linkage.
proof fn lemma_verified_break(
    root_height: u32,
    root_hash: Seq<u8>,
    s: Seq<Header>,
    verified: int,
    b: Seq<Header>,
    prev_height: u32,
    prev_hash: Seq<u8>,
    m: int,
)
    requires
        0 <= verified,
        0 <= m < b.len(),
        verified + b.len() <= s.len(),
        chain_linked(root_height, root_hash, s.take(verified)),
        verified == 0 ==> prev_height == root_height && prev_hash == root_hash,
        verified > 0 ==> prev_height == s[verified - 1].height && prev_hash == hash_of(
            s[verified - 1],
        ),
        chain_linked(prev_height, prev_hash, b.take(m)),
        !follows(
            if m == 0 {
                prev_height
            } else {
                b[m - 1].height
            },
            if m == 0 {
                prev_hash
            } else {
                hash_of(b[m - 1])
            },
            b[m],
        ),
        b == s.subrange(verified, verified + b.len()),
    ensures
        first_break(root_height, root_hash, s) == verified + m,
        !chain_linked(root_height, root_hash, s),
        s[verified + m] == b[m],
{
    let gi = verified + m;
    assert(b.take(m) =~= s.subrange(verified, gi));
    if verified > 0 {
        assert(s.take(verified).last() == s[verified - 1]);
    }
    lemma_chain_append(root_height, root_hash, s.take(verified), b.take(m));
    assert(s.take(verified) + b.take(m) =~= s.take(gi));
    assert(chain_linked(root_height, root_hash, s.take(gi)));
    assert(s[gi] == b[m]);
    assert(!follows(
        if gi == 0 {
            root_height
        } else {
            s[gi - 1].height
        },
        if gi == 0 {
            root_hash
        } else {
            hash_of(s[gi - 1])
        },
        s[gi],
    )) by {
        if m > 0 {
            assert(s[gi - 1] == b[m - 1]);
        }
    }
    lemma_first_break_at(root_height, root_hash, s, gi);
    if chain_linked(root_height, root_hash, s) {
        assert(follows(
            if gi == 0 {
                root_height
            } else {
                s[gi - 1].height
            },
            if gi == 0 {
                root_hash
            } else {
                hash_of(s[gi - 1])
            },
            s[gi],
        ));
        assert(false);
    }
}

/// Checks that a batch of headers links onto the frontier, returning
/// the index of the first offender if it does not.
fn verify_batch(batch: &Vec<Header>, prev_height: u32, prev_hash: &HeaderHash) -> (r: Option<usize>)
    ensures
        match r {
            None => chain_linked(prev_height, prev_hash@, batch@),
            Some(m) => {
                &&& m < batch@.len()
                &&& chain_linked(prev_height, prev_hash@, batch@.take(m as int))
                &&& !follows(
                    if m == 0 {
                        prev_height
                    } else {
                        batch@[m - 1].height
                    },
                    if m == 0 {
                        prev_hash@
                    } else {
                        hash_of(batch@[m - 1])
                    },
                    batch@[m as int],
                )
            },
        },
{
    let mut cur_height = prev_height;
    let mut cur_hash = *prev_hash;
    let mut m: usize = 0;
    while m < batch.len()
        invariant
            m <= batch@.len(),
            chain_linked(prev_height, prev_hash@, batch@.take(m as int)),
            m == 0 ==> cur_height == prev_height && cur_hash@ == prev_hash@,
            m > 0 ==> cur_height == batch@[m - 1].height && cur_hash@ == hash_of(batch@[m - 1]),
        decreases batch.len() - m,
    {
        let h = batch[m];
        if !crate::header::check_follows(cur_height, &cur_hash, &h) {
            return Some(m);
        }
        proof {
            let t = batch@.take(m as int + 1);
            let t0 = batch@.take(m as int);
            assert(t[m as int] == batch@[m as int]);
            if m == 0 {
                assert(follows(prev_height, prev_hash@, t[0]));
            } else {
                assert(t[0] == t0[0]);
            }
            assert forall|i: int| 1 <= i < t.len() implies follows(
                (#[trigger] t[i - 1]).height,
                hash_of(t[i - 1]),
                t[i],
            ) by {
                if i < m {
                    assert(t[i] == t0[i]);
                    assert(t[i - 1] == t0[i - 1]);
                } else {
                    assert(t[i] == batch@[m as int]);
                    assert(t[i - 1] == batch@[m as int - 1]);
                }
            }
        }
        cur_height = h.height;
        cur_hash = h.hash();
        m += 1;
    }
    assert(batch@.take(batch@.len() as int) =~= batch@);
    None
}

/// The state of one synchronization run.
pub struct SyncEngine {
    /// The staging area this run owns exclusively.
    pub staging: HeaderStaging,
    /// Height of the last locally applied block.
    pub last_height: u32,
    /// Hash of the last locally applied block.
    pub last_hash: HeaderHash,
    /// The pinned checkpoint, if one was configured for this run.
    pub checkpoint: Option<Checkpoint>,
    /// Set once, when the run completes.
    pub synced: bool,
}

impl SyncEngine {
    /// The engine's invariant: the staging area is well-formed.
    pub open spec fn wf(&self) -> bool {
        self.staging.wf()
    }

    /// Begins a run from the durable frontier, reconciling whatever a
    /// previous attempt left staged: an unreached checkpoint or a
    /// non-contiguous leftover discards the staged headers; a staged
    /// run starting right after the frontier is resumed.
    pub fn start(
        last_height: u32,
        last_hash: HeaderHash,
        checkpoint: Option<Checkpoint>,
        staged: HeaderStaging,
    ) -> (r: SyncEngine)
        requires
            staged.wf(),
        ensures
            r.wf(),
            r.checkpoint == checkpoint,
            !r.synced,
            r.staging@ == start_state(last_height, last_hash@, checkpoint, staged@).0,
            r.last_height == start_state(last_height, last_hash@, checkpoint, staged@).1,
            r.last_hash@ == start_state(last_height, last_hash@, checkpoint, staged@).2,
    {
        let mut staging = staged;
        let mut height = last_height;
        let mut hash = last_hash;
        let pending = match checkpoint {
            Some(c) => c.height > last_height,
            None => false,
        };
        if pending {
            staging.remove_all();
        } else {
            match staging.get_first() {
                Some(first) => {
                    if last_height < u32::MAX && first.height == last_height + 1 {
                        match staging.get_last() {
                            Some(last) => {
                                height = last.height;
                                hash = last.hash();
                            },
                            None => {
                                proof {
                                    assert(false);
                                }
                            },
                        }
                    } else {
                        staging.remove_all();
                    }
                },
                None => {},
            }
        }
        SyncEngine { staging, last_height: height, last_hash: hash, checkpoint, synced: false }
    }

    /// The current `(height, hash)` frontier.
    pub fn last(&self) -> (r: (u32, HeaderHash))
        ensures
            r.0 == self.last_height,
            r.1 == self.last_hash,
    {
        (self.last_height, self.last_hash)
    }

    /// Whether a configured checkpoint still lies above the frontier,
    /// so the checkpoint catch-up phase must run before normal tip
    /// convergence.
    pub fn needs_checkpoint_catchup(&self) -> (r: bool)
        ensures
            r == checkpoint_pending(self.checkpoint, self.last_height),
    {
        match &self.checkpoint {
            Some(c) => c.height > self.last_height,
            None => false,
        }
    }

    /// The tip request sent to every sampled peer, carrying the local
    /// frontier hash.
    pub fn tip_request(&self) -> (r: TipRequest)
        ensures
            r.tip == self.last_hash,
    {
        TipRequest { tip: self.last_hash }
    }

    /// The header-range probe that checks a peer against the pinned
    /// checkpoint: one past the checkpoint height, so the response
    /// includes the checkpoint header itself.
    pub fn checkpoint_probe(c: &Checkpoint) -> (r: HeaderSyncRequest)
        requires
            c.height < u32::MAX,
        ensures
            r.height == c.height + 1,
    {
        HeaderSyncRequest { height: c.height + 1 }
    }

    /// The first fetch frontier for a target tip: one past it, so the
    /// backward walk also retrieves the tip header itself.
    pub fn begin_header_fetch(&self, target_height: u32) -> (r: u32)
        requires
            target_height < u32::MAX,
        ensures
            r == target_height + 1,
    {
        target_height + 1
    }

    /// Counts one header-fetch round into the staging area.  A missing
    /// response (the peer timed out) changes nothing and keeps the
    /// frontier, so the rotation simply moves on; a response with no
    /// header above the last known height ends the backward walk with
    /// the staging area as accumulated so far; anything else is staged
    /// and the frontier drops to the lowest height just received.
    pub fn header_fetch_step(&mut self, frontier: u32, response: Option<&HeaderSyncResponse>) -> (r:
        FetchOutcome)
        requires
            old(self).wf(),
        ensures
            final(self).wf(),
            final(self).last_height == old(self).last_height,
            final(self).last_hash == old(self).last_hash,
            final(self).checkpoint == old(self).checkpoint,
            final(self).synced == old(self).synced,
            match response {
                None => final(self).staging@ == old(self).staging@ && r == (FetchOutcome::More {
                    frontier,
                }),
                Some(resp) => {
                    let kept = retained(resp.headers@, old(self).last_height);
                    &&& (kept.len() == 0 ==> final(self).staging@ == old(self).staging@ && r
                        == FetchOutcome::Done)
                    &&& (kept.len() > 0 ==> final(self).staging@ == insert_all(
                        old(self).staging@,
                        kept,
                    ) && r == (FetchOutcome::More { frontier: min_height_of(kept) }))
                },
            },
    {
        let resp = match response {
            None => {
                return FetchOutcome::More { frontier };
            },
            Some(resp) => resp,
        };
        let ghost full = resp.headers@;
        let mut kept: Vec<Header> = Vec::new();
        let mut k: usize = 0;
        proof {
            assert(full.skip(0) =~= full);
        }
        while k < resp.headers.len()
            invariant
                k <= full.len(),
                resp.headers@ == full,
                retained(full, self.last_height) == kept@ + retained(
                    full.skip(k as int),
                    self.last_height,
                ),
                self.staging@ == old(self).staging@,
                self.wf(),
                self.last_height == old(self).last_height,
                self.last_hash == old(self).last_hash,
                self.checkpoint == old(self).checkpoint,
                self.synced == old(self).synced,
            decreases resp.headers.len() - k,
        {
            let ghost before = kept@;
            let h = resp.headers[k];
            if h.height > self.last_height {
                kept.push(h);
            }
            k += 1;
            proof {
                let rest = full.skip(k as int - 1);
                assert(rest[0] == full[k as int - 1]);
                assert(rest.drop_first() =~= full.skip(k as int));
                if h.height > self.last_height {
                    assert(kept@ =~= before + seq![h]);
                    assert(before + (seq![h] + retained(full.skip(k as int), self.last_height))
                        =~= kept@ + retained(full.skip(k as int), self.last_height));
                }
            }
        }
        proof {
            assert(full.skip(full.len() as int) =~= Seq::<Header>::empty());
            assert(kept@ + Seq::<Header>::empty() =~= kept@);
        }
        if kept.len() == 0 {
            return FetchOutcome::Done;
        }
        let mut lowest = kept[0].height;
        let mut j: usize = 1;
        proof {
            assert(kept@.take(1).drop_last() =~= Seq::<Header>::empty());
            assert(kept@.take(1)[0] == kept@[0]);
        }
        while j < kept.len()
            invariant
                1 <= j <= kept@.len(),
                lowest == min_height_of(kept@.take(j as int)),
            decreases kept.len() - j,
        {
            let ghost t = kept@.take(j as int + 1);
            proof {
                assert(t.drop_last() =~= kept@.take(j as int));
                assert(t.last() == kept@[j as int]);
            }
            if kept[j].height < lowest {
                lowest = kept[j].height;
            }
            j += 1;
        }
        proof {
            assert(kept@.take(kept@.len() as int) =~= kept@);
        }
        self.staging.insert_batch(&kept);
        FetchOutcome::More { frontier: lowest }
    }

    /// Walks the staged sequence in `BATCH`-sized reads and confirms it
    /// is one unbroken, height-ascending, hash-linked chain anchored at
    /// the given root.  On any break the whole staging area is purged
    /// (no partial trust) and the offending header's hash is returned;
    /// an empty staging area verifies trivially.
    #[verifier::rlimit(60)]
    pub fn verify_headers(&mut self, root_height: u32, root_hash: &HeaderHash) -> (r: Result<
        (),
        SyncError,
    >)
        requires
            old(self).wf(),
        ensures
            final(self).wf(),
            final(self).last_height == old(self).last_height,
            final(self).last_hash == old(self).last_hash,
            final(self).checkpoint == old(self).checkpoint,
            final(self).synced == old(self).synced,
            match r {
                Ok(_) => final(self).staging@ == old(self).staging@ && chain_linked(
                    root_height,
                    root_hash@,
                    old(self).staging@,
                ),
                Err(e) => {
                    &&& final(self).staging@.len() == 0
                    &&& !chain_linked(root_height, root_hash@, old(self).staging@)
                    &&& match e {
                        SyncError::BlockIsInvalid(h) => h@ == hash_of(
                            old(self).staging@[first_break(
                                root_height,
                                root_hash@,
                                old(self).staging@,
                            )],
                        ),
                    }
                },
            },
    {
        let ghost s = self.staging@;
        if self.staging.is_empty() {
            return Ok(());
        }
        let total = self.staging.len();
        assert(s.len() == total);
        let mut batch = self.staging.prefix(BATCH);
        let mut verified: usize = 0;
        let mut prev_height = root_height;
        let mut prev_hash = *root_hash;
        proof {
            assert(batch@ =~= s.subrange(0, batch@.len() as int));
            assert(chain_linked(root_height, root_hash@, s.take(0)));
        }
        while batch.len() > 0
            invariant
                self.wf(),
                self.staging@ == s,
                old(self).staging@ == s,
                self.last_height == old(self).last_height,
                self.last_hash == old(self).last_hash,
                self.checkpoint == old(self).checkpoint,
                self.synced == old(self).synced,
                verified <= s.len(),
                s.len() == total,
                chain_linked(root_height, root_hash@, s.take(verified as int)),
                verified == 0 ==> prev_height == root_height && prev_hash@ == root_hash@,
                verified > 0 ==> prev_height == s[verified - 1].height && prev_hash@ == hash_of(
                    s[verified - 1],
                ),
                batch@ == s.subrange(verified as int, verified + batch@.len()),
                batch@.len() == if BATCH <= s.len() - verified {
                    BATCH as int
                } else {
                    s.len() - verified
                },
            decreases s.len() - verified,
        {
            match verify_batch(&batch, prev_height, &prev_hash) {
                None => {
                    proof {
                        lemma_verified_advance(
                            root_height,
                            root_hash@,
                            s,
                            verified as int,
                            batch@,
                            prev_height,
                            prev_hash@,
                        );
                    }
                    let blen = batch.len();
                    let last = batch[blen - 1];
                    prev_height = last.height;
                    prev_hash = last.hash();
                    verified = verified + blen;
                    proof {
                        assert(s[verified - 1] == last);
                        assert(forall|j: int|
                            0 <= j < verified ==> #[trigger] s[j].height <= prev_height);
                        crate::staging::lemma_cut_at(s, prev_height, verified as int);
                    }
                    batch = self.staging.get_after(prev_height, BATCH);
                },
                Some(m) => {
                    let offender = batch[m];
                    proof {
                        lemma_verified_break(
                            root_height,
                            root_hash@,
                            s,
                            verified as int,
                            batch@,
                            prev_height,
                            prev_hash@,
                            m as int,
                        );
                    }
                    self.staging.remove_all();
                    return Err(SyncError::BlockIsInvalid(offender.hash()));
                },
            }
        }
        proof {
            assert(verified == s.len());
            assert(s.take(s.len() as int) =~= s);
        }
        Ok(())
    }

    /// The next batch of staged headers whose blocks are owed: the
    /// first `BATCH` of them.  An empty result means the staging area
    /// is exhausted and the block phase is over.
    pub fn next_block_batch(&self) -> (r: Vec<Header>)
        ensures
            r@ == self.staging@.take(r@.len() as int),
            r@.len() == if BATCH <= self.staging@.len() {
                BATCH as int
            } else {
                self.staging@.len() as int
            },
    {
        self.staging.prefix(BATCH)
    }

    /// The block request for a batch of staged headers: their hashes,
    /// in height order.
    pub fn sync_request(batch: &Vec<Header>) -> (r: SyncRequest)
        ensures
            r.headers@.len() == batch@.len(),
            forall|i: int| 0 <= i < batch@.len() ==> #[trigger] r.headers@[i]@ == hash_of(batch@[i]),
    {
        let mut hashes: Vec<HeaderHash> = Vec::new();
        let mut i: usize = 0;
        while i < batch.len()
            invariant
                i <= batch@.len(),
                hashes@.len() == i,
                forall|j: int| 0 <= j < i ==> #[trigger] hashes@[j]@ == hash_of(batch@[j]),
            decreases batch.len() - i,
        {
            hashes.push(batch[i].hash());
            i += 1;
        }
        SyncRequest { headers: hashes }
    }

    /// Consumes the first batch after its blocks were applied: the
    /// batch's headers leave the staging area and the frontier advances
    /// to the batch's last entry.
    pub fn apply_block_batch(&mut self)
        requires
            old(self).wf(),
            old(self).staging@.len() > 0,
        ensures
            final(self).wf(),
            final(self).checkpoint == old(self).checkpoint,
            final(self).synced == old(self).synced,
            ({
                let n = if BATCH <= old(self).staging@.len() {
                    BATCH as int
                } else {
                    old(self).staging@.len() as int
                };
                &&& final(self).staging@ == old(self).staging@.skip(n)
                &&& final(self).last_height == old(self).staging@[n - 1].height
                &&& final(self).last_hash@ == hash_of(old(self).staging@[n - 1])
            }),
    {
        let batch = self.staging.prefix(BATCH);
        let last = batch[batch.len() - 1];
        self.staging.remove_prefix(batch.len());
        self.last_height = last.height;
        self.last_hash = last.hash();
    }

    /// Whether an iteration made no forward progress: the frontier
    /// still equals the one recorded before it.  The convergence loop
    /// stops here.
    pub fn caught_up(&self, prev_height: u32, prev_hash: &HeaderHash) -> (r: bool)
        ensures
            r == (prev_height == self.last_height && prev_hash@ == self.last_hash@),
    {
        prev_height == self.last_height && prev_hash.same(&self.last_hash)
    }

    /// The best-fork request sent to one corroborating peer: seeded
    /// from the frontier hash, with no fork tip pinned.
    pub fn fork_sync_request(&self) -> (r: ForkSyncRequest)
        ensures
            r.tip == self.last_hash,
            r.fork_tip is None,
    {
        ForkSyncRequest { tip: self.last_hash, fork_tip: None }
    }

    /// Ends a completed run: the node is synced.
    pub fn mark_synced(&mut self)
        ensures
            final(self).synced,
            final(self).staging@ == old(self).staging@,
            final(self).last_height == old(self).last_height,
            final(self).last_hash == old(self).last_hash,
            final(self).checkpoint == old(self).checkpoint,
            final(self).wf() == old(self).wf(),
    {
        self.synced = true;
    }

    /// Whether a run has completed.
    pub fn is_synced(&self) -> (r: bool)
        ensures
            r == self.synced,
    {
        self.synced
    }
}

/// Chain integrity: in a verified staged sequence every consecutive
/// pair `(A, B)` satisfies `B.previous == hash(A)` and
/// `B.height == A.height + 1`.
pub proof fn lemma_chain_integrity(root_height: u32, root_hash: Seq<u8>, s: Seq<Header>, i: int)
    requires
        chain_linked(root_height, root_hash, s),
        1 <= i < s.len(),
    ensures
        s[i].previous@ == hash_of(s[i - 1]),
        s[i].height == s[i - 1].height + 1,
{
}

/// Checkpoint gating: a pinned checkpoint above the local frontier is
/// still pending at start, and the start phase then discards every
/// previously staged header while leaving the frontier untouched — the
/// checkpoint catch-up phase is owed before normal tip convergence.
pub proof fn lemma_checkpoint_gates_start(
    last_height: u32,
    last_hash: Seq<u8>,
    c: Checkpoint,
    staged: Seq<Header>,
)
    requires
        c.height > last_height,
    ensures
        checkpoint_pending(Some(c), last_height),
        start_state(last_height, last_hash, Some(c), staged).0 == Seq::<Header>::empty(),
        start_state(last_height, last_hash, Some(c), staged).1 == last_height,
        start_state(last_height, last_hash, Some(c), staged).2 == last_hash,
{
}

/// Idempotent re-run: starting the orchestrator again when nothing was
/// left staged and any checkpoint is already reached keeps the frontier
/// exactly; and when peers then report no header above it, the first
/// fetch round retains nothing, so the fetch loop terminates at once
/// with the staging area still empty and the convergence test succeeds
/// on the unchanged frontier.
pub proof fn lemma_rerun_is_stable(
    last_height: u32,
    last_hash: Seq<u8>,
    checkpoint: Option<Checkpoint>,
    response: Seq<Header>,
)
    requires
        !checkpoint_pending(checkpoint, last_height),
        forall|i: int| 0 <= i < response.len() ==> #[trigger] response[i].height <= last_height,
    ensures
        start_state(last_height, last_hash, checkpoint, Seq::<Header>::empty()) == (
            Seq::<Header>::empty(),
            last_height,
            last_hash,
        ),
        retained(response, last_height) == Seq::<Header>::empty(),
{
    lemma_retained_empty(response, last_height);
}

} // verus!
