//! Tip sampling and consensus selection: which reported tip the engine
//! chases, and which peers corroborate it.

use vstd::prelude::*;

use crate::header::{hash_of, Header, HeaderHash};
use crate::proto::TipResponse;

verus! {

/// A pinned `(height, hash)` the local chain must pass through before
/// normal sync; immutable for the whole run.
#[derive(Clone, Copy, PartialEq, Eq, Debug)]
pub struct Checkpoint {
    pub height: u32,
    pub hash: HeaderHash,
}

/// One candidate tip with the peers that reported it.  Peers are named
/// by the caller's own indices into its connection set.
#[derive(Clone, PartialEq, Eq, Debug)]
pub struct TipEntry {
    pub height: u32,
    pub hash: HeaderHash,
    pub peers: Vec<usize>,
}

/// Whether a header-range response proves the peer follows the pinned
/// checkpoint sequence: it must be non-empty and its last header must
/// hash to the checkpoint hash.  Peers failing this are excluded from
/// tip sampling for the round.
pub fn checkpoint_follows(headers: &Vec<Header>, c: &Checkpoint) -> (r: bool)
    ensures
        r == (headers@.len() > 0 && hash_of(headers@.last()) == c.hash@),
{
    if headers.len() == 0 {
        return false;
    }
    let last = headers[headers.len() - 1];
    last.hash().same(&c.hash)
}

/// The candidate tip a peer's response contributes: present exactly
/// when the peer says it is synced and names both a height and a hash.
pub fn tip_report(r: &TipResponse) -> (t: Option<(u32, HeaderHash)>)
    ensures
        match t {
            Some(p) => r.synced && r.height == Some(p.0) && r.hash == Some(p.1),
            None => !(r.synced && r.height is Some && r.hash is Some),
        },
{
    if !r.synced {
        return None;
    }
    match (r.height, r.hash) {
        (Some(height), Some(hash)) => Some((height, hash)),
        _ => None,
    }
}

/// Index of the entry recording this `(height, hash)` tip, or the tally
/// length when no entry records it yet.
pub open spec fn tip_index(s: Seq<TipEntry>, height: u32, hash: Seq<u8>) -> int
    decreases s.len(),
{
    if s.len() == 0 {
        0
    } else if s[0].height == height && s[0].hash@ == hash {
        0
    } else {
        1 + tip_index(s.drop_first(), height, hash)
    }
}

proof fn lemma_tip_index_at(s: Seq<TipEntry>, height: u32, hash: Seq<u8>, i: int)
    requires
        0 <= i <= s.len(),
        forall|j: int| 0 <= j < i ==> !(#[trigger] s[j].height == height && s[j].hash@ == hash),
        i == s.len() || (s[i].height == height && s[i].hash@ == hash),
    ensures
        tip_index(s, height, hash) == i,
    decreases s.len(),
{
    if s.len() > 0 && !(s[0].height == height && s[0].hash@ == hash) {
        assert(i >= 1);
        lemma_tip_index_at(s.drop_first(), height, hash, i - 1);
    }
}

/// Counts one peer's tip report into the tally: the peer joins the
/// entry for its `(height, hash)`, or opens a new entry at the end.
pub fn record_tip(entries: &mut Vec<TipEntry>, height: u32, hash: &HeaderHash, peer: usize)
    ensures
        ({
            let s = old(entries)@;
            let t = final(entries)@;
            let i = tip_index(s, height, hash@);
            &&& (i < s.len() ==> {
                &&& t.len() == s.len()
                &&& forall|j: int|
                    0 <= j < s.len() && j != i ==> ((#[trigger] t[j]).height == s[j].height
                        && t[j].hash@ == s[j].hash@ && t[j].peers@ == s[j].peers@)
                &&& t[i].height == s[i].height
                &&& t[i].hash@ == s[i].hash@
                &&& t[i].peers@ == s[i].peers@.push(peer)
            })
            &&& (i == s.len() ==> {
                &&& t.len() == s.len() + 1
                &&& forall|j: int|
                    0 <= j < s.len() ==> ((#[trigger] t[j]).height == s[j].height && t[j].hash@
                        == s[j].hash@ && t[j].peers@ == s[j].peers@)
                &&& t[i].height == height
                &&& t[i].hash@ == hash@
                &&& t[i].peers@ == seq![peer]
            })
        }),
{
    let ghost s = entries@;
    let mut i: usize = 0;
    while i < entries.len() && !(entries[i].height == height && entries[i].hash.same(hash))
        invariant
            i <= s.len(),
            entries@ == s,
            forall|j: int| 0 <= j < i ==> !(#[trigger] s[j].height == height && s[j].hash@ == hash@),
        decreases entries.len() - i,
    {
        i += 1;
    }
    proof {
        lemma_tip_index_at(s, height, hash@, i as int);
    }
    if i < entries.len() {
        let mut e = entries.remove(i);
        e.peers.push(peer);
        entries.insert(i, e);
        assert(forall|j: int|
            0 <= j < s.len() && j != i ==> entries@[j].height == s[j].height && entries@[j].hash@
                == s[j].hash@ && entries@[j].peers@ == s[j].peers@);
    } else {
        let mut peers: Vec<usize> = Vec::new();
        peers.push(peer);
        assert(peers@ =~= seq![peer]);
        entries.push(TipEntry { height, hash: *hash, peers });
    }
}

/// The candidate replaces the running best only with strictly more
/// corroborating peers, or with as many peers and a strictly greater
/// height.
pub open spec fn better(cand_peers: int, cand_height: u32, best_peers: int, best_height: u32) -> bool {
    ||| cand_peers > best_peers
    ||| (cand_peers == best_peers && cand_height > best_height)
}

/// The tip selection fold: each entry in turn replaces the running best
/// exactly when it is `better`; ties keep the earlier entry.
pub open spec fn select_from(best_height: u32, best_peers: Seq<usize>, s: Seq<TipEntry>) -> (
    u32,
    Seq<usize>,
)
    decreases s.len(),
{
    if s.len() == 0 {
        (best_height, best_peers)
    } else if better(s[0].peers@.len() as int, s[0].height, best_peers.len() as int, best_height) {
        select_from(s[0].height, s[0].peers@, s.drop_first())
    } else {
        select_from(best_height, best_peers, s.drop_first())
    }
}

/// The tip the tally selects, starting from the empty default.
pub open spec fn selected_tip(s: Seq<TipEntry>) -> (u32, Seq<usize>) {
    select_from(0, Seq::<usize>::empty(), s)
}

/// Reduces the tally to the single target tip and its corroborating
/// peers: the deterministic maximum by peer count, then height, ties
/// keeping the first-recorded entry.
pub fn most_common_tip(entries: &Vec<TipEntry>) -> (r: (u32, Vec<usize>))
    ensures
        r.0 == selected_tip(entries@).0,
        r.1@ == selected_tip(entries@).1,
{
    let ghost s = entries@;
    let mut best_height: u32 = 0;
    let mut best_peers: Vec<usize> = Vec::new();
    proof {
        assert(s.skip(0) =~= s);
        assert(best_peers@ =~= Seq::<usize>::empty());
    }
    let mut k: usize = 0;
    while k < entries.len()
        invariant
            k <= s.len(),
            entries@ == s,
            selected_tip(s) == select_from(best_height, best_peers@, s.skip(k as int)),
        decreases entries.len() - k,
    {
        let ghost rest = s.skip(k as int);
        proof {
            assert(rest[0] == s[k as int]);
            assert(rest.drop_first() =~= s.skip(k as int + 1));
        }
        let e = &entries[k];
        if e.peers.len() > best_peers.len() || (e.peers.len() == best_peers.len() && e.height
            > best_height) {
            best_height = e.height;
            best_peers = e.peers.clone();
            assert(best_peers@ =~= s[k as int].peers@);
        }
        k += 1;
    }
    proof {
        assert(s.skip(s.len() as int) =~= Seq::<TipEntry>::empty());
    }
    (best_height, best_peers)
}

proof fn lemma_select_from_max(best_height: u32, best_peers: Seq<usize>, s: Seq<TipEntry>)
    ensures
        ({
            let r = select_from(best_height, best_peers, s);
            &&& !better(best_peers.len() as int, best_height, r.1.len() as int, r.0)
            &&& forall|i: int|
                0 <= i < s.len() ==> !better(
                    (#[trigger] s[i]).peers@.len() as int,
                    s[i].height,
                    r.1.len() as int,
                    r.0,
                )
        }),
    decreases s.len(),
{
    if s.len() > 0 {
        if better(s[0].peers@.len() as int, s[0].height, best_peers.len() as int, best_height) {
            lemma_select_from_max(s[0].height, s[0].peers@, s.drop_first());
        } else {
            lemma_select_from_max(best_height, best_peers, s.drop_first());
        }
        assert forall|i: int| 0 <= i < s.len() implies !better(
            (#[trigger] s[i]).peers@.len() as int,
            s[i].height,
            select_from(best_height, best_peers, s).1.len() as int,
            select_from(best_height, best_peers, s).0,
        ) by {
            if i > 0 {
                assert(s.drop_first()[i - 1] == s[i]);
            }
        }
    }
}

/// Tip selection is a deterministic maximum: no recorded candidate
/// beats the selected tip by peer count, nor by height at equal peer
/// count.
pub proof fn lemma_selected_tip_is_max(s: Seq<TipEntry>)
    ensures
        forall|i: int|
            0 <= i < s.len() ==> !better(
                (#[trigger] s[i]).peers@.len() as int,
                s[i].height,
                selected_tip(s).1.len() as int,
                selected_tip(s).0,
            ),
{
    lemma_select_from_max(0, Seq::<usize>::empty(), s);
}

} // verus!
