use chainsync::header::{Header, HeaderHash};
use chainsync::proto::{HeaderSyncResponse, TipResponse, BATCH};
use chainsync::staging::HeaderStaging;
use chainsync::sync::{FetchOutcome, SyncEngine, SyncError};
use chainsync::tip::{checkpoint_follows, most_common_tip, record_tip, tip_report, Checkpoint, TipEntry};

fn hh(b: u8) -> HeaderHash {
    HeaderHash { bytes: [b; 32] }
}

/// A hash-linked chain of `n` headers starting one above the root.
fn chain(root_height: u32, root_hash: HeaderHash, n: usize) -> Vec<Header> {
    let mut prev = root_hash;
    let mut v = Vec::new();
    for i in 0..n {
        let h = Header {
            height: root_height + 1 + i as u32,
            previous: prev,
            timestamp: 1_000 + i as u64,
            merkle_root: [i as u8; 32],
        };
        prev = h.hash();
        v.push(h);
    }
    v
}

/// One simulated peer: it owns a full chain and answers a header
/// request with the window of its headers just below the asked height.
fn peer_headers(full: &[Header], below: u32, window: usize) -> HeaderSyncResponse {
    let mut headers: Vec<Header> = full.iter().filter(|h| h.height < below).cloned().collect();
    if headers.len() > window {
        headers = headers.split_off(headers.len() - window);
    }
    HeaderSyncResponse { headers }
}

/// Drives one full sync run against a single simulated peer.
fn run_sync(
    last: (u32, HeaderHash),
    checkpoint: Option<Checkpoint>,
    staged: HeaderStaging,
    full: &[Header],
    tip_height: u32,
) -> SyncEngine {
    let mut engine = SyncEngine::start(last.0, last.1, checkpoint, staged);
    let root = engine.last();
    let mut frontier = engine.begin_header_fetch(tip_height);
    loop {
        let resp = peer_headers(full, frontier, 5);
        match engine.header_fetch_step(frontier, Some(&resp)) {
            FetchOutcome::More { frontier: f } => frontier = f,
            FetchOutcome::Done => break,
        }
    }
    engine.verify_headers(root.0, &root.1).expect("staged sequence must verify");
    loop {
        let batch = engine.next_block_batch();
        if batch.is_empty() {
            break;
        }
        // The simulated ledger accepts every block; consume the batch.
        engine.apply_block_batch();
    }
    engine.mark_synced();
    engine
}

#[test]
fn chain_integrity_accepts_linked_chain() {
    let root = hh(9);
    let full = chain(0, root, 30);
    let mut staging = HeaderStaging::new();
    staging.insert_batch(&full);
    let mut engine = SyncEngine::start(0, root, None, staging);
    assert!(engine.verify_headers(0, &root).is_ok());
    assert_eq!(engine.staging.len(), 30);
}

#[test]
fn chain_integrity_rejects_and_purges() {
    let root = hh(9);
    let mut full = chain(0, root, 30);
    // Break the hash linkage in the second batch.
    full[25].previous = hh(0xEE);
    let offender = full[25].hash();
    let mut staging = HeaderStaging::new();
    staging.insert_batch(&full);
    let mut engine = SyncEngine::start(0, root, None, staging);
    let err = engine.verify_headers(0, &root).unwrap_err();
    assert_eq!(err, SyncError::BlockIsInvalid(offender));
    // No partial trust: everything staged is gone.
    assert_eq!(engine.staging.len(), 0);
}

#[test]
fn chain_integrity_rejects_wrong_height_step() {
    let root = hh(9);
    let mut full = chain(0, root, 3);
    full[2].height = 9; // skips height 3
    let offender = full[2].hash();
    let mut staging = HeaderStaging::new();
    staging.insert_batch(&full);
    let mut engine = SyncEngine::start(0, root, None, staging);
    let err = engine.verify_headers(0, &root).unwrap_err();
    assert_eq!(err, SyncError::BlockIsInvalid(offender));
    assert_eq!(engine.staging.len(), 0);
}

#[test]
fn tip_selection_determinism() {
    // Tips: (10, [p0]), (12, [p0, p1]), (12, [p2]) — the winner is the
    // maximum by (peer count, height): height 12 with peers {p0, p1}.
    let mut entries: Vec<TipEntry> = Vec::new();
    record_tip(&mut entries, 10, &hh(1), 0);
    record_tip(&mut entries, 12, &hh(2), 0);
    record_tip(&mut entries, 12, &hh(2), 1);
    record_tip(&mut entries, 12, &hh(3), 2);
    let (height, peers) = most_common_tip(&entries);
    assert_eq!(height, 12);
    assert_eq!(peers, vec![0, 1]);
}

#[test]
fn tip_selection_tie_keeps_first_recorded() {
    let mut entries: Vec<TipEntry> = Vec::new();
    record_tip(&mut entries, 12, &hh(2), 0);
    record_tip(&mut entries, 12, &hh(3), 1);
    let (height, peers) = most_common_tip(&entries);
    assert_eq!(height, 12);
    assert_eq!(peers, vec![0]);
}

#[test]
fn tip_report_gates_unsynced_peers() {
    let full = TipResponse { synced: true, height: Some(12), hash: Some(hh(2)) };
    assert_eq!(tip_report(&full), Some((12, hh(2))));
    let unsynced = TipResponse { synced: false, height: Some(12), hash: Some(hh(2)) };
    assert_eq!(tip_report(&unsynced), None);
    let no_hash = TipResponse { synced: true, height: Some(12), hash: None };
    assert_eq!(tip_report(&no_hash), None);
}

#[test]
fn checkpoint_probe_gates_peers() {
    let root = hh(9);
    let full = chain(0, root, 8);
    let good = Checkpoint { height: 8, hash: full[7].hash() };
    assert!(checkpoint_follows(&full, &good));
    let wrong = Checkpoint { height: 8, hash: hh(0xAB) };
    assert!(!checkpoint_follows(&full, &wrong));
    assert!(!checkpoint_follows(&Vec::new(), &good));
}

#[test]
fn idempotent_rerun() {
    let root = hh(9);
    let full = chain(0, root, 7);
    let tip = full.last().unwrap();

    // First run, from genesis: reaches the tip and consumes everything.
    let engine = run_sync((0, root), None, HeaderStaging::new(), &full, tip.height);
    assert!(engine.is_synced());
    assert_eq!(engine.staging.len(), 0);
    let after_first = engine.last();
    assert_eq!(after_first.0, tip.height);
    assert_eq!(after_first.1, tip.hash());

    // Second run with no new peer data: the start phase keeps the
    // frontier, the first fetch round ends at once, nothing is staged,
    // and the convergence test succeeds immediately.
    let mut second = SyncEngine::start(after_first.0, after_first.1, None, HeaderStaging::new());
    let prev = second.last();
    let frontier = second.begin_header_fetch(after_first.0);
    let resp = peer_headers(&full, frontier, 5);
    assert_eq!(second.header_fetch_step(frontier, Some(&resp)), FetchOutcome::Done);
    assert_eq!(second.staging.len(), 0);
    assert!(second.verify_headers(prev.0, &prev.1).is_ok());
    assert!(second.next_block_batch().is_empty());
    assert!(second.caught_up(prev.0, &prev.1));
    assert_eq!(second.last(), after_first);
}

#[test]
fn checkpoint_gating() {
    let root = hh(9);
    // Local height 5, checkpoint at (20, H): stale staged headers must
    // be discarded at start and the checkpoint phase is owed first.
    let full = chain(0, root, 25);
    let local = &full[4]; // height 5
    let checkpoint = Checkpoint { height: 20, hash: full[19].hash() };

    let mut stale = HeaderStaging::new();
    stale.insert(&full[9]);
    stale.insert(&full[10]);

    let engine = SyncEngine::start(local.height, local.hash(), Some(checkpoint), stale);
    assert_eq!(engine.staging.len(), 0, "stale staged headers predate the checkpoint");
    assert!(engine.needs_checkpoint_catchup());

    // After catching up through the checkpoint the phase is over.
    let caught_up = run_sync(
        (local.height, local.hash()),
        Some(checkpoint),
        HeaderStaging::new(),
        &full[..20],
        checkpoint.height,
    );
    assert_eq!(caught_up.last().0, 20);
    assert_eq!(caught_up.last().1, full[19].hash());
    assert!(!caught_up.needs_checkpoint_catchup());
}

#[test]
fn partial_failure_isolation() {
    let root = hh(9);
    let full = chain(0, root, 6);
    let tip = full.last().unwrap();
    let mut engine = SyncEngine::start(0, root, None, HeaderStaging::new());
    let mut frontier = engine.begin_header_fetch(tip.height);

    // Peer 0 times out on every turn: its rounds change nothing and
    // keep the frontier, so peer 1 can supply the same data.
    loop {
        let before = engine.staging.len();
        match engine.header_fetch_step(frontier, None) {
            FetchOutcome::More { frontier: f } => {
                assert_eq!(f, frontier, "a timeout keeps the frontier");
                assert_eq!(engine.staging.len(), before, "a timeout stages nothing");
            }
            FetchOutcome::Done => panic!("a timeout must not end the walk"),
        }
        let resp = peer_headers(&full, frontier, 5);
        match engine.header_fetch_step(frontier, Some(&resp)) {
            FetchOutcome::More { frontier: f } => frontier = f,
            FetchOutcome::Done => break,
        }
    }
    assert_eq!(engine.staging.len(), 6);
    assert!(engine.verify_headers(0, &root).is_ok());
}

#[test]
fn empty_response_terminates_fetch() {
    let root = hh(9);
    let full = chain(0, root, 4);
    let mut engine = SyncEngine::start(2, full[1].hash(), None, HeaderStaging::new());

    // Stage one round first.
    let r1 = HeaderSyncResponse { headers: vec![full[2], full[3]] };
    let out = engine.header_fetch_step(5, Some(&r1));
    assert_eq!(out, FetchOutcome::More { frontier: 3 });
    assert_eq!(engine.staging.len(), 2);

    // A response filtered to zero new headers terminates the loop
    // without error, leaving staging as accumulated so far.
    let r2 = HeaderSyncResponse { headers: vec![full[0], full[1]] };
    assert_eq!(engine.header_fetch_step(3, Some(&r2)), FetchOutcome::Done);
    assert_eq!(engine.staging.len(), 2);

    // An entirely empty response terminates too.
    let r3 = HeaderSyncResponse { headers: Vec::new() };
    assert_eq!(engine.header_fetch_step(3, Some(&r3)), FetchOutcome::Done);
    assert_eq!(engine.staging.len(), 2);
}

#[test]
fn fetch_keeps_only_new_headers_and_lowest_frontier() {
    let root = hh(9);
    let full = chain(0, root, 10);
    let mut engine = SyncEngine::start(4, full[3].hash(), None, HeaderStaging::new());
    // Response mixes old and new headers, out of order.
    let resp = HeaderSyncResponse { headers: vec![full[7], full[2], full[5], full[6]] };
    let out = engine.header_fetch_step(9, Some(&resp));
    assert_eq!(out, FetchOutcome::More { frontier: 6 });
    assert_eq!(engine.staging.len(), 3);
    let staged = engine.next_block_batch();
    assert_eq!(staged[0], full[5]);
    assert_eq!(staged[1], full[6]);
    assert_eq!(staged[2], full[7]);
}

#[test]
fn block_batches_consume_staging_in_order() {
    let root = hh(9);
    let n = BATCH * 2 + 3;
    let full = chain(0, root, n);
    let mut staging = HeaderStaging::new();
    staging.insert_batch(&full);
    let mut engine = SyncEngine::start(0, root, None, staging);
    assert!(engine.verify_headers(0, &root).is_ok());

    let batch = engine.next_block_batch();
    assert_eq!(batch.len(), BATCH);
    let req = SyncEngine::sync_request(&batch);
    assert_eq!(req.headers.len(), BATCH);
    assert_eq!(req.headers[0], full[0].hash());

    engine.apply_block_batch();
    assert_eq!(engine.last().0, BATCH as u32);
    assert_eq!(engine.staging.len(), n - BATCH);

    engine.apply_block_batch();
    engine.apply_block_batch();
    assert_eq!(engine.staging.len(), 0);
    assert_eq!(engine.last().0, n as u32);
    assert_eq!(engine.last().1, full[n - 1].hash());
}

#[test]
fn start_resumes_contiguous_staged_run() {
    let root = hh(9);
    let full = chain(10, root, 5); // heights 11..=15
    let mut staged = HeaderStaging::new();
    staged.insert_batch(&full);
    let engine = SyncEngine::start(10, root, None, staged);
    assert_eq!(engine.last().0, 15);
    assert_eq!(engine.last().1, full[4].hash());
    assert_eq!(engine.staging.len(), 5);
}

#[test]
fn start_discards_non_contiguous_staged_run() {
    let root = hh(9);
    let full = chain(10, root, 5);
    let mut staged = HeaderStaging::new();
    staged.insert(&full[2]); // height 13, but last known is 10
    let engine = SyncEngine::start(10, root, None, staged);
    assert_eq!(engine.staging.len(), 0);
    assert_eq!(engine.last().0, 10);
    assert_eq!(engine.last().1, root);
}

#[test]
fn fork_sync_request_is_seeded_from_frontier() {
    let engine = SyncEngine::start(3, hh(5), None, HeaderStaging::new());
    let req = engine.fork_sync_request();
    assert_eq!(req.tip, hh(5));
    assert_eq!(req.fork_tip, None);
    let tip_req = engine.tip_request();
    assert_eq!(tip_req.tip, hh(5));
}

#[test]
fn chooses_a_corroborating_peer() {
    for n in 1..=8usize {
        for _ in 0..32 {
            assert!(chainsync::rng::choose_index(n) < n);
        }
    }
}

#[test]
fn header_hash_is_the_digest_of_the_encoded_header() {
    let h = Header { height: 7, previous: hh(1), timestamp: 9, merkle_root: [2; 32] };
    let mut bytes = Vec::new();
    bytes.extend_from_slice(&7u32.to_le_bytes());
    bytes.extend_from_slice(&[1u8; 32]);
    bytes.extend_from_slice(&9u64.to_le_bytes());
    bytes.extend_from_slice(&[2u8; 32]);
    assert_eq!(h.hash().bytes, *blake3::hash(&bytes).as_bytes());
    // Different content, different hash.
    let h2 = Header { height: 8, ..h };
    assert_ne!(h2.hash(), h.hash());
}
