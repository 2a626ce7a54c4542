use chainsync::header::{Header, HeaderHash};
use chainsync::staging::HeaderStaging;

fn header_at(height: u32, tag: u8) -> Header {
    Header {
        height,
        previous: HeaderHash { bytes: [tag; 32] },
        timestamp: height as u64,
        merkle_root: [tag; 32],
    }
}

#[test]
fn insert_keeps_height_order() {
    let mut s = HeaderStaging::new();
    assert!(s.is_empty());
    s.insert(&header_at(5, 1));
    s.insert(&header_at(2, 2));
    s.insert(&header_at(9, 3));
    s.insert(&header_at(4, 4));
    assert_eq!(s.len(), 4);
    let all = s.get_after(0, 10);
    let heights: Vec<u32> = all.iter().map(|h| h.height).collect();
    assert_eq!(heights, vec![2, 4, 5, 9]);
    assert_eq!(s.get_first().unwrap().height, 2);
    assert_eq!(s.get_last().unwrap().height, 9);
}

#[test]
fn insert_overwrites_same_height() {
    let mut s = HeaderStaging::new();
    s.insert(&header_at(3, 1));
    s.insert(&header_at(3, 2));
    assert_eq!(s.len(), 1);
    assert_eq!(s.get_first().unwrap(), header_at(3, 2));
}

#[test]
fn get_after_respects_height_and_limit() {
    let mut s = HeaderStaging::new();
    for h in 1..=8u32 {
        s.insert(&header_at(h, h as u8));
    }
    let r = s.get_after(3, 2);
    let heights: Vec<u32> = r.iter().map(|h| h.height).collect();
    assert_eq!(heights, vec![4, 5]);
    let rest = s.get_after(6, 10);
    let heights: Vec<u32> = rest.iter().map(|h| h.height).collect();
    assert_eq!(heights, vec![7, 8]);
    assert!(s.get_after(8, 10).is_empty());
}

#[test]
fn prefix_reads_from_the_start() {
    let mut s = HeaderStaging::new();
    for h in 1..=5u32 {
        s.insert(&header_at(h, h as u8));
    }
    let p = s.prefix(3);
    let heights: Vec<u32> = p.iter().map(|h| h.height).collect();
    assert_eq!(heights, vec![1, 2, 3]);
    assert_eq!(s.prefix(10).len(), 5);
}

#[test]
fn remove_takes_out_listed_heights() {
    let mut s = HeaderStaging::new();
    for h in 1..=6u32 {
        s.insert(&header_at(h, h as u8));
    }
    s.remove(&vec![2, 4, 40]);
    let heights: Vec<u32> = s.get_after(0, 10).iter().map(|h| h.height).collect();
    assert_eq!(heights, vec![1, 3, 5, 6]);
}

#[test]
fn remove_all_purges() {
    let mut s = HeaderStaging::new();
    for h in 1..=6u32 {
        s.insert(&header_at(h, h as u8));
    }
    s.remove_all();
    assert!(s.is_empty());
    assert_eq!(s.get_first(), None);
    assert_eq!(s.get_last(), None);
}

#[test]
fn insert_batch_merges_and_overwrites() {
    let mut s = HeaderStaging::new();
    s.insert(&header_at(2, 1));
    s.insert(&header_at(6, 1));
    s.insert_batch(&vec![header_at(4, 2), header_at(6, 2), header_at(1, 2)]);
    let all = s.get_after(0, 10);
    let heights: Vec<u32> = all.iter().map(|h| h.height).collect();
    assert_eq!(heights, vec![1, 2, 4, 6]);
    assert_eq!(s.get_last().unwrap(), header_at(6, 2));
}
