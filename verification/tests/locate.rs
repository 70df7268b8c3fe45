use qcheat::layout::{SnapshotHeader, SNAPSHOT_HEADER_SIZE, SNAPSHOT_SIZE};
use qcheat::locate::{
    find_snapshot_pair, locate_snapshot_addrs, looks_like_live_snapshot, looks_like_snapshot,
    after_rescan, needs_rescan, newest_address, pick_newer, scan_snapshot_chunk, CacheAction,
    SnapshotFilter, SnapshotScan, StallWatch, STALL_LIMIT_MS,
    SNAPSHOT_READ_LEN, SNAPSHOT_SCAN_CHUNK,
};

fn put_i32(b: &mut [u8], off: usize, v: i32) {
    b[off..off + 4].copy_from_slice(&v.to_le_bytes());
}

fn put_f32(b: &mut [u8], off: usize, v: f32) {
    b[off..off + 4].copy_from_slice(&v.to_le_bytes());
}

/// Writes a plausible in-game snapshot header at `b[at..]`.
fn write_header(b: &mut [u8], at: usize, server_time: i32) {
    put_i32(b, at + 4, 50); // ping
    put_i32(b, at + 8, server_time);
    put_i32(b, at + 44, server_time - 10); // command_time
    put_i32(b, at + 48, 0); // pm_type
    put_f32(b, at + 64, 100.0);
    put_f32(b, at + 68, -200.0);
    put_f32(b, at + 72, 30.0);
    put_i32(b, at + 184, 0); // client_num
    put_i32(b, at + 188, 5); // weapon
    put_i32(b, at + 228, 100); // hp
    put_i32(b, at + 512, 3); // num_entities
}

fn header(b: &[u8]) -> SnapshotHeader {
    SnapshotHeader::read_from(b, 0)
}

#[test]
fn snapshot_filters_accept_a_real_frame() {
    let mut b = vec![0u8; SNAPSHOT_HEADER_SIZE];
    write_header(&mut b, 0, 50_000);
    assert!(looks_like_snapshot(&header(&b)));
    assert!(looks_like_live_snapshot(&header(&b)));
}

#[test]
fn snapshot_filters_reject_zero_block() {
    let b = vec![0u8; SNAPSHOT_HEADER_SIZE];
    assert!(!looks_like_snapshot(&header(&b)));
    assert!(!looks_like_live_snapshot(&header(&b)));
}

#[test]
fn snapshot_filters_field_checks() {
    let mut b = vec![0u8; SNAPSHOT_HEADER_SIZE];
    write_header(&mut b, 0, 50_000);
    // Dead normal player: strict rejects, live accepts.
    put_i32(&mut b, 228, 0);
    assert!(!looks_like_snapshot(&header(&b)));
    assert!(looks_like_live_snapshot(&header(&b)));
    put_i32(&mut b, 228, 100);
    // No entities: strict accepts, live rejects.
    put_i32(&mut b, 512, 0);
    assert!(looks_like_snapshot(&header(&b)));
    assert!(!looks_like_live_snapshot(&header(&b)));
    put_i32(&mut b, 512, 3);
    // Out-of-map origin.
    put_f32(&mut b, 68, 40_000.0);
    assert!(!looks_like_snapshot(&header(&b)));
    put_f32(&mut b, 68, f32::NAN);
    assert!(!looks_like_live_snapshot(&header(&b)));
    put_f32(&mut b, 68, -200.0);
    // Stale server time.
    put_i32(&mut b, 8, 999);
    assert!(!looks_like_snapshot(&header(&b)));
    put_i32(&mut b, 8, 50_000);
    // Command time not positive.
    put_i32(&mut b, 44, 0);
    assert!(!looks_like_snapshot(&header(&b)));
    assert!(looks_like_live_snapshot(&header(&b)));
}

#[test]
fn snapshot_chunk_walk_skips_past_hits() {
    let mut b = vec![0u8; SNAPSHOT_READ_LEN];
    write_header(&mut b, 8, 50_000);
    let (hits, stop) = scan_snapshot_chunk(&b, 0, SNAPSHOT_SCAN_CHUNK, 0x1000, SnapshotFilter::Live);
    assert_eq!(hits, vec![0x1008]);
    assert_eq!(stop, 4096);
    let (hits, stop) = scan_snapshot_chunk(&b, 12, SNAPSHOT_SCAN_CHUNK, 0x1000, SnapshotFilter::Live);
    assert!(hits.is_empty());
    assert_eq!(stop, 4096);
    let (hits, stop) = scan_snapshot_chunk(&b, 0, 8, 0x1000, SnapshotFilter::Live);
    assert!(hits.is_empty());
    assert_eq!(stop, 8);
}

fn walk(memory: &[u8], base: usize, filter: SnapshotFilter) -> Vec<usize> {
    let mut scan = SnapshotScan::new(base, base + memory.len(), filter);
    while let Some(addr) = scan.next_read() {
        let off = addr - base;
        if off + SNAPSHOT_READ_LEN <= memory.len() {
            scan.feed(Some(&memory[off..off + SNAPSHOT_READ_LEN]));
        } else {
            scan.feed(None);
        }
    }
    scan.hits
}

#[test]
fn snapshot_scan_finds_active_pair() {
    let base = 0x0700_0000;
    let mut memory = vec![0u8; 4096 * 30];
    let a = 4096 * 2 + 64;
    write_header(&mut memory, a, 50_000);
    write_header(&mut memory, a + SNAPSHOT_SIZE, 50_050);
    let hits = walk(&memory, base, SnapshotFilter::Strict);
    assert!(hits.windows(2).all(|w| w[0] <= w[1]));
    assert!(hits.contains(&(base + a)));
    assert!(hits.contains(&(base + a + SNAPSHOT_SIZE)));
    let pair = find_snapshot_pair(&hits).unwrap();
    assert_eq!(pair, (base + a, base + a + SNAPSHOT_SIZE));
    let addrs = locate_snapshot_addrs(&hits);
    assert_eq!(addrs, vec![base + a, base + a + SNAPSHOT_SIZE]);
    let newer = pick_newer(addrs[0], Some(50_000), addrs[1], Some(50_050));
    assert_eq!(newer, base + a + SNAPSHOT_SIZE);
}

#[test]
fn snapshot_scan_reports_boundary_header_once() {
    // A header at the first byte of a chunk is reported by that chunk only.
    let base = 0x10_0000;
    let mut memory = vec![0u8; 4096 * 4];
    write_header(&mut memory, 4096, 60_000);
    let hits = walk(&memory, base, SnapshotFilter::Live);
    assert_eq!(hits, vec![base + 4096]);
    assert_eq!(SNAPSHOT_SCAN_CHUNK, 4096);
}

#[test]
fn snapshot_scan_resumes_past_a_header_across_chunks() {
    let base = 0x10_0000;
    // Adjacent headers: the second one starts where the first ends, in the next chunk.
    let mut memory = vec![0u8; 4096 * 4];
    write_header(&mut memory, 4092, 60_000);
    write_header(&mut memory, 4092 + SNAPSHOT_HEADER_SIZE, 60_050);
    let hits = walk(&memory, base, SnapshotFilter::Live);
    assert_eq!(hits, vec![base + 4092, base + 4092 + SNAPSHOT_HEADER_SIZE]);
    // A header overlapping one already found is not reported.
    let mut memory = vec![0u8; 4096 * 4];
    write_header(&mut memory, 3900, 60_000);
    write_header(&mut memory, 4200, 60_050);
    let hits = walk(&memory, base, SnapshotFilter::Live);
    assert_eq!(hits, vec![base + 3900]);
    assert!(hits.windows(2).all(|w| w[0] + SNAPSHOT_HEADER_SIZE <= w[1]));
}

#[test]
fn snapshot_scan_stays_inside_the_window() {
    let base = 0x10_0000;
    let mut memory = vec![0u8; 4096 * 4];
    write_header(&mut memory, 40, 60_000);
    let mut scan = SnapshotScan::new(base, base + 40, SnapshotFilter::Live);
    scan.feed(Some(&memory[0..SNAPSHOT_READ_LEN]));
    assert!(scan.hits.is_empty());
    assert_eq!(scan.next_read(), None);
    let mut scan = SnapshotScan::new(base, base + 44, SnapshotFilter::Live);
    scan.feed(Some(&memory[0..SNAPSHOT_READ_LEN]));
    assert_eq!(scan.hits, vec![base + 40]);
}

#[test]
fn snapshot_pair_fallbacks() {
    assert!(locate_snapshot_addrs(&[]).is_empty());
    assert_eq!(locate_snapshot_addrs(&[0x10, 0x20]), vec![0x10]);
    assert_eq!(find_snapshot_pair(&[0x10, 0x20]), None);
    let hits = [0x100, 0x100 + SNAPSHOT_SIZE, 0x100 + 2 * SNAPSHOT_SIZE];
    assert_eq!(find_snapshot_pair(&hits), Some((0x100, 0x100 + SNAPSHOT_SIZE)));
}

#[test]
fn snapshot_pick_newer_and_newest() {
    assert_eq!(pick_newer(1, Some(5), 2, Some(5)), 1);
    assert_eq!(pick_newer(1, None, 2, Some(i32::MIN)), 1);
    assert_eq!(pick_newer(1, None, 2, Some(0)), 2);
    assert_eq!(newest_address(&[], &[]), None);
    assert_eq!(newest_address(&[10, 20, 30], &[Some(7), Some(9), Some(9)]), Some(30));
    assert_eq!(newest_address(&[10, 20], &[Some(7), None]), Some(10));
    assert_eq!(newest_address(&[10, 20], &[None, None]), Some(20));
}

#[test]
fn snapshot_cache_policy() {
    assert!(needs_rescan(false, 0));
    assert!(!needs_rescan(true, 0));
    assert!(!needs_rescan(true, STALL_LIMIT_MS));
    assert!(needs_rescan(true, STALL_LIMIT_MS + 1));
    // An active match: server_time advances, the watch never reports a stall.
    let mut watch = StallWatch::new(0);
    for tick in 1..2000u64 {
        let stalled = watch.observe(1000 + (tick / 5) as i32, tick * 8);
        assert!(!needs_rescan(true, stalled));
    }
    // A frozen snapshot: more than 3 s without a new server_time.
    let mut watch = StallWatch::new(0);
    assert_eq!(watch.observe(5000, 100), 0);
    assert_eq!(watch.observe(5000, 3100), 3000);
    assert!(!needs_rescan(true, 3000));
    let stalled = watch.observe(5000, 3101);
    assert_eq!(stalled, 3001);
    assert!(needs_rescan(true, stalled));
    assert_eq!(watch.observe(5001, 3200), 0);
    assert_eq!(watch, StallWatch { last_server_time: 5001, last_change_ms: 3200 });
    assert_eq!(watch.observe(5001, 10), 0);
    assert_eq!(after_rescan(true, &[0x10], &[]), CacheAction::Keep);
    assert_eq!(after_rescan(false, &[0x10], &[]), CacheAction::Retry);
    assert_eq!(after_rescan(false, &[], &[]), CacheAction::Retry);
    assert_eq!(after_rescan(true, &[0x10, 0x20], &[0x10, 0x20]), CacheAction::Keep);
    assert_eq!(after_rescan(true, &[0x10, 0x20], &[0x10]), CacheAction::Replace);
    assert_eq!(after_rescan(false, &[0x10], &[0x30]), CacheAction::Replace);
}
