use qcheat::scan::{
    candidate_offsets, dedup_overlapping, AlignedScan, Hit, WindowUnreadable, CHUNK_SIZE,
};

fn run_scan(memory: &[u8], base: usize, window: usize, target: u32) -> Vec<Hit<u32>> {
    let mut scan: AlignedScan<u32> = AlignedScan::new(base, base + memory.len(), 4, window);
    let offs = scan.offsets();
    while let Some(addr) = scan.next_read() {
        let off0 = addr - base;
        let len = scan.read_len();
        if off0 + len > memory.len() {
            scan.skip();
            continue;
        }
        let buf = &memory[off0..off0 + len];
        let found: Vec<Option<u32>> = offs
            .iter()
            .map(|&o| {
                let v = u32::from_le_bytes([buf[o], buf[o + 1], buf[o + 2], buf[o + 3]]);
                if v == target { Some(v) } else { None }
            })
            .collect();
        scan.record(found);
    }
    scan.hits
}

#[test]
fn scan_offsets_cover_chunk() {
    let offs = candidate_offsets(4);
    assert_eq!(offs.len(), CHUNK_SIZE / 4);
    assert_eq!(offs[0], 0);
    assert_eq!(*offs.last().unwrap(), CHUNK_SIZE - 4);
    let offs = candidate_offsets(3000);
    assert_eq!(offs, vec![0, 3000]);
    let offs = candidate_offsets(5000);
    assert_eq!(offs, vec![0]);
}

#[test]
fn scan_finds_matches_in_order() {
    let base = 0x4000_0000;
    let mut memory = vec![0u8; 4096 * 6];
    for at in [16usize, 4096 * 3 + 400, 8] {
        memory[at..at + 4].copy_from_slice(&0xDEAD_BEEFu32.to_le_bytes());
    }
    let hits = run_scan(&memory, base, 4, 0xDEAD_BEEF);
    let addrs: Vec<usize> = hits.iter().map(|h| h.address).collect();
    assert_eq!(addrs, vec![base + 8, base + 16, base + 4096 * 3 + 400]);
    assert!(hits.iter().all(|h| h.value == 0xDEAD_BEEF));
}

#[test]
fn scan_boundary_match_reported_once() {
    let base = 0x1000;
    let mut memory = vec![0u8; 4096 * 4];
    memory[4096..4100].copy_from_slice(&7u32.to_le_bytes());
    let hits = run_scan(&memory, base, 4, 7);
    let addrs: Vec<usize> = hits.iter().map(|h| h.address).collect();
    assert_eq!(addrs, vec![base + 4096]);
}

#[test]
fn scan_hits_stay_inside_the_window() {
    // Window [0, 1) with one candidate per chunk: only address 0.
    let mut scan: AlignedScan<u8> = AlignedScan::new(0, 1, 4096, 4);
    let offs = scan.offsets();
    assert_eq!(offs, vec![0]);
    scan.record(vec![Some(1)]);
    assert_eq!(scan.next_read(), None);
    let hits = scan.finish().unwrap();
    let addrs: Vec<usize> = hits.iter().map(|h| h.address).collect();
    assert_eq!(addrs, vec![0]);
    // Window [0, 10) at alignment 4: offsets 0, 4 and 8 only.
    let mut scan: AlignedScan<u8> = AlignedScan::new(0, 10, 4, 4);
    let found: Vec<Option<u8>> = scan.offsets().iter().map(|_| Some(1)).collect();
    scan.record(found);
    let addrs: Vec<usize> = scan.hits.iter().map(|h| h.address).collect();
    assert_eq!(addrs, vec![0, 4, 8]);
}

#[test]
fn scan_of_an_unreadable_window_fails() {
    let mut scan: AlignedScan<u32> = AlignedScan::new(0, 8192, 4, 4);
    scan.skip();
    scan.skip();
    assert_eq!(scan.next_read(), None);
    assert_eq!(scan.finish().unwrap_err(), WindowUnreadable { start: 0, end: 8192 });
    // An empty window reads nothing and fails nothing.
    let scan: AlignedScan<u32> = AlignedScan::new(16, 16, 4, 4);
    assert_eq!(scan.next_read(), None);
    assert!(scan.finish().unwrap().is_empty());
    // One readable chunk is enough.
    let mut scan: AlignedScan<u32> = AlignedScan::new(0, 8192, 4, 4);
    scan.skip();
    let found: Vec<Option<u32>> = scan.offsets().iter().map(|_| None).collect();
    scan.record(found);
    assert!(scan.finish().unwrap().is_empty());
}

#[test]
fn scan_skips_unreadable_chunks() {
    let mut scan: AlignedScan<u32> = AlignedScan::new(0, 10_000, 4, 4);
    assert_eq!(scan.next_read(), Some(0));
    scan.skip();
    assert_eq!(scan.next_read(), Some(4096));
    scan.skip();
    scan.skip();
    assert_eq!(scan.next_read(), None);
    assert!(scan.hits.is_empty());
}

#[test]
fn scan_dedup_keeps_first_of_cluster() {
    let hits: Vec<Hit<u8>> = [0x100usize, 0x104, 0x1CF, 0x1D0, 0x1D4, 0x2A0]
        .iter()
        .map(|&a| Hit { address: a, value: 0 })
        .collect();
    let kept = dedup_overlapping(&hits, 208);
    let addrs: Vec<usize> = kept.iter().map(|h| h.address).collect();
    assert_eq!(addrs, vec![0x100, 0x1D0, 0x2A0]);
    assert!(dedup_overlapping::<u8>(&Vec::new(), 208).is_empty());
}
