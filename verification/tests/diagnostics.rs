use qcheat::diag::{
    module_offset, outside_window, ring_addresses, ring_exclusion, scan_window, tally, verdict,
    StatusKind, Verdict,
};

#[test]
fn diag_scan_window_saturates() {
    assert_eq!(scan_window(0x0700_0000, 0x0200_0000), (0x0500_0000, 0x0900_0000));
    assert_eq!(scan_window(10, 100), (0, 110));
    assert_eq!(scan_window(usize::MAX - 1, 10), (usize::MAX - 11, usize::MAX));
}

#[test]
fn diag_tally_and_verdict() {
    let kinds = [StatusKind::Pass, StatusKind::Warn, StatusKind::Fail, StatusKind::Warn];
    assert_eq!(tally(&kinds), (1, 2));
    assert_eq!(verdict(1, 2), Verdict::Failed);
    assert_eq!(verdict(0, 2), Verdict::Warned);
    assert_eq!(verdict(0, 0), Verdict::AllPassed);
    assert_eq!(tally(&[]), (0, 0));
}

#[test]
fn diag_ring_exclusion_and_filter() {
    let (s, e) = ring_exclusion(0x0800_0000);
    assert_eq!(s, 0x0800_0000 - 0x1000);
    assert_eq!(e, 0x0800_0000 + 32 * 0x21C + 0x1000);
    assert_eq!(ring_exclusion(0x10).0, 0);
    let kept = outside_window(&[1, s - 1, s, s + 4, e - 1, e, e + 8], s, e);
    assert_eq!(kept, vec![1, s - 1, e, e + 8]);
    assert_eq!(module_offset(0x1400, 0x1000), Some(0x400));
    assert_eq!(module_offset(0x0F00, 0x1000), None);
}

#[test]
fn diag_ring_addresses() {
    let yaw = ring_addresses(0x1_4000_0000, 0x7B4098);
    assert_eq!(yaw.len(), 32);
    assert_eq!(yaw[0], 0x1_4000_0000 + 0x7B4098);
    assert_eq!(yaw[31], 0x1_4000_0000 + 0x7B4098 + 31 * 0x21C);
}
