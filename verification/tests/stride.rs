use qcheat::stride::{detect_repeating_stride, report_strides, StrideMatch, StrideReport};

#[test]
fn finds_constant_stride_run() {
    let addrs = [0x100, 0x200, 0x208, 0x210, 0x218, 0x220, 0x500];
    let got = detect_repeating_stride(&addrs, 3, 8192).unwrap();
    assert_eq!(got.stride, 8);
    assert_eq!(got.run_length, 5);
    assert_eq!(got.first_address, 0x200);
    assert_eq!(got.last_address, 0x220);
}

#[test]
fn rejects_runs_below_threshold() {
    let addrs = [0x100, 0x108, 0x110, 0x500];
    assert!(detect_repeating_stride(&addrs, 5, 8192).is_none());
}

#[test]
fn rejects_stride_above_max() {
    let addrs = [0x0, 0x10_000, 0x20_000, 0x30_000];
    assert!(detect_repeating_stride(&addrs, 3, 8192).is_none());
}

#[test]
fn returns_none_on_empty() {
    assert!(detect_repeating_stride(&[], 2, 8192).is_none());
    assert!(detect_repeating_stride(&[0x100], 2, 8192).is_none());
}

#[test]
fn stride_tie_keeps_first_run() {
    // Two runs of four hits each: the earlier one wins.
    let addrs = [0x10, 0x20, 0x30, 0x40, 0x1000, 0x1004, 0x1008, 0x100C];
    let got = detect_repeating_stride(&addrs, 3, 8192).unwrap();
    assert_eq!(got.stride, 0x10);
    assert_eq!(got.start_index, 0);
    assert_eq!(got.run_length, 4);
}

#[test]
fn stride_longer_later_run_wins() {
    let addrs = [0x10, 0x20, 0x30, 0x1000, 0x1004, 0x1008, 0x100C];
    let got = detect_repeating_stride(&addrs, 3, 8192).unwrap();
    assert_eq!(got.stride, 4);
    assert_eq!(got.start_index, 3);
    assert_eq!(got.run_length, 4);
    assert_eq!(got.first_address, 0x1000);
    assert_eq!(got.last_address, 0x100C);
}

#[test]
fn stride_unsorted_input_gives_none() {
    // A good run exists, but a later address is smaller than its predecessor.
    let addrs = [0x200, 0x208, 0x210, 0x218, 0x100];
    assert!(detect_repeating_stride(&addrs, 3, 8192).is_none());
}

#[test]
fn stride_equal_addresses_are_skipped() {
    let addrs = [0x100, 0x100, 0x100, 0x108, 0x110];
    let got = detect_repeating_stride(&addrs, 3, 8192).unwrap();
    assert_eq!(got.stride, 8);
    assert_eq!(got.start_index, 2);
    assert_eq!(got.run_length, 3);
}

#[test]
fn stride_runs_share_their_boundary_hit() {
    // The run of stride 4 starts at the last hit of the run of stride 16.
    let addrs = [0x0, 0x10, 0x20, 0x24, 0x28, 0x2C, 0x30];
    let got = detect_repeating_stride(&addrs, 3, 8192).unwrap();
    assert_eq!(got.stride, 4);
    assert_eq!(got.start_index, 2);
    assert_eq!(got.run_length, 5);
}

#[test]
fn stride_min_run_below_two_still_needs_a_pair() {
    assert!(detect_repeating_stride(&[0x10], 0, 8192).is_none());
    let got = detect_repeating_stride(&[0x10, 0x20], 0, 8192).unwrap();
    assert_eq!(got.run_length, 2);
    assert_eq!(got.stride, 0x10);
}

#[test]
fn report_needs_three_hits() {
    assert_eq!(report_strides(&[]), StrideReport::TooFewHits);
    assert_eq!(report_strides(&[0x100, 0x108]), StrideReport::TooFewHits);
}

#[test]
fn report_finds_longest_run() {
    let addrs = [0x100, 0x200, 0x208, 0x210, 0x218, 0x220, 0x500];
    assert_eq!(
        report_strides(&addrs),
        StrideReport::Detected(StrideMatch {
            stride: 8,
            run_length: 5,
            start_index: 1,
            first_address: 0x200,
            last_address: 0x220,
        })
    );
}

#[test]
fn report_prefers_first_of_equal_runs() {
    let addrs = [0x0, 0x10, 0x20, 0x1000, 0x1004, 0x1008];
    match report_strides(&addrs) {
        StrideReport::Detected(m) => {
            assert_eq!(m.start_index, 0);
            assert_eq!(m.stride, 0x10);
            assert_eq!(m.run_length, 3);
        }
        other => panic!("unexpected report {:?}", other),
    }
}

#[test]
fn report_scattered_when_runs_are_short_or_wide() {
    assert_eq!(report_strides(&[0x100, 0x108, 0x200, 0x300]), StrideReport::Scattered);
    assert_eq!(report_strides(&[0x0, 0x10_000, 0x20_000, 0x30_000]), StrideReport::Scattered);
    assert_eq!(report_strides(&[0x40, 0x40, 0x40, 0x40]), StrideReport::Scattered);
}

#[test]
fn report_agrees_with_detector() {
    let cases: Vec<Vec<usize>> = vec![
        vec![0x100, 0x200, 0x208, 0x210, 0x218, 0x220, 0x500],
        vec![0x0, 0x10, 0x20, 0x1000, 0x1004, 0x1008],
        vec![0x100, 0x108, 0x200, 0x300],
        vec![0x0, 0x8, 0x10, 0x18, 0x20, 0x24, 0x28, 0x2c, 0x30, 0x34],
        vec![0x10, 0x20],
    ];
    for a in &cases {
        match (report_strides(a), detect_repeating_stride(a, 3, 8192)) {
            (StrideReport::Detected(x), Some(y)) => assert_eq!(x, y),
            (StrideReport::Detected(_), None) | (_, Some(_)) => panic!("disagree on {:?}", a),
            _ => {}
        }
    }
}
