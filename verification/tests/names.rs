use qcheat::process::{first_match, module_matches_filter, names_match, nul_terminated_len, Process};
use qcheat::wide::w;

#[test]
fn names_compare_ignoring_ascii_case() {
    let pairs = [
        ("ioquake3.x86_64.exe", "IOQUAKE3.X86_64.EXE"),
        ("quake3e.x64.exe", "quake3e.x64.exe"),
        ("a", "b"),
        ("abc", "abcd"),
        ("É", "é"),
        ("", ""),
    ];
    for (a, b) in pairs {
        assert_eq!(names_match(a, b), a.eq_ignore_ascii_case(b), "{a} {b}");
        assert_eq!(names_match(b, a), names_match(a, b));
    }
}

#[test]
fn module_filter_matches_substring_ignoring_case() {
    let cases = [
        ("cgamex86_64.dll", "CGAME"),
        ("KERNEL32.DLL", ".dll"),
        ("ioquake3.x86_64.exe", "ioquake"),
        ("ntdll.dll", "cgame"),
        ("short", "longer filter"),
        ("anything", ""),
    ];
    for (name, filter) in cases {
        let expected = name.to_ascii_lowercase().contains(&filter.to_ascii_lowercase());
        assert_eq!(module_matches_filter(name, filter), expected, "{name} {filter}");
    }
}

#[test]
fn names_wide_length_stops_at_nul() {
    assert_eq!(nul_terminated_len(&[0x61, 0x62, 0, 0x63]), 2);
    assert_eq!(nul_terminated_len(&[0x61, 0x62]), 2);
    assert_eq!(nul_terminated_len(&[0]), 0);
    assert_eq!(nul_terminated_len(&[]), 0);
    let p = Process { pid: 4, name: "x.exe".to_string(), base_address: 0x40_0000, module_size: 0x1000 };
    assert_eq!(p.clone().pid, 4);
}

#[test]
fn wide_strings_end_with_nul() {
    assert_eq!(w(""), vec![0u16]);
    assert_eq!(w("qcheat"), "qcheat".encode_utf16().chain(std::iter::once(0)).collect::<Vec<u16>>());
    assert_eq!(w("é€"), vec![0x00E9, 0x20AC, 0]);
    assert_eq!(w("a\u{1F600}"), vec![0x61, 0xD83D, 0xDE00, 0]);
}

#[test]
fn first_matching_process_is_picked() {
    let names: Vec<String> =
        ["System", "ioquake3.x86_64.exe", "IOQUAKE3.X86_64.EXE"].iter().map(|s| s.to_string()).collect();
    assert_eq!(first_match(&names, "IoQuake3.x86_64.exe"), Some(1));
    assert_eq!(first_match(&names, "system"), Some(0));
    assert_eq!(first_match(&names, "quake3e.x64.exe"), None);
    assert_eq!(first_match(&Vec::new(), "system"), None);
}
