use qcheat::config::parse_vkey;
use qcheat::util::parse_hex;

fn std_hex(s: &str) -> Result<usize, String> {
    let stripped = s
        .strip_prefix("0x")
        .or_else(|| s.strip_prefix("0X"))
        .unwrap_or(s);
    usize::from_str_radix(stripped, 16).map_err(|e| format!("invalid hex `{s}`: {e}"))
}

fn std_vkey(s: &str) -> Result<usize, String> {
    let stripped = s
        .strip_prefix("0x")
        .or_else(|| s.strip_prefix("0X"))
        .unwrap_or(s);
    let radix = if stripped.len() != s.len() { 16 } else { 10 };
    usize::from_str_radix(stripped, radix).map_err(|e| format!("invalid vkey `{s}`: {e}"))
}

const SAMPLES: &[&str] = &[
    "", "0", "0x", "0X", "0x0", "0X1f", "1F", "ff", "FF", "+5", "+", "-", "-5", "0x+5", "0x-5",
    "12", "112", "0x70", "nope", "g", "0xg", "123abc", "ffffffffffffffff", "10000000000000000",
    "18446744073709551615", "18446744073709551616", "99999999999999999999z", "fffffffffffffffffz",
    "0x0x1", " 1", "1 ", "é", "0xé", "00000000000000000000001", "+0", "0x00",
];

#[test]
fn parse_vkey_accepts_hex_and_decimal() {
    assert_eq!(parse_vkey("0x70").unwrap(), 0x70);
    assert_eq!(parse_vkey("112").unwrap(), 112);
    assert!(parse_vkey("nope").is_err());
}

#[test]
fn parse_hex_matches_from_str_radix() {
    for s in SAMPLES {
        assert_eq!(parse_hex(s), std_hex(s), "input {s:?}");
    }
}

#[test]
fn parse_vkey_matches_from_str_radix() {
    for s in SAMPLES {
        assert_eq!(parse_vkey(s), std_vkey(s), "input {s:?}");
    }
}

#[test]
fn parse_hex_examples() {
    assert_eq!(parse_hex("0x0613F728"), Ok(0x0613F728));
    assert_eq!(parse_hex("80000"), Ok(0x80000));
    assert_eq!(parse_hex("0X7f"), Ok(0x7f));
    assert_eq!(
        parse_hex("zz"),
        Err("invalid hex `zz`: invalid digit found in string".to_string())
    );
    assert_eq!(
        parse_hex(""),
        Err("invalid hex ``: cannot parse integer from empty string".to_string())
    );
    assert_eq!(
        parse_hex("0x1ffffffffffffffff"),
        Err("invalid hex `0x1ffffffffffffffff`: number too large to fit in target type".to_string())
    );
}

#[test]
fn parse_vkey_prefixed_agrees_with_hex() {
    for s in ["0x70", "0X2D", "0xff", "0x", "0xz"] {
        assert_eq!(parse_vkey(s).ok(), parse_hex(s).ok());
    }
    // Without a prefix they differ: decimal for a key, hex for an address.
    assert_eq!(parse_vkey("112"), Ok(112));
    assert_eq!(parse_hex("112"), Ok(0x112));
}

#[test]
fn printed_numbers_read_back() {
    for v in [0usize, 7, 0x10, 0xDEAD_BEEF, 112, usize::MAX] {
        assert_eq!(parse_hex(&format!("{:x}", v)), Ok(v));
        assert_eq!(parse_hex(&format!("{:X}", v)), Ok(v));
        assert_eq!(parse_hex(&format!("0x{:x}", v)), Ok(v));
        assert_eq!(parse_hex(&format!("0X{:X}", v)), Ok(v));
        assert_eq!(parse_vkey(&v.to_string()), Ok(v));
        assert_eq!(parse_vkey(&format!("0x{:X}", v)), Ok(v));
        assert_eq!(parse_vkey(&format!("0X{:x}", v)), Ok(v));
    }
}
