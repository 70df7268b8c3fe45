//! Settings-file values that the library reads itself.

use vstd::prelude::*;
use vstd::string::StringSliceAdditionalSpecFns;
use crate::numparse::{
    format_error, parse_unsigned, parse_unsigned_from, radix_prefix_len, strip_radix_prefix,
    has_radix_prefix, error_message, IntErrorKind,
};

verus! {

/// Outcome of reading `s` as a virtual-key code: hexadecimal after a
/// `0x` / `0X` prefix, decimal otherwise.
pub open spec fn vkey_value(s: &str) -> Result<usize, IntErrorKind> {
    let b = s.spec_bytes();
    if has_radix_prefix(b) {
        parse_unsigned(strip_radix_prefix(b), 16)
    } else {
        parse_unsigned(b, 10)
    }
}

/// Parse a virtual-key code field: `"0x70"`/`"0X70"` hex, or a plain
/// decimal string. On failure the message is ``invalid vkey `<s>`: <reason>``.
pub fn parse_vkey(s: &str) -> (r: Result<usize, String>)
    ensures
        match r {
            Ok(v) => vkey_value(s) == Ok::<usize, IntErrorKind>(v),
            Err(msg) => vkey_value(s) matches Err(k) && msg@ == error_message(
                "invalid vkey `"@,
                s@,
                k,
            ),
        },
{
    let b = s.as_bytes();
    let start = radix_prefix_len(b);
    let radix: usize = if start != 0 {
        16
    } else {
        10
    };
    match parse_unsigned_from(b, start, radix) {
        Ok(v) => Ok(v),
        Err(k) => Err(format_error("invalid vkey `", s, k)),
    }
}

} // verus!
