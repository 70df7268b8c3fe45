//! Helpers shared by the command-line front end.

use vstd::prelude::*;
use vstd::string::StringSliceAdditionalSpecFns;
use crate::numparse::{
    format_error, parse_unsigned, parse_unsigned_from, radix_prefix_len, strip_radix_prefix,
    error_message,
};

verus! {

/// Outcome of reading `s` as a hexadecimal address.
pub open spec fn hex_value(s: &str) -> Result<usize, crate::numparse::IntErrorKind> {
    parse_unsigned(strip_radix_prefix(s.spec_bytes()), 16)
}

/// Parse a hex literal with optional `0x` / `0X` prefix into a `usize`.
/// On failure the message is ``invalid hex `<s>`: <reason>``.
pub fn parse_hex(s: &str) -> (r: Result<usize, String>)
    ensures
        match r {
            Ok(v) => hex_value(s) == Ok::<usize, crate::numparse::IntErrorKind>(v),
            Err(msg) => hex_value(s) matches Err(k) && msg@ == error_message(
                "invalid hex `"@,
                s@,
                k,
            ),
        },
{
    let b = s.as_bytes();
    let start = radix_prefix_len(b);
    match parse_unsigned_from(b, start, 16) {
        Ok(v) => Ok(v),
        Err(k) => Err(format_error("invalid hex `", s, k)),
    }
}

} // verus!
