//! Unsigned integer parsing with the exact outcome of the standard
//! library's `usize::from_str_radix`: an optional leading `+`, then at
//! least one digit of the radix, with overflow reported rather than wrapped.

use vstd::prelude::*;

verus! {

/// Why a string is not an unsigned integer.
#[derive(Debug, Clone, Copy, PartialEq, Eq, Structural)]
pub enum IntErrorKind {
    /// The input is empty.
    Empty,
    /// A character is not a digit of the radix (a lone sign included).
    InvalidDigit,
    /// The value does not fit in a `usize`.
    PosOverflow,
}

impl IntErrorKind {
    /// Text that explains the error, as the standard library words it.
    pub open spec fn spec_description(self) -> Seq<char> {
        match self {
            IntErrorKind::Empty => "cannot parse integer from empty string"@,
            IntErrorKind::InvalidDigit => "invalid digit found in string"@,
            IntErrorKind::PosOverflow => "number too large to fit in target type"@,
        }
    }

    /// Text that explains the error.
    pub fn description(&self) -> (r: &'static str)
        ensures
            r@ == self.spec_description(),
    {
        match self {
            IntErrorKind::Empty => "cannot parse integer from empty string",
            IntErrorKind::InvalidDigit => "invalid digit found in string",
            IntErrorKind::PosOverflow => "number too large to fit in target type",
        }
    }
}

/// Value of the ASCII digit `c` in `radix` (letters of either case stand
/// for 10 and up), if it is one.
pub open spec fn digit_value(c: u8, radix: nat) -> Option<nat> {
    if 48 <= c <= 57 && c - 48 < radix {
        Some((c - 48) as nat)
    } else if 97 <= c <= 122 && c - 97 + 10 < radix {
        Some((c - 97 + 10) as nat)
    } else if 65 <= c <= 90 && c - 65 + 10 < radix {
        Some((c - 65 + 10) as nat)
    } else {
        None
    }
}

/// Reads `ds` as digits from the most significant one; the first failure,
/// from left to right, is the outcome.
pub open spec fn fold_digits(ds: Seq<u8>, radix: nat) -> Result<usize, IntErrorKind>
    decreases ds.len(),
{
    if ds.len() == 0 {
        Ok(0usize)
    } else {
        match fold_digits(ds.drop_last(), radix) {
            Err(e) => Err(e),
            Ok(v) => match digit_value(ds.last(), radix) {
                None => Err(IntErrorKind::InvalidDigit),
                Some(d) => if v * radix + d > usize::MAX {
                    Err(IntErrorKind::PosOverflow)
                } else {
                    Ok((v * radix + d) as usize)
                },
            },
        }
    }
}

/// Outcome of parsing the bytes `src` as an unsigned integer in `radix`.
pub open spec fn parse_unsigned(src: Seq<u8>, radix: nat) -> Result<usize, IntErrorKind> {
    if src.len() == 0 {
        Err(IntErrorKind::Empty)
    } else if src.len() == 1 && (src[0] == 43u8 || src[0] == 45u8) {
        Err(IntErrorKind::InvalidDigit)
    } else if src[0] == 43u8 {
        fold_digits(src.drop_first(), radix)
    } else {
        fold_digits(src, radix)
    }
}

proof fn lemma_fold_error_persists(ds: Seq<u8>, k: int, radix: nat)
    requires
        0 <= k <= ds.len(),
        fold_digits(ds.subrange(0, k), radix) is Err,
    ensures
        fold_digits(ds, radix) == fold_digits(ds.subrange(0, k), radix),
    decreases ds.len() - k,
{
    if k < ds.len() {
        let longer = ds.subrange(0, k + 1);
        assert(longer.drop_last() =~= ds.subrange(0, k));
        lemma_fold_error_persists(ds, k + 1, radix);
    } else {
        assert(ds.subrange(0, k) =~= ds);
    }
}

fn digit_of(c: u8, radix: usize) -> (r: Option<usize>)
    requires
        2 <= radix <= 36,
    ensures
        match r {
            Some(d) => digit_value(c, radix as nat) == Some(d as nat) && d < radix,
            None => digit_value(c, radix as nat) is None,
        },
{
    if 48 <= c && c <= 57 && ((c - 48) as usize) < radix {
        Some((c - 48) as usize)
    } else if 97 <= c && c <= 122 && ((c - 97 + 10) as usize) < radix {
        Some((c - 97 + 10) as usize)
    } else if 65 <= c && c <= 90 && ((c - 65 + 10) as usize) < radix {
        Some((c - 65 + 10) as usize)
    } else {
        None
    }
}

/// Parses `src[start..]` as an unsigned integer in `radix`, exactly as
/// `usize::from_str_radix` does.
pub fn parse_unsigned_from(src: &[u8], start: usize, radix: usize) -> (r: Result<usize, IntErrorKind>)
    requires
        start <= src.len(),
        2 <= radix <= 36,
    ensures
        r == parse_unsigned(src@.subrange(start as int, src@.len() as int), radix as nat),
{
    let ghost body = src@.subrange(start as int, src@.len() as int);
    let n = src.len();
    if start == n {
        return Err(IntErrorKind::Empty);
    }
    if n - start == 1 && (src[start] == 43u8 || src[start] == 45u8) {
        return Err(IntErrorKind::InvalidDigit);
    }
    let first = if src[start] == 43u8 {
        start + 1
    } else {
        start
    };
    let ghost ds = src@.subrange(first as int, n as int);
    proof {
        if src[start as int] == 43u8 {
            assert(body.drop_first() =~= ds);
        } else {
            assert(body =~= ds);
        }
    }
    let mut result: usize = 0;
    let mut k: usize = first;
    assert(ds.subrange(0, 0).len() == 0);
    while k < n
        invariant
            first <= k <= n,
            n == src@.len(),
            ds == src@.subrange(first as int, n as int),
            2 <= radix <= 36,
            start <= src@.len(),
            parse_unsigned(src@.subrange(start as int, n as int), radix as nat) == fold_digits(
                ds,
                radix as nat,
            ),
            fold_digits(ds.subrange(0, k - first), radix as nat) == Ok::<usize, IntErrorKind>(
                result,
            ),
        decreases n - k,
    {
        let c = src[k];
        let ghost pre = ds.subrange(0, k - first);
        let ghost ext = ds.subrange(0, k + 1 - first);
        assert(ext.drop_last() =~= pre);
        assert(ext.last() == c);
        let d = match digit_of(c, radix) {
            None => {
                proof {
                    assert(fold_digits(ext, radix as nat) == Err::<usize, IntErrorKind>(
                        IntErrorKind::InvalidDigit,
                    ));
                    lemma_fold_error_persists(ds, k + 1 - first, radix as nat);
                }
                return Err(IntErrorKind::InvalidDigit);
            },
            Some(d) => d,
        };
        let m = match result.checked_mul(radix) {
            None => {
                assert(result * radix + d > usize::MAX) by (nonlinear_arith)
                    requires
                        result * radix > usize::MAX,
                        d >= 0,
                ;
                proof {
                    assert(fold_digits(ext, radix as nat) == Err::<usize, IntErrorKind>(
                        IntErrorKind::PosOverflow,
                    ));
                    lemma_fold_error_persists(ds, k + 1 - first, radix as nat);
                }
                return Err(IntErrorKind::PosOverflow);
            },
            Some(m) => m,
        };
        let s = match m.checked_add(d) {
            None => {
                proof {
                    assert(fold_digits(ext, radix as nat) == Err::<usize, IntErrorKind>(
                        IntErrorKind::PosOverflow,
                    ));
                    lemma_fold_error_persists(ds, k + 1 - first, radix as nat);
                }
                return Err(IntErrorKind::PosOverflow);
            },
            Some(s) => s,
        };
        assert(fold_digits(ext, radix as nat) == Ok::<usize, IntErrorKind>(s));
        result = s;
        k += 1;
    }
    assert(ds.subrange(0, n - first) =~= ds);
    Ok(result)
}

/// `b` without a leading `0x` or `0X`.
pub open spec fn strip_radix_prefix(b: Seq<u8>) -> Seq<u8> {
    if has_radix_prefix(b) {
        b.subrange(2, b.len() as int)
    } else {
        b
    }
}

/// `b` starts with `0x` or `0X`.
pub open spec fn has_radix_prefix(b: Seq<u8>) -> bool {
    b.len() >= 2 && b[0] == 48u8 && (b[1] == 120u8 || b[1] == 88u8)
}

/// Length of a leading `0x` / `0X` of `b`: 2 if there is one, else 0.
pub fn radix_prefix_len(b: &[u8]) -> (r: usize)
    ensures
        r == (if has_radix_prefix(b@) {
            2usize
        } else {
            0usize
        }),
        b@.subrange(r as int, b@.len() as int) == strip_radix_prefix(b@),
{
    if b.len() >= 2 && b[0] == 48u8 && (b[1] == 120u8 || b[1] == 88u8) {
        2
    } else {
        assert(b@.subrange(0, b@.len() as int) =~= b@);
        0
    }
}

/// The message `"<what> `<s>`: <reason>"`.
pub open spec fn error_message(what: Seq<char>, s: Seq<char>, k: IntErrorKind) -> Seq<char> {
    what + s + "`: "@ + k.spec_description()
}

/// Builds `"<what><s>`: <reason>"` (with `what` ending in an opening backquote).
pub fn format_error(what: &str, s: &str, k: IntErrorKind) -> (msg: String)
    ensures
        msg@ == error_message(what@, s@, k),
{
    let mut msg = String::from_str(what);
    msg.append(s);
    msg.append("`: ");
    msg.append(k.description());
    msg
}

} // verus!
