//! What the library knows about a target process: its descriptor, and how
//! names from the Win32 process and module lists are compared.

use vstd::prelude::*;
use vstd::string::StringSliceAdditionalSpecFns;
use vstd::utf8::encode_utf8;

verus! {

/// Information about a running process matched by name.
#[derive(Debug, Clone)]
pub struct Process {
    /// Windows process id.
    pub pid: u32,
    /// Executable file name.
    pub name: String,
    /// Base virtual address of the main module in the target's address space.
    pub base_address: usize,
    /// Size in bytes of the main module's image.
    pub module_size: usize,
}

/// A module (the `.exe` or a DLL) loaded in a target process.
#[derive(Debug, Clone)]
pub struct Module {
    /// Module file name.
    pub name: String,
    /// Base virtual address of the module.
    pub base_address: usize,
    /// Size in bytes of the module's image.
    pub size: usize,
}

/// `b` with an ASCII upper-case letter turned into lower case.
pub open spec fn ascii_lower(b: u8) -> u8 {
    if 65 <= b <= 90 {
        (b + 32) as u8
    } else {
        b
    }
}

/// `a` and `b` are equal once ASCII letters are folded to lower case.
pub open spec fn eq_ignore_ascii_case_bytes(a: Seq<u8>, b: Seq<u8>) -> bool {
    a.len() == b.len() && forall|i: int| 0 <= i < a.len() ==> ascii_lower(#[trigger] a[i])
        == ascii_lower(b[i])
}

fn lower(b: u8) -> (r: u8)
    ensures
        r == ascii_lower(b),
{
    if 65 <= b && b <= 90 {
        b + 32
    } else {
        b
    }
}

/// Process names match when equal up to ASCII case, as Windows compares
/// executable names.
pub fn names_match(a: &str, b: &str) -> (r: bool)
    ensures
        r == eq_ignore_ascii_case_bytes(a.spec_bytes(), b.spec_bytes()),
{
    let x = a.as_bytes();
    let y = b.as_bytes();
    if x.len() != y.len() {
        return false;
    }
    let mut i: usize = 0;
    while i < x.len()
        invariant
            x@ == a.spec_bytes(),
            y@ == b.spec_bytes(),
            x@.len() == y@.len(),
            i <= x@.len(),
            forall|j: int| 0 <= j < i ==> ascii_lower(#[trigger] x@[j]) == ascii_lower(y@[j]),
        decreases x@.len() - i,
    {
        if lower(x[i]) != lower(y[i]) {
            assert(ascii_lower(x@[i as int]) != ascii_lower(y@[i as int]));
            return false;
        }
        i += 1;
    }
    true
}

/// `name` is `target` up to ASCII case.
pub open spec fn name_matches(name: Seq<char>, target: &str) -> bool {
    eq_ignore_ascii_case_bytes(encode_utf8(name), target.spec_bytes())
}

/// Index of the first of `names` that is `target` up to ASCII case: the
/// process picked when several run under the same name.
pub fn first_match(names: &Vec<String>, target: &str) -> (r: Option<usize>)
    ensures
        match r {
            Some(i) => i < names@.len() && name_matches(names@[i as int]@, target) && forall|
                j: int,
            | 0 <= j < i ==> !name_matches(#[trigger] names@[j]@, target),
            None => forall|j: int|
                0 <= j < names@.len() ==> !name_matches(#[trigger] names@[j]@, target),
        },
{
    let mut i: usize = 0;
    while i < names.len()
        invariant
            i <= names@.len(),
            forall|j: int| 0 <= j < i ==> !name_matches(#[trigger] names@[j]@, target),
        decreases names@.len() - i,
    {
        if names_match(names[i].as_str(), target) {
            return Some(i);
        }
        i += 1;
    }
    None
}

/// `needle` occurs in `hay` at `i`, up to ASCII case.
pub open spec fn occurs_at(hay: Seq<u8>, needle: Seq<u8>, i: int) -> bool {
    0 <= i && i + needle.len() <= hay.len() && forall|j: int|
        0 <= j < needle.len() ==> ascii_lower(#[trigger] hay[i + j]) == ascii_lower(needle[j])
}

/// `needle` occurs somewhere in `hay`, up to ASCII case.
pub open spec fn contains_ignore_ascii_case(hay: Seq<u8>, needle: Seq<u8>) -> bool {
    exists|i: int| #[trigger] occurs_at(hay, needle, i)
}

fn occurs_at_exec(hay: &[u8], needle: &[u8], i: usize) -> (r: bool)
    requires
        i + needle@.len() <= hay@.len(),
    ensures
        r == occurs_at(hay@, needle@, i as int),
{
    assert(hay@.len() == hay.len());  // the length fits in a usize
    let mut j: usize = 0;
    while j < needle.len()
        invariant
            i + needle@.len() <= hay@.len(),
            hay@.len() <= usize::MAX,
            j <= needle@.len(),
            forall|k: int| 0 <= k < j ==> ascii_lower(#[trigger] hay@[i + k]) == ascii_lower(
                needle@[k],
            ),
        decreases needle@.len() - j,
    {
        if lower(hay[i + j]) != lower(needle[j]) {
            assert(ascii_lower(hay@[i + j]) != ascii_lower(needle@[j as int]));
            return false;
        }
        j += 1;
    }
    true
}

/// A module name passes the list's filter when the filter occurs in it,
/// up to ASCII case (an empty filter matches every name).
pub fn module_matches_filter(name: &str, filter: &str) -> (r: bool)
    ensures
        r == contains_ignore_ascii_case(name.spec_bytes(), filter.spec_bytes()),
{
    let hay = name.as_bytes();
    let needle = filter.as_bytes();
    if needle.len() > hay.len() {
        assert forall|i: int| !#[trigger] occurs_at(hay@, needle@, i) by {}
        return false;
    }
    let last = hay.len() - needle.len();
    let mut i: usize = 0;
    loop
        invariant
            hay@ == name.spec_bytes(),
            needle@ == filter.spec_bytes(),
            last == hay@.len() - needle@.len(),
            needle@.len() <= hay@.len(),
            i <= last,
            forall|k: int| 0 <= k < i ==> !#[trigger] occurs_at(hay@, needle@, k),
        ensures
            forall|k: int| 0 <= k <= last ==> !#[trigger] occurs_at(hay@, needle@, k),
        decreases last - i,
    {
        if occurs_at_exec(hay, needle, i) {
            assert(occurs_at(hay@, needle@, i as int));
            return true;
        }
        if i == last {
            assert(!occurs_at(hay@, needle@, last as int));
            break;
        }
        i += 1;
    }
    assert forall|k: int| !#[trigger] occurs_at(hay@, needle@, k) by {
        if 0 <= k <= last {
        }
    }
    false
}

/// Length of a NUL-terminated UTF-16 name as the Win32 APIs return it:
/// up to the first zero, or the whole buffer when there is none.
pub fn nul_terminated_len(wide: &[u16]) -> (r: usize)
    ensures
        r <= wide@.len(),
        forall|i: int| 0 <= i < r ==> #[trigger] wide@[i] != 0,
        r < wide@.len() ==> wide@[r as int] == 0,
{
    let mut i: usize = 0;
    while i < wide.len()
        invariant
            i <= wide@.len(),
            forall|k: int| 0 <= k < i ==> #[trigger] wide@[k] != 0,
        decreases wide@.len() - i,
    {
        if wide[i] == 0 {
            return i;
        }
        i += 1;
    }
    i
}

} // verus!
