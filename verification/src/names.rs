//! Process image-name checks: the full, case-insensitive target-name match
//! used on the process list, and the truncated-name prefix checks used on
//! `EPROCESS::ImageFileName`.

use vstd::prelude::*;

verus! {

/// ASCII upper-case letters map to lower case; every other UTF-16 unit is
/// kept.
pub open spec fn lower_u16(ch: u16) -> u16 {
    if 0x41 <= ch <= 0x5A {
        (ch + 0x20) as u16
    } else {
        ch
    }
}

/// Lower-cases one UTF-16 unit in the ASCII range only.
pub fn to_ascii_lower_u16(ch: u16) -> (r: u16)
    ensures
        r == lower_u16(ch),
{
    if ch >= 0x41 && ch <= 0x5A {
        ch + 0x20
    } else {
        ch
    }
}

/// Folding case twice is folding it once, and only ASCII letters change.
pub proof fn law_lower_idempotent(ch: u16)
    ensures
        lower_u16(lower_u16(ch)) == lower_u16(ch),
        lower_u16(ch) != ch ==> 0x41 <= ch <= 0x5A,
{
}

/// Whether `path` ends with `name`, comparing ASCII letters without regard
/// to case.
pub open spec fn ends_with_ignore_ascii_case(path: Seq<u16>, name: Seq<u16>) -> bool {
    &&& path.len() >= name.len()
    &&& forall|i: int|
        0 <= i < name.len() ==> lower_u16(#[trigger] path[path.len() - name.len() + i])
            == lower_u16(name[i])
}

/// Whether `path` ends with `name`, ignoring ASCII case.
pub fn path_ends_with_ignore_ascii_case(path: &[u16], name: &[u16]) -> (r: bool)
    ensures
        r == ends_with_ignore_ascii_case(path@, name@),
{
    if path.len() < name.len() {
        return false;
    }
    let start = path.len() - name.len();
    let mut i: usize = 0;
    while i < name.len()
        invariant
            start + name@.len() == path@.len(),
            path@.len() <= usize::MAX,
            i <= name@.len(),
            forall|k: int|
                0 <= k < i ==> lower_u16(#[trigger] path@[path@.len() - name@.len() + k])
                    == lower_u16(name@[k]),
        decreases name@.len() - i,
    {
        if to_ascii_lower_u16(path[start + i]) != to_ascii_lower_u16(name[i]) {
            assert(lower_u16(path@[path@.len() - name@.len() + i]) != lower_u16(name@[i as int]));
            return false;
        }
        i = i + 1;
    }
    true
}

/// Whether the first `prefix.len()` bytes of `name` are exactly `prefix`.
pub open spec fn has_byte_prefix(name: Seq<u8>, prefix: Seq<u8>) -> bool {
    name.len() >= prefix.len() && name.take(prefix.len() as int) == prefix
}

/// Compares the leading bytes of a truncated image name with `prefix`.
pub fn image_name_has_prefix(name: &[u8], prefix: &[u8]) -> (r: bool)
    ensures
        r == has_byte_prefix(name@, prefix@),
{
    if name.len() < prefix.len() {
        return false;
    }
    let mut i: usize = 0;
    while i < prefix.len()
        invariant
            name@.len() >= prefix@.len(),
            i <= prefix@.len(),
            forall|k: int| 0 <= k < i ==> name@[k] == prefix@[k],
        decreases prefix@.len() - i,
    {
        if name[i] != prefix[i] {
            assert(name@.take(prefix@.len() as int)[i as int] != prefix@[i as int]);
            return false;
        }
        i = i + 1;
    }
    assert(name@.take(prefix@.len() as int) =~= prefix@);
    true
}

} // verus!
