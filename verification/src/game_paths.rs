//! Where the game's executable is looked for on disk.

use vstd::prelude::*;
use vstd::string::*;

verus! {

/// The game executable's path below a drive's root on Windows.
pub const WIN_RELATIVE: &'static str =
    "Program Files\\Wuthering Waves\\Wuthering Waves Game\\Client\\Binaries\\Win64\\Client-Win64-Shipping.exe";

/// The game's application bundle on macOS.
pub const MACOS_APP_PATH: &'static str = "/Applications/WutheringWaves.app";

/// Number of drive letters looked at, `A` to `Z`.
pub const DRIVE_COUNT: usize = 26;

/// The `k`-th drive letter, counting `A` as zero.
pub open spec fn drive_letter(k: int) -> char {
    ((65 + k) as u8) as char
}

/// The candidate path on the `k`-th drive: `X:\` followed by `WIN_RELATIVE`.
pub open spec fn candidate_path(k: int) -> Seq<char> {
    seq![drive_letter(k), ':', '\\'] + WIN_RELATIVE@
}

/// The candidates among the first `keep.len()` drives that `keep` marks, in
/// drive order.
pub open spec fn kept_candidates(keep: Seq<bool>) -> Seq<Seq<char>>
    decreases keep.len(),
{
    if keep.len() == 0 {
        Seq::empty()
    } else {
        let prev = kept_candidates(keep.drop_last());
        if keep.last() {
            prev.push(candidate_path(keep.len() - 1))
        } else {
            prev
        }
    }
}

/// The views of a list of strings.
pub open spec fn string_views(v: Seq<String>) -> Seq<Seq<char>> {
    v.map_values(|s: String| s@)
}

fn drive_letter_str(k: usize) -> (r: &'static str)
    requires
        k < DRIVE_COUNT,
    ensures
        r@ == seq![drive_letter(k as int)],
{
    let letters = "ABCDEFGHIJKLMNOPQRSTUVWXYZ";
    proof {
        reveal_strlit("ABCDEFGHIJKLMNOPQRSTUVWXYZ");
        assert(letters@[k as int] == drive_letter(k as int)) by {
            assert(((65 + k) as u8) as char as int == 65 + k);
        }
    }
    let r = letters.substring_char(k, k + 1);
    assert(r@ =~= seq![drive_letter(k as int)]);
    r
}

/// The path of the game executable on the `k`-th drive.
pub fn candidate_on_drive(k: usize) -> (r: String)
    requires
        k < DRIVE_COUNT,
    ensures
        r@ == candidate_path(k as int),
{
    let mut p = String::from_str(drive_letter_str(k));
    p.append(":\\");
    p.append(WIN_RELATIVE);
    proof {
        reveal_strlit(":\\");
    }
    assert(p@ =~= candidate_path(k as int));
    p
}

/// Every Windows path the game may be installed at, drive `A` to `Z`.
pub fn game_path_candidates() -> (r: Vec<String>)
    ensures
        r@.len() == DRIVE_COUNT,
        forall|k: int| 0 <= k < DRIVE_COUNT ==> #[trigger] r@[k]@ == candidate_path(k),
{
    let mut r: Vec<String> = Vec::new();
    let mut k: usize = 0;
    while k < DRIVE_COUNT
        invariant
            k <= DRIVE_COUNT,
            r@.len() == k,
            forall|j: int| 0 <= j < k ==> #[trigger] r@[j]@ == candidate_path(j),
        decreases DRIVE_COUNT - k,
    {
        r.push(candidate_on_drive(k));
        k = k + 1;
    }
    r
}

/// `is_file` answered `found` for a string holding the `k`-th candidate.
pub open spec fn checked_as<F: Fn(&String) -> bool>(is_file: F, k: int, found: bool) -> bool {
    exists|s: String| s@ == candidate_path(k) && #[trigger] is_file.ensures((&s,), found)
}

/// The installed copies of the game on Windows: the candidate paths, in
/// drive order, for which `is_file` says a file exists.
pub fn scan_game_candidates(is_file: &impl Fn(&String) -> bool) -> (r: Vec<String>)
    requires
        forall|s: &String| is_file.requires((s,)),
    ensures
        exists|keep: Seq<bool>|
            #![trigger kept_candidates(keep)]
            keep.len() == DRIVE_COUNT && (forall|k: int|
                0 <= k < DRIVE_COUNT ==> checked_as(*is_file, k, #[trigger] keep[k]))
                && string_views(r@) == kept_candidates(keep),
{
    let mut r: Vec<String> = Vec::new();
    let ghost mut keep: Seq<bool> = Seq::empty();
    let mut k: usize = 0;
    while k < DRIVE_COUNT
        invariant
            forall|s: &String| is_file.requires((s,)),
            k <= DRIVE_COUNT,
            keep.len() == k,
            forall|j: int| 0 <= j < k ==> checked_as(*is_file, j, #[trigger] keep[j]),
            string_views(r@) == kept_candidates(keep),
        decreases DRIVE_COUNT - k,
    {
        let path = candidate_on_drive(k);
        let present = is_file(&path);
        proof {
            let old_keep = keep;
            keep = keep.push(present);
            assert(keep.drop_last() =~= old_keep);
            assert(path@ == candidate_path(k as int) && is_file.ensures((&path,), present));
            assert(checked_as(*is_file, k as int, present));
            assert forall|j: int| 0 <= j < k + 1 implies checked_as(*is_file, j, #[trigger] keep[j]) by {
                if j < k {
                    assert(keep[j] == old_keep[j]);
                }
            }
        }
        if present {
            let ghost before = r@;
            r.push(path);
            assert(string_views(r@) =~= string_views(before).push(candidate_path(k as int)));
        }
        k = k + 1;
    }
    r
}

/// The installed copies of the game on macOS: the application bundle when it
/// exists.
pub fn macos_game_candidates(app_exists: bool) -> (r: Vec<String>)
    ensures
        app_exists ==> string_views(r@) == seq![MACOS_APP_PATH@],
        !app_exists ==> r@.len() == 0,
{
    let mut r: Vec<String> = Vec::new();
    if app_exists {
        r.push(String::from_str(MACOS_APP_PATH));
        assert(string_views(r@) =~= seq![MACOS_APP_PATH@]);
    }
    r
}

} // verus!
