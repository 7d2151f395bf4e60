//! The user-mode walk of the Unreal Engine pointer chain from `GWorld`, the
//! choice among the offset variants of the remote table, and the pointer
//! classification used in its diagnostics.

use vstd::prelude::*;
use vstd::string::*;
use crate::coord_chain::FIntVector;
use crate::errors::{display_text, NativeError};
use crate::offsets::WuwaOffset;
use crate::text::{hex_upper, hex_upper_string};

verus! {

/// How plausible a pointer value looks.
#[derive(Clone, Copy, Debug, PartialEq, Eq)]
pub enum PtrClass {
    Null,
    NearNull,
    NonCanonical,
    Misaligned,
    Plausible,
}

/// The class of a pointer value: 0; below 0x10000; above the user-mode
/// range; not 16-byte aligned; otherwise plausible.
pub open spec fn spec_ptr_class(p: u64) -> PtrClass {
    if p == 0 {
        PtrClass::Null
    } else if p < 0x1_0000 {
        PtrClass::NearNull
    } else if p > 0x0000_7FFF_FFFF_FFFF {
        PtrClass::NonCanonical
    } else if p % 16 != 0 {
        PtrClass::Misaligned
    } else {
        PtrClass::Plausible
    }
}

/// The label printed for each class.
pub open spec fn class_label(c: PtrClass) -> Seq<char> {
    match c {
        PtrClass::Null => "NULL"@,
        PtrClass::NearNull => "~NULL"@,
        PtrClass::NonCanonical => "!canon"@,
        PtrClass::Misaligned => "!align"@,
        PtrClass::Plausible => "ok"@,
    }
}

/// Classifies a pointer value.
pub fn ptr_class(p: u64) -> (r: PtrClass)
    ensures
        r == spec_ptr_class(p),
{
    if p == 0 {
        PtrClass::Null
    } else if p < 0x1_0000 {
        PtrClass::NearNull
    } else if p > 0x0000_7FFF_FFFF_FFFF {
        PtrClass::NonCanonical
    } else if p & 0xF != 0 {
        assert((p & 0xF) == p % 16) by (bit_vector);
        PtrClass::Misaligned
    } else {
        assert((p & 0xF) == p % 16) by (bit_vector);
        PtrClass::Plausible
    }
}

/// The diagnostic label of a pointer value: "NULL", "~NULL", "!canon",
/// "!align" or "ok".
pub fn classify_ptr(p: u64) -> (r: &'static str)
    ensures
        r@ == class_label(spec_ptr_class(p)),
{
    match ptr_class(p) {
        PtrClass::Null => "NULL",
        PtrClass::NearNull => "~NULL",
        PtrClass::NonCanonical => "!canon",
        PtrClass::Misaligned => "!align",
        PtrClass::Plausible => "ok",
    }
}

/// A pointer is classified "ok" exactly when it lies in the user-mode range
/// the driver accepts and is 16-byte aligned.
pub proof fn law_ok_means_valid_and_aligned(p: u64)
    ensures
        (spec_ptr_class(p) == PtrClass::Plausible) <==> (crate::coord_chain::valid_ptr(p as int) && p % 16
            == 0),
{
}

/// `a + b` modulo 2^64.
pub open spec fn wrap_add(a: u64, b: u64) -> u64 {
    if a + b > u64::MAX {
        (a + b - 0x1_0000_0000_0000_0000) as u64
    } else {
        (a + b) as u64
    }
}

fn wrapping_add_u64(a: u64, b: u64) -> (r: u64)
    ensures
        r == wrap_add(a, b),
{
    if a > u64::MAX - b {
        a - (u64::MAX - b) - 1
    } else {
        a + b
    }
}

/// The six links of the chain, from `GWorld` to the root component.
pub open spec fn chain_offsets(o: WuwaOffset) -> Seq<u64> {
    seq![
        o.uworld_owninggameinstance,
        o.ugameinstance_localplayers,
        0u64,
        o.uplayer_playercontroller,
        o.aplayercontroller_acknowlegedpawn,
        o.aactor_rootcomponent,
    ]
}

/// The name each link is reported under.
pub open spec fn link_name(k: int) -> Seq<char> {
    if k == 0 {
        "OwningGameInstance"@
    } else if k == 1 {
        "TArray<*LocalPlayers>"@
    } else if k == 2 {
        "LocalPlayer"@
    } else if k == 3 {
        "PlayerController"@
    } else if k == 4 {
        "APawn"@
    } else {
        "RootComponent"@
    }
}

fn link_name_str(k: usize) -> (r: &'static str)
    ensures
        r@ == link_name(k as int),
{
    if k == 0 {
        "OwningGameInstance"
    } else if k == 1 {
        "TArray<*LocalPlayers>"
    } else if k == 2 {
        "LocalPlayer"
    } else if k == 3 {
        "PlayerController"
    } else if k == 4 {
        "APawn"
    } else {
        "RootComponent"
    }
}

fn chain_offset_at(o: &WuwaOffset, k: usize) -> (r: u64)
    requires
        k < 6,
    ensures
        r == chain_offsets(*o)[k as int],
{
    if k == 0 {
        o.uworld_owninggameinstance
    } else if k == 1 {
        o.ugameinstance_localplayers
    } else if k == 2 {
        0
    } else if k == 3 {
        o.uplayer_playercontroller
    } else if k == 4 {
        o.aplayercontroller_acknowlegedpawn
    } else {
        o.aactor_rootcomponent
    }
}

/// `chain['<name>' <base hex>+<offset hex> <class>]: <cause>`.
pub open spec fn link_error_text(k: int, base: u64, field: u64, cause: NativeError) -> Seq<char> {
    "chain['"@ + link_name(k) + "' "@ + hex_upper(base as nat) + "+"@ + hex_upper(field as nat)
        + " "@ + class_label(spec_ptr_class(base)) + "]: "@ + display_text(cause)
}

/// `<tag>@<address hex>: <cause>`.
pub open spec fn at_error_text(tag: Seq<char>, addr: u64, cause: NativeError) -> Seq<char> {
    tag + "@"@ + hex_upper(addr as nat) + ": "@ + display_text(cause)
}

fn link_error(k: usize, base: u64, field: u64, cause: &NativeError) -> (r: NativeError)
    requires
        k < 6,
    ensures
        r matches NativeError::PointerChainError { message } && message@ == link_error_text(
            k as int,
            base,
            field,
            *cause,
        ),
{
    let mut m = String::from_str("chain['");
    m.append(link_name_str(k));
    m.append("' ");
    m.append(hex_upper_string(base).as_str());
    m.append("+");
    m.append(hex_upper_string(field).as_str());
    m.append(" ");
    m.append(classify_ptr(base));
    m.append("]: ");
    m.append(cause.to_display_string().as_str());
    NativeError::PointerChainError { message: m }
}

fn at_error(tag: &str, addr: u64, cause: &NativeError) -> (r: String)
    ensures
        r@ == at_error_text(tag@, addr, *cause),
{
    let mut m = String::from_str(tag);
    m.append("@");
    m.append(hex_upper_string(addr).as_str());
    m.append(": ");
    m.append(cause.to_display_string().as_str());
    m
}

/// What a successful walk hands back: the root component's world transform
/// and the level's world origin to add to it.
pub struct ChainReadout<T> {
    pub transform: T,
    pub origin: FIntVector,
}

/// `path` starts at `gworld` and follows the first `path.len() - 1` links.
pub open spec fn links_followed<F: Fn(u64) -> Result<u64, NativeError>>(
    read_u64: F,
    gworld: u64,
    offs: Seq<u64>,
    path: Seq<u64>,
) -> bool {
    &&& 1 <= path.len() <= 7
    &&& path[0] == gworld
    &&& forall|i: int|
        0 <= i < path.len() - 1 ==> read_u64.ensures(
            (wrap_add(path[i], offs[i]),),
            Ok::<u64, NativeError>(#[trigger] path[i + 1]),
        )
}

/// A successful walk: all six links, the transform read at the root
/// component, the level pointer and the world origin read at the level.
pub open spec fn walk_succeeded<
    T,
    F: Fn(u64) -> Result<u64, NativeError>,
    G: Fn(u64) -> Result<T, NativeError>,
    H: Fn(u64) -> Result<FIntVector, NativeError>,
>(
    read_u64: F,
    read_transform: G,
    read_ivec: H,
    gworld: u64,
    o: WuwaOffset,
    path: Seq<u64>,
    level: u64,
    out: ChainReadout<T>,
) -> bool {
    &&& path.len() == 7
    &&& links_followed(read_u64, gworld, chain_offsets(o), path)
    &&& read_transform.ensures(
        (wrap_add(path[6], o.uscenecomponent_componenttoworld),),
        Ok::<T, NativeError>(out.transform),
    )
    &&& read_u64.ensures(
        (wrap_add(gworld, o.uworld_persistentlevel),),
        Ok::<u64, NativeError>(level),
    )
    &&& read_ivec.ensures(
        (wrap_add(level, o.ulevel_lastworldorigin),),
        Ok::<FIntVector, NativeError>(out.origin),
    )
}

/// The outcomes a walk from `gworld` with offsets `o` may have, given the
/// outcomes of the reads it makes.
pub open spec fn walk_outcome<
    T,
    F: Fn(u64) -> Result<u64, NativeError>,
    G: Fn(u64) -> Result<T, NativeError>,
    H: Fn(u64) -> Result<FIntVector, NativeError>,
>(
    read_u64: F,
    read_transform: G,
    read_ivec: H,
    gworld: u64,
    o: WuwaOffset,
    r: Result<ChainReadout<T>, NativeError>,
) -> bool {
    let offs = chain_offsets(o);
    match r {
        Ok(out) => exists|path: Seq<u64>, level: u64|
            walk_succeeded(read_u64, read_transform, read_ivec, gworld, o, path, level, out),
        Err(e) => exists|path: Seq<u64>, cause: NativeError|
            #![trigger links_followed(read_u64, gworld, offs, path), display_text(cause)]
            links_followed(read_u64, gworld, offs, path) && {
                ||| {
                    &&& path.len() < 7
                    &&& read_u64.ensures(
                        (wrap_add(path.last(), offs[path.len() - 1]),),
                        Err::<u64, NativeError>(cause),
                    )
                    &&& e matches NativeError::PointerChainError { message }
                    &&& message@ == link_error_text(
                        path.len() - 1,
                        path.last(),
                        offs[path.len() - 1],
                        cause,
                    )
                }
                ||| {
                    &&& path.len() == 7
                    &&& read_transform.ensures(
                        (wrap_add(path[6], o.uscenecomponent_componenttoworld),),
                        Err::<T, NativeError>(cause),
                    )
                    &&& e matches NativeError::ValueReadError { message }
                    &&& message@ == at_error_text(
                        "ftrans"@,
                        wrap_add(path[6], o.uscenecomponent_componenttoworld),
                        cause,
                    )
                }
                ||| {
                    &&& path.len() == 7
                    &&& exists|t: T|
                        #[trigger] read_transform.ensures(
                            (wrap_add(path[6], o.uscenecomponent_componenttoworld),),
                            Ok::<T, NativeError>(t),
                        )
                    &&& read_u64.ensures(
                        (wrap_add(gworld, o.uworld_persistentlevel),),
                        Err::<u64, NativeError>(cause),
                    )
                    &&& e matches NativeError::PointerChainError { message }
                    &&& message@ == at_error_text(
                        "plevel"@,
                        wrap_add(gworld, o.uworld_persistentlevel),
                        cause,
                    )
                }
                ||| exists|level: u64|
                    {
                        &&& path.len() == 7
                        &&& exists|t: T|
                            #[trigger] read_transform.ensures(
                                (wrap_add(path[6], o.uscenecomponent_componenttoworld),),
                                Ok::<T, NativeError>(t),
                            )
                        &&& read_u64.ensures(
                            (wrap_add(gworld, o.uworld_persistentlevel),),
                            Ok::<u64, NativeError>(level),
                        )
                        &&& read_ivec.ensures(
                            (wrap_add(level, o.ulevel_lastworldorigin),),
                            Err::<FIntVector, NativeError>(cause),
                        )
                        &&& e matches NativeError::ValueReadError { message }
                        &&& message@ == at_error_text(
                            "worigin"@,
                            wrap_add(level, o.ulevel_lastworldorigin),
                            cause,
                        )
                    }
            },
    }
}


/// Walks the chain from `gworld` with the offsets of `offset`: six pointer
/// links to the root component, its world transform, then the persistent
/// level's world origin. A failed read is reported with the link or address
/// it failed at and the pointer's class.
pub fn walk_pointer_chain<T>(
    read_u64: &impl Fn(u64) -> Result<u64, NativeError>,
    read_transform: &impl Fn(u64) -> Result<T, NativeError>,
    read_ivec: &impl Fn(u64) -> Result<FIntVector, NativeError>,
    gworld: u64,
    offset: &WuwaOffset,
) -> (r: Result<ChainReadout<T>, NativeError>)
    requires
        forall|a: u64| read_u64.requires((a,)),
        forall|a: u64| read_transform.requires((a,)),
        forall|a: u64| read_ivec.requires((a,)),
    ensures
        walk_outcome(*read_u64, *read_transform, *read_ivec, gworld, *offset, r),
{
    let ghost offs = chain_offsets(*offset);
    let ghost mut path: Seq<u64> = seq![gworld];
    let mut last = gworld;
    let mut k: usize = 0;
    while k < 6
        invariant
            forall|a: u64| read_u64.requires((a,)),
            offs == chain_offsets(*offset),
            k <= 6,
            path.len() == k + 1,
            path.last() == last,
            links_followed(*read_u64, gworld, offs, path),
        decreases 6 - k,
    {
        let field = chain_offset_at(offset, k);
        let target = wrapping_add_u64(last, field);
        match read_u64(target) {
            Ok(v) => {
                proof {
                    let old_path = path;
                    path = path.push(v);
                    assert forall|i: int| 0 <= i < path.len() - 1 implies read_u64.ensures(
                        (wrap_add(path[i], offs[i]),),
                        Ok::<u64, NativeError>(#[trigger] path[i + 1]),
                    ) by {
                        if i < old_path.len() - 1 {
                            assert(path[i] == old_path[i] && path[i + 1] == old_path[i + 1]);
                        }
                    }
                }
                last = v;
            },
            Err(e) => {
                let err = link_error(k, last, field, &e);
                proof {
                    assert(links_followed(*read_u64, gworld, offs, path));
                    let _ = display_text(e);
                }
                return Err(err);
            },
        }
        k = k + 1;
    }
    let transform_addr = wrapping_add_u64(last, offset.uscenecomponent_componenttoworld);
    let transform = match read_transform(transform_addr) {
        Ok(t) => t,
        Err(e) => {
            let message = at_error("ftrans", transform_addr, &e);
            proof {
                reveal_strlit("ftrans");
                let _ = display_text(e);
            }
            return Err(NativeError::ValueReadError { message });
        },
    };
    let level_addr = wrapping_add_u64(gworld, offset.uworld_persistentlevel);
    let level = match read_u64(level_addr) {
        Ok(l) => l,
        Err(e) => {
            let message = at_error("plevel", level_addr, &e);
            proof {
                assert(path[6] == last);
                assert(read_transform.ensures((transform_addr,), Ok::<T, NativeError>(transform)));
                reveal_strlit("plevel");
                let _ = display_text(e);
            }
            return Err(NativeError::PointerChainError { message });
        },
    };
    let origin_addr = wrapping_add_u64(level, offset.ulevel_lastworldorigin);
    let origin = match read_ivec(origin_addr) {
        Ok(iv) => iv,
        Err(e) => {
            let message = at_error("worigin", origin_addr, &e);
            proof {
                assert(path[6] == last);
                assert(read_transform.ensures((transform_addr,), Ok::<T, NativeError>(transform)));
                reveal_strlit("worigin");
                let _ = display_text(e);
            }
            return Err(NativeError::ValueReadError { message });
        },
    };
    let out = ChainReadout { transform, origin };
    proof {
        assert(path[6] == last);
        assert(links_followed(*read_u64, gworld, offs, path));
        assert(read_transform.ensures((transform_addr,), Ok::<T, NativeError>(out.transform)));
        assert(read_u64.ensures((level_addr,), Ok::<u64, NativeError>(level)));
        assert(read_ivec.ensures(
            (wrap_add(level, offset.ulevel_lastworldorigin),),
            Ok::<FIntVector, NativeError>(out.origin),
        ));
        assert(walk_succeeded(*read_u64, *read_transform, *read_ivec, gworld, *offset, path, level, out));
    }
    assert(exists|p: Seq<u64>, l: u64| walk_succeeded(*read_u64, *read_transform, *read_ivec, gworld, *offset, p, l, out));
    let r = Ok(out);
    assert(r matches Ok(o) && o == out);
    assert(walk_outcome(*read_u64, *read_transform, *read_ivec, gworld, *offset, r));
    r
}


/// Offset variant `o` may fail with `e`: reading `GWorld` fails, or the walk
/// from it does.
pub open spec fn variant_fails<
    T,
    E: Fn(&WuwaOffset) -> Result<u64, NativeError>,
    F: Fn(u64) -> Result<u64, NativeError>,
    G: Fn(u64) -> Result<T, NativeError>,
    H: Fn(u64) -> Result<FIntVector, NativeError>,
>(read_gworld: E, read_u64: F, read_transform: G, read_ivec: H, o: WuwaOffset, e: NativeError) -> bool {
    ||| read_gworld.ensures((&o,), Err::<u64, NativeError>(e))
    ||| exists|gw: u64|
        read_gworld.ensures((&o,), Ok::<u64, NativeError>(gw)) && #[trigger] walk_outcome(
            read_u64,
            read_transform,
            read_ivec,
            gw,
            o,
            Err::<ChainReadout<T>, NativeError>(e),
        )
}

/// Offset variant `o` may succeed with `out`.
pub open spec fn variant_succeeds<
    T,
    E: Fn(&WuwaOffset) -> Result<u64, NativeError>,
    F: Fn(u64) -> Result<u64, NativeError>,
    G: Fn(u64) -> Result<T, NativeError>,
    H: Fn(u64) -> Result<FIntVector, NativeError>,
>(read_gworld: E, read_u64: F, read_transform: G, read_ivec: H, o: WuwaOffset, out: ChainReadout<T>) -> bool {
    exists|gw: u64|
        read_gworld.ensures((&o,), Ok::<u64, NativeError>(gw)) && #[trigger] walk_outcome(
            read_u64,
            read_transform,
            read_ivec,
            gw,
            o,
            Ok::<ChainReadout<T>, NativeError>(out),
        )
}

/// Offset variant `o` may fail with some error.
pub open spec fn variant_may_fail<
    T,
    E: Fn(&WuwaOffset) -> Result<u64, NativeError>,
    F: Fn(u64) -> Result<u64, NativeError>,
    G: Fn(u64) -> Result<T, NativeError>,
    H: Fn(u64) -> Result<FIntVector, NativeError>,
>(read_gworld: E, read_u64: F, read_transform: G, read_ivec: H, o: WuwaOffset) -> bool {
    exists|e: NativeError| variant_fails(read_gworld, read_u64, read_transform, read_ivec, o, e)
}

/// Every variant of `offsets` before index `k` may fail.
pub open spec fn variants_fail_before<
    T,
    E: Fn(&WuwaOffset) -> Result<u64, NativeError>,
    F: Fn(u64) -> Result<u64, NativeError>,
    G: Fn(u64) -> Result<T, NativeError>,
    H: Fn(u64) -> Result<FIntVector, NativeError>,
>(
    read_gworld: E,
    read_u64: F,
    read_transform: G,
    read_ivec: H,
    offsets: Seq<WuwaOffset>,
    k: int,
) -> bool {
    forall|j: int|
        0 <= j < k ==> #[trigger] variant_may_fail(
            read_gworld,
            read_u64,
            read_transform,
            read_ivec,
            offsets[j],
        )
}

/// The text reported when no offset variant could be tried.
pub open spec fn no_variant_text() -> Seq<char> {
    "사용 가능한 버전 값을 찾지 못했습니다."@
}

/// Reads the player's transform trying the cached offset variant first, then
/// every variant of `offsets` in order; the first variant that works is
/// cached. A cached variant that fails is dropped. When every variant fails,
/// the first variant's error is returned.
pub fn select_and_walk<T>(
    cached_offset: &mut Option<WuwaOffset>,
    offsets: &[WuwaOffset],
    read_gworld: &impl Fn(&WuwaOffset) -> Result<u64, NativeError>,
    read_u64: &impl Fn(u64) -> Result<u64, NativeError>,
    read_transform: &impl Fn(u64) -> Result<T, NativeError>,
    read_ivec: &impl Fn(u64) -> Result<FIntVector, NativeError>,
) -> (r: Result<ChainReadout<T>, NativeError>)
    requires
        forall|o: &WuwaOffset| read_gworld.requires((o,)),
        forall|a: u64| read_u64.requires((a,)),
        forall|a: u64| read_transform.requires((a,)),
        forall|a: u64| read_ivec.requires((a,)),
    ensures
        r matches Ok(out) ==> (*final(cached_offset) matches Some(o) && variant_succeeds(
            *read_gworld,
            *read_u64,
            *read_transform,
            *read_ivec,
            o,
            out,
        ) && (*old(cached_offset) == Some(o) || exists|k: int|
            0 <= k < offsets@.len() && #[trigger] offsets@[k] == o && variants_fail_before(
                *read_gworld,
                *read_u64,
                *read_transform,
                *read_ivec,
                offsets@,
                k,
            ))),
        r is Err ==> *final(cached_offset) is None,
        r matches Err(e) ==> (offsets@.len() == 0 ==> (e matches NativeError::PointerChainError {
            message,
        } && message@ == no_variant_text())),
        r matches Err(e) ==> (offsets@.len() > 0 ==> variant_fails(
            *read_gworld,
            *read_u64,
            *read_transform,
            *read_ivec,
            offsets@[0],
            e,
        )),
        r is Err ==> variants_fail_before(
            *read_gworld,
            *read_u64,
            *read_transform,
            *read_ivec,
            offsets@,
            offsets@.len() as int,
        ),
        r is Err ==> (*old(cached_offset) matches Some(c) ==> variant_may_fail(
            *read_gworld,
            *read_u64,
            *read_transform,
            *read_ivec,
            c,
        )),
        *old(cached_offset) matches Some(c) ==> (!variant_may_fail(
            *read_gworld,
            *read_u64,
            *read_transform,
            *read_ivec,
            c,
        ) ==> (r matches Ok(out) && *final(cached_offset) == Some(c) && variant_succeeds(
            *read_gworld,
            *read_u64,
            *read_transform,
            *read_ivec,
            c,
            out,
        ))),
{
    let ghost start_cache = *cached_offset;
    if let Some(offset) = cached_offset {
        let cached = offset.clone();
        assert(cached == *offset);
        let gw = read_gworld(&cached);
        if let Ok(gworld) = gw {
            let walked = walk_pointer_chain(read_u64, read_transform, read_ivec, gworld, &cached);
            if let Ok(info) = walked {
                *cached_offset = Some(cached);
                return Ok(info);
            }
            assert(variant_fails(*read_gworld, *read_u64, *read_transform, *read_ivec, cached, walked->Err_0));
        } else {
            assert(variant_fails(*read_gworld, *read_u64, *read_transform, *read_ivec, cached, gw->Err_0));
        }
        *cached_offset = None;
    }
    assert(start_cache matches Some(c) ==> variant_may_fail(*read_gworld, *read_u64, *read_transform, *read_ivec, c));
    let mut first_err: Option<NativeError> = None;
    let mut i: usize = 0;
    while i < offsets.len()
        invariant
            forall|o: &WuwaOffset| read_gworld.requires((o,)),
            forall|a: u64| read_u64.requires((a,)),
            forall|a: u64| read_transform.requires((a,)),
            forall|a: u64| read_ivec.requires((a,)),
            *cached_offset is None,
            start_cache == *old(cached_offset),
            start_cache matches Some(c) ==> variant_may_fail(*read_gworld, *read_u64, *read_transform, *read_ivec, c),
            i <= offsets@.len(),
            i == 0 <==> first_err is None,
            first_err matches Some(e) ==> variant_fails(
                *read_gworld,
                *read_u64,
                *read_transform,
                *read_ivec,
                offsets@[0],
                e,
            ),
            variants_fail_before(*read_gworld, *read_u64, *read_transform, *read_ivec, offsets@, i as int),
        decreases offsets@.len() - i,
    {
        let offset = &offsets[i];
        let ghost failed_here: NativeError;
        match read_gworld(offset) {
            Err(e) => {
                proof {
                    failed_here = e;
                }
                if first_err.is_none() {
                    first_err = Some(e);
                }
            },
            Ok(gworld) => {
                match walk_pointer_chain(read_u64, read_transform, read_ivec, gworld, offset) {
                    Ok(info) => {
                        *cached_offset = Some(offset.clone());
                        assert(variant_succeeds(*read_gworld, *read_u64, *read_transform, *read_ivec, offsets@[i as int], info));
                        assert(offsets@[i as int] == offsets@[i as int] && variants_fail_before(*read_gworld, *read_u64, *read_transform, *read_ivec, offsets@, i as int));
                        return Ok(info);
                    },
                    Err(e) => {
                        assert(walk_outcome(*read_u64, *read_transform, *read_ivec, gworld, offsets@[i as int], Err::<ChainReadout<T>, NativeError>(e)));
                        proof {
                            failed_here = e;
                        }
                        if first_err.is_none() {
                            first_err = Some(e);
                        }
                    },
                }
            },
        }
        assert(variant_fails(*read_gworld, *read_u64, *read_transform, *read_ivec, offsets@[i as int], failed_here));
        assert(variant_may_fail(*read_gworld, *read_u64, *read_transform, *read_ivec, offsets@[i as int]));
        i = i + 1;
    }
    match first_err {
        Some(e) => Err(e),
        None => Err(NativeError::PointerChainError {
            message: String::from_str("사용 가능한 버전 값을 찾지 못했습니다."),
        }),
    }
}

} // verus!
