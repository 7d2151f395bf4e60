//! The driver's hardcoded walk from the world anchor to the player's
//! world transform, with its per-step failure stages.

use vstd::prelude::*;

verus! {

/// Lowest address accepted as a user-mode pointer.
pub const USER_MIN: u64 = 0x1_0000;

/// Highest address accepted as a user-mode pointer.
pub const USER_MAX: u64 = 0x7FFF_FFFF_FFFF;

/// A plausible user-mode pointer.
pub open spec fn valid_ptr(addr: int) -> bool {
    USER_MIN <= addr <= USER_MAX
}

/// Whether `addr` lies in the user-mode pointer range.
pub fn is_valid_ptr(addr: u64) -> (r: bool)
    ensures
        r == valid_ptr(addr as int),
{
    addr >= USER_MIN && addr <= USER_MAX
}

/// The main module's base as the process reports it, kept only when it is a
/// plausible user-mode pointer.
pub fn checked_module_base(raw: u64) -> (r: Option<u64>)
    ensures
        r == (if valid_ptr(raw as int) {
            Some(raw)
        } else {
            None
        }),
{
    if is_valid_ptr(raw) {
        Some(raw)
    } else {
        None
    }
}

/// An integer world-origin offset (`FIntVector`).
#[derive(Clone, Copy, Debug, PartialEq, Eq)]
pub struct FIntVector {
    pub x: i32,
    pub y: i32,
    pub z: i32,
}

/// The pointer chain from the world anchor to the player's root component
/// and where the transform and world origin are found.
#[derive(Clone, Copy, Debug, PartialEq, Eq)]
pub struct PlayerCoordConfig {
    /// Field offsets followed one pointer at a time from the world anchor:
    /// OwningGameInstance, LocalPlayers data, element 0, PlayerController,
    /// AcknowledgedPawn, RootComponent.
    pub chain: [u64; 6],
    /// Offset of `ComponentToWorld` (an `FTransform`) in the root component.
    pub relative_location_offset: u64,
    /// Whether the persistent level's world origin is added back.
    pub add_world_origin: bool,
}

/// The chain offsets the driver is built with.
pub open spec fn spec_chain() -> Seq<u64> {
    seq![440u64, 64u64, 0u64, 56u64, 832u64, 416u64]
}

/// The configuration the driver is built with.
pub fn player_coord_config() -> (r: PlayerCoordConfig)
    ensures
        r.chain@ == spec_chain(),
        r.relative_location_offset == 480,
        r.add_world_origin,
{
    let r = PlayerCoordConfig {
        chain: [440, 64, 0, 56, 832, 416],
        relative_location_offset: 480,
        add_world_origin: true,
    };
    assert(r.chain@ =~= spec_chain());
    r
}

/// `UWorld::PersistentLevel`.
pub const PERSISTENT_LEVEL_OFFSET: u64 = 0x38;

/// `ULevel` world origin (`FIntVector`).
pub const WORLD_ORIGIN_OFFSET: u64 = 0xC8;

/// Stage reported when the module base or the world anchor is missing.
pub const STAGE_ANCHOR: u8 = 1;

/// A successful checked pointer read: `addr` is a user pointer, and the read
/// gave a user pointer `v`.
pub open spec fn pointer_step<F: Fn(u64) -> Option<u64>>(read: F, addr: int, v: u64) -> bool {
    valid_ptr(addr) && read.ensures((addr as u64,), Some(v)) && valid_ptr(v as int)
}

/// A checked pointer read that may fail: `addr` is not a user pointer, or a
/// read outcome is not one.
pub open spec fn pointer_step_fails<F: Fn(u64) -> Option<u64>>(read: F, addr: int) -> bool {
    !valid_ptr(addr) || exists|out: Option<u64>|
        #[trigger] read.ensures((addr as u64,), out) && !(out matches Some(v) && valid_ptr(v as int))
}

/// Reads a pointer at `addr` and accepts it only when both `addr` and the
/// value read are user pointers; `addr` is not read otherwise.
pub fn read_checked_ptr(addr: u64, read: &impl Fn(u64) -> Option<u64>) -> (r: Option<u64>)
    requires
        read.requires((addr,)),
    ensures
        r matches Some(v) ==> pointer_step(*read, addr as int, v),
        r is None ==> pointer_step_fails(*read, addr as int),
{
    if !is_valid_ptr(addr) {
        return None;
    }
    let out = read(addr);
    proof {
        assert((addr as int) as u64 == addr);
    }
    if let Some(v) = out {
        if is_valid_ptr(v) {
            return Some(v);
        }
    }
    assert(read.ensures(((addr as int) as u64,), out));
    None
}

/// `path` follows `offsets` from `path[0]`, one successful pointer step per
/// offset.
pub open spec fn follows_chain<F: Fn(u64) -> Option<u64>>(
    read: F,
    offsets: Seq<u64>,
    path: Seq<u64>,
) -> bool {
    &&& 1 <= path.len() <= offsets.len() + 1
    &&& forall|i: int|
        0 <= i < path.len() - 1 ==> pointer_step(read, path[i] + offsets[i], #[trigger] path[i + 1])
}

/// Follows `offsets` from `anchor`; stops at the first step `i` whose read is
/// refused and reports stage `i + 2`, else returns the last pointer.
pub fn walk_chain(anchor: u64, offsets: &[u64], read: &impl Fn(u64) -> Option<u64>) -> (r: Result<
    u64,
    u8,
>)
    requires
        valid_ptr(anchor as int),
        offsets@.len() <= 250,
        forall|i: int| 0 <= i < offsets@.len() ==> offsets@[i] <= 0xFFFF_FFFF,
        forall|a: u64| read.requires((a,)),
    ensures
        r matches Ok(p) ==> valid_ptr(p as int),
        r matches Ok(p) ==> exists|path: Seq<u64>|
            path.len() == offsets@.len() + 1 && path[0] == anchor && path.last() == p
                && follows_chain(*read, offsets@, path),
        r matches Err(stage) ==> 2 <= stage < offsets@.len() + 2 && exists|path: Seq<u64>|
            path.len() == stage - 1 && path[0] == anchor && follows_chain(*read, offsets@, path)
                && pointer_step_fails(*read, path.last() + offsets@[stage - 2]),
{
    let mut ptr = anchor;
    let ghost mut path: Seq<u64> = seq![anchor];
    let mut i: usize = 0;
    while i < offsets.len()
        invariant
            i <= offsets@.len() <= 250,
            forall|k: int| 0 <= k < offsets@.len() ==> offsets@[k] <= 0xFFFF_FFFF,
            forall|a: u64| read.requires((a,)),
            path.len() == i + 1,
            path[0] == anchor,
            path.last() == ptr,
            valid_ptr(ptr as int),
            follows_chain(*read, offsets@, path),
        decreases offsets@.len() - i,
    {
        let addr = ptr + offsets[i];
        match read_checked_ptr(addr, read) {
            Some(v) => {
                proof {
                    let old_path = path;
                    path = path.push(v);
                    assert forall|k: int| 0 <= k < path.len() - 1 implies pointer_step(
                        *read,
                        path[k] + offsets@[k],
                        #[trigger] path[k + 1],
                    ) by {
                        if k < old_path.len() - 1 {
                            assert(path[k] == old_path[k] && path[k + 1] == old_path[k + 1]);
                        }
                    }
                }
                ptr = v;
            },
            None => {
                return Err((i + 2) as u8);
            },
        }
        i = i + 1;
    }
    Ok(ptr)
}

/// What the walk hands back on success: the root component's transform and
/// the world origin to add to it.
pub struct PlayerReadout<T> {
    pub transform: T,
    pub origin: FIntVector,
}

/// The chain was followed from `anchor` to its end at `path.last()`.
pub open spec fn chain_walked<F: Fn(u64) -> Option<u64>>(read_ptr: F, anchor: u64, path: Seq<u64>) -> bool {
    path.len() == 7 && path[0] == anchor && follows_chain(read_ptr, spec_chain(), path)
}

/// Step `stage - 2` of the chain was refused after the steps before it
/// succeeded.
pub open spec fn chain_broke_at<F: Fn(u64) -> Option<u64>>(read_ptr: F, anchor: u64, stage: int) -> bool {
    exists|path: Seq<u64>|
        #![trigger follows_chain(read_ptr, spec_chain(), path)]
        path.len() == stage - 1 && path[0] == anchor && follows_chain(read_ptr, spec_chain(), path)
            && pointer_step_fails(read_ptr, path.last() + spec_chain()[stage - 2])
}

/// The chain was followed from `anchor` to its end and the transform read
/// there succeeded: what has to come before a stage 9 or 10 failure.
pub open spec fn transform_reached<T, F: Fn(u64) -> Option<u64>, G: Fn(u64) -> Option<T>>(
    read_ptr: F,
    read_transform: G,
    anchor: u64,
) -> bool {
    exists|path: Seq<u64>, t: T|
        #[trigger] chain_walked(read_ptr, anchor, path) && #[trigger] read_transform.ensures(
            ((path.last() + 480) as u64,),
            Some(t),
        )
}

/// The driver's read of the player's world transform from `anchor` (`None`
/// when the module base or world anchor could not be resolved): stage 1 for a
/// missing anchor, 2..=7 for a refused chain step, 8 for a failed transform
/// read, 9 for a refused persistent-level pointer, 10 for a failed
/// world-origin read.
pub fn read_player_world_position<T>(
    anchor: Option<u64>,
    read_ptr: &impl Fn(u64) -> Option<u64>,
    read_transform: &impl Fn(u64) -> Option<T>,
    read_origin: &impl Fn(u64) -> Option<FIntVector>,
) -> (r: Result<PlayerReadout<T>, u8>)
    requires
        anchor matches Some(a) ==> valid_ptr(a as int),
        forall|a: u64| read_ptr.requires((a,)),
        forall|a: u64| read_transform.requires((a,)),
        forall|a: u64| read_origin.requires((a,)),
    ensures
        anchor is None <==> r == Err::<PlayerReadout<T>, u8>(1u8),
        r matches Err(stage) ==> 1 <= stage <= 10,
        r matches Err(stage) ==> (2 <= stage <= 7 ==> chain_broke_at(*read_ptr, anchor->0, stage as int)),
        r == Err::<PlayerReadout<T>, u8>(8u8) ==> exists|path: Seq<u64>|
            #[trigger] chain_walked(*read_ptr, anchor->0, path) && read_transform.ensures(
                ((path.last() + 480) as u64,),
                None::<T>,
            ),
        r == Err::<PlayerReadout<T>, u8>(9u8) || r == Err::<PlayerReadout<T>, u8>(10u8) ==> transform_reached(
            *read_ptr,
            *read_transform,
            anchor->0,
        ),
        r == Err::<PlayerReadout<T>, u8>(9u8) ==> pointer_step_fails(
            *read_ptr,
            anchor->0 + PERSISTENT_LEVEL_OFFSET,
        ),
        r == Err::<PlayerReadout<T>, u8>(10u8) ==> exists|level: u64|
            #[trigger] pointer_step(*read_ptr, anchor->0 + PERSISTENT_LEVEL_OFFSET, level)
                && read_origin.ensures(((level + WORLD_ORIGIN_OFFSET) as u64,), None::<FIntVector>),
        r matches Ok(out) ==> exists|path: Seq<u64>, level: u64|
            #![trigger follows_chain(*read_ptr, spec_chain(), path), pointer_step(*read_ptr, anchor->0 + PERSISTENT_LEVEL_OFFSET, level)]
            path.len() == 7 && path[0] == anchor->0 && follows_chain(*read_ptr, spec_chain(), path)
                && read_transform.ensures(((path.last() + 480) as u64,), Some(out.transform))
                && pointer_step(*read_ptr, anchor->0 + PERSISTENT_LEVEL_OFFSET, level)
                && read_origin.ensures(((level + WORLD_ORIGIN_OFFSET) as u64,), Some(out.origin)),
{
    let anchor = match anchor {
        Some(a) => a,
        None => return Err(STAGE_ANCHOR),
    };
    let config = player_coord_config();
    let ptr = match walk_chain(anchor, &config.chain, read_ptr) {
        Ok(p) => p,
        Err(stage) => {
            assert(chain_broke_at(*read_ptr, anchor, stage as int));
            return Err(stage);
        },
    };
    let chain_len = config.chain.len();
    let out_t = read_transform(ptr + config.relative_location_offset);
    let transform = match out_t {
        Some(t) => {
            proof {
                let path = choose|path: Seq<u64>|
                    path.len() == config.chain@.len() + 1 && path[0] == anchor && path.last() == ptr
                        && follows_chain(*read_ptr, config.chain@, path);
                assert(chain_walked(*read_ptr, anchor, path));
                assert(read_transform.ensures(((path.last() + 480) as u64,), Some(t)));
                assert(transform_reached(*read_ptr, *read_transform, anchor));
            }
            t
        },
        None => {
            proof {
                let path = choose|path: Seq<u64>|
                    path.len() == config.chain@.len() + 1 && path[0] == anchor && path.last() == ptr
                        && follows_chain(*read_ptr, config.chain@, path);
                assert(chain_walked(*read_ptr, anchor, path));
            }
            return Err((chain_len + 2) as u8);
        },
    };
    let origin = if config.add_world_origin {
        let level = match read_checked_ptr(anchor + PERSISTENT_LEVEL_OFFSET, read_ptr) {
            Some(l) => l,
            None => return Err((chain_len + 3) as u8),
        };
        match read_origin(level + WORLD_ORIGIN_OFFSET) {
            Some(iv) => iv,
            None => {
                assert(pointer_step(*read_ptr, anchor + PERSISTENT_LEVEL_OFFSET, level));
                return Err((chain_len + 4) as u8);
            },
        }
    } else {
        FIntVector { x: 0, y: 0, z: 0 }
    };
    Ok(PlayerReadout { transform, origin })
}

} // verus!
