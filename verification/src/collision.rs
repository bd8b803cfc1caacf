use crate::level_data::find_level;
use crate::level_data::first_level_with_iid;
use crate::level_data::GridCoords;
use crate::level_data::Level;
use crate::util::get_level_origin_grid_coord;
use crate::util::level_origin;
use std::collections::HashSet;
use vstd::prelude::*;

verus! {

/// The value of a grid cell, in the level data, that marks a blocking tile.
pub const BLOCKED_TILE_GRID_CELL: i32 = 1;

/// A tile of the streamed world: a position on the unified grid and the depth
/// layer it lies on. Two tiles are the same place exactly when all three
/// fields agree.
#[derive(Clone, Copy, Debug, PartialEq, Eq, Hash, Structural)]
pub struct WorldGridCoords {
    pub x: i32,
    pub y: i32,
    pub z: i32,
}

impl WorldGridCoords {
    /// The tile as one integer: each field shifted to be non-negative, the
    /// three laid side by side in 32-bit lanes.
    pub open spec fn spec_key(self) -> u128 {
        ((self.x - i32::MIN) * 0x1_0000_0000_0000_0000 + (self.y - i32::MIN) * 0x1_0000_0000 + (
        self.z - i32::MIN)) as u128
    }

    /// The integer under which hashed collections file this tile.
    pub fn key(&self) -> (k: u128)
        ensures
            k == self.spec_key(),
    {
        let x: u128 = (self.x as i64 - i32::MIN as i64) as u128;
        let y: u128 = (self.y as i64 - i32::MIN as i64) as u128;
        let z: u128 = (self.z as i64 - i32::MIN as i64) as u128;
        x * 0x1_0000_0000_0000_0000 + y * 0x1_0000_0000 + z
    }

    /// Different tiles have different keys.
    pub proof fn lemma_key_injective(a: WorldGridCoords, b: WorldGridCoords)
        ensures
            a.spec_key() == b.spec_key() <==> a == b,
    {
    }
}

/// Why a level-local coordinate could not be placed on the world grid.
#[derive(Clone, Copy, Debug, PartialEq, Eq, Structural)]
pub enum ResolveError {
    /// No level of the world data carries the owning level's identifier.
    LevelNotFound,
    /// The tile lies beyond what a world coordinate can express.
    OutOfRange,
}

/// Where the tile `local` of `level` lies on the world grid: the level's
/// origin plus the local coordinate, on the level's depth layer. `None` when
/// a 32-bit coordinate cannot express the sum.
pub open spec fn spec_resolve(local: GridCoords, level: Level) -> Option<WorldGridCoords> {
    let x = level_origin(level).x + local.x;
    let y = level_origin(level).y + local.y;
    if i32::MIN <= x <= i32::MAX && i32::MIN <= y <= i32::MAX {
        Some(WorldGridCoords { x: x as i32, y: y as i32, z: level.world_depth })
    } else {
        None
    }
}

/// Which tile of `level` the world tile `world` is: the world coordinate minus
/// the level's origin. `None` when the tile lies on another depth layer or a
/// 32-bit coordinate cannot express the difference.
pub open spec fn spec_resolve_inverse(world: WorldGridCoords, level: Level) -> Option<GridCoords> {
    let x = world.x - level_origin(level).x;
    let y = world.y - level_origin(level).y;
    if world.z == level.world_depth && i32::MIN <= x <= i32::MAX && i32::MIN <= y <= i32::MAX {
        Some(GridCoords { x: x as i32, y: y as i32 })
    } else {
        None
    }
}

/// Whether `world` is one of the tiles that `level` covers: on its depth
/// layer, and within its width and height counted in whole tiles from its
/// origin.
pub open spec fn level_covers(level: Level, world: WorldGridCoords) -> bool {
    &&& world.z == level.world_depth
    &&& level_origin(level).x <= world.x < level_origin(level).x + level.px_wid as int / 16
    &&& level_origin(level).y <= world.y < level_origin(level).y + level.px_hei as int / 16
}

/// Places the tile `local` of `level` on the world grid.
pub fn resolve(local: GridCoords, level: &Level) -> (world: Option<WorldGridCoords>)
    ensures
        world == spec_resolve(local, *level),
{
    let origin = get_level_origin_grid_coord(level);
    let x: i64 = origin.x as i64 + local.x as i64;
    let y: i64 = origin.y as i64 + local.y as i64;
    if x < i32::MIN as i64 || x > i32::MAX as i64 || y < i32::MIN as i64 || y > i32::MAX as i64 {
        None
    } else {
        Some(WorldGridCoords { x: x as i32, y: y as i32, z: level.world_depth })
    }
}

/// Finds the tile of `level` that the world tile `world` is.
pub fn resolve_inverse(world: WorldGridCoords, level: &Level) -> (local: Option<GridCoords>)
    ensures
        local == spec_resolve_inverse(world, *level),
{
    let origin = get_level_origin_grid_coord(level);
    let x: i64 = world.x as i64 - origin.x as i64;
    let y: i64 = world.y as i64 - origin.y as i64;
    if world.z != level.world_depth || x < i32::MIN as i64 || x > i32::MAX as i64 || y
        < i32::MIN as i64 || y > i32::MAX as i64 {
        None
    } else {
        Some(GridCoords { x: x as i32, y: y as i32 })
    }
}

/// Resolving is the inverse of un-resolving: a world tile that `level` covers
/// has a local coordinate in it, and that local coordinate resolves back to
/// the same world tile.
pub proof fn lemma_resolve_round_trip(world: WorldGridCoords, level: Level)
    requires
        level_covers(level, world),
    ensures
        spec_resolve_inverse(world, level) is Some,
        spec_resolve(spec_resolve_inverse(world, level).unwrap(), level) == Some(world),
{
    assert(level.px_wid as int / 16 <= 0x0800_0000);
    assert(level.px_hei as int / 16 <= 0x0800_0000);
}

/// A local coordinate and the world tile it resolves to determine each other:
/// whenever either direction succeeds, the other gives the starting point back.
pub proof fn lemma_resolve_inverse_agree(local: GridCoords, world: WorldGridCoords, level: Level)
    ensures
        spec_resolve(local, level) == Some(world) <==> spec_resolve_inverse(world, level) == Some(
            local,
        ),
{
}

/// The world coordinate of an entity at `grid_coords` in the level named
/// `level_iid`: the first level of `levels` with that identifier owns the
/// entity. An unknown level or a tile outside the coordinate range is an
/// error, and the entity is to be asked about again later.
pub open spec fn spec_world_grid_coords(
    levels: Seq<Level>,
    level_iid: Seq<char>,
    grid_coords: GridCoords,
) -> Result<WorldGridCoords, ResolveError> {
    match first_level_with_iid(levels, level_iid) {
        None => Err(ResolveError::LevelNotFound),
        Some(i) => match spec_resolve(grid_coords, levels[i]) {
            None => Err(ResolveError::OutOfRange),
            Some(world) => Ok(world),
        },
    }
}

/// Gives an entity that still lacks a world coordinate the one its level and
/// local coordinate determine.
pub fn world_grid_coords_required(
    levels: &Vec<Level>,
    level_iid: &String,
    grid_coords: GridCoords,
) -> (world: Result<WorldGridCoords, ResolveError>)
    ensures
        world == spec_world_grid_coords(levels@, level_iid@, grid_coords),
{
    match find_level(levels, level_iid) {
        None => Err(ResolveError::LevelNotFound),
        Some(i) => match resolve(grid_coords, &levels[i]) {
            None => Err(ResolveError::OutOfRange),
            Some(world) => Ok(world),
        },
    }
}

/// The world tiles that nothing can walk into.
pub struct BlockedTilesCache {
    blocked_tile_locations: HashSet<u128>,
}

impl View for BlockedTilesCache {
    type V = Set<WorldGridCoords>;

    closed spec fn view(&self) -> Set<WorldGridCoords> {
        Set::new(|c: WorldGridCoords| self.blocked_tile_locations@.contains(c.spec_key()))
    }
}

impl Default for BlockedTilesCache {
    fn default() -> (cache: Self)
        ensures
            cache@ == Set::<WorldGridCoords>::empty(),
    {
        let cache = BlockedTilesCache { blocked_tile_locations: HashSet::new() };
        assert(cache@ =~= Set::<WorldGridCoords>::empty());
        cache
    }
}

impl BlockedTilesCache {
    /// Whether the tile at `coords` is impassable.
    pub fn is_blocked(&self, coords: &WorldGridCoords) -> (blocked: bool)
        ensures
            blocked == self@.contains(*coords),
    {
        let k = coords.key();
        self.blocked_tile_locations.contains(&k)
    }
}

/// Replaces the cache by the set of tiles that the blocking entities occupy
/// now. Nothing of the old cache survives.
pub fn build_blocked_tile_cache(
    blocked_tiles_cache: &mut BlockedTilesCache,
    blocked_tiles: &Vec<WorldGridCoords>,
)
    ensures
        final(blocked_tiles_cache)@ == blocked_tiles@.to_set(),
{
    let mut blocked_tile_locations: HashSet<u128> = HashSet::new();
    let mut i: usize = 0;
    while i < blocked_tiles.len()
        invariant
            i <= blocked_tiles.len(),
            forall|k: u128|
                blocked_tile_locations@.contains(k) <==> exists|j: int|
                    0 <= j < i && #[trigger] blocked_tiles[j].spec_key() == k,
        decreases blocked_tiles.len() - i,
    {
        let k = blocked_tiles[i].key();
        blocked_tile_locations.insert(k);
        i += 1;
    }
    let new_blocked_tiles_cache = BlockedTilesCache { blocked_tile_locations };
    assert(new_blocked_tiles_cache@ =~= blocked_tiles@.to_set()) by {
        assert forall|c: WorldGridCoords|
            new_blocked_tiles_cache@.contains(c) <==> blocked_tiles@.to_set().contains(c) by {
            if new_blocked_tiles_cache@.contains(c) {
                let j = choose|j: int|
                    0 <= j < blocked_tiles.len() && #[trigger] blocked_tiles[j].spec_key()
                        == c.spec_key();
                WorldGridCoords::lemma_key_injective(blocked_tiles[j], c);
                assert(blocked_tiles@.contains(c));
            }
            if blocked_tiles@.to_set().contains(c) {
                let j = choose|j: int| 0 <= j < blocked_tiles.len() && blocked_tiles@[j] == c;
                assert(blocked_tiles[j].spec_key() == c.spec_key());
            }
        }
    }
    *blocked_tiles_cache = new_blocked_tiles_cache;
}

/// Rebuilding after one more blocking entity appeared blocks its tile and
/// changes the answer for no other tile.
pub proof fn lemma_rebuild_after_add(blocked_tiles: Seq<WorldGridCoords>, added: WorldGridCoords)
    ensures
        blocked_tiles.push(added).to_set() == blocked_tiles.to_set().insert(added),
{
    let a = blocked_tiles.push(added).to_set();
    let b = blocked_tiles.to_set().insert(added);
    assert forall|c: WorldGridCoords| a.contains(c) <==> b.contains(c) by {
        if a.contains(c) {
            let j = choose|j: int|
                0 <= j < blocked_tiles.push(added).len() && blocked_tiles.push(added)[j] == c;
            if j < blocked_tiles.len() {
                assert(blocked_tiles[j] == c);
            }
        }
        if b.contains(c) {
            if c == added {
                assert(blocked_tiles.push(added)[blocked_tiles.len() as int] == c);
            } else {
                let j = choose|j: int| 0 <= j < blocked_tiles.len() && blocked_tiles[j] == c;
                assert(blocked_tiles.push(added)[j] == c);
            }
        }
    }
    assert(a =~= b);
}

/// Rebuilding after the blocking entity at `index` went away changes the
/// answer for no tile but its own, and unblocks its own tile exactly when no
/// other blocking entity stands on it.
pub proof fn lemma_rebuild_after_remove(blocked_tiles: Seq<WorldGridCoords>, index: int)
    requires
        0 <= index < blocked_tiles.len(),
    ensures
        forall|c: WorldGridCoords|
            c != blocked_tiles[index] ==> (#[trigger] blocked_tiles.remove(index).to_set().contains(
                c,
            ) <==> blocked_tiles.to_set().contains(c)),
        blocked_tiles.remove(index).to_set().contains(blocked_tiles[index]) <==> exists|j: int|
            0 <= j < blocked_tiles.len() && j != index && blocked_tiles[j] == blocked_tiles[index],
{
    let rest = blocked_tiles.remove(index);
    assert forall|c: WorldGridCoords| c != blocked_tiles[index] implies (
    #[trigger] rest.to_set().contains(c) <==> blocked_tiles.to_set().contains(c)) by {
        if rest.to_set().contains(c) {
            let j = choose|j: int| 0 <= j < rest.len() && rest[j] == c;
            if j < index {
                assert(blocked_tiles[j] == c);
            } else {
                assert(blocked_tiles[j + 1] == c);
            }
        }
        if blocked_tiles.to_set().contains(c) {
            let j = choose|j: int| 0 <= j < blocked_tiles.len() && blocked_tiles[j] == c;
            if j < index {
                assert(rest[j] == c);
            } else {
                assert(rest[j - 1] == c);
            }
        }
    }
    let own = blocked_tiles[index];
    if rest.to_set().contains(own) {
        let j = choose|j: int| 0 <= j < rest.len() && rest[j] == own;
        if j < index {
            assert(blocked_tiles[j] == own && j != index);
        } else {
            assert(blocked_tiles[j + 1] == own && j + 1 != index);
        }
    }
    if exists|j: int| 0 <= j < blocked_tiles.len() && j != index && blocked_tiles[j] == own {
        let j = choose|j: int| 0 <= j < blocked_tiles.len() && j != index && blocked_tiles[j] == own;
        if j < index {
            assert(rest[j] == own);
        } else {
            assert(rest[j - 1] == own);
        }
    }
}

} // verus!
