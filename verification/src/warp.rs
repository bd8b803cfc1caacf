use crate::character::TileMovedEvent;
use crate::collision::spec_resolve;
use crate::collision::WorldGridCoords;
use crate::json::json_as_str;
use crate::json::json_get;
use crate::json::json_member;
use crate::json::json_string;
use crate::level_data::contains_iid;
use crate::level_data::iids_of;
use crate::level_data::GridCoords;
use crate::level_data::IVec2;
use crate::level_data::same_iid;
use crate::level_data::Level;
use crate::level_data::TocEntry;
use crate::level_data::TocInstance;
use crate::level_loading::tile_aligned;
use crate::timer::fresh_timer;
use crate::timer::once_timer;
use crate::timer::tick_timer;
use crate::timer::ticked;
use crate::timer::timer_duration_nanos;
use crate::timer::timer_elapsed_nanos;
use crate::timer::timer_state;
use crate::timer::TimerState;
use crate::util::floor_div;
use crate::util::TILE_GRID_SIZE;
use bevy::time::Timer;
use serde_json::Value;
use std::collections::HashMap;
use vstd::hash_map::StringHashMap;
use vstd::prelude::*;

verus! {

/// Where a warp tile leads: the level to go to and the marker entity in it
/// that fixes the arrival tile.
#[derive(Debug, PartialEq, Eq)]
pub struct WarpTarget {
    pub level_iid: String,
    pub entity_iid: String,
}

impl Clone for WarpTarget {
    fn clone(&self) -> (target: Self)
        ensures
            target@ == self@,
    {
        WarpTarget { level_iid: self.level_iid.clone(), entity_iid: self.entity_iid.clone() }
    }
}

/// A warp target as the texts of its two identifiers.
pub struct WarpTargetView {
    pub level_iid: Seq<char>,
    pub entity_iid: Seq<char>,
}

impl View for WarpTarget {
    type V = WarpTargetView;

    open spec fn view(&self) -> WarpTargetView {
        WarpTargetView { level_iid: self.level_iid@, entity_iid: self.entity_iid@ }
    }
}

/// The target that the two identifier texts of a reference make up. Both are
/// needed; with either missing there is no target.
pub open spec fn spec_warp_target_of(
    entity_iid: Option<Seq<char>>,
    level_iid: Option<Seq<char>>,
) -> Option<WarpTargetView> {
    match (entity_iid, level_iid) {
        (Some(entity_iid), Some(level_iid)) => Some(WarpTargetView { level_iid, entity_iid }),
        _ => None,
    }
}

/// Makes a warp target of the two identifiers read from a warp's reference
/// field, if both were there.
pub fn warp_target_of(entity_iid: Option<String>, level_iid: Option<String>) -> (target: Option<
    WarpTarget,
>)
    ensures
        match target {
            Some(t) => spec_warp_target_of(
                match entity_iid {
                    Some(s) => Some(s@),
                    None => None,
                },
                match level_iid {
                    Some(s) => Some(s@),
                    None => None,
                },
            ) == Some(t@),
            None => entity_iid is None || level_iid is None,
        },
{
    match (entity_iid, level_iid) {
        (Some(entity_iid), Some(level_iid)) => Some(WarpTarget { level_iid, entity_iid }),
        _ => None,
    }
}

/// The text of the string member `key` of the JSON value `v`, if `v` is an
/// object with such a member and the member is a string.
pub open spec fn spec_member_string(v: Value, key: Seq<char>) -> Option<Seq<char>> {
    match json_member(v, key) {
        Some(m) => json_string(m),
        None => None,
    }
}

/// The warp target that a table-of-contents instance names in its exported
/// fields: the `entityIid` and `levelIid` strings of its `Target` member.
pub open spec fn instance_target(instance: TocInstance) -> Option<WarpTargetView> {
    match instance.fields {
        Some(fields) => match json_member(fields, "Target"@) {
            Some(target) => spec_warp_target_of(
                spec_member_string(target, "entityIid"@),
                spec_member_string(target, "levelIid"@),
            ),
            None => None,
        },
        None => None,
    }
}

/// The depth of the level named `level_iid`: that of the last such level in
/// `levels`, and 0 where no level carries the name.
pub open spec fn instance_depth(levels: Seq<Level>, level_iid: Seq<char>) -> i32
    decreases levels.len(),
{
    if levels.len() == 0 {
        0
    } else if levels.last().iid@ == level_iid {
        levels.last().world_depth
    } else {
        instance_depth(levels.drop_last(), level_iid)
    }
}

/// The world tile under the middle of a table-of-contents instance: the tile
/// of the world grid that holds the pixel half the instance's width and half
/// its height from its corner. The instance's pixel position is given with Y
/// growing downward, the grid has it growing upward; every division rounds
/// down, as the grid's own divisions do.
#[verifier::opaque]
pub open spec fn instance_coords(levels: Seq<Level>, instance: TocInstance) -> WorldGridCoords {
    WorldGridCoords {
        x: ((instance.world_x + instance.wid_px as int / 2) / 16) as i32,
        y: ((-(instance.world_y + instance.hei_px as int / 2)) / 16) as i32,
        z: instance_depth(levels, instance.iids.level_iid@),
    }
}

/// The depth found for a level's identifier is the level's own, where no
/// later level of the world carries the same identifier.
pub proof fn lemma_instance_depth_of_level(levels: Seq<Level>, index: int)
    requires
        0 <= index < levels.len(),
        forall|j: int| index < j < levels.len() ==> (#[trigger] levels[j]).iid@ != levels[index].iid@,
    ensures
        instance_depth(levels, levels[index].iid@) == levels[index].world_depth,
    decreases levels.len(),
{
    if index < levels.len() - 1 {
        let rest = levels.drop_last();
        assert(levels.last() == levels[levels.len() - 1]);
        assert(rest[index] == levels[index]);
        assert forall|j: int| index < j < rest.len() implies (#[trigger] rest[j]).iid@
            != rest[index].iid@ by {
            assert(rest[j] == levels[j]);
        }
        lemma_instance_depth_of_level(rest, index);
    }
}

/// The table of contents and the levels agree on where a tile is: an
/// instance of one tile's size that fills the local tile `local` of a level
/// on the tile grid, and lies on that level's layer, stands on the world
/// tile that `local` resolves to. The instance's corner is its upper left
/// pixel, counted downward from the level's upper edge.
pub proof fn lemma_instance_on_resolved_tile(
    levels: Seq<Level>,
    level: Level,
    instance: TocInstance,
    local: GridCoords,
)
    requires
        tile_aligned(level),
        instance_depth(levels, instance.iids.level_iid@) == level.world_depth,
        instance.wid_px == 16,
        instance.hei_px == 16,
        instance.world_x == level.world_x + 16 * local.x,
        instance.world_y == level.world_y + level.px_hei - 16 * (local.y + 1),
    ensures
        spec_resolve(local, level) == Some(instance_coords(levels, instance)),
{
    reveal(instance_coords);
}

/// The warp tiles after the warps among `instances` were entered in order:
/// each one that names a target claims the tile it stands on.
pub open spec fn tiles_with_instances(
    tiles: Map<WorldGridCoords, WarpTargetView>,
    levels: Seq<Level>,
    instances: Seq<TocInstance>,
) -> Map<WorldGridCoords, WarpTargetView>
    decreases instances.len(),
{
    if instances.len() == 0 {
        tiles
    } else {
        let before = tiles_with_instances(tiles, levels, instances.drop_last());
        match instance_target(instances.last()) {
            Some(target) => before.insert(instance_coords(levels, instances.last()), target),
            None => before,
        }
    }
}

/// The warp tiles after every `Warp` entry of the table of contents was
/// entered in order.
pub open spec fn tiles_with_entries(
    tiles: Map<WorldGridCoords, WarpTargetView>,
    levels: Seq<Level>,
    toc: Seq<TocEntry>,
) -> Map<WorldGridCoords, WarpTargetView>
    decreases toc.len(),
{
    if toc.len() == 0 {
        tiles
    } else {
        let before = tiles_with_entries(tiles, levels, toc.drop_last());
        if toc.last().identifier@ == "Warp"@ {
            tiles_with_instances(before, levels, toc.last().instances_data@)
        } else {
            before
        }
    }
}

/// The arrival tiles after the warp targets among `instances` were entered in
/// order, each under its own entity identifier.
pub open spec fn targets_with_instances(
    targets: Map<Seq<char>, WorldGridCoords>,
    levels: Seq<Level>,
    instances: Seq<TocInstance>,
) -> Map<Seq<char>, WorldGridCoords>
    decreases instances.len(),
{
    if instances.len() == 0 {
        targets
    } else {
        targets_with_instances(targets, levels, instances.drop_last()).insert(
            instances.last().iids.entity_iid@,
            instance_coords(levels, instances.last()),
        )
    }
}

/// The arrival tiles after every `WarpTarget` entry of the table of contents
/// was entered in order.
pub open spec fn targets_with_entries(
    targets: Map<Seq<char>, WorldGridCoords>,
    levels: Seq<Level>,
    toc: Seq<TocEntry>,
) -> Map<Seq<char>, WorldGridCoords>
    decreases toc.len(),
{
    if toc.len() == 0 {
        targets
    } else {
        let before = targets_with_entries(targets, levels, toc.drop_last());
        if toc.last().identifier@ == "WarpTarget"@ {
            targets_with_instances(before, levels, toc.last().instances_data@)
        } else {
            before
        }
    }
}

/// Whether the instance is a warp that stands on the tile `coords` and names
/// a target.
pub open spec fn warps_from(
    levels: Seq<Level>,
    instance: TocInstance,
    coords: WorldGridCoords,
) -> bool {
    instance_coords(levels, instance) == coords && instance_target(instance) is Some
}

/// Entering a run of warps of which none stands on a tile and names a
/// target leaves that tile as it was: it leads where it led before, or
/// nowhere.
pub proof fn lemma_warp_tile_untouched(
    tiles: Map<WorldGridCoords, WarpTargetView>,
    levels: Seq<Level>,
    instances: Seq<TocInstance>,
    coords: WorldGridCoords,
)
    requires
        forall|i: int| 0 <= i < instances.len() ==> !warps_from(levels, #[trigger] instances[i], coords),
    ensures
        tiles_with_instances(tiles, levels, instances).contains_key(coords) == tiles.contains_key(
            coords,
        ),
        tiles.contains_key(coords) ==> tiles_with_instances(tiles, levels, instances)[coords]
            == tiles[coords],
    decreases instances.len(),
{
    if instances.len() > 0 {
        let rest = instances.drop_last();
        assert forall|i: int| 0 <= i < rest.len() implies !warps_from(
            levels,
            #[trigger] rest[i],
            coords,
        ) by {
            assert(rest[i] == instances[i]);
        }
        lemma_warp_tile_untouched(tiles, levels, rest, coords);
        assert(!warps_from(levels, instances[instances.len() - 1], coords));
    }
}

/// Of the warps of a run that stand on a tile and name a target, the last
/// decides where the tile leads.
pub proof fn lemma_last_warp_decides(
    tiles: Map<WorldGridCoords, WarpTargetView>,
    levels: Seq<Level>,
    instances: Seq<TocInstance>,
    coords: WorldGridCoords,
    last: int,
)
    requires
        0 <= last < instances.len(),
        warps_from(levels, instances[last], coords),
        forall|j: int| last < j < instances.len() ==> !warps_from(levels, #[trigger] instances[j], coords),
    ensures
        tiles_with_instances(tiles, levels, instances).contains_key(coords),
        tiles_with_instances(tiles, levels, instances)[coords] == instance_target(
            instances[last],
        ).unwrap(),
    decreases instances.len(),
{
    if last < instances.len() - 1 {
        let rest = instances.drop_last();
        assert(rest[last] == instances[last]);
        assert forall|j: int| last < j < rest.len() implies !warps_from(
            levels,
            #[trigger] rest[j],
            coords,
        ) by {
            assert(rest[j] == instances[j]);
        }
        lemma_last_warp_decides(tiles, levels, rest, coords, last);
        assert(!warps_from(levels, instances[instances.len() - 1], coords));
    }
}

/// Entering a run of warp targets of which none carries an identifier leaves
/// the record of that identifier as it was.
pub proof fn lemma_warp_target_untouched(
    targets: Map<Seq<char>, WorldGridCoords>,
    levels: Seq<Level>,
    instances: Seq<TocInstance>,
    entity_iid: Seq<char>,
)
    requires
        forall|i: int|
            0 <= i < instances.len() ==> (#[trigger] instances[i]).iids.entity_iid@ != entity_iid,
    ensures
        targets_with_instances(targets, levels, instances).contains_key(entity_iid)
            == targets.contains_key(entity_iid),
        targets.contains_key(entity_iid) ==> targets_with_instances(
            targets,
            levels,
            instances,
        )[entity_iid] == targets[entity_iid],
    decreases instances.len(),
{
    if instances.len() > 0 {
        let rest = instances.drop_last();
        assert forall|i: int| 0 <= i < rest.len() implies (#[trigger] rest[i]).iids.entity_iid@
            != entity_iid by {
            assert(rest[i] == instances[i]);
        }
        lemma_warp_target_untouched(targets, levels, rest, entity_iid);
        assert(instances[instances.len() - 1].iids.entity_iid@ != entity_iid);
    }
}

/// Of the warp targets of a run that carry an identifier, the last decides
/// where the tile of that identifier is.
pub proof fn lemma_last_warp_target_decides(
    targets: Map<Seq<char>, WorldGridCoords>,
    levels: Seq<Level>,
    instances: Seq<TocInstance>,
    last: int,
)
    requires
        0 <= last < instances.len(),
        forall|j: int|
            last < j < instances.len() ==> (#[trigger] instances[j]).iids.entity_iid@
                != instances[last].iids.entity_iid@,
    ensures
        targets_with_instances(targets, levels, instances).contains_key(
            instances[last].iids.entity_iid@,
        ),
        targets_with_instances(targets, levels, instances)[instances[last].iids.entity_iid@]
            == instance_coords(levels, instances[last]),
    decreases instances.len(),
{
    if last < instances.len() - 1 {
        let rest = instances.drop_last();
        assert(rest[last] == instances[last]);
        assert forall|j: int| last < j < rest.len() implies (#[trigger] rest[j]).iids.entity_iid@
            != rest[last].iids.entity_iid@ by {
            assert(rest[j] == instances[j]);
        }
        lemma_last_warp_target_decides(targets, levels, rest, last);
        assert(instances[instances.len() - 1].iids.entity_iid@ != instances[last].iids.entity_iid@);
    }
}

/// Every warp tile and every arrival tile of the whole world, known before
/// any level is streamed in.
pub struct WarpCache {
    warp_tiles: HashMap<u128, WarpTarget>,
    warp_targets: StringHashMap<WorldGridCoords>,
}

impl Default for WarpCache {
    fn default() -> (cache: Self)
        ensures
            cache.tiles() == Map::<WorldGridCoords, WarpTargetView>::empty(),
            cache.targets() == Map::<Seq<char>, WorldGridCoords>::empty(),
    {
        let cache = WarpCache { warp_tiles: HashMap::new(), warp_targets: StringHashMap::new() };
        assert(cache.tiles() =~= Map::<WorldGridCoords, WarpTargetView>::empty());
        cache
    }
}

impl WarpCache {
    /// The warp tiles: which tile leads where.
    pub closed spec fn tiles(&self) -> Map<WorldGridCoords, WarpTargetView> {
        Map::new(
            |c: WorldGridCoords| self.warp_tiles@.contains_key(c.spec_key()),
            |c: WorldGridCoords| self.warp_tiles@[c.spec_key()]@,
        )
    }

    /// The arrival tiles: where the marker entity of each identifier stands.
    pub closed spec fn targets(&self) -> Map<Seq<char>, WorldGridCoords> {
        self.warp_targets@
    }

    /// The target of the warp tile at `coords`, if there is a warp tile.
    pub fn warp_at(&self, coords: &WorldGridCoords) -> (target: Option<&WarpTarget>)
        ensures
            match target {
                Some(t) => self.tiles().contains_key(*coords) && self.tiles()[*coords] == t@,
                None => !self.tiles().contains_key(*coords),
            },
    {
        let k = coords.key();
        self.warp_tiles.get(&k)
    }

    /// The tile on which the warp target entity `entity_iid` stands, if the
    /// world has such an entity.
    pub fn target_coords(&self, entity_iid: &String) -> (coords: Option<WorldGridCoords>)
        ensures
            match coords {
                Some(c) => self.targets().contains_key(entity_iid@) && self.targets()[entity_iid@]
                    == c,
                None => !self.targets().contains_key(entity_iid@),
            },
    {
        match self.warp_targets.get(entity_iid.as_str()) {
            Some(c) => Some(*c),
            None => None,
        }
    }

    /// Makes the tile at `coords` a warp tile that leads to `target`, in place
    /// of whatever the tile led to before.
    pub fn insert_tile(&mut self, coords: WorldGridCoords, target: WarpTarget)
        ensures
            final(self).tiles() == old(self).tiles().insert(coords, target@),
            final(self).targets() == old(self).targets(),
    {
        let k = coords.key();
        self.warp_tiles.insert(k, target);
        proof {
            assert forall|c: WorldGridCoords| c.spec_key() == coords.spec_key() implies c
                == coords by {
                WorldGridCoords::lemma_key_injective(c, coords);
            }
            assert(self.tiles() =~= old(self).tiles().insert(coords, target@));
        }
    }

    /// Records that the warp target entity `entity_iid` stands at `coords`,
    /// in place of whatever was recorded for it before.
    pub fn insert_target(&mut self, entity_iid: String, coords: WorldGridCoords)
        ensures
            final(self).targets() == old(self).targets().insert(entity_iid@, coords),
            final(self).tiles() == old(self).tiles(),
    {
        self.warp_targets.insert(entity_iid, coords);
    }
}

/// Reads the string member `key` of a JSON value.
fn member_string(v: &Value, key: &str) -> (text: Option<String>)
    ensures
        match text {
            Some(s) => spec_member_string(*v, key@) == Some(s@),
            None => spec_member_string(*v, key@) is None,
        },
{
    match json_get(v, key) {
        Some(m) => match json_as_str(m) {
            Some(s) => Some(s.to_owned()),
            None => None,
        },
        None => None,
    }
}

/// Reads the warp target that an instance names in its exported fields.
fn instance_warp_target(instance: &TocInstance) -> (target: Option<WarpTarget>)
    ensures
        match target {
            Some(t) => instance_target(*instance) == Some(t@),
            None => instance_target(*instance) is None,
        },
{
    match &instance.fields {
        Some(fields) => match json_get(fields, "Target") {
            Some(target) => {
                let entity_iid = member_string(target, "entityIid");
                let level_iid = member_string(target, "levelIid");
                warp_target_of(entity_iid, level_iid)
            },
            None => None,
        },
        None => None,
    }
}

/// Finds the world tile under the middle of an instance.
fn instance_world_grid_coords(levels: &Vec<Level>, instance: &TocInstance) -> (coords:
    WorldGridCoords)
    ensures
        coords == instance_coords(levels@, *instance),
{
    let mut z: i32 = 0;
    let mut i: usize = 0;
    while i < levels.len()
        invariant
            i <= levels.len(),
            z == instance_depth(levels@.take(i as int), instance.iids.level_iid@),
        decreases levels.len() - i,
    {
        proof {
            assert(levels@.take(i + 1).drop_last() =~= levels@.take(i as int));
        }
        if same_iid(&levels[i].iid, &instance.iids.level_iid) {
            z = levels[i].world_depth;
        }
        i += 1;
    }
    proof {
        assert(levels@.take(i as int) =~= levels@);
    }
    proof {
        reveal(instance_coords);
    }
    let half_wid: i64 = floor_div(instance.wid_px as i64, 2);
    let half_hei: i64 = floor_div(instance.hei_px as i64, 2);
    let x: i64 = floor_div(instance.world_x as i64 + half_wid, TILE_GRID_SIZE as i64);
    let y: i64 = floor_div(0 - (instance.world_y as i64 + half_hei), TILE_GRID_SIZE as i64);
    WorldGridCoords { x: x as i32, y: y as i32, z }
}

/// Enters every warp tile and every arrival tile that the world's table of
/// contents lists into the cache, in the order of the table. What the cache
/// held before stays unless an entry of the table replaces it.
pub fn build_warp_cache(warp_cache: &mut WarpCache, levels: &Vec<Level>, toc: &Vec<TocEntry>)
    ensures
        final(warp_cache).tiles() == tiles_with_entries(old(warp_cache).tiles(), levels@, toc@),
        final(warp_cache).targets() == targets_with_entries(
            old(warp_cache).targets(),
            levels@,
            toc@,
        ),
{
    let warp = "Warp".to_owned();
    let warp_target = "WarpTarget".to_owned();
    let mut e: usize = 0;
    while e < toc.len()
        invariant
            e <= toc.len(),
            warp@ == "Warp"@,
            warp_target@ == "WarpTarget"@,
            warp_cache.tiles() == tiles_with_entries(
                old(warp_cache).tiles(),
                levels@,
                toc@.take(e as int),
            ),
            warp_cache.targets() == targets_with_entries(
                old(warp_cache).targets(),
                levels@,
                toc@.take(e as int),
            ),
        decreases toc.len() - e,
    {
        let entry = &toc[e];
        let ghost tiles_before = warp_cache.tiles();
        let ghost targets_before = warp_cache.targets();
        proof {
            assert(toc@.take(e + 1).drop_last() =~= toc@.take(e as int));
            assert(toc@.take(e + 1).last() == toc@[e as int]);
        }
        if same_iid(&entry.identifier, &warp) {
            let mut i: usize = 0;
            while i < entry.instances_data.len()
                invariant
                    i <= entry.instances_data.len(),
                    warp_cache.tiles() == tiles_with_instances(
                        tiles_before,
                        levels@,
                        entry.instances_data@.take(i as int),
                    ),
                    warp_cache.targets() == targets_before,
                decreases entry.instances_data.len() - i,
            {
                let instance = &entry.instances_data[i];
                proof {
                    assert(entry.instances_data@.take(i + 1).drop_last()
                        =~= entry.instances_data@.take(i as int));
                }
                let world_grid_coords = instance_world_grid_coords(levels, instance);
                match instance_warp_target(instance) {
                    Some(target) => {
                        warp_cache.insert_tile(world_grid_coords, target);
                    },
                    None => {},
                }
                i += 1;
            }
            proof {
                assert(entry.instances_data@.take(i as int) =~= entry.instances_data@);
            }
        }
        let ghost tiles_between = warp_cache.tiles();
        if same_iid(&entry.identifier, &warp_target) {
            let mut i: usize = 0;
            while i < entry.instances_data.len()
                invariant
                    i <= entry.instances_data.len(),
                    warp_cache.targets() == targets_with_instances(
                        targets_before,
                        levels@,
                        entry.instances_data@.take(i as int),
                    ),
                    warp_cache.tiles() == tiles_between,
                decreases entry.instances_data.len() - i,
            {
                let instance = &entry.instances_data[i];
                proof {
                    assert(entry.instances_data@.take(i + 1).drop_last()
                        =~= entry.instances_data@.take(i as int));
                }
                let world_grid_coords = instance_world_grid_coords(levels, instance);
                warp_cache.insert_target(instance.iids.entity_iid.clone(), world_grid_coords);
                i += 1;
            }
            proof {
                assert(entry.instances_data@.take(i as int) =~= entry.instances_data@);
            }
        }
        e += 1;
    }
    proof {
        assert(toc@.take(e as int) =~= toc@);
    }
}

/// How long the screen fades out before a warp relocates, in nanoseconds.
pub const WARP_FADE_OUT_TIME_NANOS: u64 = 500_000_000;

/// The darkest the screen gets: the number of steps in which it fades.
pub const DARKNESS_STEPS: i32 = 4;

/// A warp under way: where it leads and the timer of its fade-out. While an
/// entity has one it cannot be moved and cannot start another warp.
pub struct WarpPending {
    target: WarpTarget,
    fade_out_timer: Timer,
}

/// A warp under way as plain values.
pub struct WarpPendingView {
    pub target: WarpTargetView,
    pub fade_out_timer: TimerState,
}

/// Where an entity is in the course of a warp.
#[derive(Clone, Copy, Debug, PartialEq, Eq, Structural)]
pub enum WarpState {
    /// No warp is under way.
    Unwarped,
    /// The screen darkens; the entity is still where the warp began.
    FadingOut,
    /// The fade is over and the entity relocated; the level it went to has
    /// yet to be seen loaded.
    AwaitingLevelLoad,
}

impl WarpPendingView {
    /// What holds of every warp under way: its timer is a running one-shot
    /// timer of the fade's length that has not counted past its end, and
    /// that is short of its end until it has finished.
    pub open spec fn wf(self) -> bool {
        &&& !self.fade_out_timer.repeating
        &&& !self.fade_out_timer.paused
        &&& self.fade_out_timer.duration == WARP_FADE_OUT_TIME_NANOS
        &&& self.fade_out_timer.elapsed <= self.fade_out_timer.duration
        &&& !self.fade_out_timer.finished ==> self.fade_out_timer.elapsed
            < self.fade_out_timer.duration
        &&& self.fade_out_timer.just_finished ==> self.fade_out_timer.finished
    }
}

impl View for WarpPending {
    type V = WarpPendingView;

    closed spec fn view(&self) -> WarpPendingView {
        WarpPendingView { target: self.target@, fade_out_timer: timer_state(self.fade_out_timer) }
    }
}

/// An entity's warp as plain values: none, or the one under way.
pub open spec fn pending_view(warp_pending: Option<WarpPending>) -> Option<WarpPendingView> {
    match warp_pending {
        Some(pending) => Some(pending@),
        None => None,
    }
}

/// Whether the warp under way, if there is one, is well formed.
pub open spec fn pending_wf(warp_pending: Option<WarpPendingView>) -> bool {
    warp_pending matches Some(pending) ==> pending.wf()
}

/// Where an entity with the given warp is in the course of warping.
pub open spec fn warp_state(warp_pending: Option<WarpPendingView>) -> WarpState {
    match warp_pending {
        None => WarpState::Unwarped,
        Some(pending) => if pending.fade_out_timer.finished {
            WarpState::AwaitingLevelLoad
        } else {
            WarpState::FadingOut
        },
    }
}

/// The warp of an entity after it arrived on the tile `coords`. An entity
/// that is warping already goes on as it was. Any other starts to fade out
/// if the tile is a warp tile, towards that tile's target.
pub open spec fn spec_warp_player(
    tiles: Map<WorldGridCoords, WarpTargetView>,
    coords: WorldGridCoords,
    warp_pending: Option<WarpPendingView>,
) -> Option<WarpPendingView> {
    match warp_pending {
        Some(pending) => Some(pending),
        None => if tiles.contains_key(coords) {
            Some(
                WarpPendingView {
                    target: tiles[coords],
                    fade_out_timer: fresh_timer(WARP_FADE_OUT_TIME_NANOS as nat),
                },
            )
        } else {
            None
        },
    }
}

/// The tile that a notice of arrival tells of, on the layer of the entity
/// that arrived.
pub open spec fn arrival_tile(pos: IVec2, layer: i32) -> WorldGridCoords {
    WorldGridCoords { x: pos.x, y: pos.y, z: layer }
}

/// Reacts to the notice that the player has arrived on a tile: begins a warp
/// if that is a warp tile and none is under way. The tile is the one that
/// the notice names, on the layer of `world_grid_coords`; by the time of the
/// notice the player may have set out from it again.
pub fn warp_player(
    warp_cache: &WarpCache,
    tile_moved_event: &TileMovedEvent,
    world_grid_coords: &WorldGridCoords,
    warp_pending: &mut Option<WarpPending>,
)
    requires
        pending_wf(pending_view(*old(warp_pending))),
    ensures
        pending_wf(pending_view(*final(warp_pending))),
        pending_view(*final(warp_pending)) == spec_warp_player(
            warp_cache.tiles(),
            arrival_tile(tile_moved_event.pos, world_grid_coords.z),
            pending_view(*old(warp_pending)),
        ),
{
    if warp_pending.is_some() {
        return ;
    }
    let arrived_on = WorldGridCoords {
        x: tile_moved_event.pos.x,
        y: tile_moved_event.pos.y,
        z: world_grid_coords.z,
    };
    match warp_cache.warp_at(&arrived_on) {
        Some(warp_target) => {
            *warp_pending = Some(
                WarpPending {
                    target: warp_target.clone(),
                    fade_out_timer: once_timer(WARP_FADE_OUT_TIME_NANOS),
                },
            );
        },
        None => {},
    }
}

/// What became of the relocation that a warp owes at the end of its fade.
#[derive(Clone, Copy, Debug, PartialEq, Eq, Structural)]
pub enum Relocation {
    /// This tick did not end a fade.
    NotDue,
    /// The entity now stands on the tile of its warp target.
    Moved,
    /// The world has no warp target of the wanted identifier; the entity
    /// stays where it is and its warp is over.
    TargetMissing,
}

/// What a tick of a warp asks of its surroundings.
#[derive(Clone, Copy, Debug, PartialEq, Eq, Structural)]
pub struct WarpFade {
    /// The darkness to show from now on, where the tick changes it.
    pub darkness: Option<i32>,
    /// Whether the tick relocated the entity.
    pub relocation: Relocation,
}

/// How dark the screen is when `elapsed` of a fade of length `duration` has
/// passed: the passed fraction of the fade in whole steps.
pub open spec fn spec_darkness(elapsed: nat, duration: nat) -> int {
    if duration == 0 {
        DARKNESS_STEPS as int
    } else {
        DARKNESS_STEPS * elapsed / duration as int
    }
}

/// What one tick of the warp system leaves behind.
pub struct WarpTick {
    /// Where the entity is.
    pub coords: WorldGridCoords,
    /// The entity's warp.
    pub warp_pending: Option<WarpPendingView>,
    /// What the surroundings are asked to do.
    pub fade: WarpFade,
}

/// One tick of the warp system for one entity. Without a warp under way
/// nothing happens. With one, its timer counts `delta` on. While the fade
/// lasts the darkness follows the timer. On the tick that ends the fade the
/// entity is put on the tile of its target, if the world has that target.
/// A warp whose target the world lacks has nothing to wait for: it is over
/// as soon as its fade is, the entity stays where it is and the darkness is
/// lifted. A warp that has relocated waits until the level it leads to is
/// loaded; on the tick that sees it loaded the warp is over and the darkness
/// is lifted.
pub open spec fn spec_warp_fade_out(
    delta: nat,
    targets: Map<Seq<char>, WorldGridCoords>,
    coords: WorldGridCoords,
    warp_pending: Option<WarpPendingView>,
    loaded_levels: Set<Seq<char>>,
) -> WarpTick {
    match warp_pending {
        None => WarpTick {
            coords,
            warp_pending: None,
            fade: WarpFade { darkness: None, relocation: Relocation::NotDue },
        },
        Some(pending) => {
            let timer = ticked(pending.fade_out_timer, delta);
            let relocation = if !timer.just_finished {
                Relocation::NotDue
            } else if targets.contains_key(pending.target.entity_iid) {
                Relocation::Moved
            } else {
                Relocation::TargetMissing
            };
            let coords = if relocation == Relocation::Moved {
                targets[pending.target.entity_iid]
            } else {
                coords
            };
            if !timer.finished {
                WarpTick {
                    coords,
                    warp_pending: Some(WarpPendingView { fade_out_timer: timer, ..pending }),
                    fade: WarpFade {
                        darkness: Some(spec_darkness(timer.elapsed, timer.duration) as i32),
                        relocation,
                    },
                }
            } else if !targets.contains_key(pending.target.entity_iid) || loaded_levels.contains(
                pending.target.level_iid,
            ) {
                WarpTick {
                    coords,
                    warp_pending: None,
                    fade: WarpFade { darkness: Some(0), relocation },
                }
            } else {
                WarpTick {
                    coords,
                    warp_pending: Some(WarpPendingView { fade_out_timer: timer, ..pending }),
                    fade: WarpFade { darkness: None, relocation },
                }
            }
        },
    }
}

impl WarpPending {
    /// Where the warp leads.
    pub fn target(&self) -> (target: &WarpTarget)
        ensures
            target@ == self@.target,
    {
        &self.target
    }

    /// How much of the fade has passed, in nanoseconds.
    pub fn fade_elapsed_nanos(&self) -> (elapsed: u64)
        requires
            self@.wf(),
        ensures
            elapsed == self@.fade_out_timer.elapsed,
    {
        timer_elapsed_nanos(&self.fade_out_timer) as u64
    }

    /// Whether the fade is over.
    pub fn faded_out(&self) -> (finished: bool)
        ensures
            finished == self@.fade_out_timer.finished,
    {
        self.fade_out_timer.finished()
    }
}

/// Tells where an entity is in the course of a warp.
pub fn current_warp_state(warp_pending: &Option<WarpPending>) -> (state: WarpState)
    ensures
        state == warp_state(pending_view(*warp_pending)),
{
    match warp_pending {
        None => WarpState::Unwarped,
        Some(pending) => if pending.faded_out() {
            WarpState::AwaitingLevelLoad
        } else {
            WarpState::FadingOut
        },
    }
}

/// Runs the warp system for the player over one tick of `delta_nanos`
/// nanoseconds. `loaded_levels` names the levels that are loaded now.
pub fn warp_fade_out(
    delta_nanos: u64,
    warp_cache: &WarpCache,
    world_grid_coords: &mut WorldGridCoords,
    warp_pending: &mut Option<WarpPending>,
    loaded_levels: &Vec<String>,
) -> (fade: WarpFade)
    requires
        pending_wf(pending_view(*old(warp_pending))),
    ensures
        pending_wf(pending_view(*final(warp_pending))),
        *final(world_grid_coords) == spec_warp_fade_out(
            delta_nanos as nat,
            warp_cache.targets(),
            *old(world_grid_coords),
            pending_view(*old(warp_pending)),
            iids_of(loaded_levels@),
        ).coords,
        pending_view(*final(warp_pending)) == spec_warp_fade_out(
            delta_nanos as nat,
            warp_cache.targets(),
            *old(world_grid_coords),
            pending_view(*old(warp_pending)),
            iids_of(loaded_levels@),
        ).warp_pending,
        fade == spec_warp_fade_out(
            delta_nanos as nat,
            warp_cache.targets(),
            *old(world_grid_coords),
            pending_view(*old(warp_pending)),
            iids_of(loaded_levels@),
        ).fade,
{
    let mut relocation = Relocation::NotDue;
    let mut darkness: Option<i32> = None;
    let mut arrived = false;
    match warp_pending {
        None => {},
        Some(warp_locked) => {
            tick_timer(&mut warp_locked.fade_out_timer, delta_nanos);
            let target_grid_coord = warp_cache.target_coords(&warp_locked.target.entity_iid);
            if warp_locked.fade_out_timer.just_finished() {
                match target_grid_coord {
                    Some(target_grid_coord) => {
                        world_grid_coords.x = target_grid_coord.x;
                        world_grid_coords.y = target_grid_coord.y;
                        world_grid_coords.z = target_grid_coord.z;
                        relocation = Relocation::Moved;
                    },
                    None => {
                        relocation = Relocation::TargetMissing;
                    },
                }
            }
            if !warp_locked.fade_out_timer.finished() {
                let elapsed: u128 = timer_elapsed_nanos(&warp_locked.fade_out_timer);
                let duration: u128 = timer_duration_nanos(&warp_locked.fade_out_timer);
                let steps: u128 = 4 * elapsed / duration;
                assert(steps <= 4) by (nonlinear_arith)
                    requires
                        steps == (4 * elapsed) as int / duration as int,
                        elapsed <= duration,
                        duration > 0,
                {
                }
                darkness = Some(steps as i32);
            } else if target_grid_coord.is_none() || contains_iid(
                loaded_levels,
                &warp_locked.target.level_iid,
            ) {
                darkness = Some(0);
                arrived = true;
            }
        },
    }
    if arrived {
        *warp_pending = None;
    }
    WarpFade { darkness, relocation }
}

/// Arriving on a warp tile starts one fade-out, and arriving on warp tiles
/// while a warp is under way starts nothing: the warp goes on as it was.
pub proof fn lemma_warp_starts_once(
    tiles: Map<WorldGridCoords, WarpTargetView>,
    first: WorldGridCoords,
    second: WorldGridCoords,
    warp_pending: Option<WarpPendingView>,
)
    ensures
        warp_pending is Some ==> spec_warp_player(tiles, first, warp_pending) == warp_pending,
        spec_warp_player(tiles, second, spec_warp_player(tiles, first, warp_pending))
            is Some ==> spec_warp_player(tiles, second, spec_warp_player(tiles, first, warp_pending))
            == if spec_warp_player(tiles, first, warp_pending) is Some {
            spec_warp_player(tiles, first, warp_pending)
        } else {
            spec_warp_player(tiles, second, None)
        },
        warp_pending is None && tiles.contains_key(first) ==> {
            &&& warp_state(spec_warp_player(tiles, first, warp_pending)) == WarpState::FadingOut
            &&& spec_warp_player(tiles, first, warp_pending).unwrap().target == tiles[first]
            &&& spec_warp_player(tiles, first, warp_pending).unwrap().fade_out_timer.elapsed == 0
            &&& spec_warp_player(tiles, second, spec_warp_player(tiles, first, warp_pending))
                == spec_warp_player(tiles, first, warp_pending)
        },
        warp_pending is None && !tiles.contains_key(first) ==> spec_warp_player(
            tiles,
            first,
            warp_pending,
        ) is None,
        pending_wf(warp_pending) ==> pending_wf(spec_warp_player(tiles, first, warp_pending)),
{
}

/// The darkness of a fade never lessens as time passes, begins at none and
/// stays below the darkest while the fade lasts.
pub proof fn lemma_darkness_grows(earlier: nat, later: nat, duration: nat)
    requires
        earlier <= later < duration,
    ensures
        spec_darkness(0, duration) == 0,
        0 <= spec_darkness(earlier, duration) <= spec_darkness(later, duration) < DARKNESS_STEPS,
{
    assert(0 <= (4 * earlier) as int / (duration as int) <= (4 * later) as int / (duration as int)
        < 4) by (nonlinear_arith)
        requires
            earlier <= later < duration,
    {
    }
}

/// A warp relocates exactly once and exactly to its target: on the tick that
/// ends the fade the entity is put on the tile that the arrival tiles record
/// for the target's entity. If they record none the entity stays where it
/// is, and that tick ends the warp and lifts the darkness, whatever levels
/// are loaded. On every other tick the entity stays where it is.
pub proof fn lemma_warp_relocates_to_target(
    delta: nat,
    targets: Map<Seq<char>, WorldGridCoords>,
    coords: WorldGridCoords,
    pending: WarpPendingView,
    loaded_levels: Set<Seq<char>>,
)
    requires
        pending.wf(),
    ensures
        ({
            let tick = spec_warp_fade_out(delta, targets, coords, Some(pending), loaded_levels);
            let ends_fade = !pending.fade_out_timer.finished && pending.fade_out_timer.elapsed
                + delta >= pending.fade_out_timer.duration;
            &&& ends_fade && targets.contains_key(pending.target.entity_iid) ==> tick.coords
                == targets[pending.target.entity_iid] && tick.fade.relocation == Relocation::Moved
            &&& ends_fade && !targets.contains_key(pending.target.entity_iid) ==> {
                &&& tick.coords == coords
                &&& tick.fade.relocation == Relocation::TargetMissing
                &&& tick.warp_pending is None
                &&& tick.fade.darkness == Some(0i32)
            }
            &&& !ends_fade ==> tick.coords == coords && tick.fade.relocation == Relocation::NotDue
            &&& pending_wf(tick.warp_pending)
            &&& tick.warp_pending matches Some(next) ==> next.target == pending.target
        }),
{
}

/// What one tick of a warp brings from outside: the time that has passed
/// and the levels that are loaded.
pub struct WarpInput {
    pub delta: nat,
    pub loaded_levels: Set<Seq<char>>,
}

/// The outcome of a run of warp ticks: where the entity is and how its warp
/// stands after the last tick, and what that last tick asked for.
pub open spec fn spec_warp_run(
    targets: Map<Seq<char>, WorldGridCoords>,
    coords: WorldGridCoords,
    warp_pending: Option<WarpPendingView>,
    inputs: Seq<WarpInput>,
) -> WarpTick
    decreases inputs.len(),
{
    if inputs.len() == 0 {
        WarpTick {
            coords,
            warp_pending,
            fade: WarpFade { darkness: None, relocation: Relocation::NotDue },
        }
    } else {
        let before = spec_warp_run(targets, coords, warp_pending, inputs.drop_last());
        spec_warp_fade_out(
            inputs.last().delta,
            targets,
            before.coords,
            before.warp_pending,
            inputs.last().loaded_levels,
        )
    }
}

/// The time that passes over a run of warp ticks.
pub open spec fn total_warp_delta(inputs: Seq<WarpInput>) -> nat
    decreases inputs.len(),
{
    if inputs.len() == 0 {
        0
    } else {
        total_warp_delta(inputs.drop_last()) + inputs.last().delta
    }
}

/// Over any run of ticks, a warp either is over or still leads where it led
/// and has counted on by the time that passed, up to the length of its fade.
pub proof fn lemma_warp_run_progress(
    targets: Map<Seq<char>, WorldGridCoords>,
    coords: WorldGridCoords,
    pending: WarpPendingView,
    inputs: Seq<WarpInput>,
)
    requires
        pending.wf(),
    ensures
        pending_wf(spec_warp_run(targets, coords, Some(pending), inputs).warp_pending),
        spec_warp_run(targets, coords, Some(pending), inputs).warp_pending matches Some(next) ==> {
            &&& next.target == pending.target
            &&& next.fade_out_timer.finished == (pending.fade_out_timer.finished
                || pending.fade_out_timer.elapsed + total_warp_delta(inputs)
                >= pending.fade_out_timer.duration)
            &&& !next.fade_out_timer.finished ==> next.fade_out_timer.elapsed
                == pending.fade_out_timer.elapsed + total_warp_delta(inputs)
        },
        !targets.contains_key(pending.target.entity_iid) ==> spec_warp_run(
            targets,
            coords,
            Some(pending),
            inputs,
        ).coords == coords,
    decreases inputs.len(),
{
    if inputs.len() > 0 {
        lemma_warp_run_progress(targets, coords, pending, inputs.drop_last());
    }
}

/// A warp comes to its end. One whose target the world lacks is over once
/// the time of its fade has passed, whatever levels are loaded, and the
/// entity is where it was all along. One whose target the world has is over
/// on the first tick after its fade that sees the level it leads to loaded.
/// The tick that ends a warp lifts the darkness.
pub proof fn lemma_warp_ends(
    targets: Map<Seq<char>, WorldGridCoords>,
    coords: WorldGridCoords,
    pending: WarpPendingView,
    inputs: Seq<WarpInput>,
)
    requires
        pending.wf(),
        inputs.len() > 0,
        pending.fade_out_timer.finished || pending.fade_out_timer.elapsed + total_warp_delta(inputs)
            >= pending.fade_out_timer.duration,
        targets.contains_key(pending.target.entity_iid) ==> inputs.last().loaded_levels.contains(
            pending.target.level_iid,
        ),
    ensures
        warp_state(spec_warp_run(targets, coords, Some(pending), inputs).warp_pending)
            == WarpState::Unwarped,
        spec_warp_run(targets, coords, Some(pending), inputs.drop_last()).warp_pending
            is Some ==> spec_warp_run(targets, coords, Some(pending), inputs).fade.darkness == Some(
            0i32,
        ),
        !targets.contains_key(pending.target.entity_iid) ==> spec_warp_run(
            targets,
            coords,
            Some(pending),
            inputs,
        ).coords == coords,
{
    lemma_warp_run_progress(targets, coords, pending, inputs.drop_last());
    lemma_warp_run_progress(targets, coords, pending, inputs);
}

/// The warp subsystem.
#[derive(Clone, Copy, Debug, Default)]
pub struct WarpPlugin;

impl WarpPlugin {
    /// Sets up what the subsystem keeps for the whole run: every warp tile
    /// and every arrival tile of the world.
    pub fn build(&self, levels: &Vec<Level>, toc: &Vec<TocEntry>) -> (cache: WarpCache)
        ensures
            cache.tiles() == tiles_with_entries(Map::empty(), levels@, toc@),
            cache.targets() == targets_with_entries(Map::empty(), levels@, toc@),
    {
        let mut cache = WarpCache::default();
        build_warp_cache(&mut cache, levels, toc);
        cache
    }
}

} // verus!
