use crate::character::spec_world_pixel;
use crate::collision::level_covers;
use crate::collision::WorldGridCoords;
use crate::level_data::contains_iid;
use crate::level_data::iids_of;
use crate::level_data::opt_iid_view;
use crate::level_data::same_iid;
use crate::level_data::same_opt_iid;
use crate::level_data::Level;
use crate::level_data::LevelSet;
use crate::level_data::WorldPixel;
use vstd::hash_map::StringHashMap;
use vstd::prelude::*;

verus! {

/// The level that an entity is in, if it is in any.
#[derive(Clone, Debug, PartialEq, Eq, Hash)]
pub struct CurrentLevel {
    pub level_iid: Option<String>,
}

impl Default for CurrentLevel {
    fn default() -> (current_level: Self)
        ensures
            current_level.level_iid is None,
    {
        Self { level_iid: None }
    }
}

/// Marks an entity whose current level has changed to one that is not loaded
/// yet: the notice that it is loaded is still owed.
#[derive(Clone, Copy, Debug, PartialEq, Eq, Structural)]
pub struct CurrentLevelLoading;

/// Notice that the level of an entity has changed.
#[derive(Debug, PartialEq, Eq)]
pub enum CurrentLevelChangedEvent {
    /// The entity left the second level, if any, for the third, if any.
    Changed(String, Option<String>, Option<String>),
    /// The entity is in the level, and the level is loaded.
    ChangedAndLoaded(String, String),
}

/// A level-changed notice as the texts of its identifiers.
pub enum CurrentLevelChangedEventView {
    Changed(Seq<char>, Option<Seq<char>>, Option<Seq<char>>),
    ChangedAndLoaded(Seq<char>, Seq<char>),
}

impl View for CurrentLevelChangedEvent {
    type V = CurrentLevelChangedEventView;

    open spec fn view(&self) -> CurrentLevelChangedEventView {
        match *self {
            CurrentLevelChangedEvent::Changed(entity, old_level, new_level) => {
                CurrentLevelChangedEventView::Changed(
                    entity@,
                    opt_iid_view(old_level),
                    opt_iid_view(new_level),
                )
            },
            CurrentLevelChangedEvent::ChangedAndLoaded(entity, level) => {
                CurrentLevelChangedEventView::ChangedAndLoaded(entity@, level@)
            },
        }
    }
}

/// A list of notices as the list of their views.
pub open spec fn events_view(events: Seq<CurrentLevelChangedEvent>) -> Seq<
    CurrentLevelChangedEventView,
> {
    Seq::new(events.len(), |i: int| events[i]@)
}

/// Whether the point `position`, on depth layer `layer`, lies in `level`: on
/// the level's layer, and within its rectangle, which takes in its left and
/// lower edges and leaves out its right and upper ones. The level's data has
/// Y growing downward, the world has it growing upward.
pub open spec fn level_contains(level: Level, layer: i32, position: WorldPixel) -> bool {
    &&& layer == level.world_depth
    &&& level.world_x <= position.x < level.world_x + level.px_wid
    &&& -(level.world_y + level.px_hei) <= position.y < -level.world_y
}

/// The index of the level that the point lies in: the first in `levels` that
/// contains it, if any does.
pub open spec fn selected_level(levels: Seq<Level>, layer: i32, position: WorldPixel) -> Option<
    int,
> {
    if exists|i: int| 0 <= i < levels.len() && level_contains(#[trigger] levels[i], layer, position) {
        Some(
            choose|i: int|
                0 <= i < levels.len() && level_contains(#[trigger] levels[i], layer, position)
                    && forall|j: int|
                    0 <= j < i ==> !level_contains(#[trigger] levels[j], layer, position),
        )
    } else {
        None
    }
}

/// The identifier of the level that the point lies in, if it lies in any.
pub open spec fn selected_level_iid(
    levels: Seq<Level>,
    layer: i32,
    position: WorldPixel,
) -> Option<Seq<char>> {
    match selected_level(levels, layer, position) {
        Some(i) => Some(levels[i].iid@),
        None => None,
    }
}

/// The notices that a change of level gives rise to. None if the level is
/// the same as before. Else one that tells of the change, and after it, when
/// the new level is among the loaded ones, one that tells that it is loaded.
pub open spec fn tracking_events(
    entity_iid: Seq<char>,
    old_level: Option<Seq<char>>,
    new_level: Option<Seq<char>>,
    loaded_levels: Set<Seq<char>>,
) -> Seq<CurrentLevelChangedEventView> {
    if old_level == new_level {
        seq![]
    } else {
        let changed = CurrentLevelChangedEventView::Changed(entity_iid, old_level, new_level);
        match new_level {
            Some(level) if loaded_levels.contains(level) => seq![
                changed,
                CurrentLevelChangedEventView::ChangedAndLoaded(entity_iid, level),
            ],
            _ => seq![changed],
        }
    }
}

/// Whether a change of level leaves the notice of loading owed: the entity
/// has come into a level that is not loaded.
pub open spec fn tracking_awaits_load(
    old_level: Option<Seq<char>>,
    new_level: Option<Seq<char>>,
    loaded_levels: Set<Seq<char>>,
) -> bool {
    &&& old_level != new_level
    &&& new_level matches Some(level)
    &&& !loaded_levels.contains(level)
}

/// What tracking an entity for one tick gives rise to.
pub struct LevelTracking {
    /// The notices to send, in order.
    pub events: Vec<CurrentLevelChangedEvent>,
    /// The mark to put on the entity, where the notice of loading is owed.
    pub loading: Option<CurrentLevelLoading>,
}

/// Finds the level that contains a point.
fn select_level(levels: &Vec<Level>, layer: i32, position: WorldPixel) -> (selected: Option<usize>)
    ensures
        match selected {
            Some(i) => selected_level(levels@, layer, position) == Some(i as int) && i
                < levels.len(),
            None => selected_level(levels@, layer, position) is None,
        },
{
    let mut i: usize = 0;
    while i < levels.len()
        invariant
            i <= levels.len(),
            forall|j: int| 0 <= j < i ==> !level_contains(#[trigger] levels[j], layer, position),
        decreases levels.len() - i,
    {
        let level = &levels[i];
        let min_x: i64 = level.world_x as i64;
        let min_y: i64 = 0 - level.world_y as i64 - level.px_hei as i64;
        let max_x: i64 = level.world_x as i64 + level.px_wid as i64;
        let max_y: i64 = 0 - level.world_y as i64;
        if min_x <= position.x && position.x < max_x && min_y <= position.y && position.y < max_y {
            if layer == level.world_depth {
                proof {
                    let w = i as int;
                    assert(level_contains(levels[w], layer, position));
                    let c = selected_level(levels@, layer, position).unwrap();
                    if c < w {
                        assert(!level_contains(levels[c], layer, position));
                    }
                    if w < c {
                        assert(!level_contains(levels[w], layer, position));
                    }
                }
                return Some(i);
            }
        }
        i += 1;
    }
    None
}

/// Finds the level that an entity is in and records it as the entity's
/// current level. The entity stands at `position` in world pixels, on the
/// depth layer of `world_grid_coords`. All levels of the world are
/// candidates, loaded or not; `loaded_levels` names those that are loaded.
pub fn track_level(
    levels: &Vec<Level>,
    loaded_levels: &Vec<String>,
    entity_iid: &String,
    world_grid_coords: &WorldGridCoords,
    position: WorldPixel,
    current_level: &mut CurrentLevel,
) -> (tracking: LevelTracking)
    ensures
        opt_iid_view(final(current_level).level_iid) == selected_level_iid(
            levels@,
            world_grid_coords.z,
            position,
        ),
        events_view(tracking.events@) == tracking_events(
            entity_iid@,
            opt_iid_view(old(current_level).level_iid),
            selected_level_iid(levels@, world_grid_coords.z, position),
            iids_of(loaded_levels@),
        ),
        tracking.loading is Some <==> tracking_awaits_load(
            opt_iid_view(old(current_level).level_iid),
            selected_level_iid(levels@, world_grid_coords.z, position),
            iids_of(loaded_levels@),
        ),
{
    let selected_level: Option<String> = match select_level(
        levels,
        world_grid_coords.z,
        position,
    ) {
        Some(i) => Some(levels[i].iid.clone()),
        None => None,
    };
    let mut events: Vec<CurrentLevelChangedEvent> = Vec::new();
    let mut loading: Option<CurrentLevelLoading> = None;
    if !same_opt_iid(&current_level.level_iid, &selected_level) {
        events.push(
            CurrentLevelChangedEvent::Changed(
                entity_iid.clone(),
                current_level.level_iid.clone(),
                selected_level.clone(),
            ),
        );
        match &selected_level {
            Some(selected) => {
                if contains_iid(loaded_levels, selected) {
                    events.push(
                        CurrentLevelChangedEvent::ChangedAndLoaded(
                            entity_iid.clone(),
                            selected.clone(),
                        ),
                    );
                } else {
                    loading = Some(CurrentLevelLoading);
                }
            },
            None => {},
        }
    }
    proof {
        assert(events_view(events@) =~= tracking_events(
            entity_iid@,
            opt_iid_view(old(current_level).level_iid),
            selected_level_iid(levels@, world_grid_coords.z, position),
            iids_of(loaded_levels@),
        ));
    }
    current_level.level_iid = selected_level;
    LevelTracking { events, loading }
}

/// Whether one of the first `count` neighbours that `level` names is `iid`.
pub open spec fn names_neighbour(level: Level, count: int, iid: Seq<char>) -> bool {
    exists|n: int|
        0 <= n < count && n < level.neighbours.len() && (#[trigger] level.neighbours[n]).level_iid@
            == iid
}

/// Whether one of the first `count` levels is named `iid` and lies on the
/// depth layer `depth`.
pub open spec fn has_level_on_layer(
    levels: Seq<Level>,
    count: int,
    iid: Seq<char>,
    depth: i32,
) -> bool {
    exists|k: int|
        0 <= k < count && k < levels.len() && (#[trigger] levels[k]).iid@ == iid
            && levels[k].world_depth == depth
}

/// Whether a level lies on the tile grid: its corner and its size are whole
/// tiles.
pub open spec fn tile_aligned(level: Level) -> bool {
    &&& level.world_x as int % 16 == 0
    &&& level.world_y as int % 16 == 0
    &&& level.px_wid as int % 16 == 0
    &&& level.px_hei as int % 16 == 0
}

/// The grid and the pixels agree on what a level contains: an entity that
/// stands in the middle of a tile is in a level on the tile grid exactly when
/// the level covers the tile.
pub proof fn lemma_covered_tile_lies_in_level(level: Level, world: WorldGridCoords)
    requires
        tile_aligned(level),
    ensures
        level_covers(level, world) <==> level_contains(
            level,
            world.z,
            spec_world_pixel(world.x as int, world.y as int),
        ),
{
}

/// The neighbours of `level` that count for streaming: the levels that it
/// names as neighbours, that exist in `levels`, and that lie on its own depth
/// layer. A neighbour on another layer is left out even though the level
/// names it.
pub open spec fn same_depth_neighbours(levels: Seq<Level>, level: Level) -> Set<Seq<char>> {
    Set::new(
        |iid: Seq<char>|
            names_neighbour(level, level.neighbours.len() as int, iid) && has_level_on_layer(
                levels,
                levels.len() as int,
                iid,
                level.world_depth,
            ),
    )
}

/// The neighbour sets of the first `count` levels, entered in order under
/// each level's identifier. Where several levels share an identifier the
/// last one's neighbours stand.
pub open spec fn level_neighbours(levels: Seq<Level>, count: nat) -> Map<
    Seq<char>,
    Set<Seq<char>>,
>
    decreases count,
{
    if count == 0 {
        Map::empty()
    } else {
        level_neighbours(levels, (count - 1) as nat).insert(
            levels[count - 1].iid@,
            same_depth_neighbours(levels, levels[count - 1]),
        )
    }
}

/// For each level of the world, the neighbours to keep resident with it.
pub struct LevelNeighboursCache {
    neighbours: StringHashMap<LevelSet>,
}

impl View for LevelNeighboursCache {
    type V = Map<Seq<char>, Set<Seq<char>>>;

    closed spec fn view(&self) -> Map<Seq<char>, Set<Seq<char>>> {
        Map::new(
            |iid: Seq<char>| self.neighbours@.contains_key(iid),
            |iid: Seq<char>| self.neighbours@[iid]@,
        )
    }
}

impl LevelNeighboursCache {
    /// What holds of every cache: each of its sets is well formed.
    pub closed spec fn wf(&self) -> bool {
        forall|iid: Seq<char>| #[trigger]
            self.neighbours@.contains_key(iid) ==> self.neighbours@[iid].wf()
    }

    /// The neighbours kept for the level `level_iid`, if the cache knows the
    /// level.
    pub fn neighbours_of(&self, level_iid: &String) -> (neighbours: Option<&LevelSet>)
        requires
            self.wf(),
        ensures
            match neighbours {
                Some(set) => set.wf() && self@.contains_key(level_iid@) && self@[level_iid@]
                    == set@,
                None => !self@.contains_key(level_iid@),
            },
    {
        self.neighbours.get(level_iid.as_str())
    }
}

impl Default for LevelNeighboursCache {
    fn default() -> (cache: Self)
        ensures
            cache.wf(),
            cache@ == Map::<Seq<char>, Set<Seq<char>>>::empty(),
    {
        let cache = LevelNeighboursCache { neighbours: StringHashMap::new() };
        assert(cache@ =~= Map::<Seq<char>, Set<Seq<char>>>::empty());
        cache
    }
}

/// Collects the neighbours of one level that count for streaming.
fn collect_same_depth_neighbours(levels: &Vec<Level>, level: &Level) -> (levelset: LevelSet)
    ensures
        levelset.wf(),
        levelset@ == same_depth_neighbours(levels@, *level),
{
    let mut levelset = LevelSet::new();
    let mut n: usize = 0;
    while n < level.neighbours.len()
        invariant
            n <= level.neighbours.len(),
            levelset.wf(),
            forall|iid: Seq<char>| #[trigger]
                levelset@.contains(iid) <==> names_neighbour(*level, n as int, iid)
                    && has_level_on_layer(levels@, levels.len() as int, iid, level.world_depth),
        decreases level.neighbours.len() - n,
    {
        let neighbour = &level.neighbours[n];
        let ghost before = levelset@;
        let mut k: usize = 0;
        while k < levels.len()
            invariant
                k <= levels.len(),
                levelset.wf(),
                n < level.neighbours.len(),
                neighbour == level.neighbours[n as int],
                forall|iid: Seq<char>| #[trigger]
                    levelset@.contains(iid) <==> before.contains(iid) || (neighbour.level_iid@
                        == iid && has_level_on_layer(levels@, k as int, iid, level.world_depth)),
            decreases levels.len() - k,
        {
            let neighbour_level = &levels[k];
            if same_iid(&neighbour_level.iid, &neighbour.level_iid) {
                if neighbour_level.world_depth == level.world_depth {
                    levelset.insert(neighbour_level.iid.clone());
                }
            }
            proof {
                assert forall|iid: Seq<char>| #[trigger]
                    levelset@.contains(iid) <==> before.contains(iid) || (neighbour.level_iid@
                        == iid && has_level_on_layer(
                        levels@,
                        k + 1,
                        iid,
                        level.world_depth,
                    )) by {
                    if has_level_on_layer(levels@, k as int, iid, level.world_depth) {
                        let j = choose|j: int|
                            0 <= j < k && j < levels.len() && (#[trigger] levels[j]).iid@ == iid
                                && levels[j].world_depth == level.world_depth;
                        assert(0 <= j < k + 1 && levels[j].iid@ == iid);
                    }
                    if has_level_on_layer(levels@, k + 1, iid, level.world_depth) {
                        let j = choose|j: int|
                            0 <= j < k + 1 && j < levels.len() && (#[trigger] levels[j]).iid@
                                == iid && levels[j].world_depth == level.world_depth;
                        if j < k {
                            assert(has_level_on_layer(levels@, k as int, iid, level.world_depth));
                        }
                    }
                    if neighbour_level.iid@ == neighbour.level_iid@ && neighbour_level.world_depth
                        == level.world_depth && iid == neighbour_level.iid@ {
                        assert(levels[k as int].iid@ == iid);
                        assert(has_level_on_layer(levels@, k + 1, iid, level.world_depth));
                    }
                }
            }
            k += 1;
        }
        proof {
            assert forall|iid: Seq<char>| #[trigger]
                levelset@.contains(iid) <==> names_neighbour(*level, n + 1, iid)
                    && has_level_on_layer(
                    levels@,
                    levels.len() as int,
                    iid,
                    level.world_depth,
                ) by {
                if names_neighbour(*level, n as int, iid) {
                    let m = choose|m: int|
                        0 <= m < n && m < level.neighbours.len() && (
                        #[trigger] level.neighbours[m]).level_iid@ == iid;
                    assert(0 <= m < n + 1 && level.neighbours[m].level_iid@ == iid);
                }
                if neighbour.level_iid@ == iid {
                    assert(level.neighbours[n as int].level_iid@ == iid);
                    assert(names_neighbour(*level, n + 1, iid));
                }
                if names_neighbour(*level, n + 1, iid) {
                    let m = choose|m: int|
                        0 <= m < n + 1 && m < level.neighbours.len() && (
                        #[trigger] level.neighbours[m]).level_iid@ == iid;
                    if m < n {
                        assert(names_neighbour(*level, n as int, iid));
                    }
                }
            }
        }
        n += 1;
    }
    assert(levelset@ =~= same_depth_neighbours(levels@, *level));
    levelset
}

/// Computes anew, for every level of the world, the neighbours to keep
/// resident with it. Nothing of the old cache survives.
pub fn cache_level_neighbours(cache: &mut LevelNeighboursCache, levels: &Vec<Level>)
    ensures
        final(cache).wf(),
        final(cache)@ == level_neighbours(levels@, levels@.len()),
{
    cache.neighbours.clear();
    assert(cache@ =~= level_neighbours(levels@, 0));
    let mut i: usize = 0;
    while i < levels.len()
        invariant
            i <= levels.len(),
            cache.wf(),
            cache@ == level_neighbours(levels@, i as nat),
        decreases levels.len() - i,
    {
        let level = &levels[i];
        let levelset = collect_same_depth_neighbours(levels, level);
        cache.neighbours.insert(level.iid.clone(), levelset);
        assert(cache@ =~= level_neighbours(levels@, (i + 1) as nat));
        i += 1;
    }
}

/// The levels that must be resident while the player is in the level
/// `level_iid`: that level and its neighbours from the cache. `None` for a
/// level that the cache does not know.
pub open spec fn required_levels(
    neighbours: Map<Seq<char>, Set<Seq<char>>>,
    level_iid: Seq<char>,
) -> Option<Set<Seq<char>>> {
    if neighbours.contains_key(level_iid) {
        Some(neighbours[level_iid].insert(level_iid))
    } else {
        None
    }
}

/// The levels that a notice asks to be resident: those required for the
/// level that the player has come into, when the notice tells of the
/// player's change into a level that the cache knows. `None` for any other
/// notice.
pub open spec fn levels_asked_by(
    neighbours: Map<Seq<char>, Set<Seq<char>>>,
    event: CurrentLevelChangedEventView,
    player_iid: Seq<char>,
) -> Option<Set<Seq<char>>> {
    match event {
        CurrentLevelChangedEventView::Changed(entity, _, Some(new_level)) if entity
            == player_iid => required_levels(neighbours, new_level),
        _ => None,
    }
}

/// The set of levels to be resident after a run of notices: what the last
/// notice that asks for any asks for. `None` when no notice asks: the
/// resident set is to stay as it is.
pub open spec fn spec_load_levels(
    neighbours: Map<Seq<char>, Set<Seq<char>>>,
    events: Seq<CurrentLevelChangedEventView>,
    player_iid: Seq<char>,
) -> Option<Set<Seq<char>>>
    decreases events.len(),
{
    if events.len() == 0 {
        None
    } else {
        match levels_asked_by(neighbours, events.last(), player_iid) {
            Some(levels) => Some(levels),
            None => spec_load_levels(neighbours, events.drop_last(), player_iid),
        }
    }
}

/// A level set as its set of texts, if there is one.
pub open spec fn opt_set_view(levels: Option<LevelSet>) -> Option<Set<Seq<char>>> {
    match levels {
        Some(levels) => Some(levels@),
        None => None,
    }
}

/// Computes the levels to keep resident from the notices of one tick:
/// whenever the player has come into a level, that level and its neighbours
/// on the same depth layer. Returns the set to hand to the level data
/// provider, or `None` where the resident set is to stay as it is.
pub fn load_levels(
    neighbours_cache: &LevelNeighboursCache,
    current_level_changed_events: &Vec<CurrentLevelChangedEvent>,
    player_iid: &String,
) -> (levels_to_be_loaded: Option<LevelSet>)
    requires
        neighbours_cache.wf(),
    ensures
        levels_to_be_loaded matches Some(levels) ==> levels.wf(),
        opt_set_view(levels_to_be_loaded) == spec_load_levels(
            neighbours_cache@,
            events_view(current_level_changed_events@),
            player_iid@,
        ),
{
    let mut level_set: Option<LevelSet> = None;
    let mut i: usize = 0;
    while i < current_level_changed_events.len()
        invariant
            i <= current_level_changed_events.len(),
            neighbours_cache.wf(),
            level_set matches Some(levels) ==> levels.wf(),
            opt_set_view(level_set) == spec_load_levels(
                neighbours_cache@,
                events_view(current_level_changed_events@).take(i as int),
                player_iid@,
            ),
        decreases current_level_changed_events.len() - i,
    {
        proof {
            let events = events_view(current_level_changed_events@);
            assert(events.take(i + 1).drop_last() =~= events.take(i as int));
            assert(events.take(i + 1).last() == current_level_changed_events[i as int]@);
        }
        match &current_level_changed_events[i] {
            CurrentLevelChangedEvent::Changed(changed_entity_iid, _, Some(new_level_iid)) => {
                if same_iid(changed_entity_iid, player_iid) {
                    match neighbours_cache.neighbours_of(new_level_iid) {
                        Some(neighbours) => {
                            let mut levels_to_be_loaded = neighbours.duplicate();
                            levels_to_be_loaded.insert(new_level_iid.clone());
                            level_set = Some(levels_to_be_loaded);
                        },
                        None => {},
                    }
                }
            },
            _ => {},
        }
        i += 1;
    }
    proof {
        let events = events_view(current_level_changed_events@);
        assert(events.take(i as int) =~= events);
    }
    level_set
}

/// The notices owed to an entity that waits for its current level to load,
/// given the levels that were loaded since the last tick: one for each of
/// them that is the awaited level, in their order.
pub open spec fn loaded_events(
    entity_iid: Seq<char>,
    current_level: Option<Seq<char>>,
    added_levels: Seq<String>,
) -> Seq<CurrentLevelChangedEventView>
    decreases added_levels.len(),
{
    if added_levels.len() == 0 {
        seq![]
    } else {
        let before = loaded_events(entity_iid, current_level, added_levels.drop_last());
        if current_level == Some(added_levels.last()@) {
            before.push(
                CurrentLevelChangedEventView::ChangedAndLoaded(entity_iid, added_levels.last()@),
            )
        } else {
            before
        }
    }
}

/// Looks among the levels that were loaded since the last tick for the one
/// that an entity marked as waiting is in. Returns the notices to send; if
/// there is any, the wait is over and the mark is to be taken off.
pub fn check_levels_loaded(
    entity_iid: &String,
    current_level: &CurrentLevel,
    added_levels: &Vec<String>,
) -> (events: Vec<CurrentLevelChangedEvent>)
    ensures
        events_view(events@) == loaded_events(
            entity_iid@,
            opt_iid_view(current_level.level_iid),
            added_levels@,
        ),
        events.len() > 0 <==> (current_level.level_iid matches Some(awaited) && iids_of(
            added_levels@,
        ).contains(awaited@)),
{
    let mut events: Vec<CurrentLevelChangedEvent> = Vec::new();
    match &current_level.level_iid {
        Some(current_level_iid) => {
            let mut i: usize = 0;
            while i < added_levels.len()
                invariant
                    i <= added_levels.len(),
                    current_level.level_iid == Some(*current_level_iid),
                    events_view(events@) == loaded_events(
                        entity_iid@,
                        Some(current_level_iid@),
                        added_levels@.take(i as int),
                    ),
                    events.len() > 0 <==> exists|j: int|
                        0 <= j < i && (#[trigger] added_levels[j])@ == current_level_iid@,
                decreases added_levels.len() - i,
            {
                let level_iid = &added_levels[i];
                proof {
                    assert(added_levels@.take(i + 1).drop_last() =~= added_levels@.take(i as int));
                }
                if same_iid(current_level_iid, level_iid) {
                    let ghost before = events_view(events@);
                    events.push(
                        CurrentLevelChangedEvent::ChangedAndLoaded(
                            entity_iid.clone(),
                            level_iid.clone(),
                        ),
                    );
                    assert(events_view(events@) =~= before.push(
                        CurrentLevelChangedEventView::ChangedAndLoaded(entity_iid@, level_iid@),
                    ));
                }
                i += 1;
            }
            proof {
                assert(added_levels@.take(i as int) =~= added_levels@);
            }
        },
        None => {
            proof {
                lemma_no_level_no_events(entity_iid@, added_levels@);
                assert(events_view(events@) =~= Seq::<CurrentLevelChangedEventView>::empty());
            }
        },
    }
    events
}

/// An entity that is in no level is owed no notice of loading.
proof fn lemma_no_level_no_events(entity_iid: Seq<char>, added_levels: Seq<String>)
    ensures
        loaded_events(entity_iid, None, added_levels) == Seq::<
            CurrentLevelChangedEventView,
        >::empty(),
    decreases added_levels.len(),
{
    if added_levels.len() > 0 {
        lemma_no_level_no_events(entity_iid, added_levels.drop_last());
    }
}

/// Whether no two levels of the world share an identifier.
pub open spec fn distinct_levels(levels: Seq<Level>) -> bool {
    forall|i: int, j: int|
        0 <= i < j < levels.len() ==> (#[trigger] levels[i]).iid@ != (#[trigger] levels[j]).iid@
}

/// The cache knows exactly the levels of the world, and what it keeps for an
/// identifier is the neighbour set of a level that carries it: the last such
/// level.
pub proof fn lemma_level_neighbours_entries(levels: Seq<Level>, count: nat, iid: Seq<char>)
    requires
        count <= levels.len(),
    ensures
        level_neighbours(levels, count).contains_key(iid) <==> exists|i: int|
            0 <= i < count && (#[trigger] levels[i]).iid@ == iid,
        level_neighbours(levels, count).contains_key(iid) ==> exists|i: int|
            {
                &&& 0 <= i < count
                &&& (#[trigger] levels[i]).iid@ == iid
                &&& level_neighbours(levels, count)[iid] == same_depth_neighbours(levels, levels[i])
                &&& forall|j: int| i < j < count ==> (#[trigger] levels[j]).iid@ != iid
            },
    decreases count,
{
    if count > 0 {
        lemma_level_neighbours_entries(levels, (count - 1) as nat, iid);
        let last = count - 1;
        if levels[last].iid@ == iid {
            assert(level_neighbours(levels, count)[iid] == same_depth_neighbours(
                levels,
                levels[last],
            ));
        } else if level_neighbours(levels, count).contains_key(iid) {
            let i = choose|i: int|
                {
                    &&& 0 <= i < count - 1
                    &&& (#[trigger] levels[i]).iid@ == iid
                    &&& level_neighbours(levels, (count - 1) as nat)[iid] == same_depth_neighbours(
                        levels,
                        levels[i],
                    )
                    &&& forall|j: int| i < j < count - 1 ==> (#[trigger] levels[j]).iid@ != iid
                };
            assert(forall|j: int| i < j < count ==> (#[trigger] levels[j]).iid@ != iid);
        }
    }
}

/// In a world whose levels have identifiers of their own, the cache keeps
/// for each level exactly its neighbours on its own depth layer.
pub proof fn lemma_level_neighbours_exact(levels: Seq<Level>, index: int)
    requires
        distinct_levels(levels),
        0 <= index < levels.len(),
    ensures
        level_neighbours(levels, levels.len()).contains_key(levels[index].iid@),
        level_neighbours(levels, levels.len())[levels[index].iid@] == same_depth_neighbours(
            levels,
            levels[index],
        ),
{
    lemma_level_neighbours_entries(levels, levels.len(), levels[index].iid@);
}

/// The levels required for a level of the world are that level itself and
/// neighbours on its depth layer, and nothing else: whatever else is in the
/// set is named as a neighbour by a level of that identifier and is itself a
/// level of the world on the same depth layer.
pub proof fn lemma_required_levels_same_depth(levels: Seq<Level>, level_iid: Seq<char>)
    requires
        exists|i: int| 0 <= i < levels.len() && (#[trigger] levels[i]).iid@ == level_iid,
    ensures
        required_levels(level_neighbours(levels, levels.len()), level_iid) is Some,
        required_levels(level_neighbours(levels, levels.len()), level_iid).unwrap().contains(
            level_iid,
        ),
        exists|i: int|
            {
                &&& 0 <= i < levels.len()
                &&& (#[trigger] levels[i]).iid@ == level_iid
                &&& forall|other: Seq<char>|
                    other != level_iid && #[trigger] required_levels(
                        level_neighbours(levels, levels.len()),
                        level_iid,
                    ).unwrap().contains(other) ==> {
                        &&& names_neighbour(levels[i], levels[i].neighbours.len() as int, other)
                        &&& has_level_on_layer(
                            levels,
                            levels.len() as int,
                            other,
                            levels[i].world_depth,
                        )
                    }
            },
{
    lemma_level_neighbours_entries(levels, levels.len(), level_iid);
    let m = level_neighbours(levels, levels.len());
    let i = choose|i: int|
        {
            &&& 0 <= i < levels.len()
            &&& (#[trigger] levels[i]).iid@ == level_iid
            &&& m[level_iid] == same_depth_neighbours(levels, levels[i])
            &&& forall|j: int| i < j < levels.len() ==> (#[trigger] levels[j]).iid@ != level_iid
        };
    assert(forall|other: Seq<char>|
        other != level_iid && #[trigger] required_levels(m, level_iid).unwrap().contains(other) ==> {
            &&& names_neighbour(levels[i], levels[i].neighbours.len() as int, other)
            &&& has_level_on_layer(levels, levels.len() as int, other, levels[i].world_depth)
        });
}

/// In a world whose levels have identifiers of their own, a level on another
/// depth layer is never required, even where it is named as a neighbour.
pub proof fn lemma_cross_depth_never_required(levels: Seq<Level>, current: int, other: int)
    requires
        distinct_levels(levels),
        0 <= current < levels.len(),
        0 <= other < levels.len(),
        levels[other].world_depth != levels[current].world_depth,
    ensures
        required_levels(level_neighbours(levels, levels.len()), levels[current].iid@) is Some,
        !required_levels(
            level_neighbours(levels, levels.len()),
            levels[current].iid@,
        ).unwrap().contains(levels[other].iid@),
{
    lemma_level_neighbours_exact(levels, current);
    let iid = levels[other].iid@;
    if has_level_on_layer(levels, levels.len() as int, iid, levels[current].world_depth) {
        let k = choose|k: int|
            0 <= k < levels.len() && (#[trigger] levels[k]).iid@ == iid && levels[k].world_depth
                == levels[current].world_depth;
        if k < other {
            assert(levels[k].iid@ != levels[other].iid@);
        } else if other < k {
            assert(levels[other].iid@ != levels[k].iid@);
        }
    }
    if current < other {
        assert(levels[current].iid@ != levels[other].iid@);
    } else if other < current {
        assert(levels[other].iid@ != levels[current].iid@);
    }
}

/// In a world whose levels have identifiers of their own, a level that the
/// player's level does not name as a neighbour is not required: when the
/// player comes into a level, the neighbours of the level it left that are
/// no neighbours of the new one drop out of the resident set.
pub proof fn lemma_stale_levels_dropped(levels: Seq<Level>, current: int, stale: Seq<char>)
    requires
        distinct_levels(levels),
        0 <= current < levels.len(),
        stale != levels[current].iid@,
        !names_neighbour(levels[current], levels[current].neighbours.len() as int, stale),
    ensures
        required_levels(level_neighbours(levels, levels.len()), levels[current].iid@) is Some,
        !required_levels(
            level_neighbours(levels, levels.len()),
            levels[current].iid@,
        ).unwrap().contains(stale),
{
    lemma_level_neighbours_exact(levels, current);
}

/// Whatever set of levels a run of notices asks to be resident is the set
/// required for a level that the player has come into.
pub proof fn lemma_load_levels_asks_for_player_level(
    neighbours: Map<Seq<char>, Set<Seq<char>>>,
    events: Seq<CurrentLevelChangedEventView>,
    player_iid: Seq<char>,
)
    ensures
        spec_load_levels(neighbours, events, player_iid) matches Some(levels) ==> exists|i: int|
            {
                &&& 0 <= i < events.len()
                &&& #[trigger] events[i] matches CurrentLevelChangedEventView::Changed(
                    entity,
                    _,
                    Some(new_level),
                )
                &&& entity == player_iid
                &&& required_levels(neighbours, new_level) == Some(levels)
                &&& levels.contains(new_level)
            },
    decreases events.len(),
{
    if events.len() > 0 {
        match levels_asked_by(neighbours, events.last(), player_iid) {
            Some(levels) => {
                let i = events.len() - 1;
                assert(events[i] == events.last());
            },
            None => {
                lemma_load_levels_asks_for_player_level(
                    neighbours,
                    events.drop_last(),
                    player_iid,
                );
                if spec_load_levels(neighbours, events, player_iid) is Some {
                    let levels = spec_load_levels(neighbours, events, player_iid).unwrap();
                    let i = choose|i: int|
                        {
                            &&& 0 <= i < events.drop_last().len()
                            &&& #[trigger] events.drop_last()[i] matches CurrentLevelChangedEventView::Changed(
                                entity,
                                _,
                                Some(new_level),
                            )
                            &&& entity == player_iid
                            &&& required_levels(neighbours, new_level) == Some(levels)
                            &&& levels.contains(new_level)
                        };
                    assert(events[i] == events.drop_last()[i]);
                }
            },
        }
    }
}

/// The level-streaming subsystem.
#[derive(Clone, Copy, Debug, Default)]
pub struct LevelLoadingPlugin;

impl LevelLoadingPlugin {
    /// Sets up what the subsystem keeps for the whole run: the neighbours of
    /// every level of the world.
    pub fn build(&self, levels: &Vec<Level>) -> (cache: LevelNeighboursCache)
        ensures
            cache.wf(),
            cache@ == level_neighbours(levels@, levels@.len()),
    {
        let mut cache = LevelNeighboursCache::default();
        cache_level_neighbours(&mut cache, levels);
        cache
    }
}

} // verus!
