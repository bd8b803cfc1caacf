use bevy::ecs::entity::Entity;
use plat::character::move_player;
use plat::character::tile_movement_tick;
use plat::character::MoveDir;
use plat::character::TileMovedEvent;
use plat::character::TileMover;
use plat::character::MOVEMENT_TICK_NANOS;
use plat::collision::resolve;
use plat::collision::BlockedTilesCache;
use plat::collision::WorldGridCoords;
use plat::level_data::EntityRef;
use plat::level_data::GridCoords;
use plat::level_data::IVec2;
use plat::level_data::Level;
use plat::level_data::TocEntry;
use plat::level_data::TocInstance;
use plat::warp::build_warp_cache;
use plat::warp::current_warp_state;
use plat::warp::warp_fade_out;
use plat::warp::warp_player;
use plat::warp::warp_target_of;
use plat::warp::Relocation;
use plat::warp::WarpCache;
use plat::warp::WarpFade;
use plat::warp::WarpPending;
use plat::warp::WarpPlugin;
use plat::warp::WarpState;
use plat::warp::WarpTarget;
use plat::warp::DARKNESS_STEPS;
use plat::warp::WARP_FADE_OUT_TIME_NANOS;
use serde_json::Value;

fn s(text: &str) -> String {
    String::from(text)
}

fn tile(x: i32, y: i32, z: i32) -> WorldGridCoords {
    WorldGridCoords { x, y, z }
}

fn level(iid: &str, world_x: i32, world_y: i32, world_depth: i32) -> Level {
    Level {
        iid: s(iid),
        world_x,
        world_y,
        px_wid: 160,
        px_hei: 144,
        world_depth,
        neighbours: Vec::new(),
    }
}

fn json(text: &str) -> Option<Value> {
    Some(serde_json::from_str(text).unwrap())
}

fn target_fields(entity_iid: &str, level_iid: &str) -> Option<Value> {
    json(&format!(
        "{{\"Target\": {{\"entityIid\": \"{}\", \"layerIid\": \"L\", \"levelIid\": \"{}\", \"worldIid\": \"W\"}}}}",
        entity_iid, level_iid
    ))
}

fn instance(
    entity_iid: &str,
    level_iid: &str,
    world_x: i32,
    world_y: i32,
    fields: Option<Value>,
) -> TocInstance {
    TocInstance {
        fields,
        hei_px: 16,
        iids: EntityRef { entity_iid: s(entity_iid), level_iid: s(level_iid) },
        wid_px: 16,
        world_x,
        world_y,
    }
}

fn entry(identifier: &str, instances_data: Vec<TocInstance>) -> TocEntry {
    TocEntry { identifier: s(identifier), instances_data }
}

fn target(level_iid: &str, entity_iid: &str) -> WarpTarget {
    WarpTarget { level_iid: s(level_iid), entity_iid: s(entity_iid) }
}

/// Two levels side by side, a warp in the first and its target in the second.
fn two_levels() -> (Vec<Level>, Vec<TocEntry>) {
    let levels = vec![level("A", 0, 0, 0), level("B", 160, 0, 0)];
    let toc = vec![
        entry("Warp", vec![instance("W1", "A", 80, 48, target_fields("T1", "B"))]),
        entry("WarpTarget", vec![instance("T1", "B", 192, 96, None)]),
    ];
    (levels, toc)
}

fn arrived(coords: &WorldGridCoords) -> TileMovedEvent {
    TileMovedEvent { entity: Entity::from_raw(1), pos: IVec2 { x: coords.x, y: coords.y } }
}

fn start_warp(cache: &WarpCache, coords: &WorldGridCoords) -> Option<WarpPending> {
    let mut pending = None;
    warp_player(cache, &arrived(coords), coords, &mut pending);
    pending
}

#[test]
fn the_fade_takes_half_a_second_in_four_steps() {
    assert_eq!(WARP_FADE_OUT_TIME_NANOS, 500_000_000);
    assert_eq!(DARKNESS_STEPS, 4);
}

#[test]
fn a_target_needs_both_identifiers() {
    assert_eq!(warp_target_of(Some(s("T1")), Some(s("B"))), Some(target("B", "T1")));
    assert_eq!(warp_target_of(None, Some(s("B"))), None);
    assert_eq!(warp_target_of(Some(s("T1")), None), None);
    assert_eq!(warp_target_of(None, None), None);
}

#[test]
fn a_copy_of_a_target_names_the_same_place() {
    let first = target("B", "T1");
    assert_eq!(first.clone(), first);
}

#[test]
fn a_new_cache_knows_no_warps() {
    let cache = WarpCache::default();
    assert_eq!(cache.warp_at(&tile(0, 0, 0)), None);
    assert_eq!(cache.target_coords(&s("T1")), None);
}

#[test]
fn the_cache_files_tiles_and_targets_where_they_are_put() {
    let mut cache = WarpCache::default();
    cache.insert_tile(tile(1, 2, 3), target("B", "T1"));
    cache.insert_target(s("T1"), tile(7, 8, 9));
    assert_eq!(cache.warp_at(&tile(1, 2, 3)), Some(&target("B", "T1")));
    assert_eq!(cache.warp_at(&tile(3, 2, 1)), None);
    assert_eq!(cache.target_coords(&s("T1")), Some(tile(7, 8, 9)));
    assert_eq!(cache.target_coords(&s("T2")), None);
    cache.insert_tile(tile(1, 2, 3), target("C", "T2"));
    cache.insert_target(s("T1"), tile(0, 0, 0));
    assert_eq!(cache.warp_at(&tile(1, 2, 3)), Some(&target("C", "T2")));
    assert_eq!(cache.target_coords(&s("T1")), Some(tile(0, 0, 0)));
}

#[test]
fn the_cache_is_built_from_the_table_of_contents() {
    let (levels, toc) = two_levels();
    let mut cache = WarpCache::default();
    build_warp_cache(&mut cache, &levels, &toc);
    assert_eq!(cache.warp_at(&tile(5, -4, 0)), Some(&target("B", "T1")));
    assert_eq!(cache.target_coords(&s("T1")), Some(tile(12, -7, 0)));
    assert_eq!(cache.warp_at(&tile(12, -7, 0)), None);
    assert_eq!(cache.target_coords(&s("W1")), None);
}

#[test]
fn the_warp_plugin_builds_the_same_cache() {
    let (levels, toc) = two_levels();
    let cache = WarpPlugin.build(&levels, &toc);
    assert_eq!(cache.warp_at(&tile(5, -4, 0)), Some(&target("B", "T1")));
    assert_eq!(cache.target_coords(&s("T1")), Some(tile(12, -7, 0)));
}

#[test]
fn building_keeps_what_the_cache_held() {
    let (levels, toc) = two_levels();
    let mut cache = WarpCache::default();
    cache.insert_tile(tile(9, 9, 9), target("Z", "T9"));
    cache.insert_target(s("T9"), tile(1, 1, 1));
    cache.insert_target(s("T1"), tile(1, 1, 1));
    build_warp_cache(&mut cache, &levels, &toc);
    assert_eq!(cache.warp_at(&tile(9, 9, 9)), Some(&target("Z", "T9")));
    assert_eq!(cache.target_coords(&s("T9")), Some(tile(1, 1, 1)));
    assert_eq!(cache.target_coords(&s("T1")), Some(tile(12, -7, 0)));
}

#[test]
fn an_instance_stands_on_the_tile_under_its_middle() {
    let levels = vec![level("A", 0, 0, 0)];
    let toc = vec![entry(
        "WarpTarget",
        vec![
            instance("origin", "A", 0, 0, None),
            instance("below", "A", 8, 8, None),
            instance("above", "A", -8, -9, None),
            instance("left", "A", -24, -24, None),
            instance("left_tile", "A", -32, -16, None),
            instance("far", "A", 1000, -1000, None),
        ],
    )];
    let cache = WarpPlugin.build(&levels, &toc);
    assert_eq!(cache.target_coords(&s("origin")), Some(tile(0, -1, 0)));
    assert_eq!(cache.target_coords(&s("below")), Some(tile(1, -1, 0)));
    assert_eq!(cache.target_coords(&s("above")), Some(tile(0, 0, 0)));
    assert_eq!(cache.target_coords(&s("left")), Some(tile(-1, 1, 0)));
    assert_eq!(cache.target_coords(&s("left_tile")), Some(tile(-2, 0, 0)));
    assert_eq!(cache.target_coords(&s("far")), Some(tile(63, 62, 0)));
}

#[test]
fn an_instance_that_fills_a_tile_of_a_level_stands_where_the_tile_resolves() {
    let worlds = [level("A", 0, 0, 0), level("B", 160, -144, 0), level("C", -320, 288, 0)];
    for owner in worlds {
        let levels = vec![level("A", 0, 0, 0), level("B", 160, -144, 0), level("C", -320, 288, 0)];
        let mut instances = Vec::new();
        let mut expected = Vec::new();
        for lx in 0..10 {
            for ly in 0..9 {
                let name = format!("{}-{}-{}", owner.iid, lx, ly);
                instances.push(instance(
                    &name,
                    &owner.iid,
                    owner.world_x + 16 * lx,
                    owner.world_y + owner.px_hei - 16 * (ly + 1),
                    None,
                ));
                expected.push((name, resolve(GridCoords { x: lx, y: ly }, &owner).unwrap()));
            }
        }
        let cache = WarpPlugin.build(&levels, &vec![entry("WarpTarget", instances)]);
        for (name, world) in expected {
            assert_eq!(cache.target_coords(&name), Some(world));
        }
    }
}

#[test]
fn the_halves_of_odd_and_negative_sizes_round_down() {
    let levels = vec![level("A", 0, 0, 0)];
    let mut odd = instance("odd", "A", 0, 0, None);
    odd.wid_px = 33;
    odd.hei_px = 33;
    let mut negative = instance("negative", "A", 16, -16, None);
    negative.wid_px = -1;
    negative.hei_px = -33;
    let cache = WarpPlugin.build(&levels, &vec![entry("WarpTarget", vec![odd, negative])]);
    assert_eq!(cache.target_coords(&s("odd")), Some(tile(1, -1, 0)));
    assert_eq!(cache.target_coords(&s("negative")), Some(tile(0, 2, 0)));
}

#[test]
fn instances_at_the_ends_of_the_pixel_range_are_placed() {
    let levels = vec![level("A", 0, 0, 0)];
    let mut high = instance("high", "A", i32::MAX, i32::MAX, None);
    high.wid_px = i32::MAX;
    high.hei_px = i32::MAX;
    let mut low = instance("low", "A", i32::MIN, i32::MIN, None);
    low.wid_px = i32::MIN;
    low.hei_px = i32::MIN;
    let cache = WarpPlugin.build(&levels, &vec![entry("WarpTarget", vec![high, low])]);
    assert_eq!(cache.target_coords(&s("high")), Some(tile(201_326_591, -201_326_592, 0)));
    assert_eq!(cache.target_coords(&s("low")), Some(tile(-201_326_592, 201_326_592, 0)));
}

#[test]
fn an_instance_lies_on_the_layer_of_its_level() {
    let levels = vec![level("A", 0, 0, 0), level("B", 0, 0, 3), level("B", 0, 0, 5)];
    let toc = vec![entry(
        "WarpTarget",
        vec![
            instance("in_a", "A", 0, 0, None),
            instance("in_b", "B", 0, 0, None),
            instance("in_none", "Nowhere", 0, 0, None),
        ],
    )];
    let cache = WarpPlugin.build(&levels, &toc);
    assert_eq!(cache.target_coords(&s("in_a")), Some(tile(0, -1, 0)));
    assert_eq!(cache.target_coords(&s("in_b")), Some(tile(0, -1, 5)));
    assert_eq!(cache.target_coords(&s("in_none")), Some(tile(0, -1, 0)));
}

#[test]
fn a_warp_without_a_whole_target_is_left_out() {
    let levels = vec![level("A", 0, 0, 0)];
    let toc = vec![entry(
        "Warp",
        vec![
            instance("none", "A", 0, 0, None),
            instance("null", "A", 16, 0, json("null")),
            instance("list", "A", 32, 0, json("[1, 2]")),
            instance("empty", "A", 48, 0, json("{}")),
            instance("other", "A", 64, 0, json("{\"Other\": {\"entityIid\": \"T\", \"levelIid\": \"B\"}}")),
            instance("text", "A", 80, 0, json("{\"Target\": \"T\"}")),
            instance("no_level", "A", 96, 0, json("{\"Target\": {\"entityIid\": \"T\"}}")),
            instance("no_entity", "A", 112, 0, json("{\"Target\": {\"levelIid\": \"B\"}}")),
            instance("number", "A", 128, 0, json("{\"Target\": {\"entityIid\": 7, \"levelIid\": \"B\"}}")),
            instance("nothing", "A", 144, 0, json("{\"Target\": {\"entityIid\": \"T\", \"levelIid\": null}}")),
            instance("whole", "A", 160, 0, json("{\"Target\": {\"entityIid\": \"T\", \"levelIid\": \"B\"}}")),
        ],
    )];
    let cache = WarpPlugin.build(&levels, &toc);
    for x in 0..10 {
        assert_eq!(cache.warp_at(&tile(x, -1, 0)), None);
    }
    assert_eq!(cache.warp_at(&tile(10, -1, 0)), Some(&target("B", "T")));
}

#[test]
fn entries_of_other_kinds_are_passed_over() {
    let levels = vec![level("A", 0, 0, 0)];
    let toc = vec![
        entry("Player", vec![instance("P", "A", 0, 0, target_fields("T1", "B"))]),
        entry("warp", vec![instance("W", "A", 0, 0, target_fields("T1", "B"))]),
        entry("WarpTargets", vec![instance("T1", "A", 0, 0, None)]),
    ];
    let cache = WarpPlugin.build(&levels, &toc);
    assert_eq!(cache.warp_at(&tile(0, -1, 0)), None);
    assert_eq!(cache.target_coords(&s("P")), None);
    assert_eq!(cache.target_coords(&s("W")), None);
    assert_eq!(cache.target_coords(&s("T1")), None);
}

#[test]
fn of_two_warps_on_one_tile_the_later_stands() {
    let levels = vec![level("A", 0, 0, 0)];
    let toc = vec![
        entry(
            "Warp",
            vec![
                instance("W1", "A", 0, 0, target_fields("T1", "B")),
                instance("W2", "A", 4, -4, target_fields("T2", "C")),
                instance("W3", "A", 0, 0, None),
            ],
        ),
        entry("WarpTarget", vec![instance("T", "A", 0, 0, None), instance("T", "A", 32, 0, None)]),
        entry("WarpTarget", vec![instance("U", "A", 0, 0, None)]),
        entry("WarpTarget", vec![instance("U", "A", 64, 0, None)]),
    ];
    let cache = WarpPlugin.build(&levels, &toc);
    assert_eq!(cache.warp_at(&tile(0, -1, 0)), Some(&target("C", "T2")));
    assert_eq!(cache.target_coords(&s("T")), Some(tile(2, -1, 0)));
    assert_eq!(cache.target_coords(&s("U")), Some(tile(4, -1, 0)));
}

#[test]
fn arriving_on_a_warp_tile_starts_a_fade() {
    let (levels, toc) = two_levels();
    let cache = WarpPlugin.build(&levels, &toc);
    let pending = start_warp(&cache, &tile(5, -4, 0)).unwrap();
    assert_eq!(pending.target(), &target("B", "T1"));
    assert!(!pending.faded_out());
    assert_eq!(pending.fade_elapsed_nanos(), 0);
}

#[test]
fn the_warp_is_that_of_the_tile_arrived_on_not_of_the_tile_set_out_for() {
    let (levels, toc) = two_levels();
    let cache = WarpPlugin.build(&levels, &toc);
    let mut pending = None;
    warp_player(&cache, &arrived(&tile(5, -4, 0)), &tile(5, -3, 0), &mut pending);
    assert_eq!(pending.as_ref().unwrap().target(), &target("B", "T1"));
    let mut pending = None;
    warp_player(&cache, &arrived(&tile(5, -5, 0)), &tile(5, -4, 0), &mut pending);
    assert!(pending.is_none());
    let mut pending = None;
    warp_player(&cache, &arrived(&tile(5, -4, 0)), &tile(5, -4, 1), &mut pending);
    assert!(pending.is_none());
}

#[test]
fn a_held_key_does_not_carry_the_player_past_a_warp() {
    let (levels, toc) = two_levels();
    let cache = WarpPlugin.build(&levels, &toc);
    let blocked = BlockedTilesCache::default();
    let player = Entity::from_raw(1);
    let mut coords = tile(5, -5, 0);
    let mut mover = TileMover::default();
    let mut pending: Option<WarpPending> = None;
    let mut relocated = false;
    for _ in 0..120 {
        move_player(true, false, false, false, pending.is_some(), &mut mover);
        if let Some(event) = tile_movement_tick(16_666_667, &blocked, player, &mut coords, &mut mover) {
            warp_player(&cache, &event, &coords, &mut pending);
        }
        let fade = warp_fade_out(16_666_667, &cache, &mut coords, &mut pending, &vec![s("B")]);
        relocated = relocated || fade.relocation == Relocation::Moved;
    }
    assert!(relocated);
    assert!(pending.is_none());
    assert_eq!(coords.z, 0);
    assert!(coords.x == 12 && coords.y >= -7);
}

#[test]
fn arriving_on_any_other_tile_starts_nothing() {
    let (levels, toc) = two_levels();
    let cache = WarpPlugin.build(&levels, &toc);
    assert!(start_warp(&cache, &tile(5, -5, 0)).is_none());
    assert!(start_warp(&cache, &tile(5, -4, 1)).is_none());
}

#[test]
fn arriving_on_a_warp_tile_during_a_warp_changes_nothing() {
    let levels = vec![level("A", 0, 0, 0)];
    let toc = vec![entry(
        "Warp",
        vec![
            instance("W1", "A", 0, 0, target_fields("T1", "B")),
            instance("W2", "A", 16, 0, target_fields("T2", "C")),
        ],
    )];
    let cache = WarpPlugin.build(&levels, &toc);
    assert_eq!(cache.warp_at(&tile(1, -1, 0)), Some(&target("C", "T2")));
    let mut coords = tile(0, -1, 0);
    let mut pending = start_warp(&cache, &coords);
    warp_fade_out(200_000_000, &cache, &mut coords, &mut pending, &Vec::new());
    warp_player(&cache, &arrived(&tile(1, -1, 0)), &tile(1, -1, 0), &mut pending);
    warp_player(&cache, &arrived(&tile(0, -1, 0)), &tile(0, -1, 0), &mut pending);
    let warp = pending.unwrap();
    assert_eq!(warp.target(), &target("B", "T1"));
    assert_eq!(warp.fade_elapsed_nanos(), 200_000_000);
    assert!(!warp.faded_out());
}

#[test]
fn without_a_warp_a_tick_does_nothing() {
    let (levels, toc) = two_levels();
    let cache = WarpPlugin.build(&levels, &toc);
    let mut coords = tile(5, -4, 0);
    let mut pending = None;
    let fade = warp_fade_out(WARP_FADE_OUT_TIME_NANOS, &cache, &mut coords, &mut pending, &vec![s("B")]);
    assert_eq!(fade, WarpFade { darkness: None, relocation: Relocation::NotDue });
    assert_eq!(coords, tile(5, -4, 0));
    assert!(pending.is_none());
}

#[test]
fn the_screen_darkens_step_by_step() {
    let (levels, toc) = two_levels();
    let cache = WarpPlugin.build(&levels, &toc);
    let mut coords = tile(5, -4, 0);
    let mut pending = start_warp(&cache, &coords);
    let loaded = vec![s("A"), s("B")];
    let mut seen = Vec::new();
    for _ in 0..9 {
        let fade = warp_fade_out(50_000_000, &cache, &mut coords, &mut pending, &loaded);
        assert_eq!(fade.relocation, Relocation::NotDue);
        assert_eq!(coords, tile(5, -4, 0));
        seen.push(fade.darkness.unwrap());
    }
    assert_eq!(seen, vec![0, 0, 1, 1, 2, 2, 2, 3, 3]);
    assert_eq!(pending.as_ref().unwrap().fade_elapsed_nanos(), 450_000_000);
}

#[test]
fn the_darkness_changes_exactly_at_the_quarters() {
    let (levels, toc) = two_levels();
    let cache = WarpPlugin.build(&levels, &toc);
    let mut coords = tile(5, -4, 0);
    let mut pending = start_warp(&cache, &coords);
    let none = Vec::new();
    let mut tick = |delta: u64| warp_fade_out(delta, &cache, &mut coords, &mut pending, &none).darkness;
    assert_eq!(tick(0), Some(0));
    assert_eq!(tick(124_999_999), Some(0));
    assert_eq!(tick(1), Some(1));
    assert_eq!(tick(124_999_999), Some(1));
    assert_eq!(tick(1), Some(2));
    assert_eq!(tick(125_000_000), Some(3));
    assert_eq!(tick(124_999_999), Some(3));
    assert_eq!(tick(1), None);
}

#[test]
fn the_end_of_the_fade_puts_the_player_on_the_target() {
    let (levels, toc) = two_levels();
    let cache = WarpPlugin.build(&levels, &toc);
    let mut coords = tile(5, -4, 0);
    let mut pending = start_warp(&cache, &coords);
    let loaded = vec![s("A"), s("B")];
    warp_fade_out(499_999_999, &cache, &mut coords, &mut pending, &loaded);
    assert_eq!(coords, tile(5, -4, 0));
    let fade = warp_fade_out(1, &cache, &mut coords, &mut pending, &loaded);
    assert_eq!(fade, WarpFade { darkness: Some(0), relocation: Relocation::Moved });
    assert_eq!(coords, tile(12, -7, 0));
    assert!(pending.is_none());
}

#[test]
fn a_warp_to_another_layer_changes_the_layer() {
    let levels = vec![level("A", 0, 0, 0), level("Cellar", 0, 0, 1)];
    let toc = vec![
        entry("Warp", vec![instance("W", "A", 0, 0, target_fields("T", "Cellar"))]),
        entry("WarpTarget", vec![instance("T", "Cellar", 32, 32, None)]),
    ];
    let cache = WarpPlugin.build(&levels, &toc);
    let mut coords = tile(0, -1, 0);
    let mut pending = start_warp(&cache, &coords);
    let fade = warp_fade_out(u64::MAX, &cache, &mut coords, &mut pending, &vec![s("Cellar")]);
    assert_eq!(fade.relocation, Relocation::Moved);
    assert_eq!(coords, tile(2, -3, 1));
}

#[test]
fn a_warp_goes_from_fading_to_waiting_to_over() {
    let (levels, toc) = two_levels();
    let cache = WarpPlugin.build(&levels, &toc);
    let mut coords = tile(5, -4, 0);
    let mut pending = None;
    assert_eq!(current_warp_state(&pending), WarpState::Unwarped);
    warp_player(&cache, &arrived(&coords), &coords, &mut pending);
    assert_eq!(current_warp_state(&pending), WarpState::FadingOut);
    warp_fade_out(499_999_999, &cache, &mut coords, &mut pending, &Vec::new());
    assert_eq!(current_warp_state(&pending), WarpState::FadingOut);
    warp_fade_out(1, &cache, &mut coords, &mut pending, &Vec::new());
    assert_eq!(current_warp_state(&pending), WarpState::AwaitingLevelLoad);
    warp_fade_out(1, &cache, &mut coords, &mut pending, &vec![s("B")]);
    assert_eq!(current_warp_state(&pending), WarpState::Unwarped);
}

#[test]
fn the_warp_waits_for_the_level_it_leads_to() {
    let (levels, toc) = two_levels();
    let cache = WarpPlugin.build(&levels, &toc);
    let mut coords = tile(5, -4, 0);
    let mut pending = start_warp(&cache, &coords);
    let fade = warp_fade_out(WARP_FADE_OUT_TIME_NANOS, &cache, &mut coords, &mut pending, &vec![s("A")]);
    assert_eq!(fade, WarpFade { darkness: None, relocation: Relocation::Moved });
    assert_eq!(coords, tile(12, -7, 0));
    assert!(pending.as_ref().unwrap().faded_out());
    assert_eq!(pending.as_ref().unwrap().fade_elapsed_nanos(), WARP_FADE_OUT_TIME_NANOS);

    let fade = warp_fade_out(16_666_667, &cache, &mut coords, &mut pending, &vec![s("A")]);
    assert_eq!(fade, WarpFade { darkness: None, relocation: Relocation::NotDue });
    assert_eq!(coords, tile(12, -7, 0));
    assert!(pending.is_some());

    let fade = warp_fade_out(16_666_667, &cache, &mut coords, &mut pending, &vec![s("A"), s("B")]);
    assert_eq!(fade, WarpFade { darkness: Some(0), relocation: Relocation::NotDue });
    assert_eq!(coords, tile(12, -7, 0));
    assert!(pending.is_none());
}

#[test]
fn a_warp_whose_target_is_missing_ends_with_its_fade() {
    let levels = vec![level("A", 0, 0, 0), level("B", 160, 0, 0)];
    let toc = vec![entry("Warp", vec![instance("W1", "A", 80, 48, target_fields("T1", "B"))])];
    let cache = WarpPlugin.build(&levels, &toc);
    let mut coords = tile(5, -4, 0);
    let mut pending = start_warp(&cache, &coords);
    let fade = warp_fade_out(300_000_000, &cache, &mut coords, &mut pending, &vec![s("A")]);
    assert_eq!(fade, WarpFade { darkness: Some(2), relocation: Relocation::NotDue });
    assert_eq!(current_warp_state(&pending), WarpState::FadingOut);
    let fade = warp_fade_out(300_000_000, &cache, &mut coords, &mut pending, &vec![s("A")]);
    assert_eq!(fade, WarpFade { darkness: Some(0), relocation: Relocation::TargetMissing });
    assert_eq!(coords, tile(5, -4, 0));
    assert!(pending.is_none());
    assert_eq!(current_warp_state(&pending), WarpState::Unwarped);
    let fade = warp_fade_out(16_666_667, &cache, &mut coords, &mut pending, &vec![s("A")]);
    assert_eq!(fade, WarpFade { darkness: None, relocation: Relocation::NotDue });
    assert_eq!(coords, tile(5, -4, 0));
}

#[test]
fn a_warp_whose_target_is_missing_waits_for_no_level() {
    let levels = vec![level("A", 0, 0, 0)];
    let toc = vec![entry("Warp", vec![instance("W1", "A", 80, 48, target_fields("T1", "Nowhere"))])];
    let cache = WarpPlugin.build(&levels, &toc);
    let mut coords = tile(5, -4, 0);
    let mut pending = start_warp(&cache, &coords);
    let mut ticks = 0;
    while pending.is_some() {
        let fade = warp_fade_out(16_666_667, &cache, &mut coords, &mut pending, &Vec::new());
        assert_ne!(fade.relocation, Relocation::Moved);
        assert_eq!(coords, tile(5, -4, 0));
        ticks += 1;
        assert!(ticks <= 30);
        if pending.is_none() {
            assert_eq!(fade, WarpFade { darkness: Some(0), relocation: Relocation::TargetMissing });
        }
    }
    assert_eq!(ticks, 30);
}

#[test]
fn after_a_warp_another_can_begin() {
    let (levels, toc) = two_levels();
    let cache = WarpPlugin.build(&levels, &toc);
    let mut coords = tile(5, -4, 0);
    let mut pending = start_warp(&cache, &coords);
    warp_fade_out(WARP_FADE_OUT_TIME_NANOS, &cache, &mut coords, &mut pending, &vec![s("B")]);
    assert!(pending.is_none());
    warp_player(&cache, &arrived(&tile(5, -4, 0)), &tile(5, -4, 0), &mut pending);
    let warp = pending.unwrap();
    assert_eq!(warp.fade_elapsed_nanos(), 0);
    assert!(!warp.faded_out());
}

#[test]
fn stepping_onto_a_warp_tile_carries_the_player_to_the_other_level() {
    let (levels, toc) = two_levels();
    let cache = WarpPlugin.build(&levels, &toc);
    let blocked = BlockedTilesCache::default();
    let player = Entity::from_raw(1);
    let mut loaded = vec![s("A")];

    assert_eq!(resolve(GridCoords { x: 5, y: 5 }, &levels[0]), Some(tile(5, -4, 0)));
    let arrival = resolve(GridCoords { x: 2, y: 2 }, &levels[1]).unwrap();
    let mut coords = resolve(GridCoords { x: 5, y: 4 }, &levels[0]).unwrap();
    let mut mover = TileMover::default();
    let mut pending: Option<WarpPending> = None;
    let mut darkness = 0;
    let mut fades_begun = 0;
    let mut relocations = 0;

    let frame: u64 = 16_666_667;
    for tick in 0..200 {
        let up = tick < 30;
        move_player(up, false, false, false, pending.is_some(), &mut mover);
        let moved = tile_movement_tick(frame, &blocked, player, &mut coords, &mut mover);
        if let Some(event) = moved {
            let was_warping = pending.is_some();
            warp_player(&cache, &event, &coords, &mut pending);
            if pending.is_some() && !was_warping {
                fades_begun += 1;
                assert_eq!(event.pos, IVec2 { x: 5, y: -4 });
                assert_eq!(coords, tile(5, -4, 0));
            }
        }
        let fade = warp_fade_out(frame, &cache, &mut coords, &mut pending, &loaded);
        if let Some(level) = fade.darkness {
            assert!(level >= darkness || level == 0);
            darkness = level;
        }
        if fade.relocation == Relocation::Moved {
            relocations += 1;
            assert_eq!(coords, arrival);
            assert!(pending.is_some());
        }
        if tick == 120 {
            loaded = vec![s("B")];
        }
        if tick <= 120 && relocations == 1 {
            assert!(pending.is_some());
            assert_eq!(darkness, 3);
        }
    }
    assert_eq!(fades_begun, 1);
    assert_eq!(relocations, 1);
    assert_eq!(coords, arrival);
    assert_eq!(coords, tile(12, -7, 0));
    assert!(pending.is_none());
    assert_eq!(darkness, 0);
    assert!(MOVEMENT_TICK_NANOS > frame);
    assert_eq!(mover.moving_dir(), MoveDir::NotMoving);
}
