use plat::level_data::IVec2;
use plat::level_data::Level;
use plat::util::floor_div;
use plat::util::get_level_origin_grid_coord;
use plat::util::TILE_GRID_SIZE;

fn level(world_x: i32, world_y: i32, px_wid: i32, px_hei: i32) -> Level {
    Level {
        iid: String::from("level"),
        world_x,
        world_y,
        px_wid,
        px_hei,
        world_depth: 0,
        neighbours: Vec::new(),
    }
}

#[test]
fn tiles_are_sixteen_pixels() {
    assert_eq!(TILE_GRID_SIZE, 16);
}

#[test]
fn floor_div_rounds_down_on_both_sides_of_zero() {
    assert_eq!(floor_div(0, 16), 0);
    assert_eq!(floor_div(15, 16), 0);
    assert_eq!(floor_div(16, 16), 1);
    assert_eq!(floor_div(17, 16), 1);
    assert_eq!(floor_div(-1, 16), -1);
    assert_eq!(floor_div(-16, 16), -1);
    assert_eq!(floor_div(-17, 16), -2);
    assert_eq!(floor_div(-144, 16), -9);
}

#[test]
fn floor_div_at_the_ends_of_the_range() {
    assert_eq!(floor_div(i64::MIN, 1), i64::MIN);
    assert_eq!(floor_div(i64::MAX, 1), i64::MAX);
    assert_eq!(floor_div(i64::MIN, i64::MAX), -2);
    assert_eq!(floor_div(i64::MIN, 16), -(1i64 << 59));
}

#[test]
fn origin_of_a_level_at_the_world_origin() {
    let origin = get_level_origin_grid_coord(&level(0, 0, 160, 144));
    assert_eq!(origin, IVec2 { x: 0, y: -9 });
}

#[test]
fn origin_of_a_level_to_the_right_and_above() {
    let origin = get_level_origin_grid_coord(&level(160, -144, 160, 144));
    assert_eq!(origin, IVec2 { x: 10, y: 0 });
}

#[test]
fn origin_rounds_down_between_tiles() {
    let origin = get_level_origin_grid_coord(&level(-1, 1, 160, 144));
    assert_eq!(origin, IVec2 { x: -1, y: -10 });
    let origin = get_level_origin_grid_coord(&level(17, -150, 160, 144));
    assert_eq!(origin, IVec2 { x: 1, y: 0 });
}

#[test]
fn origin_of_levels_at_the_ends_of_the_pixel_range() {
    let origin = get_level_origin_grid_coord(&level(i32::MAX, i32::MAX, 0, i32::MAX));
    assert_eq!(origin, IVec2 { x: 134_217_727, y: -268_435_456 });
    let origin = get_level_origin_grid_coord(&level(i32::MIN, i32::MIN, 0, i32::MIN));
    assert_eq!(origin, IVec2 { x: -134_217_728, y: 268_435_456 });
}
