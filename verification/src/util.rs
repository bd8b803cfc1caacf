use crate::level_data::IVec2;
use crate::level_data::Level;
use vstd::prelude::*;

verus! {

/// Edge length of one square tile, in pixels.
pub const TILE_GRID_SIZE: i32 = 16;

/// Quotient rounded towards negative infinity, for a positive divisor.
pub fn floor_div(a: i64, b: i64) -> (q: i64)
    requires
        b > 0,
    ensures
        q == a as int / b as int,
{
    let q: i64 = a / b;
    if a >= 0 {
        q
    } else {
        let ghost t: int = (-a) / b as int;
        assert(q == -t);
        assert(0 <= (-a) - t * b < b && 0 <= t <= t * b && q * b == -(t * b)) by (nonlinear_arith)
            requires
                b > 0,
                a < 0,
                t == (-a) / b as int,
                q == -t,
        {
        }
        if q * b == a {
            assert(q == a as int / b as int) by (nonlinear_arith)
                requires
                    b > 0,
                    q * b == a,
            {
            }
            q
        } else {
            assert(q - 1 == a as int / b as int) by (nonlinear_arith)
                requires
                    b > 0,
                    q == -t,
                    0 < (-a) - t * b < b,
            {
            }
            q - 1
        }
    }
}

/// The tile at the lower left corner of a level, on the world grid. The level
/// format's Y axis grows downward and the world's grows upward, so the corner
/// lies at the level's bottom edge, negated.
pub open spec fn level_origin(level: Level) -> IVec2 {
    IVec2 {
        x: (level.world_x as int / TILE_GRID_SIZE as int) as i32,
        y: ((-(level.world_y + level.px_hei)) / TILE_GRID_SIZE as int) as i32,
    }
}

/// The tile at the lower left corner of `level`, on the world grid.
pub fn get_level_origin_grid_coord(level: &Level) -> (origin: IVec2)
    ensures
        origin == level_origin(*level),
        origin.x == level.world_x as int / 16,
        origin.y == (-(level.world_y + level.px_hei)) / 16,
{
    let x: i64 = floor_div(level.world_x as i64, TILE_GRID_SIZE as i64);
    let y: i64 = floor_div(0 - level.world_y as i64 - level.px_hei as i64, TILE_GRID_SIZE as i64);
    IVec2 { x: x as i32, y: y as i32 }
}

} // verus!
