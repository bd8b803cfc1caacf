use crate::collision::BlockedTilesCache;
use crate::collision::WorldGridCoords;
use crate::level_data::IVec2;
use crate::level_data::WorldPixel;
use crate::timer::once_timer;
use crate::timer::restarted;
use crate::timer::tick_timer;
use crate::timer::ticked;
use crate::timer::timer_duration_nanos;
use crate::timer::timer_elapsed_nanos;
use crate::timer::timer_state;
use crate::timer::TimerState;
use bevy::ecs::entity::Entity;
use bevy::time::Timer;
use vstd::prelude::*;

verus! {

/// `bevy::ecs::entity::Entity`, the name of an entity. The library hands
/// these on and never looks into one.
#[verifier::external_type_specification]
#[verifier::external_body]
pub struct ExEntity(Entity);

/// How long one step from tile to tile takes, in nanoseconds: a third of a
/// second, to the precision of a 32-bit float.
pub const MOVEMENT_TICK_NANOS: u64 = 333_333_343;

/// How long one frame of an animation shows, in nanoseconds: half a step.
pub const ANIMATION_FRAME_TIME_NANOS: u64 = 166_666_671;

/// A direction in which a tile mover can move, or none.
#[derive(Clone, Copy, Debug, PartialEq, Eq, Structural)]
pub enum MoveDir {
    Up,
    Down,
    Left,
    Right,
    NotMoving,
}

/// A direction in which a tile mover can look.
#[derive(Clone, Copy, Debug, PartialEq, Eq, Structural)]
pub enum FacingDir {
    Up,
    Down,
    Left,
    Right,
}

/// The middle of a tile in world pixels.
pub open spec fn spec_world_pixel(x: int, y: int) -> WorldPixel {
    WorldPixel { x: (16 * x + 8) as i64, y: (16 * y + 8) as i64 }
}

/// The middle of the tile at `world_grid_coords`, in world pixels.
pub fn world_grid_coord_to_world_pixel(world_grid_coords: &WorldGridCoords) -> (pixel: WorldPixel)
    ensures
        pixel == spec_world_pixel(world_grid_coords.x as int, world_grid_coords.y as int),
{
    WorldPixel {
        x: 16 * (world_grid_coords.x as i64) + 8,
        y: 16 * (world_grid_coords.y as i64) + 8,
    }
}

/// The step of one tile that a direction stands for; no step for none.
pub open spec fn spec_movedir_to_vec(dir: MoveDir) -> IVec2 {
    match dir {
        MoveDir::Up => IVec2 { x: 0, y: 1 },
        MoveDir::Down => IVec2 { x: 0, y: -1i32 },
        MoveDir::Left => IVec2 { x: -1i32, y: 0 },
        MoveDir::Right => IVec2 { x: 1, y: 0 },
        MoveDir::NotMoving => IVec2 { x: 0, y: 0 },
    }
}

/// The step of one tile that a direction stands for.
pub fn movedir_to_vec(dir: MoveDir) -> (v: IVec2)
    ensures
        v == spec_movedir_to_vec(dir),
{
    match dir {
        MoveDir::Up => IVec2 { x: 0, y: 1 },
        MoveDir::Down => IVec2 { x: 0, y: -1 },
        MoveDir::Left => IVec2 { x: -1, y: 0 },
        MoveDir::Right => IVec2 { x: 1, y: 0 },
        MoveDir::NotMoving => IVec2 { x: 0, y: 0 },
    }
}

/// The way a mover looks after it set out in direction `dir`: that direction,
/// or where it looked before if `dir` is none.
pub open spec fn facing_after(dir: MoveDir, facing: FacingDir) -> FacingDir {
    match dir {
        MoveDir::Up => FacingDir::Up,
        MoveDir::Down => FacingDir::Down,
        MoveDir::Left => FacingDir::Left,
        MoveDir::Right => FacingDir::Right,
        MoveDir::NotMoving => facing,
    }
}

/// The tile one step from `coords` in direction `dir`, on the same layer.
/// `None` where the grid ends: no 32-bit coordinate names the tile.
pub open spec fn spec_step_target(coords: WorldGridCoords, dir: MoveDir) -> Option<
    WorldGridCoords,
> {
    let x = coords.x + spec_movedir_to_vec(dir).x;
    let y = coords.y + spec_movedir_to_vec(dir).y;
    if i32::MIN <= x <= i32::MAX && i32::MIN <= y <= i32::MAX {
        Some(WorldGridCoords { x: x as i32, y: y as i32, z: coords.z })
    } else {
        None
    }
}

/// The tile one step from `coords` in direction `dir`.
pub fn step_target(coords: &WorldGridCoords, dir: MoveDir) -> (target: Option<WorldGridCoords>)
    ensures
        target == spec_step_target(*coords, dir),
{
    let v = movedir_to_vec(dir);
    let x: i64 = coords.x as i64 + v.x as i64;
    let y: i64 = coords.y as i64 + v.y as i64;
    if x < i32::MIN as i64 || x > i32::MAX as i64 || y < i32::MIN as i64 || y > i32::MAX as i64 {
        None
    } else {
        Some(WorldGridCoords { x: x as i32, y: y as i32, z: coords.z })
    }
}

/// Notice that an entity has arrived on a tile.
#[derive(Clone, Copy, Debug)]
pub struct TileMovedEvent {
    pub entity: Entity,
    pub pos: IVec2,
}

/// What makes an entity move from tile to tile: the direction it is asked to
/// go, the direction of the step under way, the way it looks, and the timer
/// of the step.
pub struct TileMover {
    want_move_dir: MoveDir,
    moving_dir: MoveDir,
    facing_dir: FacingDir,
    timer: Timer,
}

/// A tile mover as plain values.
pub struct TileMoverView {
    pub want_move_dir: MoveDir,
    pub moving_dir: MoveDir,
    pub facing_dir: FacingDir,
    pub timer: TimerState,
}

impl TileMoverView {
    /// What holds of every tile mover: its timer is a running one-shot timer
    /// of one step's length that has not counted past its end, and that is
    /// short of its end until it has finished; and once the timer has
    /// finished no step is under way.
    pub open spec fn wf(self) -> bool {
        &&& !self.timer.repeating
        &&& !self.timer.paused
        &&& self.timer.duration == MOVEMENT_TICK_NANOS
        &&& self.timer.elapsed <= self.timer.duration
        &&& !self.timer.finished ==> self.timer.elapsed < self.timer.duration
        &&& self.timer.just_finished ==> self.timer.finished
        &&& self.timer.finished ==> self.moving_dir == MoveDir::NotMoving
    }

    /// Whether the mover stands still, ready to set out: its step timer has
    /// run out.
    pub open spec fn idle(self) -> bool {
        self.timer.finished
    }
}

impl View for TileMover {
    type V = TileMoverView;

    closed spec fn view(&self) -> TileMoverView {
        TileMoverView {
            want_move_dir: self.want_move_dir,
            moving_dir: self.moving_dir,
            facing_dir: self.facing_dir,
            timer: timer_state(self.timer),
        }
    }
}

impl Default for TileMover {
    /// A mover that looks down, wants nothing, and waits out the length of
    /// one step before it can set out.
    fn default() -> (mover: Self)
        ensures
            mover@.wf(),
            mover@.want_move_dir == MoveDir::NotMoving,
            mover@.moving_dir == MoveDir::NotMoving,
            mover@.facing_dir == FacingDir::Down,
            mover@.timer.elapsed == 0,
            !mover@.timer.finished,
            !mover@.timer.just_finished,
    {
        TileMover {
            want_move_dir: MoveDir::NotMoving,
            moving_dir: MoveDir::NotMoving,
            facing_dir: FacingDir::Down,
            timer: once_timer(MOVEMENT_TICK_NANOS),
        }
    }
}

/// What one tick of the movement system leaves behind.
pub struct MovementTick {
    /// Where the entity is.
    pub coords: WorldGridCoords,
    /// The mover's state.
    pub mover: TileMoverView,
    /// The tile on which the entity has just arrived, if the tick completed
    /// a step.
    pub moved: Option<IVec2>,
}

/// One tick of the movement system for one entity. The step timer counts
/// `delta` on. While it has not run out nothing else happens. On the tick on
/// which it runs out the entity has arrived, and that is announced. Whenever
/// it has run out the entity may set out again: if a direction is wanted and
/// the tile next door in that direction exists and is not blocked, the entity
/// is on that tile at once, looks that way, and the timer starts over; or
/// else the entity stands still, and the attempt is not kept for a later
/// tick.
pub open spec fn spec_tile_movement_tick(
    coords: WorldGridCoords,
    mover: TileMoverView,
    delta: nat,
    blocked: Set<WorldGridCoords>,
) -> MovementTick {
    let timer = ticked(mover.timer, delta);
    if !timer.finished {
        MovementTick { coords, mover: TileMoverView { timer, ..mover }, moved: None }
    } else {
        let moved = if timer.just_finished {
            Some(IVec2 { x: coords.x, y: coords.y })
        } else {
            None
        };
        match spec_step_target(coords, mover.want_move_dir) {
            Some(target) if mover.want_move_dir != MoveDir::NotMoving && !blocked.contains(
                target,
            ) => MovementTick {
                coords: target,
                mover: TileMoverView {
                    moving_dir: mover.want_move_dir,
                    facing_dir: facing_after(mover.want_move_dir, mover.facing_dir),
                    timer: restarted(timer),
                    ..mover
                },
                moved,
            },
            _ => MovementTick {
                coords,
                mover: TileMoverView { moving_dir: MoveDir::NotMoving, timer, ..mover },
                moved,
            },
        }
    }
}

impl TileMover {
    /// The direction the mover is asked to go.
    pub fn want_move_dir(&self) -> (dir: MoveDir)
        ensures
            dir == self@.want_move_dir,
    {
        self.want_move_dir
    }

    /// The direction of the step under way, none when the mover stands.
    pub fn moving_dir(&self) -> (dir: MoveDir)
        ensures
            dir == self@.moving_dir,
    {
        self.moving_dir
    }

    /// The way the mover looks.
    pub fn facing_dir(&self) -> (dir: FacingDir)
        ensures
            dir == self@.facing_dir,
    {
        self.facing_dir
    }

    /// Whether the mover stands still, ready to set out.
    pub fn idle(&self) -> (idle: bool)
        ensures
            idle == self@.idle(),
    {
        self.timer.finished()
    }
}

/// Runs the movement system for one entity over one tick of `delta_nanos`
/// nanoseconds, and returns the notice to send if the entity has just
/// arrived on a tile.
pub fn tile_movement_tick(
    delta_nanos: u64,
    blocked_tile_cache: &BlockedTilesCache,
    entity: Entity,
    world_grid_coords: &mut WorldGridCoords,
    tile_mover: &mut TileMover,
) -> (moved: Option<TileMovedEvent>)
    requires
        old(tile_mover)@.wf(),
    ensures
        final(tile_mover)@.wf(),
        *final(world_grid_coords) == spec_tile_movement_tick(
            *old(world_grid_coords),
            old(tile_mover)@,
            delta_nanos as nat,
            blocked_tile_cache@,
        ).coords,
        final(tile_mover)@ == spec_tile_movement_tick(
            *old(world_grid_coords),
            old(tile_mover)@,
            delta_nanos as nat,
            blocked_tile_cache@,
        ).mover,
        match moved {
            Some(event) => event.entity == entity && spec_tile_movement_tick(
                *old(world_grid_coords),
                old(tile_mover)@,
                delta_nanos as nat,
                blocked_tile_cache@,
            ).moved == Some(event.pos),
            None => spec_tile_movement_tick(
                *old(world_grid_coords),
                old(tile_mover)@,
                delta_nanos as nat,
                blocked_tile_cache@,
            ).moved is None,
        },
{
    tick_timer(&mut tile_mover.timer, delta_nanos);
    if !tile_mover.timer.finished() {
        return None;
    }
    let moved = if tile_mover.timer.just_finished() {
        Some(TileMovedEvent { entity, pos: IVec2 { x: world_grid_coords.x, y: world_grid_coords.y } })
    } else {
        None
    };
    let want_move_dir = tile_mover.want_move_dir;
    let mut committed = false;
    if want_move_dir != MoveDir::NotMoving {
        match step_target(world_grid_coords, want_move_dir) {
            Some(position_to_move_to) => {
                if !blocked_tile_cache.is_blocked(&position_to_move_to) {
                    tile_mover.facing_dir =
                    match want_move_dir {
                        MoveDir::Up => FacingDir::Up,
                        MoveDir::Down => FacingDir::Down,
                        MoveDir::Left => FacingDir::Left,
                        MoveDir::Right => FacingDir::Right,
                        MoveDir::NotMoving => tile_mover.facing_dir,
                    };
                    world_grid_coords.x = position_to_move_to.x;
                    world_grid_coords.y = position_to_move_to.y;
                    tile_mover.timer.reset();
                    tile_mover.moving_dir = want_move_dir;
                    committed = true;
                }
            },
            None => {},
        }
    }
    if !committed {
        tile_mover.moving_dir = MoveDir::NotMoving;
    }
    moved
}

/// How to draw an entity between two tiles: the pixel it comes from, the
/// pixel it goes to, and how much of the way's time has passed.
#[derive(Clone, Copy, Debug, PartialEq, Eq, Structural)]
pub struct TileLerp {
    /// The middle of the tile that the entity left.
    pub from: WorldPixel,
    /// The middle of the tile that the entity is on.
    pub to: WorldPixel,
    /// The time spent on the way, in nanoseconds.
    pub elapsed_nanos: u64,
    /// The time that the whole way takes, in nanoseconds.
    pub duration_nanos: u64,
    /// Whether the entity has arrived: it is to be drawn at `to`.
    pub finished: bool,
}

/// Where the step under way began and ends, in world pixels, and how far the
/// step's timer has come.
pub open spec fn spec_tile_lerp(coords: WorldGridCoords, mover: TileMoverView) -> TileLerp {
    TileLerp {
        from: spec_world_pixel(
            coords.x - spec_movedir_to_vec(mover.moving_dir).x,
            coords.y - spec_movedir_to_vec(mover.moving_dir).y,
        ),
        to: spec_world_pixel(coords.x as int, coords.y as int),
        elapsed_nanos: mover.timer.elapsed as u64,
        duration_nanos: mover.timer.duration as u64,
        finished: mover.timer.finished,
    }
}

/// Tells how to draw an entity on its way from tile to tile. The entity is
/// on its target tile already; it was one step against its moving direction
/// before. Once the step's timer has run out the entity has arrived and is
/// no longer moving.
pub fn tile_movement_lerp(world_grid_coords: &WorldGridCoords, tile_mover: &mut TileMover) -> (lerp:
    TileLerp)
    requires
        old(tile_mover)@.wf(),
    ensures
        final(tile_mover)@.wf(),
        lerp == spec_tile_lerp(*world_grid_coords, old(tile_mover)@),
        final(tile_mover)@ == (TileMoverView {
            moving_dir: if old(tile_mover)@.timer.finished {
                MoveDir::NotMoving
            } else {
                old(tile_mover)@.moving_dir
            },
            ..old(tile_mover)@
        }),
{
    let move_dir_vec = movedir_to_vec(tile_mover.moving_dir);
    let moving_to_pos = world_grid_coord_to_world_pixel(world_grid_coords);
    let moving_from_pos = WorldPixel {
        x: 16 * (world_grid_coords.x as i64 - move_dir_vec.x as i64) + 8,
        y: 16 * (world_grid_coords.y as i64 - move_dir_vec.y as i64) + 8,
    };
    let elapsed: u128 = timer_elapsed_nanos(&tile_mover.timer);
    let duration: u128 = timer_duration_nanos(&tile_mover.timer);
    let finished = tile_mover.timer.finished();
    if finished {
        tile_mover.moving_dir = MoveDir::NotMoving;
    }
    TileLerp {
        from: moving_from_pos,
        to: moving_to_pos,
        elapsed_nanos: elapsed as u64,
        duration_nanos: duration as u64,
        finished,
    }
}

/// The first and last frame of an animation on its sprite sheet.
#[derive(Clone, Copy, Debug, PartialEq, Eq, Structural)]
pub struct AnimationIndices {
    pub first: usize,
    pub last: usize,
}

impl Default for AnimationIndices {
    fn default() -> (indices: Self)
        ensures
            indices.first == 0,
            indices.last == 1,
    {
        Self { first: 0, last: 1 }
    }
}

/// For how long an animation has been playing, in nanoseconds.
#[derive(Clone, Copy, Debug, PartialEq, Eq, Structural)]
pub struct AnimationTimer {
    pub time_animated: u64,
}

impl Default for AnimationTimer {
    fn default() -> (timer: Self)
        ensures
            timer.time_animated == 0,
    {
        Self { time_animated: 0 }
    }
}

/// The frames of the walk in each direction, first and last.
pub const WALK_ANIMATION_FRAMES_FORWARD: (usize, usize) = (0, 3);

pub const WALK_ANIMATION_FRAMES_BACKWARD: (usize, usize) = (4, 7);

pub const WALK_ANIMATION_FRAMES_RIGHT: (usize, usize) = (8, 11);

pub const WALK_ANIMATION_FRAMES_LEFT: (usize, usize) = (12, 15);

/// The frames to play for a mover: the walk in the direction it looks while
/// it moves, and the first frame of that walk alone while it stands.
pub open spec fn walk_frames(mover: TileMoverView) -> AnimationIndices {
    let walk = match mover.facing_dir {
        FacingDir::Up => WALK_ANIMATION_FRAMES_BACKWARD,
        FacingDir::Down => WALK_ANIMATION_FRAMES_FORWARD,
        FacingDir::Left => WALK_ANIMATION_FRAMES_LEFT,
        FacingDir::Right => WALK_ANIMATION_FRAMES_RIGHT,
    };
    if mover.moving_dir == MoveDir::NotMoving {
        AnimationIndices { first: walk.0, last: walk.0 }
    } else {
        AnimationIndices { first: walk.0, last: walk.1 }
    }
}

/// Chooses the frames to play for a mover. Where they differ from the frames
/// played so far the animation starts over.
pub fn walk_anim_control(
    anim_indices: &mut AnimationIndices,
    anim_timer: &mut AnimationTimer,
    tile_mover: &TileMover,
)
    ensures
        *final(anim_indices) == walk_frames(tile_mover@),
        final(anim_timer).time_animated == if *old(anim_indices) == walk_frames(tile_mover@) {
            old(anim_timer).time_animated
        } else {
            0
        },
{
    let mut indices = match tile_mover.facing_dir {
        FacingDir::Up => WALK_ANIMATION_FRAMES_BACKWARD,
        FacingDir::Down => WALK_ANIMATION_FRAMES_FORWARD,
        FacingDir::Left => WALK_ANIMATION_FRAMES_LEFT,
        FacingDir::Right => WALK_ANIMATION_FRAMES_RIGHT,
    };
    if tile_mover.moving_dir == MoveDir::NotMoving {
        indices.1 = indices.0;
    }
    if anim_indices.first != indices.0 || anim_indices.last != indices.1 {
        anim_timer.time_animated = 0;
    }
    anim_indices.first = indices.0;
    anim_indices.last = indices.1;
}

/// The time an animation has played after `delta` more nanoseconds. The
/// count stops at the largest value it can hold.
pub open spec fn time_animated_after(time_animated: u64, delta: u64) -> u64 {
    if time_animated + delta > u64::MAX {
        u64::MAX
    } else {
        (time_animated + delta) as u64
    }
}

/// The frame that shows when an animation over `indices` has played for
/// `time_animated` nanoseconds: the frames follow one another, each for the
/// length of one frame, and start over after the last. An animation of a
/// single frame shows that frame at all times.
pub open spec fn spec_current_frame(indices: AnimationIndices, time_animated: u64) -> int {
    let range = indices.last - indices.first;
    let frames_progressed = time_animated as int / ANIMATION_FRAME_TIME_NANOS as int;
    if range == 0 {
        indices.first as int
    } else {
        indices.first + frames_progressed % (range + 1)
    }
}

/// Plays an animation on by `delta_nanos` nanoseconds and returns the frame
/// to show.
pub fn animate_sprite(delta_nanos: u64, anim_indices: &AnimationIndices, timer: &mut AnimationTimer) -> (
    current_frame: usize
)
    requires
        anim_indices.first <= anim_indices.last,
    ensures
        final(timer).time_animated == time_animated_after(old(timer).time_animated, delta_nanos),
        current_frame == spec_current_frame(*anim_indices, final(timer).time_animated),
        anim_indices.first <= current_frame <= anim_indices.last,
{
    timer.time_animated = timer.time_animated.saturating_add(delta_nanos);
    let range: usize = anim_indices.last - anim_indices.first;
    let frames_progressed_round_down: u64 = timer.time_animated / ANIMATION_FRAME_TIME_NANOS;
    if range == 0 {
        anim_indices.first
    } else {
        let frames: u128 = range as u128 + 1;
        let offset: u128 = frames_progressed_round_down as u128 % frames;
        anim_indices.first + offset as usize
    }
}

/// The direction that the pressed keys ask for: up before down before left
/// before right, and none when no key is pressed or a warp holds the player.
pub open spec fn wanted_dir(up: bool, down: bool, left: bool, right: bool, warping: bool) -> MoveDir {
    if warping {
        MoveDir::NotMoving
    } else if up {
        MoveDir::Up
    } else if down {
        MoveDir::Down
    } else if left {
        MoveDir::Left
    } else if right {
        MoveDir::Right
    } else {
        MoveDir::NotMoving
    }
}

/// Takes in the direction that the player asks for this tick. The four
/// flags tell which arrow keys are held; `warping` tells whether a warp of
/// the player is under way, during which it is asked to go nowhere. What was
/// asked before is forgotten.
pub fn move_player(
    up: bool,
    down: bool,
    left: bool,
    right: bool,
    warping: bool,
    tile_mover: &mut TileMover,
)
    ensures
        final(tile_mover)@ == (TileMoverView {
            want_move_dir: wanted_dir(up, down, left, right, warping),
            ..old(tile_mover)@
        }),
{
    tile_mover.want_move_dir = if warping {
        MoveDir::NotMoving
    } else if up {
        MoveDir::Up
    } else if down {
        MoveDir::Down
    } else if left {
        MoveDir::Left
    } else if right {
        MoveDir::Right
    } else {
        MoveDir::NotMoving
    };
}

/// What one tick brings from outside: the time that has passed, the
/// direction asked for, and the tiles that are blocked.
pub struct TickInput {
    pub delta: nat,
    pub want_move_dir: MoveDir,
    pub blocked: Set<WorldGridCoords>,
}

/// The outcome of a run of ticks, each one taking in its wanted direction
/// and then moving: where the entity is and how its mover stands after the
/// last tick, and what that last tick announced.
pub open spec fn spec_run(
    coords: WorldGridCoords,
    mover: TileMoverView,
    inputs: Seq<TickInput>,
) -> MovementTick
    decreases inputs.len(),
{
    if inputs.len() == 0 {
        MovementTick { coords, mover, moved: None }
    } else {
        let before = spec_run(coords, mover, inputs.drop_last());
        spec_tile_movement_tick(
            before.coords,
            TileMoverView { want_move_dir: inputs.last().want_move_dir, ..before.mover },
            inputs.last().delta,
            inputs.last().blocked,
        )
    }
}

/// How many arrivals a run of ticks announced.
pub open spec fn moved_count(
    coords: WorldGridCoords,
    mover: TileMoverView,
    inputs: Seq<TickInput>,
) -> nat
    decreases inputs.len(),
{
    if inputs.len() == 0 {
        0
    } else {
        moved_count(coords, mover, inputs.drop_last()) + if spec_run(
            coords,
            mover,
            inputs,
        ).moved is Some {
            1nat
        } else {
            0nat
        }
    }
}

/// The time that passes over a run of ticks.
pub open spec fn total_delta(inputs: Seq<TickInput>) -> nat
    decreases inputs.len(),
{
    if inputs.len() == 0 {
        0
    } else {
        total_delta(inputs.drop_last()) + inputs.last().delta
    }
}

/// A mover that could set out and is asked to go where it cannot go stays
/// where it is and stands still: the tile next door is blocked, or the grid
/// ends there. The tick may be the one on which the last step ends.
pub proof fn lemma_blocked_step_stays(
    coords: WorldGridCoords,
    mover: TileMoverView,
    delta: nat,
    blocked: Set<WorldGridCoords>,
)
    requires
        mover.wf(),
        ticked(mover.timer, delta).finished,
        mover.want_move_dir != MoveDir::NotMoving,
        spec_step_target(coords, mover.want_move_dir) matches Some(target) ==> blocked.contains(
            target,
        ),
    ensures
        spec_tile_movement_tick(coords, mover, delta, blocked).coords == coords,
        spec_tile_movement_tick(coords, mover, delta, blocked).mover.moving_dir
            == MoveDir::NotMoving,
        spec_tile_movement_tick(coords, mover, delta, blocked).mover.facing_dir
            == mover.facing_dir,
        spec_tile_movement_tick(coords, mover, delta, blocked).mover.idle(),
        spec_tile_movement_tick(coords, mover, delta, blocked).mover.wf(),
{
}

/// A mover that could set out and is asked to go to a free tile is on that
/// tile at once, looks and moves that way, and has the whole step's time
/// before it.
pub proof fn lemma_free_step_commits(
    coords: WorldGridCoords,
    mover: TileMoverView,
    delta: nat,
    blocked: Set<WorldGridCoords>,
)
    requires
        mover.wf(),
        ticked(mover.timer, delta).finished,
        mover.want_move_dir != MoveDir::NotMoving,
        spec_step_target(coords, mover.want_move_dir) is Some,
        !blocked.contains(spec_step_target(coords, mover.want_move_dir).unwrap()),
    ensures
        spec_tile_movement_tick(coords, mover, delta, blocked).coords == spec_step_target(
            coords,
            mover.want_move_dir,
        ).unwrap(),
        spec_tile_movement_tick(coords, mover, delta, blocked).mover.moving_dir
            == mover.want_move_dir,
        spec_tile_movement_tick(coords, mover, delta, blocked).mover.facing_dir == facing_after(
            mover.want_move_dir,
            mover.facing_dir,
        ),
        !spec_tile_movement_tick(coords, mover, delta, blocked).mover.idle(),
        spec_tile_movement_tick(coords, mover, delta, blocked).mover.timer.elapsed == 0,
        spec_tile_movement_tick(coords, mover, delta, blocked).mover.wf(),
{
}

/// A tick keeps a mover well formed, and moves the entity by one tile at
/// most, on its own layer.
pub proof fn lemma_tick_keeps_wf(
    coords: WorldGridCoords,
    mover: TileMoverView,
    delta: nat,
    blocked: Set<WorldGridCoords>,
)
    requires
        mover.wf(),
    ensures
        spec_tile_movement_tick(coords, mover, delta, blocked).mover.wf(),
        spec_tile_movement_tick(coords, mover, delta, blocked).coords == coords
            || spec_tile_movement_tick(coords, mover, delta, blocked).coords == spec_step_target(
            coords,
            mover.want_move_dir,
        ).unwrap(),
        spec_tile_movement_tick(coords, mover, delta, blocked).coords.z == coords.z,
        blocked.contains(spec_tile_movement_tick(coords, mover, delta, blocked).coords)
            ==> spec_tile_movement_tick(coords, mover, delta, blocked).coords == coords,
{
}

/// While a step is under way and its time has not run out, nothing is
/// announced and the entity stays on the tile it set out for, whatever
/// direction is asked for and whatever is blocked meanwhile.
pub proof fn lemma_step_under_way(
    coords: WorldGridCoords,
    mover: TileMoverView,
    inputs: Seq<TickInput>,
)
    requires
        mover.wf(),
        !mover.timer.finished,
        mover.timer.elapsed + total_delta(inputs) < mover.timer.duration,
    ensures
        spec_run(coords, mover, inputs).coords == coords,
        spec_run(coords, mover, inputs).moved is None,
        moved_count(coords, mover, inputs) == 0,
        spec_run(coords, mover, inputs).mover.wf(),
        spec_run(coords, mover, inputs).mover.moving_dir == mover.moving_dir,
        spec_run(coords, mover, inputs).mover.facing_dir == mover.facing_dir,
        !spec_run(coords, mover, inputs).mover.timer.finished,
        spec_run(coords, mover, inputs).mover.timer.elapsed == mover.timer.elapsed + total_delta(
            inputs,
        ),
    decreases inputs.len(),
{
    if inputs.len() > 0 {
        lemma_step_under_way(coords, mover, inputs.drop_last());
    }
}

/// A step is announced exactly once, when its time runs out, with the tile
/// that the entity set out for. Take a step under way and a run of ticks of
/// which the last is the first to use up the step's time: no tick before the
/// last announces anything, and the last announces the arrival on the tile
/// where the entity has been since it set out.
pub proof fn lemma_one_arrival_per_step(
    coords: WorldGridCoords,
    mover: TileMoverView,
    inputs: Seq<TickInput>,
)
    requires
        mover.wf(),
        !mover.timer.finished,
        inputs.len() > 0,
        mover.timer.elapsed + total_delta(inputs.drop_last()) < mover.timer.duration,
        mover.timer.elapsed + total_delta(inputs) >= mover.timer.duration,
    ensures
        spec_run(coords, mover, inputs.drop_last()).coords == coords,
        moved_count(coords, mover, inputs.drop_last()) == 0,
        spec_run(coords, mover, inputs).moved == Some(IVec2 { x: coords.x, y: coords.y }),
        moved_count(coords, mover, inputs) == 1,
{
    lemma_step_under_way(coords, mover, inputs.drop_last());
}

} // verus!
