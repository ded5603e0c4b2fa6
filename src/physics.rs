use vstd::prelude::*;

use crate::grid::{storable, OutOfBounds, VoxelGrid};
use crate::sight::VoxelCoord;
use crate::voxel::Voxel;

verus! {

// Positions are fixed-point: one world unit (one voxel) is `POS_SCALE` position
// units. Velocities are in position units per millisecond, and time steps in
// milliseconds, so that `pos + velocity * dt` is exact.

/// Position units per world unit.
pub const POS_SCALE: i64 = 10_000_000_000;

/// Height of the player's eyes above the feet (1.62 units).
pub const EYE_HEIGHT: i64 = 16_200_000_000;

/// Vertical distance from the eyes to the top of the player (0.2 units).
pub const FOREHEAD_SIZE: i64 = 2_000_000_000;

/// Radius of the player's cylindrical hitbox (0.3 units).
pub const PLAYER_RADIUS: i64 = 3_000_000_000;

/// Velocity lost to gravity per millisecond (9.8 units per second squared).
pub const ACCEL_GRAV: i64 = 98_000;

/// Largest magnitude of a velocity component; gravity saturates there. It lies
/// far beyond any speed the game reaches and keeps all arithmetic in range.
pub const VEL_LIMIT: i64 = 1_000_000_000_000_000;

/// Length of a unit direction vector in fixed point (thousandths).
pub const DIR_SCALE: i64 = 1000;

// Speeds in ten-thousandths of a unit per second. A unit direction of
// `DIR_SCALE` times a speed gives a velocity.

/// Flying speed (30 units per second).
pub const FLY_SPEED: i64 = 300_000;

/// Walking speed (4.3 units per second).
pub const WALK_SPEED: i64 = 43_000;

/// Running speed (5.6 units per second).
pub const RUN_SPEED: i64 = 56_000;

/// A fixed-point vector.
#[derive(Clone, Copy, PartialEq, Eq, Structural, Debug)]
pub struct FixedVec3 {
    pub x: i64,
    pub y: i64,
    pub z: i64,
}

/// Look angle in milliradians: yaw about the world's up axis, pitch about the
/// player's right axis.
#[derive(Clone, Copy, PartialEq, Eq, Structural, Debug)]
pub struct Angle {
    pub yaw: i64,
    pub pitch: i64,
}

#[derive(Clone, Copy, PartialEq, Eq, Structural, Debug)]
pub enum PlayerState {
    Normal,
    Running,
    Flying,
}

/// The player: eye position, look angle, velocity and movement mode.
#[derive(Clone, Copy, PartialEq, Eq, Structural, Debug)]
pub struct Player {
    pub pos: FixedVec3,
    pub angle: Angle,
    pub velocity: FixedVec3,
    pub state: PlayerState,
}

/// `value` held within `[low, high]`; `low` wins when the bounds cross.
pub open spec fn clamp_spec(low: int, value: int, high: int) -> int {
    if value < low {
        low
    } else if value > high {
        high
    } else {
        value
    }
}

/// `value` held within `[low, high]`.
pub fn clamp(low: i128, value: i128, high: i128) -> (r: i128)
    ensures
        r == clamp_spec(low as int, value as int, high as int),
{
    if value < low {
        low
    } else if value > high {
        high
    } else {
        value
    }
}

/// The cell holding a fixed-point coordinate: the quotient rounded toward zero.
pub open spec fn cell_of(p: int) -> int {
    if p >= 0 {
        p / (POS_SCALE as int)
    } else {
        -((-p) / (POS_SCALE as int))
    }
}

/// The cell holding a fixed-point coordinate.
pub fn cell_of_exec(p: i64) -> (r: i64)
    ensures
        r == cell_of(p as int),
{
    if p >= 0 {
        ((p as u64) / (POS_SCALE as u64)) as i64
    } else {
        let m: u64 = if p == i64::MIN { (i64::MAX as u64) + 1 } else { (-p) as u64 };
        -((m / (POS_SCALE as u64)) as i64)
    }
}

/// Every component within the saturation limit.
pub open spec fn velocity_ok(v: FixedVec3) -> bool {
    &&& -VEL_LIMIT <= v.x <= VEL_LIMIT
    &&& -VEL_LIMIT <= v.y <= VEL_LIMIT
    &&& -VEL_LIMIT <= v.z <= VEL_LIMIT
}

impl Player {
    /// Velocity within the saturation limit.
    pub open spec fn wf(&self) -> bool {
        velocity_ok(self.velocity)
    }
}

/// Is there a non-air voxel (the boundary included) in the cell holding `pos`?
pub open spec fn solid_at(g: VoxelGrid, pos: FixedVec3) -> bool {
    !(g.voxel_at(cell_of(pos.x as int), cell_of(pos.y as int), cell_of(pos.z as int)) is Air)
}

/// Determines if there is a non-air voxel at `pos`; positions beyond the
/// boundary shell hold air.
pub fn voxel_at(g: &VoxelGrid, pos: FixedVec3) -> (r: bool)
    requires
        g.wf(),
    ensures
        r == solid_at(*g, pos),
{
    let x = cell_of_exec(pos.x);
    let y = cell_of_exec(pos.y);
    let z = cell_of_exec(pos.z);
    !g.get(x, y, z).is_air()
}

/// Writes a voxel at a cell; `None` when the cell is outside the grid.
pub fn put_voxel(g: &mut VoxelGrid, pos: VoxelCoord, voxel: Voxel) -> (r: Option<()>)
    requires
        old(g).wf(),
        storable(voxel),
    ensures
        final(g).wf(),
        final(g).same_shape(old(g)),
        old(g).in_bounds(pos.x as int, pos.y as int, pos.z as int) ==> {
            &&& r is Some
            &&& final(g).cells@ == old(g).cells@.update(
                old(g).index(pos.x as int, pos.y as int, pos.z as int),
                voxel,
            )
            &&& final(g).dirty
        },
        !old(g).in_bounds(pos.x as int, pos.y as int, pos.z as int) ==> {
            &&& r is None
            &&& *final(g) == *old(g)
        },
{
    match g.set(pos.x, pos.y, pos.z, voxel) {
        Ok(()) => Some(()),
        Err(OutOfBounds) => None,
    }
}

/// The position one unit below the player's feet.
pub open spec fn surface_below(p: Player) -> FixedVec3 {
    FixedVec3 { x: p.pos.x, y: (p.pos.y - EYE_HEIGHT - POS_SCALE) as i64, z: p.pos.z }
}

/// The cell one unit below the player's feet is solid.
pub open spec fn standing_spec(g: VoxelGrid, p: Player) -> bool {
    p.pos.y >= i64::MIN + EYE_HEIGHT + POS_SCALE && solid_at(g, surface_below(p))
}

/// The player is neither standing nor flying.
pub open spec fn in_freefall_spec(g: VoxelGrid, p: Player) -> bool {
    !standing_spec(g, p) && p.state != PlayerState::Flying
}

/// Is the player standing on the bottom of the world or on sand? That is,
/// is the cell one unit below the feet solid?
pub fn player_is_standing(g: &VoxelGrid, player: &Player) -> (r: bool)
    requires
        g.wf(),
    ensures
        r == standing_spec(*g, *player),
{
    if player.pos.y < i64::MIN + EYE_HEIGHT + POS_SCALE {
        return false;
    }
    let surface = FixedVec3 {
        x: player.pos.x,
        y: player.pos.y - EYE_HEIGHT - POS_SCALE,
        z: player.pos.z,
    };
    voxel_at(g, surface)
}

/// Is the player falling: neither flying nor standing?
pub fn player_in_freefall(g: &VoxelGrid, player: &Player) -> (r: bool)
    requires
        g.wf(),
    ensures
        r == in_freefall_spec(*g, *player),
{
    !player_is_standing(g, player) && player.state != PlayerState::Flying
}

/// Lowest and highest eye position allowed along each axis of the grid.
pub open spec fn x_low() -> int {
    PLAYER_RADIUS as int
}

pub open spec fn x_high(g: VoxelGrid) -> int {
    g.x_max * POS_SCALE - PLAYER_RADIUS
}

pub open spec fn y_low() -> int {
    EYE_HEIGHT as int
}

pub open spec fn y_high(g: VoxelGrid) -> int {
    g.y_max * POS_SCALE - FOREHEAD_SIZE
}

pub open spec fn z_low() -> int {
    PLAYER_RADIUS as int
}

pub open spec fn z_high(g: VoxelGrid) -> int {
    g.z_max * POS_SCALE - PLAYER_RADIUS
}

/// The eye position `(x, y, z)` held inside the grid, away from its walls by
/// the player's radius, above the floor by the eye height and below the
/// ceiling by the forehead.
pub open spec fn bounded_pos(g: VoxelGrid, x: int, y: int, z: int) -> FixedVec3 {
    FixedVec3 {
        x: clamp_spec(x_low(), x, x_high(g)) as i64,
        y: clamp_spec(y_low(), y, y_high(g)) as i64,
        z: clamp_spec(z_low(), z, z_high(g)) as i64,
    }
}

/// Where motion at velocity `v` for `dt` milliseconds takes coordinate `p`.
pub open spec fn moved_axis(p: int, v: int, dt: int) -> int {
    p + v * dt
}

/// Vertical velocity after `dt` milliseconds of gravity, saturating at the limit.
pub open spec fn fallen_velocity(vy: int, dt: int) -> int {
    if vy - ACCEL_GRAV * dt < -VEL_LIMIT {
        -VEL_LIMIT as int
    } else {
        vy - ACCEL_GRAV * dt
    }
}

/// The extent of a grid axis in position units, less `margin`.
fn axis_high(extent: usize, margin: i64) -> (r: i128)
    requires
        extent <= 1000,
        0 <= margin <= POS_SCALE,
    ensures
        r == extent * POS_SCALE - margin,
        -POS_SCALE <= r <= 1000 * POS_SCALE,
{
    assert(0 <= extent * POS_SCALE <= 1000 * POS_SCALE) by (nonlinear_arith)
        requires 0 <= extent <= 1000, POS_SCALE > 0;
    extent as i128 * POS_SCALE as i128 - margin as i128
}

/// `value` held within `[low, high]`, as an `i64`.
fn bound_axis(low: i64, value: i128, high: i128) -> (r: i64)
    requires
        0 < low <= POS_SCALE * 2,
        -POS_SCALE <= high <= 1000 * POS_SCALE,
    ensures
        r == clamp_spec(low as int, value as int, high as int),
{
    clamp(low as i128, value, high) as i64
}

/// Clips the player inside the bounds of the grid.
pub fn bounds_correct_player(player: &mut Player, g: &VoxelGrid)
    requires
        g.wf(),
    ensures
        final(player).pos == bounded_pos(
            *g,
            old(player).pos.x as int,
            old(player).pos.y as int,
            old(player).pos.z as int,
        ),
        final(player).angle == old(player).angle,
        final(player).velocity == old(player).velocity,
        final(player).state == old(player).state,
{
    let xh = axis_high(g.x_max, PLAYER_RADIUS);
    let yh = axis_high(g.y_max, FOREHEAD_SIZE);
    let zh = axis_high(g.z_max, PLAYER_RADIUS);
    player.pos.x = bound_axis(PLAYER_RADIUS, player.pos.x as i128, xh);
    player.pos.y = bound_axis(EYE_HEIGHT, player.pos.y as i128, yh);
    player.pos.z = bound_axis(PLAYER_RADIUS, player.pos.z as i128, zh);
}

/// `p + v * dt`, computed without overflow.
fn move_axis(p: i64, v: i64, dt: u32) -> (r: i128)
    requires
        -VEL_LIMIT <= v <= VEL_LIMIT,
    ensures
        r == moved_axis(p as int, v as int, dt as int),
{
    assert(-VEL_LIMIT * 0x1_0000_0000 <= v * dt <= VEL_LIMIT * 0x1_0000_0000) by (nonlinear_arith)
        requires -VEL_LIMIT <= v <= VEL_LIMIT, 0 <= dt < 0x1_0000_0000;
    p as i128 + v as i128 * dt as i128
}

/// Advances the player by `dt` milliseconds: moves the position by the
/// velocity, clips it to the grid, then applies gravity to the velocity.
pub fn do_player_physics(player: &mut Player, g: &VoxelGrid, dt: u32)
    requires
        g.wf(),
        old(player).wf(),
    ensures
        final(player).wf(),
        final(player).pos == bounded_pos(
            *g,
            moved_axis(old(player).pos.x as int, old(player).velocity.x as int, dt as int),
            moved_axis(old(player).pos.y as int, old(player).velocity.y as int, dt as int),
            moved_axis(old(player).pos.z as int, old(player).velocity.z as int, dt as int),
        ),
        final(player).velocity.x == old(player).velocity.x,
        final(player).velocity.z == old(player).velocity.z,
        final(player).velocity.y == fallen_velocity(old(player).velocity.y as int, dt as int),
        final(player).angle == old(player).angle,
        final(player).state == old(player).state,
{
    let nx = move_axis(player.pos.x, player.velocity.x, dt);
    let ny = move_axis(player.pos.y, player.velocity.y, dt);
    let nz = move_axis(player.pos.z, player.velocity.z, dt);
    let xh = axis_high(g.x_max, PLAYER_RADIUS);
    let yh = axis_high(g.y_max, FOREHEAD_SIZE);
    let zh = axis_high(g.z_max, PLAYER_RADIUS);
    player.pos.x = bound_axis(PLAYER_RADIUS, nx, xh);
    player.pos.y = bound_axis(EYE_HEIGHT, ny, yh);
    player.pos.z = bound_axis(PLAYER_RADIUS, nz, zh);
    let vy = player.velocity.y as i128 - ACCEL_GRAV as i128 * dt as i128;
    player.velocity.y = if vy < -(VEL_LIMIT as i128) {
        -VEL_LIMIT
    } else {
        vy as i64
    };
}

/// Speed of each movement mode, in ten-thousandths of a unit per second.
pub open spec fn move_speed(s: PlayerState) -> i64 {
    match s {
        PlayerState::Normal => WALK_SPEED,
        PlayerState::Running => RUN_SPEED,
        PlayerState::Flying => FLY_SPEED,
    }
}

/// Speed of the player's movement mode.
pub fn get_move_speed(player_state: PlayerState) -> (r: i64)
    ensures
        r == move_speed(player_state),
{
    match player_state {
        PlayerState::Normal => WALK_SPEED,
        PlayerState::Running => RUN_SPEED,
        PlayerState::Flying => FLY_SPEED,
    }
}

/// Walking is slower than running, and running slower than flying.
pub proof fn lemma_speeds_ordered()
    ensures
        move_speed(PlayerState::Normal) < move_speed(PlayerState::Running),
        move_speed(PlayerState::Running) < move_speed(PlayerState::Flying),
{
}

/// Switches between flying and walking.
pub fn toggle_flight(player: &mut Player)
    ensures
        final(player).state == (if old(player).state == PlayerState::Flying {
            PlayerState::Normal
        } else {
            PlayerState::Flying
        }),
        final(player).pos == old(player).pos,
        final(player).angle == old(player).angle,
        final(player).velocity == old(player).velocity,
{
    player.state = if player.state == PlayerState::Flying {
        PlayerState::Normal
    } else {
        PlayerState::Flying
    };
}

} // verus!
