use vstd::prelude::*;

use crate::client::GameState;
use crate::grid::VoxelGrid;
use crate::physics::{
    get_move_speed, in_freefall_spec, move_speed, player_in_freefall, put_voxel,
    Player, PlayerState, DIR_SCALE,
};
use crate::rng::gen_u8;
use crate::sight::{SightBlock, VoxelCoord};
use crate::voxel::Voxel;

verus! {

/// Mouse motion turns the view by this many milliradians per count.
pub const TURN_SPEED: i64 = 10;

/// Largest pitch, up or down, in milliradians (a quarter turn).
pub const PITCH_LIMIT: i64 = 1571;

/// Two presses of the forward key closer than this many milliseconds start running.
pub const DOUBLE_PRESS_THRESH: u64 = 300;

/// Largest mouse motion handled in one event, in counts.
pub const MOTION_LIMIT: i64 = 1_000_000_000;

/// The controls held down during a frame.
#[derive(Clone, Copy, PartialEq, Eq, Structural, Debug)]
pub struct KeysDown {
    pub forward: bool,
    pub backward: bool,
    pub left: bool,
    pub right: bool,
    pub up: bool,
    pub down: bool,
    pub pause: bool,
    pub mouse_left: bool,
    pub mouse_right: bool,
}

/// The horizontal part of the view direction, scaled to unit length, in
/// thousandths. The right-hand direction is `(-z, x)`.
#[derive(Clone, Copy, PartialEq, Eq, Structural, Debug)]
pub struct Heading {
    pub x: i64,
    pub z: i64,
}

/// A heading whose components fit a unit vector.
pub open spec fn heading_ok(h: Heading) -> bool {
    -DIR_SCALE <= h.x <= DIR_SCALE && -DIR_SCALE <= h.z <= DIR_SCALE
}

/// `v` when `held`, else nothing.
pub open spec fn when(held: bool, v: int) -> int {
    if held { v } else { 0 }
}

/// Horizontal velocity along x from the movement keys at speed `s`.
pub open spec fn walk_velocity_x(k: KeysDown, h: Heading, s: int) -> int {
    when(k.forward, h.x * s) - when(k.backward, h.x * s) + when(k.left, h.z * s) - when(k.right, h.z * s)
}

/// Horizontal velocity along z from the movement keys at speed `s`.
pub open spec fn walk_velocity_z(k: KeysDown, h: Heading, s: int) -> int {
    when(k.forward, h.z * s) - when(k.backward, h.z * s) - when(k.left, h.x * s) + when(k.right, h.x * s)
}

/// Vertical velocity after the keys: descending while flying wins; otherwise
/// a player on the ground (or flying) jumps or stops, and a falling player
/// keeps falling.
pub open spec fn keys_velocity_y(k: KeysDown, g: VoxelGrid, p: Player) -> int {
    let s = move_speed(p.state) * DIR_SCALE;
    if k.down && p.state == PlayerState::Flying {
        -s
    } else if !in_freefall_spec(g, p) {
        when(k.up, s)
    } else {
        p.velocity.y as int
    }
}

/// The cells `s` of grid `g` after writing `v` at `c`, if `c` is inside.
pub open spec fn put_cells(g: VoxelGrid, s: Seq<Voxel>, c: VoxelCoord, v: Voxel) -> Seq<Voxel> {
    if g.in_bounds(c.x as int, c.y as int, c.z as int) {
        s.update(g.index(c.x as int, c.y as int, c.z as int), v)
    } else {
        s
    }
}

/// The cells after a dig at the sighted block, when the left button is held.
pub open spec fn dug_cells(g: VoxelGrid, sight: Option<SightBlock>, k: KeysDown) -> Seq<Voxel> {
    match sight {
        Some(b) if k.mouse_left => put_cells(g, g.cells@, b.pos, Voxel::Air),
        _ => g.cells@,
    }
}

/// Whether the keys write a cell inside the grid.
pub open spec fn keys_write(g: VoxelGrid, sight: Option<SightBlock>, k: KeysDown) -> bool {
    match sight {
        Some(b) => {
            ||| k.mouse_left && g.in_bounds(b.pos.x as int, b.pos.y as int, b.pos.z as int)
            ||| k.mouse_right && g.in_bounds(
                b.new_pos.x as int,
                b.new_pos.y as int,
                b.new_pos.z as int,
            )
        },
        None => false,
    }
}

/// `after` is the grid `before` once the mouse buttons of `k` acted on the
/// sighted block: a dig clears the struck cell, then a placement puts sand of
/// some shade in front of it; cells outside the grid are left alone, and the
/// grid turns dirty exactly when a cell inside was written.
pub open spec fn keys_applied(before: VoxelGrid, sight: Option<SightBlock>, k: KeysDown, after: VoxelGrid) -> bool {
    &&& after.wf()
    &&& after.same_shape(&before)
    &&& after.dirty == (before.dirty || keys_write(before, sight, k))
    &&& match sight {
        Some(b) if k.mouse_right => exists|shade: u8|
            after.cells@ == put_cells(before, dug_cells(before, sight, k), b.new_pos, Voxel::Sand(shade)),
        _ => after.cells@ == dug_cells(before, sight, k),
    }
}

/// `v + a * s`, with the bounds that keep it in range.
fn add_scaled(v: i64, held: bool, a: i64, s: i64, sign: i64) -> (r: i64)
    requires
        -4_000_000_000 <= v <= 4_000_000_000,
        -DIR_SCALE <= a <= DIR_SCALE,
        0 <= s <= 300_000,
        sign == 1 || sign == -1,
    ensures
        r == v + sign * when(held, a * s),
        -DIR_SCALE * 300_000 <= when(held, a * s) <= DIR_SCALE * 300_000,
{
    assert(-DIR_SCALE * 300_000 <= a * s <= DIR_SCALE * 300_000) by (nonlinear_arith)
        requires -DIR_SCALE <= a <= DIR_SCALE, 0 <= s <= 300_000;
    if held {
        v + sign * (a * s)
    } else {
        v
    }
}

/// Sets the player's velocity from the movement keys and the view heading.
pub fn keys_velocity(player: &mut Player, g: &VoxelGrid, keys: &KeysDown, heading: Heading)
    requires
        g.wf(),
        old(player).wf(),
        heading_ok(heading),
    ensures
        final(player).wf(),
        final(player).velocity.x == walk_velocity_x(*keys, heading, move_speed(old(player).state) as int),
        final(player).velocity.z == walk_velocity_z(*keys, heading, move_speed(old(player).state) as int),
        final(player).velocity.y == keys_velocity_y(*keys, *g, *old(player)),
        final(player).pos == old(player).pos,
        final(player).angle == old(player).angle,
        final(player).state == old(player).state,
{
    let s = get_move_speed(player.state);
    let mut vx: i64 = 0;
    let mut vz: i64 = 0;
    vx = add_scaled(vx, keys.forward, heading.x, s, 1);
    vz = add_scaled(vz, keys.forward, heading.z, s, 1);
    vx = add_scaled(vx, keys.backward, heading.x, s, -1);
    vz = add_scaled(vz, keys.backward, heading.z, s, -1);
    vx = add_scaled(vx, keys.left, heading.z, s, 1);
    vz = add_scaled(vz, keys.left, heading.x, s, -1);
    vx = add_scaled(vx, keys.right, heading.z, s, -1);
    vz = add_scaled(vz, keys.right, heading.x, s, 1);
    if !player_in_freefall(g, player) {
        player.velocity.y = if keys.up { s * DIR_SCALE } else { 0 };
    }
    if keys.down && player.state == PlayerState::Flying {
        player.velocity.y = -(s * DIR_SCALE);
    }
    player.velocity.x = vx;
    player.velocity.z = vz;
}

/// Digs the sighted block when the left button is held, then places sand in
/// front of it when the right button is held.
pub fn do_mouse_buttons(state: &mut GameState, keys: &KeysDown)
    requires
        old(state).wf(),
    ensures
        final(state).wf(),
        final(state).player == old(state).player,
        final(state).paused == old(state).paused,
        final(state).running == old(state).running,
        final(state).frame == old(state).frame,
        final(state).sight_block == old(state).sight_block,
        keys_applied(old(state).voxels, old(state).sight_block, *keys, final(state).voxels),
{
    let ghost st0 = *state;
    if keys.mouse_left {
        if let Some(b) = state.sight_block {
            let _ = put_voxel(&mut state.voxels, b.pos, Voxel::Air);
        }
    }
    assert(state.voxels.cells@ == dug_cells(st0.voxels, st0.sight_block, *keys));
    if keys.mouse_right {
        if let Some(b) = state.sight_block {
            let ghost mid = state.voxels;
            let shade = gen_u8(&mut state.rng);
            let _ = put_voxel(&mut state.voxels, b.new_pos, Voxel::Sand(shade));
            assert(state.voxels.cells@ == put_cells(
                st0.voxels,
                dug_cells(st0.voxels, st0.sight_block, *keys),
                b.new_pos,
                Voxel::Sand(shade),
            ));
        }
    }
}

/// Applies the controls held during a frame: sets the velocity from the
/// movement keys and the view heading, pauses on request, digs the sighted
/// block with the left button and places sand in front of it with the right.
pub fn do_keys_down(state: &mut GameState, keys: &KeysDown, heading: Heading)
    requires
        old(state).wf(),
        heading_ok(heading),
    ensures
        final(state).wf(),
        final(state).player.velocity.x == walk_velocity_x(
            *keys,
            heading,
            move_speed(old(state).player.state) as int,
        ),
        final(state).player.velocity.z == walk_velocity_z(
            *keys,
            heading,
            move_speed(old(state).player.state) as int,
        ),
        final(state).player.velocity.y == keys_velocity_y(*keys, old(state).voxels, old(state).player),
        final(state).player.pos == old(state).player.pos,
        final(state).player.angle == old(state).player.angle,
        final(state).player.state == old(state).player.state,
        final(state).paused == (old(state).paused || keys.pause),
        final(state).running == old(state).running,
        final(state).frame == old(state).frame,
        final(state).sight_block == old(state).sight_block,
        keys_applied(old(state).voxels, old(state).sight_block, *keys, final(state).voxels),
{
    keys_velocity(&mut state.player, &state.voxels, keys, heading);
    if keys.pause {
        state.paused = true;
    }
    do_mouse_buttons(state, keys);
}

/// Handles a press of the forward key, `since_last_press` milliseconds after
/// the previous one (`None` if there was none): a quick second press while
/// walking starts running. Returns whether the press counts toward a double
/// press, which only presses while walking do.
pub fn do_press_forward(player: &mut Player, since_last_press: Option<u64>) -> (counted: bool)
    ensures
        counted == (old(player).state == PlayerState::Normal),
        final(player).state == (if old(player).state == PlayerState::Normal && (
        since_last_press matches Some(t) && t < DOUBLE_PRESS_THRESH) {
            PlayerState::Running
        } else {
            old(player).state
        }),
        final(player).pos == old(player).pos,
        final(player).angle == old(player).angle,
        final(player).velocity == old(player).velocity,
{
    if player.state == PlayerState::Normal {
        if let Some(t) = since_last_press {
            if t < DOUBLE_PRESS_THRESH {
                player.state = PlayerState::Running;
            }
        }
        true
    } else {
        false
    }
}

/// Handles a release of the forward key: running stops. Returns whether it did.
pub fn do_release_forward(player: &mut Player) -> (stopped: bool)
    ensures
        stopped == (old(player).state == PlayerState::Running),
        final(player).state == (if stopped { PlayerState::Normal } else { old(player).state }),
        final(player).pos == old(player).pos,
        final(player).angle == old(player).angle,
        final(player).velocity == old(player).velocity,
{
    if player.state == PlayerState::Running {
        player.state = PlayerState::Normal;
        true
    } else {
        false
    }
}

/// A pitch held within a quarter turn up or down.
pub open spec fn clamp_pitch(p: int) -> int {
    if p < -PITCH_LIMIT {
        -PITCH_LIMIT as int
    } else if p > PITCH_LIMIT {
        PITCH_LIMIT as int
    } else {
        p
    }
}

/// The yaw after turning by `d`, held within the range of `i64`.
pub open spec fn turned_yaw(yaw: int, d: int) -> int {
    if yaw - d < i64::MIN {
        i64::MIN as int
    } else if yaw - d > i64::MAX {
        i64::MAX as int
    } else {
        yaw - d
    }
}

/// Turns the view by a mouse motion of `(dx, dy)` counts, unless the game is
/// paused; the pitch stays within a quarter turn up or down.
pub fn handle_mouse_motion(state: &mut GameState, dx: i64, dy: i64)
    requires
        -MOTION_LIMIT <= dx <= MOTION_LIMIT,
        -MOTION_LIMIT <= dy <= MOTION_LIMIT,
    ensures
        old(state).paused ==> *final(state) == *old(state),
        !old(state).paused ==> {
            &&& final(state).player.angle.yaw == turned_yaw(
                old(state).player.angle.yaw as int,
                dx * TURN_SPEED,
            )
            &&& final(state).player.angle.pitch == clamp_pitch(
                old(state).player.angle.pitch - dy * TURN_SPEED,
            )
            &&& final(state).player.pos == old(state).player.pos
            &&& final(state).player.velocity == old(state).player.velocity
            &&& final(state).player.state == old(state).player.state
            &&& final(state).voxels == old(state).voxels
            &&& final(state).voxels_mesh == old(state).voxels_mesh
            &&& final(state).paused == old(state).paused
            &&& final(state).running == old(state).running
            &&& final(state).frame == old(state).frame
            &&& final(state).sight_block == old(state).sight_block
        },
{
    if !state.paused {
        let yaw = state.player.angle.yaw as i128 - (dx * TURN_SPEED) as i128;
        state.player.angle.yaw = if yaw < i64::MIN as i128 {
            i64::MIN
        } else if yaw > i64::MAX as i128 {
            i64::MAX
        } else {
            yaw as i64
        };
        let pitch = state.player.angle.pitch as i128 - (dy * TURN_SPEED) as i128;
        state.player.angle.pitch = if pitch < -PITCH_LIMIT as i128 {
            -PITCH_LIMIT
        } else if pitch > PITCH_LIMIT as i128 {
            PITCH_LIMIT
        } else {
            pitch as i64
        };
    }
}

} // verus!
