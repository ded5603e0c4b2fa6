use vstd::prelude::*;

use rand_xorshift::XorShiftRng;

use crate::grid::{index_of, lemma_index_in_bounds, lemma_index_injective, VoxelGrid, VOX_MAX_X, VOX_MAX_Y, VOX_MAX_Z};
use crate::mesh::{make_voxels_mesh, voxels_mesh, VoxelVertex};
use crate::input::{
    do_keys_down, heading_ok, keys_applied, keys_velocity_y, walk_velocity_x, walk_velocity_z, Heading, KeysDown,
};
use crate::physics::{
    bounded_pos, do_player_physics, fallen_velocity, move_speed, moved_axis, Angle, FixedVec3, Player,
    PlayerState,
};
use crate::sandfall::{do_sandfall, tick_outcome, SANDFALL_PERIOD};
use crate::sight::{dir_ok, eye_ok, get_sight_block, sight_spec};
use crate::rng::{gen_u8, seeded_rng};
use crate::sight::SightBlock;
use crate::voxel::Voxel;

verus! {

/// Eye height at startup (1.5 units); the player starts above the origin.
pub const INIT_Y: i64 = 15_000_000_000;

/// Seed of the generator that shades sand and breaks sandfall ties.
pub const RNG_SEED: u64 = 0;

/// The whole state of a game session.
pub struct GameState {
    pub running: bool,
    pub paused: bool,
    pub frame: u32,
    pub player: Player,
    pub sight_block: Option<SightBlock>,
    pub voxels: VoxelGrid,
    pub voxels_mesh: Vec<VoxelVertex>,
    pub rng: XorShiftRng,
}

impl GameState {
    /// The grid and the player are well formed, and a clean grid has an up to
    /// date mesh.
    pub open spec fn wf(&self) -> bool {
        &&& self.voxels.wf()
        &&& self.player.wf()
        &&& !self.voxels.dirty ==> self.voxels_mesh@ == voxels_mesh(self.voxels)
    }

    /// A new session: paused, with the diagonal test world and the player
    /// at the start position.
    pub fn init() -> (s: GameState)
        ensures
            s.wf(),
            s.running,
            s.paused,
            s.frame == 0,
            s.player == (Player {
                pos: FixedVec3 { x: 0, y: INIT_Y, z: 0 },
                angle: Angle { yaw: 0, pitch: 0 },
                velocity: FixedVec3 { x: 0, y: 0, z: 0 },
                state: PlayerState::Normal,
            }),
            s.sight_block is None,
            s.voxels.x_max == VOX_MAX_X,
            s.voxels.y_max == VOX_MAX_Y,
            s.voxels.z_max == VOX_MAX_Z,
            diagonal_world(s.voxels),
            s.voxels.dirty,
            s.voxels_mesh@.len() == 0,
    {
        let mut rng = seeded_rng(RNG_SEED);
        let voxels = make_test_world(&mut rng);
        GameState {
            running: true,
            paused: true,
            frame: 0,
            player: Player {
                pos: FixedVec3 { x: 0, y: INIT_Y, z: 0 },
                angle: Angle { yaw: 0, pitch: 0 },
                velocity: FixedVec3 { x: 0, y: 0, z: 0 },
                state: PlayerState::Normal,
            },
            sight_block: None,
            voxels,
            voxels_mesh: Vec::new(),
            rng,
        }
    }
}

/// Sand on the main diagonal `x == y == z`, air everywhere else.
pub open spec fn diagonal_world(g: VoxelGrid) -> bool {
    forall|x: int, y: int, z: int|
        g.in_bounds(x, y, z) ==> {
            &&& (#[trigger] g.cell(x, y, z) is Sand) == (x == y && y == z)
            &&& !(x == y && y == z) ==> g.cell(x, y, z) is Air
        }
}

/// Creates the initial world: a diagonal stripe of randomly shaded sand.
pub fn make_test_world(rng: &mut XorShiftRng) -> (g: VoxelGrid)
    ensures
        g.wf(),
        g.x_max == VOX_MAX_X,
        g.y_max == VOX_MAX_Y,
        g.z_max == VOX_MAX_Z,
        g.dirty,
        diagonal_world(g),
{
    let mut g = VoxelGrid::new(VOX_MAX_X, VOX_MAX_Y, VOX_MAX_Z);
    let mut d: usize = 0;
    while d < VOX_MAX_X
        invariant
            g.wf(),
            g.x_max == VOX_MAX_X,
            g.y_max == VOX_MAX_Y,
            g.z_max == VOX_MAX_Z,
            g.dirty,
            d <= VOX_MAX_X,
            forall|x: int, y: int, z: int|
                g.in_bounds(x, y, z) ==> {
                    &&& (#[trigger] g.cell(x, y, z) is Sand) == (x == y && y == z && x < d)
                    &&& !(x == y && y == z && x < d) ==> g.cell(x, y, z) is Air
                },
        decreases VOX_MAX_X - d,
    {
        let shade = gen_u8(rng);
        let ghost before = g;
        assert(g.in_bounds(d as int, d as int, d as int));
        proof {
            lemma_index_in_bounds(d as int, d as int, d as int, 50, 50, 50);
        }
        let _ = g.set(d as i64, d as i64, d as i64, Voxel::Sand(shade));
        assert(g.cells@ == before.cells@.update(
            before.index(d as int, d as int, d as int),
            Voxel::Sand(shade),
        ));
        assert forall|x: int, y: int, z: int| g.in_bounds(x, y, z) implies {
            &&& (#[trigger] g.cell(x, y, z) is Sand) == (x == y && y == z && x < d + 1)
            &&& !(x == y && y == z && x < d + 1) ==> g.cell(x, y, z) is Air
        } by {
            assert(before.in_bounds(x, y, z));
            lemma_index_in_bounds(x, y, z, 50, 50, 50);
            if index_of(x, y, z, 50, 50) == index_of(d as int, d as int, d as int, 50, 50) {
                lemma_index_injective(x, y, z, d as int, d as int, d as int, 50, 50, 50);
                assert(g.cell(x, y, z) == Voxel::Sand(shade));
            } else {
                assert(g.cell(x, y, z) == before.cell(x, y, z));
            }
        }
        d = d + 1;
    }
    g
}

/// Pauses or resumes the game.
pub fn set_pause(state: &mut GameState, paused: bool)
    ensures
        final(state).paused == paused,
        final(state).running == old(state).running,
        final(state).frame == old(state).frame,
        final(state).player == old(state).player,
        final(state).sight_block == old(state).sight_block,
        final(state).voxels == old(state).voxels,
        final(state).voxels_mesh == old(state).voxels_mesh,
        final(state).rng == old(state).rng,
{
    state.paused = paused;
}

/// `after` is `before` with its mesh brought up to date: rebuilt from the grid
/// and the grid marked clean when it was dirty, untouched otherwise.
pub open spec fn rebuilt(before: GameState, after: GameState) -> bool {
    if before.voxels.dirty {
        &&& after.voxels_mesh@ == voxels_mesh(before.voxels)
        &&& !after.voxels.dirty
        &&& after.voxels.cells == before.voxels.cells
        &&& after.voxels.same_shape(&before.voxels)
        &&& after.running == before.running
        &&& after.paused == before.paused
        &&& after.frame == before.frame
        &&& after.player == before.player
        &&& after.sight_block == before.sight_block
        &&& after.rng == before.rng
    } else {
        after == before
    }
}

/// Makes a new mesh of the voxels, but only if the world changed since the
/// last one was made.
pub fn maybe_make_voxels_mesh(state: &mut GameState)
    requires
        old(state).wf(),
    ensures
        final(state).wf(),
        rebuilt(*old(state), *final(state)),
        !final(state).voxels.dirty,
        final(state).voxels_mesh@ == voxels_mesh(final(state).voxels),
{
    if state.voxels.dirty {
        state.voxels_mesh = make_voxels_mesh(&state.voxels);
        state.voxels.dirty = false;
    }
}

/// Rebuilding twice in a row with no change between: the second rebuild
/// changes nothing, so the mesh is the same.
pub proof fn lemma_rebuild_idempotent(s0: GameState, s1: GameState, s2: GameState)
    requires
        rebuilt(s0, s1),
        rebuilt(s1, s2),
    ensures
        s2 == s1,
        s2.voxels_mesh@ == s1.voxels_mesh@,
{
}

/// The view directions of a frame, derived from the player's look angle: the
/// full forward direction and its horizontal part, both in thousandths.
#[derive(Clone, Copy, PartialEq, Eq, Structural, Debug)]
pub struct ViewDirs {
    pub forward: FixedVec3,
    pub heading: Heading,
}

/// Handles state updates while paused: the left button resumes the game.
pub fn do_paused(state: &mut GameState, keys: &KeysDown)
    ensures
        final(state).paused == (old(state).paused && !keys.mouse_left),
        final(state).running == old(state).running,
        final(state).frame == old(state).frame,
        final(state).player == old(state).player,
        final(state).sight_block == old(state).sight_block,
        final(state).voxels == old(state).voxels,
        final(state).voxels_mesh == old(state).voxels_mesh,
        final(state).rng == old(state).rng,
{
    if keys.mouse_left {
        set_pause(state, false);
    }
}

/// Updates the game for one frame of `dt` milliseconds. While paused only a
/// click matters; otherwise the held controls apply, the player moves, sand
/// falls on due frames and the sight block is found anew.
pub fn update(state: &mut GameState, keys: &KeysDown, view: &ViewDirs, dt: u32)
    requires
        old(state).wf(),
        heading_ok(view.heading),
        dir_ok(view.forward),
    ensures
        final(state).wf(),
        final(state).running == old(state).running,
        final(state).frame == old(state).frame,
        final(state).voxels.same_shape(&old(state).voxels),
        old(state).paused ==> {
            &&& final(state).paused == !keys.mouse_left
            &&& final(state).player == old(state).player
            &&& final(state).sight_block == old(state).sight_block
            &&& final(state).voxels == old(state).voxels
            &&& final(state).voxels_mesh == old(state).voxels_mesh
        },
        !old(state).paused ==> {
            let p = old(state).player;
            let s = move_speed(p.state) as int;
            let vx = walk_velocity_x(*keys, view.heading, s);
            let vy = keys_velocity_y(*keys, old(state).voxels, p);
            let vz = walk_velocity_z(*keys, view.heading, s);
            &&& final(state).paused == keys.pause
            &&& final(state).player.velocity.x == vx
            &&& final(state).player.velocity.y == fallen_velocity(vy, dt as int)
            &&& final(state).player.velocity.z == vz
            &&& final(state).player.pos == bounded_pos(
                old(state).voxels,
                moved_axis(p.pos.x as int, vx, dt as int),
                moved_axis(p.pos.y as int, vy, dt as int),
                moved_axis(p.pos.z as int, vz, dt as int),
            )
            &&& exists|mid: VoxelGrid|
                #[trigger] keys_applied(old(state).voxels, old(state).sight_block, *keys, mid) && if old(
                    state,
                ).frame % SANDFALL_PERIOD == 0 {
                    tick_outcome(mid, final(state).voxels)
                } else {
                    final(state).voxels == mid
                }
            &&& final(state).player.angle == p.angle
            &&& final(state).player.state == p.state
            &&& final(state).sight_block == sight_spec(
                final(state).voxels,
                final(state).player.pos,
                view.forward,
            )
        },
{
    if state.paused {
        do_paused(state, keys);
    } else {
        do_keys_down(state, keys, view.heading);
        let ghost mid = state.voxels;
        do_player_physics(&mut state.player, &state.voxels, dt);
        do_sandfall(state);
        assert(keys_applied(old(state).voxels, old(state).sight_block, *keys, mid));
        assert(eye_ok(state.player.pos));
        state.sight_block = get_sight_block(&state.voxels, state.player.pos, view.forward);
    }
}

} // verus!
