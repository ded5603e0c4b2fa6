use sandvox::client::{update, GameState, ViewDirs};
use sandvox::input::{
    do_keys_down, do_press_forward, do_release_forward, handle_mouse_motion, Heading, KeysDown,
};
use sandvox::physics::{FixedVec3, PlayerState, EYE_HEIGHT};
use sandvox::sight::{SightBlock, VoxelCoord};
use sandvox::voxel::Voxel;

fn no_keys() -> KeysDown {
    KeysDown {
        forward: false,
        backward: false,
        left: false,
        right: false,
        up: false,
        down: false,
        pause: false,
        mouse_left: false,
        mouse_right: false,
    }
}

fn standing_state() -> GameState {
    let mut s = GameState::init();
    s.paused = false;
    s.player.pos = FixedVec3 { x: 105_000_000_000, y: EYE_HEIGHT, z: 305_000_000_000 };
    s
}

#[test]
fn forward_and_right_keys_set_horizontal_velocity() {
    let mut s = standing_state();
    let keys = KeysDown { forward: true, ..no_keys() };
    do_keys_down(&mut s, &keys, Heading { x: 0, z: -1000 });
    assert_eq!(s.player.velocity, FixedVec3 { x: 0, y: 0, z: -43_000_000 });
    let keys = KeysDown { right: true, ..no_keys() };
    do_keys_down(&mut s, &keys, Heading { x: 0, z: -1000 });
    assert_eq!(s.player.velocity, FixedVec3 { x: 43_000_000, y: 0, z: 0 });
    let keys = KeysDown { left: true, backward: true, ..no_keys() };
    do_keys_down(&mut s, &keys, Heading { x: 600, z: 800 });
    assert_eq!(s.player.velocity.x, -600 * 43_000 + 800 * 43_000);
    assert_eq!(s.player.velocity.z, -800 * 43_000 - 600 * 43_000);
}

#[test]
fn jump_only_from_the_ground() {
    let mut s = standing_state();
    let keys = KeysDown { up: true, ..no_keys() };
    do_keys_down(&mut s, &keys, Heading { x: 0, z: -1000 });
    assert_eq!(s.player.velocity.y, 43_000_000);
    s.player.pos.y = EYE_HEIGHT + 30_000_000_000;
    s.player.velocity.y = -5;
    do_keys_down(&mut s, &keys, Heading { x: 0, z: -1000 });
    assert_eq!(s.player.velocity.y, -5);
}

#[test]
fn flying_descends_with_down_key() {
    let mut s = standing_state();
    s.player.state = PlayerState::Flying;
    s.player.pos.y = EYE_HEIGHT + 30_000_000_000;
    let keys = KeysDown { down: true, up: true, ..no_keys() };
    do_keys_down(&mut s, &keys, Heading { x: 1000, z: 0 });
    assert_eq!(s.player.velocity.y, -300_000_000);
    let keys = KeysDown { up: true, ..no_keys() };
    do_keys_down(&mut s, &keys, Heading { x: 1000, z: 0 });
    assert_eq!(s.player.velocity.y, 300_000_000);
}

#[test]
fn mouse_buttons_dig_and_place() {
    let mut s = standing_state();
    s.voxels.set(4, 4, 4, Voxel::Sand(3)).unwrap();
    s.sight_block = Some(SightBlock {
        pos: VoxelCoord { x: 4, y: 4, z: 4 },
        new_pos: VoxelCoord { x: 4, y: 4, z: 3 },
    });
    s.voxels.dirty = false;
    let keys = KeysDown { mouse_left: true, ..no_keys() };
    do_keys_down(&mut s, &keys, Heading { x: 0, z: 1000 });
    assert_eq!(s.voxels.get(4, 4, 4), Voxel::Air);
    assert!(s.voxels.dirty);
    s.voxels.dirty = false;
    let keys = KeysDown { mouse_right: true, ..no_keys() };
    do_keys_down(&mut s, &keys, Heading { x: 0, z: 1000 });
    assert!(s.voxels.get(4, 4, 3).is_sand());
    assert!(s.voxels.dirty);
}

#[test]
fn placing_outside_the_grid_changes_nothing() {
    let mut s = standing_state();
    s.sight_block = Some(SightBlock {
        pos: VoxelCoord { x: 0, y: -1, z: 0 },
        new_pos: VoxelCoord { x: 0, y: -2, z: 0 },
    });
    s.voxels.dirty = false;
    let before = s.voxels.cells.clone();
    let keys = KeysDown { mouse_left: true, mouse_right: true, ..no_keys() };
    do_keys_down(&mut s, &keys, Heading { x: 0, z: 1000 });
    assert_eq!(s.voxels.cells, before);
    assert!(!s.voxels.dirty);
}

#[test]
fn pause_key_pauses() {
    let mut s = standing_state();
    let keys = KeysDown { pause: true, ..no_keys() };
    do_keys_down(&mut s, &keys, Heading { x: 0, z: 1000 });
    assert!(s.paused);
}

#[test]
fn double_press_of_forward_starts_running() {
    let mut s = standing_state();
    assert!(do_press_forward(&mut s.player, None));
    assert_eq!(s.player.state, PlayerState::Normal);
    assert!(do_press_forward(&mut s.player, Some(300)));
    assert_eq!(s.player.state, PlayerState::Normal);
    assert!(do_press_forward(&mut s.player, Some(299)));
    assert_eq!(s.player.state, PlayerState::Running);
    assert!(!do_press_forward(&mut s.player, Some(10)));
    assert!(do_release_forward(&mut s.player));
    assert_eq!(s.player.state, PlayerState::Normal);
    assert!(!do_release_forward(&mut s.player));
}

#[test]
fn mouse_motion_turns_and_clamps_pitch() {
    let mut s = standing_state();
    handle_mouse_motion(&mut s, 5, -20);
    assert_eq!(s.player.angle.yaw, -50);
    assert_eq!(s.player.angle.pitch, 200);
    handle_mouse_motion(&mut s, 0, -1000);
    assert_eq!(s.player.angle.pitch, 1571);
    handle_mouse_motion(&mut s, 0, 1000);
    assert_eq!(s.player.angle.pitch, -1571);
    s.paused = true;
    handle_mouse_motion(&mut s, 7, 7);
    assert_eq!(s.player.angle.yaw, -50);
}

#[test]
fn update_while_paused_waits_for_click() {
    let mut s = GameState::init();
    let view = ViewDirs { forward: FixedVec3 { x: 0, y: 0, z: -1000 }, heading: Heading { x: 0, z: -1000 } };
    let before = s.player;
    update(&mut s, &KeysDown { forward: true, ..no_keys() }, &view, 16);
    assert!(s.paused);
    assert_eq!(s.player, before);
    update(&mut s, &KeysDown { mouse_left: true, ..no_keys() }, &view, 16);
    assert!(!s.paused);
}

#[test]
fn update_moves_player_and_finds_sight_block() {
    let mut s = GameState::init();
    s.paused = false;
    s.frame = 1;
    let view = ViewDirs { forward: FixedVec3 { x: 0, y: 0, z: 1000 }, heading: Heading { x: 0, z: 1000 } };
    s.voxels.set(0, 1, 3, Voxel::Sand(1)).unwrap();
    update(&mut s, &no_keys(), &view, 0);
    assert_eq!(s.player.pos, FixedVec3 { x: 3_000_000_000, y: EYE_HEIGHT, z: 3_000_000_000 });
    assert_eq!(
        s.sight_block,
        Some(SightBlock { pos: VoxelCoord { x: 0, y: 1, z: 3 }, new_pos: VoxelCoord { x: 0, y: 1, z: 2 } })
    );
}
