use sandvox::grid::VoxelGrid;
use sandvox::physics::{
    bounds_correct_player, cell_of_exec, clamp, do_player_physics, get_move_speed,
    player_in_freefall, player_is_standing, put_voxel, toggle_flight, voxel_at, Angle, FixedVec3,
    Player, PlayerState, EYE_HEIGHT, POS_SCALE,
};
use sandvox::sight::VoxelCoord;
use sandvox::voxel::Voxel;

fn player_at(x: i64, y: i64, z: i64) -> Player {
    Player {
        pos: FixedVec3 { x, y, z },
        angle: Angle { yaw: 0, pitch: 0 },
        velocity: FixedVec3 { x: 0, y: 0, z: 0 },
        state: PlayerState::Normal,
    }
}

#[test]
fn physics_moves_then_applies_gravity() {
    let g = VoxelGrid::new(10, 10, 10);
    let mut p = player_at(50_000_000_000, 50_000_000_000, 50_000_000_000);
    p.velocity = FixedVec3 { x: 10_000_000, y: 0, z: -20_000_000 };
    do_player_physics(&mut p, &g, 100);
    assert_eq!(p.pos, FixedVec3 { x: 51_000_000_000, y: 50_000_000_000, z: 48_000_000_000 });
    assert_eq!(p.velocity, FixedVec3 { x: 10_000_000, y: -9_800_000, z: -20_000_000 });
    do_player_physics(&mut p, &g, 100);
    assert_eq!(p.pos.y, 50_000_000_000 - 980_000_000);
    assert_eq!(p.velocity.y, -19_600_000);
}

#[test]
fn physics_clips_player_to_grid() {
    let g = VoxelGrid::new(10, 10, 10);
    let mut p = player_at(-5, 500_000_000_000, 200_000_000_000);
    bounds_correct_player(&mut p, &g);
    assert_eq!(p.pos, FixedVec3 { x: 3_000_000_000, y: 98_000_000_000, z: 97_000_000_000 });
    let mut q = player_at(0, 15_000_000_000, 0);
    do_player_physics(&mut q, &g, 0);
    assert_eq!(q.pos, FixedVec3 { x: 3_000_000_000, y: EYE_HEIGHT, z: 3_000_000_000 });
}

#[test]
fn gravity_saturates_far_below_overflow() {
    let g = VoxelGrid::new(10, 10, 10);
    let mut p = player_at(50_000_000_000, 50_000_000_000, 50_000_000_000);
    for _ in 0..20 {
        do_player_physics(&mut p, &g, u32::MAX);
    }
    assert_eq!(p.velocity.y, -1_000_000_000_000_000);
    assert_eq!(p.pos.y, EYE_HEIGHT);
}

#[test]
fn standing_on_floor_and_falling_in_air() {
    let mut g = VoxelGrid::new(10, 10, 10);
    let mut p = player_at(55_000_000_000, EYE_HEIGHT, 55_000_000_000);
    assert!(player_is_standing(&g, &p));
    assert!(!player_in_freefall(&g, &p));
    p.pos.y = EYE_HEIGHT + 2 * POS_SCALE;
    assert!(!player_is_standing(&g, &p));
    assert!(player_in_freefall(&g, &p));
    g.set(5, 1, 5, Voxel::Sand(1)).unwrap();
    assert!(player_is_standing(&g, &p));
    g.set(5, 1, 5, Voxel::Air).unwrap();
    p.state = PlayerState::Flying;
    assert!(!player_in_freefall(&g, &p));
}

#[test]
fn voxel_at_truncates_toward_zero() {
    let mut g = VoxelGrid::new(4, 4, 4);
    g.set(0, 0, 0, Voxel::Sand(1)).unwrap();
    assert!(voxel_at(&g, FixedVec3 { x: 5_000_000_000, y: 5_000_000_000, z: 5_000_000_000 }));
    assert!(voxel_at(&g, FixedVec3 { x: -5_000_000_000, y: 0, z: 0 }));
    assert!(voxel_at(&g, FixedVec3 { x: -10_000_000_000, y: 0, z: 0 }));
    assert!(!voxel_at(&g, FixedVec3 { x: -20_000_000_000, y: 0, z: 0 }));
    assert!(!voxel_at(&g, FixedVec3 { x: 15_000_000_000, y: 0, z: 0 }));
    assert_eq!(cell_of_exec(-1), 0);
    assert_eq!(cell_of_exec(-10_000_000_000), -1);
    assert_eq!(cell_of_exec(29_999_999_999), 2);
    assert_eq!(cell_of_exec(i64::MIN), -922_337_203);
}

#[test]
fn put_voxel_reports_out_of_bounds() {
    let mut g = VoxelGrid::new(4, 4, 4);
    g.dirty = false;
    assert_eq!(put_voxel(&mut g, VoxelCoord { x: 4, y: 0, z: 0 }, Voxel::Sand(1)), None);
    assert!(!g.dirty);
    assert_eq!(put_voxel(&mut g, VoxelCoord { x: 3, y: 0, z: 0 }, Voxel::Sand(1)), Some(()));
    assert!(g.dirty);
    assert_eq!(g.get(3, 0, 0), Voxel::Sand(1));
}

#[test]
fn move_speeds_are_ordered() {
    let walk = get_move_speed(PlayerState::Normal);
    let run = get_move_speed(PlayerState::Running);
    let fly = get_move_speed(PlayerState::Flying);
    assert_eq!((walk, run, fly), (43_000, 56_000, 300_000));
    assert!(walk < run && run < fly);
}

#[test]
fn toggle_flight_switches_modes() {
    let mut p = player_at(0, 0, 0);
    toggle_flight(&mut p);
    assert_eq!(p.state, PlayerState::Flying);
    toggle_flight(&mut p);
    assert_eq!(p.state, PlayerState::Normal);
    p.state = PlayerState::Running;
    toggle_flight(&mut p);
    assert_eq!(p.state, PlayerState::Flying);
}

#[test]
fn clamp_holds_value_in_range() {
    assert_eq!(clamp(1, 0, 2), 1);
    assert_eq!(clamp(1, 3, 2), 2);
    assert_eq!(clamp(-4, -3, 2), -3);
}
