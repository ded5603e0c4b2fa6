use sandvox::grid::VoxelGrid;
use sandvox::client::GameState;
use sandvox::sandfall::{can_slide, do_sandfall, fall_cell, sandfall_tick, slide};
use sandvox::voxel::Voxel;

use rand::SeedableRng;
use rand_xorshift::XorShiftRng;

fn seeded_rng(seed: u64) -> XorShiftRng {
    XorShiftRng::seed_from_u64(seed)
}

fn sand_total(g: &VoxelGrid) -> usize {
    g.cells.iter().filter(|v| v.is_sand()).count()
}

#[test]
fn single_sand_falls_one_cell_per_tick_and_rests_on_floor() {
    let mut g = VoxelGrid::new(10, 10, 10);
    let mut rng = seeded_rng(0);
    g.set(5, 5, 5, Voxel::Sand(9)).unwrap();
    sandfall_tick(&mut g, &mut rng);
    assert_eq!(g.get(5, 4, 5), Voxel::Sand(9));
    assert_eq!(g.get(5, 5, 5), Voxel::Air);
    for _ in 0..4 {
        sandfall_tick(&mut g, &mut rng);
    }
    assert_eq!(g.get(5, 0, 5), Voxel::Sand(9));
    assert_eq!(sand_total(&g), 1);
    let settled = g.cells.clone();
    g.dirty = false;
    for _ in 0..5 {
        sandfall_tick(&mut g, &mut rng);
    }
    assert_eq!(g.cells, settled);
    assert!(!g.dirty);
}

#[test]
fn sand_count_is_kept_across_ticks() {
    let mut g = VoxelGrid::new(6, 8, 6);
    let mut rng = seeded_rng(42);
    for y in 0..8 {
        g.set(2, y, 2, Voxel::Sand(y as u8)).unwrap();
        g.set(3, y, 3, Voxel::Sand(100)).unwrap();
    }
    g.set(0, 7, 5, Voxel::Sand(1)).unwrap();
    let total = sand_total(&g);
    assert_eq!(total, 17);
    for _ in 0..30 {
        sandfall_tick(&mut g, &mut rng);
        assert_eq!(sand_total(&g), total);
    }
}

#[test]
fn floor_only_world_is_a_fixed_point() {
    let mut g = VoxelGrid::new(5, 5, 5);
    let mut rng = seeded_rng(3);
    for x in 0..5 {
        for z in 0..5 {
            if (x + z) % 2 == 0 {
                g.set(x, 0, z, Voxel::Sand(4)).unwrap();
            }
        }
    }
    g.dirty = false;
    let before = g.cells.clone();
    sandfall_tick(&mut g, &mut rng);
    assert_eq!(g.cells, before);
    assert!(!g.dirty);
}

#[test]
fn slide_moves_only_into_air_inside_the_grid() {
    let mut g = VoxelGrid::new(3, 3, 3);
    g.set(1, 1, 1, Voxel::Sand(5)).unwrap();
    g.set(1, 0, 1, Voxel::Sand(6)).unwrap();
    g.dirty = false;
    slide(&mut g, 1, 1, 1, 1, -1);
    assert_eq!(g.get(2, 0, 0), Voxel::Sand(5));
    assert_eq!(g.get(1, 1, 1), Voxel::Air);
    assert!(g.dirty);

    let mut h = VoxelGrid::new(3, 3, 3);
    h.set(0, 1, 0, Voxel::Sand(5)).unwrap();
    h.set(0, 0, 0, Voxel::Sand(6)).unwrap();
    h.dirty = false;
    let before = h.cells.clone();
    slide(&mut h, 0, 1, 0, -1, 0);
    assert_eq!(h.cells, before);
    assert!(!h.dirty);
    slide(&mut h, 0, 1, 0, 0, 0);
    assert_eq!(h.cells, before);
}

#[test]
fn can_slide_needs_an_air_diagonal_neighbor() {
    let mut g = VoxelGrid::new(3, 2, 3);
    for x in 0..3 {
        for z in 0..3 {
            g.set(x, 0, z, Voxel::Sand(1)).unwrap();
        }
    }
    g.set(1, 1, 1, Voxel::Sand(2)).unwrap();
    assert!(!can_slide(&g, 1, 1, 1));
    g.set(0, 0, 2, Voxel::Air).unwrap();
    assert!(can_slide(&g, 1, 1, 1));
    assert!(!can_slide(&g, 2, 1, 0));
}

#[test]
fn resting_sand_slides_to_a_random_diagonal() {
    let mut moved = 0;
    let mut targets: Vec<(i64, i64)> = Vec::new();
    let mut rng = seeded_rng(7);
    for _ in 0..40 {
        let mut g = VoxelGrid::new(3, 2, 3);
        g.set(1, 0, 1, Voxel::Sand(1)).unwrap();
        g.set(1, 1, 1, Voxel::Sand(2)).unwrap();
        fall_cell(&mut g, &mut rng, 1, 1, 1);
        if g.get(1, 1, 1) == Voxel::Air {
            moved += 1;
            let below: Vec<(i64, i64)> = (0..3)
                .flat_map(|x| (0..3).map(move |z| (x, z)))
                .filter(|&(x, z)| g.get(x, 0, z) == Voxel::Sand(2))
                .collect();
            assert_eq!(below.len(), 1);
            assert_ne!(below[0], (1, 1));
            if !targets.contains(&below[0]) {
                targets.push(below[0]);
            }
        }
        assert_eq!(sand_total(&g), 2);
    }
    assert!(moved > 0);
    assert!(targets.len() >= 2);
}

#[test]
fn sand_on_sand_does_not_move_when_boxed_in() {
    let mut g = VoxelGrid::new(1, 3, 1);
    let mut rng = seeded_rng(1);
    g.set(0, 0, 0, Voxel::Sand(1)).unwrap();
    g.set(0, 1, 0, Voxel::Sand(2)).unwrap();
    g.dirty = false;
    let before = g.cells.clone();
    fall_cell(&mut g, &mut rng, 0, 1, 0);
    assert_eq!(g.cells, before);
    assert!(!g.dirty);
}

#[test]
fn sandfall_runs_every_tenth_frame() {
    let mut s = GameState::init();
    let before = s.voxels.cells.clone();
    s.frame = 7;
    do_sandfall(&mut s);
    assert_eq!(s.voxels.cells, before);
    s.frame = 20;
    do_sandfall(&mut s);
    assert_ne!(s.voxels.cells, before);
    assert_eq!(sand_total(&s.voxels), 50);
    assert_eq!(s.voxels.get(0, 0, 0), before[0]);
    assert!(s.voxels.get(1, 0, 1).is_sand());
    assert_eq!(s.voxels.get(1, 1, 1), Voxel::Air);
}

#[test]
fn test_world_is_a_diagonal_stripe() {
    let s = GameState::init();
    assert!(s.paused && s.running);
    assert_eq!(s.frame, 0);
    assert_eq!(sand_total(&s.voxels), 50);
    for d in 0..50 {
        assert!(s.voxels.get(d, d, d).is_sand());
    }
    assert_eq!(s.voxels.get(1, 2, 3), Voxel::Air);
    assert!(s.voxels_mesh.is_empty());
}

#[test]
fn generations_keep_every_shade_and_only_move_down() {
    let mut g = VoxelGrid::new(5, 6, 5);
    let mut rng = seeded_rng(11);
    for y in 0..6 {
        g.set(2, y, 2, Voxel::Sand(10 + y as u8)).unwrap();
    }
    g.set(4, 5, 0, Voxel::Sand(99)).unwrap();
    let shades = |g: &VoxelGrid| {
        let mut v: Vec<Voxel> = g.cells.iter().copied().filter(|v| !v.is_air()).collect();
        v.sort_by_key(|v| format!("{:?}", v));
        v
    };
    let height_sum = |g: &VoxelGrid| {
        let mut total = 0;
        for x in 0..5 {
            for y in 0..6 {
                for z in 0..5 {
                    if !g.get(x, y, z).is_air() {
                        total += y;
                    }
                }
            }
        }
        total
    };
    let start = shades(&g);
    let mut h = height_sum(&g);
    for _ in 0..20 {
        let before = g.cells.clone();
        g.dirty = false;
        sandfall_tick(&mut g, &mut rng);
        assert_eq!(shades(&g), start);
        let h2 = height_sum(&g);
        assert!(h2 <= h);
        assert_eq!(g.dirty, g.cells != before);
        if g.cells != before {
            assert!(h2 < h);
        }
        assert_eq!(g.get(2, 0, 2), Voxel::Sand(10));
        h = h2;
    }
}
