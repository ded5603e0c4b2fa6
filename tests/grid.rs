use sandvox::grid::{OutOfBounds, VoxelGrid, VOX_MAX_Y};
use sandvox::voxel::Voxel;

#[test]
fn get_inside_returns_stored_voxel() {
    let mut g = VoxelGrid::new(4, 5, 6);
    assert_eq!(g.set(1, 2, 3, Voxel::Sand(7)), Ok(()));
    assert_eq!(g.get(1, 2, 3), Voxel::Sand(7));
    assert_eq!(g.get(3, 4, 5), Voxel::Air);
    assert_eq!(g.get(0, 0, 0), Voxel::Air);
}

#[test]
fn get_one_step_outside_is_boundary() {
    let g = VoxelGrid::new(4, 5, 6);
    assert_eq!(g.get(-1, 0, 0), Voxel::Boundary);
    assert_eq!(g.get(0, -1, 0), Voxel::Boundary);
    assert_eq!(g.get(0, 0, -1), Voxel::Boundary);
    assert_eq!(g.get(4, 0, 0), Voxel::Boundary);
    assert_eq!(g.get(0, 5, 0), Voxel::Boundary);
    assert_eq!(g.get(0, 0, 6), Voxel::Boundary);
    assert_eq!(g.get(4, 5, 6), Voxel::Boundary);
}

#[test]
fn get_further_outside_is_air() {
    let g = VoxelGrid::new(4, 5, 6);
    assert_eq!(g.get(-2, 0, 0), Voxel::Air);
    assert_eq!(g.get(0, 6, 0), Voxel::Air);
    assert_eq!(g.get(0, 0, 100), Voxel::Air);
    assert_eq!(g.get(i64::MIN, i64::MAX, 0), Voxel::Air);
}

#[test]
fn set_one_past_top_fails_and_keeps_dirty_flag() {
    let mut g = VoxelGrid::new(10, 10, 10);
    g.dirty = false;
    assert_eq!(g.set(5, 10, 5, Voxel::Sand(1)), Err(OutOfBounds));
    assert!(!g.dirty);
    let mut d = VoxelGrid::new(50, VOX_MAX_Y, 50);
    d.dirty = false;
    assert_eq!(d.set(0, VOX_MAX_Y as i64, 0, Voxel::Sand(1)), Err(OutOfBounds));
    assert!(!d.dirty);
}

#[test]
fn set_inside_marks_dirty_even_for_same_value() {
    let mut g = VoxelGrid::new(3, 3, 3);
    g.dirty = false;
    assert_eq!(g.set(1, 1, 1, Voxel::Air), Ok(()));
    assert!(g.dirty);
}

#[test]
fn set_negative_coordinate_fails() {
    let mut g = VoxelGrid::new(3, 3, 3);
    let before = g.cells.clone();
    assert_eq!(g.set(-1, 0, 0, Voxel::Sand(2)), Err(OutOfBounds));
    assert_eq!(g.cells, before);
}

#[test]
fn new_grid_is_all_air_and_dirty() {
    let g = VoxelGrid::new(2, 3, 4);
    assert_eq!(g.cells.len(), 24);
    assert!(g.cells.iter().all(|v| *v == Voxel::Air));
    assert!(g.dirty);
}

#[test]
fn voxel_predicates() {
    assert!(Voxel::Air.is_air());
    assert!(!Voxel::Boundary.is_air());
    assert!(!Voxel::Sand(3).is_air());
    assert!(Voxel::Sand(3).is_sand());
    assert!(!Voxel::Boundary.is_sand());
    assert_eq!(Voxel::Air.material(), 0);
    assert_eq!(Voxel::Boundary.material(), 1);
    assert_eq!(Voxel::Sand(200).material(), 2);
}
