use sandvox::client::{maybe_make_voxels_mesh, GameState};
use sandvox::grid::VoxelGrid;
use sandvox::mesh::{make_voxels_mesh, make_wireframe_mesh, CUBE_VERTICES, WIREFRAME_VERTICES};
use sandvox::sight::{SightBlock, VoxelCoord};
use sandvox::voxel::Voxel;

#[test]
fn empty_grid_has_empty_mesh() {
    let g = VoxelGrid::new(4, 4, 4);
    assert!(make_voxels_mesh(&g).is_empty());
}

#[test]
fn one_voxel_gives_one_shifted_cube() {
    let mut g = VoxelGrid::new(4, 4, 4);
    g.set(1, 2, 3, Voxel::Sand(9)).unwrap();
    let mesh = make_voxels_mesh(&g);
    assert_eq!(mesh.len(), CUBE_VERTICES);
    assert_eq!(mesh[0].pos, (1, 2, 3));
    assert_eq!(mesh[1].pos, (1, 2, 4));
    assert_eq!(mesh[3].pos, (2, 3, 3));
    assert_eq!(mesh[35].pos, (2, 2, 4));
    assert!(mesh.iter().all(|v| v.voxel_type == 2));
    for v in &mesh {
        assert!(v.pos.0 == 1 || v.pos.0 == 2);
        assert!(v.pos.1 == 2 || v.pos.1 == 3);
        assert!(v.pos.2 == 3 || v.pos.2 == 4);
    }
}

#[test]
fn cubes_come_in_storage_order() {
    let mut g = VoxelGrid::new(3, 3, 3);
    g.set(2, 0, 0, Voxel::Sand(1)).unwrap();
    g.set(0, 1, 2, Voxel::Sand(1)).unwrap();
    let mesh = make_voxels_mesh(&g);
    assert_eq!(mesh.len(), 2 * CUBE_VERTICES);
    assert_eq!(mesh[0].pos, (0, 1, 2));
    assert_eq!(mesh[CUBE_VERTICES].pos, (2, 0, 0));
}

#[test]
fn wireframe_outlines_the_placement_cell() {
    assert!(make_wireframe_mesh(None).is_none());
    let b = SightBlock {
        pos: VoxelCoord { x: 0, y: 1, z: 3 },
        new_pos: VoxelCoord { x: 0, y: 1, z: 2 },
    };
    let m = make_wireframe_mesh(Some(b)).unwrap();
    assert_eq!(m.len(), WIREFRAME_VERTICES);
    assert_eq!(m[0].pos, (0, 1, 2));
    assert_eq!(m[1].pos, (0, 2, 2));
    assert_eq!(m[8].pos, (1, 1, 2));
    assert_eq!(m[47].pos, (0, 1, 3));
    assert!(m.iter().all(|v| v.color == (1, 1, 1, 1)));
}

#[test]
fn rebuild_happens_only_when_dirty() {
    let mut s = GameState::init();
    assert!(s.voxels.dirty);
    maybe_make_voxels_mesh(&mut s);
    assert!(!s.voxels.dirty);
    assert_eq!(s.voxels_mesh.len(), 50 * CUBE_VERTICES);
    let first = s.voxels_mesh.clone();
    maybe_make_voxels_mesh(&mut s);
    assert_eq!(s.voxels_mesh, first);
    assert!(!s.voxels.dirty);
    s.voxels_mesh.clear();
    maybe_make_voxels_mesh(&mut s);
    assert!(s.voxels_mesh.is_empty());
    s.voxels.set(10, 20, 30, Voxel::Sand(1)).unwrap();
    maybe_make_voxels_mesh(&mut s);
    assert_eq!(s.voxels_mesh.len(), 51 * CUBE_VERTICES);
}
