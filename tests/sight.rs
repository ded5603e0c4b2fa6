use sandvox::grid::VoxelGrid;
use sandvox::physics::FixedVec3;
use sandvox::sight::{get_sight_block, SightBlock, VoxelCoord};
use sandvox::voxel::Voxel;

fn c(x: i64, y: i64, z: i64) -> VoxelCoord {
    VoxelCoord { x, y, z }
}

const EYE: FixedVec3 = FixedVec3 { x: 0, y: 16_200_000_000, z: 0 };

#[test]
fn ray_along_z_hits_voxel_and_places_in_front() {
    let mut g = VoxelGrid::new(10, 10, 10);
    g.set(0, 1, 3, Voxel::Sand(1)).unwrap();
    let r = get_sight_block(&g, EYE, FixedVec3 { x: 0, y: 0, z: 1000 });
    assert_eq!(r, Some(SightBlock { pos: c(0, 1, 3), new_pos: c(0, 1, 2) }));
}

#[test]
fn ray_along_negative_z_hits_the_boundary_shell() {
    let mut g = VoxelGrid::new(10, 10, 10);
    g.set(0, 1, 3, Voxel::Sand(1)).unwrap();
    let r = get_sight_block(&g, EYE, FixedVec3 { x: 0, y: 0, z: -1000 });
    assert_eq!(r, Some(SightBlock { pos: c(0, 1, -1), new_pos: c(0, 1, 0) }));
}

#[test]
fn ray_down_hits_floor_below() {
    let g = VoxelGrid::new(10, 10, 10);
    let eye = FixedVec3 { x: 55_000_000_000, y: 16_200_000_000, z: 55_000_000_000 };
    let r = get_sight_block(&g, eye, FixedVec3 { x: 0, y: -1000, z: 0 });
    assert_eq!(r, Some(SightBlock { pos: c(5, -1, 5), new_pos: c(5, 0, 5) }));
}

#[test]
fn ray_along_x_places_on_the_near_face() {
    let mut g = VoxelGrid::new(40, 10, 10);
    g.set(7, 1, 5, Voxel::Sand(1)).unwrap();
    let eye = FixedVec3 { x: 25_000_000_000, y: 16_200_000_000, z: 55_000_000_000 };
    let r = get_sight_block(&g, eye, FixedVec3 { x: 1000, y: 0, z: 0 });
    assert_eq!(r, Some(SightBlock { pos: c(7, 1, 5), new_pos: c(6, 1, 5) }));
    let eye2 = FixedVec3 { x: 125_000_000_000, y: 16_200_000_000, z: 55_000_000_000 };
    let r2 = get_sight_block(&g, eye2, FixedVec3 { x: -1000, y: 0, z: 0 });
    assert_eq!(r2, Some(SightBlock { pos: c(7, 1, 5), new_pos: c(8, 1, 5) }));
}

#[test]
fn nothing_within_reach_gives_none() {
    let g = VoxelGrid::new(100, 100, 100);
    let eye = FixedVec3 { x: 500_000_000_000, y: 500_000_000_000, z: 100_000_000_000 };
    let r = get_sight_block(&g, eye, FixedVec3 { x: 0, y: 0, z: 1000 });
    assert_eq!(r, None);
}

#[test]
fn eye_inside_solid_places_below() {
    let mut g = VoxelGrid::new(10, 10, 10);
    g.set(2, 3, 4, Voxel::Sand(1)).unwrap();
    let eye = FixedVec3 { x: 25_000_000_000, y: 35_000_000_000, z: 45_000_000_000 };
    let r = get_sight_block(&g, eye, FixedVec3 { x: 0, y: 0, z: 1000 });
    assert_eq!(r, Some(SightBlock { pos: c(2, 3, 4), new_pos: c(2, 2, 4) }));
}
