use vstd::prelude::*;

verus! {

/// Cosmetic shade of a sand voxel.
pub type VoxelShade = u8;

/// The content of one cell of the world.
///
/// `Boundary` is never stored in a grid: it is what a lookup returns for the
/// shell of cells just outside the grid, so that the shell acts as a solid wall.
#[derive(Clone, Copy, PartialEq, Eq, Structural, Debug)]
pub enum Voxel {
    Air,
    Boundary,
    Sand(VoxelShade),
}

/// Material id of a voxel, as handed to the renderer with each vertex.
pub open spec fn material_of(v: Voxel) -> u8 {
    match v {
        Voxel::Air => 0,
        Voxel::Boundary => 1,
        Voxel::Sand(_) => 2,
    }
}

impl Voxel {
    pub fn is_air(&self) -> (r: bool)
        ensures
            r == (*self is Air),
    {
        match *self {
            Voxel::Air => true,
            _ => false,
        }
    }

    /// Is this a sand voxel, of any shade?
    pub fn is_sand(&self) -> (r: bool)
        ensures
            r == (*self is Sand),
    {
        match *self {
            Voxel::Sand(_) => true,
            _ => false,
        }
    }

    /// The material id that the mesh carries for this voxel.
    pub fn material(&self) -> (r: u8)
        ensures
            r == material_of(*self),
    {
        match *self {
            Voxel::Air => 0,
            Voxel::Boundary => 1,
            Voxel::Sand(_) => 2,
        }
    }
}

} // verus!
