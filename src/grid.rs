use vstd::prelude::*;

use crate::voxel::Voxel;

verus! {

/// Default extent of the world along x.
pub const VOX_MAX_X: usize = 50;

/// Default extent of the world along y (up).
pub const VOX_MAX_Y: usize = 50;

/// Default extent of the world along z.
pub const VOX_MAX_Z: usize = 50;

/// Smallest height of a grid: the player, 1.8 units tall, must fit.
pub const MIN_HEIGHT: usize = 2;

/// Largest extent of a grid along any axis; it keeps every mesh coordinate
/// within the range of a vertex component.
pub const AXIS_LIMIT: usize = 120;

/// Failure of a write outside the grid.
#[derive(Clone, Copy, PartialEq, Eq, Structural, Debug)]
pub struct OutOfBounds;

/// A dense three-dimensional grid of voxels, stored x-major, then y, then z.
///
/// `dirty` records that the grid changed since the last mesh rebuild.
pub struct VoxelGrid {
    pub x_max: usize,
    pub y_max: usize,
    pub z_max: usize,
    pub cells: Vec<Voxel>,
    pub dirty: bool,
}

/// Position of cell `(x, y, z)` in the storage of a grid with extents `ym`, `zm`.
pub open spec fn index_of(x: int, y: int, z: int, ym: int, zm: int) -> int {
    (x * ym + y) * zm + z
}

/// A stored voxel is never the synthetic boundary.
pub open spec fn storable(v: Voxel) -> bool {
    !(v is Boundary)
}

/// An in-bounds cell has a storage position inside the storage.
pub proof fn lemma_index_in_bounds(x: int, y: int, z: int, xm: int, ym: int, zm: int)
    requires
        0 <= x < xm,
        0 <= y < ym,
        0 <= z < zm,
    ensures
        0 <= index_of(x, y, z, ym, zm) < xm * ym * zm,
{
    assert(0 <= x * ym) by (nonlinear_arith)
        requires 0 <= x, 0 <= ym;
    assert(x * ym + y < xm * ym) by (nonlinear_arith)
        requires 0 <= x < xm, 0 <= y < ym;
    assert((x * ym + y) * zm + z < xm * ym * zm) by (nonlinear_arith)
        requires 0 <= x * ym + y < xm * ym, 0 <= z < zm;
    assert(0 <= (x * ym + y) * zm) by (nonlinear_arith)
        requires 0 <= x * ym + y, 0 <= zm;
}

/// Distinct cells have distinct storage positions.
pub proof fn lemma_index_injective(
    x: int, y: int, z: int, a: int, b: int, c: int, xm: int, ym: int, zm: int,
)
    requires
        0 <= x < xm, 0 <= y < ym, 0 <= z < zm,
        0 <= a < xm, 0 <= b < ym, 0 <= c < zm,
        index_of(x, y, z, ym, zm) == index_of(a, b, c, ym, zm),
    ensures
        x == a && y == b && z == c,
{
    let p = x * ym + y;
    let q = a * ym + b;
    assert(p == q && z == c) by (nonlinear_arith)
        requires p * zm + z == q * zm + c, 0 <= z < zm, 0 <= c < zm, p >= 0, q >= 0;
    assert(x == a && y == b) by (nonlinear_arith)
        requires x * ym + y == a * ym + b, 0 <= y < ym, 0 <= b < ym, x >= 0, a >= 0;
}

impl VoxelGrid {
    pub open spec fn wf(&self) -> bool {
        &&& 1 <= self.x_max <= AXIS_LIMIT
        &&& MIN_HEIGHT <= self.y_max <= AXIS_LIMIT
        &&& 1 <= self.z_max <= AXIS_LIMIT
        &&& self.cells@.len() == self.x_max * self.y_max * self.z_max
        &&& forall|i: int| 0 <= i < self.cells@.len() ==> storable(#[trigger] self.cells@[i])
    }

    /// Same extents as `other`.
    pub open spec fn same_shape(&self, other: &VoxelGrid) -> bool {
        &&& self.x_max == other.x_max
        &&& self.y_max == other.y_max
        &&& self.z_max == other.z_max
    }

    /// The cell lies inside the grid.
    pub open spec fn in_bounds(&self, x: int, y: int, z: int) -> bool {
        &&& 0 <= x < self.x_max
        &&& 0 <= y < self.y_max
        &&& 0 <= z < self.z_max
    }

    /// One of the coordinates lies exactly one step outside its axis.
    pub open spec fn on_shell(&self, x: int, y: int, z: int) -> bool {
        x == -1 || y == -1 || z == -1 || x == self.x_max || y == self.y_max || z == self.z_max
    }

    /// Storage position of cell `(x, y, z)`.
    pub open spec fn index(&self, x: int, y: int, z: int) -> int {
        index_of(x, y, z, self.y_max as int, self.z_max as int)
    }

    /// The stored voxel at an in-bounds cell.
    pub open spec fn cell(&self, x: int, y: int, z: int) -> Voxel {
        self.cells@[self.index(x, y, z)]
    }

    /// What a lookup at `(x, y, z)` yields: the boundary on the shell, the stored
    /// voxel inside the grid, air further out.
    pub open spec fn voxel_at(&self, x: int, y: int, z: int) -> Voxel {
        if self.on_shell(x, y, z) {
            Voxel::Boundary
        } else if self.in_bounds(x, y, z) {
            self.cell(x, y, z)
        } else {
            Voxel::Air
        }
    }

    /// A grid of the given extents holding only air, marked dirty so that a
    /// first mesh gets built.
    pub fn new(x_max: usize, y_max: usize, z_max: usize) -> (g: VoxelGrid)
        requires
            1 <= x_max <= AXIS_LIMIT,
            MIN_HEIGHT <= y_max <= AXIS_LIMIT,
            1 <= z_max <= AXIS_LIMIT,
        ensures
            g.wf(),
            g.x_max == x_max,
            g.y_max == y_max,
            g.z_max == z_max,
            g.dirty,
            forall|i: int| 0 <= i < g.cells@.len() ==> #[trigger] g.cells@[i] == Voxel::Air,
    {
        assert(x_max * y_max <= AXIS_LIMIT * AXIS_LIMIT) by (nonlinear_arith)
            requires x_max <= AXIS_LIMIT, y_max <= AXIS_LIMIT;
        assert(x_max * y_max * z_max <= AXIS_LIMIT * AXIS_LIMIT * AXIS_LIMIT) by (nonlinear_arith)
            requires x_max * y_max <= AXIS_LIMIT * AXIS_LIMIT, z_max <= AXIS_LIMIT;
        let n: usize = x_max * y_max * z_max;
        let mut cells: Vec<Voxel> = Vec::with_capacity(n);
        let mut i: usize = 0;
        while i < n
            invariant
                i <= n,
                cells@.len() == i,
                forall|j: int| 0 <= j < i ==> #[trigger] cells@[j] == Voxel::Air,
            decreases n - i,
        {
            cells.push(Voxel::Air);
            i = i + 1;
        }
        VoxelGrid { x_max, y_max, z_max, cells, dirty: true }
    }

    /// Storage position of an in-bounds cell.
    pub fn index_exec(&self, x: usize, y: usize, z: usize) -> (r: usize)
        requires
            self.wf(),
            self.in_bounds(x as int, y as int, z as int),
        ensures
            r as int == self.index(x as int, y as int, z as int),
            r < self.cells@.len(),
    {
        proof {
            lemma_index_in_bounds(
                x as int, y as int, z as int,
                self.x_max as int, self.y_max as int, self.z_max as int,
            );
            assert(x * self.y_max + y <= (x * self.y_max + y) * self.z_max) by (nonlinear_arith)
                requires self.z_max >= 1, x * self.y_max + y >= 0;
            assert(self.x_max * self.y_max * self.z_max <= AXIS_LIMIT * AXIS_LIMIT * AXIS_LIMIT)
                by (nonlinear_arith)
                requires
                    self.x_max <= AXIS_LIMIT, self.y_max <= AXIS_LIMIT, self.z_max <= AXIS_LIMIT,
                    self.x_max >= 1, self.y_max >= 1, self.z_max >= 1;
        }
        (x * self.y_max + y) * self.z_max + z
    }

    /// Looks up the voxel at `(x, y, z)`; coordinates outside the grid never
    /// reach the storage.
    pub fn get(&self, x: i64, y: i64, z: i64) -> (r: Voxel)
        requires
            self.wf(),
        ensures
            r == self.voxel_at(x as int, y as int, z as int),
    {
        let xm = self.x_max as i64;
        let ym = self.y_max as i64;
        let zm = self.z_max as i64;
        if x == -1 || y == -1 || z == -1 || x == xm || y == ym || z == zm {
            Voxel::Boundary
        } else if 0 <= x && x < xm && 0 <= y && y < ym && 0 <= z && z < zm {
            let i = self.index_exec(x as usize, y as usize, z as usize);
            self.cells[i]
        } else {
            Voxel::Air
        }
    }

    /// Writes `v` at `(x, y, z)` and marks the grid dirty; outside the grid it
    /// changes nothing and reports the failure.
    pub fn set(&mut self, x: i64, y: i64, z: i64, v: Voxel) -> (r: Result<(), OutOfBounds>)
        requires
            old(self).wf(),
            storable(v),
        ensures
            final(self).wf(),
            final(self).same_shape(old(self)),
            old(self).in_bounds(x as int, y as int, z as int) ==> {
                &&& r is Ok
                &&& final(self).cells@ == old(self).cells@.update(
                    old(self).index(x as int, y as int, z as int),
                    v,
                )
                &&& final(self).dirty
            },
            !old(self).in_bounds(x as int, y as int, z as int) ==> {
                &&& r is Err
                &&& *final(self) == *old(self)
            },
    {
        let xm = self.x_max as i64;
        let ym = self.y_max as i64;
        let zm = self.z_max as i64;
        if 0 <= x && x < xm && 0 <= y && y < ym && 0 <= z && z < zm {
            let i = self.index_exec(x as usize, y as usize, z as usize);
            self.cells.set(i, v);
            self.dirty = true;
            Ok(())
        } else {
            Err(OutOfBounds)
        }
    }
}

} // verus!
