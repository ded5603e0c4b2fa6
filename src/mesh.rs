use vstd::prelude::*;

use crate::grid::{index_of, VoxelGrid, AXIS_LIMIT};
use crate::sight::{SightBlock, VoxelCoord};
use crate::voxel::{material_of, Voxel};

verus! {

/// One integer coordinate of a mesh vertex.
pub type VoxInd = i8;

/// A vertex of the voxel mesh: a corner position and the material of its voxel.
#[derive(Clone, Copy, PartialEq, Eq, Debug)]
pub struct VoxelVertex {
    pub pos: (VoxInd, VoxInd, VoxInd),
    pub voxel_type: u8,
}

/// A vertex of a line mesh: a position and an RGBA color.
#[derive(Clone, Copy, PartialEq, Eq, Debug)]
pub struct BasicVertexI {
    pub pos: (VoxInd, VoxInd, VoxInd),
    pub color: (VoxInd, VoxInd, VoxInd, VoxInd),
}

/// Number of vertices of one cube in the voxel mesh (12 triangles).
pub const CUBE_VERTICES: usize = 36;

/// Number of vertices of the wireframe box (24 line segments).
pub const WIREFRAME_VERTICES: usize = 48;

/// Corners of the unit cube, three per triangle.
pub open spec fn cube_template() -> Seq<(i8, i8, i8)> {
    seq![
        (0, 0, 0), (0, 0, 1), (0, 1, 1),
        (1, 1, 0), (0, 0, 0), (0, 1, 0),
        (1, 0, 1), (0, 0, 0), (1, 0, 0),
        (1, 1, 0), (1, 0, 0), (0, 0, 0),
        (0, 0, 0), (0, 1, 1), (0, 1, 0),
        (1, 0, 1), (0, 0, 1), (0, 0, 0),
        (0, 1, 1), (0, 0, 1), (1, 0, 1),
        (1, 1, 1), (1, 0, 0), (1, 1, 0),
        (1, 0, 0), (1, 1, 1), (1, 0, 1),
        (1, 1, 1), (1, 1, 0), (0, 1, 0),
        (1, 1, 1), (0, 1, 0), (0, 1, 1),
        (1, 1, 1), (0, 1, 1), (1, 0, 1),
    ]
}

/// End points of the twelve edges of the unit cube, drawn once per face.
pub open spec fn wireframe_template() -> Seq<(i8, i8, i8)> {
    seq![
        (0, 0, 0), (0, 1, 0), (0, 1, 0), (0, 1, 1), (0, 1, 1), (0, 0, 1), (0, 0, 1), (0, 0, 0),
        (1, 0, 0), (1, 1, 0), (1, 1, 0), (1, 1, 1), (1, 1, 1), (1, 0, 1), (1, 0, 1), (1, 0, 0),
        (0, 0, 0), (1, 0, 0), (1, 0, 0), (1, 0, 1), (1, 0, 1), (0, 0, 1), (0, 0, 1), (0, 0, 0),
        (0, 1, 0), (1, 1, 0), (1, 1, 0), (1, 1, 1), (1, 1, 1), (0, 1, 1), (0, 1, 1), (0, 1, 0),
        (0, 0, 0), (1, 0, 0), (1, 0, 0), (1, 1, 0), (1, 1, 0), (0, 1, 0), (0, 1, 0), (0, 0, 0),
        (0, 0, 1), (1, 0, 1), (1, 0, 1), (1, 1, 1), (1, 1, 1), (0, 1, 1), (0, 1, 1), (0, 0, 1),
    ]
}

/// The template point `t` shifted to cell `(x, y, z)`.
pub open spec fn shift(t: (i8, i8, i8), x: int, y: int, z: int) -> (i8, i8, i8) {
    ((t.0 + x) as i8, (t.1 + y) as i8, (t.2 + z) as i8)
}

/// The cube of cell `(x, y, z)`, every vertex tagged with material `m`.
pub open spec fn cube_at(x: int, y: int, z: int, m: u8) -> Seq<VoxelVertex> {
    Seq::new(
        CUBE_VERTICES as nat,
        |k: int| VoxelVertex { pos: shift(cube_template()[k], x, y, z), voxel_type: m },
    )
}

/// What cell `(x, y, z)` of the cells `s` (extents `ym`, `zm` along y and z)
/// adds to the mesh: nothing for air, else its cube.
pub open spec fn cell_mesh(s: Seq<Voxel>, ym: int, zm: int, x: int, y: int, z: int) -> Seq<VoxelVertex> {
    let v = s[index_of(x, y, z, ym, zm)];
    if v is Air {
        Seq::empty()
    } else {
        cube_at(x, y, z, material_of(v))
    }
}

/// Cells `(x, y, 0)` to `(x, y, n - 1)`, in order.
pub open spec fn row_mesh(s: Seq<Voxel>, ym: int, zm: int, x: int, y: int, n: int) -> Seq<VoxelVertex>
    decreases n,
{
    if n <= 0 {
        Seq::empty()
    } else {
        row_mesh(s, ym, zm, x, y, n - 1) + cell_mesh(s, ym, zm, x, y, n - 1)
    }
}

/// Rows `0` to `n - 1` of slab `x`, in order.
pub open spec fn slab_mesh(s: Seq<Voxel>, ym: int, zm: int, x: int, n: int) -> Seq<VoxelVertex>
    decreases n,
{
    if n <= 0 {
        Seq::empty()
    } else {
        slab_mesh(s, ym, zm, x, n - 1) + row_mesh(s, ym, zm, x, n - 1, zm)
    }
}

/// Slabs `0` to `n - 1`, in order.
pub open spec fn grid_mesh(s: Seq<Voxel>, ym: int, zm: int, n: int) -> Seq<VoxelVertex>
    decreases n,
{
    if n <= 0 {
        Seq::empty()
    } else {
        grid_mesh(s, ym, zm, n - 1) + slab_mesh(s, ym, zm, n - 1, ym)
    }
}

/// The mesh of a grid: a cube for every non-air cell, x-major, then y, then z.
pub open spec fn voxels_mesh(g: VoxelGrid) -> Seq<VoxelVertex> {
    grid_mesh(g.cells@, g.y_max as int, g.z_max as int, g.x_max as int)
}

fn cube_template_exec() -> (r: [(i8, i8, i8); 36])
    ensures
        r@ == cube_template(),
{
    let r: [(i8, i8, i8); 36] = [
        (0, 0, 0), (0, 0, 1), (0, 1, 1),
        (1, 1, 0), (0, 0, 0), (0, 1, 0),
        (1, 0, 1), (0, 0, 0), (1, 0, 0),
        (1, 1, 0), (1, 0, 0), (0, 0, 0),
        (0, 0, 0), (0, 1, 1), (0, 1, 0),
        (1, 0, 1), (0, 0, 1), (0, 0, 0),
        (0, 1, 1), (0, 0, 1), (1, 0, 1),
        (1, 1, 1), (1, 0, 0), (1, 1, 0),
        (1, 0, 0), (1, 1, 1), (1, 0, 1),
        (1, 1, 1), (1, 1, 0), (0, 1, 0),
        (1, 1, 1), (0, 1, 0), (0, 1, 1),
        (1, 1, 1), (0, 1, 1), (1, 0, 1),
    ];
    assert(r@ =~= cube_template());
    r
}

/// Appends the cube of cell `(x, y, z)` with material `m`.
fn push_cube(mesh: &mut Vec<VoxelVertex>, x: usize, y: usize, z: usize, m: u8)
    requires
        x < AXIS_LIMIT,
        y < AXIS_LIMIT,
        z < AXIS_LIMIT,
    ensures
        final(mesh)@ == old(mesh)@ + cube_at(x as int, y as int, z as int, m),
{
    let t = cube_template_exec();
    let xi = x as i8;
    let yi = y as i8;
    let zi = z as i8;
    let mut k: usize = 0;
    while k < CUBE_VERTICES
        invariant
            k <= CUBE_VERTICES,
            t@ == cube_template(),
            xi as int == x,
            yi as int == y,
            zi as int == z,
            x < AXIS_LIMIT,
            y < AXIS_LIMIT,
            z < AXIS_LIMIT,
            mesh@ == old(mesh)@ + cube_at(x as int, y as int, z as int, m).take(k as int),
        decreases CUBE_VERTICES - k,
    {
        let c = t[k];
        assert(0 <= c.0 <= 1 && 0 <= c.1 <= 1 && 0 <= c.2 <= 1);
        mesh.push(VoxelVertex { pos: (c.0 + xi, c.1 + yi, c.2 + zi), voxel_type: m });
        k = k + 1;
        assert(mesh@ =~= old(mesh)@ + cube_at(x as int, y as int, z as int, m).take(k as int));
    }
    assert(cube_at(x as int, y as int, z as int, m).take(CUBE_VERTICES as int)
        =~= cube_at(x as int, y as int, z as int, m));
}

/// Builds the mesh of the whole grid.
pub fn make_voxels_mesh(g: &VoxelGrid) -> (mesh: Vec<VoxelVertex>)
    requires
        g.wf(),
    ensures
        mesh@ == voxels_mesh(*g),
{
    let mut mesh: Vec<VoxelVertex> = Vec::new();
    let mut x: usize = 0;
    while x < g.x_max
        invariant
            g.wf(),
            x <= g.x_max,
            mesh@ == grid_mesh(g.cells@, g.y_max as int, g.z_max as int, x as int),
        decreases g.x_max - x,
    {
        let mut y: usize = 0;
        while y < g.y_max
            invariant
                g.wf(),
                x < g.x_max,
                y <= g.y_max,
                mesh@ == grid_mesh(g.cells@, g.y_max as int, g.z_max as int, x as int) + slab_mesh(g.cells@, g.y_max as int, g.z_max as int, x as int, y as int),
            decreases g.y_max - y,
        {
            let mut z: usize = 0;
            while z < g.z_max
                invariant
                    g.wf(),
                    x < g.x_max,
                    y < g.y_max,
                    z <= g.z_max,
                    mesh@ == grid_mesh(g.cells@, g.y_max as int, g.z_max as int, x as int) + slab_mesh(g.cells@, g.y_max as int, g.z_max as int, x as int, y as int)
                        + row_mesh(g.cells@, g.y_max as int, g.z_max as int, x as int, y as int, z as int),
                decreases g.z_max - z,
            {
                let ghost before = mesh@;
                let i = g.index_exec(x, y, z);
                let v = g.cells[i];
                if !v.is_air() {
                    push_cube(&mut mesh, x, y, z, v.material());
                }
                assert(mesh@ =~= before + cell_mesh(g.cells@, g.y_max as int, g.z_max as int, x as int, y as int, z as int));
                z = z + 1;
                assert(mesh@ =~= grid_mesh(g.cells@, g.y_max as int, g.z_max as int, x as int) + slab_mesh(g.cells@, g.y_max as int, g.z_max as int, x as int, y as int)
                    + row_mesh(g.cells@, g.y_max as int, g.z_max as int, x as int, y as int, z as int));
            }
            y = y + 1;
            assert(mesh@ =~= grid_mesh(g.cells@, g.y_max as int, g.z_max as int, x as int) + slab_mesh(g.cells@, g.y_max as int, g.z_max as int, x as int, y as int));
        }
        x = x + 1;
        assert(mesh@ =~= grid_mesh(g.cells@, g.y_max as int, g.z_max as int, x as int));
    }
    mesh
}

} // verus!

verus! {

/// Color of the wireframe lines.
pub open spec fn wire_color() -> (i8, i8, i8, i8) {
    (1, 1, 1, 1)
}

/// A coordinate that keeps `c` and `c + 1` within a vertex component.
pub open spec fn vertex_coord_ok(c: i64) -> bool {
    i8::MIN <= c < i8::MAX
}

/// The outline of cell `c` as a line list.
pub open spec fn wireframe_at(c: VoxelCoord) -> Seq<BasicVertexI> {
    Seq::new(
        WIREFRAME_VERTICES as nat,
        |k: int|
            BasicVertexI {
                pos: shift(wireframe_template()[k], c.x as int, c.y as int, c.z as int),
                color: wire_color(),
            },
    )
}

fn wireframe_template_exec() -> (r: [(i8, i8, i8); 48])
    ensures
        r@ == wireframe_template(),
{
    let r: [(i8, i8, i8); 48] = [
        (0, 0, 0), (0, 1, 0), (0, 1, 0), (0, 1, 1), (0, 1, 1), (0, 0, 1), (0, 0, 1), (0, 0, 0),
        (1, 0, 0), (1, 1, 0), (1, 1, 0), (1, 1, 1), (1, 1, 1), (1, 0, 1), (1, 0, 1), (1, 0, 0),
        (0, 0, 0), (1, 0, 0), (1, 0, 0), (1, 0, 1), (1, 0, 1), (0, 0, 1), (0, 0, 1), (0, 0, 0),
        (0, 1, 0), (1, 1, 0), (1, 1, 0), (1, 1, 1), (1, 1, 1), (0, 1, 1), (0, 1, 1), (0, 1, 0),
        (0, 0, 0), (1, 0, 0), (1, 0, 0), (1, 1, 0), (1, 1, 0), (0, 1, 0), (0, 1, 0), (0, 0, 0),
        (0, 0, 1), (1, 0, 1), (1, 0, 1), (1, 1, 1), (1, 1, 1), (0, 1, 1), (0, 1, 1), (0, 0, 1),
    ];
    assert(r@ =~= wireframe_template());
    r
}

/// The outline of the placement cell of the sighted block, if there is one.
pub fn make_wireframe_mesh(sight_block: Option<SightBlock>) -> (r: Option<Vec<BasicVertexI>>)
    requires
        sight_block matches Some(b) ==> {
            &&& vertex_coord_ok(b.new_pos.x)
            &&& vertex_coord_ok(b.new_pos.y)
            &&& vertex_coord_ok(b.new_pos.z)
        },
    ensures
        sight_block is None ==> r is None,
        sight_block matches Some(b) ==> r matches Some(m) && m@ == wireframe_at(b.new_pos),
{
    match sight_block {
        None => None,
        Some(b) => {
            let t = wireframe_template_exec();
            let c = b.new_pos;
            let xi = c.x as i8;
            let yi = c.y as i8;
            let zi = c.z as i8;
            let color: (i8, i8, i8, i8) = (1, 1, 1, 1);
            let mut mesh: Vec<BasicVertexI> = Vec::new();
            let mut k: usize = 0;
            while k < WIREFRAME_VERTICES
                invariant
                    k <= WIREFRAME_VERTICES,
                    t@ == wireframe_template(),
                    xi as int == c.x,
                    yi as int == c.y,
                    zi as int == c.z,
                    vertex_coord_ok(c.x),
                    vertex_coord_ok(c.y),
                    vertex_coord_ok(c.z),
                    color == wire_color(),
                    mesh@ == wireframe_at(c).take(k as int),
                decreases WIREFRAME_VERTICES - k,
            {
                let e = t[k];
                assert(0 <= e.0 <= 1 && 0 <= e.1 <= 1 && 0 <= e.2 <= 1);
                mesh.push(BasicVertexI { pos: (e.0 + xi, e.1 + yi, e.2 + zi), color });
                k = k + 1;
                assert(mesh@ =~= wireframe_at(c).take(k as int));
            }
            assert(wireframe_at(c).take(WIREFRAME_VERTICES as int) =~= wireframe_at(c));
            Some(mesh)
        },
    }
}

} // verus!
