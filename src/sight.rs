use vstd::prelude::*;

use crate::grid::VoxelGrid;
use crate::physics::{cell_of, cell_of_exec, voxel_at, FixedVec3, DIR_SCALE, POS_SCALE};

verus! {

/// Integer coordinates of a cell; they may lie outside the grid.
#[derive(Clone, Copy, PartialEq, Eq, Structural, Debug)]
pub struct VoxelCoord {
    pub x: i64,
    pub y: i64,
    pub z: i64,
}

/// The block in the player's line of sight: the solid cell that was struck
/// (`pos`, removed by a dig) and the cell in front of the struck face
/// (`new_pos`, where a placed voxel goes).
#[derive(Clone, Copy, PartialEq, Eq, Structural, Debug)]
pub struct SightBlock {
    pub pos: VoxelCoord,
    pub new_pos: VoxelCoord,
}

/// Number of steps a sight ray takes before it gives up.
pub const BLOCK_SEL_DIST: usize = 200;

/// Position units that one step of the ray advances per thousandth of its
/// direction: a step is a tenth of the direction's length.
pub const RAYCAST_STEP: i64 = 1_000_000;

/// Largest magnitude of an eye coordinate; it keeps every ray point in range.
pub const EYE_LIMIT: i64 = 1_000_000_000_000_000_000;

/// A unit direction in thousandths: every component within `[-DIR_SCALE, DIR_SCALE]`.
pub open spec fn dir_ok(d: FixedVec3) -> bool {
    &&& -DIR_SCALE <= d.x <= DIR_SCALE
    &&& -DIR_SCALE <= d.y <= DIR_SCALE
    &&& -DIR_SCALE <= d.z <= DIR_SCALE
}

/// An eye position far enough from the limits of `i64` for a whole ray.
pub open spec fn eye_ok(p: FixedVec3) -> bool {
    &&& -EYE_LIMIT <= p.x <= EYE_LIMIT
    &&& -EYE_LIMIT <= p.y <= EYE_LIMIT
    &&& -EYE_LIMIT <= p.z <= EYE_LIMIT
}

/// One coordinate of the ray after `k` steps.
pub open spec fn ray_axis(e: i64, d: i64, k: int) -> int {
    e + k * (d * RAYCAST_STEP)
}

/// The point of the ray from `eye` along `dir` after `k` steps.
pub open spec fn ray_point(eye: FixedVec3, dir: FixedVec3, k: int) -> FixedVec3 {
    FixedVec3 {
        x: ray_axis(eye.x, dir.x, k) as i64,
        y: ray_axis(eye.y, dir.y, k) as i64,
        z: ray_axis(eye.z, dir.z, k) as i64,
    }
}

/// The cell that holds a point.
pub open spec fn cell_coord(p: FixedVec3) -> VoxelCoord {
    VoxelCoord { x: cell_of(p.x as int) as i64, y: cell_of(p.y as int) as i64, z: cell_of(p.z as int) as i64 }
}

/// A lookup at cell `c` yields something other than air.
pub open spec fn solid_cell(g: VoxelGrid, c: VoxelCoord) -> bool {
    !(g.voxel_at(c.x as int, c.y as int, c.z as int) is Air)
}

/// The neighbor of the struck cell `c` on the side of the face through which
/// the ray came from cell `p`; one cell below when the two are the same cell.
pub open spec fn face_neighbor(c: VoxelCoord, p: VoxelCoord) -> VoxelCoord {
    if c.x > p.x {
        VoxelCoord { x: (c.x - 1) as i64, ..c }
    } else if c.x < p.x {
        VoxelCoord { x: (c.x + 1) as i64, ..c }
    } else if c.y > p.y {
        VoxelCoord { y: (c.y - 1) as i64, ..c }
    } else if c.y < p.y {
        VoxelCoord { y: (c.y + 1) as i64, ..c }
    } else if c.z > p.z {
        VoxelCoord { z: (c.z - 1) as i64, ..c }
    } else if c.z < p.z {
        VoxelCoord { z: (c.z + 1) as i64, ..c }
    } else {
        VoxelCoord { y: (c.y - 1) as i64, ..c }
    }
}

/// The sight block found by the ray when steps `k + 1` to `n` remain to be
/// taken: the first step whose cell is solid decides it.
pub open spec fn sight_from(g: VoxelGrid, eye: FixedVec3, dir: FixedVec3, k: int, n: int) -> Option<SightBlock>
    decreases n - k,
{
    if k >= n {
        None
    } else {
        let c = cell_coord(ray_point(eye, dir, k + 1));
        if solid_cell(g, c) {
            Some(SightBlock { pos: c, new_pos: face_neighbor(c, cell_coord(ray_point(eye, dir, k))) })
        } else {
            sight_from(g, eye, dir, k + 1, n)
        }
    }
}

/// The block seen from `eye` along `dir`, within `BLOCK_SEL_DIST` steps.
pub open spec fn sight_spec(g: VoxelGrid, eye: FixedVec3, dir: FixedVec3) -> Option<SightBlock> {
    sight_from(g, eye, dir, 0, BLOCK_SEL_DIST as int)
}

proof fn lemma_ray_bounds(e: i64, d: i64, k: int)
    requires
        -EYE_LIMIT <= e <= EYE_LIMIT,
        -DIR_SCALE <= d <= DIR_SCALE,
        0 <= k <= BLOCK_SEL_DIST,
    ensures
        -EYE_LIMIT - 1_000_000_000_000 <= ray_axis(e, d, k) <= EYE_LIMIT + 1_000_000_000_000,
        ray_axis(e, d, k + 1) == ray_axis(e, d, k) + d * RAYCAST_STEP,
{
    assert(-1_000_000_000_000 <= k * (d * RAYCAST_STEP) <= 1_000_000_000_000) by (nonlinear_arith)
        requires -DIR_SCALE <= d <= DIR_SCALE, 0 <= k <= BLOCK_SEL_DIST;
    assert((k + 1) * (d * RAYCAST_STEP) == k * (d * RAYCAST_STEP) + d * RAYCAST_STEP) by (nonlinear_arith);
}

fn cell_coord_exec(p: FixedVec3) -> (r: VoxelCoord)
    ensures
        r == cell_coord(p),
{
    VoxelCoord { x: cell_of_exec(p.x), y: cell_of_exec(p.y), z: cell_of_exec(p.z) }
}

proof fn lemma_cell_range(p: i64)
    ensures
        -1_000_000_000 <= cell_of(p as int) <= 1_000_000_000,
{
}

fn face_neighbor_exec(c: VoxelCoord, p: VoxelCoord) -> (r: VoxelCoord)
    requires
        -1_000_000_000 <= c.x <= 1_000_000_000,
        -1_000_000_000 <= c.y <= 1_000_000_000,
        -1_000_000_000 <= c.z <= 1_000_000_000,
    ensures
        r == face_neighbor(c, p),
{
    if c.x > p.x {
        VoxelCoord { x: c.x - 1, ..c }
    } else if c.x < p.x {
        VoxelCoord { x: c.x + 1, ..c }
    } else if c.y > p.y {
        VoxelCoord { y: c.y - 1, ..c }
    } else if c.y < p.y {
        VoxelCoord { y: c.y + 1, ..c }
    } else if c.z > p.z {
        VoxelCoord { z: c.z - 1, ..c }
    } else if c.z < p.z {
        VoxelCoord { z: c.z + 1, ..c }
    } else {
        VoxelCoord { y: c.y - 1, ..c }
    }
}

/// Marches a ray from `eye` along `dir` in steps of a tenth of `dir` and
/// returns the first solid cell it enters, with the cell in front of the face
/// it entered through; `None` when nothing solid lies within reach.
pub fn get_sight_block(g: &VoxelGrid, eye: FixedVec3, dir: FixedVec3) -> (r: Option<SightBlock>)
    requires
        g.wf(),
        eye_ok(eye),
        dir_ok(dir),
    ensures
        r == sight_spec(*g, eye, dir),
{
    let mut pos = eye;
    let mut k: usize = 0;
    proof {
        lemma_ray_bounds(eye.x, dir.x, 0);
        lemma_ray_bounds(eye.y, dir.y, 0);
        lemma_ray_bounds(eye.z, dir.z, 0);
        assert(pos == ray_point(eye, dir, 0));
    }
    while k < BLOCK_SEL_DIST
        invariant
            g.wf(),
            eye_ok(eye),
            dir_ok(dir),
            k <= BLOCK_SEL_DIST,
            pos == ray_point(eye, dir, k as int),
            sight_spec(*g, eye, dir) == sight_from(*g, eye, dir, k as int, BLOCK_SEL_DIST as int),
        decreases BLOCK_SEL_DIST - k,
    {
        proof {
            lemma_ray_bounds(eye.x, dir.x, k as int);
            lemma_ray_bounds(eye.y, dir.y, k as int);
            lemma_ray_bounds(eye.z, dir.z, k as int);
            lemma_ray_bounds(eye.x, dir.x, k + 1);
            lemma_ray_bounds(eye.y, dir.y, k + 1);
            lemma_ray_bounds(eye.z, dir.z, k + 1);
        }
        let prev = pos;
        pos = FixedVec3 {
            x: pos.x + dir.x * RAYCAST_STEP,
            y: pos.y + dir.y * RAYCAST_STEP,
            z: pos.z + dir.z * RAYCAST_STEP,
        };
        assert(pos == ray_point(eye, dir, k + 1));
        if voxel_at(g, pos) {
            let c = cell_coord_exec(pos);
            let p = cell_coord_exec(prev);
            proof {
                lemma_cell_range(pos.x);
                lemma_cell_range(pos.y);
                lemma_cell_range(pos.z);
            }
            let new_pos = face_neighbor_exec(c, p);
            return Some(SightBlock { pos: c, new_pos });
        }
        k = k + 1;
    }
    None
}

/// Coordinate `a` of a cell: x for 0, y for 1, z for 2.
pub open spec fn coord_on(c: VoxelCoord, a: int) -> int {
    if a == 0 {
        c.x as int
    } else if a == 1 {
        c.y as int
    } else {
        c.z as int
    }
}

/// Coordinate `a` of a point: x for 0, y for 1, z for 2.
pub open spec fn pos_on(p: FixedVec3, a: int) -> int {
    if a == 0 {
        p.x as int
    } else if a == 1 {
        p.y as int
    } else {
        p.z as int
    }
}

/// The cell `c` with its coordinate `a` replaced by `w`.
pub open spec fn with_coord(c: VoxelCoord, a: int, w: int) -> VoxelCoord {
    if a == 0 {
        VoxelCoord { x: w as i64, ..c }
    } else if a == 1 {
        VoxelCoord { y: w as i64, ..c }
    } else {
        VoxelCoord { z: w as i64, ..c }
    }
}

/// The unit direction along axis `a`, positive for `s == 1`, negative for `s == -1`.
pub open spec fn axis_dir(a: int, s: int) -> FixedVec3 {
    let d = (s * DIR_SCALE) as i64;
    if a == 0 {
        FixedVec3 { x: d, y: 0, z: 0 }
    } else if a == 1 {
        FixedVec3 { x: 0, y: d, z: 0 }
    } else {
        FixedVec3 { x: 0, y: 0, z: d }
    }
}

/// Along the ray's axis, cell coordinate `w` lies between the eye's cell
/// (included) and the target coordinate `t` (excluded).
pub open spec fn before_target(e: int, s: int, t: int, w: int) -> bool {
    if s == 1 {
        cell_of(e) <= w < t
    } else {
        t < w <= cell_of(e)
    }
}

/// An eye at nonnegative coordinates looks along axis `a` in direction `s` at
/// the solid in-grid cell `c` within the ray's reach; the eye's cell lies on
/// the same line, and every cell of that line from the eye's cell up to `c`
/// holds air.
pub open spec fn clear_view(g: VoxelGrid, eye: FixedVec3, a: int, s: int, c: VoxelCoord) -> bool {
    &&& g.wf()
    &&& 0 <= a <= 2
    &&& s == 1 || s == -1
    &&& 0 <= eye.x && 0 <= eye.y && 0 <= eye.z
    &&& g.in_bounds(c.x as int, c.y as int, c.z as int)
    &&& forall|b: int| 0 <= b <= 2 && b != a ==> coord_on(c, b) == cell_of(#[trigger] pos_on(eye, b))
    &&& if s == 1 {
        &&& cell_of(pos_on(eye, a)) < coord_on(c, a)
        &&& coord_on(c, a) * POS_SCALE - pos_on(eye, a) <= BLOCK_SEL_DIST * (DIR_SCALE * RAYCAST_STEP)
    } else {
        &&& coord_on(c, a) < cell_of(pos_on(eye, a))
        &&& pos_on(eye, a) - (coord_on(c, a) + 1) * POS_SCALE < BLOCK_SEL_DIST * (DIR_SCALE * RAYCAST_STEP)
    }
    &&& !(g.cell(c.x as int, c.y as int, c.z as int) is Air)
    &&& forall|w: int|
        before_target(pos_on(eye, a), s, coord_on(c, a), w) ==> !#[trigger] solid_cell(g, with_coord(c, a, w))
}

/// Where the ray along axis `a` in direction `s` reaches after `k` steps,
/// along that axis.
pub open spec fn main_axis(eye: FixedVec3, a: int, s: int, k: int) -> int {
    pos_on(eye, a) + s * k * 1_000_000_000
}

proof fn lemma_ray_on_axis(eye: FixedVec3, a: int, s: int, k: int)
    requires
        0 <= a <= 2,
        s == 1 || s == -1,
    ensures
        forall|b: int| 0 <= b <= 2 ==> #[trigger] pos_on(ray_point(eye, axis_dir(a, s), k), b) == (
            if b == a { main_axis(eye, a, s, k) } else { pos_on(eye, b) }) as i64,
{
    let d = axis_dir(a, s);
    assert(ray_axis(eye.x, 0, k) == eye.x) by (nonlinear_arith);
    assert(ray_axis(eye.y, 0, k) == eye.y) by (nonlinear_arith);
    assert(ray_axis(eye.z, 0, k) == eye.z) by (nonlinear_arith);
    assert(ray_axis(pos_on(eye, a) as i64, (s * DIR_SCALE) as i64, k) == main_axis(eye, a, s, k))
        by (nonlinear_arith)
        requires s == 1 || s == -1;
}

proof fn lemma_cells_on_line(eye: FixedVec3, a: int, s: int, c: VoxelCoord, k: int)
    requires
        0 <= a <= 2,
        s == 1 || s == -1,
        0 <= eye.x && 0 <= eye.y && 0 <= eye.z,
        forall|b: int| 0 <= b <= 2 && b != a ==> coord_on(c, b) == cell_of(#[trigger] pos_on(eye, b)),
        -2_000_000_000_000_000_000 <= main_axis(eye, a, s, k) <= 2_000_000_000_000_000_000,
    ensures
        cell_coord(ray_point(eye, axis_dir(a, s), k)) == with_coord(c, a, cell_of(main_axis(eye, a, s, k))),
{
    lemma_ray_on_axis(eye, a, s, k);
    let p = ray_point(eye, axis_dir(a, s), k);
    assert(pos_on(p, 0) == p.x && pos_on(p, 1) == p.y && pos_on(p, 2) == p.z);
    if a == 0 {
        assert(pos_on(eye, 1) == eye.y && pos_on(eye, 2) == eye.z);
    } else if a == 1 {
        assert(pos_on(eye, 0) == eye.x && pos_on(eye, 2) == eye.z);
    } else {
        assert(pos_on(eye, 0) == eye.x && pos_on(eye, 1) == eye.y);
    }
}

proof fn lemma_march(g: VoxelGrid, eye: FixedVec3, a: int, s: int, c: VoxelCoord, k: int, kstar: int)
    requires
        clear_view(g, eye, a, s, c),
        0 <= k < kstar <= BLOCK_SEL_DIST,
        forall|j: int| 0 <= j < kstar ==> before_target(
            pos_on(eye, a),
            s,
            coord_on(c, a),
            #[trigger] cell_of(main_axis(eye, a, s, j)),
        ),
        cell_of(main_axis(eye, a, s, kstar)) == coord_on(c, a),
        forall|j: int| 0 <= j <= kstar ==> -2_000_000_000_000_000_000 <= #[trigger] main_axis(eye, a, s, j)
            <= 2_000_000_000_000_000_000,
    ensures
        sight_from(g, eye, axis_dir(a, s), k, BLOCK_SEL_DIST as int) == Some(
            SightBlock { pos: c, new_pos: with_coord(c, a, coord_on(c, a) - s) },
        ),
    decreases kstar - k,
{
    let dir = axis_dir(a, s);
    assert(-2_000_000_000_000_000_000 <= main_axis(eye, a, s, k) <= 2_000_000_000_000_000_000);
    assert(-2_000_000_000_000_000_000 <= main_axis(eye, a, s, k + 1) <= 2_000_000_000_000_000_000);
    lemma_cells_on_line(eye, a, s, c, k);
    lemma_cells_on_line(eye, a, s, c, k + 1);
    let w0 = cell_of(main_axis(eye, a, s, k));
    let w1 = cell_of(main_axis(eye, a, s, k + 1));
    assert(before_target(pos_on(eye, a), s, coord_on(c, a), w0));
    if k + 1 == kstar {
        assert(with_coord(c, a, w1) == c);
        let prev = with_coord(c, a, w0);
        assert(face_neighbor(c, prev) == with_coord(c, a, coord_on(c, a) - s));
    } else {
        assert(before_target(pos_on(eye, a), s, coord_on(c, a), w1));
        assert(!solid_cell(g, with_coord(c, a, w1)));
        lemma_march(g, eye, a, s, c, k + 1, kstar);
    }
}

/// Along the ray's axis, the points at steps `0` to `kstar - 1` lie in cells
/// before the target `t`, and step `kstar`, within reach, lies in `t`.
proof fn lemma_first_entry(e: int, s: int, t: int) -> (kstar: int)
    requires
        0 <= e <= EYE_LIMIT,
        s == 1 ==> cell_of(e) < t && t * POS_SCALE - e <= 200_000_000_000,
        s == -1 ==> 0 <= t < cell_of(e) && e - (t + 1) * POS_SCALE < 200_000_000_000,
        s == 1 || s == -1,
    ensures
        1 <= kstar <= BLOCK_SEL_DIST,
        forall|j: int| 0 <= j < kstar ==> before_target(e, s, t, #[trigger] cell_of(e + s * j * 1_000_000_000)),
        cell_of(e + s * kstar * 1_000_000_000) == t,
        forall|j: int| 0 <= j <= kstar ==> 0 <= #[trigger] (e + s * j * 1_000_000_000) <= 2 * EYE_LIMIT,
{
    assert(cell_of(e) == e / 10_000_000_000);
    if s == 1 {
        let d = t * POS_SCALE - e;
        assert(d > 0) by (nonlinear_arith)
            requires d == t * 10_000_000_000 - e, e >= 0, e / 10_000_000_000 < t;
        let kstar = (d + 999_999_999) / 1_000_000_000;
        assert(1 <= kstar <= 200 && kstar * 1_000_000_000 >= d && (kstar - 1) * 1_000_000_000 < d)
            by (nonlinear_arith)
            requires 0 < d <= 200_000_000_000, kstar == (d + 999_999_999) / 1_000_000_000;
        assert forall|j: int| 0 <= j < kstar implies before_target(e, s, t, #[trigger] cell_of(e + s * j * 1_000_000_000)) by {
            let z = e + s * j * 1_000_000_000;
            assert(e <= z < t * 10_000_000_000) by (nonlinear_arith)
                requires z == e + s * j * 1_000_000_000, s == 1, 0 <= j < kstar,
                    (kstar - 1) * 1_000_000_000 < d, d == t * 10_000_000_000 - e;
            assert(e / 10_000_000_000 <= z / 10_000_000_000 < t) by (nonlinear_arith)
                requires 0 <= e <= z < t * 10_000_000_000;
        }
        let z = e + s * kstar * 1_000_000_000;
        assert(t * 10_000_000_000 <= z < t * 10_000_000_000 + 1_000_000_000) by (nonlinear_arith)
            requires z == e + s * kstar * 1_000_000_000, s == 1, kstar * 1_000_000_000 >= d,
                (kstar - 1) * 1_000_000_000 < d, d == t * 10_000_000_000 - e;
        assert(z / 10_000_000_000 == t) by (nonlinear_arith)
            requires t * 10_000_000_000 <= z < t * 10_000_000_000 + 1_000_000_000, t >= 1;
        assert forall|j: int| 0 <= j <= kstar implies 0 <= #[trigger] (e + s * j * 1_000_000_000) <= 2 * EYE_LIMIT by {
            assert(0 <= e + s * j * 1_000_000_000 <= e + 200_000_000_000) by (nonlinear_arith)
                requires s == 1, 0 <= j <= kstar <= 200, e >= 0;
        }
        kstar
    } else {
        let d = e - (t + 1) * POS_SCALE;
        assert(d >= 0) by (nonlinear_arith)
            requires d == e - (t + 1) * 10_000_000_000, t < e / 10_000_000_000, e >= 0;
        let kstar = d / 1_000_000_000 + 1;
        assert(1 <= kstar <= 200 && kstar * 1_000_000_000 > d && (kstar - 1) * 1_000_000_000 <= d)
            by (nonlinear_arith)
            requires 0 <= d < 200_000_000_000, kstar == d / 1_000_000_000 + 1;
        assert forall|j: int| 0 <= j < kstar implies before_target(e, s, t, #[trigger] cell_of(e + s * j * 1_000_000_000)) by {
            let z = e + s * j * 1_000_000_000;
            assert((t + 1) * 10_000_000_000 <= z <= e) by (nonlinear_arith)
                requires z == e + s * j * 1_000_000_000, s == -1, 0 <= j < kstar,
                    (kstar - 1) * 1_000_000_000 <= d, d == e - (t + 1) * 10_000_000_000;
            assert(t < z / 10_000_000_000 <= e / 10_000_000_000) by (nonlinear_arith)
                requires (t + 1) * 10_000_000_000 <= z <= e, t >= 0;
        }
        let z = e + s * kstar * 1_000_000_000;
        assert(e + s * kstar * 1_000_000_000 == e - kstar * 1_000_000_000);
        assert((t + 1) * 10_000_000_000 - 1_000_000_000 <= z < (t + 1) * 10_000_000_000)
            by (nonlinear_arith)
            requires z == e + s * kstar * 1_000_000_000, s == -1, kstar * 1_000_000_000 > d,
                (kstar - 1) * 1_000_000_000 <= d, d == e - (t + 1) * 10_000_000_000;
        assert(z / 10_000_000_000 == t) by (nonlinear_arith)
            requires (t + 1) * 10_000_000_000 - 1_000_000_000 <= z < (t + 1) * 10_000_000_000, t >= 0;
        assert forall|j: int| 0 <= j <= kstar implies 0 <= #[trigger] (e + s * j * 1_000_000_000) <= 2 * EYE_LIMIT by {
            assert(z <= e + s * j * 1_000_000_000 <= e) by (nonlinear_arith)
                requires s == -1, 0 <= j <= kstar, z == e + s * kstar * 1_000_000_000;
            assert(0 <= z);
        }
        kstar
    }
}

/// Looking straight along an axis at a solid cell with nothing but air
/// between it and the eye, the sight block is that cell, and the placement
/// cell is its neighbor on the eye's side.
pub proof fn lemma_sight_straight_ahead(g: VoxelGrid, eye: FixedVec3, a: int, s: int, c: VoxelCoord)
    requires
        clear_view(g, eye, a, s, c),
        eye_ok(eye),
    ensures
        sight_spec(g, eye, axis_dir(a, s)) == Some(
            SightBlock { pos: c, new_pos: with_coord(c, a, coord_on(c, a) - s) },
        ),
{
    let e = pos_on(eye, a);
    let kstar = lemma_first_entry(e, s, coord_on(c, a));
    assert forall|j: int| 0 <= j < kstar implies before_target(
        pos_on(eye, a),
        s,
        coord_on(c, a),
        #[trigger] cell_of(main_axis(eye, a, s, j)),
    ) by {
        assert(cell_of(e + s * j * 1_000_000_000) == cell_of(main_axis(eye, a, s, j)));
    }
    assert forall|j: int| 0 <= j <= kstar implies -2_000_000_000_000_000_000 <= #[trigger] main_axis(eye, a, s, j)
        <= 2_000_000_000_000_000_000 by {
        assert(0 <= e + s * j * 1_000_000_000 <= 2 * EYE_LIMIT);
    }
    lemma_march(g, eye, a, s, c, 0, kstar);
}

} // verus!
