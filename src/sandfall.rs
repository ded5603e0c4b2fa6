use vstd::arithmetic::div_mod::lemma_fundamental_div_mod_converse;
use vstd::prelude::*;
use vstd::seq_lib::{to_multiset_contains, to_multiset_update};

use rand_xorshift::XorShiftRng;

use crate::client::GameState;
use crate::grid::{index_of, lemma_index_in_bounds, lemma_index_injective, VoxelGrid};
use crate::rng::gen_range_i64;
use crate::voxel::Voxel;

verus! {

/// Frames between two generations of the automaton.
pub const SANDFALL_PERIOD: u32 = 10;

/// Number of sand voxels in a sequence of cells.
pub open spec fn sand_count(s: Seq<Voxel>) -> nat
    decreases s.len(),
{
    if s.len() == 0 {
        0
    } else {
        sand_count(s.drop_last()) + (if s.last() is Sand { 1nat } else { 0nat })
    }
}

/// One for a sand voxel, zero for anything else.
pub open spec fn sand_of(v: Voxel) -> int {
    if v is Sand { 1 } else { 0 }
}

/// Writing one cell changes the count by what leaves and what arrives.
pub proof fn lemma_sand_count_update(s: Seq<Voxel>, i: int, v: Voxel)
    requires
        0 <= i < s.len(),
    ensures
        sand_count(s.update(i, v)) == sand_count(s) - sand_of(s[i]) + sand_of(v),
    decreases s.len(),
{
    let t = s.update(i, v);
    if i == s.len() - 1 {
        assert(t.drop_last() =~= s.drop_last());
    } else {
        assert(t.drop_last() =~= s.drop_last().update(i, v));
        lemma_sand_count_update(s.drop_last(), i, v);
    }
}

/// Exchanging two cells keeps the number of sand voxels.
pub proof fn lemma_sand_count_swap(s: Seq<Voxel>, i: int, j: int)
    requires
        0 <= i < s.len(),
        0 <= j < s.len(),
    ensures
        sand_count(s.update(i, s[j]).update(j, s[i])) == sand_count(s),
{
    lemma_sand_count_update(s, i, s[j]);
    lemma_sand_count_update(s.update(i, s[j]), j, s[i]);
}

/// No cell above the floor holds anything but air.
pub open spec fn floor_only(g: VoxelGrid) -> bool {
    forall|x: int, y: int, z: int|
        g.in_bounds(x, y, z) && y >= 1 ==> #[trigger] g.cell(x, y, z) is Air
}

/// Some diagonal-down neighbor of `(x, y, z)` (not the one straight below)
/// holds air inside the grid.
pub open spec fn can_slide_spec(g: VoxelGrid, x: int, y: int, z: int) -> bool {
    exists|dx: int, dz: int|
        -1 <= dx <= 1 && -1 <= dz <= 1 && !(dx == 0 && dz == 0)
            && #[trigger] g.voxel_at(x + dx, y - 1, z + dz) is Air
}

impl VoxelGrid {
    /// Exchanges the cells at storage positions `i` and `j` and marks the grid dirty.
    fn swap_cells(&mut self, i: usize, j: usize)
        requires
            old(self).wf(),
            i < old(self).cells@.len(),
            j < old(self).cells@.len(),
        ensures
            final(self).wf(),
            final(self).same_shape(old(self)),
            final(self).cells@ == old(self).cells@.update(i as int, old(self).cells@[j as int]).update(
                j as int,
                old(self).cells@[i as int],
            ),
            final(self).dirty,
            sand_count(final(self).cells@) == sand_count(old(self).cells@),
    {
        proof {
            lemma_sand_count_swap(self.cells@, i as int, j as int);
        }
        let a = self.cells[i];
        let b = self.cells[j];
        self.cells.set(i, b);
        self.cells.set(j, a);
        self.dirty = true;
    }
}

/// Is the cell at `(x, y, z)` air (inside the grid)?
fn air_at(g: &VoxelGrid, x: i64, y: i64, z: i64) -> (r: bool)
    requires
        g.wf(),
    ensures
        r == g.voxel_at(x as int, y as int, z as int) is Air,
{
    g.get(x, y, z).is_air()
}

/// Can the voxel at `(x, y, z)` slide down diagonally?
pub fn can_slide(g: &VoxelGrid, x: usize, y: usize, z: usize) -> (r: bool)
    requires
        g.wf(),
        g.in_bounds(x as int, y as int, z as int),
        y >= 1,
    ensures
        r == can_slide_spec(*g, x as int, y as int, z as int),
{
    let xi = x as i64;
    let yi = y as i64 - 1;
    let zi = z as i64;
    let r = air_at(g, xi - 1, yi, zi) || air_at(g, xi + 1, yi, zi) || air_at(g, xi, yi, zi - 1)
        || air_at(g, xi, yi, zi + 1) || air_at(g, xi - 1, yi, zi - 1) || air_at(g, xi - 1, yi, zi + 1)
        || air_at(g, xi + 1, yi, zi - 1) || air_at(g, xi + 1, yi, zi + 1);
    proof {
        if r {
            if g.voxel_at(x - 1, y - 1, z as int) is Air {
                assert(g.voxel_at(x + (-1), y - 1, z + 0) is Air);
            } else if g.voxel_at(x + 1, y - 1, z as int) is Air {
                assert(g.voxel_at(x + 1, y - 1, z + 0) is Air);
            } else if g.voxel_at(x as int, y - 1, z - 1) is Air {
                assert(g.voxel_at(x + 0, y - 1, z + (-1)) is Air);
            } else if g.voxel_at(x as int, y - 1, z + 1) is Air {
                assert(g.voxel_at(x + 0, y - 1, z + 1) is Air);
            } else if g.voxel_at(x - 1, y - 1, z - 1) is Air {
                assert(g.voxel_at(x + (-1), y - 1, z + (-1)) is Air);
            } else if g.voxel_at(x - 1, y - 1, z + 1) is Air {
                assert(g.voxel_at(x + (-1), y - 1, z + 1) is Air);
            } else if g.voxel_at(x + 1, y - 1, z - 1) is Air {
                assert(g.voxel_at(x + 1, y - 1, z + (-1)) is Air);
            } else {
                assert(g.voxel_at(x + 1, y - 1, z + 1) is Air);
            }
        }
    }
    r
}

/// `after` is `before` once the voxel at `(x, y, z)` has tried to slide to the
/// cell offset by `(dx, dz)` one level below: it moves there, leaving air, if
/// that cell is air inside the grid; otherwise nothing changes.
pub open spec fn slid(before: VoxelGrid, after: VoxelGrid, x: int, y: int, z: int, dx: int, dz: int) -> bool {
    &&& after.same_shape(&before)
    &&& if before.voxel_at(x + dx, y - 1, z + dz) is Air {
        &&& after.cells@ == before.cells@.update(before.index(x, y, z), Voxel::Air).update(
            before.index(x + dx, y - 1, z + dz),
            before.cell(x, y, z),
        )
        &&& after.dirty
    } else {
        &&& after.cells@ == before.cells@
        &&& after.dirty == before.dirty
    }
}

/// Moves the voxel at `(x, y, z)` to the cell offset by `(dx, dz)` one level
/// below, if that cell is air inside the grid.
pub fn slide(g: &mut VoxelGrid, x: usize, y: usize, z: usize, dx: i64, dz: i64)
    requires
        old(g).wf(),
        old(g).in_bounds(x as int, y as int, z as int),
        y >= 1,
        -1 <= dx <= 1,
        -1 <= dz <= 1,
    ensures
        final(g).wf(),
        slid(*old(g), *final(g), x as int, y as int, z as int, dx as int, dz as int),
        sand_count(final(g).cells@) == sand_count(old(g).cells@),
{
    let tx = x as i64 + dx;
    let ty = y as i64 - 1;
    let tz = z as i64 + dz;
    if air_at(g, tx, ty, tz) {
        let i = g.index_exec(x, y, z);
        let t = g.index_exec(tx as usize, ty as usize, tz as usize);
        g.swap_cells(i, t);
    }
}

/// What one cell of a generation does: a voxel with air below falls straight
/// down; one resting on something slides to a random diagonal neighbor below,
/// when any of those is air.
pub open spec fn fell(before: VoxelGrid, after: VoxelGrid, x: int, y: int, z: int) -> bool {
    let hi = before.cell(x, y, z);
    let lo = before.cell(x, y - 1, z);
    if hi is Air {
        after.cells@ == before.cells@ && after.dirty == before.dirty && after.same_shape(&before)
    } else if lo is Air {
        &&& after.same_shape(&before)
        &&& after.cells@ == before.cells@.update(before.index(x, y, z), lo).update(
            before.index(x, y - 1, z),
            hi,
        )
        &&& after.dirty
    } else if can_slide_spec(before, x, y, z) {
        exists|dx: int, dz: int|
            -1 <= dx <= 1 && -1 <= dz <= 1 && #[trigger] slid(before, after, x, y, z, dx, dz)
    } else {
        after.cells@ == before.cells@ && after.dirty == before.dirty && after.same_shape(&before)
    }
}

/// Applies the sandfall rule to the cell `(x, y, z)`, drawing the direction of
/// a diagonal slide from `rng`.
pub fn fall_cell(g: &mut VoxelGrid, rng: &mut XorShiftRng, x: usize, y: usize, z: usize)
    requires
        old(g).wf(),
        old(g).in_bounds(x as int, y as int, z as int),
        y >= 1,
    ensures
        final(g).wf(),
        fell(*old(g), *final(g), x as int, y as int, z as int),
        sand_count(final(g).cells@) == sand_count(old(g).cells@),
{
    let i = g.index_exec(x, y, z);
    let b = g.index_exec(x, y - 1, z);
    let hi = g.cells[i];
    let lo = g.cells[b];
    if !hi.is_air() {
        if lo.is_air() {
            g.swap_cells(i, b);
        } else if can_slide(g, x, y, z) {
            let dx = gen_range_i64(rng, -1, 2);
            let dz = gen_range_i64(rng, -1, 2);
            slide(g, x, y, z, dx, dz);
        }
    }
}

/// Cells `(x, y, 0)` to `(x, y, n - 1)`, in order.
pub open spec fn row_order(x: int, y: int, n: int) -> Seq<(int, int, int)>
    decreases n,
{
    if n <= 0 {
        Seq::empty()
    } else {
        row_order(x, y, n - 1).push((x, y, n - 1))
    }
}

/// Rows `1` to `n - 1` of slab `x`, each of `zm` cells, in order.
pub open spec fn slab_order(x: int, zm: int, n: int) -> Seq<(int, int, int)>
    decreases n,
{
    if n <= 1 {
        Seq::empty()
    } else {
        slab_order(x, zm, n - 1) + row_order(x, n - 1, zm)
    }
}

/// Slabs `0` to `n - 1`, in order.
pub open spec fn order_upto(ym: int, zm: int, n: int) -> Seq<(int, int, int)>
    decreases n,
{
    if n <= 0 {
        Seq::empty()
    } else {
        order_upto(ym, zm, n - 1) + slab_order(n - 1, zm, ym)
    }
}

/// The cells a generation visits: every cell above the floor, x outermost,
/// then y upward, then z.
pub open spec fn tick_order(g: VoxelGrid) -> Seq<(int, int, int)> {
    order_upto(g.y_max as int, g.z_max as int, g.x_max as int)
}

/// `runs` steps through `order`: each grid is the one before it after the
/// sandfall rule applied to the next cell of `order`.
pub open spec fn fell_chain(runs: Seq<VoxelGrid>, order: Seq<(int, int, int)>) -> bool {
    &&& runs.len() == order.len() + 1
    &&& forall|i: int|
        0 <= i < order.len() ==> #[trigger] fell(runs[i], runs[i + 1], order[i].0, order[i].1, order[i].2)
}

/// `after` comes from `before` by the sandfall rule applied to each cell of
/// `tick_order(before)` in turn.
pub open spec fn ticked(before: VoxelGrid, after: VoxelGrid) -> bool {
    exists|runs: Seq<VoxelGrid>|
        #[trigger] fell_chain(runs, tick_order(before)) && runs[0] == before && runs.last() == after
}

/// Height of storage position `i` in a grid with extents `ym`, `zm`.
pub open spec fn height_of(i: int, ym: int, zm: int) -> int {
    (i / zm) % ym
}

/// What a voxel at storage position `i` adds to the potential: its height,
/// or nothing for air.
pub open spec fn weight(v: Voxel, i: int, ym: int, zm: int) -> int {
    if v is Air { 0 } else { height_of(i, ym, zm) }
}

/// Sum of the heights of the non-air cells among `s`.
pub open spec fn height_sum(s: Seq<Voxel>, ym: int, zm: int) -> int
    decreases s.len(),
{
    if s.len() == 0 {
        0
    } else {
        height_sum(s.drop_last(), ym, zm) + weight(s.last(), s.len() - 1, ym, zm)
    }
}

/// Sum of the heights of the non-air voxels of a grid; every move lowers it.
pub open spec fn potential(g: VoxelGrid) -> int {
    height_sum(g.cells@, g.y_max as int, g.z_max as int)
}

/// Every non-air voxel of the floor layer of `before` is still there in `after`.
pub open spec fn floor_kept(before: VoxelGrid, after: VoxelGrid) -> bool {
    forall|x: int, z: int|
        before.in_bounds(x, 0, z) && !(before.cell(x, 0, z) is Air) ==> #[trigger] after.cell(x, 0, z)
            == before.cell(x, 0, z)
}

/// `after` is `before` after voxels only moved down: the same voxels, shades
/// included, a potential that never grows and drops whenever a cell changed,
/// a dirty flag raised exactly when a cell changed, and the floor layer's
/// voxels left in place.
pub open spec fn settles(before: VoxelGrid, after: VoxelGrid) -> bool {
    &&& after.wf()
    &&& after.same_shape(&before)
    &&& after.cells@.to_multiset() == before.cells@.to_multiset()
    &&& sand_count(after.cells@) == sand_count(before.cells@)
    &&& potential(after) <= potential(before)
    &&& after.cells@ != before.cells@ ==> potential(after) < potential(before)
    &&& after.dirty == (before.dirty || after.cells@ != before.cells@)
    &&& floor_kept(before, after)
}

proof fn lemma_height_sum_update(s: Seq<Voxel>, i: int, v: Voxel, ym: int, zm: int)
    requires
        0 <= i < s.len(),
    ensures
        height_sum(s.update(i, v), ym, zm) == height_sum(s, ym, zm) - weight(s[i], i, ym, zm) + weight(v, i, ym, zm),
    decreases s.len(),
{
    let t = s.update(i, v);
    if i == s.len() - 1 {
        assert(t.drop_last() =~= s.drop_last());
    } else {
        assert(t.drop_last() =~= s.drop_last().update(i, v));
        lemma_height_sum_update(s.drop_last(), i, v, ym, zm);
    }
}

proof fn lemma_height_of_index(x: int, y: int, z: int, ym: int, zm: int)
    requires
        0 <= x,
        0 <= y < ym,
        0 <= z < zm,
    ensures
        height_of(index_of(x, y, z, ym, zm), ym, zm) == y,
{
    lemma_fundamental_div_mod_converse(index_of(x, y, z, ym, zm), zm, x * ym + y, z);
    lemma_fundamental_div_mod_converse(x * ym + y, ym, x, y);
}

proof fn lemma_swap_multiset(s: Seq<Voxel>, i: int, j: int)
    requires
        0 <= i < s.len(),
        0 <= j < s.len(),
        i != j,
    ensures
        s.update(i, s[j]).update(j, s[i]).to_multiset() == s.to_multiset(),
{
    broadcast use vstd::multiset::group_multiset_axioms;
    let s1 = s.update(i, s[j]);
    to_multiset_update(s, i, s[j]);
    to_multiset_update(s1, j, s[i]);
    assert(s1[j] == s[j]);
    assert(s.to_multiset().count(s[i]) > 0) by {
        to_multiset_contains(s, s[i]);
    }
    assert(s.to_multiset().insert(s[j]).remove(s[i]).insert(s[i]).remove(s[j]) =~= s.to_multiset());
}

/// A voxel moving from cell `(x, y, z)` down into the air cell `(tx, y - 1, tz)`.
proof fn lemma_move_down(before: VoxelGrid, after: VoxelGrid, x: int, y: int, z: int, tx: int, tz: int)
    requires
        before.wf(),
        after.wf(),
        after.same_shape(&before),
        before.in_bounds(x, y, z),
        y >= 1,
        before.in_bounds(tx, y - 1, tz),
        before.cell(tx, y - 1, tz) is Air,
        !(before.cell(x, y, z) is Air),
        after.cells@ == before.cells@.update(before.index(x, y, z), Voxel::Air).update(
            before.index(tx, y - 1, tz),
            before.cell(x, y, z),
        ),
        after.dirty,
    ensures
        settles(before, after),
{
    let s = before.cells@;
    let ym = before.y_max as int;
    let zm = before.z_max as int;
    let i = before.index(x, y, z);
    let t = before.index(tx, y - 1, tz);
    lemma_index_in_bounds(x, y, z, before.x_max as int, ym, zm);
    lemma_index_in_bounds(tx, y - 1, tz, before.x_max as int, ym, zm);
    if i == t {
        lemma_index_injective(x, y, z, tx, y - 1, tz, before.x_max as int, ym, zm);
    }
    assert(s[t] == Voxel::Air);
    assert(after.cells@ == s.update(i, s[t]).update(t, s[i]));
    lemma_swap_multiset(s, i, t);
    lemma_sand_count_swap(s, i, t);
    lemma_height_of_index(x, y, z, ym, zm);
    lemma_height_of_index(tx, y - 1, tz, ym, zm);
    lemma_height_sum_update(s, i, Voxel::Air, ym, zm);
    lemma_height_sum_update(s.update(i, Voxel::Air), t, s[i], ym, zm);
    assert(potential(after) == potential(before) - 1);
    assert forall|a: int, c: int|
        before.in_bounds(a, 0, c) && !(before.cell(a, 0, c) is Air) implies #[trigger] after.cell(a, 0, c)
            == before.cell(a, 0, c) by {
        let k = before.index(a, 0, c);
        lemma_index_in_bounds(a, 0, c, before.x_max as int, ym, zm);
        if k == i {
            lemma_index_injective(a, 0, c, x, y, z, before.x_max as int, ym, zm);
        }
        assert(k != t);
    }
}

proof fn lemma_settles_refl(g: VoxelGrid)
    requires
        g.wf(),
    ensures
        settles(g, g),
{
}

proof fn lemma_settles_trans(a: VoxelGrid, b: VoxelGrid, c: VoxelGrid)
    requires
        settles(a, b),
        settles(b, c),
    ensures
        settles(a, c),
{
    assert forall|x: int, z: int|
        a.in_bounds(x, 0, z) && !(a.cell(x, 0, z) is Air) implies #[trigger] c.cell(x, 0, z) == a.cell(x, 0, z) by {
        assert(b.cell(x, 0, z) == a.cell(x, 0, z));
        assert(b.in_bounds(x, 0, z));
    }
}

/// One cell's step of the sandfall rule only moves voxels down.
proof fn lemma_fell_settles(before: VoxelGrid, after: VoxelGrid, x: int, y: int, z: int)
    requires
        before.wf(),
        after.wf(),
        before.in_bounds(x, y, z),
        y >= 1,
        fell(before, after, x, y, z),
    ensures
        settles(before, after),
{
    let hi = before.cell(x, y, z);
    let lo = before.cell(x, y - 1, z);
    if hi is Air {
    } else if lo is Air {
        assert(lo == Voxel::Air);
        lemma_move_down(before, after, x, y, z, x, z);
    } else if can_slide_spec(before, x, y, z) {
        let (dx, dz) = choose|dx: int, dz: int|
            -1 <= dx <= 1 && -1 <= dz <= 1 && #[trigger] slid(before, after, x, y, z, dx, dz);
        if before.voxel_at(x + dx, y - 1, z + dz) is Air {
            lemma_move_down(before, after, x, y, z, x + dx, z + dz);
        }
    }
}

/// What holds of a generation, whichever directions the generator draws: the
/// grid results from the sandfall rule applied to each cell above the floor in
/// traversal order, voxels only moved down, and a world with nothing above the
/// floor stays exactly as it is.
pub open spec fn tick_outcome(before: VoxelGrid, after: VoxelGrid) -> bool {
    &&& ticked(before, after)
    &&& settles(before, after)
    &&& floor_only(before) ==> after.cells@ == before.cells@ && after.dirty == before.dirty
}

/// Storage position of the cell `e` in a grid with extents `ym`, `zm`.
pub open spec fn order_index(e: (int, int, int), ym: int, zm: int) -> int {
    index_of(e.0, e.1, e.2, ym, zm)
}

/// Every cell of `s` lies inside an `xm` by `ym` by `zm` grid above the floor,
/// with a storage position in `[lo, hi)`, and the positions increase along `s`.
pub open spec fn ascending(s: Seq<(int, int, int)>, xm: int, ym: int, zm: int, lo: int, hi: int) -> bool {
    &&& forall|i: int|
        0 <= i < s.len() ==> {
            &&& 0 <= (#[trigger] s[i]).0 < xm
            &&& 1 <= s[i].1 < ym
            &&& 0 <= s[i].2 < zm
            &&& lo <= order_index(s[i], ym, zm) < hi
        }
    &&& forall|i: int, j: int|
        0 <= i < j < s.len() ==> order_index(#[trigger] s[i], ym, zm) < order_index(#[trigger] s[j], ym, zm)
}

proof fn lemma_ascending_concat(
    a: Seq<(int, int, int)>, b: Seq<(int, int, int)>, xm: int, ym: int, zm: int, lo: int, mid: int, hi: int,
)
    requires
        ascending(a, xm, ym, zm, lo, mid),
        ascending(b, xm, ym, zm, mid, hi),
        lo <= mid <= hi,
    ensures
        ascending(a + b, xm, ym, zm, lo, hi),
{
    let s = a + b;
    assert forall|i: int, j: int| 0 <= i < j < s.len() implies order_index(#[trigger] s[i], ym, zm) < order_index(#[trigger] s[j], ym, zm) by {
        if j < a.len() {
            assert(s[i] == a[i] && s[j] == a[j]);
        } else if i >= a.len() {
            assert(s[i] == b[i - a.len()] && s[j] == b[j - a.len()]);
        } else {
            assert(s[i] == a[i] && s[j] == b[j - a.len()]);
        }
    }
    assert forall|i: int| 0 <= i < s.len() implies {
        &&& 0 <= (#[trigger] s[i]).0 < xm
        &&& 1 <= s[i].1 < ym
        &&& 0 <= s[i].2 < zm
        &&& lo <= order_index(s[i], ym, zm) < hi
    } by {
        if i < a.len() {
            assert(s[i] == a[i]);
        } else {
            assert(s[i] == b[i - a.len()]);
        }
    }
}

proof fn lemma_row_ascending(x: int, y: int, n: int, xm: int, ym: int, zm: int)
    requires
        0 <= x < xm,
        1 <= y < ym,
        0 <= n <= zm,
    ensures
        row_order(x, y, n).len() == n,
        ascending(row_order(x, y, n), xm, ym, zm, index_of(x, y, 0, ym, zm), index_of(x, y, 0, ym, zm) + n),
        forall|c: int| 0 <= c < n ==> row_order(x, y, n).contains((x, y, c)),
    decreases n,
{
    if n > 0 {
        lemma_row_ascending(x, y, n - 1, xm, ym, zm);
        let r = row_order(x, y, n - 1);
        let s = r.push((x, y, n - 1));
        assert(s[n - 1] == (x, y, n - 1));
        assert forall|c: int| 0 <= c < n implies s.contains((x, y, c)) by {
            if c < n - 1 {
                assert(r.contains((x, y, c)));
                let k = choose|k: int| 0 <= k < r.len() && r[k] == (x, y, c);
                assert(s[k] == r[k]);
            }
        }
        assert forall|i: int, j: int| 0 <= i < j < s.len() implies order_index(#[trigger] s[i], ym, zm) < order_index(#[trigger] s[j], ym, zm) by {
            assert(s[i] == r[i]);
            if j < n - 1 {
                assert(s[j] == r[j]);
            }
        }
        assert forall|i: int| 0 <= i < s.len() implies {
            &&& 0 <= (#[trigger] s[i]).0 < xm
            &&& 1 <= s[i].1 < ym
            &&& 0 <= s[i].2 < zm
            &&& index_of(x, y, 0, ym, zm) <= order_index(s[i], ym, zm) < index_of(x, y, 0, ym, zm) + n
        } by {
            if i < n - 1 {
                assert(s[i] == r[i]);
            }
        }
    }
}

proof fn lemma_slab_ascending(x: int, n: int, xm: int, ym: int, zm: int)
    requires
        0 <= x < xm,
        1 <= n <= ym,
        1 <= zm,
    ensures
        ascending(slab_order(x, zm, n), xm, ym, zm, index_of(x, 1, 0, ym, zm), index_of(x, n, 0, ym, zm)),
        forall|b: int, c: int| 1 <= b < n && 0 <= c < zm ==> slab_order(x, zm, n).contains((x, b, c)),
    decreases n,
{
    assert(index_of(x, 1, 0, ym, zm) <= index_of(x, n, 0, ym, zm)) by (nonlinear_arith)
        requires 1 <= n, 1 <= zm;
    if n > 1 {
        lemma_slab_ascending(x, n - 1, xm, ym, zm);
        lemma_row_ascending(x, n - 1, zm, xm, ym, zm);
        assert(index_of(x, n - 1, 0, ym, zm) + zm == index_of(x, n, 0, ym, zm)) by (nonlinear_arith);
        assert(index_of(x, 1, 0, ym, zm) <= index_of(x, n - 1, 0, ym, zm)) by (nonlinear_arith)
            requires 2 <= n, 1 <= zm;
        lemma_ascending_concat(
            slab_order(x, zm, n - 1),
            row_order(x, n - 1, zm),
            xm, ym, zm,
            index_of(x, 1, 0, ym, zm),
            index_of(x, n - 1, 0, ym, zm),
            index_of(x, n, 0, ym, zm),
        );
        let a = slab_order(x, zm, n - 1);
        let r = row_order(x, n - 1, zm);
        assert forall|b: int, c: int| 1 <= b < n && 0 <= c < zm implies slab_order(x, zm, n).contains((x, b, c)) by {
            if b < n - 1 {
                assert(a.contains((x, b, c)));
                let k = choose|k: int| 0 <= k < a.len() && a[k] == (x, b, c);
                assert((a + r)[k] == a[k]);
            } else {
                assert(r.contains((x, b, c)));
                let k = choose|k: int| 0 <= k < r.len() && r[k] == (x, b, c);
                assert((a + r)[a.len() + k] == r[k]);
            }
        }
    }
}

proof fn lemma_order_ascending(n: int, xm: int, ym: int, zm: int)
    requires
        0 <= n <= xm,
        1 <= ym,
        1 <= zm,
    ensures
        ascending(order_upto(ym, zm, n), xm, ym, zm, 0, index_of(n, 0, 0, ym, zm)),
        forall|a: int, b: int, c: int|
            0 <= a < n && 1 <= b < ym && 0 <= c < zm ==> order_upto(ym, zm, n).contains((a, b, c)),
    decreases n,
{
    assert(0 <= index_of(n, 0, 0, ym, zm)) by (nonlinear_arith)
        requires 0 <= n, 1 <= ym, 1 <= zm;
    if n > 0 {
        lemma_order_ascending(n - 1, xm, ym, zm);
        lemma_slab_ascending(n - 1, ym, xm, ym, zm);
        assert(index_of(n - 1, 0, 0, ym, zm) <= index_of(n - 1, 1, 0, ym, zm)) by (nonlinear_arith)
            requires 1 <= zm;
        assert(index_of(n - 1, ym, 0, ym, zm) == index_of(n, 0, 0, ym, zm)) by (nonlinear_arith);
        assert(0 <= index_of(n - 1, 1, 0, ym, zm) <= index_of(n, 0, 0, ym, zm)) by (nonlinear_arith)
            requires 1 <= n, 1 <= ym, 1 <= zm;
        let a = order_upto(ym, zm, n - 1);
        let r = slab_order(n - 1, zm, ym);
        lemma_ascending_concat(a, r, xm, ym, zm, 0, index_of(n - 1, 1, 0, ym, zm), index_of(n, 0, 0, ym, zm));
        assert forall|p: int, b: int, c: int|
            0 <= p < n && 1 <= b < ym && 0 <= c < zm implies order_upto(ym, zm, n).contains((p, b, c)) by {
            if p < n - 1 {
                assert(a.contains((p, b, c)));
                let k = choose|k: int| 0 <= k < a.len() && a[k] == (p, b, c);
                assert((a + r)[k] == a[k]);
            } else {
                assert(r.contains((p, b, c)));
                let k = choose|k: int| 0 <= k < r.len() && r[k] == (p, b, c);
                assert((a + r)[a.len() + k] == r[k]);
            }
        }
    }
}

/// The cell `(x, y, z)` holds `v` and every other cell of `g` holds air.
pub open spec fn lone_at(g: VoxelGrid, x: int, y: int, z: int, v: Voxel) -> bool {
    &&& g.cell(x, y, z) == v
    &&& forall|a: int, b: int, c: int|
        g.in_bounds(a, b, c) && !(a == x && b == y && c == z) ==> #[trigger] g.cell(a, b, c) is Air
}

proof fn lemma_chain_lone(
    before: VoxelGrid,
    runs: Seq<VoxelGrid>,
    order: Seq<(int, int, int)>,
    x: int, y: int, z: int,
    v: Voxel,
    p: int,
    k: int,
)
    requires
        before.wf(),
        before.in_bounds(x, y, z),
        y >= 1,
        lone_at(before, x, y, z, v),
        fell_chain(runs, order),
        runs[0] == before,
        ascending(order, before.x_max as int, before.y_max as int, before.z_max as int, 0, before.cells@.len() as int),
        0 <= p < order.len(),
        order[p] == (x, y, z),
        0 <= k <= order.len(),
    ensures
        runs[k].same_shape(&before),
        runs[k].cells@.len() == before.cells@.len(),
        k <= p ==> lone_at(runs[k], x, y, z, v),
        k > p ==> lone_at(runs[k], x, y - 1, z, v),
    decreases k,
{
    if k > 0 {
        lemma_chain_lone(before, runs, order, x, y, z, v, p, k - 1);
        let xm = before.x_max as int;
        let ym = before.y_max as int;
        let zm = before.z_max as int;
        let prev = runs[k - 1];
        let next = runs[k];
        let e = order[k - 1];
        let i0 = k - 1;
        assert(fell(runs[i0], runs[i0 + 1], order[i0].0, order[i0].1, order[i0].2));
        assert(0 <= e.0 < xm && 1 <= e.1 < ym && 0 <= e.2 < zm);
        lemma_index_in_bounds(x, y, z, xm, ym, zm);
        lemma_index_in_bounds(x, y - 1, z, xm, ym, zm);
        if k - 1 != p {
            if k - 1 < p {
                assert(order_index(order[k - 1], ym, zm) < order_index(order[p], ym, zm));
                assert(!(e.0 == x && e.1 == y && e.2 == z));
                assert(prev.cell(e.0, e.1, e.2) is Air);
                assert forall|a: int, b: int, c: int|
                    next.in_bounds(a, b, c) && !(a == x && b == y && c == z) implies #[trigger] next.cell(a, b, c) is Air by {
                    assert(prev.cell(a, b, c) is Air);
                }
            } else {
                assert(order_index(order[p], ym, zm) < order_index(order[k - 1], ym, zm));
                assert(index_of(x, y - 1, z, ym, zm) < index_of(x, y, z, ym, zm)) by (nonlinear_arith)
                    requires zm >= 1;
                assert(!(e.0 == x && e.1 == y - 1 && e.2 == z));
                assert(prev.cell(e.0, e.1, e.2) is Air);
                assert forall|a: int, b: int, c: int|
                    next.in_bounds(a, b, c) && !(a == x && b == y - 1 && c == z) implies #[trigger] next.cell(a, b, c) is Air by {
                    assert(prev.cell(a, b, c) is Air);
                }
            }
        } else {
            assert(e == (x, y, z));
            if v is Air {
                assert forall|a: int, b: int, c: int|
                    next.in_bounds(a, b, c) && !(a == x && b == y - 1 && c == z) implies #[trigger] next.cell(a, b, c) is Air by {
                    if !(a == x && b == y && c == z) {
                        assert(prev.cell(a, b, c) is Air);
                    }
                }
                assert(prev.cell(x, y - 1, z) is Air);
            } else {
                let i = prev.index(x, y, z);
                let bi = prev.index(x, y - 1, z);
                assert(prev.cell(x, y - 1, z) is Air);
                assert(next.cells@ == prev.cells@.update(i, prev.cell(x, y - 1, z)).update(bi, v));
                assert forall|a: int, b: int, c: int|
                    next.in_bounds(a, b, c) && !(a == x && b == y - 1 && c == z) implies #[trigger] next.cell(a, b, c) is Air by {
                    let j = prev.index(a, b, c);
                    lemma_index_in_bounds(a, b, c, xm, ym, zm);
                    if j == bi {
                        lemma_index_injective(a, b, c, x, y - 1, z, xm, ym, zm);
                    }
                    if j != i {
                        if a == x && b == y && c == z {
                        } else {
                            assert(prev.cell(a, b, c) is Air);
                        }
                    }
                }
            }
        }
    }
}

/// A lone voxel, with nothing but air in the rest of the grid, falls exactly
/// one cell in a generation.
pub proof fn lemma_lone_voxel_falls(before: VoxelGrid, after: VoxelGrid, x: int, y: int, z: int)
    requires
        before.wf(),
        before.in_bounds(x, y, z),
        y >= 1,
        lone_at(before, x, y, z, before.cell(x, y, z)),
        ticked(before, after),
    ensures
        after.same_shape(&before),
        lone_at(after, x, y - 1, z, before.cell(x, y, z)),
{
    let order = tick_order(before);
    let runs = choose|runs: Seq<VoxelGrid>|
        #[trigger] fell_chain(runs, order) && runs[0] == before && runs.last() == after;
    let xm = before.x_max as int;
    let ym = before.y_max as int;
    let zm = before.z_max as int;
    lemma_order_ascending(xm, xm, ym, zm);
    assert(index_of(xm, 0, 0, ym, zm) == before.cells@.len()) by (nonlinear_arith)
        requires before.cells@.len() == xm * ym * zm;
    assert(order.contains((x, y, z)));
    let p = choose|p: int| 0 <= p < order.len() && order[p] == (x, y, z);
    lemma_chain_lone(before, runs, order, x, y, z, before.cell(x, y, z), p, order.len() as int);
}

/// Each grid of `runs` is a generation of the one before it.
pub open spec fn generations(runs: Seq<VoxelGrid>) -> bool {
    &&& runs.len() >= 1
    &&& runs[0].wf()
    &&& forall|i: int| 0 <= i < runs.len() - 1 ==> #[trigger] tick_outcome(runs[i], runs[i + 1])
}

/// However many generations run, the number of sand voxels stays the same.
pub proof fn lemma_sand_conserved(runs: Seq<VoxelGrid>)
    requires
        generations(runs),
    ensures
        forall|i: int| 0 <= i < runs.len() ==> sand_count(#[trigger] runs[i].cells@) == sand_count(runs[0].cells@),
    decreases runs.len(),
{
    if runs.len() > 1 {
        let init = runs.drop_last();
        assert forall|i: int| 0 <= i < init.len() - 1 implies #[trigger] tick_outcome(init[i], init[i + 1]) by {
            assert(tick_outcome(runs[i], runs[i + 1]));
        }
        assert(init[0] == runs[0]);
        lemma_sand_conserved(init);
        let k = runs.len() - 2;
        assert(tick_outcome(runs[k], runs[k + 1]));
        assert(init[k] == runs[k]);
        assert forall|i: int| 0 <= i < runs.len() implies sand_count(#[trigger] runs[i].cells@) == sand_count(runs[0].cells@) by {
            if i < runs.len() - 1 {
                assert(init[i] == runs[i]);
            }
        }
    }
}

/// A world with sand only on the floor is a fixed point: however many
/// generations run, no cell changes and the dirty flag never changes.
pub proof fn lemma_floor_world_fixed(runs: Seq<VoxelGrid>)
    requires
        generations(runs),
        floor_only(runs[0]),
    ensures
        forall|i: int| 0 <= i < runs.len() ==> {
            &&& (#[trigger] runs[i]).cells@ == runs[0].cells@
            &&& runs[i].dirty == runs[0].dirty
            &&& runs[i].same_shape(&runs[0])
        },
    decreases runs.len(),
{
    if runs.len() > 1 {
        let init = runs.drop_last();
        assert forall|i: int| 0 <= i < init.len() - 1 implies #[trigger] tick_outcome(init[i], init[i + 1]) by {
            assert(tick_outcome(runs[i], runs[i + 1]));
        }
        assert(init[0] == runs[0]);
        lemma_floor_world_fixed(init);
        let k = runs.len() - 2;
        let n = k + 1;
        let prev = runs[k];
        assert(init[k] == prev);
        assert(tick_outcome(runs[k], runs[k + 1]));
        assert forall|x: int, y: int, z: int| prev.in_bounds(x, y, z) && y >= 1 implies #[trigger] prev.cell(x, y, z) is Air by {
            assert(runs[0].in_bounds(x, y, z));
            assert(runs[0].cell(x, y, z) is Air);
        }
        assert forall|i: int| 0 <= i < runs.len() implies {
            &&& (#[trigger] runs[i]).cells@ == runs[0].cells@
            &&& runs[i].dirty == runs[0].dirty
            &&& runs[i].same_shape(&runs[0])
        } by {
            if i < n {
                assert(init[i] == runs[i]);
            }
        }
    }
}

/// Advances the automaton by one generation: every cell above the floor, x
/// outermost, then y upward, then z, applies the sandfall rule in place.
pub fn sandfall_tick(g: &mut VoxelGrid, rng: &mut XorShiftRng)
    requires
        old(g).wf(),
    ensures
        tick_outcome(*old(g), *final(g)),
{
    let ghost orig = *g;
    let ghost ym = orig.y_max as int;
    let ghost zm = orig.z_max as int;
    let ghost mut runs: Seq<VoxelGrid> = Seq::empty().push(orig);
    proof {
        lemma_settles_refl(orig);
    }
    let mut x: usize = 0;
    while x < g.x_max
        invariant
            g.wf(),
            g.same_shape(&orig),
            x <= g.x_max,
            ym == g.y_max,
            zm == g.z_max,
            settles(orig, *g),
            floor_only(orig) ==> g.cells@ == orig.cells@ && g.dirty == orig.dirty,
            fell_chain(runs, order_upto(ym, zm, x as int)),
            runs[0] == orig,
            runs.last() == *g,
        decreases g.x_max - x,
    {
        let mut y: usize = 1;
        while y < g.y_max
            invariant
                g.wf(),
                g.same_shape(&orig),
                x < g.x_max,
                1 <= y <= g.y_max,
                ym == g.y_max,
                zm == g.z_max,
                settles(orig, *g),
                floor_only(orig) ==> g.cells@ == orig.cells@ && g.dirty == orig.dirty,
                fell_chain(runs, order_upto(ym, zm, x as int) + slab_order(x as int, zm, y as int)),
                runs[0] == orig,
                runs.last() == *g,
            decreases g.y_max - y,
        {
            let mut z: usize = 0;
            while z < g.z_max
                invariant
                    g.wf(),
                    g.same_shape(&orig),
                    x < g.x_max,
                    1 <= y < g.y_max,
                    z <= g.z_max,
                    ym == g.y_max,
                    zm == g.z_max,
                    settles(orig, *g),
                    floor_only(orig) ==> g.cells@ == orig.cells@ && g.dirty == orig.dirty,
                    fell_chain(
                        runs,
                        order_upto(ym, zm, x as int) + slab_order(x as int, zm, y as int) + row_order(
                            x as int,
                            y as int,
                            z as int,
                        ),
                    ),
                    runs[0] == orig,
                    runs.last() == *g,
                decreases g.z_max - z,
            {
                let ghost before = *g;
                let ghost done = order_upto(ym, zm, x as int) + slab_order(x as int, zm, y as int)
                    + row_order(x as int, y as int, z as int);
                proof {
                    if floor_only(orig) {
                        assert(orig.cell(x as int, y as int, z as int) is Air);
                    }
                }
                fall_cell(g, rng, x, y, z);
                proof {
                    lemma_fell_settles(before, *g, x as int, y as int, z as int);
                    lemma_settles_trans(orig, before, *g);
                    let old_runs = runs;
                    runs = runs.push(*g);
                    let next = order_upto(ym, zm, x as int) + slab_order(x as int, zm, y as int)
                        + row_order(x as int, y as int, z + 1);
                    assert(next =~= done.push((x as int, y as int, z as int)));
                    assert forall|i: int| 0 <= i < next.len() implies #[trigger] fell(
                        runs[i],
                        runs[i + 1],
                        next[i].0,
                        next[i].1,
                        next[i].2,
                    ) by {
                        if i < done.len() {
                            assert(runs[i] == old_runs[i]);
                            assert(runs[i + 1] == old_runs[i + 1]);
                            assert(next[i] == done[i]);
                            assert(fell(old_runs[i], old_runs[i + 1], done[i].0, done[i].1, done[i].2));
                        } else {
                            assert(runs[i] == before);
                        }
                    }
                }
                z = z + 1;
            }
            proof {
                assert(order_upto(ym, zm, x as int) + slab_order(x as int, zm, y as int) + row_order(
                    x as int,
                    y as int,
                    zm,
                ) =~= order_upto(ym, zm, x as int) + slab_order(x as int, zm, y + 1));
            }
            y = y + 1;
        }
        proof {
            assert(order_upto(ym, zm, x as int) + slab_order(x as int, zm, ym) =~= order_upto(ym, zm, x + 1));
        }
        x = x + 1;
    }
    proof {
        assert(fell_chain(runs, tick_order(orig)));
    }
}

/// Runs a generation of the automaton on the frames that are due, one frame
/// in `SANDFALL_PERIOD`.
pub fn do_sandfall(state: &mut GameState)
    requires
        old(state).wf(),
    ensures
        final(state).wf(),
        old(state).frame % SANDFALL_PERIOD != 0 ==> *final(state) == *old(state),
        old(state).frame % SANDFALL_PERIOD == 0 ==> tick_outcome(old(state).voxels, final(state).voxels),
        final(state).running == old(state).running,
        final(state).paused == old(state).paused,
        final(state).frame == old(state).frame,
        final(state).player == old(state).player,
        final(state).sight_block == old(state).sight_block,
        final(state).voxels_mesh == old(state).voxels_mesh,
{
    if state.frame % SANDFALL_PERIOD == 0 {
        sandfall_tick(&mut state.voxels, &mut state.rng);
    }
}

/// The height of a voxel that started at height `y` after `k` generations of
/// falling straight down.
pub open spec fn fallen_height(y: int, k: int) -> int {
    if y - k < 0 { 0 } else { y - k }
}

proof fn lemma_lone_after(runs: Seq<VoxelGrid>, x: int, y: int, z: int, v: Voxel, k: int)
    requires
        generations(runs),
        runs[0].in_bounds(x, y, z),
        lone_at(runs[0], x, y, z, v),
        0 <= k < runs.len(),
    ensures
        runs[k].wf(),
        runs[k].same_shape(&runs[0]),
        lone_at(runs[k], x, fallen_height(y, k), z, v),
    decreases k,
{
    if k > 0 {
        lemma_lone_after(runs, x, y, z, v, k - 1);
        let i = k - 1;
        assert(tick_outcome(runs[i], runs[i + 1]));
        let prev = runs[i];
        let h = fallen_height(y, i);
        if h >= 1 {
            lemma_lone_voxel_falls(prev, runs[k], x, h, z);
        } else {
            assert forall|a: int, b: int, c: int| prev.in_bounds(a, b, c) && b >= 1 implies #[trigger] prev.cell(a, b, c) is Air by {
            }
            assert(floor_only(prev));
            assert forall|a: int, b: int, c: int|
                runs[k].in_bounds(a, b, c) && !(a == x && b == 0 && c == z) implies #[trigger] runs[k].cell(a, b, c) is Air by {
                assert(prev.cell(a, b, c) is Air);
            }
        }
    }
}

/// A lone voxel at height `y`, with nothing but air in the rest of the grid,
/// is `k` cells lower after `k` generations, rests on the floor from
/// generation `y` on, and never changes after that.
pub proof fn lemma_lone_voxel_lands(runs: Seq<VoxelGrid>, x: int, y: int, z: int)
    requires
        generations(runs),
        runs[0].in_bounds(x, y, z),
        lone_at(runs[0], x, y, z, runs[0].cell(x, y, z)),
    ensures
        forall|k: int|
            0 <= k < runs.len() ==> lone_at(#[trigger] runs[k], x, fallen_height(y, k), z, runs[0].cell(x, y, z)),
{
    assert forall|k: int| 0 <= k < runs.len() implies lone_at(#[trigger] runs[k], x, fallen_height(y, k), z, runs[0].cell(x, y, z)) by {
        lemma_lone_after(runs, x, y, z, runs[0].cell(x, y, z), k);
    }
}

} // verus!
