//! The dense voxel grid: a zero-based 3-dimensional array of material
//! ids, backed by an `ndarray` array.
//!
//! Cell value 0 means empty; a value `v > 0` refers to palette slot `v`.

use vstd::prelude::*;
use crate::bounds::Bounds;
use crate::bounds::SparseVoxel;

verus! {

/// A dense width × height × depth grid of material ids.
///
/// The backing array is reached only through the trusted accessors
/// below; its dimensions and contents are named by `grid_dims` and
/// `grid_cells`.
#[verifier::external_body]
pub struct DenseGrid {
    data: ndarray::Array3<u8>,
}

/// The grid's (width, height, depth).
pub uninterp spec fn grid_dims(g: DenseGrid) -> (int, int, int);

/// The value stored in each cell, keyed by (x, y, z).
pub uninterp spec fn grid_cells(g: DenseGrid) -> Map<(int, int, int), u8>;

/// The coordinate lies inside a grid of the given dimensions.
pub open spec fn in_dims(dims: (int, int, int), c: (int, int, int)) -> bool {
    0 <= c.0 < dims.0 && 0 <= c.1 < dims.1 && 0 <= c.2 < dims.2
}

/// The contents of an all-empty grid of the given dimensions.
pub open spec fn zero_cells(w: int, h: int, d: int) -> Map<(int, int, int), u8> {
    Map::new(|c: (int, int, int)| in_dims((w, h, d), c), |c: (int, int, int)| 0u8)
}

/// Relies on ndarray's `Array3::from_elem`: a freshly allocated
/// w × h × d array with every element equal to the given one. The size
/// bound keeps the element count within `isize`, which `from_elem`
/// demands; its overflow check multiplies only the non-zero axis
/// lengths, so the axes are required positive to make the product
/// bound cover exactly what it checks.
#[verifier::external_body]
fn alloc_zeroed(w: usize, h: usize, d: usize) -> (g: DenseGrid)
    requires
        1 <= w,
        1 <= h,
        1 <= d,
        w * h * d <= usize::MAX as int / 2,
    ensures
        grid_dims(g) == (w as int, h as int, d as int),
        grid_cells(g) == zero_cells(w as int, h as int, d as int),
{
    DenseGrid { data: ndarray::Array3::from_elem((w, h, d), 0u8) }
}

/// Relies on ndarray's `IndexMut` for `[usize; 3]`: stores the value at
/// (x, y, z), which is in range, and changes nothing else.
#[verifier::external_body]
fn set_cell(g: &mut DenseGrid, x: usize, y: usize, z: usize, v: u8)
    requires
        in_dims(grid_dims(*old(g)), (x as int, y as int, z as int)),
    ensures
        grid_dims(*final(g)) == grid_dims(*old(g)),
        grid_cells(*final(g)) == grid_cells(*old(g)).insert((x as int, y as int, z as int), v),
{
    g.data[[x, y, z]] = v;
}

/// Relies on ndarray's `Index` for `[usize; 3]`: reads the value at
/// (x, y, z), which is in range.
#[verifier::external_body]
fn get_cell(g: &DenseGrid, x: usize, y: usize, z: usize) -> (v: u8)
    requires
        in_dims(grid_dims(*g), (x as int, y as int, z as int)),
    ensures
        v == grid_cells(*g)[(x as int, y as int, z as int)],
{
    g.data[[x, y, z]]
}

/// Relies on ndarray's `dim` for three-dimensional arrays: returns the
/// axis lengths as (width, height, depth).
#[verifier::external_body]
fn dims_of(g: &DenseGrid) -> (r: (usize, usize, usize))
    ensures
        (r.0 as int, r.1 as int, r.2 as int) == grid_dims(*g),
{
    g.data.dim()
}

/// The grid value recording a material index: the index plus 1, so that
/// 0 stays free as the empty sentinel. Indices above 254 are clamped to
/// 254 first, so one corrupt voxel cannot leave the palette's range.
pub open spec fn cell_value(i: u8) -> u8 {
    if i > 254 {
        255u8
    } else {
        (i + 1) as u8
    }
}

/// A voxel's zero-based cell coordinate inside the bounding box.
pub open spec fn translated(v: SparseVoxel, b: Bounds) -> (int, int, int) {
    (v.x - b.min_x, v.y - b.min_y, v.z - b.min_z)
}

/// The dimensions of the grid that covers the bounding box.
pub open spec fn extents_of(b: Bounds) -> (int, int, int) {
    (b.extent_x(), b.extent_y(), b.extent_z())
}

/// The contents of the grid built over `b` from `vs`: an all-zero grid
/// with each voxel's value scattered in, later voxels overwriting
/// earlier ones at the same cell.
pub open spec fn built_cells(vs: Seq<SparseVoxel>, b: Bounds) -> Map<(int, int, int), u8>
    decreases vs.len(),
{
    if vs.len() == 0 {
        zero_cells(b.extent_x(), b.extent_y(), b.extent_z())
    } else {
        built_cells(vs.drop_last(), b).insert(translated(vs.last(), b), cell_value(vs.last().i))
    }
}

/// A box's extent on each axis is at most the product of all three,
/// since every extent is at least 1.
proof fn lemma_extent_le_volume(ex: int, ey: int, ez: int)
    requires
        ex >= 1,
        ey >= 1,
        ez >= 1,
    ensures
        ex <= ex * ey * ez,
        ey <= ex * ey * ez,
        ez <= ex * ey * ez,
{
    assert(ex <= ex * ey * ez && ey <= ex * ey * ez && ez <= ex * ey * ez)
        by (nonlinear_arith)
        requires
            ex >= 1,
            ey >= 1,
            ez >= 1,
    ;
}

/// Every voxel inside the box lands at an in-range cell once translated
/// to zero-based grid coordinates.
pub proof fn lemma_translated_in_dims(v: SparseVoxel, b: Bounds)
    requires
        b.wf(),
        b.contains(v),
    ensures
        in_dims(extents_of(b), translated(v, b)),
{
}

/// The built grid holds exactly the in-range cells: scattering voxels
/// that the box contains never adds a cell outside the box.
pub proof fn lemma_built_cells_dom(vs: Seq<SparseVoxel>, b: Bounds)
    requires
        b.wf(),
        forall|k: int| 0 <= k < vs.len() ==> b.contains(#[trigger] vs[k]),
    ensures
        built_cells(vs, b).dom() =~= zero_cells(b.extent_x(), b.extent_y(), b.extent_z()).dom(),
    decreases vs.len(),
{
    if vs.len() > 0 {
        lemma_built_cells_dom(vs.drop_last(), b);
        lemma_translated_in_dims(vs.last(), b);
    }
}

/// A cell that no voxel translates to keeps the empty sentinel.
pub proof fn lemma_built_cell_empty(vs: Seq<SparseVoxel>, b: Bounds, c: (int, int, int))
    requires
        forall|k: int| 0 <= k < vs.len() ==> translated(#[trigger] vs[k], b) != c,
    ensures
        built_cells(vs, b)[c] == zero_cells(b.extent_x(), b.extent_y(), b.extent_z())[c],
    decreases vs.len(),
{
    if vs.len() > 0 {
        assert forall|k: int| 0 <= k < vs.drop_last().len() implies translated(
            #[trigger] vs.drop_last()[k],
            b,
        ) != c by {
            assert(vs.drop_last()[k] == vs[k]);
        }
        lemma_built_cell_empty(vs.drop_last(), b, c);
    }
}

/// The last voxel translating to a cell decides its value: voxels
/// scattered later overwrite earlier ones at the same cell.
pub proof fn lemma_built_cell_last(vs: Seq<SparseVoxel>, b: Bounds, k: int)
    requires
        0 <= k < vs.len(),
        forall|j: int|
            k < j < vs.len() ==> translated(#[trigger] vs[j], b) != translated(vs[k], b),
    ensures
        built_cells(vs, b)[translated(vs[k], b)] == cell_value(vs[k].i),
    decreases vs.len(),
{
    if k < vs.len() - 1 {
        assert(translated(vs[vs.len() - 1], b) != translated(vs[k], b));
        assert forall|j: int| k < j < vs.drop_last().len() implies translated(
            #[trigger] vs.drop_last()[j],
            b,
        ) != translated(vs.drop_last()[k], b) by {
            assert(vs.drop_last()[j] == vs[j] && vs.drop_last()[k] == vs[k]);
        }
        assert(vs.drop_last()[k] == vs[k]);
        lemma_built_cell_last(vs.drop_last(), b, k);
    }
}

/// Rebuilding from identical sparse input yields an identical grid:
/// two grids built from the same voxels and box agree cell for cell.
pub proof fn lemma_build_idempotent(g1: DenseGrid, g2: DenseGrid, vs: Seq<SparseVoxel>, b: Bounds)
    requires
        grid_dims(g1) == extents_of(b),
        grid_cells(g1) == built_cells(vs, b),
        grid_dims(g2) == extents_of(b),
        grid_cells(g2) == built_cells(vs, b),
    ensures
        grid_dims(g1) == grid_dims(g2),
        grid_cells(g1) == grid_cells(g2),
{
}

/// Allocates a grid covering the bounding box and scatters each voxel's
/// material value into its translated cell.
pub fn build_grid(voxels: &Vec<SparseVoxel>, b: &Bounds) -> (g: DenseGrid)
    requires
        b.wf(),
        forall|k: int| 0 <= k < voxels@.len() ==> b.contains(#[trigger] voxels@[k]),
        b.extent_x() * b.extent_y() * b.extent_z() <= usize::MAX as int / 2,
    ensures
        grid_dims(g) == extents_of(*b),
        grid_cells(g) == built_cells(voxels@, *b),
{
    proof {
        lemma_extent_le_volume(b.extent_x(), b.extent_y(), b.extent_z());
    }
    let w = (b.max_x as i64 - b.min_x as i64 + 1) as usize;
    let h = (b.max_y as i64 - b.min_y as i64 + 1) as usize;
    let d = (b.max_z as i64 - b.min_z as i64 + 1) as usize;
    let mut g = alloc_zeroed(w, h, d);
    let mut idx: usize = 0;
    while idx < voxels.len()
        invariant
            idx <= voxels@.len(),
            b.wf(),
            forall|k: int| 0 <= k < voxels@.len() ==> b.contains(#[trigger] voxels@[k]),
            grid_dims(g) == extents_of(*b),
            grid_cells(g) == built_cells(voxels@.take(idx as int), *b),
        decreases voxels@.len() - idx,
    {
        let v = voxels[idx];
        let tx = (v.x as i64 - b.min_x as i64) as usize;
        let ty = (v.y as i64 - b.min_y as i64) as usize;
        let tz = (v.z as i64 - b.min_z as i64) as usize;
        let val: u8 = if v.i > 254 {
            255
        } else {
            v.i + 1
        };
        proof {
            lemma_translated_in_dims(voxels@[idx as int], *b);
        }
        set_cell(&mut g, tx, ty, tz, val);
        proof {
            assert(voxels@.take(idx as int + 1).drop_last() =~= voxels@.take(idx as int));
            assert(voxels@.take(idx as int + 1).last() == voxels@[idx as int]);
        }
        idx = idx + 1;
    }
    proof {
        assert(voxels@.take(voxels@.len() as int) =~= voxels@);
    }
    g
}

impl DenseGrid {
    /// The grid's (width, height, depth).
    pub fn dims(&self) -> (r: (usize, usize, usize))
        ensures
            (r.0 as int, r.1 as int, r.2 as int) == grid_dims(*self),
    {
        dims_of(self)
    }

    /// The material id stored at an in-range cell.
    pub fn value_at(&self, x: usize, y: usize, z: usize) -> (v: u8)
        requires
            in_dims(grid_dims(*self), (x as int, y as int, z as int)),
        ensures
            v == grid_cells(*self)[(x as int, y as int, z as int)],
    {
        get_cell(self, x, y, z)
    }
}

} // verus!
