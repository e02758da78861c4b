//! A voxel model: one dense grid plus the shared palette.

use vstd::prelude::*;
use crate::bounds::Bounds;
use crate::bounds::SparseVoxel;
use crate::bounds::bounds_of;
use crate::bounds::compute_bounds;
use crate::grid::DenseGrid;
use crate::grid::build_grid;
use crate::grid::built_cells;
use crate::grid::extents_of;
use crate::grid::grid_cells;
use crate::grid::grid_dims;
use crate::grid::zero_cells;
use crate::palette::Palette;
use crate::palette::palette_from_colors;
use crate::palette::palette_of;

verus! {

/// An immutable voxel model: its palette, its dense grid, and through
/// the grid its own size vector.
pub struct Model {
    pub palette: Palette,
    pub voxels: DenseGrid,
}

impl Model {
    /// The palette has its full 256 slots and the grid spans at least
    /// one cell on every axis.
    pub open spec fn wf(self) -> bool {
        &&& self.palette@.len() == 256
        &&& grid_dims(self.voxels).0 >= 1
        &&& grid_dims(self.voxels).1 >= 1
        &&& grid_dims(self.voxels).2 >= 1
    }
}

/// The dimensions of a model's grid: the bounding-box extents, or a
/// degenerate 1 × 1 × 1 grid for an empty voxel list.
pub open spec fn model_grid_dims(vs: Seq<SparseVoxel>) -> (int, int, int) {
    if vs.len() == 0 {
        (1, 1, 1)
    } else {
        extents_of(bounds_of(vs))
    }
}

/// The contents of a model's grid: the voxels scattered over the
/// bounding box, or a single empty cell for an empty voxel list.
pub open spec fn model_grid_cells(vs: Seq<SparseVoxel>) -> Map<(int, int, int), u8> {
    if vs.len() == 0 {
        zero_cells(1, 1, 1)
    } else {
        built_cells(vs, bounds_of(vs))
    }
}

/// The number of cells a model's grid allocates.
pub open spec fn model_volume(vs: Seq<SparseVoxel>) -> int {
    model_grid_dims(vs).0 * model_grid_dims(vs).1 * model_grid_dims(vs).2
}

/// An element-for-element copy of a palette.
fn clone_palette(p: &Palette) -> (r: Palette)
    ensures
        r@ == p@,
{
    let r = p.clone();
    proof {
        assert(r@ =~= p@);
    }
    r
}

/// Builds one model: computes the bounding box, scatters the voxels
/// into a dense grid over it, and pairs the grid with the palette.
///
/// An empty voxel list yields a 1 × 1 × 1 all-empty grid.
pub fn build_model(voxels: &Vec<SparseVoxel>, palette: &Palette) -> (m: Model)
    requires
        palette@.len() == 256,
        model_volume(voxels@) <= usize::MAX as int / 2,
    ensures
        m.palette@ == palette@,
        grid_dims(m.voxels) == model_grid_dims(voxels@),
        grid_cells(m.voxels) == model_grid_cells(voxels@),
        m.wf(),
{
    let b = match compute_bounds(voxels) {
        Some(b) => b,
        None => Bounds { min_x: 0, max_x: 0, min_y: 0, max_y: 0, min_z: 0, max_z: 0 },
    };
    let grid = build_grid(voxels, &b);
    Model { palette: clone_palette(palette), voxels: grid }
}

/// Builds one model after checking at run time that its dense grid
/// fits in memory; `None` exactly when it would not.
pub fn try_build_model(voxels: &Vec<SparseVoxel>, palette: &Palette) -> (r: Option<Model>)
    requires
        palette@.len() == 256,
    ensures
        r is Some <==> model_volume(voxels@) <= usize::MAX as int / 2,
        r matches Some(m) ==> {
            &&& m.palette@ == palette@
            &&& grid_dims(m.voxels) == model_grid_dims(voxels@)
            &&& grid_cells(m.voxels) == model_grid_cells(voxels@)
            &&& m.wf()
        },
{
    let vol_ok: bool = match compute_bounds(voxels) {
        None => true,
        Some(b) => {
            let w = (b.max_x as i128 - b.min_x as i128 + 1) as u128;
            let h = (b.max_y as i128 - b.min_y as i128 + 1) as u128;
            let d = (b.max_z as i128 - b.min_z as i128 + 1) as u128;
            proof {
                assert((w as int) * (h as int) <= 0x1_0000_0000_0000_0000 && (w as int) * (
                h as int) * (d as int) <= 0x1_0000_0000_0000_0000_0000_0000)
                    by (nonlinear_arith)
                    requires
                        1 <= w as int <= 0x1_0000_0000,
                        1 <= h as int <= 0x1_0000_0000,
                        1 <= d as int <= 0x1_0000_0000,
                ;
            }
            w * h * d <= (usize::MAX / 2) as u128
        },
    };
    if vol_ok {
        Some(build_model(voxels, palette))
    } else {
        None
    }
}

/// Builds every model of one source file against the file's shared
/// color table.
pub fn build_models(models: &Vec<Vec<SparseVoxel>>, colors: &Vec<u32>) -> (r: Vec<Model>)
    requires
        forall|k: int|
            0 <= k < models@.len() ==> model_volume(#[trigger] models@[k]@) <= usize::MAX as int
                / 2,
    ensures
        r@.len() == models@.len(),
        forall|k: int|
            0 <= k < r@.len() ==> {
                &&& (#[trigger] r@[k]).palette@ == palette_of(colors@)
                &&& grid_dims(r@[k].voxels) == model_grid_dims(models@[k]@)
                &&& grid_cells(r@[k].voxels) == model_grid_cells(models@[k]@)
                &&& r@[k].wf()
            },
{
    let palette = palette_from_colors(colors);
    let mut r: Vec<Model> = Vec::new();
    let mut idx: usize = 0;
    while idx < models.len()
        invariant
            idx <= models@.len(),
            palette@ == palette_of(colors@),
            palette@.len() == 256,
            forall|k: int|
                0 <= k < models@.len() ==> model_volume(#[trigger] models@[k]@) <= usize::MAX
                    as int / 2,
            r@.len() == idx,
            forall|k: int|
                0 <= k < idx ==> {
                    &&& (#[trigger] r@[k]).palette@ == palette_of(colors@)
                    &&& grid_dims(r@[k].voxels) == model_grid_dims(models@[k]@)
                    &&& grid_cells(r@[k].voxels) == model_grid_cells(models@[k]@)
                    &&& r@[k].wf()
                },
        decreases models@.len() - idx,
    {
        let m = build_model(&models[idx], &palette);
        r.push(m);
        idx = idx + 1;
    }
    r
}

} // verus!
