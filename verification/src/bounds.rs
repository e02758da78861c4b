//! Sparse voxels and the tightest axis-aligned bounding box around them.

use vstd::prelude::*;

verus! {

/// One colored unit cube at an integer coordinate, as read from the
/// source container: a position and a material index.
#[derive(Clone, Copy, Debug, PartialEq, Eq, Structural)]
pub struct SparseVoxel {
    pub x: i32,
    pub y: i32,
    pub z: i32,
    /// Index into the color table; values above 254 are treated as 254.
    pub i: u8,
}

/// Per-axis minimum and maximum over a voxel set, inclusive on both ends.
#[derive(Clone, Copy, Debug, PartialEq, Eq, Structural)]
pub struct Bounds {
    pub min_x: i32,
    pub max_x: i32,
    pub min_y: i32,
    pub max_y: i32,
    pub min_z: i32,
    pub max_z: i32,
}

impl Bounds {
    /// Each minimum is at most its maximum, so every extent is at least 1.
    pub open spec fn wf(self) -> bool {
        self.min_x <= self.max_x && self.min_y <= self.max_y && self.min_z <= self.max_z
    }

    /// Number of cells the box spans along x.
    pub open spec fn extent_x(self) -> int {
        self.max_x - self.min_x + 1
    }

    /// Number of cells the box spans along y.
    pub open spec fn extent_y(self) -> int {
        self.max_y - self.min_y + 1
    }

    /// Number of cells the box spans along z.
    pub open spec fn extent_z(self) -> int {
        self.max_z - self.min_z + 1
    }

    /// The voxel's coordinate lies inside the box on all three axes.
    pub open spec fn contains(self, v: SparseVoxel) -> bool {
        self.min_x <= v.x <= self.max_x
            && self.min_y <= v.y <= self.max_y
            && self.min_z <= v.z <= self.max_z
    }
}

/// `b` is the bounding box of `vs`: it contains every voxel, and every
/// one of its six faces touches some voxel.
pub open spec fn is_bounds_of(vs: Seq<SparseVoxel>, b: Bounds) -> bool {
    &&& (forall|k: int| 0 <= k < vs.len() ==> b.contains(#[trigger] vs[k]))
    &&& (exists|k: int| 0 <= k < vs.len() && #[trigger] vs[k].x == b.min_x)
    &&& (exists|k: int| 0 <= k < vs.len() && #[trigger] vs[k].x == b.max_x)
    &&& (exists|k: int| 0 <= k < vs.len() && #[trigger] vs[k].y == b.min_y)
    &&& (exists|k: int| 0 <= k < vs.len() && #[trigger] vs[k].y == b.max_y)
    &&& (exists|k: int| 0 <= k < vs.len() && #[trigger] vs[k].z == b.min_z)
    &&& (exists|k: int| 0 <= k < vs.len() && #[trigger] vs[k].z == b.max_z)
}

/// The smaller of two values.
pub open spec fn min_i32(a: i32, b: i32) -> i32 {
    if a <= b {
        a
    } else {
        b
    }
}

/// The larger of two values.
pub open spec fn max_i32(a: i32, b: i32) -> i32 {
    if a >= b {
        a
    } else {
        b
    }
}

/// The bounding box of a non-empty voxel sequence: the running per-axis
/// minimum and maximum over its elements.
pub open spec fn bounds_of(vs: Seq<SparseVoxel>) -> Bounds
    decreases vs.len(),
{
    if vs.len() <= 1 {
        Bounds {
            min_x: vs[0].x,
            max_x: vs[0].x,
            min_y: vs[0].y,
            max_y: vs[0].y,
            min_z: vs[0].z,
            max_z: vs[0].z,
        }
    } else {
        let p = bounds_of(vs.drop_last());
        let v = vs.last();
        Bounds {
            min_x: min_i32(p.min_x, v.x),
            max_x: max_i32(p.max_x, v.x),
            min_y: min_i32(p.min_y, v.y),
            max_y: max_i32(p.max_y, v.y),
            min_z: min_i32(p.min_z, v.z),
            max_z: max_i32(p.max_z, v.z),
        }
    }
}

/// Running minimum and maximum of a sequence of values, in one pass.
///
/// `None` exactly when the input is empty; otherwise the pair is the
/// least and greatest element, each attained by some element.
pub fn min_max(xs: &Vec<i32>) -> (r: Option<(i32, i32)>)
    ensures
        r is None <==> xs@.len() == 0,
        r matches Some(p) ==> {
            &&& (forall|k: int| 0 <= k < xs@.len() ==> p.0 <= #[trigger] xs@[k] <= p.1)
            &&& (exists|k: int| 0 <= k < xs@.len() && #[trigger] xs@[k] == p.0)
            &&& (exists|k: int| 0 <= k < xs@.len() && #[trigger] xs@[k] == p.1)
        },
{
    if xs.len() == 0 {
        return None;
    }
    let mut lo = xs[0];
    let mut hi = xs[0];
    let mut idx: usize = 1;
    while idx < xs.len()
        invariant
            1 <= idx <= xs@.len(),
            forall|k: int| 0 <= k < idx ==> lo <= #[trigger] xs@[k] <= hi,
            exists|k: int| 0 <= k < idx && #[trigger] xs@[k] == lo,
            exists|k: int| 0 <= k < idx && #[trigger] xs@[k] == hi,
        decreases xs@.len() - idx,
    {
        let v = xs[idx];
        if v < lo {
            lo = v;
        }
        if v > hi {
            hi = v;
        }
        idx = idx + 1;
    }
    Some((lo, hi))
}

/// Scans the voxels once, tracking an independent running minimum and
/// maximum per axis.
///
/// `None` exactly when the input is empty; otherwise the box is the
/// tightest one containing every coordinate.
pub fn compute_bounds(voxels: &Vec<SparseVoxel>) -> (r: Option<Bounds>)
    ensures
        r is None <==> voxels@.len() == 0,
        r matches Some(b) ==> b == bounds_of(voxels@) && b.wf() && is_bounds_of(voxels@, b),
{
    if voxels.len() == 0 {
        return None;
    }
    let first = voxels[0];
    let mut b = Bounds {
        min_x: first.x,
        max_x: first.x,
        min_y: first.y,
        max_y: first.y,
        min_z: first.z,
        max_z: first.z,
    };
    let mut idx: usize = 1;
    while idx < voxels.len()
        invariant
            1 <= idx <= voxels@.len(),
            b == bounds_of(voxels@.take(idx as int)),
            b.wf(),
            forall|k: int| 0 <= k < idx ==> b.contains(#[trigger] voxels@[k]),
            exists|k: int| 0 <= k < idx && #[trigger] voxels@[k].x == b.min_x,
            exists|k: int| 0 <= k < idx && #[trigger] voxels@[k].x == b.max_x,
            exists|k: int| 0 <= k < idx && #[trigger] voxels@[k].y == b.min_y,
            exists|k: int| 0 <= k < idx && #[trigger] voxels@[k].y == b.max_y,
            exists|k: int| 0 <= k < idx && #[trigger] voxels@[k].z == b.min_z,
            exists|k: int| 0 <= k < idx && #[trigger] voxels@[k].z == b.max_z,
        decreases voxels@.len() - idx,
    {
        let v = voxels[idx];
        if v.x < b.min_x {
            b.min_x = v.x;
        }
        if v.x > b.max_x {
            b.max_x = v.x;
        }
        if v.y < b.min_y {
            b.min_y = v.y;
        }
        if v.y > b.max_y {
            b.max_y = v.y;
        }
        if v.z < b.min_z {
            b.min_z = v.z;
        }
        if v.z > b.max_z {
            b.max_z = v.z;
        }
        proof {
            assert(voxels@.take(idx as int + 1).drop_last() =~= voxels@.take(idx as int));
            assert(voxels@.take(idx as int + 1).last() == voxels@[idx as int]);
        }
        idx = idx + 1;
    }
    proof {
        assert(voxels@.take(voxels@.len() as int) =~= voxels@);
    }
    Some(b)
}

/// Any box containing every voxel of a non-empty set contains its
/// bounding box whole: the bounding box is the tightest such box.
pub proof fn lemma_bounds_tightest(vs: Seq<SparseVoxel>, b: Bounds, c: Bounds)
    requires
        is_bounds_of(vs, b),
        forall|k: int| 0 <= k < vs.len() ==> c.contains(#[trigger] vs[k]),
    ensures
        c.min_x <= b.min_x && b.max_x <= c.max_x,
        c.min_y <= b.min_y && b.max_y <= c.max_y,
        c.min_z <= b.min_z && b.max_z <= c.max_z,
{
}

/// Two bounding boxes of the same voxel set are equal: the tightest
/// box is unique.
pub proof fn lemma_bounds_unique(vs: Seq<SparseVoxel>, b1: Bounds, b2: Bounds)
    requires
        is_bounds_of(vs, b1),
        is_bounds_of(vs, b2),
    ensures
        b1 == b2,
{
    lemma_bounds_tightest(vs, b1, b2);
    lemma_bounds_tightest(vs, b2, b1);
}

} // verus!
