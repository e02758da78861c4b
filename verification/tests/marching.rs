use voxgrid::bounds::{Bounds, SparseVoxel};
use voxgrid::grid::build_grid;
use voxgrid::march::{march, march_steps, ray_wf_check, MarchResult, Ray};

fn vx(x: i32, y: i32, z: i32, i: u8) -> SparseVoxel {
    SparseVoxel { x, y, z, i }
}

fn unit_bounds(max_x: i32, max_y: i32, max_z: i32) -> Bounds {
    Bounds { min_x: 0, max_x, min_y: 0, max_y, min_z: 0, max_z }
}

/// A ray from integer-denominator rational coordinates.
fn ray(o: (i64, i64, i64), den: i64, d: (i64, i64, i64)) -> Ray {
    let r = Ray { ox: o.0, oy: o.1, oz: o.2, den, dx: d.0, dy: d.1, dz: d.2 };
    assert!(ray_wf_check(&r));
    r
}

#[test]
fn ray_away_from_empty_grid_misses() {
    let g = build_grid(&Vec::new(), &unit_bounds(3, 3, 3));
    assert_eq!(g.dims(), (4, 4, 4));
    let (res, steps) = march_steps(&g, &ray((-2, 0, 0), 1, (-1, 0, 0)));
    assert_eq!(res, MarchResult::Miss);
    assert_eq!(steps, 0);
}

#[test]
fn ray_through_empty_grid_misses_within_budget() {
    let g = build_grid(&Vec::new(), &unit_bounds(3, 3, 3));
    let (res, steps) = march_steps(&g, &ray((1, 1, 1), 2, (1, 1, 1)));
    assert_eq!(res, MarchResult::Miss);
    assert!(steps <= 12);
}

#[test]
fn origin_at_occupied_cell_center_hits_immediately() {
    let g = build_grid(&vec![vx(0, 0, 0, 0)], &unit_bounds(0, 0, 0));
    assert_eq!(g.dims(), (1, 1, 1));
    let (res, steps) = march_steps(&g, &ray((1, 1, 1), 2, (1, 0, 0)));
    assert_eq!(res, MarchResult::Hit { material_id: 1 });
    assert_eq!(steps, 0);
}

#[test]
fn ray_along_x_hits_after_three_advances() {
    let g = build_grid(&vec![vx(3, 0, 0, 0)], &unit_bounds(3, 0, 0));
    assert_eq!(g.dims(), (4, 1, 1));
    let (res, steps) = march_steps(&g, &ray((0, 0, 0), 1, (1, 0, 0)));
    assert_eq!(res, MarchResult::Hit { material_id: 1 });
    assert_eq!(steps, 3);
}

#[test]
fn ray_along_negative_x_hits_after_three_advances() {
    let g = build_grid(&vec![vx(0, 0, 0, 0)], &unit_bounds(3, 0, 0));
    let (res, steps) = march_steps(&g, &ray((7, 1, 1), 2, (-1, 0, 0)));
    assert_eq!(res, MarchResult::Hit { material_id: 1 });
    assert_eq!(steps, 3);
}

#[test]
fn boundary_origin_starts_in_cell_ahead() {
    // Origin exactly on the far face, direction inward: the nudge puts
    // the start cell inside the grid, so the face cell itself is hit.
    let g = build_grid(&vec![vx(3, 0, 0, 0)], &unit_bounds(3, 0, 0));
    let (res, steps) = march_steps(&g, &ray((4, 0, 0), 1, (-1, 0, 0)));
    assert_eq!(res, MarchResult::Hit { material_id: 1 });
    assert_eq!(steps, 0);
}

#[test]
fn equal_tmax_advances_x_before_y() {
    // From a cell corner with direction (1, 1, 0) both tmax values tie;
    // the fixed priority advances x first.
    let g = build_grid(&vec![vx(1, 0, 0, 4)], &unit_bounds(1, 1, 0));
    let (res, steps) = march_steps(&g, &ray((0, 0, 0), 1, (1, 1, 0)));
    assert_eq!(res, MarchResult::Hit { material_id: 5 });
    assert_eq!(steps, 1);
}

#[test]
fn zero_direction_in_empty_cell_misses() {
    let g = build_grid(&vec![vx(1, 0, 0, 0)], &unit_bounds(1, 0, 0));
    let (res, steps) = march_steps(&g, &ray((1, 1, 1), 2, (0, 0, 0)));
    assert_eq!(res, MarchResult::Miss);
    assert_eq!(steps, 0);
}

#[test]
fn zero_direction_in_occupied_cell_hits() {
    let g = build_grid(&vec![vx(0, 0, 0, 9)], &unit_bounds(0, 0, 0));
    assert_eq!(march(&g, &ray((1, 1, 1), 2, (0, 0, 0))), MarchResult::Hit { material_id: 10 });
}

#[test]
fn diagonal_ray_walks_to_far_corner() {
    let g = build_grid(&vec![vx(2, 2, 2, 0)], &unit_bounds(2, 2, 2));
    let (res, steps) = march_steps(&g, &ray((1, 1, 1), 2, (1, 1, 1)));
    assert_eq!(res, MarchResult::Hit { material_id: 1 });
    assert_eq!(steps, 6);
    assert!(steps <= 9);
}

#[test]
fn march_budget_holds_on_long_thin_grid() {
    let g = build_grid(&Vec::new(), &unit_bounds(99, 0, 0));
    let (res, steps) = march_steps(&g, &ray((1, 1, 1), 2, (1, 0, 0)));
    assert_eq!(res, MarchResult::Miss);
    assert!(steps <= 102);
}

#[test]
fn outside_origin_misses_even_toward_grid() {
    // Bounds are checked before every sample, so a walk that begins
    // outside the grid ends immediately; rays are expected to start on
    // or inside the box.
    let g = build_grid(&vec![vx(0, 0, 0, 0)], &unit_bounds(1, 1, 1));
    let (res, steps) = march_steps(&g, &ray((-1, 1, 1), 2, (1, 0, 0)));
    assert_eq!(res, MarchResult::Miss);
    assert_eq!(steps, 0);
}

#[test]
fn ray_along_y_advances_only_y() {
    let g = build_grid(&vec![vx(0, 2, 0, 0)], &unit_bounds(1, 2, 3));
    let (res, steps) = march_steps(&g, &ray((1, 1, 1), 2, (0, 1, 0)));
    assert_eq!(res, MarchResult::Hit { material_id: 1 });
    assert_eq!(steps, 2);
}

#[test]
fn ray_along_z_advances_only_z() {
    let g = build_grid(&vec![vx(0, 0, 3, 0)], &unit_bounds(1, 2, 3));
    let (res, steps) = march_steps(&g, &ray((1, 1, 1), 2, (0, 0, 1)));
    assert_eq!(res, MarchResult::Hit { material_id: 1 });
    assert_eq!(steps, 3);
}

#[test]
fn scaled_direction_marches_identically() {
    let g = build_grid(&vec![vx(2, 1, 2, 6)], &unit_bounds(2, 2, 2));
    let slow = ray((1, 1, 1), 2, (2, 1, 2));
    let fast = ray((1, 1, 1), 2, (200, 100, 200));
    assert_eq!(march_steps(&g, &slow), march_steps(&g, &fast));
}

#[test]
fn wf_check_rejects_bad_denominator() {
    let r = Ray { ox: 0, oy: 0, oz: 0, den: 0, dx: 1, dy: 0, dz: 0 };
    assert!(!ray_wf_check(&r));
}
