use voxgrid::bounds::{compute_bounds, min_max, SparseVoxel};
use voxgrid::grid::build_grid;
use voxgrid::model::{build_model, build_models, try_build_model};
use voxgrid::palette::{color_from_u32, palette_from_colors, Material};

fn vx(x: i32, y: i32, z: i32, i: u8) -> SparseVoxel {
    SparseVoxel { x, y, z, i }
}

#[test]
fn min_max_empty_is_none() {
    assert_eq!(min_max(&Vec::new()), None);
}

#[test]
fn min_max_tracks_both_ends() {
    let xs = vec![3, -7, 12, 0, -7, 12];
    assert_eq!(min_max(&xs), Some((-7, 12)));
    assert_eq!(min_max(&vec![5]), Some((5, 5)));
}

#[test]
fn bounds_empty_is_none() {
    assert_eq!(compute_bounds(&Vec::new()), None);
}

#[test]
fn bounds_are_tightest_per_axis() {
    let voxels = vec![vx(-3, 5, 0, 0), vx(7, 5, -2, 0), vx(0, 9, -1, 0)];
    let b = compute_bounds(&voxels).unwrap();
    assert_eq!((b.min_x, b.max_x), (-3, 7));
    assert_eq!((b.min_y, b.max_y), (5, 9));
    assert_eq!((b.min_z, b.max_z), (-2, 0));
}

#[test]
fn color_unpacks_bytes_in_rgba_order() {
    let m = color_from_u32(0x44_33_22_11);
    assert_eq!((m.r, m.g, m.b, m.a), (0x11, 0x22, 0x33, 0x44));
}

#[test]
fn palette_slot_zero_is_sentinel_and_rest_shifted() {
    let colors = vec![0xffff_ffff_u32, 0x0000_00ff_u32];
    let p = palette_from_colors(&colors);
    assert_eq!(p.len(), 256);
    assert_eq!(p[0], Material { r: 0, g: 0, b: 0, a: 0 });
    assert_eq!(p[1], Material { r: 255, g: 255, b: 255, a: 255 });
    assert_eq!(p[2], Material { r: 255, g: 0, b: 0, a: 0 });
    for j in 3..256 {
        assert_eq!(p[j], Material { r: 0, g: 0, b: 0, a: 0 });
    }
}

#[test]
fn palette_drops_input_beyond_255_entries() {
    let colors: Vec<u32> = (0..300).map(|i| i as u32).collect();
    let p = palette_from_colors(&colors);
    assert_eq!(p.len(), 256);
    assert_eq!(p[255], color_from_u32(254));
}

#[test]
fn palette_roundtrip_reproduces_every_channel() {
    let colors: Vec<u32> = (0..255u32)
        .map(|i| i | ((255 - i) << 8) | ((i ^ 0x5a) << 16) | (((i + 7) & 0xff) << 24))
        .collect();
    let p = palette_from_colors(&colors);
    for i in 0..255usize {
        let c = colors[i];
        let m = p[i + 1];
        assert_eq!(m.r as u32, c & 0xff);
        assert_eq!(m.g as u32, (c >> 8) & 0xff);
        assert_eq!(m.b as u32, (c >> 16) & 0xff);
        assert_eq!(m.a as u32, (c >> 24) & 0xff);
        // The render side divides each byte by 255; the same division on
        // the decoded byte reproduces the normalized channel exactly.
        let expect_r = ((c & 0xff) as f32) / 255.0;
        assert_eq!(m.r as f32 / 255.0, expect_r);
    }
}

#[test]
fn grid_scatters_translated_voxels() {
    let voxels = vec![vx(2, -1, 10, 0), vx(4, 1, 11, 7)];
    let b = compute_bounds(&voxels).unwrap();
    let g = build_grid(&voxels, &b);
    assert_eq!(g.dims(), (3, 3, 2));
    assert_eq!(g.value_at(0, 0, 0), 1);
    assert_eq!(g.value_at(2, 2, 1), 8);
    for x in 0..3 {
        for y in 0..3 {
            for z in 0..2 {
                if (x, y, z) != (0, 0, 0) && (x, y, z) != (2, 2, 1) {
                    assert_eq!(g.value_at(x, y, z), 0);
                }
            }
        }
    }
}

#[test]
fn grid_volume_is_product_of_extents() {
    let voxels = vec![vx(-1, 0, 3, 0), vx(2, 1, 3, 0)];
    let b = compute_bounds(&voxels).unwrap();
    let g = build_grid(&voxels, &b);
    let (w, h, d) = g.dims();
    assert_eq!((w, h, d), (4, 2, 1));
    assert_eq!(w * h * d, 8);
}

#[test]
fn material_index_above_254_is_clamped() {
    let voxels = vec![vx(0, 0, 0, 255), vx(1, 0, 0, 254)];
    let b = compute_bounds(&voxels).unwrap();
    let g = build_grid(&voxels, &b);
    assert_eq!(g.value_at(0, 0, 0), 255);
    assert_eq!(g.value_at(1, 0, 0), 255);
}

#[test]
fn rebuild_from_identical_input_is_identical() {
    let voxels = vec![vx(0, 0, 0, 3), vx(2, 1, 0, 9), vx(2, 1, 0, 4)];
    let b = compute_bounds(&voxels).unwrap();
    let g1 = build_grid(&voxels, &b);
    let g2 = build_grid(&voxels, &b);
    assert_eq!(g1.dims(), g2.dims());
    let (w, h, d) = g1.dims();
    for x in 0..w {
        for y in 0..h {
            for z in 0..d {
                assert_eq!(g1.value_at(x, y, z), g2.value_at(x, y, z));
            }
        }
    }
}

#[test]
fn later_voxel_wins_at_same_cell() {
    let voxels = vec![vx(0, 0, 0, 3), vx(0, 0, 0, 9)];
    let b = compute_bounds(&voxels).unwrap();
    let g = build_grid(&voxels, &b);
    assert_eq!(g.value_at(0, 0, 0), 10);
}

#[test]
fn empty_model_gets_degenerate_grid() {
    let palette = palette_from_colors(&Vec::new());
    let m = build_model(&Vec::new(), &palette);
    assert_eq!(m.voxels.dims(), (1, 1, 1));
    assert_eq!(m.voxels.value_at(0, 0, 0), 0);
}

#[test]
fn oversized_model_is_refused_not_built() {
    let palette = palette_from_colors(&Vec::new());
    let voxels = vec![
        vx(i32::MIN, i32::MIN, i32::MIN, 0),
        vx(i32::MAX, i32::MAX, i32::MAX, 0),
    ];
    assert!(try_build_model(&voxels, &palette).is_none());
}

#[test]
fn small_model_is_built_by_checked_entry() {
    let palette = palette_from_colors(&Vec::new());
    let voxels = vec![vx(0, 0, 0, 2)];
    let m = try_build_model(&voxels, &palette).unwrap();
    assert_eq!(m.voxels.dims(), (1, 1, 1));
    assert_eq!(m.voxels.value_at(0, 0, 0), 3);
}

#[test]
fn scenario_two_voxels_diagonal() {
    let voxels = vec![vx(0, 0, 0, 0), vx(1, 1, 1, 1)];
    let colors = vec![0xffff_ffff_u32];
    let models = build_models(&vec![voxels], &colors);
    assert_eq!(models.len(), 1);
    let m = &models[0];
    assert_eq!(m.voxels.dims(), (2, 2, 2));
    assert_eq!(m.voxels.value_at(0, 0, 0), 1);
    assert_eq!(m.voxels.value_at(1, 1, 1), 2);
    for x in 0..2 {
        for y in 0..2 {
            for z in 0..2 {
                if (x, y, z) != (0, 0, 0) && (x, y, z) != (1, 1, 1) {
                    assert_eq!(m.voxels.value_at(x, y, z), 0);
                }
            }
        }
    }
    assert_eq!(m.palette[1], Material { r: 255, g: 255, b: 255, a: 255 });
}
