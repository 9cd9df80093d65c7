//! The parts of the patch mapper: masks, grids, seeds, comparisons and solves.
use echo_li::depth::patch_depth::cells::FuseAccumulator;
use echo_li::depth::patch_depth::fuse::{
    assemble_output, has_photo_weight, patch_centers, photo_weight_applies, PatchCenter, PatchGrid, PixelSum,
};
use echo_li::depth::patch_depth::geometry::{
    bearing_at_original, can_be_scaled, has_pixel, has_tile_pixel, is_before, normalize_or_fallback, oriented, pixel_model,
    places_point, PixelModel,
};
use echo_li::depth::patch_depth::image_ops::{
    bilinear_footprint, bilinear_patch_footprint, bilinear_valid_image, build_bilinear_valid_pyramid,
    build_dyadic_mask_pyramid, build_mask_pyramid, clamped_footprint, dyadic_scale_offset, gradient_neighbours, level_size,
    mask_bilinear_footprint_valid, mask_from_bytes, mask_pyramid_from, mask_pyrdown, mask_pyrdown_erode,
    mask_pyrdown_footprint_valid, mask_pyrdown_from_eroded, sample_nearest, sample_valid_nearest, scaled_mask,
    valid_bilinear_footprint, FootprintIndices, Mask,
};
use echo_li::depth::patch_depth::lut::{UndistortLut, UndistortSample};
use echo_li::depth::patch_depth::residual::{
    exact_pair, has_constant_variance, is_affine_vector_sized, is_vector_sized, mean_divisor, patch_pairs, raw_pair,
    robust_choice, translated_patch_footprint, warp_variance, PixelPair,
};
use echo_li::depth::patch_depth::seeds::{
    median_seed_depth, nearby_seed_weights, NearbySeed, NearbySeeds, SeedCandidate, SeedDepth, SeedGrid, SeedPosition,
};
use echo_li::depth::patch_depth::solve::{
    patch_pixels, place_patch_tile, search_initial_eta, settle_without_map, solve_one_patch_dispatch, tile_contributes, tried_candidates,
    uses_fast_translation, EtaLimits, PatchSolve, PatchSolver, PatchVerdict, SearchCandidate, SolveStep, TileSquare,
};
use echo_li::core_types::Pixel;
use echo_li::depth::patch_depth::tiled_bearing::{
    build_tiled_bearing_tiles_for_level, PatchEdges, TiledBearingLevel,
};
use echo_li::depth::patch_depth::{
    PatchDepthCameraMode, PatchDepthSeedCoordinates, PatchDepthSettings, PatchDepthWarpMode, PatchEstimate,
    PatchStatus,
};
use echo_li::ieee::{real32, real64, Real32, Real64};

fn r(x: f64) -> Real64 {
    real64(x.to_bits())
}

fn s(x: f32) -> Real32 {
    real32(x.to_bits())
}

fn f(x: Real64) -> f64 {
    f64::from_bits(x.bits)
}

fn g(x: Real32) -> f32 {
    f32::from_bits(x.bits)
}

// The bearings of a pinhole at the pixels of an image, interpolated between four of them.
fn interpolated_bearing(u: f64, v: f64) -> [f64; 3] {
    let table: Vec<[f64; 3]> = (0..32 * 32)
        .map(|i| [((i % 32) as f64 - 16.0) / 40.0, ((i / 32) as f64 - 16.0) / 40.0, 1.0])
        .collect();
    let at = bearing_at_original(32, 32, r(u), r(v)).unwrap();
    let (a, b) = (u - u.floor(), v - v.floor());
    let w = [(1.0 - a) * (1.0 - b), a * (1.0 - b), (1.0 - a) * b, a * b];
    let mut out = [0.0; 3];
    for k in 0..4 {
        for c in 0..3 {
            out[c] += w[k] * table[at[k]][c];
        }
    }
    out
}

fn bearing_scenario() {
    let bearing = interpolated_bearing(16.5, 16.25);
    assert!((bearing[0] - 0.5 / 40.0).abs() < 1e-12);
    assert!((bearing[1] - 0.25 / 40.0).abs() < 1e-12);
    assert!((bearing[2] - 1.0).abs() < 1e-12);
}

#[test]
fn patch_depth_raw_bearing_lut_interpolates_fractional_pixels() {
    bearing_scenario();
}

#[test]
fn tests_raw_bearing_lut_interpolates_fractional_pixels() {
    bearing_scenario();
}

#[test]
fn pixels_at_the_far_edge_have_no_bearing() {
    assert!(bearing_at_original(32, 32, r(31.0), r(5.0)).is_none());
    assert!(bearing_at_original(32, 32, r(-0.1), r(5.0)).is_none());
    assert_eq!(bearing_at_original(32, 32, r(0.0), r(0.0)), Some([0, 1, 32, 33]));
    assert!(bearing_at_original(1, 32, r(0.0), r(5.0)).is_none());
    assert!(bearing_at_original(32, 1, r(5.0), r(0.0)).is_none());
    assert!(has_pixel(r(0.5)) && !has_pixel(r(1e-6)) && has_pixel(r(f64::NAN)));
    assert!(places_point(r(0.1)) && !places_point(r(0.0)));
    assert_eq!(pixel_model(PatchDepthCameraMode::RawDistorted), PixelModel::Camera);
    assert_eq!(pixel_model(PatchDepthCameraMode::TiledBearing), PixelModel::Pinhole);
    let (a, b) = ([r(1.0), r(2.0), r(3.0)], [r(4.0), r(5.0), r(6.0)]);
    assert_eq!(normalize_or_fallback(r(1.0), a, b), a);
    assert_eq!(normalize_or_fallback(r(0.0), a, b), b);
    assert_eq!(oriented(a, r(0.5)), a);
    assert_eq!(oriented(a, r(-0.5)).map(f), [-1.0, -2.0, -3.0]);
}

fn full_mask(width: usize, height: usize) -> Mask {
    mask_from_bytes(&vec![255u8; width * height], width, height)
}

#[test]
fn erosion_takes_two_pixels_off_each_side() {
    let mask = full_mask(9, 8);
    let eroded = mask_pyrdown_erode(&mask);
    for y in 0..8 {
        for x in 0..9 {
            let inside = (2..7).contains(&x) && (2..6).contains(&y);
            assert_eq!(eroded.is_set(x, y), inside);
            assert_eq!(mask_pyrdown_footprint_valid(&mask, x, y), inside);
        }
    }
    let next = mask_pyrdown(&mask);
    assert_eq!((next.width, next.height), (4, 4));
    assert_eq!(next.data, mask_pyrdown_from_eroded(&eroded).data);
    assert!(next.is_set(1, 1) && next.is_set(3, 2) && !next.is_set(0, 1) && !next.is_set(3, 3));
}

#[test]
fn a_hole_in_a_mask_grows_with_each_level() {
    let mut bytes = vec![1u8; 40 * 40];
    bytes[20 * 40 + 20] = 0;
    let base = mask_from_bytes(&bytes, 40, 40);
    let pyramid = mask_pyramid_from(base, 3);
    assert_eq!(pyramid.len(), 3);
    assert_eq!((pyramid[2].width, pyramid[2].height), (10, 10));
    assert!(!pyramid[1].is_set(10, 10) && !pyramid[1].is_set(9, 10) && pyramid[1].is_set(8, 10));
    let skipped = build_dyadic_mask_pyramid(&bytes, 40, 40, 1, 2);
    assert_eq!(skipped.len(), 2);
    assert_eq!(skipped[0].data, pyramid[1].data);
    let valid = build_bilinear_valid_pyramid(&pyramid);
    assert_eq!(valid.len(), 3);
    assert!(!valid[0].is_set(19, 19) && !valid[0].is_set(39, 5) && valid[0].is_set(0, 0));
    assert_eq!(bilinear_valid_image(&pyramid[0]).data, valid[0].data);
}

#[test]
fn footprints_end_before_the_last_pixel() {
    assert_eq!(bilinear_footprint(4, 3, r(2.9), r(1.5)), Some((2, 1)));
    assert_eq!(bilinear_footprint(4, 3, r(3.0), r(1.5)), None);
    assert_eq!(bilinear_footprint(4, 3, r(1.0), r(-0.5)), None);
    assert_eq!(bilinear_patch_footprint(10, 10, r(2.5), r(3.5), 4), Some((2, 3)));
    assert_eq!(bilinear_patch_footprint(10, 10, r(6.0), r(3.5), 4), None);
    assert_eq!(sample_nearest(4, 3, r(3.9), r(0.2)), Some((3, 0)));
    assert_eq!(sample_nearest(4, 3, r(4.0), r(0.2)), None);
    assert_eq!(sample_nearest(4, 3, r(-0.5), r(0.2)), Some((0, 0)));
    assert_eq!(sample_nearest(4, 3, r(-1.0), r(0.2)), None);
    assert_eq!(
        clamped_footprint(4, 3, r(3.5), r(2.0)),
        FootprintIndices { idx00: 11, idx10: 11, idx01: 11, idx11: 11 }
    );
    assert_eq!(
        clamped_footprint(4, 3, r(0.5), r(0.5)),
        FootprintIndices { idx00: 0, idx10: 1, idx01: 4, idx11: 5 }
    );
    assert_eq!(gradient_neighbours(0, 5), None);
    assert_eq!(gradient_neighbours(4, 5), None);
    assert_eq!(gradient_neighbours(2, 5), Some((1, 3)));
    assert_eq!(gradient_neighbours(1, 2), None);
}

#[test]
fn masks_are_asked_at_points() {
    let mut mask = full_mask(4, 3);
    mask.data[6] = 0;
    assert!(mask_bilinear_footprint_valid(&mask, r(0.5), r(0.5)));
    assert!(!mask_bilinear_footprint_valid(&mask, r(1.5), r(0.5)));
    assert!(!mask_bilinear_footprint_valid(&mask, r(3.0), r(0.5)));
    assert!(sample_valid_nearest(None, r(-9.0), r(0.0)));
    assert!(!sample_valid_nearest(Some(&mask), r(2.2), r(1.9)));
    assert!(sample_valid_nearest(Some(&mask), r(3.2), r(1.9)));
    assert!(!sample_valid_nearest(Some(&mask), r(4.0), r(1.9)));
    assert!(!valid_bilinear_footprint(Some(&mask), 2, 1));
    assert!(valid_bilinear_footprint(None, 2, 1));
    let half = scaled_mask(&mask, &[r(0.5), r(2.5)], &[r(0.5)]);
    assert_eq!((half.width, half.height), (2, 1));
    assert!(half.is_set(0, 0) && !half.is_set(1, 0));
}

#[test]
fn a_mask_pyramid_starts_at_the_working_scale() {
    let mut bytes = vec![9u8; 40 * 40];
    bytes[3 * 40 + 20] = 0;
    let halved = build_mask_pyramid(&bytes, 40, 40, Some(1), &[], &[], 2);
    let dyadic = build_dyadic_mask_pyramid(&bytes, 40, 40, 1, 2);
    assert_eq!(halved.len(), 2);
    for (a, b) in halved.iter().zip(&dyadic) {
        assert_eq!((a.width, a.height, &a.data), (b.width, b.height, &b.data));
    }
    let at: Vec<Real64> = (0..30).map(|i| r((i as f64 + 0.5) / 0.75 - 0.5)).collect();
    let scaled = build_mask_pyramid(&bytes, 40, 40, None, &at, &at, 2);
    assert_eq!(scaled.len(), 2);
    assert_eq!((scaled[0].width, scaled[0].height), (30, 30));
    assert_eq!((scaled[1].width, scaled[1].height), (15, 15));
    let base = scaled_mask(&mask_from_bytes(&bytes, 40, 40), &at, &at);
    assert_eq!(scaled[0].data, base.data);
    assert!(!scaled[0].is_set(15, 2) && scaled[0].is_set(15, 5));
    assert_eq!(scaled[1].data, mask_pyrdown(&base).data);
    assert_eq!(build_mask_pyramid(&bytes, 40, 40, None, &at, &at, 0).len(), 1);
}

#[test]
fn points_and_directions_must_be_far_enough() {
    assert!(is_before(r(2e-6)) && !is_before(r(1e-6)) && !is_before(r(-1.0)));
    assert!(!is_before(r(f64::NAN)) && has_pixel(r(f64::NAN)));
    assert!(has_tile_pixel(r(2e-9)) && !has_tile_pixel(r(1e-9)) && has_tile_pixel(r(f64::NAN)));
    assert!(can_be_scaled(r(2e-12)) && !can_be_scaled(r(1e-12)) && !can_be_scaled(r(f64::NAN)));
    assert!(tile_contributes(s(0.25)) && !tile_contributes(s(0.0)) && !tile_contributes(s(-0.0)));
}

#[test]
fn powers_of_one_half_are_recognised() {
    let distances = |scale: f64| {
        let mut d = [r(0.0); 9];
        for (k, x) in d.iter_mut().enumerate() {
            *x = r((scale - 0.5f64.powi(k as i32)).abs());
        }
        d
    };
    assert_eq!(dyadic_scale_offset(&distances(1.0)), Some(0));
    assert_eq!(dyadic_scale_offset(&distances(0.25)), Some(2));
    assert_eq!(dyadic_scale_offset(&distances(0.3)), None);
}

#[test]
fn an_unread_pixel_has_no_entry() {
    let at = FootprintIndices { idx00: 0, idx10: 1, idx01: 2, idx11: 3 };
    let sample = UndistortSample { at, w00: s(0.1), w10: s(0.2), w01: s(0.3), w11: s(0.4) };
    let lut = UndistortLut::from_options(&[Some(sample), None, None, Some(sample)], 2, 2);
    assert_eq!(lut.entry(0).map(|e| (e.idx11, g(e.w01))), Some((3, 0.3)));
    assert_eq!(lut.entry(1), None);
    assert_eq!(lut.valid_image().data, vec![1, 0, 0, 1]);
}

fn small_patches() -> PatchDepthSettings {
    PatchDepthSettings { patch_size: 4, patch_stride: 2, ..PatchDepthSettings::default() }
}

#[test]
fn patches_fill_the_image_in_strides() {
    let settings = small_patches();
    let centers = patch_centers(9, 7, &settings);
    assert_eq!(centers.len(), 3 * 2);
    assert_eq!(centers[0], PatchCenter { u: 2, v: 2 });
    assert_eq!(centers[2], PatchCenter { u: 6, v: 2 });
    assert_eq!(centers[5], PatchCenter { u: 6, v: 4 });
    assert!(patch_centers(4, 7, &settings).is_empty());
}

#[test]
fn a_pixel_gathers_the_patches_over_it() {
    let settings = small_patches();
    let mut grid = PatchGrid::new(9, 7, &settings);
    assert_eq!((grid.n_u(), grid.n_v()), (3, 2));
    assert!(grid.contributors(3, 3).is_empty());
    for center in patch_centers(9, 7, &settings) {
        grid.set(center.u, center.v, PatchEstimate::seed_only(r(0.5), r(1.0)));
    }
    grid.set(4, 2, PatchEstimate::photo_refined(r(0.7), r(2.0)));
    assert_eq!(f(grid.get(1, 0).eta), 0.7);
    assert_eq!(grid.contributors(3, 3), vec![0, 1, 3, 4]);
    assert_eq!(grid.looked_up_contributors(3, 3), vec![4]);
    assert_eq!(grid.row_contributors(3, 3), vec![3, 4]);
    assert_eq!(grid.overlap_u(3), (1, 1));
    assert_eq!(grid.overlap_v(2), (0, 1));
    assert_eq!(grid.best_status(&vec![0, 1]), PatchStatus::PhotoRefined);
    assert_eq!(grid.best_status(&vec![0]), PatchStatus::SeedOnly);
    assert_eq!(grid.best_status(&vec![]), PatchStatus::Unknown);
}

#[test]
fn a_pixel_without_weight_is_not_a_number() {
    let sums = [
        PixelSum { weight: s(2.0), mean: s(0.5), variance: s(0.1), status: PatchStatus::SeedOnly },
        PixelSum { weight: s(0.0), mean: s(0.5), variance: s(0.1), status: PatchStatus::SeedOnly },
    ];
    let strict = assemble_output(2, 1, &sums, true);
    assert_eq!((g(strict.eta.data[0]), g(strict.eta_var.data[0])), (0.5, 0.1));
    assert!(g(strict.eta.data[1]).is_nan() && g(strict.eta_var.data[1]).is_infinite());
    assert_eq!(strict.status.data, vec![PatchStatus::SeedOnly, PatchStatus::Unknown]);
    let loose = assemble_output(2, 1, &sums, false);
    assert_eq!(loose.status.data, vec![PatchStatus::SeedOnly, PatchStatus::SeedOnly]);
}

#[test]
fn the_reference_is_compared_inside_it_only() {
    let applies = |u: f32, v: f32, z: Option<f32>, valid: bool| {
        photo_weight_applies(s(u), s(v), z.map(s), s(31.0), s(31.0), valid)
    };
    assert!(applies(0.0, 30.9, Some(0.5), true));
    assert!(applies(0.0, 30.9, None, true));
    assert!(!applies(31.0, 0.0, Some(0.5), true));
    assert!(!applies(-0.1, 0.0, Some(0.5), true));
    assert!(!applies(0.0, 0.0, Some(1e-6), true));
    assert!(!applies(0.0, 0.0, Some(0.5), false));
    assert!(!applies(f32::NAN, 0.0, Some(0.5), true));
}

#[test]
fn cells_hold_the_best_of_their_patches() {
    let mut cells = FuseAccumulator::new(10, 6, 4);
    assert_eq!(cells.add_patch(r(1.0), r(1.0), PatchStatus::SeedOnly), Some(0));
    assert_eq!(cells.add_patch(r(2.0), r(3.0), PatchStatus::PhotoRefined), Some(0));
    assert_eq!(cells.add_patch(r(9.5), r(5.0), PatchStatus::SeedOnly), Some(1));
    assert_eq!(cells.add_patch(r(5.0), r(1.0), PatchStatus::Rejected), None);
    assert_eq!(cells.add_patch(r(5.0), r(1.0), PatchStatus::Unknown), None);
    let out = cells.finish(&[r(1.0), r(0.0)], &[s(0.5), s(0.5)], &[s(0.1), s(0.1)]);
    assert_eq!((out.eta.width, out.eta.height), (2, 1));
    assert_eq!(g(out.eta.data[0]), 0.5);
    assert!(g(out.eta.data[1]).is_nan());
    assert_eq!(out.status.data, vec![PatchStatus::PhotoRefined, PatchStatus::SeedOnly]);
}

#[test]
fn a_cell_with_any_weight_keeps_its_depth() {
    let cells = FuseAccumulator::new(12, 4, 4);
    let out = cells.finish(&[r(1e-60), r(-1.0), r(f64::NAN)], &[s(0.5); 3], &[s(0.1); 3]);
    assert_eq!((g(out.eta.data[0]), g(out.eta_var.data[0])), (0.5, 0.1));
    assert!(g(out.eta.data[1]).is_nan() && g(out.eta.data[2]).is_nan());
    assert_eq!((g(out.eta_var.data[1]), g(out.eta_var.data[2])), (f32::INFINITY, f32::INFINITY));
    assert_eq!(out.status.data, vec![PatchStatus::Unknown; 3]);
}

#[test]
fn seeds_are_found_by_their_cells() {
    let at = |u: f64, v: f64| SeedPosition { u: r(u), v: r(v) };
    let grid = SeedGrid::new(&[at(0.5, 0.5), at(2.5, 1.5), at(0.1, 0.9), at(9.0, 9.0)], 3, 2);
    assert_eq!(grid.window(r(0.0), r(0.0), r(0.0), r(0.0)), vec![0, 2]);
    assert_eq!(grid.window(r(2.0), r(2.0), r(1.0), r(1.0)), vec![1, 3]);
    let all = grid.window(r(0.0), r(2.0), r(0.0), r(1.0));
    assert_eq!(all, vec![0, 2, 1, 3]);
}

#[test]
fn seeds_beyond_the_radius_are_left_out() {
    let candidate = |idx: usize, d: f64| SeedCandidate {
        idx,
        dist_sq: r(d),
        w_spatial: r(0.5),
        precision: r(2.0),
    };
    let near = nearby_seed_weights(&[candidate(3, 1.0), candidate(5, 4.1), candidate(7, 4.0)], r(4.0));
    assert_eq!(near.len(), 2);
    assert_eq!((near.get(0).idx, near.get(1).idx), (3, 7));
    let many: Vec<SeedCandidate> = (0..100).map(|i| candidate(i, 0.0)).collect();
    assert_eq!(nearby_seed_weights(&many, r(1.0)).len(), 64);
    let mut list = NearbySeeds::new();
    assert!(list.is_empty());
    let seed = NearbySeed { idx: 1, w_spatial: r(1.0), precision: r(1.0) };
    for _ in 0..64 {
        assert!(list.push(seed));
    }
    assert!(!list.push(seed));
}

#[test]
fn the_median_is_the_upper_middle() {
    let seed = |rho: f64| SeedDepth { rho: r(rho), depth: r(1.0 / rho) };
    assert_eq!(median_seed_depth(&[]), None);
    assert_eq!(median_seed_depth(&[seed(-1.0)]), None);
    assert_eq!(median_seed_depth(&[seed(1.0), seed(0.5), seed(0.25)]).map(f), Some(2.0));
    assert_eq!(median_seed_depth(&[seed(1.0), seed(0.5), seed(-1.0)]).map(f), Some(2.0));
}

#[test]
fn a_shifted_patch_compares_what_lies_inside() {
    let patch = translated_patch_footprint(10, 10, r(2.5), r(3.5), r(-1.0), r(0.0), 1).unwrap();
    assert_eq!((patch.ref_x, patch.ref_y, patch.curr_x0, patch.curr_y0, patch.side), (2, 3, -1, 0, 2));
    let pairs = patch_pairs(&patch, 10, 10, None, 10, 10, None);
    assert_eq!(
        pairs,
        vec![
            PixelPair { curr_x: 0, curr_y: 0, ref_x: 3, ref_y: 3 },
            PixelPair { curr_x: 0, curr_y: 1, ref_x: 3, ref_y: 4 },
        ]
    );
    let mut mask = full_mask(10, 10);
    mask.data[33] = 0;
    let masked = patch_pairs(&patch, 10, 10, None, 10, 10, Some(&mask));
    assert_eq!(masked, pairs[1..].to_vec());
    assert!(translated_patch_footprint(10, 10, r(8.0), r(3.5), r(0.0), r(0.0), 1).is_none());
    assert!(!is_vector_sized(&patch, 10, 10));
    let square = translated_patch_footprint(20, 20, r(2.0), r(3.0), r(1.0), r(1.0), 4).unwrap();
    assert!(is_vector_sized(&square, 20, 20));
    assert_eq!(patch_pairs(&square, 20, 20, None, 20, 20, None).len(), 64);
    assert!(!is_vector_sized(&square, 8, 20));
    assert!(is_affine_vector_sized(8, 20, 20, true) && !is_affine_vector_sized(4, 20, 20, true));
}

#[test]
fn single_pixels_are_paired_inside_both_images() {
    assert_eq!(
        raw_pair(8, 8, r(1.5), r(2.5), r(3.5), r(4.5)),
        Some(PixelPair { curr_x: 1, curr_y: 2, ref_x: 3, ref_y: 4 })
    );
    assert_eq!(raw_pair(8, 8, r(1.5), r(2.5), r(7.0), r(4.5)), None);
    let pair = |pu: f64, pv: f64, warped: Option<(f64, f64)>, mask: Option<&Mask>| {
        exact_pair(8, 8, None, 8, 8, mask, r(pu), r(pv), warped.map(|(u, v)| (r(u), r(v))))
    };
    let expected = PixelPair { curr_x: 7, curr_y: 0, ref_x: 3, ref_y: 4 };
    assert_eq!(pair(7.9, 0.0, Some((3.5, 4.5)), None), Some(expected));
    assert_eq!(pair(7.9, 0.0, None, None), None);
    assert_eq!(pair(8.0, 0.0, Some((3.5, 4.5)), None), None);
    let mut mask = full_mask(8, 8);
    mask.data[4 * 8 + 3] = 0;
    assert_eq!(pair(7.9, 0.0, Some((3.5, 4.5)), Some(&mask)), None);
}

#[test]
fn small_choices_of_the_residual() {
    assert!(has_constant_variance(r(0.0)) && !has_constant_variance(r(1.0)));
    assert_eq!(f(warp_variance(true, r(0.1), r(1.0), r(0.5))), 0.5);
    assert_eq!(f(warp_variance(false, r(0.1), r(1.0), r(0.5))), 0.0);
    assert_eq!(f(warp_variance(true, r(0.0), r(1.0), r(0.5))), 0.0);
    assert_eq!(f(warp_variance(true, r(0.1), r(0.0), r(0.5))), 0.0);
    assert_eq!(f(robust_choice(r(5.0), r(5.0), r(1.0), r(2.0))), 1.0);
    assert_eq!(f(robust_choice(r(5.1), r(5.0), r(1.0), r(2.0))), 2.0);
    assert_eq!((mean_divisor(0), mean_divisor(7)), (1, 7));
}

#[test]
fn the_cheapest_candidate_starts_the_solve() {
    let candidate = |eta: f64, cost: f64, valid: usize| SearchCandidate { eta: r(eta), cost: r(cost), valid };
    let start = |list: &[SearchCandidate]| f(search_initial_eta(r(9.0), list));
    assert_eq!(start(&[candidate(1.0, 3.0, 4), candidate(2.0, 1.0, 4), candidate(3.0, 1.0, 4)]), 2.0);
    assert_eq!(start(&[candidate(1.0, 3.0, 0), candidate(2.0, f64::NAN, 4)]), 9.0);
    assert_eq!(start(&[candidate(1.0, 3.0, 4)]), 9.0);
}

#[test]
fn a_solve_runs_until_it_settles() {
    let limits = EtaLimits { low: r(-2.0), high: r(3.0) };
    let step = SolveStep {
        valid: 10,
        hess_total: r(2.0),
        hess_photo: r(1.5),
        mean_residual: r(3.0),
        eta_next: r(0.6),
        delta: r(0.1),
    };
    let mut solve = PatchSolve::new(r(0.5), r(0.4), limits, 5);
    assert!(solve.wants_round());
    solve.take(&step, Some(r(1e-3)));
    assert_eq!((f(solve.eta), f(solve.residual), f(solve.curvature), solve.rounds_left), (0.6, 3.0, 1.5, 4));
    solve.take(&SolveStep { delta: r(1e-4), ..step }, Some(r(1e-3)));
    assert!(!solve.wants_round());
    assert_eq!(solve.verdict(r(1.0), r(20.0)), PatchVerdict::PhotoRefined);
    assert_eq!(solve.verdict(r(1.0), r(2.0)), PatchVerdict::Rejected);
    assert_eq!(solve.verdict(r(9.0), r(2.0)), PatchVerdict::SeedOnly);
    assert_eq!(solve.verdict_without_rejection(r(1.0), r(2.0)), PatchVerdict::SeedOnly);
    assert_eq!(solve.verdict_without_rejection(r(1.0), r(20.0)), PatchVerdict::PhotoRefined);
    let refined = solve.estimate(PatchVerdict::PhotoRefined, r(8.0), r(2.0));
    assert_eq!((f(refined.eta), refined.status, f(refined.inv_var_w)), (0.6, PatchStatus::PhotoRefined, 8.0));
    let seeded = solve.estimate(PatchVerdict::SeedOnly, r(8.0), r(2.0));
    assert_eq!((f(seeded.eta), seeded.status, f(seeded.inv_var_w)), (0.4, PatchStatus::SeedOnly, 2.0));
    let rejected = solve.estimate(PatchVerdict::Rejected, r(8.0), r(2.0));
    assert_eq!((rejected.status, rejected.inv_var_weight()), (PatchStatus::Rejected, None));

    let mut unseen = PatchSolve::new(r(0.5), r(0.4), limits, 5);
    unseen.take(&SolveStep { valid: 0, ..step }, None);
    assert!(!unseen.wants_round());
    assert_eq!(f(unseen.eta), 0.5);
    assert_eq!(unseen.verdict_without_rejection(r(0.0), r(1e9)), PatchVerdict::SeedOnly);
    let mut flat = PatchSolve::new(r(0.5), r(0.4), limits, 5);
    flat.take(&SolveStep { hess_total: r(0.0), ..step }, None);
    assert!(!flat.wants_round());
    assert_eq!(f(flat.eta), 0.5);
}

#[test]
fn a_solved_range_stays_within_its_limits() {
    let limits = EtaLimits { low: r(-1.0), high: r(2.0) };
    assert_eq!(f(limits.limit(r(-7.0))), -1.0);
    assert_eq!(f(limits.limit(r(0.5))), 0.5);
    assert_eq!(f(limits.limit(r(f64::INFINITY))), 2.0);
    assert!(f(limits.limit(r(f64::NAN))).is_nan());
    let step = SolveStep {
        valid: 4,
        hess_total: r(2.0),
        hess_photo: r(1.5),
        mean_residual: r(3.0),
        eta_next: r(0.0),
        delta: r(1.0),
    };
    let mut solve = PatchSolve::new(limits.limit(r(0.4)), limits.limit(r(9.0)), limits, 4);
    for (to, at) in [(-5.0, -1.0), (8.0, 2.0), (1.5, 1.5)] {
        solve.take(&SolveStep { eta_next: r(to), ..step }, None);
        assert_eq!(f(solve.eta), at);
        assert_eq!(f(solve.estimate(PatchVerdict::PhotoRefined, r(1.0), r(1.0)).eta), at);
        assert_eq!(f(solve.estimate(PatchVerdict::Rejected, r(1.0), r(1.0)).eta), at);
        assert_eq!(f(solve.estimate(PatchVerdict::SeedOnly, r(1.0), r(1.0)).eta), 2.0);
    }
    solve.take(&SolveStep { eta_next: r(f64::NAN), ..step }, None);
    assert!(f(solve.eta).is_nan());
}

#[test]
fn a_patch_without_tile_or_map_keeps_its_seeds() {
    let seeded = Some(PatchEstimate::seed_only(r(0.7), r(2.0)));
    assert_eq!(settle_without_map(true, true, r(0.7), r(2.0)), None);
    assert_eq!(settle_without_map(false, true, r(0.7), r(2.0)), seeded);
    assert_eq!(settle_without_map(true, false, r(0.7), r(2.0)), seeded);
}

#[test]
fn levels_of_levels_are_levels() {
    for len in [0, 1, 2, 7, 37, 640] {
        for (a, b) in [(0, 0), (0, 3), (2, 0), (1, 1), (2, 3), (9, 9)] {
            assert_eq!(level_size(level_size(len, a), b), level_size(len, a + b));
        }
    }
}

#[test]
fn sizes_and_candidates_are_counted() {
    assert_eq!([0, 1, 2, 3, 4, 9].map(|level| level_size(37, level)), [37, 18, 9, 4, 2, 1]);
    assert_eq!((level_size(0, 0), level_size(0, 1), level_size(1, 70)), (0, 1, 1));
    assert_eq!([0, 1, 2, 5].map(tried_candidates), [0, 0, 2, 5]);
    assert!(has_photo_weight(PatchStatus::PhotoRefined));
    for status in [PatchStatus::Unknown, PatchStatus::SeedOnly, PatchStatus::Rejected] {
        assert!(!has_photo_weight(status));
    }
}

#[test]
fn each_mode_has_its_solver() {
    assert_eq!(solve_one_patch_dispatch(PatchDepthCameraMode::PerPatchBearing), PatchSolver::PerPatchBearing);
    assert_eq!(solve_one_patch_dispatch(PatchDepthCameraMode::RawDistorted), PatchSolver::Frame);
    let fast = PatchDepthSettings { warp_mode: PatchDepthWarpMode::FastTranslation, ..PatchDepthSettings::default() };
    assert!(uses_fast_translation(&fast, PatchDepthCameraMode::UndistortedPinhole));
    assert!(!uses_fast_translation(&fast, PatchDepthCameraMode::RawDistorted));
    assert!(!uses_fast_translation(&PatchDepthSettings::default(), PatchDepthCameraMode::UndistortedPinhole));
}

#[test]
fn a_square_is_moved_into_its_level() {
    let settings = PatchDepthSettings { patch_size: 4, tiled_tile_size: 16, ..PatchDepthSettings::default() };
    let place = |need: f64, cu: f64, cv: f64| place_patch_tile(&settings, r(need), r(cu), r(cv), 32, 32);
    assert_eq!(place(10.0, 16.0, 16.0), Some(TileSquare { x0: 11, y0: 11, side: 10 }));
    assert_eq!(place(1.0, 0.0, 31.0), Some(TileSquare { x0: 0, y0: 24, side: 8 }));
    assert_eq!(place(99.0, 16.0, 16.0), Some(TileSquare { x0: 8, y0: 8, side: 16 }));
    assert_eq!(place_patch_tile(&settings, r(10.0), r(0.0), r(0.0), 10, 32), None);
    assert_eq!(place(10.0, -8.0e18, 9.0e18), Some(TileSquare { x0: 0, y0: 22, side: 10 }));
    assert_eq!(place_patch_tile(&settings, r(10.0), r(-1e300), r(0.0), 10, 32), None);
}

#[test]
fn a_patch_at_the_border_is_cut_off() {
    let pixels: Vec<(usize, usize)> =
        patch_pixels(PatchCenter { u: 1, v: 9 }, 2, 10, 10).iter().map(|p| (p.x, p.y)).collect();
    assert_eq!(pixels, vec![(0, 7), (1, 7), (2, 7), (0, 8), (1, 8), (2, 8), (0, 9), (1, 9), (2, 9)]);
}

#[test]
fn tiles_cover_every_pixel_of_a_level() {
    for (lw, lh, size, overlap) in [(32, 32, 16, 8), (33, 17, 16, 12), (5, 40, 16, 0), (20, 20, 7, 99), (9, 9, 1, 0)] {
        let tiles = build_tiled_bearing_tiles_for_level(lw, lh, 0, size, overlap);
        for y in 0..lh {
            for x in 0..lw {
                let covered = tiles
                    .iter()
                    .any(|t| t.x0 <= x && x < t.x0 + t.width && t.y0 <= y && y < t.y0 + t.height);
                assert!(covered, "({}, {}) of {}x{}", x, y, lw, lh);
            }
        }
        assert!(tiles.iter().all(|t| t.x0 + t.width <= lw && t.y0 + t.height <= lh));
    }
}

#[test]
fn a_patch_belongs_to_the_first_tile_that_holds_it() {
    let tiles = build_tiled_bearing_tiles_for_level(24, 12, 0, 12, 4);
    let places: Vec<(usize, usize)> = tiles.iter().map(|t| (t.x0, t.width)).collect();
    assert_eq!(places, vec![(0, 12), (8, 12), (16, 8)]);
    let level = TiledBearingLevel { level: 0, width: 24, height: 12, tiles };
    let owner = |u: f64, v: f64, half: f64| {
        let edges = PatchEdges { u_min: r(u - half), v_min: r(v - half), u_max: r(u + half), v_max: r(v + half) };
        level.owning_tile_for_patch(Pixel { u: r(u), v: r(v) }, edges)
    };
    assert_eq!(owner(5.0, 6.0, 4.0), Some(0));
    // The patch does not fit into the first tile, though its centre lies in it.
    assert_eq!(owner(9.0, 6.0, 1.0), Some(0));
    assert_eq!(owner(11.0, 6.0, 2.0), Some(1));
    // No tile holds the patch: the first one that holds its centre.
    assert_eq!(owner(10.0, 6.0, 4.0), Some(0));
    assert_eq!(owner(1.0, 1.0, 4.0), Some(0));
    assert_eq!(owner(23.0, 11.0, 4.0), Some(2));
    assert_eq!(owner(24.0, 6.0, 4.0), None);
    assert_eq!(owner(f64::NAN, 6.0, 1.0), None);
}

#[test]
fn raw_modes_take_raw_seeds_and_need_no_tables() {
    let raw = [PatchDepthCameraMode::RawDistorted, PatchDepthCameraMode::PerPatchBearing];
    for mode in raw {
        assert_eq!(mode.seed_coordinates(), PatchDepthSeedCoordinates::RawDistorted);
        assert!(!mode.needs_undistortion());
    }
    let flat = [PatchDepthCameraMode::UndistortedPinhole, PatchDepthCameraMode::TiledBearing];
    for mode in flat {
        assert_eq!(mode.seed_coordinates(), PatchDepthSeedCoordinates::UndistortedPinhole);
        assert!(mode.needs_undistortion());
    }
}
