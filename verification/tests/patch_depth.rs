//! The patch mapper: which frames it keeps, its tiles, and the texture test.
use echo_li::core_types::{CameraIntrinsics, Pixel};
use echo_li::depth::patch_depth::geometry::smoothstep_argument;
use echo_li::depth::patch_depth::image_ops::bilinear_valid_image;
use echo_li::depth::patch_depth::lut::{UndistortLut, UndistortSample};
use echo_li::depth::patch_depth::image_ops::undistort_sample;
use echo_li::depth::patch_depth::mapper::{
    gather_seeds, select_keyframe, BaselineLimits, PatchDepthMapper, SeedQuery, StereoOutcome, StereoReference,
    UpdateOutcome,
};
use echo_li::depth::patch_depth::seeds::{median_seed_depth, SeedDepth};
use echo_li::depth::patch_depth::solve::{blend_margin, feathered_sides, patch_has_enough_structure, settle_before_solve, PatchEntry};
use echo_li::depth::patch_depth::tiled_bearing::{
    build_tiled_bearing_levels, build_tiled_bearing_tiles_for_level, PatchEdges, TiledBearingLevel, TiledBearingTile,
};
use echo_li::depth::patch_depth::{
    structure_tensor_passes, FrameProducts, PatchDepthCameraMode, PatchDepthError, PatchDepthSeedCoordinates,
    PatchDepthSettings, PatchDepthWarpMode, PatchEstimate, PatchStatus, StructureMeasure,
};
use echo_li::depth::patch_depth::fuse::{assemble_output, PatchGrid, PixelSum};
use echo_li::ieee::{real32, real64, Real64};

fn r(x: f64) -> Real64 {
    real64(x.to_bits())
}

fn f(x: Real64) -> f64 {
    f64::from_bits(x.bits)
}

fn camera() -> CameraIntrinsics {
    CameraIntrinsics::new(r(40.0), r(40.0), r(16.0), r(16.0))
}

fn frame(id: u64, tx: f64, gray: Vec<u8>) -> FrameProducts {
    let one = r(1.0);
    let zero = r(0.0);
    FrameProducts {
        frame_id: id,
        stamp: r(id as f64),
        gray,
        width: 32,
        height: 32,
        pose_t_wc: [
            [one, zero, zero, r(tx)],
            [zero, one, zero, zero],
            [zero, zero, one, zero],
            [zero, zero, zero, one],
        ],
    }
}

fn textured_image() -> Vec<u8> {
    let mut data = vec![0u8; 32 * 32];
    for y in 0..32 {
        for x in 0..32 {
            data[y * 32 + x] = ((x * 5 + y * 3) % 255) as u8;
        }
    }
    data
}

fn limits(settings: &PatchDepthSettings, median: f64) -> BaselineLimits {
    BaselineLimits {
        min: r(f(settings.min_baseline_ratio) * median),
        max: r(f(settings.max_baseline_ratio) * median),
    }
}

// Offers frames that move along one axis; `kept` remembers where each kept frame stood.
struct Track {
    mapper: PatchDepthMapper,
    positions: Vec<(u64, f64)>,
}

impl Track {
    fn offer(&mut self, id: u64, tx: f64, median: f64, gray: Vec<u8>) -> UpdateOutcome {
        let references = self.mapper.reference_frames();
        let baselines: Vec<Real64> = references
            .iter()
            .map(|kept| {
                let at = self.positions.iter().find(|p| p.0 == *kept).unwrap().1;
                r((tx - at).abs())
            })
            .collect();
        let newest = match baselines.last() {
            Some(b) => *b,
            None => r(0.0),
        };
        let bounds = limits(&self.mapper.settings(), median);
        self.positions.push((id, tx));
        self.mapper.update_with_priors(&frame(id, tx, gray), &baselines, newest, bounds)
    }
}

fn keyframe_scenario() {
    let settings = PatchDepthSettings::default();
    let mapper = PatchDepthMapper::new(camera(), 32, 32, settings).unwrap();
    let mut track = Track { mapper, positions: Vec::new() };
    let median = f(median_seed_depth(&[SeedDepth { rho: r(0.5), depth: r(2.0) }]).unwrap());
    let img = textured_image();

    assert!(!matches!(track.offer(0, 0.0, median, img.clone()), UpdateOutcome::Compare(_)));
    assert_eq!(track.mapper.keyframe_count(), 1);
    assert!(!matches!(track.offer(1, 0.001, median, img.clone()), UpdateOutcome::Compare(_)));
    assert_eq!(track.mapper.keyframe_count(), 2);
    assert!(matches!(track.offer(2, 0.02, median, img), UpdateOutcome::Compare(0)));
    assert_eq!(track.mapper.keyframe_count(), 2);
    assert_eq!(track.mapper.reference_frames(), vec![1, 2]);
}

#[test]
fn patch_depth_keyframe_buffer_uses_baseline_gate() {
    keyframe_scenario();
}

#[test]
fn tests_keyframe_buffer_uses_baseline_gate() {
    keyframe_scenario();
}

fn tiled_settings() -> PatchDepthSettings {
    PatchDepthSettings {
        camera_mode: PatchDepthCameraMode::TiledBearing,
        warp_mode: PatchDepthWarpMode::FastTranslation,
        patch_size: 4,
        patch_stride: 2,
        tiled_tile_size: 16,
        tiled_tile_overlap: 12,
        ..PatchDepthSettings::default()
    }
}

fn level(size: usize, index: usize, tile: usize, overlap: usize) -> TiledBearingLevel {
    TiledBearingLevel {
        level: index,
        width: size,
        height: size,
        tiles: build_tiled_bearing_tiles_for_level(size, size, index, tile, overlap),
    }
}

fn edges(u: f64, v: f64, half: usize) -> PatchEdges {
    let h = half as f64;
    PatchEdges { u_min: r(u - h), v_min: r(v - h), u_max: r(u + h), v_max: r(v + h) }
}

fn smoothstep(x: f64) -> f64 {
    let t = f(smoothstep_argument(r(x)));
    t * t * (3.0 - 2.0 * t)
}

fn blend_weight(settings: &PatchDepthSettings, tile: &TiledBearingTile, u: f64, v: f64, size: usize) -> f64 {
    let margin = blend_margin(settings) as f64;
    let sides = feathered_sides(tile, size, size);
    let mut w = 1.0;
    if sides.left {
        w *= smoothstep(u / margin);
    }
    if sides.right {
        w *= smoothstep(((tile.width - 1) as f64 - u) / margin);
    }
    if sides.top {
        w *= smoothstep(v / margin);
    }
    if sides.bottom {
        w *= smoothstep(((tile.height - 1) as f64 - v) / margin);
    }
    w
}

#[test]
fn tiled_bearing_fusion_feathers_internal_tile_edges() {
    let settings = tiled_settings();
    let mapper = PatchDepthMapper::new(camera(), 32, 32, settings).unwrap();
    let settings = mapper.settings();
    let layout = level(32, 0, settings.tiled_tile_size, settings.tiled_tile_overlap);
    let tile = layout
        .tiles
        .iter()
        .find(|tile| tile.x0 > 0 && tile.y0 > 0 && tile.x0 + tile.width < 32)
        .expect("test layout should contain an internal tile");

    let middle = 0.5 * (tile.height - 1) as f64;
    let center_w = blend_weight(&settings, tile, 0.5 * (tile.width - 1) as f64, middle, 32);
    let edge_w = blend_weight(&settings, tile, 0.0, middle, 32);

    assert!(center_w > 0.9);
    assert_eq!(edge_w, 0.0);
}

#[test]
fn tiled_bearing_requires_fast_translation_warp() {
    let settings = PatchDepthSettings {
        camera_mode: PatchDepthCameraMode::TiledBearing,
        warp_mode: PatchDepthWarpMode::Exact,
        ..PatchDepthSettings::default()
    };
    let err = match PatchDepthMapper::new(camera(), 32, 32, settings) {
        Ok(_) => panic!("tiled_bearing should reject exact warp mode"),
        Err(err) => err,
    };
    assert!(err.message().contains("requires warp_mode=fast_translation"));
}

#[test]
fn tiled_bearing_stereo_ref_initializes_tile_layout() {
    let settings = PatchDepthSettings {
        n_pyramid_levels: 2,
        patch_size: 8,
        patch_stride: 4,
        ..tiled_settings()
    };
    let mut mapper = PatchDepthMapper::new(camera(), 32, 32, settings).unwrap();
    assert!(!mapper.has_stereo_ref());

    assert_eq!(mapper.init_stereo_ref(), StereoReference::Tiled);

    assert!(mapper.has_stereo_ref());
    let used = mapper.settings();
    let levels =
        build_tiled_bearing_levels(32, 32, used.n_pyramid_levels, used.tiled_tile_size, used.tiled_tile_overlap);
    assert_eq!(levels.len(), 2);
    assert!(!levels[0].tiles.is_empty());
    assert!(!levels[1].tiles.is_empty());
}

#[test]
fn tiled_bearing_stereo_ref_update_uses_tile_path() {
    let settings = PatchDepthSettings { patch_size: 8, patch_stride: 4, ..tiled_settings() };
    let mut mapper = PatchDepthMapper::new(camera(), 32, 32, settings).unwrap();
    mapper.init_stereo_ref();
    let img = textured_image();
    let out = mapper.update_with_stereo_ref(
        PatchDepthSeedCoordinates::UndistortedPinhole,
        0,
        32,
        32,
        img.len(),
        r(0.0),
        r(0.0),
    );

    assert_eq!(out, StereoOutcome::Compare);
    assert_eq!(mapper.tiled_keyframe_count(), 1);
    assert_eq!(mapper.keyframe_count(), 0);
}

#[test]
fn tiled_bearing_tiles_cover_level() {
    let level = level(32, 0, 16, 8);
    assert_eq!(level.width, 32);
    assert_eq!(level.height, 32);
    assert!(!level.tiles.is_empty());

    let first = &level.tiles[0];
    assert!(first.contains_patch(edges(8.0, 8.0, 4)));

    let bottom_right = level
        .tiles
        .iter()
        .find(|tile| tile.x0 + tile.width == 32 && tile.y0 + tile.height == 32)
        .expect("tile layout should cover the bottom-right corner");
    assert!(bottom_right.contains_patch(edges(28.0, 28.0, 2)));
}

// The table of a tile whose samples read the level one for one.
fn tile_table(tile: &TiledBearingTile, size: usize) -> UndistortLut {
    let mut samples: Vec<Option<UndistortSample>> = Vec::new();
    for y in 0..tile.height {
        for x in 0..tile.width {
            let (u, v) = (r((tile.x0 + x) as f64), r((tile.y0 + y) as f64));
            samples.push(undistort_sample(u, v, size, size).map(|at| UndistortSample {
                at,
                w00: real32(1.0f32.to_bits()),
                w10: real32(0),
                w01: real32(0),
                w11: real32(0),
            }));
        }
    }
    UndistortLut::from_options_with_source(&samples, tile.width, tile.height, size, size)
}

fn remap(lut: &UndistortLut, raw: &[f32], pixels: usize) -> Vec<f32> {
    (0..pixels)
        .map(|i| match lut.entry(i) {
            Some(e) => {
                let w = |b: echo_li::ieee::Real32| f32::from_bits(b.bits);
                w(e.w00) * raw[e.idx00 as usize]
                    + w(e.w10) * raw[e.idx10 as usize]
                    + w(e.w01) * raw[e.idx01 as usize]
                    + w(e.w11) * raw[e.idx11 as usize]
            }
            None => 0.0,
        })
        .collect()
}

#[test]
fn tiled_bearing_lut_remaps_from_full_level_into_tile_image() {
    let level = level(32, 0, 16, 8);
    let tile = &level.tiles[0];
    let raw: Vec<f32> = (0..32 * 32).map(|i| (i % 251) as f32).collect();

    let remapped = remap(&tile_table(tile, 32), &raw, tile.width * tile.height);
    assert_eq!(remapped.len(), tile.width * tile.height);
    assert!(remapped.iter().any(|v| *v > 0.0));
    assert_eq!(remapped[0], 0.0);
    assert_eq!(remapped[tile.width + 1], 33.0);
}

#[test]
fn tiled_bearing_frame_levels_remap_each_tile() {
    let layout = level(32, 0, 16, 8);
    let raw: Vec<f32> = (0..32 * 32).map(|i| (i % 251) as f32).collect();
    let tables: Vec<UndistortLut> = layout.tiles.iter().map(|tile| tile_table(tile, 32)).collect();

    assert_eq!(tables.len(), layout.tiles.len());
    for (table, tile) in tables.iter().zip(&layout.tiles) {
        let image = remap(table, &raw, tile.width * tile.height);
        assert_eq!(image.len(), tile.width * tile.height);
        let valid = table.valid_image();
        assert_eq!(valid.width, tile.width);
        assert_eq!(valid.height, tile.height);
    }

    let valid = bilinear_valid_image(&tables[0].valid_image());
    assert_eq!(valid.width, layout.tiles[0].width);
    assert_eq!(valid.height, layout.tiles[0].height);
}

#[test]
fn tiled_bearing_patch_and_seed_overlap_is_deterministic() {
    let level = level(32, 0, 16, 8);
    let settings = PatchDepthSettings { patch_size: 4, patch_stride: 2, ..PatchDepthSettings::default() };
    let half = settings.patch_size / 2;

    let mut total_centers = 0usize;
    let mut unique_centers = std::collections::HashSet::new();
    for tile_idx in 0..level.tiles.len() {
        let tile = &level.tiles[tile_idx];
        for center in level.patch_centers_in_tile(tile_idx, &settings) {
            total_centers += 1;
            unique_centers.insert((center.u, center.v));
            assert!(tile.contains_patch(edges(center.u as f64, center.v as f64, half)));
            assert!(tile.contains_center(center, half));
        }
    }
    assert!(!unique_centers.is_empty());
    assert!(
        total_centers > unique_centers.len(),
        "overlap should solve some patch centers in multiple tiles"
    );

    let points = [Pixel { u: r(8.0), v: r(8.0) }, Pixel { u: r(28.0), v: r(28.0) }];
    let around = [edges(8.0, 8.0, half), edges(28.0, 28.0, half)];
    let assigned = level.assign_seeds(&points, &around);
    assert!(assigned.iter().map(Vec::len).sum::<usize>() >= points.len());
    for (tile_idx, tile_seeds) in assigned.iter().enumerate() {
        let tile = &level.tiles[tile_idx];
        for seed in tile_seeds {
            let u = f(points[*seed].u) - tile.x0 as f64;
            let v = f(points[*seed].v) - tile.y0 as f64;
            assert!(u >= 0.0 && u < tile.width as f64);
            assert!(v >= 0.0 && v < tile.height as f64);
        }
    }
}

fn passes(gxx: f64, gxy: f64, gyy: f64, min_eigen: f64, max_condition: f64, epipolar: Option<(f64, f64)>) -> bool {
    let trace = gxx + gyy;
    let discr = ((gxx - gyy) * (gxx - gyy) + 4.0 * gxy * gxy).sqrt();
    let lambda_min = 0.5 * (trace - discr);
    let lambda_max = 0.5 * (trace + discr);
    let measure = StructureMeasure {
        lambda_min: r(lambda_min),
        condition: r(lambda_max / lambda_min),
        epipolar_curvature: epipolar.map(|(ex, ey)| r(gxx * ex * ex + 2.0 * gxy * ex * ey + gyy * ey * ey)),
    };
    structure_tensor_passes(measure, r(min_eigen), r(max_condition))
}

#[test]
fn structure_tensor_both_disabled_always_passes() {
    assert!(passes(0.0, 0.0, 0.0, 0.0, 0.0, None));
    assert!(passes(4.0, 0.0, 0.0, 0.0, 0.0, None));
}

#[test]
fn structure_tensor_min_eigen_rejects_edge_patch() {
    assert!(!passes(4.0, 0.0, 0.0, 1.0, 0.0, None));
}

#[test]
fn structure_tensor_min_eigen_accepts_corner_patch() {
    assert!(passes(2.0, 0.0, 2.0, 1.0, 0.0, None));
}

#[test]
fn structure_tensor_min_eigen_boundary_is_inclusive() {
    assert!(passes(3.0, 1.0, 3.0, 2.0, 0.0, None));
    assert!(!passes(3.0, 1.0, 3.0, 2.01, 0.0, None));
}

#[test]
fn structure_tensor_condition_rejects_anisotropic_patch() {
    assert!(!passes(5.0, 0.0, 1.0, 0.0, 3.0, None));
}

#[test]
fn structure_tensor_condition_accepts_isotropic_patch() {
    assert!(passes(3.0, 1.0, 3.0, 0.0, 3.0, None));
}

#[test]
fn structure_tensor_degenerate_gradient_fails_condition_check() {
    assert!(!passes(0.0, 0.0, 0.0, 0.0, 1.0, None));
}

#[test]
fn structure_tensor_both_active_passes_both_gates() {
    assert!(passes(3.0, 1.0, 3.0, 1.5, 3.0, None));
}

#[test]
fn structure_tensor_both_active_fails_condition_despite_min_eigen_ok() {
    assert!(!passes(5.0, 0.0, 1.0, 0.5, 3.0, None));
}

#[test]
fn structure_tensor_epipolar_accepts_edge_perpendicular_to_epi_line() {
    assert!(passes(4.0, 0.0, 0.0, 1.0, 0.0, Some((1.0, 0.0))));
}

#[test]
fn structure_tensor_epipolar_rejects_edge_parallel_to_epi_line() {
    assert!(!passes(4.0, 0.0, 0.0, 1.0, 0.0, Some((0.0, 1.0))));
}

#[test]
fn structure_tensor_epipolar_diagonal_edge() {
    let e = 1.0_f64 / 2.0_f64.sqrt();
    assert!(passes(2.0, 2.0, 2.0, 1.0, 0.0, Some((e, e))));
}

#[test]
fn structure_tensor_epipolar_skips_condition_check_for_pure_edge() {
    assert!(passes(4.0, 0.0, 0.0, 0.5, 2.0, Some((1.0, 0.0))));
}

// No patch has the texture asked for, so every estimate is refused before it is solved
// and nothing is fused.
#[test]
fn structure_tensor_min_eigen_active_suppresses_all_depth_output() {
    let settings = PatchDepthSettings {
        min_structure_eigen: r(1e6),
        min_photo_curvature: r(0.0),
        max_photo_residual: r(255.0),
        ..PatchDepthSettings::default()
    };
    let mut grid = PatchGrid::new(32, 32, &settings);
    for center in echo_li::depth::patch_depth::fuse::patch_centers(32, 32, &settings) {
        let measure = StructureMeasure { lambda_min: r(60.0), condition: r(2.0), epipolar_curvature: None };
        let entry = PatchEntry {
            has_seeds: true,
            has_direction: true,
            has_structure: patch_has_enough_structure(&settings, Some(measure)),
            eta_init: r(0.693),
        };
        let settled = settle_before_solve(&entry).unwrap();
        assert_eq!(settled.status, PatchStatus::Rejected);
        grid.set(center.u, center.v, settled);
    }
    let mut sums: Vec<PixelSum> = Vec::new();
    for y in 0..32 {
        for x in 0..32 {
            let listed = grid.contributors(x, y);
            assert!(listed.is_empty());
            sums.push(PixelSum {
                weight: real32(0),
                mean: real32(0),
                variance: real32(0),
                status: grid.best_status(&listed),
            });
        }
    }
    let out = assemble_output(32, 32, &sums, true);
    assert!(!out.status.data.contains(&PatchStatus::PhotoRefined));
    assert!(!out.status.data.contains(&PatchStatus::SeedOnly));
    assert!(out.status.data.iter().all(|s| *s == PatchStatus::Unknown));
}

#[test]
fn each_invalid_setting_has_its_error() {
    let good = PatchDepthSettings::default();
    let check = |settings: PatchDepthSettings, width: usize, height: usize| {
        PatchDepthMapper::new(camera(), width, height, settings).err()
    };
    assert_eq!(check(good, 32, 32), None);
    assert_eq!(check(good, 0, 32), Some(PatchDepthError::EmptyImage));
    assert_eq!(check(good, 32, 0), Some(PatchDepthError::EmptyImage));
    assert_eq!(
        check(PatchDepthSettings { scale: r(0.0), ..good }, 32, 32),
        Some(PatchDepthError::ScaleOutOfRange)
    );
    assert_eq!(
        check(PatchDepthSettings { n_pyramid_levels: 0, ..good }, 32, 32),
        Some(PatchDepthError::NoPyramidLevels)
    );
    assert_eq!(
        check(PatchDepthSettings { warp_mode: PatchDepthWarpMode::Exact, ..tiled_settings() }, 32, 32),
        Some(PatchDepthError::TiledNeedsFastTranslation)
    );
    assert_eq!(
        check(PatchDepthSettings { tiled_tile_overlap: 1, ..tiled_settings() }, 32, 32),
        Some(PatchDepthError::TiledNeedsOverlap)
    );
}

#[test]
fn a_frame_of_another_size_changes_nothing() {
    let mut mapper = PatchDepthMapper::new(camera(), 32, 32, PatchDepthSettings::default()).unwrap();
    let bounds = limits(&mapper.settings(), 2.0);
    let small = FrameProducts { width: 16, ..frame(0, 0.0, textured_image()) };
    assert_eq!(mapper.update_with_priors(&small, &[], r(0.0), bounds), UpdateOutcome::Refused);
    let torn = frame(0, 0.0, vec![0u8; 5]);
    assert_eq!(mapper.update_with_priors(&torn, &[], r(0.0), bounds), UpdateOutcome::Refused);
    assert_eq!(mapper.keyframe_count(), 0);
    let wrong = mapper.update(
        PatchDepthSeedCoordinates::UndistortedPinhole,
        &frame(0, 0.0, textured_image()),
        &[],
        r(0.0),
        bounds,
    );
    assert_eq!(wrong, UpdateOutcome::Refused);
    assert_eq!(mapper.expected_seed_coordinates(), PatchDepthSeedCoordinates::RawDistorted);
}

#[test]
fn a_raw_mapper_has_no_second_camera() {
    let mut mapper = PatchDepthMapper::new(camera(), 32, 32, PatchDepthSettings::default()).unwrap();
    assert_eq!(mapper.init_stereo_ref(), StereoReference::Absent);
    assert!(!mapper.has_stereo_ref());
    let out = mapper.update_with_stereo_ref(
        PatchDepthSeedCoordinates::RawDistorted,
        0,
        32,
        32,
        32 * 32,
        r(0.0),
        r(0.0),
    );
    assert_eq!(out, StereoOutcome::Refused);
    let pinhole =
        PatchDepthMapper::new_undistorted_pinhole(camera(), 32, 32, PatchDepthSettings::default()).unwrap();
    assert_eq!(pinhole.camera_mode(), PatchDepthCameraMode::UndistortedPinhole);
    assert_eq!(pinhole.settings().camera_mode, PatchDepthCameraMode::UndistortedPinhole);
}

#[test]
fn the_longest_allowed_baseline_is_the_reference() {
    let bounds = BaselineLimits { min: r(0.1), max: r(1.0) };
    assert_eq!(select_keyframe(&[r(0.05), r(0.5), r(0.9), r(0.9), r(2.0)], bounds), Some(2));
    assert_eq!(select_keyframe(&[r(0.05), r(f64::NAN), r(2.0)], bounds), None);
    assert_eq!(select_keyframe(&[r(0.1)], bounds), Some(0));
}

#[test]
fn seeds_come_in_the_order_of_their_ids() {
    let settings = PatchDepthSettings::default();
    let query = |id: u64, depth: f64, eta_var: f64| SeedQuery {
        id,
        uv: Pixel { u: r(id as f64), v: r(0.0) },
        depth: r(depth),
        depth_var: r(0.1),
        eta: r(depth.ln()),
        eta_var: r(eta_var),
    };
    let queries = [query(9, 2.0, 0.1), query(4, 25.0, 0.1), query(2, 3.0, 0.1), query(7, 1.0, 0.0)];
    let seeds = gather_seeds(&queries, &settings);
    let order: Vec<f64> = seeds.iter().map(|s| f(s.uv.u)).collect();
    assert_eq!(order, vec![2.0, 9.0]);
}

#[test]
fn an_estimate_weighs_only_with_a_positive_weight() {
    assert_eq!(PatchEstimate::unknown().inv_var_weight(), None);
    assert_eq!(PatchEstimate::rejected(r(0.5)).inv_var_weight(), None);
    assert_eq!(PatchEstimate::photo_refined(r(0.5), r(3.0)).inv_var_weight(), Some(r(3.0)));
    assert_eq!(PatchEstimate::seed_only(r(0.5), r(0.0)).inv_var_weight(), None);
}

#[test]
fn the_better_status_wins_in_any_order() {
    let all = [PatchStatus::Unknown, PatchStatus::SeedOnly, PatchStatus::PhotoRefined, PatchStatus::Rejected];
    for a in all {
        for b in all {
            assert_eq!(a.merge(b), b.merge(a));
            for c in all {
                assert_eq!(a.merge(b).merge(c), a.merge(b.merge(c)));
            }
        }
    }
    assert_eq!(PatchStatus::Unknown.code(), 0);
    assert_eq!(PatchStatus::SeedOnly.code(), 1);
    assert_eq!(PatchStatus::PhotoRefined.code(), 2);
    assert_eq!(PatchStatus::Rejected.code(), 3);
}

#[test]
fn default_settings_are_the_documented_numbers() {
    let d = PatchDepthSettings::default();
    assert_eq!(d.camera_mode, PatchDepthCameraMode::RawDistorted);
    assert_eq!(d.warp_mode, PatchDepthWarpMode::Exact);
    assert_eq!((f(d.scale), d.patch_size, d.patch_stride), (1.0, 8, 4));
    assert_eq!((f(d.min_depth), f(d.max_depth)), (0.1, 20.0));
    assert_eq!((f(d.min_baseline_ratio), f(d.max_baseline_ratio)), (0.005, 0.3));
    assert_eq!((f(d.min_photo_curvature), f(d.max_photo_residual)), (1e-6, 20.0));
    assert_eq!((f(d.status_weight_photo), f(d.status_weight_seed)), (1.0, 0.6));
    assert_eq!((d.tiled_tile_size, d.tiled_tile_overlap), (96, 16));
    assert_eq!((f(d.min_structure_eigen), f(d.max_structure_condition)), (0.0, 0.0));
    assert_eq!((d.n_pyramid_levels, f(d.var_floor)), (1, 1e-6));
}

#[test]
fn a_pyramid_has_tiles_on_every_level() {
    let levels = build_tiled_bearing_levels(33, 20, 3, 16, 12);
    let sizes: Vec<(usize, usize, usize)> = levels.iter().map(|l| (l.level, l.width, l.height)).collect();
    assert_eq!(sizes, vec![(0, 33, 20), (1, 16, 10), (2, 8, 5)]);
    for l in &levels {
        assert_eq!(l.tiles, build_tiled_bearing_tiles_for_level(l.width, l.height, l.level, 16, 12));
    }
    assert!(build_tiled_bearing_levels(33, 20, 0, 16, 12).is_empty());
}

#[test]
fn a_mode_leaves_the_frames_of_the_other_alone() {
    let bounds = BaselineLimits { min: r(0.0), max: r(9.0) };
    let mut raw = PatchDepthMapper::new(camera(), 32, 32, PatchDepthSettings::default()).unwrap();
    for id in 0..3 {
        let baselines = vec![r(1.0); raw.reference_frames().len()];
        raw.update_with_priors(&frame(id, 0.0, textured_image()), &baselines, r(1.0), bounds);
    }
    assert_eq!((raw.keyframe_count(), raw.tiled_keyframe_count()), (2, 0));
    let settings = PatchDepthSettings { patch_size: 8, patch_stride: 4, ..tiled_settings() };
    let mut tiled = PatchDepthMapper::new(camera(), 32, 32, settings).unwrap();
    for id in 0..3 {
        let baselines = vec![r(1.0); tiled.reference_frames().len()];
        tiled.update_with_priors(&frame(id, 0.0, textured_image()), &baselines, r(1.0), bounds);
    }
    assert_eq!((tiled.keyframe_count(), tiled.tiled_keyframe_count()), (0, 2));
}
