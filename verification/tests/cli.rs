//! The choices of the program: setup, order of events, priors, hashes and what is shown.
use echo_li::cli::hashing::{
    hash_depth_priors, hash_f64, hash_sparse_filter, hash_state, hash_u64, ByteOrder, DepthPrior, HashedLandmark,
    HashedState,
};
use echo_li::cli::priors::{
    common_ids, extend_priors, has_undistorted_pixel, motion_is_estimated, prior_choice, split_by_estimate,
    stereo_prior, PriorChoice,
};
use echo_li::cli::schedule::{interleave, is_passed_over, is_realigned, is_reported, next_event, NextEvent};
use echo_li::cli::setup::{
    build_camera_model, build_frontend, build_local_occupancy_map, build_sparse_filter, build_stereo_matcher,
    is_distorted, occupancy_requested, parse_detector, parse_equalisation, parse_lbp_policy, parse_sparse_chart,
    patch_depth_enabled, uses_pose_prior, CameraSetup, DetectorType, FrontendError, FrontendSettings, LbpPolicy, OccupancyChoice,
    Sparse3DChart, SparseChoice, StereoChoice,
};
use echo_li::cli::vis::{
    clip_image_point, color_knot, color_segment, depth_range_is_shown, deviation_is_shown, deviation_range_is_shown,
    occupancy_cells_for_vis, pack_color, patch_depth_status_counts, point_is_shown, rgb_for_vis, scale_position,
    shown_position, voxel_is_shown, GridCell, Rgb, ShownVoxel, StatusCounts,
};
use echo_li::config::{
    default_epipolar_max_reject_frac, default_epipolar_min_baseline, Equalisation, LocalOccupancyConfig, RudolfVConfig,
};
use echo_li::core_types::CameraIntrinsics;
use echo_li::depth::occupancy::{LocalOccupancyMap, LocalOccupancySettings, VoxelIndex};
use echo_li::depth::patch_depth::PatchStatus;
use echo_li::ieee::{real32, real64, Real32, Real64};
use std::collections::hash_map::DefaultHasher;
use std::collections::HashMap;
use std::hash::{Hash, Hasher};

fn r(x: f64) -> Real64 {
    real64(x.to_bits())
}

fn s(x: f32) -> Real32 {
    real32(x.to_bits())
}

fn f(x: Real64) -> f64 {
    f64::from_bits(x.bits)
}

fn prior(id: u64, range: f64, var: f64) -> DepthPrior {
    DepthPrior { id, range: r(range), range_var: r(var) }
}

fn native() -> ByteOrder {
    if 1u16.to_ne_bytes()[0] == 1 {
        ByteOrder::LowestFirst
    } else {
        ByteOrder::HighestFirst
    }
}

fn std_hash(words: &[u64]) -> u64 {
    let mut hasher = DefaultHasher::new();
    for word in words {
        word.hash(&mut hasher);
    }
    hasher.finish()
}

#[test]
fn words_are_hashed_as_the_standard_library_does() {
    let mut hasher = DefaultHasher::new();
    hash_u64(&mut hasher, native(), 0x0123_4567_89AB_CDEF);
    hash_f64(&mut hasher, native(), r(2.5));
    assert_eq!(hasher.finish(), std_hash(&[0x0123_4567_89AB_CDEF, 2.5f64.to_bits()]));
}

#[test]
fn words_are_hashed_byte_by_byte_in_either_order() {
    let hash = |order: ByteOrder| {
        let mut hasher = DefaultHasher::new();
        hash_u64(&mut hasher, order, 0x0123_4567_89AB_CDEF);
        hasher.finish()
    };
    let of_bytes = |bytes: [u8; 8]| {
        let mut hasher = DefaultHasher::new();
        hasher.write(&bytes);
        hasher.finish()
    };
    assert_eq!(hash(ByteOrder::LowestFirst), of_bytes(0x0123_4567_89AB_CDEFu64.to_le_bytes()));
    assert_eq!(hash(ByteOrder::HighestFirst), of_bytes(0x0123_4567_89AB_CDEFu64.to_be_bytes()));
    let a = [prior(3, 1.0, 0.1), prior(1, 2.0, 0.2)];
    let b = [a[1], a[0]];
    let order = ByteOrder::HighestFirst;
    assert_eq!(hash_depth_priors(order, &a), hash_depth_priors(order, &b));
    assert_ne!(hash_depth_priors(order, &a), hash_depth_priors(ByteOrder::LowestFirst, &a));
}

#[test]
fn the_hash_of_priors_ignores_their_order() {
    let a = [prior(3, 1.0, 0.1), prior(1, 2.0, 0.2), prior(2, 3.0, 0.3)];
    let b = [a[1], a[2], a[0]];
    assert_eq!(hash_depth_priors(native(), &a), hash_depth_priors(native(), &b));
    let words = [
        1,
        2.0f64.to_bits(),
        0.2f64.to_bits(),
        2,
        3.0f64.to_bits(),
        0.3f64.to_bits(),
        3,
        1.0f64.to_bits(),
        0.1f64.to_bits(),
    ];
    assert_eq!(hash_depth_priors(native(), &a), std_hash(&words));
    assert_ne!(hash_depth_priors(native(), &a), hash_depth_priors(native(), &a[..2]));
    assert_eq!(hash_sparse_filter(native(), Some(&a)), hash_depth_priors(native(), &a));
    assert_eq!(hash_sparse_filter(native(), None), std_hash(&[]));
    assert_eq!(hash_sparse_filter(native(), Some(&[])), std_hash(&[]));
}

#[test]
fn the_hash_of_a_state_covers_all_of_it() {
    let numbers: Vec<f64> = (0..16).map(|i| i as f64 * 0.5).collect();
    let n = |i: usize| r(numbers[i]);
    let state = HashedState {
        rotation: [n(0), n(1), n(2), n(3)],
        translation: [n(4), n(5), n(6)],
        velocity: [n(7), n(8), n(9)],
        input_bias: [n(10), n(11), n(12), n(13), n(14), n(15)],
        landmarks: vec![HashedLandmark { id: 4, x: r(1.0), y: r(2.0), z: r(3.0) }],
    };
    let mut words: Vec<u64> = numbers.iter().map(|x| x.to_bits()).collect();
    words.extend([4, 1.0f64.to_bits(), 2.0f64.to_bits(), 3.0f64.to_bits()]);
    assert_eq!(hash_state(native(), &state), std_hash(&words));
}

#[test]
fn charts_are_known_by_several_names() {
    for name in ["invdepth_additive3d", "invdepth-additive", "rho3d", "RHO", "Additive"] {
        assert_eq!(parse_sparse_chart(name), Sparse3DChart::InvDepthAdditive, "{}", name);
    }
    for name in ["invdepth", "InvDepth3d", "inverse-depth"] {
        assert_eq!(parse_sparse_chart(name), Sparse3DChart::InvDepth, "{}", name);
    }
    for name in ["polar", "polar3d", "", "anything"] {
        assert_eq!(parse_sparse_chart(name), Sparse3DChart::Polar, "{}", name);
    }
}

#[test]
fn the_sparse_filter_runs_where_asked_for() {
    assert_eq!(build_sparse_filter(None, false, "polar", 40), SparseChoice::Absent);
    assert_eq!(
        build_sparse_filter(None, true, "rho", 40),
        SparseChoice::Requested(Sparse3DChart::InvDepthAdditive, 300)
    );
    assert_eq!(
        build_sparse_filter(None, true, "polar", 500),
        SparseChoice::Requested(Sparse3DChart::Polar, 500)
    );
}

fn occupancy_config(enabled: bool) -> LocalOccupancyConfig {
    LocalOccupancyConfig {
        enabled,
        update_mode: None,
        resolution: Some(r(0.2)),
        width_cells: None,
        height_cells: None,
        sample_stride: None,
        min_range: None,
        max_range: None,
        max_eta_std: None,
        log_odds_hit: None,
        log_odds_miss: None,
        log_odds_min: None,
        log_odds_max: None,
        occupied_threshold: None,
        free_threshold: None,
        band_k: None,
        sigma_floor_factor: None,
        min_confidence_weight: None,
        min_obstacle_height: None,
        max_obstacle_height: None,
    }
}

#[test]
fn a_local_map_needs_depths() {
    let on = occupancy_config(true);
    let off = occupancy_config(false);
    assert!(occupancy_requested(false, Some(&on)));
    assert!(occupancy_requested(true, Some(&off)));
    assert!(!occupancy_requested(false, Some(&off)));
    assert!(!occupancy_requested(false, None));
    assert_eq!(build_local_occupancy_map(false, Some(&off), true), OccupancyChoice::Disabled);
    assert_eq!(build_local_occupancy_map(true, Some(&off), false), OccupancyChoice::NeedsPatchDepth);
    match build_local_occupancy_map(false, Some(&on), true) {
        OccupancyChoice::Enabled(settings) => {
            assert_eq!(f(settings.resolution), 0.2);
            assert_eq!(settings.width_cells, 160);
            assert!(settings.enabled);
        }
        _ => panic!("the map is asked for and has its depths"),
    }
    assert!(patch_depth_enabled(false, false, true, false));
    assert!(!patch_depth_enabled(true, true, true, true));
    assert!(!patch_depth_enabled(false, false, false, false));
}

#[test]
fn stereo_needs_a_second_camera() {
    assert_eq!(build_stereo_matcher(false, None, true), StereoChoice::Disabled);
    assert_eq!(build_stereo_matcher(false, Some(false), true), StereoChoice::Disabled);
    assert_eq!(build_stereo_matcher(true, Some(false), true), StereoChoice::Enabled);
    assert_eq!(build_stereo_matcher(false, Some(true), false), StereoChoice::NoSecondCamera);
}

#[test]
fn without_calibration_the_camera_is_the_default_one() {
    let camera = build_camera_model(None);
    assert_eq!(f(camera.intrinsics.fx), 458.65);
    assert_eq!(f(camera.intrinsics.fy), 457.3);
    assert_eq!(f(camera.intrinsics.cx), 367.2);
    assert_eq!(f(camera.intrinsics.cy), 248.3);
    assert_eq!((camera.width, camera.height), (752, 480));
    let own = CameraSetup {
        intrinsics: CameraIntrinsics::new(r(1.0), r(2.0), r(3.0), r(4.0)),
        width: 5,
        height: 6,
    };
    assert_eq!(build_camera_model(Some(own)), own);
    assert!(is_distorted(4));
    assert!(!is_distorted(3));
}

fn tracker_config() -> RudolfVConfig {
    RudolfVConfig {
        equalise_image_histogram: true,
        feature_dist: r(31.9),
        feature_search_threshold: r(1.0),
        fast_threshold: None,
        detector: None,
        shi_tomasi_threshold: None,
        shi_tomasi_block_size: None,
        histeq: None,
        clahe_tile_size: None,
        clahe_clip_limit: None,
        lbp_policy: None,
        klt_residual: false,
        enable_ransac: true,
        epipolar_gate_threshold: r(0.0),
        epipolar_refine: false,
        epipolar_min_baseline: default_epipolar_min_baseline(),
        epipolar_max_reject_frac: default_epipolar_max_reject_frac(),
        max_features: 77,
        max_level: 4,
    }
}

fn tracker_base() -> FrontendSettings {
    FrontendSettings {
        max_features: 1,
        klt_residual_enabled: true,
        enable_internal_ransac: false,
        epipolar_gate_threshold: r(9.0),
        epipolar_refine: true,
        epipolar_min_baseline: r(9.0),
        epipolar_max_reject_frac: r(9.0),
        pyramid_levels: 1,
        fast_threshold: 20,
        detector: DetectorType::Harris,
        shi_tomasi_threshold: s(0.1),
        shi_tomasi_block_size: 3,
        histeq: Equalisation::Off,
        cell_size: 1,
        lbp_policy: LbpPolicy::HardReject,
    }
}

#[test]
fn the_tracker_is_set_up_as_configured() {
    let settings = build_frontend(Some(&tracker_config()), tracker_base()).unwrap();
    assert_eq!(settings.max_features, 77);
    assert_eq!(settings.cell_size, 31);
    assert_eq!(settings.pyramid_levels, 4);
    assert_eq!(settings.histeq, Equalisation::Global);
    assert_eq!(settings.detector, DetectorType::Harris);
    assert_eq!(settings.fast_threshold, 20);
    assert_eq!(settings.lbp_policy, LbpPolicy::HardReject);
    assert!(!settings.klt_residual_enabled && settings.enable_internal_ransac);

    let named = RudolfVConfig {
        detector: Some("Shi-Tomasi".to_string()),
        histeq: Some("clahe".to_string()),
        clahe_tile_size: Some(16),
        clahe_clip_limit: Some(s(2.5)),
        lbp_policy: Some("soft_penalty".to_string()),
        fast_threshold: Some(11),
        ..tracker_config()
    };
    let settings = build_frontend(Some(&named), tracker_base()).unwrap();
    assert_eq!(settings.detector, DetectorType::ShiTomasi);
    let tiled = Equalisation::Clahe { tile_size: Some(16), clip_limit: Some(s(2.5)) };
    assert_eq!(settings.histeq, tiled);
    assert_eq!(settings.lbp_policy, LbpPolicy::SoftPenalty);
    assert_eq!(settings.fast_threshold, 11);

    let bare = build_frontend(None, tracker_base()).unwrap();
    assert_eq!((bare.max_features, bare.cell_size, bare.histeq), (40, 100, Equalisation::Global));
    assert_eq!(bare.detector, DetectorType::Harris);
}

#[test]
fn unknown_names_of_the_tracker_are_errors() {
    let detector = RudolfVConfig { detector: Some("orb".to_string()), ..tracker_config() };
    let error = build_frontend(Some(&detector), tracker_base()).unwrap_err();
    assert_eq!(error, FrontendError::Detector);
    assert_eq!(error.describe(), ("RudolfV.detector", "fast, harris, or shi_tomasi"));
    let histeq = RudolfVConfig { histeq: Some("Clahe".to_string()), ..tracker_config() };
    let error = build_frontend(Some(&histeq), tracker_base()).unwrap_err();
    assert_eq!(error, FrontendError::Equalisation);
    assert_eq!(error.describe(), ("RudolfV.histeq", "none, global, or clahe"));
    let policy = RudolfVConfig { lbp_policy: Some("soft".to_string()), ..tracker_config() };
    let error = build_frontend(Some(&policy), tracker_base()).unwrap_err();
    assert_eq!(error, FrontendError::LbpPolicy);
    assert_eq!(error.describe(), ("RudolfV.lbpPolicy", "SoftPenalty or HardReject"));
    assert_eq!(parse_detector("FAST"), Some(DetectorType::Fast));
    assert_eq!(parse_detector("harris"), Some(DetectorType::Harris));
    assert_eq!(parse_lbp_policy("hard-reject"), Some(LbpPolicy::HardReject));
}

#[test]
fn the_pose_prior_follows_the_epipolar_threshold() {
    assert!(!uses_pose_prior(None));
    assert!(!uses_pose_prior(Some(&tracker_config())));
    assert!(uses_pose_prior(Some(&RudolfVConfig { epipolar_gate_threshold: r(0.5), ..tracker_config() })));
}

#[test]
fn samples_up_to_an_image_come_before_it() {
    let samples = [r(0.0), r(1.0), r(2.0), r(3.0)];
    let images = [r(1.0), r(2.5)];
    assert_eq!(
        interleave(&samples, &images),
        vec![
            NextEvent::Inertial,
            NextEvent::Inertial,
            NextEvent::Image,
            NextEvent::Inertial,
            NextEvent::Image
        ]
    );
    assert_eq!(interleave(&samples, &[]), vec![]);
    assert_eq!(interleave(&[], &images), vec![NextEvent::Image, NextEvent::Image]);
    assert_eq!(next_event(Some(r(1.0)), None), NextEvent::End);
    assert_eq!(next_event(Some(r(1.0)), Some(r(1.0))), NextEvent::Inertial);
    assert_eq!(next_event(Some(r(1.5)), Some(r(1.0))), NextEvent::Image);
}

#[test]
fn reports_come_early_and_then_rarely() {
    let reported: Vec<usize> = (0..=300).filter(|n| is_reported(*n)).collect();
    assert_eq!(reported, vec![0, 1, 2, 3, 4, 5, 100, 200, 300]);
    assert!(is_realigned(100, 1));
    assert!(!is_realigned(95, 1));
    assert!(!is_realigned(101, 1));
    assert!(is_realigned(105, 1));
    assert!(!is_realigned(105, 0));
    assert!(is_passed_over(r(0.9), r(1.0)));
    assert!(!is_passed_over(r(1.0), r(1.0)));
}

#[test]
fn a_range_of_the_filter_becomes_a_prior() {
    assert_eq!(prior_choice(r(2.0), r(0.1), true), PriorChoice::Prior);
    assert_eq!(prior_choice(r(0.0), r(0.1), true), PriorChoice::Deferred);
    assert_eq!(prior_choice(r(2.0), r(f64::INFINITY), false), PriorChoice::Unknown);
    assert_eq!(prior_choice(r(f64::NAN), r(0.1), false), PriorChoice::Unknown);
}

#[test]
fn stereo_takes_precedence_over_the_filter() {
    let mut priors: HashMap<u64, DepthPrior> = HashMap::new();
    priors.insert(1, prior(1, 1.0, 0.1));
    priors.insert(2, prior(2, 2.0, 0.2));
    extend_priors(&mut priors, &[prior(2, 9.0, 0.9), prior(3, 3.0, 0.3)]);
    assert_eq!(priors[&1], prior(1, 1.0, 0.1));
    assert_eq!(priors[&2], prior(2, 9.0, 0.9));
    assert_eq!(priors[&3], prior(3, 3.0, 0.3));
    assert_eq!(priors.len(), 3);
}

#[test]
fn stereo_priors_have_a_least_variance() {
    assert_eq!(stereo_prior(5, r(0.0), r(1.0)), None);
    assert_eq!(stereo_prior(5, r(f64::NAN), r(1.0)), None);
    assert_eq!(stereo_prior(5, r(2.0), r(1.0)), Some(prior(5, 2.0, 1.0)));
    assert_eq!(stereo_prior(5, r(2.0), r(1e-9)), Some(prior(5, 2.0, 1e-4)));
    assert_eq!(stereo_prior(5, r(2.0), r(f64::NAN)), Some(prior(5, 2.0, 1e-4)));
}

#[test]
fn points_are_paired_by_identifier() {
    assert_eq!(common_ids(&[9, 4, 7], &[7, 1, 9]), vec![7, 9]);
    assert!(motion_is_estimated(3));
    assert!(!motion_is_estimated(2));
    assert_eq!(split_by_estimate(&[1, 2, 3], &[true, false, true]), (vec![1, 3], vec![2]));
    assert_eq!(split_by_estimate(&[1, 2, 3], &[true]), (vec![1], vec![]));
    assert!(has_undistorted_pixel(r(0.1)));
    assert!(!has_undistorted_pixel(r(0.0)));
}

#[test]
fn statuses_are_counted() {
    let status = [
        PatchStatus::Unknown,
        PatchStatus::SeedOnly,
        PatchStatus::SeedOnly,
        PatchStatus::PhotoRefined,
        PatchStatus::Rejected,
        PatchStatus::Unknown,
    ];
    assert_eq!(
        patch_depth_status_counts(&status),
        StatusCounts { unknown: 2, seed_only: 2, photo_refined: 1, rejected: 1 }
    );
}

#[test]
fn an_image_shows_the_map_in_proportion() {
    assert_eq!(shown_position(0, 0, 4, 4, 2, 2), 0);
    assert_eq!(shown_position(1, 1, 4, 4, 2, 2), 0);
    assert_eq!(shown_position(3, 2, 4, 4, 2, 2), 3);
    let red = pack_color(Rgb { r: 255, g: 1, b: 2 });
    assert_eq!(red, 0xFF01_02FF);
    let bytes = rgb_for_vis(&[Some(red), None], 2, 1, 4, 1);
    assert_eq!(bytes, vec![255, 1, 2, 255, 1, 2, 0, 0, 0, 0, 0, 0]);
}

#[test]
fn the_colour_scale_has_five_segments() {
    assert_eq!(color_segment(r(0.0)), 0);
    assert_eq!(color_segment(r(0.125)), 0);
    assert_eq!(color_segment(r(0.2)), 1);
    assert_eq!(color_segment(r(0.5)), 2);
    assert_eq!(color_segment(r(0.8)), 3);
    assert_eq!(color_segment(r(1.0)), 4);
    assert_eq!(color_segment(r(f64::NAN)), 4);
    let ends: Vec<f64> = (0..6).map(|i| f(color_knot(i).at)).collect();
    assert_eq!(ends, vec![0.0, 0.125, 0.375, 0.625, 0.875, 1.0]);
    assert_eq!(f(scale_position(r(1.5), r(0.0), r(1.0))), 1.0);
    assert_eq!(f(scale_position(r(0.3), r(0.0), r(1.0))), 0.3);
    assert_eq!(f(scale_position(r(0.3), r(1.0), r(1.0))), 0.5);
}

#[test]
fn what_cannot_be_shown_is_left_out() {
    assert!(depth_range_is_shown(r(0.1), r(1.0)));
    assert!(!depth_range_is_shown(r(0.0), r(1.0)));
    assert!(!depth_range_is_shown(r(1.0), r(1.0)));
    assert!(deviation_range_is_shown(r(0.0), r(1.0)));
    assert!(!deviation_range_is_shown(r(1.0), r(1.0)));
    assert!(deviation_is_shown(s(1.0), s(0.1)));
    assert!(!deviation_is_shown(s(1.0), s(0.0)));
    assert!(!deviation_is_shown(s(f32::NAN), s(0.1)));
    assert!(clip_image_point(r(639.9), r(0.0), 640, 480).is_some());
    assert!(clip_image_point(r(640.0), r(0.0), 640, 480).is_none());
    assert!(clip_image_point(r(-0.1), r(0.0), 640, 480).is_none());
    assert!(clip_image_point(r(f64::NAN), r(0.0), 640, 480).is_none());
    assert!(clip_image_point(r(4294967297.5), r(0.0), 4294967298, 1).is_some());
    assert!(clip_image_point(r(0.0), r(0.0), 0, 1).is_none());
    assert!(point_is_shown(r(0.5)));
    assert!(!point_is_shown(r(1e-6)));
}

#[test]
fn occupied_voxels_and_some_free_ones_are_shown() {
    let settings = LocalOccupancySettings {
        resolution: r(1.0),
        width_cells: 4,
        height_cells: 4,
        sample_stride: 1,
        ..Default::default()
    };
    let mut map = LocalOccupancyMap::new(settings, r(2.0), r(-2.0), r(-2.0)).unwrap();
    map.add_log_odds(VoxelIndex { x: 1, y: 2, z: 1 }, s(2.0));
    map.add_log_odds(VoxelIndex { x: 2, y: 2, z: 0 }, s(-2.0));
    map.add_log_odds(VoxelIndex { x: 3, y: 2, z: 0 }, s(-2.0));
    let (occupied, free) = occupancy_cells_for_vis(&map.snapshot(), &settings);
    assert_eq!(occupied, vec![GridCell { x: 1, y: 2, z: 1 }]);
    assert_eq!(free, vec![GridCell { x: 2, y: 2, z: 0 }]);
    let at = GridCell { x: 0, y: 0, z: 0 };
    assert_eq!(voxel_is_shown(&settings, s(0.8), at), ShownVoxel::Occupied);
    assert_eq!(voxel_is_shown(&settings, s(-0.8), at), ShownVoxel::Free);
    assert_eq!(voxel_is_shown(&settings, s(0.0), at), ShownVoxel::Hidden);
}

#[test]
fn an_equalisation_is_named_exactly_or_switched() {
    let named = |name: &str| parse_equalisation(&Some(name.to_string()), true, Some(8), None);
    assert_eq!(named("none"), Some(Equalisation::Off));
    assert_eq!(named("global"), Some(Equalisation::Global));
    assert_eq!(named("clahe"), Some(Equalisation::Clahe { tile_size: Some(8), clip_limit: None }));
    assert_eq!(named("Global"), None);
    assert_eq!(named(""), None);
    assert_eq!(parse_equalisation(&None, true, None, None), Some(Equalisation::Global));
    assert_eq!(parse_equalisation(&None, false, None, None), Some(Equalisation::Off));
}
