//! The configuration and the settings that follow from it.
use echo_li::cli::vis::{shown_ranges, ShownRanges};
use echo_li::config::{
    default_epipolar_max_reject_frac, default_epipolar_min_baseline, default_sparse_parametrization, default_true,
    DepthParametrization, EqfConfig, EqfInitialValue, EqfInitialVariance, EqfMeasurementNoise, EqfProcessVariance,
    EqfSettings, EqfVelocityNoise, Equalisation, ImuBiasGroup, LocalOccupancyConfig, MainConfig, PatchDepthConfig,
    RudolfVConfig, SparseVogConfig, SparseVogSettings, StereoConfig, StereoSettings, VIOConfig,
};
use echo_li::depth::occupancy::{LocalOccupancySettings, OccupancyUpdateMode};
use echo_li::depth::patch_depth::{PatchDepthCameraMode, PatchDepthSettings, PatchDepthWarpMode};
use echo_li::ieee::{real32, real64, Real32, Real64};

fn r(x: f64) -> Real64 {
    real64(x.to_bits())
}

fn s(x: f32) -> Real32 {
    real32(x.to_bits())
}

fn f(x: Real64) -> f64 {
    f64::from_bits(x.bits)
}

fn patch_config() -> PatchDepthConfig {
    PatchDepthConfig {
        camera_mode: None,
        warp_mode: None,
        cell_size: None,
        pose_angular_velocity_var: None,
        scale: None,
        patch_size: None,
        patch_stride: None,
        min_depth: None,
        max_depth: None,
        photo_huber_delta: None,
        sigma_photo: None,
        n_gn_iters: None,
        gn_eta_convergence_tol: None,
        fd_eps: None,
        lambda_seed: None,
        seed_radius_px: None,
        sigma_seed_floor: None,
        n_search_candidates: None,
        search_half_range: None,
        min_baseline_ratio: None,
        max_baseline_ratio: None,
        min_photo_curvature: None,
        max_photo_residual: None,
        min_structure_eigen: None,
        max_structure_condition: None,
        n_pyramid_levels: None,
        var_floor: None,
        status_weight_photo: None,
        status_weight_seed: None,
        tiled_tile_size: None,
        tiled_tile_overlap: None,
        vis_min_depth: None,
        vis_max_depth: None,
        cov_vis_min: None,
        cov_vis_max: None,
    }
}

fn map_config() -> LocalOccupancyConfig {
    LocalOccupancyConfig {
        enabled: false,
        update_mode: None,
        resolution: None,
        width_cells: None,
        height_cells: None,
        sample_stride: None,
        min_range: None,
        max_range: None,
        max_eta_std: None,
        log_odds_hit: None,
        log_odds_miss: None,
        log_odds_min: None,
        log_odds_max: None,
        occupied_threshold: None,
        free_threshold: None,
        band_k: None,
        sigma_floor_factor: None,
        min_confidence_weight: None,
        min_obstacle_height: None,
        max_obstacle_height: None,
    }
}

#[test]
fn an_empty_configuration_changes_nothing() {
    assert_eq!(patch_config().to_patch_depth_settings(), PatchDepthSettings::default());
    assert_eq!(map_config().to_local_occupancy_settings(), LocalOccupancySettings::default());
}

#[test]
fn what_is_configured_is_taken_over() {
    let patch = PatchDepthConfig {
        camera_mode: Some("Tiled-Bearing".to_string()),
        warp_mode: Some("translation".to_string()),
        patch_size: Some(4),
        max_depth: Some(r(50.0)),
        pose_angular_velocity_var: Some(r(0.25)),
        tiled_tile_overlap: Some(12),
        cell_size: Some(9),
        vis_max_depth: Some(r(3.0)),
        ..patch_config()
    };
    let settings = patch.to_patch_depth_settings();
    assert_eq!(settings.camera_mode, PatchDepthCameraMode::TiledBearing);
    assert_eq!(settings.warp_mode, PatchDepthWarpMode::FastTranslation);
    assert_eq!((settings.patch_size, settings.patch_stride), (4, 4));
    assert_eq!(f(settings.pose_angular_velocity_var), 0.25);
    assert_eq!(f(PatchDepthSettings::default().pose_angular_velocity_var), 0.0);
    let other = PatchDepthConfig { cell_size: None, vis_max_depth: None, ..patch };
    assert_eq!(other.to_patch_depth_settings(), settings);
    assert_eq!((f(settings.min_depth), f(settings.max_depth)), (0.1, 50.0));
    assert_eq!((settings.tiled_tile_size, settings.tiled_tile_overlap), (96, 12));

    let map = LocalOccupancyConfig {
        enabled: true,
        update_mode: Some("sigma".to_string()),
        log_odds_hit: Some(s(2.0)),
        ..map_config()
    };
    let settings = map.to_local_occupancy_settings();
    assert!(settings.enabled);
    assert_eq!(settings.update_mode, OccupancyUpdateMode::UncertaintyAware);
    assert_eq!(settings.log_odds_hit, s(2.0));
    assert_eq!(settings.log_odds_miss, s(-0.35));
}

#[test]
fn modes_are_known_by_several_names() {
    for name in ["undistorted_pinhole", "Undistorted-Pinhole", "pinhole"] {
        assert_eq!(PatchDepthCameraMode::from_text(name), PatchDepthCameraMode::UndistortedPinhole);
    }
    for name in ["tiled_bearing", "tiledbearing", "tiled_pinhole", "tiled-pinhole", "TiledPinhole"] {
        assert_eq!(PatchDepthCameraMode::from_text(name), PatchDepthCameraMode::TiledBearing);
    }
    for name in ["per_patch_bearing", "per-patch-bearing", "perpatchbearing", "per_patch", "per-patch", "perpatch"] {
        assert_eq!(PatchDepthCameraMode::from_text(name), PatchDepthCameraMode::PerPatchBearing);
    }
    assert_eq!(PatchDepthCameraMode::from_text("raw"), PatchDepthCameraMode::RawDistorted);
    assert_eq!(PatchDepthWarpMode::from_text("fast-translation"), PatchDepthWarpMode::FastTranslation);
    assert_eq!(PatchDepthWarpMode::from_text("exact"), PatchDepthWarpMode::Exact);
    for name in ["uncertainty_aware", "sigma", "v1"] {
        assert_eq!(OccupancyUpdateMode::from_text(name), OccupancyUpdateMode::UncertaintyAware);
        assert!(OccupancyUpdateMode::is_known(name));
    }
    for name in ["fixed", "fixed_increment", "v0"] {
        assert_eq!(OccupancyUpdateMode::from_text(name), OccupancyUpdateMode::FixedIncrement);
        assert!(OccupancyUpdateMode::is_known(name));
    }
    assert!(!OccupancyUpdateMode::is_known("V1"));
    assert_eq!(OccupancyUpdateMode::from_text("V1"), OccupancyUpdateMode::FixedIncrement);
    assert_eq!(DepthParametrization::from_text("Euclidean"), DepthParametrization::Euclidean);
    assert_eq!(DepthParametrization::from_text("polar3d"), DepthParametrization::Polar);
    assert_eq!(DepthParametrization::from_text("invdepth3d"), DepthParametrization::InvDepth);
}

#[test]
fn defaults_of_single_settings() {
    assert!(default_true());
    assert_eq!(default_sparse_parametrization(), "invdepth3d");
    assert_eq!(f(default_epipolar_min_baseline()), 1e-3);
    assert_eq!(f(default_epipolar_max_reject_frac()), 0.5);
}

fn sparse_base() -> SparseVogSettings {
    let one = r(1.0);
    SparseVogSettings {
        parametrization: DepthParametrization::Polar,
        max_pool_size: 100,
        min_track_length: 3,
        conv_inlier_ratio: one,
        conv_variance_threshold: one,
        init_depth_var: one,
        init_invdepth_var: one,
        sigma_pixel: one,
        uniform_z_max: one,
        uniform_rho_max: one,
        uniform_d_min: one,
        uniform_d_max: one,
        a_init: one,
        b_init: one,
        ab_min: one,
        ab_max: one,
        min_inlier_ratio: one,
        mahalanobis_reset_chi2: one,
        process_depth_var: one,
        min_parallax: one,
        min_cos_sim: one,
        min_depth: one,
        max_depth: one,
        reanchor_flow_px: one,
    }
}

fn sparse_config() -> SparseVogConfig {
    SparseVogConfig {
        enabled: true,
        parametrization: "euclidean".to_string(),
        max_pool_size: Some(7),
        min_track_length: None,
        conv_inlier_ratio: None,
        conv_variance_threshold: None,
        init_depth_var: None,
        init_invdepth_var: None,
        sigma_pixel: Some(r(2.0)),
        uniform_z_max: None,
        uniform_rho_max: None,
        uniform_d_min: None,
        uniform_d_max: None,
        a_init: None,
        b_init: None,
        ab_min: None,
        ab_max: None,
        min_inlier_ratio: None,
        mahalanobis_reset_chi2: None,
        process_depth_var: None,
        min_parallax: None,
        min_cos_sim: None,
        min_depth: None,
        max_depth: None,
        reanchor_flow_px: Some(r(9.0)),
        vis_min_depth: None,
        vis_max_depth: None,
    }
}

#[test]
fn the_sparse_filter_keeps_what_is_not_configured() {
    let settings = sparse_config().to_sparse_settings(sparse_base());
    let expected = SparseVogSettings {
        parametrization: DepthParametrization::Euclidean,
        max_pool_size: 7,
        sigma_pixel: r(2.0),
        reanchor_flow_px: r(9.0),
        ..sparse_base()
    };
    assert_eq!(settings, expected);
}

#[test]
fn the_stereo_matcher_keeps_what_is_not_configured() {
    let base = StereoSettings {
        pyramid_levels: 3,
        patch_half_size: 4,
        max_iterations: 5,
        convergence_eps: r(0.1),
        min_inv_depth: r(0.2),
        max_inv_depth: r(0.3),
        init_inv_depth: r(0.4),
        max_residual: s(0.5),
        n_search_candidates: 6,
        knn_propagation: 7,
        histeq: Equalisation::Clahe { tile_size: Some(16), clip_limit: None },
    };
    let config = StereoConfig {
        enabled: true,
        pyramid_levels: Some(1),
        patch_half_size: None,
        max_iterations: None,
        convergence_eps: None,
        min_inv_depth: None,
        max_inv_depth: None,
        init_inv_depth: None,
        max_residual: Some(s(9.0)),
        n_search_candidates: None,
        knn_propagation: None,
        histeq: None,
    };
    let settings = config.to_stereo_settings(base);
    assert_eq!(settings, StereoSettings { pyramid_levels: 1, max_residual: s(9.0), ..base });
    let named = StereoConfig { histeq: Some("Global".to_string()), ..config.clone() };
    assert_eq!(named.to_stereo_settings(base).histeq, Equalisation::Global);
    let other = StereoConfig { histeq: Some("none".to_string()), ..config };
    assert_eq!(other.to_stereo_settings(base).histeq, Equalisation::Off);
}

fn whole_config(group: Option<&str>, riccati: Option<&str>) -> VIOConfig {
    VIOConfig {
        rudolf_v: RudolfVConfig {
            equalise_image_histogram: true,
            feature_dist: r(20.0),
            feature_search_threshold: r(1.0),
            fast_threshold: None,
            detector: None,
            shi_tomasi_threshold: None,
            shi_tomasi_block_size: None,
            histeq: None,
            clahe_tile_size: None,
            clahe_clip_limit: None,
            lbp_policy: None,
            klt_residual: false,
            enable_ransac: true,
            epipolar_gate_threshold: r(0.0),
            epipolar_refine: false,
            epipolar_min_baseline: r(0.0),
            epipolar_max_reject_frac: r(0.5),
            max_features: 40,
            max_level: 3,
        },
        sparse_vog: None,
        patch_depth: None,
        local_occupancy: None,
        stereo: None,
        eqf: EqfConfig {
            max_features: 30,
            initial_value: EqfInitialValue { scene_depth: r(1.0) },
            initial_variance: EqfInitialVariance {
                attitude: r(2.0),
                bias_acc: r(3.0),
                bias_gyr: r(4.0),
                camera_attitude: r(5.0),
                camera_position: r(6.0),
                point: r(7.0),
                position: r(8.0),
                velocity: r(9.0),
            },
            measurement_noise: EqfMeasurementNoise {
                feature: r(10.0),
                feature_outlier_abs: r(11.0),
                feature_outlier_prob: r(12.0),
                feature_retention: r(13.0),
            },
            process_variance: EqfProcessVariance {
                attitude: r(14.0),
                bias_acc: r(15.0),
                bias_gyr: r(16.0),
                camera_attitude: r(17.0),
                camera_position: r(18.0),
                point: r(19.0),
                position: r(20.0),
                velocity: r(21.0),
            },
            settings: EqfSettings {
                coordinate_choice: "InvDepth".to_string(),
                fast_riccati: false,
                imu_bias_group: group.map(|g| g.to_string()),
                use_discrete_innovation_lift: true,
                use_discrete_velocity_lift: false,
                use_equivariant_output: true,
                use_feature_predictions: false,
                use_median_depth: true,
                riccati_variant: riccati.map(|g| g.to_string()),
            },
            velocity_noise: EqfVelocityNoise { acc: r(22.0), acc_bias: r(23.0), gyr: r(24.0), gyr_bias: r(25.0) },
        },
        main: MainConfig { write_state: true, camera_lag: r(0.0) },
    }
}

#[test]
fn the_filter_takes_its_settings_from_the_configuration() {
    let settings = whole_config(None, Some("Faster"))
        .to_filter_settings(ImuBiasGroup::SemiDirect, ImuBiasGroup::Additive);
    assert_eq!(settings.coordinate_choice, "InvDepth");
    assert_eq!(settings.max_landmarks, 30);
    assert_eq!(f(settings.sigma_bearing), 10.0);
    assert_eq!((f(settings.sigma_gyroscope), f(settings.sigma_accelerometer)), (24.0, 22.0));
    assert_eq!((f(settings.sigma_gyroscope_bias), f(settings.sigma_accelerometer_bias)), (25.0, 23.0));
    assert_eq!(f(settings.initial_bias_omega_variance), 4.0);
    assert_eq!(f(settings.process_bias_gyr), 16.0);
    assert_eq!(f(settings.process_point), 19.0);
    assert_eq!(settings.imu_bias_group, ImuBiasGroup::Additive);
    assert!(settings.use_faster_riccati);
    assert!(settings.use_discrete_correction && !settings.use_discrete_velocity_lift);
    let named = whole_config(Some("sdb"), Some("fast"))
        .to_filter_settings(ImuBiasGroup::SemiDirect, ImuBiasGroup::Additive);
    assert_eq!(named.imu_bias_group, ImuBiasGroup::SemiDirect);
    assert!(!named.use_faster_riccati);
}

#[test]
fn shown_ranges_are_configured_one_by_one() {
    let default = ShownRanges {
        min_depth: r(0.1),
        max_depth: r(5.0),
        min_deviation: r(0.0),
        max_deviation: r(0.5),
        sparse_min_depth: r(0.1),
        sparse_max_depth: r(5.0),
    };
    assert_eq!(shown_ranges(None, None), default);
    let sparse = SparseVogConfig { vis_min_depth: None, vis_max_depth: None, ..sparse_config() };
    assert_eq!(shown_ranges(Some(&patch_config()), Some(&sparse)), default);
    let patch = PatchDepthConfig { vis_max_depth: Some(r(9.0)), cov_vis_min: Some(r(0.2)), ..patch_config() };
    let sparse = SparseVogConfig { vis_min_depth: Some(r(0.3)), ..sparse };
    assert_eq!(
        shown_ranges(Some(&patch), Some(&sparse)),
        ShownRanges { max_depth: r(9.0), min_deviation: r(0.2), sparse_min_depth: r(0.3), ..default }
    );
}

#[test]
fn by_default_nothing_is_configured() {
    assert_eq!(PatchDepthConfig::default().to_patch_depth_settings(), PatchDepthSettings::default());
    assert_eq!(LocalOccupancyConfig::default().to_local_occupancy_settings(), LocalOccupancySettings::default());
    let sparse = SparseVogConfig::default();
    assert!(!sparse.enabled && sparse.parametrization.is_empty() && sparse.max_depth.is_none());
    let stereo = StereoConfig::default();
    assert!(!stereo.enabled && stereo.histeq.is_none() && stereo.max_residual.is_none());
}
