//! The configuration of the program, and the settings that it gives its parts.
use vstd::prelude::*;
use crate::depth::occupancy::{LocalOccupancySettings, OccupancyUpdateMode};
use crate::depth::patch_depth::{PatchDepthCameraMode, PatchDepthSettings, PatchDepthWarpMode};
use crate::ieee::{real64, Real32, Real64};
use crate::text::{is_named, same_text};

verus! {

/// A configured value, or the one in use without it.
pub open spec fn overridden<T>(configured: Option<T>, base: T) -> T {
    match configured {
        Some(v) => v,
        None => base,
    }
}

/// A configured value, or the one in use without it.
pub fn over<T: Copy>(configured: Option<T>, base: T) -> (r: T)
    ensures
        r == overridden(configured, base),
{
    match configured {
        Some(v) => v,
        None => base,
    }
}

/// Whether something is enabled that the configuration does not mention.
pub fn default_true() -> (r: bool)
    ensures
        r,
{
    true
}

/// The parametrization of sparse depths where none is configured.
pub fn default_sparse_parametrization() -> (r: String)
    ensures
        r@ == "invdepth3d"@,
{
    "invdepth3d".to_owned()
}

/// The least baseline of the epipolar test where none is configured.
#[verifier::allow_in_spec]
pub fn default_epipolar_min_baseline() -> Real64
    returns
        (Real64 { bits: 0x3F50_624D_D2F1_A9FC }),
{
    real64(0x3F50_624D_D2F1_A9FC)
}

/// The largest share of tracks that the epipolar test may reject where none is configured.
#[verifier::allow_in_spec]
pub fn default_epipolar_max_reject_frac() -> Real64
    returns
        (Real64 { bits: 0x3FE0_0000_0000_0000 }),
{
    real64(0x3FE0_0000_0000_0000)
}

/// The tracker.
#[derive(Clone, Debug)]
pub struct RudolfVConfig {
    pub equalise_image_histogram: bool,
    pub feature_dist: Real64,
    pub feature_search_threshold: Real64,
    pub fast_threshold: Option<u8>,
    /// Corner detector: fast, harris or shi_tomasi.
    pub detector: Option<String>,
    /// Least eigenvalue of a corner, for the last of these detectors.
    pub shi_tomasi_threshold: Option<Real32>,
    /// Size of the block of a corner, for the last of these detectors.
    pub shi_tomasi_block_size: Option<usize>,
    /// Equalisation of the image: none, global or clahe.
    pub histeq: Option<String>,
    /// Size of the tiles, for the last of these equalisations.
    pub clahe_tile_size: Option<usize>,
    /// Limit of the contrast, for the last of these equalisations.
    pub clahe_clip_limit: Option<Real32>,
    pub lbp_policy: Option<String>,
    /// Whether the residual of each track is computed.
    pub klt_residual: bool,
    /// Whether the tracker verifies its tracks geometrically.
    pub enable_ransac: bool,
    /// Threshold of the epipolar test; zero switches it off.
    pub epipolar_gate_threshold: Real64,
    /// Whether the epipolar model is fitted again to its inliers.
    pub epipolar_refine: bool,
    /// Least baseline of the epipolar test.
    pub epipolar_min_baseline: Real64,
    /// Largest share of tracks that the epipolar test may reject.
    pub epipolar_max_reject_frac: Real64,
    pub max_features: usize,
    pub max_level: usize,
}

#[derive(Clone, Copy, Debug, PartialEq)]
pub struct EqfInitialValue {
    pub scene_depth: Real64,
}

#[derive(Clone, Copy, Debug, PartialEq)]
pub struct EqfInitialVariance {
    pub attitude: Real64,
    pub bias_acc: Real64,
    pub bias_gyr: Real64,
    pub camera_attitude: Real64,
    pub camera_position: Real64,
    pub point: Real64,
    pub position: Real64,
    pub velocity: Real64,
}

#[derive(Clone, Copy, Debug, PartialEq)]
pub struct EqfMeasurementNoise {
    pub feature: Real64,
    pub feature_outlier_abs: Real64,
    pub feature_outlier_prob: Real64,
    pub feature_retention: Real64,
}

#[derive(Clone, Copy, Debug, PartialEq)]
pub struct EqfProcessVariance {
    pub attitude: Real64,
    pub bias_acc: Real64,
    pub bias_gyr: Real64,
    pub camera_attitude: Real64,
    pub camera_position: Real64,
    pub point: Real64,
    pub position: Real64,
    pub velocity: Real64,
}

#[derive(Clone, Debug)]
pub struct EqfSettings {
    pub coordinate_choice: String,
    pub fast_riccati: bool,
    pub imu_bias_group: Option<String>,
    pub use_discrete_innovation_lift: bool,
    pub use_discrete_velocity_lift: bool,
    pub use_equivariant_output: bool,
    pub use_feature_predictions: bool,
    pub use_median_depth: bool,
    /// How the covariance is propagated: fast, sample by sample, or faster, frame by frame.
    pub riccati_variant: Option<String>,
}

#[derive(Clone, Copy, Debug, PartialEq)]
pub struct EqfVelocityNoise {
    pub acc: Real64,
    pub acc_bias: Real64,
    pub gyr: Real64,
    pub gyr_bias: Real64,
}

/// The filter.
#[derive(Clone, Debug)]
pub struct EqfConfig {
    pub max_features: usize,
    pub initial_value: EqfInitialValue,
    pub initial_variance: EqfInitialVariance,
    pub measurement_noise: EqfMeasurementNoise,
    pub process_variance: EqfProcessVariance,
    pub settings: EqfSettings,
    pub velocity_noise: EqfVelocityNoise,
}

#[derive(Clone, Copy, Debug, PartialEq)]
pub struct MainConfig {
    pub write_state: bool,
    pub camera_lag: Real64,
}

/// How a sparse depth is parametrized.
#[derive(Clone, Copy, Debug, PartialEq, Eq, Structural)]
pub enum DepthParametrization {
    Euclidean,
    Polar,
    InvDepth,
}

impl DepthParametrization {
    /// The parametrization that a text names.
    pub open spec fn of(text: Seq<char>) -> Self {
        if crate::text::named(text, "euclidean"@) {
            DepthParametrization::Euclidean
        } else if crate::text::named(text, "polar"@) || crate::text::named(text, "polar3d"@) {
            DepthParametrization::Polar
        } else {
            DepthParametrization::InvDepth
        }
    }

    /// The parametrization that a text names; inverse depth for any other text.
    pub fn from_text(text: &str) -> (r: Self)
        ensures
            r == Self::of(text@),
    {
        if is_named(text, "euclidean") {
            DepthParametrization::Euclidean
        } else if is_named(text, "polar") || is_named(text, "polar3d") {
            DepthParametrization::Polar
        } else {
            DepthParametrization::InvDepth
        }
    }
}

/// The settings of the sparse depth filter.
#[derive(Clone, Copy, Debug, PartialEq)]
pub struct SparseVogSettings {
    pub parametrization: DepthParametrization,
    pub max_pool_size: usize,
    pub min_track_length: usize,
    pub conv_inlier_ratio: Real64,
    pub conv_variance_threshold: Real64,
    pub init_depth_var: Real64,
    pub init_invdepth_var: Real64,
    pub sigma_pixel: Real64,
    pub uniform_z_max: Real64,
    pub uniform_rho_max: Real64,
    pub uniform_d_min: Real64,
    pub uniform_d_max: Real64,
    pub a_init: Real64,
    pub b_init: Real64,
    pub ab_min: Real64,
    pub ab_max: Real64,
    pub min_inlier_ratio: Real64,
    pub mahalanobis_reset_chi2: Real64,
    pub process_depth_var: Real64,
    pub min_parallax: Real64,
    pub min_cos_sim: Real64,
    pub min_depth: Real64,
    pub max_depth: Real64,
    pub reanchor_flow_px: Real64,
}

/// The sparse depth filter.
#[derive(Clone, Debug)]
pub struct SparseVogConfig {
    pub enabled: bool,
    pub parametrization: String,
    pub max_pool_size: Option<usize>,
    pub min_track_length: Option<usize>,
    pub conv_inlier_ratio: Option<Real64>,
    pub conv_variance_threshold: Option<Real64>,
    pub init_depth_var: Option<Real64>,
    pub init_invdepth_var: Option<Real64>,
    pub sigma_pixel: Option<Real64>,
    pub uniform_z_max: Option<Real64>,
    pub uniform_rho_max: Option<Real64>,
    pub uniform_d_min: Option<Real64>,
    pub uniform_d_max: Option<Real64>,
    pub a_init: Option<Real64>,
    pub b_init: Option<Real64>,
    pub ab_min: Option<Real64>,
    pub ab_max: Option<Real64>,
    pub min_inlier_ratio: Option<Real64>,
    pub mahalanobis_reset_chi2: Option<Real64>,
    pub process_depth_var: Option<Real64>,
    pub min_parallax: Option<Real64>,
    pub min_cos_sim: Option<Real64>,
    pub min_depth: Option<Real64>,
    pub max_depth: Option<Real64>,
    pub reanchor_flow_px: Option<Real64>,
    pub vis_min_depth: Option<Real64>,
    pub vis_max_depth: Option<Real64>,
}

impl Default for SparseVogConfig {
    /// A filter that is off, with nothing configured and no parametrisation named.
    fn default() -> (r: Self)
        ensures
            !r.enabled,
            r.parametrization@ == Seq::<char>::empty(),
            r.max_pool_size is None,
            r.min_track_length is None,
            r.conv_inlier_ratio is None,
            r.conv_variance_threshold is None,
            r.init_depth_var is None,
            r.init_invdepth_var is None,
            r.sigma_pixel is None,
            r.uniform_z_max is None,
            r.uniform_rho_max is None,
            r.uniform_d_min is None,
            r.uniform_d_max is None,
            r.a_init is None,
            r.b_init is None,
            r.ab_min is None,
            r.ab_max is None,
            r.min_inlier_ratio is None,
            r.mahalanobis_reset_chi2 is None,
            r.process_depth_var is None,
            r.min_parallax is None,
            r.min_cos_sim is None,
            r.min_depth is None,
            r.max_depth is None,
            r.reanchor_flow_px is None,
            r.vis_min_depth is None,
            r.vis_max_depth is None,
    {
        SparseVogConfig {
            enabled: false,
            parametrization: String::new(),
            max_pool_size: None,
            min_track_length: None,
            conv_inlier_ratio: None,
            conv_variance_threshold: None,
            init_depth_var: None,
            init_invdepth_var: None,
            sigma_pixel: None,
            uniform_z_max: None,
            uniform_rho_max: None,
            uniform_d_min: None,
            uniform_d_max: None,
            a_init: None,
            b_init: None,
            ab_min: None,
            ab_max: None,
            min_inlier_ratio: None,
            mahalanobis_reset_chi2: None,
            process_depth_var: None,
            min_parallax: None,
            min_cos_sim: None,
            min_depth: None,
            max_depth: None,
            reanchor_flow_px: None,
            vis_min_depth: None,
            vis_max_depth: None,
        }
    }
}

impl SparseVogConfig {
    /// The settings of the filter, over those in use without a configuration.
    pub fn to_sparse_settings(&self, base: SparseVogSettings) -> (r: SparseVogSettings)
        ensures
            r == (SparseVogSettings {
                parametrization: DepthParametrization::of(self.parametrization@),
                max_pool_size: overridden(self.max_pool_size, base.max_pool_size),
                min_track_length: overridden(self.min_track_length, base.min_track_length),
                conv_inlier_ratio: overridden(self.conv_inlier_ratio, base.conv_inlier_ratio),
                conv_variance_threshold: overridden(self.conv_variance_threshold, base.conv_variance_threshold),
                init_depth_var: overridden(self.init_depth_var, base.init_depth_var),
                init_invdepth_var: overridden(self.init_invdepth_var, base.init_invdepth_var),
                sigma_pixel: overridden(self.sigma_pixel, base.sigma_pixel),
                uniform_z_max: overridden(self.uniform_z_max, base.uniform_z_max),
                uniform_rho_max: overridden(self.uniform_rho_max, base.uniform_rho_max),
                uniform_d_min: overridden(self.uniform_d_min, base.uniform_d_min),
                uniform_d_max: overridden(self.uniform_d_max, base.uniform_d_max),
                a_init: overridden(self.a_init, base.a_init),
                b_init: overridden(self.b_init, base.b_init),
                ab_min: overridden(self.ab_min, base.ab_min),
                ab_max: overridden(self.ab_max, base.ab_max),
                min_inlier_ratio: overridden(self.min_inlier_ratio, base.min_inlier_ratio),
                mahalanobis_reset_chi2: overridden(self.mahalanobis_reset_chi2, base.mahalanobis_reset_chi2),
                process_depth_var: overridden(self.process_depth_var, base.process_depth_var),
                min_parallax: overridden(self.min_parallax, base.min_parallax),
                min_cos_sim: overridden(self.min_cos_sim, base.min_cos_sim),
                min_depth: overridden(self.min_depth, base.min_depth),
                max_depth: overridden(self.max_depth, base.max_depth),
                reanchor_flow_px: overridden(self.reanchor_flow_px, base.reanchor_flow_px),
            }),
    {
        SparseVogSettings {
            parametrization: DepthParametrization::from_text(self.parametrization.as_str()),
            max_pool_size: over(self.max_pool_size, base.max_pool_size),
            min_track_length: over(self.min_track_length, base.min_track_length),
            conv_inlier_ratio: over(self.conv_inlier_ratio, base.conv_inlier_ratio),
            conv_variance_threshold: over(self.conv_variance_threshold, base.conv_variance_threshold),
            init_depth_var: over(self.init_depth_var, base.init_depth_var),
            init_invdepth_var: over(self.init_invdepth_var, base.init_invdepth_var),
            sigma_pixel: over(self.sigma_pixel, base.sigma_pixel),
            uniform_z_max: over(self.uniform_z_max, base.uniform_z_max),
            uniform_rho_max: over(self.uniform_rho_max, base.uniform_rho_max),
            uniform_d_min: over(self.uniform_d_min, base.uniform_d_min),
            uniform_d_max: over(self.uniform_d_max, base.uniform_d_max),
            a_init: over(self.a_init, base.a_init),
            b_init: over(self.b_init, base.b_init),
            ab_min: over(self.ab_min, base.ab_min),
            ab_max: over(self.ab_max, base.ab_max),
            min_inlier_ratio: over(self.min_inlier_ratio, base.min_inlier_ratio),
            mahalanobis_reset_chi2: over(self.mahalanobis_reset_chi2, base.mahalanobis_reset_chi2),
            process_depth_var: over(self.process_depth_var, base.process_depth_var),
            min_parallax: over(self.min_parallax, base.min_parallax),
            min_cos_sim: over(self.min_cos_sim, base.min_cos_sim),
            min_depth: over(self.min_depth, base.min_depth),
            max_depth: over(self.max_depth, base.max_depth),
            reanchor_flow_px: over(self.reanchor_flow_px, base.reanchor_flow_px),
        }
    }
}

impl PatchDepthCameraMode {
    /// The camera mode that a text names.
    pub open spec fn of(text: Seq<char>) -> Self {
        if crate::text::named(text, "undistorted_pinhole"@)
            || crate::text::named(text, "undistorted-pinhole"@)
            || crate::text::named(text, "pinhole"@)
        {
            PatchDepthCameraMode::UndistortedPinhole
        } else if crate::text::named(text, "tiled_bearing"@)
            || crate::text::named(text, "tiled-bearing"@)
            || crate::text::named(text, "tiledbearing"@)
            || crate::text::named(text, "tiled_pinhole"@)
            || crate::text::named(text, "tiled-pinhole"@)
            || crate::text::named(text, "tiledpinhole"@)
        {
            PatchDepthCameraMode::TiledBearing
        } else if crate::text::named(text, "per_patch_bearing"@)
            || crate::text::named(text, "per-patch-bearing"@)
            || crate::text::named(text, "perpatchbearing"@)
            || crate::text::named(text, "per_patch"@)
            || crate::text::named(text, "per-patch"@)
            || crate::text::named(text, "perpatch"@)
        {
            PatchDepthCameraMode::PerPatchBearing
        } else {
            PatchDepthCameraMode::RawDistorted
        }
    }

    /// The camera mode that a text names; raw images for any other text.
    pub fn from_text(text: &str) -> (r: Self)
        ensures
            r == Self::of(text@),
    {
        if is_named(text, "undistorted_pinhole") || is_named(text, "undistorted-pinhole") || is_named(text, "pinhole") {
            PatchDepthCameraMode::UndistortedPinhole
        } else if is_named(text, "tiled_bearing")
            || is_named(text, "tiled-bearing")
            || is_named(text, "tiledbearing")
            || is_named(text, "tiled_pinhole")
            || is_named(text, "tiled-pinhole")
            || is_named(text, "tiledpinhole")
        {
            PatchDepthCameraMode::TiledBearing
        } else if is_named(text, "per_patch_bearing")
            || is_named(text, "per-patch-bearing")
            || is_named(text, "perpatchbearing")
            || is_named(text, "per_patch")
            || is_named(text, "per-patch")
            || is_named(text, "perpatch")
        {
            PatchDepthCameraMode::PerPatchBearing
        } else {
            PatchDepthCameraMode::RawDistorted
        }
    }
}

impl PatchDepthWarpMode {
    /// The warp mode that a text names.
    pub open spec fn of(text: Seq<char>) -> Self {
        if crate::text::named(text, "fast_translation"@)
            || crate::text::named(text, "fast-translation"@)
            || crate::text::named(text, "fasttranslation"@)
            || crate::text::named(text, "translation"@)
        {
            PatchDepthWarpMode::FastTranslation
        } else {
            PatchDepthWarpMode::Exact
        }
    }

    /// The warp mode that a text names; the exact one for any other text.
    pub fn from_text(text: &str) -> (r: Self)
        ensures
            r == Self::of(text@),
    {
        if is_named(text, "fast_translation")
            || is_named(text, "fast-translation")
            || is_named(text, "fasttranslation")
            || is_named(text, "translation")
        {
            PatchDepthWarpMode::FastTranslation
        } else {
            PatchDepthWarpMode::Exact
        }
    }
}

/// The patch depth mapper. The size of cells is accepted and not used.
#[derive(Clone, Debug)]
pub struct PatchDepthConfig {
    pub camera_mode: Option<String>,
    pub warp_mode: Option<String>,
    pub cell_size: Option<usize>,
    pub pose_angular_velocity_var: Option<Real64>,
    pub scale: Option<Real64>,
    pub patch_size: Option<usize>,
    pub patch_stride: Option<usize>,
    pub min_depth: Option<Real64>,
    pub max_depth: Option<Real64>,
    pub photo_huber_delta: Option<Real64>,
    pub sigma_photo: Option<Real64>,
    pub n_gn_iters: Option<usize>,
    pub gn_eta_convergence_tol: Option<Real64>,
    pub fd_eps: Option<Real64>,
    pub lambda_seed: Option<Real64>,
    pub seed_radius_px: Option<Real64>,
    pub sigma_seed_floor: Option<Real64>,
    pub n_search_candidates: Option<usize>,
    pub search_half_range: Option<Real64>,
    pub min_baseline_ratio: Option<Real64>,
    pub max_baseline_ratio: Option<Real64>,
    pub min_photo_curvature: Option<Real64>,
    pub max_photo_residual: Option<Real64>,
    pub min_structure_eigen: Option<Real64>,
    pub max_structure_condition: Option<Real64>,
    pub n_pyramid_levels: Option<usize>,
    pub var_floor: Option<Real64>,
    pub status_weight_photo: Option<Real64>,
    pub status_weight_seed: Option<Real64>,
    pub tiled_tile_size: Option<usize>,
    pub tiled_tile_overlap: Option<usize>,
    pub vis_min_depth: Option<Real64>,
    pub vis_max_depth: Option<Real64>,
    pub cov_vis_min: Option<Real64>,
    pub cov_vis_max: Option<Real64>,
}

impl Default for PatchDepthConfig {
    /// Nothing configured.
    fn default() -> (r: Self)
        ensures
            r.camera_mode is None,
            r.warp_mode is None,
            r.cell_size is None,
            r.pose_angular_velocity_var is None,
            r.scale is None,
            r.patch_size is None,
            r.patch_stride is None,
            r.min_depth is None,
            r.max_depth is None,
            r.photo_huber_delta is None,
            r.sigma_photo is None,
            r.n_gn_iters is None,
            r.gn_eta_convergence_tol is None,
            r.fd_eps is None,
            r.lambda_seed is None,
            r.seed_radius_px is None,
            r.sigma_seed_floor is None,
            r.n_search_candidates is None,
            r.search_half_range is None,
            r.min_baseline_ratio is None,
            r.max_baseline_ratio is None,
            r.min_photo_curvature is None,
            r.max_photo_residual is None,
            r.min_structure_eigen is None,
            r.max_structure_condition is None,
            r.n_pyramid_levels is None,
            r.var_floor is None,
            r.status_weight_photo is None,
            r.status_weight_seed is None,
            r.tiled_tile_size is None,
            r.tiled_tile_overlap is None,
            r.vis_min_depth is None,
            r.vis_max_depth is None,
            r.cov_vis_min is None,
            r.cov_vis_max is None,
    {
        PatchDepthConfig {
            camera_mode: None,
            warp_mode: None,
            cell_size: None,
            pose_angular_velocity_var: None,
            scale: None,
            patch_size: None,
            patch_stride: None,
            min_depth: None,
            max_depth: None,
            photo_huber_delta: None,
            sigma_photo: None,
            n_gn_iters: None,
            gn_eta_convergence_tol: None,
            fd_eps: None,
            lambda_seed: None,
            seed_radius_px: None,
            sigma_seed_floor: None,
            n_search_candidates: None,
            search_half_range: None,
            min_baseline_ratio: None,
            max_baseline_ratio: None,
            min_photo_curvature: None,
            max_photo_residual: None,
            min_structure_eigen: None,
            max_structure_condition: None,
            n_pyramid_levels: None,
            var_floor: None,
            status_weight_photo: None,
            status_weight_seed: None,
            tiled_tile_size: None,
            tiled_tile_overlap: None,
            vis_min_depth: None,
            vis_max_depth: None,
            cov_vis_min: None,
            cov_vis_max: None,
        }
    }
}

impl PatchDepthConfig {
    /// What the configuration sets, over the settings in use without one.
    pub open spec fn applied_to(self, base: PatchDepthSettings) -> PatchDepthSettings {
        PatchDepthSettings {
            camera_mode: match self.camera_mode {
                Some(text) => PatchDepthCameraMode::of(text@),
                None => base.camera_mode,
            },
            warp_mode: match self.warp_mode {
                Some(text) => PatchDepthWarpMode::of(text@),
                None => base.warp_mode,
            },
            scale: overridden(self.scale, base.scale),
            patch_size: overridden(self.patch_size, base.patch_size),
            patch_stride: overridden(self.patch_stride, base.patch_stride),
            min_depth: overridden(self.min_depth, base.min_depth),
            max_depth: overridden(self.max_depth, base.max_depth),
            photo_huber_delta: overridden(self.photo_huber_delta, base.photo_huber_delta),
            sigma_photo: overridden(self.sigma_photo, base.sigma_photo),
            pose_angular_velocity_var: overridden(self.pose_angular_velocity_var, base.pose_angular_velocity_var),
            n_gn_iters: overridden(self.n_gn_iters, base.n_gn_iters),
            gn_eta_convergence_tol: overridden(self.gn_eta_convergence_tol, base.gn_eta_convergence_tol),
            fd_eps: overridden(self.fd_eps, base.fd_eps),
            lambda_seed: overridden(self.lambda_seed, base.lambda_seed),
            seed_radius_px: overridden(self.seed_radius_px, base.seed_radius_px),
            sigma_seed_floor: overridden(self.sigma_seed_floor, base.sigma_seed_floor),
            n_search_candidates: overridden(self.n_search_candidates, base.n_search_candidates),
            search_half_range: overridden(self.search_half_range, base.search_half_range),
            min_baseline_ratio: overridden(self.min_baseline_ratio, base.min_baseline_ratio),
            max_baseline_ratio: overridden(self.max_baseline_ratio, base.max_baseline_ratio),
            min_photo_curvature: overridden(self.min_photo_curvature, base.min_photo_curvature),
            max_photo_residual: overridden(self.max_photo_residual, base.max_photo_residual),
            min_structure_eigen: overridden(self.min_structure_eigen, base.min_structure_eigen),
            max_structure_condition: overridden(self.max_structure_condition, base.max_structure_condition),
            n_pyramid_levels: overridden(self.n_pyramid_levels, base.n_pyramid_levels),
            var_floor: overridden(self.var_floor, base.var_floor),
            status_weight_photo: overridden(self.status_weight_photo, base.status_weight_photo),
            status_weight_seed: overridden(self.status_weight_seed, base.status_weight_seed),
            tiled_tile_size: overridden(self.tiled_tile_size, base.tiled_tile_size),
            tiled_tile_overlap: overridden(self.tiled_tile_overlap, base.tiled_tile_overlap),
        }
    }

    /// The settings of the mapper.
    pub fn to_patch_depth_settings(&self) -> (r: PatchDepthSettings)
        ensures
            r == self.applied_to(PatchDepthSettings::defaults()),
    {
        let base: PatchDepthSettings = PatchDepthSettings::default();
        PatchDepthSettings {
            camera_mode: match &self.camera_mode {
                Some(text) => PatchDepthCameraMode::from_text(text.as_str()),
                None => base.camera_mode,
            },
            warp_mode: match &self.warp_mode {
                Some(text) => PatchDepthWarpMode::from_text(text.as_str()),
                None => base.warp_mode,
            },
            scale: over(self.scale, base.scale),
            patch_size: over(self.patch_size, base.patch_size),
            patch_stride: over(self.patch_stride, base.patch_stride),
            min_depth: over(self.min_depth, base.min_depth),
            max_depth: over(self.max_depth, base.max_depth),
            photo_huber_delta: over(self.photo_huber_delta, base.photo_huber_delta),
            sigma_photo: over(self.sigma_photo, base.sigma_photo),
            pose_angular_velocity_var: over(self.pose_angular_velocity_var, base.pose_angular_velocity_var),
            n_gn_iters: over(self.n_gn_iters, base.n_gn_iters),
            gn_eta_convergence_tol: over(self.gn_eta_convergence_tol, base.gn_eta_convergence_tol),
            fd_eps: over(self.fd_eps, base.fd_eps),
            lambda_seed: over(self.lambda_seed, base.lambda_seed),
            seed_radius_px: over(self.seed_radius_px, base.seed_radius_px),
            sigma_seed_floor: over(self.sigma_seed_floor, base.sigma_seed_floor),
            n_search_candidates: over(self.n_search_candidates, base.n_search_candidates),
            search_half_range: over(self.search_half_range, base.search_half_range),
            min_baseline_ratio: over(self.min_baseline_ratio, base.min_baseline_ratio),
            max_baseline_ratio: over(self.max_baseline_ratio, base.max_baseline_ratio),
            min_photo_curvature: over(self.min_photo_curvature, base.min_photo_curvature),
            max_photo_residual: over(self.max_photo_residual, base.max_photo_residual),
            min_structure_eigen: over(self.min_structure_eigen, base.min_structure_eigen),
            max_structure_condition: over(self.max_structure_condition, base.max_structure_condition),
            n_pyramid_levels: over(self.n_pyramid_levels, base.n_pyramid_levels),
            var_floor: over(self.var_floor, base.var_floor),
            status_weight_photo: over(self.status_weight_photo, base.status_weight_photo),
            status_weight_seed: over(self.status_weight_seed, base.status_weight_seed),
            tiled_tile_size: over(self.tiled_tile_size, base.tiled_tile_size),
            tiled_tile_overlap: over(self.tiled_tile_overlap, base.tiled_tile_overlap),
        }
    }
}

impl OccupancyUpdateMode {
    /// The update mode that a text names, in lower case.
    pub open spec fn of(text: Seq<char>) -> Self {
        if text == "uncertainty_aware"@ || text == "sigma"@ || text == "v1"@ {
            OccupancyUpdateMode::UncertaintyAware
        } else {
            OccupancyUpdateMode::FixedIncrement
        }
    }

    /// Whether a text names an update mode.
    pub open spec fn known(text: Seq<char>) -> bool {
        ||| text == "uncertainty_aware"@
        ||| text == "sigma"@
        ||| text == "v1"@
        ||| text == "fixed"@
        ||| text == "fixed_increment"@
        ||| text == "v0"@
    }

    /// The update mode that a text names; fixed increments for any other text.
    pub fn from_text(text: &str) -> (r: Self)
        ensures
            r == Self::of(text@),
    {
        if same_text(text, "uncertainty_aware") || same_text(text, "sigma") || same_text(text, "v1") {
            OccupancyUpdateMode::UncertaintyAware
        } else {
            OccupancyUpdateMode::FixedIncrement
        }
    }

    /// Decides whether a text names an update mode; others are worth a warning.
    pub fn is_known(text: &str) -> (r: bool)
        ensures
            r == Self::known(text@),
    {
        same_text(text, "uncertainty_aware") || same_text(text, "sigma") || same_text(text, "v1") || same_text(
            text,
            "fixed",
        ) || same_text(text, "fixed_increment") || same_text(text, "v0")
    }
}

/// The local occupancy map.
#[derive(Clone, Debug)]
pub struct LocalOccupancyConfig {
    pub enabled: bool,
    /// How rays update the map: fixed or uncertainty_aware.
    pub update_mode: Option<String>,
    pub resolution: Option<Real64>,
    pub width_cells: Option<usize>,
    pub height_cells: Option<usize>,
    pub sample_stride: Option<usize>,
    pub min_range: Option<Real64>,
    pub max_range: Option<Real64>,
    pub max_eta_std: Option<Real64>,
    pub log_odds_hit: Option<Real32>,
    pub log_odds_miss: Option<Real32>,
    pub log_odds_min: Option<Real32>,
    pub log_odds_max: Option<Real32>,
    pub occupied_threshold: Option<Real32>,
    pub free_threshold: Option<Real32>,
    pub band_k: Option<Real64>,
    pub sigma_floor_factor: Option<Real64>,
    pub min_confidence_weight: Option<Real64>,
    pub min_obstacle_height: Option<Real64>,
    pub max_obstacle_height: Option<Real64>,
}

impl Default for LocalOccupancyConfig {
    /// A map that is off, with nothing configured.
    fn default() -> (r: Self)
        ensures
            !r.enabled,
            r.update_mode is None,
            r.resolution is None,
            r.width_cells is None,
            r.height_cells is None,
            r.sample_stride is None,
            r.min_range is None,
            r.max_range is None,
            r.max_eta_std is None,
            r.log_odds_hit is None,
            r.log_odds_miss is None,
            r.log_odds_min is None,
            r.log_odds_max is None,
            r.occupied_threshold is None,
            r.free_threshold is None,
            r.band_k is None,
            r.sigma_floor_factor is None,
            r.min_confidence_weight is None,
            r.min_obstacle_height is None,
            r.max_obstacle_height is None,
    {
        LocalOccupancyConfig {
            enabled: false,
            update_mode: None,
            resolution: None,
            width_cells: None,
            height_cells: None,
            sample_stride: None,
            min_range: None,
            max_range: None,
            max_eta_std: None,
            log_odds_hit: None,
            log_odds_miss: None,
            log_odds_min: None,
            log_odds_max: None,
            occupied_threshold: None,
            free_threshold: None,
            band_k: None,
            sigma_floor_factor: None,
            min_confidence_weight: None,
            min_obstacle_height: None,
            max_obstacle_height: None,
        }
    }
}

impl LocalOccupancyConfig {
    /// What the configuration sets, over the settings in use without one.
    pub open spec fn applied_to(self, base: LocalOccupancySettings) -> LocalOccupancySettings {
        LocalOccupancySettings {
            enabled: self.enabled,
            update_mode: match self.update_mode {
                Some(text) => OccupancyUpdateMode::of(text@),
                None => base.update_mode,
            },
            resolution: overridden(self.resolution, base.resolution),
            width_cells: overridden(self.width_cells, base.width_cells),
            height_cells: overridden(self.height_cells, base.height_cells),
            sample_stride: overridden(self.sample_stride, base.sample_stride),
            min_range: overridden(self.min_range, base.min_range),
            max_range: overridden(self.max_range, base.max_range),
            max_eta_std: overridden(self.max_eta_std, base.max_eta_std),
            log_odds_hit: overridden(self.log_odds_hit, base.log_odds_hit),
            log_odds_miss: overridden(self.log_odds_miss, base.log_odds_miss),
            log_odds_min: overridden(self.log_odds_min, base.log_odds_min),
            log_odds_max: overridden(self.log_odds_max, base.log_odds_max),
            occupied_threshold: overridden(self.occupied_threshold, base.occupied_threshold),
            free_threshold: overridden(self.free_threshold, base.free_threshold),
            band_k: overridden(self.band_k, base.band_k),
            sigma_floor_factor: overridden(self.sigma_floor_factor, base.sigma_floor_factor),
            min_confidence_weight: overridden(self.min_confidence_weight, base.min_confidence_weight),
            min_obstacle_height: overridden(self.min_obstacle_height, base.min_obstacle_height),
            max_obstacle_height: overridden(self.max_obstacle_height, base.max_obstacle_height),
        }
    }

    /// The settings of the map.
    pub fn to_local_occupancy_settings(&self) -> (r: LocalOccupancySettings)
        ensures
            r == self.applied_to(LocalOccupancySettings::defaults()),
    {
        let base: LocalOccupancySettings = LocalOccupancySettings::default();
        LocalOccupancySettings {
            enabled: self.enabled,
            update_mode: match &self.update_mode {
                Some(text) => OccupancyUpdateMode::from_text(text.as_str()),
                None => base.update_mode,
            },
            resolution: over(self.resolution, base.resolution),
            width_cells: over(self.width_cells, base.width_cells),
            height_cells: over(self.height_cells, base.height_cells),
            sample_stride: over(self.sample_stride, base.sample_stride),
            min_range: over(self.min_range, base.min_range),
            max_range: over(self.max_range, base.max_range),
            max_eta_std: over(self.max_eta_std, base.max_eta_std),
            log_odds_hit: over(self.log_odds_hit, base.log_odds_hit),
            log_odds_miss: over(self.log_odds_miss, base.log_odds_miss),
            log_odds_min: over(self.log_odds_min, base.log_odds_min),
            log_odds_max: over(self.log_odds_max, base.log_odds_max),
            occupied_threshold: over(self.occupied_threshold, base.occupied_threshold),
            free_threshold: over(self.free_threshold, base.free_threshold),
            band_k: over(self.band_k, base.band_k),
            sigma_floor_factor: over(self.sigma_floor_factor, base.sigma_floor_factor),
            min_confidence_weight: over(self.min_confidence_weight, base.min_confidence_weight),
            min_obstacle_height: over(self.min_obstacle_height, base.min_obstacle_height),
            max_obstacle_height: over(self.max_obstacle_height, base.max_obstacle_height),
        }
    }
}

/// How an image is equalised.
#[derive(Clone, Copy, Debug, PartialEq)]
pub enum Equalisation {
    Off,
    Global,
    /// Tile by tile, with limited contrast; what is not given, the equaliser chooses.
    Clahe { tile_size: Option<usize>, clip_limit: Option<Real32> },
}

/// The settings of the stereo matcher.
#[derive(Clone, Copy, Debug, PartialEq)]
pub struct StereoSettings {
    pub pyramid_levels: usize,
    pub patch_half_size: usize,
    pub max_iterations: usize,
    pub convergence_eps: Real64,
    pub min_inv_depth: Real64,
    pub max_inv_depth: Real64,
    pub init_inv_depth: Real64,
    pub max_residual: Real32,
    pub n_search_candidates: usize,
    pub knn_propagation: usize,
    pub histeq: Equalisation,
}

/// The stereo matcher.
#[derive(Clone, Debug)]
pub struct StereoConfig {
    pub enabled: bool,
    pub pyramid_levels: Option<usize>,
    pub patch_half_size: Option<usize>,
    pub max_iterations: Option<usize>,
    pub convergence_eps: Option<Real64>,
    pub min_inv_depth: Option<Real64>,
    pub max_inv_depth: Option<Real64>,
    pub init_inv_depth: Option<Real64>,
    pub max_residual: Option<Real32>,
    pub n_search_candidates: Option<usize>,
    pub knn_propagation: Option<usize>,
    pub histeq: Option<String>,
}

impl Default for StereoConfig {
    /// Stereo that is off, with nothing configured.
    fn default() -> (r: Self)
        ensures
            !r.enabled,
            r.pyramid_levels is None,
            r.patch_half_size is None,
            r.max_iterations is None,
            r.convergence_eps is None,
            r.min_inv_depth is None,
            r.max_inv_depth is None,
            r.init_inv_depth is None,
            r.max_residual is None,
            r.n_search_candidates is None,
            r.knn_propagation is None,
            r.histeq is None,
    {
        StereoConfig {
            enabled: false,
            pyramid_levels: None,
            patch_half_size: None,
            max_iterations: None,
            convergence_eps: None,
            min_inv_depth: None,
            max_inv_depth: None,
            init_inv_depth: None,
            max_residual: None,
            n_search_candidates: None,
            knn_propagation: None,
            histeq: None,
        }
    }
}

impl StereoConfig {
    /// The settings of the matcher, over those in use without a configuration.
    pub fn to_stereo_settings(&self, base: StereoSettings) -> (r: StereoSettings)
        ensures
            r == (StereoSettings {
                pyramid_levels: overridden(self.pyramid_levels, base.pyramid_levels),
                patch_half_size: overridden(self.patch_half_size, base.patch_half_size),
                max_iterations: overridden(self.max_iterations, base.max_iterations),
                convergence_eps: overridden(self.convergence_eps, base.convergence_eps),
                min_inv_depth: overridden(self.min_inv_depth, base.min_inv_depth),
                max_inv_depth: overridden(self.max_inv_depth, base.max_inv_depth),
                init_inv_depth: overridden(self.init_inv_depth, base.init_inv_depth),
                max_residual: overridden(self.max_residual, base.max_residual),
                n_search_candidates: overridden(self.n_search_candidates, base.n_search_candidates),
                knn_propagation: overridden(self.knn_propagation, base.knn_propagation),
                histeq: match self.histeq {
                    Some(text) => if crate::text::named(text@, "global"@) {
                        Equalisation::Global
                    } else {
                        Equalisation::Off
                    },
                    None => base.histeq,
                },
            }),
    {
        StereoSettings {
            pyramid_levels: over(self.pyramid_levels, base.pyramid_levels),
            patch_half_size: over(self.patch_half_size, base.patch_half_size),
            max_iterations: over(self.max_iterations, base.max_iterations),
            convergence_eps: over(self.convergence_eps, base.convergence_eps),
            min_inv_depth: over(self.min_inv_depth, base.min_inv_depth),
            max_inv_depth: over(self.max_inv_depth, base.max_inv_depth),
            init_inv_depth: over(self.init_inv_depth, base.init_inv_depth),
            max_residual: over(self.max_residual, base.max_residual),
            n_search_candidates: over(self.n_search_candidates, base.n_search_candidates),
            knn_propagation: over(self.knn_propagation, base.knn_propagation),
            histeq: match &self.histeq {
                Some(text) => if is_named(text.as_str(), "global") {
                    Equalisation::Global
                } else {
                    Equalisation::Off
                },
                None => base.histeq,
            },
        }
    }
}

/// How the biases of the inertial sensor act.
#[derive(Clone, Copy, Debug, PartialEq, Eq, Structural)]
pub enum ImuBiasGroup {
    Additive,
    SemiDirect,
}

/// The settings of the filter.
#[derive(Clone, Debug)]
pub struct VIOFilterSettings {
    pub coordinate_choice: String,
    pub max_landmarks: usize,
    pub sigma_bearing: Real64,
    pub initial_point_variance: Real64,
    pub sigma_gyroscope: Real64,
    pub sigma_accelerometer: Real64,
    pub sigma_gyroscope_bias: Real64,
    pub sigma_accelerometer_bias: Real64,
    pub initial_attitude_variance: Real64,
    pub initial_position_variance: Real64,
    pub initial_velocity_variance: Real64,
    pub initial_bias_omega_variance: Real64,
    pub initial_bias_accel_variance: Real64,
    pub initial_camera_attitude_variance: Real64,
    pub initial_camera_position_variance: Real64,
    pub process_attitude: Real64,
    pub process_position: Real64,
    pub process_velocity: Real64,
    pub process_bias_gyr: Real64,
    pub process_bias_acc: Real64,
    pub process_camera_attitude: Real64,
    pub process_camera_position: Real64,
    pub process_point: Real64,
    pub use_equivariant_output: bool,
    pub imu_bias_group: ImuBiasGroup,
    pub use_discrete_correction: bool,
    pub use_discrete_velocity_lift: bool,
    pub use_faster_riccati: bool,
    pub initial_scene_depth: Real64,
}

/// The whole configuration.
#[derive(Clone, Debug)]
pub struct VIOConfig {
    pub rudolf_v: RudolfVConfig,
    pub sparse_vog: Option<SparseVogConfig>,
    pub patch_depth: Option<PatchDepthConfig>,
    pub local_occupancy: Option<LocalOccupancyConfig>,
    pub stereo: Option<StereoConfig>,
    pub eqf: EqfConfig,
    pub main: MainConfig,
}

impl VIOConfig {
    /// The settings of the filter. `named_group` is the bias group that the configuration
    /// names, and `default_group` the one in use where it names none.
    pub fn to_filter_settings(&self, named_group: ImuBiasGroup, default_group: ImuBiasGroup) -> (r: VIOFilterSettings)
        ensures
            r.coordinate_choice@ == self.eqf.settings.coordinate_choice@,
            r.max_landmarks == self.eqf.max_features,
            r.sigma_bearing == self.eqf.measurement_noise.feature,
            r.initial_point_variance == self.eqf.initial_variance.point,
            r.sigma_gyroscope == self.eqf.velocity_noise.gyr,
            r.sigma_accelerometer == self.eqf.velocity_noise.acc,
            r.sigma_gyroscope_bias == self.eqf.velocity_noise.gyr_bias,
            r.sigma_accelerometer_bias == self.eqf.velocity_noise.acc_bias,
            r.initial_attitude_variance == self.eqf.initial_variance.attitude,
            r.initial_position_variance == self.eqf.initial_variance.position,
            r.initial_velocity_variance == self.eqf.initial_variance.velocity,
            r.initial_bias_omega_variance == self.eqf.initial_variance.bias_gyr,
            r.initial_bias_accel_variance == self.eqf.initial_variance.bias_acc,
            r.initial_camera_attitude_variance == self.eqf.initial_variance.camera_attitude,
            r.initial_camera_position_variance == self.eqf.initial_variance.camera_position,
            r.process_attitude == self.eqf.process_variance.attitude,
            r.process_position == self.eqf.process_variance.position,
            r.process_velocity == self.eqf.process_variance.velocity,
            r.process_bias_gyr == self.eqf.process_variance.bias_gyr,
            r.process_bias_acc == self.eqf.process_variance.bias_acc,
            r.process_camera_attitude == self.eqf.process_variance.camera_attitude,
            r.process_camera_position == self.eqf.process_variance.camera_position,
            r.process_point == self.eqf.process_variance.point,
            r.use_equivariant_output == self.eqf.settings.use_equivariant_output,
            r.use_discrete_correction == self.eqf.settings.use_discrete_innovation_lift,
            r.use_discrete_velocity_lift == self.eqf.settings.use_discrete_velocity_lift,
            r.initial_scene_depth == self.eqf.initial_value.scene_depth,
            r.imu_bias_group == (if self.eqf.settings.imu_bias_group is Some {
                named_group
            } else {
                default_group
            }),
            r.use_faster_riccati == (match self.eqf.settings.riccati_variant {
                Some(text) => crate::text::named(text@, "faster"@),
                None => false,
            }),
    {
        let eqf: &EqfConfig = &self.eqf;
        VIOFilterSettings {
            coordinate_choice: eqf.settings.coordinate_choice.clone(),
            max_landmarks: eqf.max_features,
            sigma_bearing: eqf.measurement_noise.feature,
            initial_point_variance: eqf.initial_variance.point,
            sigma_gyroscope: eqf.velocity_noise.gyr,
            sigma_accelerometer: eqf.velocity_noise.acc,
            sigma_gyroscope_bias: eqf.velocity_noise.gyr_bias,
            sigma_accelerometer_bias: eqf.velocity_noise.acc_bias,
            initial_attitude_variance: eqf.initial_variance.attitude,
            initial_position_variance: eqf.initial_variance.position,
            initial_velocity_variance: eqf.initial_variance.velocity,
            initial_bias_omega_variance: eqf.initial_variance.bias_gyr,
            initial_bias_accel_variance: eqf.initial_variance.bias_acc,
            initial_camera_attitude_variance: eqf.initial_variance.camera_attitude,
            initial_camera_position_variance: eqf.initial_variance.camera_position,
            process_attitude: eqf.process_variance.attitude,
            process_position: eqf.process_variance.position,
            process_velocity: eqf.process_variance.velocity,
            process_bias_gyr: eqf.process_variance.bias_gyr,
            process_bias_acc: eqf.process_variance.bias_acc,
            process_camera_attitude: eqf.process_variance.camera_attitude,
            process_camera_position: eqf.process_variance.camera_position,
            process_point: eqf.process_variance.point,
            use_equivariant_output: eqf.settings.use_equivariant_output,
            use_discrete_correction: eqf.settings.use_discrete_innovation_lift,
            use_discrete_velocity_lift: eqf.settings.use_discrete_velocity_lift,
            initial_scene_depth: eqf.initial_value.scene_depth,
            imu_bias_group: if eqf.settings.imu_bias_group.is_some() {
                named_group
            } else {
                default_group
            },
            use_faster_riccati: match &eqf.settings.riccati_variant {
                Some(text) => is_named(text.as_str(), "faster"),
                None => false,
            },
        }
    }
}

/// The size of cells and the ranges that are shown do not reach the settings.
pub proof fn law_display_does_not_reach_the_settings(
    config: PatchDepthConfig,
    base: PatchDepthSettings,
    cell_size: Option<usize>,
    vis_min_depth: Option<Real64>,
    vis_max_depth: Option<Real64>,
    cov_vis_min: Option<Real64>,
    cov_vis_max: Option<Real64>,
)
    ensures
        (PatchDepthConfig { cell_size, vis_min_depth, vis_max_depth, cov_vis_min, cov_vis_max, ..config }).applied_to(
            base,
        ) == config.applied_to(base),
{
}

/// A configuration that sets nothing leaves the settings of the mapper and of the map as they
/// are without one; whether a map is built stands in its configuration.
pub proof fn law_empty_configuration_changes_nothing(patch: PatchDepthConfig, map: LocalOccupancyConfig)
    requires
        patch.camera_mode is None,
        patch.warp_mode is None,
        patch.scale is None,
        patch.patch_size is None,
        patch.patch_stride is None,
        patch.min_depth is None,
        patch.max_depth is None,
        patch.photo_huber_delta is None,
        patch.sigma_photo is None,
        patch.pose_angular_velocity_var is None,
        patch.n_gn_iters is None,
        patch.gn_eta_convergence_tol is None,
        patch.fd_eps is None,
        patch.lambda_seed is None,
        patch.seed_radius_px is None,
        patch.sigma_seed_floor is None,
        patch.n_search_candidates is None,
        patch.search_half_range is None,
        patch.min_baseline_ratio is None,
        patch.max_baseline_ratio is None,
        patch.min_photo_curvature is None,
        patch.max_photo_residual is None,
        patch.min_structure_eigen is None,
        patch.max_structure_condition is None,
        patch.n_pyramid_levels is None,
        patch.var_floor is None,
        patch.status_weight_photo is None,
        patch.status_weight_seed is None,
        patch.tiled_tile_size is None,
        patch.tiled_tile_overlap is None,
        map.update_mode is None,
        map.resolution is None,
        map.width_cells is None,
        map.height_cells is None,
        map.sample_stride is None,
        map.min_range is None,
        map.max_range is None,
        map.max_eta_std is None,
        map.log_odds_hit is None,
        map.log_odds_miss is None,
        map.log_odds_min is None,
        map.log_odds_max is None,
        map.occupied_threshold is None,
        map.free_threshold is None,
        map.band_k is None,
        map.sigma_floor_factor is None,
        map.min_confidence_weight is None,
        map.min_obstacle_height is None,
        map.max_obstacle_height is None,
    ensures
        patch.applied_to(PatchDepthSettings::defaults()) == PatchDepthSettings::defaults(),
        map.applied_to(LocalOccupancySettings::defaults()) == (LocalOccupancySettings {
            enabled: map.enabled,
            ..LocalOccupancySettings::defaults()
        }),
{
}

/// A setting of the depth mapper that is configured has the configured value, and one that is
/// not has the value it had.
pub proof fn law_configured_depth_settings_win(config: PatchDepthConfig, base: PatchDepthSettings, r: PatchDepthSettings)
    requires
        r == config.applied_to(base),
    ensures
        config.pose_angular_velocity_var matches Some(v) ==> r.pose_angular_velocity_var == v,
        config.pose_angular_velocity_var is None ==> r.pose_angular_velocity_var == base.pose_angular_velocity_var,
        config.scale matches Some(v) ==> r.scale == v,
        config.scale is None ==> r.scale == base.scale,
        config.patch_size matches Some(v) ==> r.patch_size == v,
        config.patch_size is None ==> r.patch_size == base.patch_size,
        config.patch_stride matches Some(v) ==> r.patch_stride == v,
        config.patch_stride is None ==> r.patch_stride == base.patch_stride,
        config.min_depth matches Some(v) ==> r.min_depth == v,
        config.min_depth is None ==> r.min_depth == base.min_depth,
        config.max_depth matches Some(v) ==> r.max_depth == v,
        config.max_depth is None ==> r.max_depth == base.max_depth,
        config.photo_huber_delta matches Some(v) ==> r.photo_huber_delta == v,
        config.photo_huber_delta is None ==> r.photo_huber_delta == base.photo_huber_delta,
        config.sigma_photo matches Some(v) ==> r.sigma_photo == v,
        config.sigma_photo is None ==> r.sigma_photo == base.sigma_photo,
        config.n_gn_iters matches Some(v) ==> r.n_gn_iters == v,
        config.n_gn_iters is None ==> r.n_gn_iters == base.n_gn_iters,
        config.gn_eta_convergence_tol matches Some(v) ==> r.gn_eta_convergence_tol == v,
        config.gn_eta_convergence_tol is None ==> r.gn_eta_convergence_tol == base.gn_eta_convergence_tol,
        config.fd_eps matches Some(v) ==> r.fd_eps == v,
        config.fd_eps is None ==> r.fd_eps == base.fd_eps,
        config.lambda_seed matches Some(v) ==> r.lambda_seed == v,
        config.lambda_seed is None ==> r.lambda_seed == base.lambda_seed,
        config.seed_radius_px matches Some(v) ==> r.seed_radius_px == v,
        config.seed_radius_px is None ==> r.seed_radius_px == base.seed_radius_px,
        config.sigma_seed_floor matches Some(v) ==> r.sigma_seed_floor == v,
        config.sigma_seed_floor is None ==> r.sigma_seed_floor == base.sigma_seed_floor,
        config.n_search_candidates matches Some(v) ==> r.n_search_candidates == v,
        config.n_search_candidates is None ==> r.n_search_candidates == base.n_search_candidates,
        config.search_half_range matches Some(v) ==> r.search_half_range == v,
        config.search_half_range is None ==> r.search_half_range == base.search_half_range,
        config.min_baseline_ratio matches Some(v) ==> r.min_baseline_ratio == v,
        config.min_baseline_ratio is None ==> r.min_baseline_ratio == base.min_baseline_ratio,
        config.max_baseline_ratio matches Some(v) ==> r.max_baseline_ratio == v,
        config.max_baseline_ratio is None ==> r.max_baseline_ratio == base.max_baseline_ratio,
        config.min_photo_curvature matches Some(v) ==> r.min_photo_curvature == v,
        config.min_photo_curvature is None ==> r.min_photo_curvature == base.min_photo_curvature,
        config.max_photo_residual matches Some(v) ==> r.max_photo_residual == v,
        config.max_photo_residual is None ==> r.max_photo_residual == base.max_photo_residual,
        config.min_structure_eigen matches Some(v) ==> r.min_structure_eigen == v,
        config.min_structure_eigen is None ==> r.min_structure_eigen == base.min_structure_eigen,
        config.max_structure_condition matches Some(v) ==> r.max_structure_condition == v,
        config.max_structure_condition is None ==> r.max_structure_condition == base.max_structure_condition,
        config.n_pyramid_levels matches Some(v) ==> r.n_pyramid_levels == v,
        config.n_pyramid_levels is None ==> r.n_pyramid_levels == base.n_pyramid_levels,
        config.var_floor matches Some(v) ==> r.var_floor == v,
        config.var_floor is None ==> r.var_floor == base.var_floor,
        config.status_weight_photo matches Some(v) ==> r.status_weight_photo == v,
        config.status_weight_photo is None ==> r.status_weight_photo == base.status_weight_photo,
        config.status_weight_seed matches Some(v) ==> r.status_weight_seed == v,
        config.status_weight_seed is None ==> r.status_weight_seed == base.status_weight_seed,
        config.tiled_tile_size matches Some(v) ==> r.tiled_tile_size == v,
        config.tiled_tile_size is None ==> r.tiled_tile_size == base.tiled_tile_size,
        config.tiled_tile_overlap matches Some(v) ==> r.tiled_tile_overlap == v,
        config.tiled_tile_overlap is None ==> r.tiled_tile_overlap == base.tiled_tile_overlap,
        config.camera_mode is None ==> r.camera_mode == base.camera_mode,
        config.warp_mode is None ==> r.warp_mode == base.warp_mode,
        config.camera_mode matches Some(text) ==> r.camera_mode == PatchDepthCameraMode::of(text@),
        config.warp_mode matches Some(text) ==> r.warp_mode == PatchDepthWarpMode::of(text@),
{
}

/// A setting of the local map that is configured has the configured value, and one that is not
/// has the value it had; whether there is a map is always configured.
pub proof fn law_configured_map_settings_win(
    config: LocalOccupancyConfig,
    base: LocalOccupancySettings,
    r: LocalOccupancySettings,
)
    requires
        r == config.applied_to(base),
    ensures
        r.enabled == config.enabled,
        config.resolution matches Some(v) ==> r.resolution == v,
        config.resolution is None ==> r.resolution == base.resolution,
        config.width_cells matches Some(v) ==> r.width_cells == v,
        config.width_cells is None ==> r.width_cells == base.width_cells,
        config.height_cells matches Some(v) ==> r.height_cells == v,
        config.height_cells is None ==> r.height_cells == base.height_cells,
        config.sample_stride matches Some(v) ==> r.sample_stride == v,
        config.sample_stride is None ==> r.sample_stride == base.sample_stride,
        config.min_range matches Some(v) ==> r.min_range == v,
        config.min_range is None ==> r.min_range == base.min_range,
        config.max_range matches Some(v) ==> r.max_range == v,
        config.max_range is None ==> r.max_range == base.max_range,
        config.max_eta_std matches Some(v) ==> r.max_eta_std == v,
        config.max_eta_std is None ==> r.max_eta_std == base.max_eta_std,
        config.log_odds_hit matches Some(v) ==> r.log_odds_hit == v,
        config.log_odds_hit is None ==> r.log_odds_hit == base.log_odds_hit,
        config.log_odds_miss matches Some(v) ==> r.log_odds_miss == v,
        config.log_odds_miss is None ==> r.log_odds_miss == base.log_odds_miss,
        config.log_odds_min matches Some(v) ==> r.log_odds_min == v,
        config.log_odds_min is None ==> r.log_odds_min == base.log_odds_min,
        config.log_odds_max matches Some(v) ==> r.log_odds_max == v,
        config.log_odds_max is None ==> r.log_odds_max == base.log_odds_max,
        config.occupied_threshold matches Some(v) ==> r.occupied_threshold == v,
        config.occupied_threshold is None ==> r.occupied_threshold == base.occupied_threshold,
        config.free_threshold matches Some(v) ==> r.free_threshold == v,
        config.free_threshold is None ==> r.free_threshold == base.free_threshold,
        config.band_k matches Some(v) ==> r.band_k == v,
        config.band_k is None ==> r.band_k == base.band_k,
        config.sigma_floor_factor matches Some(v) ==> r.sigma_floor_factor == v,
        config.sigma_floor_factor is None ==> r.sigma_floor_factor == base.sigma_floor_factor,
        config.min_confidence_weight matches Some(v) ==> r.min_confidence_weight == v,
        config.min_confidence_weight is None ==> r.min_confidence_weight == base.min_confidence_weight,
        config.min_obstacle_height matches Some(v) ==> r.min_obstacle_height == v,
        config.min_obstacle_height is None ==> r.min_obstacle_height == base.min_obstacle_height,
        config.max_obstacle_height matches Some(v) ==> r.max_obstacle_height == v,
        config.max_obstacle_height is None ==> r.max_obstacle_height == base.max_obstacle_height,
        config.update_mode is None ==> r.update_mode == base.update_mode,
        config.update_mode matches Some(text) ==> r.update_mode == OccupancyUpdateMode::of(text@),
{
}

/// A setting of the sparse filter that is configured has the configured value, and one that is
/// not has the value it had.
pub proof fn law_configured_filter_settings_win(config: &SparseVogConfig, base: SparseVogSettings, r: SparseVogSettings)
    requires
        call_ensures(SparseVogConfig::to_sparse_settings, (config, base), r),
    ensures
        r.parametrization == DepthParametrization::of(config.parametrization@),
        config.max_pool_size matches Some(v) ==> r.max_pool_size == v,
        config.max_pool_size is None ==> r.max_pool_size == base.max_pool_size,
        config.min_track_length matches Some(v) ==> r.min_track_length == v,
        config.min_track_length is None ==> r.min_track_length == base.min_track_length,
        config.conv_inlier_ratio matches Some(v) ==> r.conv_inlier_ratio == v,
        config.conv_inlier_ratio is None ==> r.conv_inlier_ratio == base.conv_inlier_ratio,
        config.conv_variance_threshold matches Some(v) ==> r.conv_variance_threshold == v,
        config.conv_variance_threshold is None ==> r.conv_variance_threshold == base.conv_variance_threshold,
        config.init_depth_var matches Some(v) ==> r.init_depth_var == v,
        config.init_depth_var is None ==> r.init_depth_var == base.init_depth_var,
        config.init_invdepth_var matches Some(v) ==> r.init_invdepth_var == v,
        config.init_invdepth_var is None ==> r.init_invdepth_var == base.init_invdepth_var,
        config.sigma_pixel matches Some(v) ==> r.sigma_pixel == v,
        config.sigma_pixel is None ==> r.sigma_pixel == base.sigma_pixel,
        config.uniform_z_max matches Some(v) ==> r.uniform_z_max == v,
        config.uniform_z_max is None ==> r.uniform_z_max == base.uniform_z_max,
        config.uniform_rho_max matches Some(v) ==> r.uniform_rho_max == v,
        config.uniform_rho_max is None ==> r.uniform_rho_max == base.uniform_rho_max,
        config.uniform_d_min matches Some(v) ==> r.uniform_d_min == v,
        config.uniform_d_min is None ==> r.uniform_d_min == base.uniform_d_min,
        config.uniform_d_max matches Some(v) ==> r.uniform_d_max == v,
        config.uniform_d_max is None ==> r.uniform_d_max == base.uniform_d_max,
        config.a_init matches Some(v) ==> r.a_init == v,
        config.a_init is None ==> r.a_init == base.a_init,
        config.b_init matches Some(v) ==> r.b_init == v,
        config.b_init is None ==> r.b_init == base.b_init,
        config.ab_min matches Some(v) ==> r.ab_min == v,
        config.ab_min is None ==> r.ab_min == base.ab_min,
        config.ab_max matches Some(v) ==> r.ab_max == v,
        config.ab_max is None ==> r.ab_max == base.ab_max,
        config.min_inlier_ratio matches Some(v) ==> r.min_inlier_ratio == v,
        config.min_inlier_ratio is None ==> r.min_inlier_ratio == base.min_inlier_ratio,
        config.mahalanobis_reset_chi2 matches Some(v) ==> r.mahalanobis_reset_chi2 == v,
        config.mahalanobis_reset_chi2 is None ==> r.mahalanobis_reset_chi2 == base.mahalanobis_reset_chi2,
        config.process_depth_var matches Some(v) ==> r.process_depth_var == v,
        config.process_depth_var is None ==> r.process_depth_var == base.process_depth_var,
        config.min_parallax matches Some(v) ==> r.min_parallax == v,
        config.min_parallax is None ==> r.min_parallax == base.min_parallax,
        config.min_cos_sim matches Some(v) ==> r.min_cos_sim == v,
        config.min_cos_sim is None ==> r.min_cos_sim == base.min_cos_sim,
        config.min_depth matches Some(v) ==> r.min_depth == v,
        config.min_depth is None ==> r.min_depth == base.min_depth,
        config.max_depth matches Some(v) ==> r.max_depth == v,
        config.max_depth is None ==> r.max_depth == base.max_depth,
        config.reanchor_flow_px matches Some(v) ==> r.reanchor_flow_px == v,
        config.reanchor_flow_px is None ==> r.reanchor_flow_px == base.reanchor_flow_px,
{
}

/// A setting of the stereo matcher that is configured has the configured value, and one that is
/// not has the value it had; an image is equalised where the configuration says so by name.
pub proof fn law_configured_stereo_settings_win(config: &StereoConfig, base: StereoSettings, r: StereoSettings)
    requires
        call_ensures(StereoConfig::to_stereo_settings, (config, base), r),
    ensures
        config.pyramid_levels matches Some(v) ==> r.pyramid_levels == v,
        config.pyramid_levels is None ==> r.pyramid_levels == base.pyramid_levels,
        config.patch_half_size matches Some(v) ==> r.patch_half_size == v,
        config.patch_half_size is None ==> r.patch_half_size == base.patch_half_size,
        config.max_iterations matches Some(v) ==> r.max_iterations == v,
        config.max_iterations is None ==> r.max_iterations == base.max_iterations,
        config.convergence_eps matches Some(v) ==> r.convergence_eps == v,
        config.convergence_eps is None ==> r.convergence_eps == base.convergence_eps,
        config.min_inv_depth matches Some(v) ==> r.min_inv_depth == v,
        config.min_inv_depth is None ==> r.min_inv_depth == base.min_inv_depth,
        config.max_inv_depth matches Some(v) ==> r.max_inv_depth == v,
        config.max_inv_depth is None ==> r.max_inv_depth == base.max_inv_depth,
        config.init_inv_depth matches Some(v) ==> r.init_inv_depth == v,
        config.init_inv_depth is None ==> r.init_inv_depth == base.init_inv_depth,
        config.max_residual matches Some(v) ==> r.max_residual == v,
        config.max_residual is None ==> r.max_residual == base.max_residual,
        config.n_search_candidates matches Some(v) ==> r.n_search_candidates == v,
        config.n_search_candidates is None ==> r.n_search_candidates == base.n_search_candidates,
        config.knn_propagation matches Some(v) ==> r.knn_propagation == v,
        config.knn_propagation is None ==> r.knn_propagation == base.knn_propagation,
        config.histeq is None ==> r.histeq == base.histeq,
        config.histeq matches Some(text) ==> (crate::text::named(text@, "global"@) ==> r.histeq == Equalisation::Global)
            && (!crate::text::named(text@, "global"@) ==> r.histeq == Equalisation::Off),
{
}

/// The names of the parametrisations of depth; any other text names the inverse depth.
pub proof fn law_parametrisations_have_their_names(text: &str, r: DepthParametrization)
    requires
        call_ensures(DepthParametrization::from_text, (text,), r),
    ensures
        crate::text::named(text@, "euclidean"@) ==> r == DepthParametrization::Euclidean,
        r == DepthParametrization::Euclidean ==> crate::text::named(text@, "euclidean"@),
        crate::text::named(text@, "polar"@) && !crate::text::named(text@, "euclidean"@) ==> r == DepthParametrization::Polar,
        crate::text::named(text@, "polar3d"@) && !crate::text::named(text@, "euclidean"@) ==> r == DepthParametrization::Polar,
        r == DepthParametrization::Polar ==> crate::text::named(text@, "polar"@) || crate::text::named(text@, "polar3d"@),
        r == DepthParametrization::InvDepth <==> !crate::text::named(text@, "euclidean"@) && !crate::text::named(text@, "polar"@) && !crate::text::named(text@, "polar3d"@),
{
}

/// The names of the camera modes; any other text names the raw images.
pub proof fn law_camera_modes_have_their_names(text: &str, r: PatchDepthCameraMode)
    requires
        call_ensures(PatchDepthCameraMode::from_text, (text,), r),
    ensures
        crate::text::named(text@, "undistorted_pinhole"@) ==> r == PatchDepthCameraMode::UndistortedPinhole,
        crate::text::named(text@, "undistorted-pinhole"@) ==> r == PatchDepthCameraMode::UndistortedPinhole,
        crate::text::named(text@, "pinhole"@) ==> r == PatchDepthCameraMode::UndistortedPinhole,
        r == PatchDepthCameraMode::UndistortedPinhole ==> crate::text::named(text@, "undistorted_pinhole"@) || crate::text::named(text@, "undistorted-pinhole"@) || crate::text::named(text@, "pinhole"@),
        crate::text::named(text@, "tiled_bearing"@) && !crate::text::named(text@, "undistorted_pinhole"@) && !crate::text::named(text@, "undistorted-pinhole"@) && !crate::text::named(text@, "pinhole"@) ==> r == PatchDepthCameraMode::TiledBearing,
        crate::text::named(text@, "tiled-bearing"@) && !crate::text::named(text@, "undistorted_pinhole"@) && !crate::text::named(text@, "undistorted-pinhole"@) && !crate::text::named(text@, "pinhole"@) ==> r == PatchDepthCameraMode::TiledBearing,
        crate::text::named(text@, "tiledbearing"@) && !crate::text::named(text@, "undistorted_pinhole"@) && !crate::text::named(text@, "undistorted-pinhole"@) && !crate::text::named(text@, "pinhole"@) ==> r == PatchDepthCameraMode::TiledBearing,
        crate::text::named(text@, "tiled_pinhole"@) && !crate::text::named(text@, "undistorted_pinhole"@) && !crate::text::named(text@, "undistorted-pinhole"@) && !crate::text::named(text@, "pinhole"@) ==> r == PatchDepthCameraMode::TiledBearing,
        crate::text::named(text@, "tiled-pinhole"@) && !crate::text::named(text@, "undistorted_pinhole"@) && !crate::text::named(text@, "undistorted-pinhole"@) && !crate::text::named(text@, "pinhole"@) ==> r == PatchDepthCameraMode::TiledBearing,
        crate::text::named(text@, "tiledpinhole"@) && !crate::text::named(text@, "undistorted_pinhole"@) && !crate::text::named(text@, "undistorted-pinhole"@) && !crate::text::named(text@, "pinhole"@) ==> r == PatchDepthCameraMode::TiledBearing,
        r == PatchDepthCameraMode::TiledBearing ==> crate::text::named(text@, "tiled_bearing"@) || crate::text::named(text@, "tiled-bearing"@) || crate::text::named(text@, "tiledbearing"@) || crate::text::named(text@, "tiled_pinhole"@) || crate::text::named(text@, "tiled-pinhole"@) || crate::text::named(text@, "tiledpinhole"@),
        crate::text::named(text@, "per_patch_bearing"@) && !crate::text::named(text@, "undistorted_pinhole"@) && !crate::text::named(text@, "undistorted-pinhole"@) && !crate::text::named(text@, "pinhole"@) && !crate::text::named(text@, "tiled_bearing"@) && !crate::text::named(text@, "tiled-bearing"@) && !crate::text::named(text@, "tiledbearing"@) && !crate::text::named(text@, "tiled_pinhole"@) && !crate::text::named(text@, "tiled-pinhole"@) && !crate::text::named(text@, "tiledpinhole"@) ==> r == PatchDepthCameraMode::PerPatchBearing,
        crate::text::named(text@, "per-patch-bearing"@) && !crate::text::named(text@, "undistorted_pinhole"@) && !crate::text::named(text@, "undistorted-pinhole"@) && !crate::text::named(text@, "pinhole"@) && !crate::text::named(text@, "tiled_bearing"@) && !crate::text::named(text@, "tiled-bearing"@) && !crate::text::named(text@, "tiledbearing"@) && !crate::text::named(text@, "tiled_pinhole"@) && !crate::text::named(text@, "tiled-pinhole"@) && !crate::text::named(text@, "tiledpinhole"@) ==> r == PatchDepthCameraMode::PerPatchBearing,
        crate::text::named(text@, "perpatchbearing"@) && !crate::text::named(text@, "undistorted_pinhole"@) && !crate::text::named(text@, "undistorted-pinhole"@) && !crate::text::named(text@, "pinhole"@) && !crate::text::named(text@, "tiled_bearing"@) && !crate::text::named(text@, "tiled-bearing"@) && !crate::text::named(text@, "tiledbearing"@) && !crate::text::named(text@, "tiled_pinhole"@) && !crate::text::named(text@, "tiled-pinhole"@) && !crate::text::named(text@, "tiledpinhole"@) ==> r == PatchDepthCameraMode::PerPatchBearing,
        crate::text::named(text@, "per_patch"@) && !crate::text::named(text@, "undistorted_pinhole"@) && !crate::text::named(text@, "undistorted-pinhole"@) && !crate::text::named(text@, "pinhole"@) && !crate::text::named(text@, "tiled_bearing"@) && !crate::text::named(text@, "tiled-bearing"@) && !crate::text::named(text@, "tiledbearing"@) && !crate::text::named(text@, "tiled_pinhole"@) && !crate::text::named(text@, "tiled-pinhole"@) && !crate::text::named(text@, "tiledpinhole"@) ==> r == PatchDepthCameraMode::PerPatchBearing,
        crate::text::named(text@, "per-patch"@) && !crate::text::named(text@, "undistorted_pinhole"@) && !crate::text::named(text@, "undistorted-pinhole"@) && !crate::text::named(text@, "pinhole"@) && !crate::text::named(text@, "tiled_bearing"@) && !crate::text::named(text@, "tiled-bearing"@) && !crate::text::named(text@, "tiledbearing"@) && !crate::text::named(text@, "tiled_pinhole"@) && !crate::text::named(text@, "tiled-pinhole"@) && !crate::text::named(text@, "tiledpinhole"@) ==> r == PatchDepthCameraMode::PerPatchBearing,
        crate::text::named(text@, "perpatch"@) && !crate::text::named(text@, "undistorted_pinhole"@) && !crate::text::named(text@, "undistorted-pinhole"@) && !crate::text::named(text@, "pinhole"@) && !crate::text::named(text@, "tiled_bearing"@) && !crate::text::named(text@, "tiled-bearing"@) && !crate::text::named(text@, "tiledbearing"@) && !crate::text::named(text@, "tiled_pinhole"@) && !crate::text::named(text@, "tiled-pinhole"@) && !crate::text::named(text@, "tiledpinhole"@) ==> r == PatchDepthCameraMode::PerPatchBearing,
        r == PatchDepthCameraMode::PerPatchBearing ==> crate::text::named(text@, "per_patch_bearing"@) || crate::text::named(text@, "per-patch-bearing"@) || crate::text::named(text@, "perpatchbearing"@) || crate::text::named(text@, "per_patch"@) || crate::text::named(text@, "per-patch"@) || crate::text::named(text@, "perpatch"@),
        r == PatchDepthCameraMode::RawDistorted <==> !crate::text::named(text@, "undistorted_pinhole"@) && !crate::text::named(text@, "undistorted-pinhole"@) && !crate::text::named(text@, "pinhole"@) && !crate::text::named(text@, "tiled_bearing"@) && !crate::text::named(text@, "tiled-bearing"@) && !crate::text::named(text@, "tiledbearing"@) && !crate::text::named(text@, "tiled_pinhole"@) && !crate::text::named(text@, "tiled-pinhole"@) && !crate::text::named(text@, "tiledpinhole"@) && !crate::text::named(text@, "per_patch_bearing"@) && !crate::text::named(text@, "per-patch-bearing"@) && !crate::text::named(text@, "perpatchbearing"@) && !crate::text::named(text@, "per_patch"@) && !crate::text::named(text@, "per-patch"@) && !crate::text::named(text@, "perpatch"@),
{
}

/// The names of the translation of patches; any other text names the exact warp.
pub proof fn law_warp_modes_have_their_names(text: &str, r: PatchDepthWarpMode)
    requires
        call_ensures(PatchDepthWarpMode::from_text, (text,), r),
    ensures
        crate::text::named(text@, "fast_translation"@) ==> r == PatchDepthWarpMode::FastTranslation,
        crate::text::named(text@, "fast-translation"@) ==> r == PatchDepthWarpMode::FastTranslation,
        crate::text::named(text@, "fasttranslation"@) ==> r == PatchDepthWarpMode::FastTranslation,
        crate::text::named(text@, "translation"@) ==> r == PatchDepthWarpMode::FastTranslation,
        r == PatchDepthWarpMode::FastTranslation ==> crate::text::named(text@, "fast_translation"@) || crate::text::named(text@, "fast-translation"@) || crate::text::named(text@, "fasttranslation"@) || crate::text::named(text@, "translation"@),
        r == PatchDepthWarpMode::Exact <==> !crate::text::named(text@, "fast_translation"@) && !crate::text::named(text@, "fast-translation"@) && !crate::text::named(text@, "fasttranslation"@) && !crate::text::named(text@, "translation"@),
{
}

/// The names of the uncertain update of a map, letter for letter; any other text names the fixed
/// one.
pub proof fn law_update_modes_have_their_names(text: &str, r: OccupancyUpdateMode)
    requires
        call_ensures(OccupancyUpdateMode::from_text, (text,), r),
    ensures
        (text@ == "uncertainty_aware"@) ==> r == OccupancyUpdateMode::UncertaintyAware,
        (text@ == "sigma"@) ==> r == OccupancyUpdateMode::UncertaintyAware,
        (text@ == "v1"@) ==> r == OccupancyUpdateMode::UncertaintyAware,
        r == OccupancyUpdateMode::UncertaintyAware ==> (text@ == "uncertainty_aware"@) || (text@ == "sigma"@) || (text@ == "v1"@),
        r == OccupancyUpdateMode::FixedIncrement <==> !(text@ == "uncertainty_aware"@) && !(text@ == "sigma"@) && !(text@ == "v1"@),
{
}

} // verus!
