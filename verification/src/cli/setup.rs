//! Which parts of the program run, and with what settings.
use vstd::prelude::*;
use crate::config::{Equalisation, LocalOccupancyConfig, RudolfVConfig, SparseVogConfig};
use crate::core_types::CameraIntrinsics;
use crate::depth::occupancy::LocalOccupancySettings;
use crate::ieee::{real64, zero64, Real32, Real64};
use crate::text::{is_named, same_text};

verus! {

/// The chart of the sparse filter.
#[derive(Clone, Copy, Debug, PartialEq, Eq, Structural)]
pub enum Sparse3DChart {
    Polar,
    InvDepth,
    InvDepthAdditive,
}

/// The chart that a text names.
pub open spec fn chart_of(text: Seq<char>) -> Sparse3DChart {
    if crate::text::named(text, "invdepth_additive3d"@) || crate::text::named(text, "invdepth-additive"@)
        || crate::text::named(text, "rho3d"@) || crate::text::named(text, "rho"@) || crate::text::named(
        text,
        "additive"@,
    ) {
        Sparse3DChart::InvDepthAdditive
    } else if crate::text::named(text, "invdepth"@) || crate::text::named(text, "invdepth3d"@) || crate::text::named(
        text,
        "inverse-depth"@,
    ) {
        Sparse3DChart::InvDepth
    } else {
        Sparse3DChart::Polar
    }
}

/// The chart that a text names; polar for any other text.
pub fn parse_sparse_chart(name: &str) -> (r: Sparse3DChart)
    ensures
        r == chart_of(name@),
{
    if is_named(name, "invdepth_additive3d") || is_named(name, "invdepth-additive") || is_named(name, "rho3d")
        || is_named(name, "rho") || is_named(name, "additive") {
        Sparse3DChart::InvDepthAdditive
    } else if is_named(name, "invdepth") || is_named(name, "invdepth3d") || is_named(name, "inverse-depth") {
        Sparse3DChart::InvDepth
    } else {
        Sparse3DChart::Polar
    }
}

/// The least pool of the sparse filter where none is configured.
pub const LEAST_POOL: usize = 300;

/// Whether and how the sparse filter runs.
#[derive(Clone, Copy, Debug, PartialEq, Eq, Structural)]
pub enum SparseChoice {
    /// The configuration switches it off.
    SwitchedOff,
    /// It runs as configured.
    Configured(Sparse3DChart),
    /// It runs with this chart and a pool of this size.
    Requested(Sparse3DChart, usize),
    /// Nobody asked for it.
    Absent,
}

/// Whether and how the sparse filter runs: as configured, else as requested, with a pool for
/// as many features as are followed.
pub fn build_sparse_filter(
    config: Option<&SparseVogConfig>,
    requested: bool,
    requested_chart: &str,
    feature_count: usize,
) -> (r: SparseChoice)
    ensures
        config matches Some(c) ==> r == (if c.enabled {
            SparseChoice::Configured(chart_of(c.parametrization@))
        } else {
            SparseChoice::SwitchedOff
        }),
        config is None ==> r == (if requested {
            SparseChoice::Requested(
                chart_of(requested_chart@),
                if feature_count > LEAST_POOL {
                    feature_count
                } else {
                    LEAST_POOL
                },
            )
        } else {
            SparseChoice::Absent
        }),
{
    match config {
        Some(c) => if c.enabled {
            SparseChoice::Configured(parse_sparse_chart(c.parametrization.as_str()))
        } else {
            SparseChoice::SwitchedOff
        },
        None => if requested {
            let pool: usize = if feature_count > LEAST_POOL {
                feature_count
            } else {
                LEAST_POOL
            };
            SparseChoice::Requested(parse_sparse_chart(requested_chart), pool)
        } else {
            SparseChoice::Absent
        },
    }
}

/// Whether a local map is asked for, on the command line or in the configuration.
pub fn occupancy_requested(argument: bool, config: Option<&LocalOccupancyConfig>) -> (r: bool)
    ensures
        r == (argument || (config matches Some(c) && c.enabled)),
{
    match config {
        Some(c) => argument || c.enabled,
        None => argument,
    }
}

/// Whether depths are mapped: unless forbidden, where asked for, configured, or needed for a
/// local map.
pub fn patch_depth_enabled(forbidden: bool, requested: bool, map_requested: bool, configured: bool) -> (r: bool)
    ensures
        r == (!forbidden && (requested || map_requested || configured)),
{
    !forbidden && (requested || map_requested || configured)
}

/// Whether a local map is built.
#[derive(Clone, Copy, Debug, PartialEq)]
pub enum OccupancyChoice {
    /// Nobody asked for it.
    Disabled,
    /// It was asked for, but depths are not mapped.
    NeedsPatchDepth,
    /// It is built with these settings.
    Enabled(LocalOccupancySettings),
}

/// The settings of a local map that a command line may switch on.
pub open spec fn occupancy_settings(argument: bool, config: Option<&LocalOccupancyConfig>) -> LocalOccupancySettings {
    let configured = match config {
        Some(c) => c.applied_to(LocalOccupancySettings::defaults()),
        None => LocalOccupancySettings::defaults(),
    };
    LocalOccupancySettings { enabled: configured.enabled || argument, ..configured }
}

/// Decides whether a local map is built.
pub fn build_local_occupancy_map(argument: bool, config: Option<&LocalOccupancyConfig>, depth_mapped: bool) -> (r:
    OccupancyChoice)
    ensures
        r == (if !occupancy_settings(argument, config).enabled {
            OccupancyChoice::Disabled
        } else if !depth_mapped {
            OccupancyChoice::NeedsPatchDepth
        } else {
            OccupancyChoice::Enabled(occupancy_settings(argument, config))
        }),
{
    let mut settings: LocalOccupancySettings = match config {
        Some(c) => c.to_local_occupancy_settings(),
        None => LocalOccupancySettings::default(),
    };
    settings.enabled = settings.enabled || argument;
    if !settings.enabled {
        OccupancyChoice::Disabled
    } else if !depth_mapped {
        OccupancyChoice::NeedsPatchDepth
    } else {
        OccupancyChoice::Enabled(settings)
    }
}

/// Asking for a local map is asking for depths to be mapped: unless that is forbidden, a map
/// that is asked for has the depths it needs.
pub proof fn law_a_map_has_its_depths(
    forbidden: bool,
    requested: bool,
    argument: bool,
    config: Option<&LocalOccupancyConfig>,
    configured: bool,
)
    ensures
        ({
            let asked = argument || (config matches Some(c) && c.enabled);
            let mapped = !forbidden && (requested || asked || configured);
            &&& occupancy_settings(argument, config).enabled == asked
            &&& asked && !forbidden ==> mapped
        }),
{
}

/// Whether the second camera is used.
#[derive(Clone, Copy, Debug, PartialEq, Eq, Structural)]
pub enum StereoChoice {
    /// Nobody asked for it.
    Disabled,
    /// It was asked for, but there is none.
    NoSecondCamera,
    Enabled,
}

/// Decides whether the second camera is used: where it is asked for, on the command line or
/// in the configuration, and there is one.
pub fn build_stereo_matcher(argument: bool, config_enabled: Option<bool>, second_camera: bool) -> (r: StereoChoice)
    ensures
        ({
            let asked = argument || config_enabled == Some(true);
            r == (if !asked {
                StereoChoice::Disabled
            } else if !second_camera {
                StereoChoice::NoSecondCamera
            } else {
                StereoChoice::Enabled
            })
        }),
{
    let asked: bool = argument || match config_enabled {
        Some(enabled) => enabled,
        None => false,
    };
    if !asked {
        StereoChoice::Disabled
    } else if !second_camera {
        StereoChoice::NoSecondCamera
    } else {
        StereoChoice::Enabled
    }
}

/// A camera: its intrinsics and the size of its images.
#[derive(Clone, Copy, Debug, PartialEq)]
pub struct CameraSetup {
    pub intrinsics: CameraIntrinsics,
    pub width: usize,
    pub height: usize,
}

/// The camera in use where none is calibrated.
pub open spec fn default_camera() -> CameraSetup {
    CameraSetup {
        intrinsics: CameraIntrinsics {
            fx: real64(0x407C_AA66_6666_6666),
            fy: real64(0x407C_94CC_CCCC_CCCD),
            cx: real64(0x4076_F333_3333_3333),
            cy: real64(0x406F_0999_9999_999A),
        },
        width: 752,
        height: 480,
    }
}

/// The camera that is used: the calibrated one, else the default.
pub fn build_camera_model(calibrated: Option<CameraSetup>) -> (r: CameraSetup)
    ensures
        r == (match calibrated {
            Some(camera) => camera,
            None => default_camera(),
        }),
{
    match calibrated {
        Some(camera) => camera,
        None => CameraSetup {
            intrinsics: CameraIntrinsics {
                fx: real64(0x407C_AA66_6666_6666),
                fy: real64(0x407C_94CC_CCCC_CCCD),
                cx: real64(0x4076_F333_3333_3333),
                cy: real64(0x406F_0999_9999_999A),
            },
            width: 752,
            height: 480,
        },
    }
}

/// The least number of coefficients of a distortion.
pub const DISTORTION_COEFFICIENTS: usize = 4;

/// Whether a camera with this many coefficients distorts its images.
pub fn is_distorted(coefficients: usize) -> (r: bool)
    ensures
        r == (coefficients >= DISTORTION_COEFFICIENTS),
{
    coefficients >= DISTORTION_COEFFICIENTS
}

/// A corner detector.
#[derive(Clone, Copy, Debug, PartialEq, Eq, Structural)]
pub enum DetectorType {
    Fast,
    Harris,
    ShiTomasi,
}

/// What is done with tracks whose texture changes.
#[derive(Clone, Copy, Debug, PartialEq, Eq, Structural)]
pub enum LbpPolicy {
    SoftPenalty,
    HardReject,
}

/// A setting of the tracker that is not known.
#[derive(Clone, Copy, Debug, PartialEq, Eq, Structural)]
pub enum FrontendError {
    Detector,
    Equalisation,
    LbpPolicy,
}

impl FrontendError {
    /// The name of the setting.
    pub open spec fn setting(self) -> Seq<char> {
        match self {
            FrontendError::Detector => "RudolfV.detector"@,
            FrontendError::Equalisation => "RudolfV.histeq"@,
            FrontendError::LbpPolicy => "RudolfV.lbpPolicy"@,
        }
    }

    /// What is expected of the setting.
    pub open spec fn expected(self) -> Seq<char> {
        match self {
            FrontendError::Detector => "fast, harris, or shi_tomasi"@,
            FrontendError::Equalisation => "none, global, or clahe"@,
            FrontendError::LbpPolicy => "SoftPenalty or HardReject"@,
        }
    }

    /// The name of the setting, and what is expected of it.
    pub fn describe(&self) -> (r: (&'static str, &'static str))
        ensures
            r.0@ == self.setting(),
            r.1@ == self.expected(),
    {
        match self {
            FrontendError::Detector => ("RudolfV.detector", "fast, harris, or shi_tomasi"),
            FrontendError::Equalisation => ("RudolfV.histeq", "none, global, or clahe"),
            FrontendError::LbpPolicy => ("RudolfV.lbpPolicy", "SoftPenalty or HardReject"),
        }
    }
}

/// The detector that a text names.
pub open spec fn detector_of(text: Seq<char>) -> Option<DetectorType> {
    if crate::text::named(text, "fast"@) {
        Some(DetectorType::Fast)
    } else if crate::text::named(text, "harris"@) {
        Some(DetectorType::Harris)
    } else if crate::text::named(text, "shi_tomasi"@) || crate::text::named(text, "shitomasi"@) || crate::text::named(
        text,
        "shi-tomasi"@,
    ) {
        Some(DetectorType::ShiTomasi)
    } else {
        None
    }
}

/// The detector that a text names, if it names one.
pub fn parse_detector(text: &str) -> (r: Option<DetectorType>)
    ensures
        r == detector_of(text@),
{
    if is_named(text, "fast") {
        Some(DetectorType::Fast)
    } else if is_named(text, "harris") {
        Some(DetectorType::Harris)
    } else if is_named(text, "shi_tomasi") || is_named(text, "shitomasi") || is_named(text, "shi-tomasi") {
        Some(DetectorType::ShiTomasi)
    } else {
        None
    }
}

/// The policy that a text names.
pub open spec fn lbp_policy_of(text: Seq<char>) -> Option<LbpPolicy> {
    if crate::text::named(text, "softpenalty"@) || crate::text::named(text, "soft_penalty"@) || crate::text::named(
        text,
        "soft-penalty"@,
    ) {
        Some(LbpPolicy::SoftPenalty)
    } else if crate::text::named(text, "hardreject"@) || crate::text::named(text, "hard_reject"@)
        || crate::text::named(text, "hard-reject"@) {
        Some(LbpPolicy::HardReject)
    } else {
        None
    }
}

/// The policy that a text names, if it names one.
pub fn parse_lbp_policy(text: &str) -> (r: Option<LbpPolicy>)
    ensures
        r == lbp_policy_of(text@),
{
    if is_named(text, "softpenalty") || is_named(text, "soft_penalty") || is_named(text, "soft-penalty") {
        Some(LbpPolicy::SoftPenalty)
    } else if is_named(text, "hardreject") || is_named(text, "hard_reject") || is_named(text, "hard-reject") {
        Some(LbpPolicy::HardReject)
    } else {
        None
    }
}

/// The equalisation that a configuration asks for: by name, in lower case, else as its older
/// switch says. The tiles and the limit go with the equalisation by tiles alone.
pub open spec fn equalisation_of(
    name: Option<String>,
    switch: bool,
    tile_size: Option<usize>,
    clip_limit: Option<Real32>,
) -> Option<Equalisation> {
    match name {
        Some(text) => if text@ == "none"@ {
            Some(Equalisation::Off)
        } else if text@ == "global"@ {
            Some(Equalisation::Global)
        } else if text@ == "clahe"@ {
            Some(Equalisation::Clahe { tile_size, clip_limit })
        } else {
            None
        },
        None => if switch {
            Some(Equalisation::Global)
        } else {
            Some(Equalisation::Off)
        },
    }
}

/// The equalisation that a configuration asks for, if it names one.
pub fn parse_equalisation(
    name: &Option<String>,
    switch: bool,
    tile_size: Option<usize>,
    clip_limit: Option<Real32>,
) -> (r: Option<Equalisation>)
    ensures
        r == equalisation_of(*name, switch, tile_size, clip_limit),
{
    match name {
        Some(text) => if same_text(text.as_str(), "none") {
            Some(Equalisation::Off)
        } else if same_text(text.as_str(), "global") {
            Some(Equalisation::Global)
        } else if same_text(text.as_str(), "clahe") {
            Some(Equalisation::Clahe { tile_size, clip_limit })
        } else {
            None
        },
        None => if switch {
            Some(Equalisation::Global)
        } else {
            Some(Equalisation::Off)
        },
    }
}

/// The settings of the tracker.
#[derive(Clone, Copy, Debug, PartialEq)]
pub struct FrontendSettings {
    pub max_features: usize,
    pub klt_residual_enabled: bool,
    pub enable_internal_ransac: bool,
    pub epipolar_gate_threshold: Real64,
    pub epipolar_refine: bool,
    pub epipolar_min_baseline: Real64,
    pub epipolar_max_reject_frac: Real64,
    pub pyramid_levels: usize,
    pub fast_threshold: u8,
    pub detector: DetectorType,
    pub shi_tomasi_threshold: Real32,
    pub shi_tomasi_block_size: usize,
    pub histeq: Equalisation,
    pub cell_size: usize,
    pub lbp_policy: LbpPolicy,
}

/// The equalisation that the configuration of a tracker asks for.
pub open spec fn tracker_equalisation(config: RudolfVConfig) -> Option<Equalisation> {
    equalisation_of(
        config.histeq,
        config.equalise_image_histogram,
        config.clahe_tile_size,
        config.clahe_clip_limit,
    )
}

/// The first setting of the tracker that is not known.
pub open spec fn frontend_error(config: RudolfVConfig) -> Option<FrontendError> {
    if config.detector matches Some(text) && detector_of(text@) is None {
        Some(FrontendError::Detector)
    } else if tracker_equalisation(config) is None {
        Some(FrontendError::Equalisation)
    } else if config.lbp_policy matches Some(text) && lbp_policy_of(text@) is None {
        Some(FrontendError::LbpPolicy)
    } else {
        None
    }
}

/// The settings of the tracker as configured, over those it has of itself.
pub open spec fn frontend_settings(config: RudolfVConfig, base: FrontendSettings) -> FrontendSettings {
    FrontendSettings {
        max_features: config.max_features,
        klt_residual_enabled: config.klt_residual,
        enable_internal_ransac: config.enable_ransac,
        epipolar_gate_threshold: config.epipolar_gate_threshold,
        epipolar_refine: config.epipolar_refine,
        epipolar_min_baseline: config.epipolar_min_baseline,
        epipolar_max_reject_frac: config.epipolar_max_reject_frac,
        pyramid_levels: config.max_level,
        fast_threshold: crate::config::overridden(config.fast_threshold, base.fast_threshold),
        detector: match config.detector {
            Some(text) => detector_of(text@)->0,
            None => base.detector,
        },
        shi_tomasi_threshold: crate::config::overridden(config.shi_tomasi_threshold, base.shi_tomasi_threshold),
        shi_tomasi_block_size: crate::config::overridden(config.shi_tomasi_block_size, base.shi_tomasi_block_size),
        histeq: tracker_equalisation(config)->0,
        cell_size: config.feature_dist.whole_size() as usize,
        lbp_policy: match config.lbp_policy {
            Some(text) => lbp_policy_of(text@)->0,
            None => base.lbp_policy,
        },
    }
}

/// Features followed where nothing is configured.
pub const DEFAULT_FEATURES: usize = 40;

/// Cell size of the tracker where nothing is configured.
pub const DEFAULT_CELL: usize = 100;

/// The settings of the tracker: as configured, over those it has of itself. The first setting
/// that is not known is an error.
pub fn build_frontend(config: Option<&RudolfVConfig>, base: FrontendSettings) -> (r: Result<
    FrontendSettings,
    FrontendError,
>)
    ensures
        config is None ==> r == Ok::<FrontendSettings, FrontendError>(
            FrontendSettings {
                max_features: DEFAULT_FEATURES,
                cell_size: DEFAULT_CELL,
                histeq: Equalisation::Global,
                ..base
            },
        ),
        config matches Some(c) ==> match frontend_error(*c) {
            Some(e) => r == Err::<FrontendSettings, FrontendError>(e),
            None => r == Ok::<FrontendSettings, FrontendError>(frontend_settings(*c, base)),
        },
{
    let c: &RudolfVConfig = match config {
        Some(c) => c,
        None => {
            let mut settings: FrontendSettings = base;
            settings.max_features = DEFAULT_FEATURES;
            settings.cell_size = DEFAULT_CELL;
            settings.histeq = Equalisation::Global;
            return Ok(settings);
        },
    };
    let mut settings: FrontendSettings = base;
    settings.max_features = c.max_features;
    settings.klt_residual_enabled = c.klt_residual;
    settings.enable_internal_ransac = c.enable_ransac;
    settings.epipolar_gate_threshold = c.epipolar_gate_threshold;
    settings.epipolar_refine = c.epipolar_refine;
    settings.epipolar_min_baseline = c.epipolar_min_baseline;
    settings.epipolar_max_reject_frac = c.epipolar_max_reject_frac;
    settings.pyramid_levels = c.max_level;
    if let Some(threshold) = c.fast_threshold {
        settings.fast_threshold = threshold;
    }
    if let Some(text) = &c.detector {
        match parse_detector(text.as_str()) {
            Some(detector) => {
                settings.detector = detector;
            },
            None => {
                return Err(FrontendError::Detector);
            },
        }
    }
    if let Some(threshold) = c.shi_tomasi_threshold {
        settings.shi_tomasi_threshold = threshold;
    }
    if let Some(size) = c.shi_tomasi_block_size {
        settings.shi_tomasi_block_size = size;
    }
    match parse_equalisation(&c.histeq, c.equalise_image_histogram, c.clahe_tile_size, c.clahe_clip_limit) {
        Some(equalisation) => {
            settings.histeq = equalisation;
        },
        None => {
            return Err(FrontendError::Equalisation);
        },
    }
    settings.cell_size = c.feature_dist.trunc_to_usize();
    if let Some(text) = &c.lbp_policy {
        match parse_lbp_policy(text.as_str()) {
            Some(policy) => {
                settings.lbp_policy = policy;
            },
            None => {
                return Err(FrontendError::LbpPolicy);
            },
        }
    }
    Ok(settings)
}

/// Whether the tracker is given the predicted motion: where its epipolar test has a threshold.
pub fn uses_pose_prior(config: Option<&RudolfVConfig>) -> (r: bool)
    ensures
        r == (config matches Some(c) && zero64().lt(c.epipolar_gate_threshold)),
{
    match config {
        Some(c) => zero64().less(c.epipolar_gate_threshold),
        None => false,
    }
}

/// The names of the charts of the sparse filter; any other text names the polar one.
pub proof fn law_charts_have_their_names(text: &str, r: Sparse3DChart)
    requires
        call_ensures(parse_sparse_chart, (text,), r),
    ensures
        crate::text::named(text@, "invdepth_additive3d"@) ==> r == Sparse3DChart::InvDepthAdditive,
        crate::text::named(text@, "invdepth-additive"@) ==> r == Sparse3DChart::InvDepthAdditive,
        crate::text::named(text@, "rho3d"@) ==> r == Sparse3DChart::InvDepthAdditive,
        crate::text::named(text@, "rho"@) ==> r == Sparse3DChart::InvDepthAdditive,
        crate::text::named(text@, "additive"@) ==> r == Sparse3DChart::InvDepthAdditive,
        r == Sparse3DChart::InvDepthAdditive ==> crate::text::named(text@, "invdepth_additive3d"@) || crate::text::named(text@, "invdepth-additive"@) || crate::text::named(text@, "rho3d"@) || crate::text::named(text@, "rho"@) || crate::text::named(text@, "additive"@),
        crate::text::named(text@, "invdepth"@) && !crate::text::named(text@, "invdepth_additive3d"@) && !crate::text::named(text@, "invdepth-additive"@) && !crate::text::named(text@, "rho3d"@) && !crate::text::named(text@, "rho"@) && !crate::text::named(text@, "additive"@) ==> r == Sparse3DChart::InvDepth,
        crate::text::named(text@, "invdepth3d"@) && !crate::text::named(text@, "invdepth_additive3d"@) && !crate::text::named(text@, "invdepth-additive"@) && !crate::text::named(text@, "rho3d"@) && !crate::text::named(text@, "rho"@) && !crate::text::named(text@, "additive"@) ==> r == Sparse3DChart::InvDepth,
        crate::text::named(text@, "inverse-depth"@) && !crate::text::named(text@, "invdepth_additive3d"@) && !crate::text::named(text@, "invdepth-additive"@) && !crate::text::named(text@, "rho3d"@) && !crate::text::named(text@, "rho"@) && !crate::text::named(text@, "additive"@) ==> r == Sparse3DChart::InvDepth,
        r == Sparse3DChart::InvDepth ==> crate::text::named(text@, "invdepth"@) || crate::text::named(text@, "invdepth3d"@) || crate::text::named(text@, "inverse-depth"@),
        r == Sparse3DChart::Polar <==> !crate::text::named(text@, "invdepth_additive3d"@) && !crate::text::named(text@, "invdepth-additive"@) && !crate::text::named(text@, "rho3d"@) && !crate::text::named(text@, "rho"@) && !crate::text::named(text@, "additive"@) && !crate::text::named(text@, "invdepth"@) && !crate::text::named(text@, "invdepth3d"@) && !crate::text::named(text@, "inverse-depth"@),
{
}

/// The names of the detectors; no other text names one.
pub proof fn law_detectors_have_their_names(text: &str, r: Option<DetectorType>)
    requires
        call_ensures(parse_detector, (text,), r),
    ensures
        crate::text::named(text@, "fast"@) ==> r == Some(DetectorType::Fast),
        r == Some(DetectorType::Fast) ==> crate::text::named(text@, "fast"@),
        crate::text::named(text@, "harris"@) && !crate::text::named(text@, "fast"@) ==> r == Some(DetectorType::Harris),
        r == Some(DetectorType::Harris) ==> crate::text::named(text@, "harris"@),
        crate::text::named(text@, "shi_tomasi"@) && !crate::text::named(text@, "fast"@) && !crate::text::named(text@, "harris"@) ==> r == Some(DetectorType::ShiTomasi),
        crate::text::named(text@, "shitomasi"@) && !crate::text::named(text@, "fast"@) && !crate::text::named(text@, "harris"@) ==> r == Some(DetectorType::ShiTomasi),
        crate::text::named(text@, "shi-tomasi"@) && !crate::text::named(text@, "fast"@) && !crate::text::named(text@, "harris"@) ==> r == Some(DetectorType::ShiTomasi),
        r == Some(DetectorType::ShiTomasi) ==> crate::text::named(text@, "shi_tomasi"@) || crate::text::named(text@, "shitomasi"@) || crate::text::named(text@, "shi-tomasi"@),
        r is None <==> !crate::text::named(text@, "fast"@) && !crate::text::named(text@, "harris"@) && !crate::text::named(text@, "shi_tomasi"@) && !crate::text::named(text@, "shitomasi"@) && !crate::text::named(text@, "shi-tomasi"@),
{
}

/// The names of the policies; no other text names one.
pub proof fn law_policies_have_their_names(text: &str, r: Option<LbpPolicy>)
    requires
        call_ensures(parse_lbp_policy, (text,), r),
    ensures
        crate::text::named(text@, "softpenalty"@) ==> r == Some(LbpPolicy::SoftPenalty),
        crate::text::named(text@, "soft_penalty"@) ==> r == Some(LbpPolicy::SoftPenalty),
        crate::text::named(text@, "soft-penalty"@) ==> r == Some(LbpPolicy::SoftPenalty),
        r == Some(LbpPolicy::SoftPenalty) ==> crate::text::named(text@, "softpenalty"@) || crate::text::named(text@, "soft_penalty"@) || crate::text::named(text@, "soft-penalty"@),
        crate::text::named(text@, "hardreject"@) && !crate::text::named(text@, "softpenalty"@) && !crate::text::named(text@, "soft_penalty"@) && !crate::text::named(text@, "soft-penalty"@) ==> r == Some(LbpPolicy::HardReject),
        crate::text::named(text@, "hard_reject"@) && !crate::text::named(text@, "softpenalty"@) && !crate::text::named(text@, "soft_penalty"@) && !crate::text::named(text@, "soft-penalty"@) ==> r == Some(LbpPolicy::HardReject),
        crate::text::named(text@, "hard-reject"@) && !crate::text::named(text@, "softpenalty"@) && !crate::text::named(text@, "soft_penalty"@) && !crate::text::named(text@, "soft-penalty"@) ==> r == Some(LbpPolicy::HardReject),
        r == Some(LbpPolicy::HardReject) ==> crate::text::named(text@, "hardreject"@) || crate::text::named(text@, "hard_reject"@) || crate::text::named(text@, "hard-reject"@),
        r is None <==> !crate::text::named(text@, "softpenalty"@) && !crate::text::named(text@, "soft_penalty"@) && !crate::text::named(text@, "soft-penalty"@) && !crate::text::named(text@, "hardreject"@) && !crate::text::named(text@, "hard_reject"@) && !crate::text::named(text@, "hard-reject"@),
{
}

/// An equalisation is named letter for letter; where none is named the switch says whether the
/// whole image is equalised. The tiles and the limit go with the equalisation by tiles.
pub proof fn law_equalisation_is_named_or_switched(
    name: &Option<String>,
    switch: bool,
    tile_size: Option<usize>,
    clip_limit: Option<Real32>,
    r: Option<Equalisation>,
)
    requires
        call_ensures(parse_equalisation, (name, switch, tile_size, clip_limit), r),
    ensures
        *name is None && switch ==> r == Some(Equalisation::Global),
        *name is None && !switch ==> r == Some(Equalisation::Off),
        *name matches Some(text) ==> {
            &&& text@ == "none"@ ==> r == Some(Equalisation::Off)
            &&& r == Some(Equalisation::Off) ==> text@ == "none"@
            &&& r == Some(Equalisation::Global) ==> text@ == "global"@
            &&& text@ == "global"@ && text@ != "none"@ ==> r == Some(Equalisation::Global)
            &&& text@ == "clahe"@ && text@ != "none"@ && text@ != "global"@ ==> r == Some(
                Equalisation::Clahe { tile_size, clip_limit },
            )
            &&& text@ != "none"@ && text@ != "global"@ && text@ != "clahe"@ ==> r is None
        },
{
}

/// A tracker that is not configured follows forty features in cells of one hundred pixels and
/// equalises the whole image; everything else is its own.
pub proof fn law_unconfigured_tracker_keeps_its_own(
    base: FrontendSettings,
    r: Result<FrontendSettings, FrontendError>,
)
    requires
        call_ensures(build_frontend, (None::<&RudolfVConfig>, base), r),
    ensures
        r matches Ok(s) && s.max_features == 40 && s.cell_size == 100 && s.histeq == Equalisation::Global && s.detector
            == base.detector && s.pyramid_levels == base.pyramid_levels && s.fast_threshold == base.fast_threshold
            && s.epipolar_gate_threshold == base.epipolar_gate_threshold && s.lbp_policy == base.lbp_policy,
{
}

/// A configured tracker has what is configured, each setting its own, and its own value where a
/// setting may be left out and is.
pub proof fn law_configured_tracker_settings_win(config: RudolfVConfig, base: FrontendSettings)
    ensures
        ({
            let s = frontend_settings(config, base);
            &&& s.max_features == config.max_features
            &&& s.pyramid_levels == config.max_level
            &&& s.klt_residual_enabled == config.klt_residual
            &&& s.enable_internal_ransac == config.enable_ransac
            &&& s.epipolar_gate_threshold == config.epipolar_gate_threshold
            &&& s.epipolar_refine == config.epipolar_refine
            &&& s.epipolar_min_baseline == config.epipolar_min_baseline
            &&& s.epipolar_max_reject_frac == config.epipolar_max_reject_frac
            &&& s.cell_size == config.feature_dist.whole_size()
            &&& config.fast_threshold matches Some(v) ==> s.fast_threshold == v
            &&& config.fast_threshold is None ==> s.fast_threshold == base.fast_threshold
            &&& config.shi_tomasi_threshold matches Some(v) ==> s.shi_tomasi_threshold == v
            &&& config.shi_tomasi_threshold is None ==> s.shi_tomasi_threshold == base.shi_tomasi_threshold
            &&& config.shi_tomasi_block_size matches Some(v) ==> s.shi_tomasi_block_size == v
            &&& config.shi_tomasi_block_size is None ==> s.shi_tomasi_block_size == base.shi_tomasi_block_size
            &&& config.detector is None ==> s.detector == base.detector
            &&& config.lbp_policy is None ==> s.lbp_policy == base.lbp_policy
            &&& config.detector matches Some(text) ==> (detector_of(text@) is Some ==> detector_of(text@) == Some(s.detector))
            &&& config.lbp_policy matches Some(text) ==> (lbp_policy_of(text@) is Some ==> lbp_policy_of(text@) == Some(s.lbp_policy))
            &&& tracker_equalisation(config) is Some ==> tracker_equalisation(config) == Some(s.histeq)
        }),
{
    config.feature_dist.lemma_value_sign();
    lemma_whole_size_fits(config.feature_dist);
}

proof fn lemma_whole_size_fits(q: Real64)
    ensures
        0 <= q.whole_size() <= usize::MAX,
{
    if !q.nan() && !q.negative() {
        q.lemma_value_sign();
        assert(0 * crate::ieee::unit64() == 0);
        q.lemma_trunc_nonnegative();
    }
}

/// A tracker is built exactly where every name in its configuration is known; the error is that
/// of the first one that is not: the detector, then the equalisation, then the policy.
pub proof fn law_unknown_names_are_refused_in_order(
    config: &RudolfVConfig,
    base: FrontendSettings,
    r: Result<FrontendSettings, FrontendError>,
)
    requires
        call_ensures(build_frontend, (Some(config), base), r),
    ensures
        ({
            let detector = config.detector matches Some(text) ==> detector_of(text@) is Some;
            let equalised = config.histeq matches Some(text) ==> text@ == "none"@ || text@ == "global"@ || text@
                == "clahe"@;
            let policy = config.lbp_policy matches Some(text) ==> lbp_policy_of(text@) is Some;
            &&& r is Ok <==> detector && equalised && policy
            &&& !detector ==> r == Err::<FrontendSettings, _>(FrontendError::Detector)
            &&& detector && !equalised ==> r == Err::<FrontendSettings, _>(FrontendError::Equalisation)
            &&& detector && equalised && !policy ==> r == Err::<FrontendSettings, _>(FrontendError::LbpPolicy)
        }),
{
}

/// A local map is built where it is asked for and depths are mapped, with the configured
/// settings and switched on.
pub proof fn law_map_is_built_where_asked(
    argument: bool,
    config: Option<&LocalOccupancyConfig>,
    depth_mapped: bool,
    r: OccupancyChoice,
)
    requires
        call_ensures(build_local_occupancy_map, (argument, config, depth_mapped), r),
    ensures
        ({
            let asked = argument || (config matches Some(c) && c.enabled);
            &&& r == OccupancyChoice::Disabled <==> !asked
            &&& r == OccupancyChoice::NeedsPatchDepth <==> asked && !depth_mapped
            &&& r matches OccupancyChoice::Enabled(s) ==> {
                &&& asked && depth_mapped && s.enabled
                &&& config matches Some(c) ==> s == (LocalOccupancySettings {
                    enabled: true,
                    ..c.applied_to(LocalOccupancySettings::defaults())
                })
                &&& config is None ==> s == (LocalOccupancySettings {
                    enabled: true,
                    ..LocalOccupancySettings::defaults()
                })
            }
        }),
{
}

/// A filter of sparse depths is chosen by its configuration where there is one, and by the
/// command line otherwise: then with room for all features, and for three hundred at least.
pub proof fn law_configuration_chooses_the_filter(
    config: Option<&SparseVogConfig>,
    requested: bool,
    chart: &str,
    features: usize,
    r: SparseChoice,
)
    requires
        call_ensures(build_sparse_filter, (config, requested, chart, features), r),
    ensures
        config matches Some(c) ==> (c.enabled <==> r is Configured) && (!c.enabled <==> r is SwitchedOff),
        config is None ==> (requested <==> r is Requested) && (!requested <==> r is Absent),
        r matches SparseChoice::Requested(_, pool) ==> pool >= 300 && pool >= features && (pool == 300 || pool
            == features),
{
}

/// Depths are mapped where anything asks for them and nothing forbids it; the second camera is
/// used where it is asked for and there is one.
pub proof fn law_parts_run_where_asked(
    forbidden: bool,
    requested: bool,
    map_requested: bool,
    configured: bool,
    mapped: bool,
    argument: bool,
    enabled: Option<bool>,
    second: bool,
    stereo: StereoChoice,
)
    requires
        call_ensures(patch_depth_enabled, (forbidden, requested, map_requested, configured), mapped),
        call_ensures(build_stereo_matcher, (argument, enabled, second), stereo),
    ensures
        forbidden ==> !mapped,
        !forbidden && (requested || map_requested || configured) ==> mapped,
        !requested && !map_requested && !configured ==> !mapped,
        stereo == StereoChoice::Enabled <==> second && (argument || enabled == Some(true)),
        stereo == StereoChoice::NoSecondCamera <==> !second && (argument || enabled == Some(true)),
{
}

/// A calibrated camera is used as it is; a camera is distorted from four coefficients on; the
/// tracker is given the predicted motion where its epipolar test has a positive threshold.
pub proof fn law_calibrated_camera_is_used(
    camera: CameraSetup,
    used: CameraSetup,
    coefficients: usize,
    distorted: bool,
    config: &RudolfVConfig,
    prior: bool,
)
    requires
        call_ensures(build_camera_model, (Some(camera),), used),
        call_ensures(is_distorted, (coefficients,), distorted),
        call_ensures(uses_pose_prior, (Some(config),), prior),
    ensures
        used == camera,
        distorted <==> coefficients >= 4,
        prior <==> zero64().lt(config.epipolar_gate_threshold),
{
}

/// A map is asked for by the command line or by its own configuration; without either, it is not.
pub proof fn law_map_is_asked_for(config: &LocalOccupancyConfig, by_argument: bool, by_config: bool, by_none: bool)
    requires
        call_ensures(occupancy_requested, (true, Some(config)), by_argument),
        call_ensures(occupancy_requested, (false, Some(config)), by_config),
        call_ensures(occupancy_requested, (false, None), by_none),
    ensures
        by_argument,
        by_config == config.enabled,
        !by_none,
{
}

} // verus!
