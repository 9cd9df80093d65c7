//! Dense depth from small image patches seeded by sparse features.
pub mod cells;
pub mod fuse;
pub mod geometry;
pub mod image_ops;
pub mod lut;
pub mod mapper;
pub mod residual;
pub mod seeds;
pub mod solve;
pub mod tiled_bearing;

use vstd::prelude::*;
use crate::core_types::{DepthMap, Pixel};
use crate::ieee::{one64, real64, zero64, Real32, Real64};

verus! {

/// How pixels are related to viewing directions.
#[derive(Clone, Copy, Debug, PartialEq, Eq, Structural)]
pub enum PatchDepthCameraMode {
    RawDistorted,
    UndistortedPinhole,
    TiledBearing,
    /// Every patch is rectified into a tangent frame of its own, out of the raw image.
    PerPatchBearing,
}

#[derive(Clone, Copy, Debug, PartialEq, Eq, Structural)]
pub enum PatchDepthWarpMode {
    Exact,
    FastTranslation,
}

#[derive(Clone, Copy, Debug, PartialEq, Eq, Structural)]
pub enum PatchDepthSeedCoordinates {
    RawDistorted,
    UndistortedPinhole,
}

/// The pixel coordinates in which a camera mode expects its seeds.
pub open spec fn seed_coordinates_of(mode: PatchDepthCameraMode) -> PatchDepthSeedCoordinates {
    match mode {
        PatchDepthCameraMode::RawDistorted => PatchDepthSeedCoordinates::RawDistorted,
        PatchDepthCameraMode::PerPatchBearing => PatchDepthSeedCoordinates::RawDistorted,
        PatchDepthCameraMode::UndistortedPinhole => PatchDepthSeedCoordinates::UndistortedPinhole,
        PatchDepthCameraMode::TiledBearing => PatchDepthSeedCoordinates::UndistortedPinhole,
    }
}

impl PatchDepthCameraMode {
    pub fn seed_coordinates(self) -> (r: PatchDepthSeedCoordinates)
        ensures
            r == seed_coordinates_of(self),
    {
        match self {
            PatchDepthCameraMode::RawDistorted | PatchDepthCameraMode::PerPatchBearing => {
                PatchDepthSeedCoordinates::RawDistorted
            },
            PatchDepthCameraMode::UndistortedPinhole | PatchDepthCameraMode::TiledBearing => {
                PatchDepthSeedCoordinates::UndistortedPinhole
            },
        }
    }

    /// Whether frames of this mode are first resampled through undistortion tables.
    pub open spec fn resamples(self) -> bool {
        self == PatchDepthCameraMode::UndistortedPinhole || self == PatchDepthCameraMode::TiledBearing
    }

    /// Whether frames of this mode are first resampled through undistortion tables; the
    /// other modes look directions up per raw pixel instead.
    pub fn needs_undistortion(self) -> (r: bool)
        ensures
            r == self.resamples(),
            !r <==> seed_coordinates_of(self) == PatchDepthSeedCoordinates::RawDistorted,
    {
        match self {
            PatchDepthCameraMode::RawDistorted | PatchDepthCameraMode::PerPatchBearing => false,
            PatchDepthCameraMode::UndistortedPinhole | PatchDepthCameraMode::TiledBearing => true,
        }
    }
}

#[derive(Clone, Copy, Debug, PartialEq)]
pub struct PatchDepthSettings {
    pub camera_mode: PatchDepthCameraMode,
    pub warp_mode: PatchDepthWarpMode,
    pub scale: Real64,
    pub patch_size: usize,
    pub patch_stride: usize,
    pub min_depth: Real64,
    pub max_depth: Real64,
    pub photo_huber_delta: Real64,
    pub sigma_photo: Real64,
    /// Variance of the turn rate between a frame and its reference.
    pub pose_angular_velocity_var: Real64,
    pub n_gn_iters: usize,
    /// The iteration stops early once a step of the log-range is smaller than this.
    pub gn_eta_convergence_tol: Real64,
    pub fd_eps: Real64,
    pub lambda_seed: Real64,
    pub seed_radius_px: Real64,
    pub sigma_seed_floor: Real64,
    pub n_search_candidates: usize,
    pub search_half_range: Real64,
    pub min_baseline_ratio: Real64,
    pub max_baseline_ratio: Real64,
    pub min_photo_curvature: Real64,
    pub max_photo_residual: Real64,
    pub min_structure_eigen: Real64,
    pub max_structure_condition: Real64,
    pub n_pyramid_levels: usize,
    pub var_floor: Real64,
    pub status_weight_photo: Real64,
    pub status_weight_seed: Real64,
    pub tiled_tile_size: usize,
    pub tiled_tile_overlap: usize,
}

impl PatchDepthSettings {
    /// The settings in use where nothing else is configured.
    pub open spec fn defaults() -> Self {
        PatchDepthSettings {
            camera_mode: PatchDepthCameraMode::RawDistorted,
            warp_mode: PatchDepthWarpMode::Exact,
            scale: one64(),
            patch_size: 8,
            patch_stride: 4,
            min_depth: real64(0x3FB9_9999_9999_999A),
            max_depth: real64(0x4034_0000_0000_0000),
            photo_huber_delta: real64(0x4014_0000_0000_0000),
            sigma_photo: real64(0x4014_0000_0000_0000),
            pose_angular_velocity_var: zero64(),
            n_gn_iters: 5,
            gn_eta_convergence_tol: real64(0x3F50_624D_D2F1_A9FC),
            fd_eps: real64(0x3F50_624D_D2F1_A9FC),
            lambda_seed: one64(),
            seed_radius_px: real64(0x4040_0000_0000_0000),
            sigma_seed_floor: real64(0x3F84_7AE1_47AE_147B),
            n_search_candidates: 5,
            search_half_range: real64(0x3FE0_0000_0000_0000),
            min_baseline_ratio: real64(0x3F74_7AE1_47AE_147B),
            max_baseline_ratio: real64(0x3FD3_3333_3333_3333),
            min_photo_curvature: real64(0x3EB0_C6F7_A0B5_ED8D),
            max_photo_residual: real64(0x4034_0000_0000_0000),
            min_structure_eigen: zero64(),
            max_structure_condition: zero64(),
            n_pyramid_levels: 1,
            var_floor: real64(0x3EB0_C6F7_A0B5_ED8D),
            status_weight_photo: one64(),
            status_weight_seed: real64(0x3FE3_3333_3333_3333),
            tiled_tile_size: 96,
            tiled_tile_overlap: 16,
        }
    }
}

impl Default for PatchDepthSettings {
    fn default() -> (r: Self)
        ensures
            r == Self::defaults(),
    {
        PatchDepthSettings {
            camera_mode: PatchDepthCameraMode::RawDistorted,
            warp_mode: PatchDepthWarpMode::Exact,
            scale: one64(),
            patch_size: 8,
            patch_stride: 4,
            min_depth: real64(0x3FB9_9999_9999_999A),
            max_depth: real64(0x4034_0000_0000_0000),
            photo_huber_delta: real64(0x4014_0000_0000_0000),
            sigma_photo: real64(0x4014_0000_0000_0000),
            pose_angular_velocity_var: zero64(),
            n_gn_iters: 5,
            gn_eta_convergence_tol: real64(0x3F50_624D_D2F1_A9FC),
            fd_eps: real64(0x3F50_624D_D2F1_A9FC),
            lambda_seed: one64(),
            seed_radius_px: real64(0x4040_0000_0000_0000),
            sigma_seed_floor: real64(0x3F84_7AE1_47AE_147B),
            n_search_candidates: 5,
            search_half_range: real64(0x3FE0_0000_0000_0000),
            min_baseline_ratio: real64(0x3F74_7AE1_47AE_147B),
            max_baseline_ratio: real64(0x3FD3_3333_3333_3333),
            min_photo_curvature: real64(0x3EB0_C6F7_A0B5_ED8D),
            max_photo_residual: real64(0x4034_0000_0000_0000),
            min_structure_eigen: zero64(),
            max_structure_condition: zero64(),
            n_pyramid_levels: 1,
            var_floor: real64(0x3EB0_C6F7_A0B5_ED8D),
            status_weight_photo: one64(),
            status_weight_seed: real64(0x3FE3_3333_3333_3333),
            tiled_tile_size: 96,
            tiled_tile_overlap: 16,
        }
    }
}

/// Why a mapper could not be made.
#[derive(Clone, Copy, Debug, PartialEq, Eq, Structural)]
pub enum PatchDepthError {
    EmptyImage,
    ScaleOutOfRange,
    NoPyramidLevels,
    TiledNeedsFastTranslation,
    TiledNeedsOverlap,
}

impl PatchDepthError {
    pub open spec fn text(self) -> Seq<char> {
        match self {
            PatchDepthError::EmptyImage => "image size must be non-zero"@,
            PatchDepthError::ScaleOutOfRange => "scale must be in (0, 1]"@,
            PatchDepthError::NoPyramidLevels => "n_pyramid_levels must be positive"@,
            PatchDepthError::TiledNeedsFastTranslation => {
                "PatchDepth camera_mode=tiled_bearing requires warp_mode=fast_translation"@
            },
            PatchDepthError::TiledNeedsOverlap => {
                "PatchDepth camera_mode=tiled_bearing requires tiled_tile_overlap > patch_size for overlap blending"@
            },
        }
    }

    pub fn message(&self) -> (r: &'static str)
        ensures
            r@ == self.text(),
    {
        match self {
            PatchDepthError::EmptyImage => "image size must be non-zero",
            PatchDepthError::ScaleOutOfRange => "scale must be in (0, 1]",
            PatchDepthError::NoPyramidLevels => "n_pyramid_levels must be positive",
            PatchDepthError::TiledNeedsFastTranslation => {
                "PatchDepth camera_mode=tiled_bearing requires warp_mode=fast_translation"
            },
            PatchDepthError::TiledNeedsOverlap => {
                "PatchDepth camera_mode=tiled_bearing requires tiled_tile_overlap > patch_size for overlap blending"
            },
        }
    }
}

/// The first rule that a mapper's parameters break, if any.
pub open spec fn broken_rule(
    settings: PatchDepthSettings,
    mode: PatchDepthCameraMode,
    width: usize,
    height: usize,
) -> Option<PatchDepthError> {
    if width == 0 || height == 0 {
        Some(PatchDepthError::EmptyImage)
    } else if !(zero64().lt(settings.scale) && settings.scale.le(one64())) {
        Some(PatchDepthError::ScaleOutOfRange)
    } else if settings.n_pyramid_levels == 0 {
        Some(PatchDepthError::NoPyramidLevels)
    } else if mode == PatchDepthCameraMode::TiledBearing && settings.warp_mode
        != PatchDepthWarpMode::FastTranslation {
        Some(PatchDepthError::TiledNeedsFastTranslation)
    } else if mode == PatchDepthCameraMode::TiledBearing && settings.tiled_tile_overlap
        <= settings.patch_size {
        Some(PatchDepthError::TiledNeedsOverlap)
    } else {
        None
    }
}

impl PatchDepthSettings {
    /// Checks the parameters of a mapper for images of this size.
    pub fn validate(&self, mode: PatchDepthCameraMode, width: usize, height: usize) -> (r: Result<
        (),
        PatchDepthError,
    >)
        ensures
            r is Ok <==> broken_rule(*self, mode, width, height) is None,
            r matches Err(e) ==> broken_rule(*self, mode, width, height) == Some(e),
    {
        if width == 0 || height == 0 {
            return Err(PatchDepthError::EmptyImage);
        }
        if !(zero64().less(self.scale) && self.scale.at_most(one64())) {
            return Err(PatchDepthError::ScaleOutOfRange);
        }
        if self.n_pyramid_levels == 0 {
            return Err(PatchDepthError::NoPyramidLevels);
        }
        if mode == PatchDepthCameraMode::TiledBearing && self.warp_mode
            != PatchDepthWarpMode::FastTranslation {
            return Err(PatchDepthError::TiledNeedsFastTranslation);
        }
        if mode == PatchDepthCameraMode::TiledBearing && self.tiled_tile_overlap <= self.patch_size {
            return Err(PatchDepthError::TiledNeedsOverlap);
        }
        Ok(())
    }
}

/// How a depth came about, from nothing known to a contradicted photometric solve.
#[derive(Clone, Copy, Debug, PartialEq, Eq, Structural)]
pub enum PatchStatus {
    Unknown,
    SeedOnly,
    PhotoRefined,
    Rejected,
}

impl PatchStatus {
    /// Position in the order Unknown, SeedOnly, PhotoRefined, Rejected.
    pub open spec fn rank(self) -> int {
        match self {
            PatchStatus::Unknown => 0,
            PatchStatus::SeedOnly => 1,
            PatchStatus::PhotoRefined => 2,
            PatchStatus::Rejected => 3,
        }
    }

    pub fn code(self) -> (r: u8)
        ensures
            r == self.rank(),
    {
        match self {
            PatchStatus::Unknown => 0,
            PatchStatus::SeedOnly => 1,
            PatchStatus::PhotoRefined => 2,
            PatchStatus::Rejected => 3,
        }
    }

    /// The one of higher rank.
    pub open spec fn merged(self, other: Self) -> Self {
        if other.rank() > self.rank() {
            other
        } else {
            self
        }
    }

    /// Keeps the status of higher rank.
    pub fn merge(self, other: Self) -> (r: Self)
        ensures
            r == self.merged(other),
    {
        if other.code() > self.code() {
            other
        } else {
            self
        }
    }

    /// Whether a depth with this status may be used.
    pub open spec fn usable(self) -> bool {
        self == PatchStatus::SeedOnly || self == PatchStatus::PhotoRefined
    }

    /// Whether a depth with this status may be used.
    pub fn is_usable(self) -> (r: bool)
        ensures
            r == self.usable(),
    {
        match self {
            PatchStatus::SeedOnly | PatchStatus::PhotoRefined => true,
            PatchStatus::Unknown | PatchStatus::Rejected => false,
        }
    }
}

/// Merging does not depend on the order in which statuses arrive.
pub proof fn law_merge_is_order_free(a: PatchStatus, b: PatchStatus, c: PatchStatus)
    ensures
        a.merged(b) == b.merged(a),
        a.merged(b).merged(c) == a.merged(b.merged(c)),
        a.merged(a) == a,
        PatchStatus::Unknown.merged(a) == a,
        a.merged(b).rank() >= a.rank() && a.merged(b).rank() >= b.rank(),
{
}

/// Per-pixel log-range, its variance, and how each came about. A pixel without an
/// estimate holds NaN and an infinite variance.
#[derive(Clone, Debug, PartialEq)]
pub struct PatchDepthOutput {
    pub eta: DepthMap<Real32>,
    pub eta_var: DepthMap<Real32>,
    pub status: DepthMap<PatchStatus>,
}

impl PatchDepthOutput {
    /// The three maps have the same size and are complete.
    pub open spec fn wf(self) -> bool {
        &&& self.eta.wf()
        &&& self.eta_var.wf()
        &&& self.status.wf()
        &&& self.eta_var.width == self.eta.width
        &&& self.eta_var.height == self.eta.height
        &&& self.status.width == self.eta.width
        &&& self.status.height == self.eta.height
    }
}

/// An image with the camera-to-world pose it was taken at, by rows.
#[derive(Clone, Debug)]
pub struct FrameProducts {
    pub frame_id: u64,
    pub stamp: Real64,
    pub gray: Vec<u8>,
    pub width: usize,
    pub height: usize,
    pub pose_t_wc: [[Real64; 4]; 4],
}

/// A known log-range at a pixel, with its variance.
#[derive(Clone, Copy, Debug, PartialEq)]
pub struct SparseDepthPrior {
    pub uv: Pixel,
    pub eta: Real64,
    pub eta_var: Real64,
}

/// What one patch contributes: a log-range and an inverse-variance weight.
#[derive(Clone, Copy, Debug, PartialEq)]
pub struct PatchEstimate {
    pub eta: Real64,
    pub status: PatchStatus,
    pub inv_var_w: Real64,
}

impl PatchEstimate {
    pub open spec fn unknown_estimate() -> Self {
        PatchEstimate { eta: zero64(), status: PatchStatus::Unknown, inv_var_w: zero64() }
    }

    /// Nothing is known at this patch.
    pub fn unknown() -> (r: Self)
        ensures
            r == Self::unknown_estimate(),
            !r.weighs(),
    {
        PatchEstimate { eta: zero64(), status: PatchStatus::Unknown, inv_var_w: zero64() }
    }

    /// The solve contradicted the images.
    pub fn rejected(eta: Real64) -> (r: Self)
        ensures
            r == (PatchEstimate { eta, status: PatchStatus::Rejected, inv_var_w: zero64() }),
            !r.weighs(),
    {
        PatchEstimate { eta, status: PatchStatus::Rejected, inv_var_w: zero64() }
    }

    /// The images confirmed the log-range; the weight is that of its variance.
    pub fn photo_refined(eta: Real64, weight: Real64) -> (r: Self)
        ensures
            r == (PatchEstimate { eta, status: PatchStatus::PhotoRefined, inv_var_w: weight }),
    {
        PatchEstimate { eta, status: PatchStatus::PhotoRefined, inv_var_w: weight }
    }

    /// Only the seeds speak for the log-range; the weight is that of their variance.
    pub fn seed_only(eta: Real64, weight: Real64) -> (r: Self)
        ensures
            r == (PatchEstimate { eta, status: PatchStatus::SeedOnly, inv_var_w: weight }),
    {
        PatchEstimate { eta, status: PatchStatus::SeedOnly, inv_var_w: weight }
    }

    /// Whether the estimate takes part in fusion.
    pub open spec fn weighs(self) -> bool {
        zero64().lt(self.inv_var_w)
    }

    /// The weight with which the estimate takes part in fusion, if it does.
    pub fn inv_var_weight(self) -> (r: Option<Real64>)
        ensures
            r == (if self.weighs() {
                Some(self.inv_var_w)
            } else {
                None
            }),
    {
        if zero64().less(self.inv_var_w) {
            Some(self.inv_var_w)
        } else {
            None
        }
    }
}

/// What is measured of the texture of a patch: the eigenvalues of its structure tensor,
/// and the curvature along the epipolar line where that line is known.
#[derive(Clone, Copy, Debug, PartialEq)]
pub struct StructureMeasure {
    pub lambda_min: Real64,
    /// The larger eigenvalue divided by the smaller one.
    pub condition: Real64,
    pub epipolar_curvature: Option<Real64>,
}

/// 1e-12: below it the smaller eigenvalue counts as zero.
pub open spec fn degenerate_eigen() -> Real64 {
    real64(0x3D71_9799_812D_EA11)
}

/// Whether a patch has the texture that a depth needs. A limit of zero or below is
/// switched off. With a known epipolar line only the curvature along it counts.
pub open spec fn has_structure(m: StructureMeasure, min_eigen: Real64, max_condition: Real64) -> bool {
    match m.epipolar_curvature {
        Some(curvature) => !(zero64().lt(min_eigen) && curvature.lt(min_eigen)),
        None => {
            &&& !(zero64().lt(min_eigen) && m.lambda_min.lt(min_eigen))
            &&& zero64().lt(max_condition) ==> !m.lambda_min.le(degenerate_eigen()) && !max_condition.lt(
                m.condition,
            )
        },
    }
}

/// Decides whether a patch has the texture that a depth needs.
pub fn structure_tensor_passes(m: StructureMeasure, min_eigen: Real64, max_condition: Real64) -> (r: bool)
    ensures
        r == has_structure(m, min_eigen, max_condition),
{
    match m.epipolar_curvature {
        Some(curvature) => {
            if zero64().less(min_eigen) && curvature.less(min_eigen) {
                return false;
            }
        },
        None => {
            if zero64().less(min_eigen) && m.lambda_min.less(min_eigen) {
                return false;
            }
            if zero64().less(max_condition) {
                if m.lambda_min.at_most(real64(0x3D71_9799_812D_EA11)) {
                    return false;
                }
                if max_condition.less(m.condition) {
                    return false;
                }
            }
        },
    }
    true
}

/// With both limits switched off every patch passes.
pub proof fn law_structure_gate_off(m: StructureMeasure, min_eigen: Real64, max_condition: Real64)
    requires
        !zero64().lt(min_eigen),
        !zero64().lt(max_condition),
    ensures
        has_structure(m, min_eigen, max_condition),
{
}

/// A mapper is made for an image that is not empty, with a scale above zero and up to one and at
/// least one level; tiles besides need translated patches and an overlap that is larger than a
/// patch. The error names what is missing, and what it comes after is in order.
pub proof fn law_parameters_are_checked_in_order(
    settings: &PatchDepthSettings,
    mode: PatchDepthCameraMode,
    width: usize,
    height: usize,
    r: Result<(), PatchDepthError>,
)
    requires
        call_ensures(PatchDepthSettings::validate, (settings, mode, width, height), r),
    ensures
        ({
            let sized = width > 0 && height > 0;
            let scaled = zero64().lt(settings.scale) && settings.scale.le(Real64 { bits: 0x3FF0_0000_0000_0000 });
            let tiled = mode == PatchDepthCameraMode::TiledBearing;
            let fast = settings.warp_mode == PatchDepthWarpMode::FastTranslation;
            let overlaps = settings.tiled_tile_overlap > settings.patch_size;
            &&& r is Ok <==> sized && scaled && settings.n_pyramid_levels > 0 && (!tiled || fast && overlaps)
            &&& r == Err::<(), _>(PatchDepthError::EmptyImage) <==> !sized
            &&& r == Err::<(), _>(PatchDepthError::ScaleOutOfRange) <==> sized && !scaled
            &&& r == Err::<(), _>(PatchDepthError::NoPyramidLevels) <==> sized && scaled && settings.n_pyramid_levels
                == 0
            &&& r == Err::<(), _>(PatchDepthError::TiledNeedsFastTranslation) ==> tiled && !fast
            &&& r == Err::<(), _>(PatchDepthError::TiledNeedsOverlap) ==> tiled && fast && !overlaps
        }),
{
}

/// Of several statuses a rejection stays before all others, a refinement before what the seeds
/// say, and that before nothing.
pub proof fn law_merge_keeps_the_stronger_status(a: PatchStatus, b: PatchStatus, r: PatchStatus)
    requires
        call_ensures(PatchStatus::merge, (a, b), r),
    ensures
        r == PatchStatus::Rejected <==> a == PatchStatus::Rejected || b == PatchStatus::Rejected,
        r == PatchStatus::Unknown <==> a == PatchStatus::Unknown && b == PatchStatus::Unknown,
        r == PatchStatus::PhotoRefined <==> (a == PatchStatus::PhotoRefined || b == PatchStatus::PhotoRefined) && a
            != PatchStatus::Rejected && b != PatchStatus::Rejected,
        r == a || r == b,
{
}

/// A depth is used where the seeds or the images speak for it, and nowhere else.
pub proof fn law_usable_depths_are_seeded_or_refined(status: PatchStatus, r: bool)
    requires
        call_ensures(PatchStatus::is_usable, (status,), r),
    ensures
        r <==> status == PatchStatus::SeedOnly || status == PatchStatus::PhotoRefined,
{
}

/// The modes that work on raw images take raw seeds and need no table; the others take
/// undistorted seeds and resample their images.
pub proof fn law_modes_have_their_seed_coordinates(
    mode: PatchDepthCameraMode,
    seeds: PatchDepthSeedCoordinates,
    resamples: bool,
)
    requires
        call_ensures(PatchDepthCameraMode::seed_coordinates, (mode,), seeds),
        call_ensures(PatchDepthCameraMode::needs_undistortion, (mode,), resamples),
    ensures
        seeds == PatchDepthSeedCoordinates::RawDistorted <==> mode == PatchDepthCameraMode::RawDistorted || mode
            == PatchDepthCameraMode::PerPatchBearing,
        resamples <==> mode == PatchDepthCameraMode::UndistortedPinhole || mode == PatchDepthCameraMode::TiledBearing,
        resamples <==> seeds == PatchDepthSeedCoordinates::UndistortedPinhole,
{
}

/// An estimate takes part in the fusion with its own weight where that is positive.
pub proof fn law_only_positive_weights_take_part(estimate: PatchEstimate, r: Option<Real64>)
    requires
        call_ensures(PatchEstimate::inv_var_weight, (estimate,), r),
    ensures
        r is Some <==> zero64().lt(estimate.inv_var_w),
        r matches Some(w) ==> w == estimate.inv_var_w,
{
}

/// The texture of a patch: with a known epipolar line only the curvature along it is held to the
/// least eigenvalue; without one the smaller eigenvalue is, and the condition to the largest one,
/// which a smaller eigenvalue of at most 1e-12 does not meet. A limit that is not positive asks
/// for nothing.
pub proof fn law_texture_is_held_to_the_limits(
    m: StructureMeasure,
    min_eigen: Real64,
    max_condition: Real64,
    r: bool,
)
    requires
        call_ensures(structure_tensor_passes, (m, min_eigen, max_condition), r),
    ensures
        m.epipolar_curvature matches Some(c) ==> {
            &&& !zero64().lt(min_eigen) ==> r
            &&& zero64().lt(min_eigen) && min_eigen.le(c) ==> r
            &&& zero64().lt(min_eigen) && c.lt(min_eigen) ==> !r
        },
        m.epipolar_curvature is None && zero64().lt(min_eigen) && m.lambda_min.lt(min_eigen) ==> !r,
        m.epipolar_curvature is None && zero64().lt(max_condition) && (max_condition.lt(m.condition)
            || m.lambda_min.le(Real64 { bits: 0x3D71_9799_812D_EA11 })) ==> !r,
        m.epipolar_curvature is None && (min_eigen.le(zero64()) || min_eigen.le(m.lambda_min)) && (
        max_condition.le(zero64()) || (m.condition.le(max_condition) && (Real64 {
            bits: 0x3D71_9799_812D_EA11,
        }).lt(m.lambda_min))) ==> r,
{
}

} // verus!
