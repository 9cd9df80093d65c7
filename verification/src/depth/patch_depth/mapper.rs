//! Which frames a mapper accepts, which it keeps for reference, and which it compares with.
use vstd::prelude::*;
use crate::core_types::{CameraIntrinsics, Pixel};
use crate::depth::patch_depth::{
    FrameProducts, PatchDepthCameraMode, PatchDepthError, PatchDepthSeedCoordinates,
    PatchDepthSettings, SparseDepthPrior,
};
use crate::ieee::{zero64, Real64};
use crate::ordering::{sort_by_id, Identified};

verus! {

/// The number of frames kept for reference.
pub const KEYFRAMES: usize = 2;

/// How a second camera serves as reference.
#[derive(Clone, Copy, Debug, PartialEq, Eq, Structural)]
pub enum StereoReference {
    Absent,
    /// Through undistortion tables.
    Undistorted,
    /// Through a layout of tiles.
    Tiled,
}

/// What a mapper does with a frame.
#[derive(Clone, Copy, Debug, PartialEq, Eq, Structural)]
pub enum UpdateOutcome {
    /// The frame does not fit; nothing has changed.
    Refused,
    /// The frame may have been kept, but there is nothing to compare it with.
    NoReference,
    /// The frame is to be compared with this kept frame.
    Compare(u64),
}

/// What a mapper does with a frame and an image of the second camera.
#[derive(Clone, Copy, Debug, PartialEq, Eq, Structural)]
pub enum StereoOutcome {
    /// The frame or the image does not fit, or there is no second camera; nothing has
    /// changed.
    Refused,
    /// The frame is to be compared with the image of the second camera.
    Compare,
}

/// The baselines between which a kept frame may serve as reference.
#[derive(Clone, Copy, Debug, PartialEq)]
pub struct BaselineLimits {
    pub min: Real64,
    pub max: Real64,
}

impl BaselineLimits {
    /// Whether a baseline lies within the limits.
    pub open spec fn allow(self, baseline: Real64) -> bool {
        self.min.le(baseline) && baseline.le(self.max)
    }
}

/// Whether `best` is the first of the longest baselines within the limits.
pub open spec fn is_reference(baselines: Seq<Real64>, limits: BaselineLimits, best: int) -> bool {
    &&& 0 <= best < baselines.len()
    &&& limits.allow(baselines[best])
    &&& forall|j: int|
        0 <= j < baselines.len() && limits.allow(#[trigger] baselines[j]) ==> baselines[j].le(baselines[best])
    &&& forall|j: int| 0 <= j < best && limits.allow(#[trigger] baselines[j]) ==> baselines[j].lt(baselines[best])
}

/// The first of the longest baselines within the limits.
pub fn select_keyframe(baselines: &[Real64], limits: BaselineLimits) -> (r: Option<usize>)
    ensures
        r is None <==> forall|j: int| 0 <= j < baselines@.len() ==> !limits.allow(#[trigger] baselines@[j]),
        r matches Some(b) ==> is_reference(baselines@, limits, b as int),
{
    let n: usize = baselines.len();
    let mut best: Option<usize> = None;
    let mut i: usize = 0;
    while i < n
        invariant
            i <= n,
            n == baselines@.len(),
            best is None ==> forall|j: int| 0 <= j < i ==> !limits.allow(#[trigger] baselines@[j]),
            best matches Some(b) ==> is_reference(baselines@.take(i as int), limits, b as int),
        decreases n - i,
    {
        let baseline: Real64 = baselines[i];
        let better: bool = match best {
            Some(b) => baselines[b].less(baseline),
            None => true,
        };
        proof {
            let next = baselines@.take(i + 1);
            assert(forall|j: int| 0 <= j < i ==> next[j] == baselines@.take(i as int)[j]);
            assert(next[i as int] == baseline);
        }
        if limits.min.at_most(baseline) && baseline.at_most(limits.max) && better {
            proof {
                let prev = baselines@.take(i as int);
                let next = baselines@.take(i + 1);
                assert forall|j: int| 0 <= j < i && limits.allow(#[trigger] next[j]) implies next[j].lt(baseline) by {
                    assert(prev[j] == next[j]);
                    if let Some(b) = best {
                        assert(limits.allow(prev[j]));
                    }
                }
            }
            best = Some(i);
        } else {
            proof {
                if let Some(b) = best {
                    let prev = baselines@.take(i as int);
                    let next = baselines@.take(i + 1);
                    assert forall|j: int| 0 <= j < next.len() && limits.allow(#[trigger] next[j]) implies next[j].le(
                        next[b as int],
                    ) by {
                        if j < i {
                            assert(prev[j] == next[j]);
                            assert(limits.allow(prev[j]));
                        }
                        assert(next[b as int] == prev[b as int]);
                    }
                    assert forall|j: int| 0 <= j < b && limits.allow(#[trigger] next[j]) implies next[j].lt(
                        next[b as int],
                    ) by {
                        assert(prev[j] == next[j]);
                        assert(limits.allow(prev[j]));
                    }
                }
            }
        }
        i = i + 1;
    }
    assert(baselines@.take(n as int) =~= baselines@);
    best
}

/// The frames kept after one more was offered: the first two are kept; after that a frame
/// that has moved far enough from the newest one replaces the oldest one.
pub open spec fn kept_after(kept: Seq<u64>, frame: u64, newest_baseline: Real64, min_baseline: Real64) -> Seq<u64> {
    if kept.len() < KEYFRAMES {
        kept.push(frame)
    } else if min_baseline.le(newest_baseline) {
        kept.skip(1).push(frame)
    } else {
        kept
    }
}

/// A sparse feature offered as seed: its pixel, the depth that a filter holds of it with
/// its variance, and the log-range computed from them.
#[derive(Clone, Copy, Debug, PartialEq)]
pub struct SeedQuery {
    pub id: u64,
    pub uv: Pixel,
    pub depth: Real64,
    pub depth_var: Real64,
    pub eta: Real64,
    pub eta_var: Real64,
}

impl SeedQuery {
    /// Whether the feature serves as seed: a positive depth within the limits, of finite
    /// variance, and a finite log-range of finite and positive variance.
    pub open spec fn admitted(self, settings: PatchDepthSettings) -> bool {
        &&& !self.depth.le(zero64())
        &&& !self.depth.lt(settings.min_depth)
        &&& !settings.max_depth.lt(self.depth)
        &&& self.depth_var.finite()
        &&& self.eta.finite()
        &&& self.eta_var.finite()
        &&& zero64().lt(self.eta_var)
    }

    pub open spec fn prior(self) -> SparseDepthPrior {
        SparseDepthPrior { uv: self.uv, eta: self.eta, eta_var: self.eta_var }
    }

    /// Decides whether the feature serves as seed.
    pub fn is_admitted(&self, settings: &PatchDepthSettings) -> (r: bool)
        ensures
            r == self.admitted(*settings),
    {
        !self.depth.at_most(zero64()) && !self.depth.less(settings.min_depth) && !settings.max_depth.less(self.depth)
            && self.depth_var.is_finite() && self.eta.is_finite() && self.eta_var.is_finite() && zero64().less(
            self.eta_var,
        )
    }
}

impl Identified for SeedQuery {
    open spec fn id_of(self) -> u64 {
        self.id
    }

    fn id(&self) -> (r: u64) {
        self.id
    }
}

/// The seeds among sparse features, in ascending order of the features' identifiers.
pub fn gather_seeds(queries: &[SeedQuery], settings: &PatchDepthSettings) -> (r: Vec<SparseDepthPrior>)
    ensures
        exists|sorted: Seq<SeedQuery>|
            {
                &&& #[trigger] crate::ordering::is_id_sorting_of(sorted, queries@)
                &&& r@ == sorted.filter(|q: SeedQuery| q.admitted(*settings)).map_values(|q: SeedQuery| q.prior())
            },
{
    let sorted: Vec<SeedQuery> = sort_by_id(queries);
    let mut out: Vec<SparseDepthPrior> = Vec::new();
    let ghost keep = |q: SeedQuery| q.admitted(*settings);
    let ghost pick = |q: SeedQuery| q.prior();
    let n: usize = sorted.len();
    let mut i: usize = 0;
    proof {
        reveal(Seq::filter);
        assert(sorted@.take(0).filter(keep).map_values(pick) =~= out@);
    }
    while i < n
        invariant
            i <= n,
            n == sorted@.len(),
            keep == (|q: SeedQuery| q.admitted(*settings)),
            pick == (|q: SeedQuery| q.prior()),
            out@ == sorted@.take(i as int).filter(keep).map_values(pick),
        decreases n - i,
    {
        let q: SeedQuery = sorted[i];
        proof {
            crate::seqs::lemma_filter_take(sorted@, i as int, keep);
        }
        if q.is_admitted(settings) {
            out.push(SparseDepthPrior { uv: q.uv, eta: q.eta, eta_var: q.eta_var });
        }
        assert(out@ =~= sorted@.take(i + 1).filter(keep).map_values(pick));
        i = i + 1;
    }
    assert(sorted@.take(n as int) =~= sorted@);
    out
}

/// The state of a mapper: its camera, its settings, and the identifiers of the frames it
/// keeps for reference, oldest first.
#[derive(Clone, Debug)]
pub struct PatchDepthMapper {
    camera_mode: PatchDepthCameraMode,
    intrinsics: CameraIntrinsics,
    width: usize,
    height: usize,
    settings: PatchDepthSettings,
    keyframes: Vec<u64>,
    tiled_keyframes: Vec<u64>,
    stereo: StereoReference,
}

impl PatchDepthMapper {
    pub closed spec fn mode(self) -> PatchDepthCameraMode {
        self.camera_mode
    }

    pub closed spec fn camera(self) -> CameraIntrinsics {
        self.intrinsics
    }

    pub closed spec fn image_width(self) -> usize {
        self.width
    }

    pub closed spec fn image_height(self) -> usize {
        self.height
    }

    pub closed spec fn config(self) -> PatchDepthSettings {
        self.settings
    }

    /// Frames kept for reference by untiled modes.
    pub closed spec fn kept(self) -> Seq<u64> {
        self.keyframes@
    }

    /// Frames kept for reference by the tiled mode.
    pub closed spec fn kept_tiled(self) -> Seq<u64> {
        self.tiled_keyframes@
    }

    pub closed spec fn second_camera(self) -> StereoReference {
        self.stereo
    }

    /// The parameters keep their rules, and at most two frames are kept.
    pub open spec fn wf(self) -> bool {
        &&& crate::depth::patch_depth::broken_rule(self.config(), self.mode(), self.image_width(), self.image_height())
            is None
        &&& self.image_width() * self.image_height() <= usize::MAX
        &&& self.kept().len() <= KEYFRAMES
        &&& self.kept_tiled().len() <= KEYFRAMES
    }

    /// Everything but the kept frames is as in `other`.
    pub open spec fn same_setup(self, other: Self) -> bool {
        &&& self.mode() == other.mode()
        &&& self.camera() == other.camera()
        &&& self.image_width() == other.image_width()
        &&& self.image_height() == other.image_height()
        &&& self.config() == other.config()
        &&& self.second_camera() == other.second_camera()
    }

    fn new_with_mode(
        intrinsics: CameraIntrinsics,
        width: usize,
        height: usize,
        settings: PatchDepthSettings,
        camera_mode: PatchDepthCameraMode,
    ) -> (r: Result<Self, PatchDepthError>)
        requires
            width * height <= usize::MAX,
        ensures
            r is Ok <==> crate::depth::patch_depth::broken_rule(settings, camera_mode, width, height) is None,
            r matches Err(e) ==> crate::depth::patch_depth::broken_rule(settings, camera_mode, width, height) == Some(e),
            r matches Ok(m) ==> {
                &&& m.wf()
                &&& m.mode() == camera_mode
                &&& m.camera() == intrinsics
                &&& m.image_width() == width
                &&& m.image_height() == height
                &&& m.config() == settings
                &&& m.kept().len() == 0
                &&& m.kept_tiled().len() == 0
                &&& m.second_camera() == StereoReference::Absent
            },
    {
        match settings.validate(camera_mode, width, height) {
            Err(e) => Err(e),
            Ok(_) => Ok(
                PatchDepthMapper {
                    camera_mode,
                    intrinsics,
                    width,
                    height,
                    settings,
                    keyframes: Vec::new(),
                    tiled_keyframes: Vec::new(),
                    stereo: StereoReference::Absent,
                },
            ),
        }
    }

    /// A mapper in the camera mode of its settings.
    pub fn new(intrinsics: CameraIntrinsics, width: usize, height: usize, settings: PatchDepthSettings) -> (r: Result<
        Self,
        PatchDepthError,
    >)
        requires
            width * height <= usize::MAX,
        ensures
            r is Ok <==> crate::depth::patch_depth::broken_rule(settings, settings.camera_mode, width, height) is None,
            r matches Err(e) ==> crate::depth::patch_depth::broken_rule(settings, settings.camera_mode, width, height)
                == Some(e),
            r matches Ok(m) ==> {
                &&& m.wf()
                &&& m.mode() == settings.camera_mode
                &&& m.camera() == intrinsics
                &&& m.image_width() == width
                &&& m.image_height() == height
                &&& m.config() == settings
                &&& m.kept().len() == 0
                &&& m.kept_tiled().len() == 0
                &&& m.second_camera() == StereoReference::Absent
            },
    {
        Self::new_with_mode(intrinsics, width, height, settings, settings.camera_mode)
    }

    /// A mapper that undistorts its frames to a pinhole camera, whatever its settings say.
    pub fn new_undistorted_pinhole(
        intrinsics: CameraIntrinsics,
        width: usize,
        height: usize,
        settings: PatchDepthSettings,
    ) -> (r: Result<Self, PatchDepthError>)
        requires
            width * height <= usize::MAX,
        ensures
            ({
                let used = PatchDepthSettings { camera_mode: PatchDepthCameraMode::UndistortedPinhole, ..settings };
                let rule = crate::depth::patch_depth::broken_rule(used, used.camera_mode, width, height);
                &&& r is Ok <==> rule is None
                &&& r matches Err(e) ==> rule == Some(e)
                &&& r matches Ok(m) ==> {
                    &&& m.wf()
                    &&& m.mode() == PatchDepthCameraMode::UndistortedPinhole
                    &&& m.camera() == intrinsics
                    &&& m.image_width() == width
                    &&& m.image_height() == height
                    &&& m.config() == used
                    &&& m.kept().len() == 0
                    &&& m.kept_tiled().len() == 0
                    &&& m.second_camera() == StereoReference::Absent
                }
            }),
    {
        let mut used: PatchDepthSettings = settings;
        used.camera_mode = PatchDepthCameraMode::UndistortedPinhole;
        Self::new_with_mode(intrinsics, width, height, used, PatchDepthCameraMode::UndistortedPinhole)
    }

    pub fn camera_mode(&self) -> (r: PatchDepthCameraMode)
        ensures
            r == self.mode(),
    {
        self.camera_mode
    }

    pub fn settings(&self) -> (r: PatchDepthSettings)
        ensures
            r == self.config(),
    {
        self.settings
    }

    pub fn intrinsics(&self) -> (r: CameraIntrinsics)
        ensures
            r == self.camera(),
    {
        self.intrinsics
    }

    /// The pixel coordinates in which seeds are expected.
    pub fn expected_seed_coordinates(&self) -> (r: PatchDepthSeedCoordinates)
        ensures
            r == crate::depth::patch_depth::seed_coordinates_of(self.mode()),
    {
        self.camera_mode.seed_coordinates()
    }

    /// Number of frames kept for reference by an untiled mode.
    pub fn keyframe_count(&self) -> (r: usize)
        ensures
            r == self.kept().len(),
    {
        self.keyframes.len()
    }

    /// Number of frames kept for reference by the tiled mode.
    pub fn tiled_keyframe_count(&self) -> (r: usize)
        ensures
            r == self.kept_tiled().len(),
    {
        self.tiled_keyframes.len()
    }

    /// The frames kept for reference by the current mode, oldest first.
    pub open spec fn references(self) -> Seq<u64> {
        if self.mode() == PatchDepthCameraMode::TiledBearing {
            self.kept_tiled()
        } else {
            self.kept()
        }
    }

    /// The frames kept for reference by the current mode, oldest first.
    pub fn reference_frames(&self) -> (r: Vec<u64>)
        ensures
            r@ == self.references(),
    {
        let r: Vec<u64> = if self.camera_mode == PatchDepthCameraMode::TiledBearing {
            self.tiled_keyframes.clone()
        } else {
            self.keyframes.clone()
        };
        assert(r@ =~= self.references());
        r
    }

    /// Whether a frame has the size of the mapper and one byte per pixel.
    pub open spec fn fits(self, width: usize, height: usize, bytes: nat) -> bool {
        width == self.image_width() && height == self.image_height() && bytes == self.image_width()
            * self.image_height()
    }

    /// Whether an image has the size of the mapper and one byte per pixel.
    pub fn accepts_image(&self, width: usize, height: usize, bytes: usize) -> (r: bool)
        requires
            self.wf(),
        ensures
            r == self.fits(width, height, bytes as nat),
    {
        width == self.width && height == self.height && bytes == self.width * self.height
    }

    fn manage_keyframes(&mut self, frame: u64, newest_baseline: Real64, min_baseline: Real64)
        requires
            old(self).wf(),
        ensures
            final(self).wf(),
            final(self).same_setup(*old(self)),
            old(self).mode() == PatchDepthCameraMode::TiledBearing ==> final(self).kept() == old(self).kept(),
            old(self).mode() != PatchDepthCameraMode::TiledBearing ==> final(self).kept_tiled() == old(
                self,
            ).kept_tiled(),
            final(self).references() == kept_after(old(self).references(), frame, newest_baseline, min_baseline),
    {
        if self.camera_mode == PatchDepthCameraMode::TiledBearing {
            if self.tiled_keyframes.len() < KEYFRAMES {
                self.tiled_keyframes.push(frame);
            } else if min_baseline.at_most(newest_baseline) {
                let ghost before = self.tiled_keyframes@;
                let _oldest: u64 = self.tiled_keyframes.remove(0);
                assert(self.tiled_keyframes@ =~= before.skip(1));
                self.tiled_keyframes.push(frame);
            }
        } else {
            if self.keyframes.len() < KEYFRAMES {
                self.keyframes.push(frame);
            } else if min_baseline.at_most(newest_baseline) {
                let ghost before = self.keyframes@;
                let _oldest: u64 = self.keyframes.remove(0);
                assert(self.keyframes@ =~= before.skip(1));
                self.keyframes.push(frame);
            }
        }
    }

    /// Offers a frame. `baselines` holds its distances to the kept frames, oldest first;
    /// `newest_baseline` is its distance to the newest one. The frame to compare with is
    /// chosen among those kept before; then the frame itself may be kept.
    pub fn update_with_priors(
        &mut self,
        frame: &FrameProducts,
        baselines: &[Real64],
        newest_baseline: Real64,
        limits: BaselineLimits,
    ) -> (r: UpdateOutcome)
        requires
            old(self).wf(),
            baselines@.len() == old(self).references().len(),
        ensures
            final(self).wf(),
            final(self).same_setup(*old(self)),
            old(self).mode() == PatchDepthCameraMode::TiledBearing ==> final(self).kept() == old(self).kept(),
            old(self).mode() != PatchDepthCameraMode::TiledBearing ==> final(self).kept_tiled() == old(
                self,
            ).kept_tiled(),
            r == UpdateOutcome::Refused <==> !old(self).fits(frame.width, frame.height, frame.gray@.len()),
            r == UpdateOutcome::Refused ==> *final(self) == *old(self),
            r != UpdateOutcome::Refused ==> final(self).references() == kept_after(
                old(self).references(),
                frame.frame_id,
                newest_baseline,
                limits.min,
            ),
            r == UpdateOutcome::NoReference ==> forall|j: int|
                0 <= j < baselines@.len() ==> !limits.allow(#[trigger] baselines@[j]),
            r matches UpdateOutcome::Compare(id) ==> exists|b: int|
                #[trigger] is_reference(baselines@, limits, b) && id == old(self).references()[b],
    {
        if !self.accepts_image(frame.width, frame.height, frame.gray.len()) {
            return UpdateOutcome::Refused;
        }
        let references: Vec<u64> = self.reference_frames();
        let selected: Option<usize> = select_keyframe(baselines, limits);
        self.manage_keyframes(frame.frame_id, newest_baseline, limits.min);
        match selected {
            Some(b) => {
                assert(is_reference(baselines@, limits, b as int));
                UpdateOutcome::Compare(references[b])
            },
            None => UpdateOutcome::NoReference,
        }
    }

    /// Offers a frame with seeds. Seeds in other pixel coordinates than expected are refused.
    pub fn update(
        &mut self,
        coordinates: PatchDepthSeedCoordinates,
        frame: &FrameProducts,
        baselines: &[Real64],
        newest_baseline: Real64,
        limits: BaselineLimits,
    ) -> (r: UpdateOutcome)
        requires
            old(self).wf(),
            baselines@.len() == old(self).references().len(),
        ensures
            final(self).wf(),
            final(self).same_setup(*old(self)),
            old(self).mode() == PatchDepthCameraMode::TiledBearing ==> final(self).kept() == old(self).kept(),
            old(self).mode() != PatchDepthCameraMode::TiledBearing ==> final(self).kept_tiled() == old(
                self,
            ).kept_tiled(),
            r == UpdateOutcome::Refused <==> coordinates != crate::depth::patch_depth::seed_coordinates_of(
                old(self).mode(),
            ) || !old(self).fits(frame.width, frame.height, frame.gray@.len()),
            r == UpdateOutcome::Refused ==> *final(self) == *old(self),
            r != UpdateOutcome::Refused ==> final(self).references() == kept_after(
                old(self).references(),
                frame.frame_id,
                newest_baseline,
                limits.min,
            ),
            r == UpdateOutcome::NoReference ==> forall|j: int|
                0 <= j < baselines@.len() ==> !limits.allow(#[trigger] baselines@[j]),
            r matches UpdateOutcome::Compare(id) ==> exists|b: int|
                #[trigger] is_reference(baselines@, limits, b) && id == old(self).references()[b],
    {
        if coordinates != self.expected_seed_coordinates() {
            return UpdateOutcome::Refused;
        }
        self.update_with_priors(frame, baselines, newest_baseline, limits)
    }

    /// How the second camera of a stereo pair serves a camera mode.
    pub open spec fn stereo_kind(mode: PatchDepthCameraMode) -> StereoReference {
        match mode {
            PatchDepthCameraMode::TiledBearing => StereoReference::Tiled,
            PatchDepthCameraMode::UndistortedPinhole => StereoReference::Undistorted,
            PatchDepthCameraMode::RawDistorted => StereoReference::Absent,
            PatchDepthCameraMode::PerPatchBearing => StereoReference::Absent,
        }
    }

    /// Adds the second camera of a stereo pair. Modes that work on raw images cannot use it.
    pub fn init_stereo_ref(&mut self) -> (r: StereoReference)
        requires
            old(self).wf(),
        ensures
            final(self).wf(),
            r == Self::stereo_kind(old(self).mode()),
            final(self).second_camera() == r,
            final(self).mode() == old(self).mode(),
            final(self).camera() == old(self).camera(),
            final(self).config() == old(self).config(),
            final(self).image_width() == old(self).image_width(),
            final(self).image_height() == old(self).image_height(),
            final(self).kept() == old(self).kept(),
            final(self).kept_tiled() == old(self).kept_tiled(),
    {
        let kind: StereoReference = match self.camera_mode {
            PatchDepthCameraMode::TiledBearing => StereoReference::Tiled,
            PatchDepthCameraMode::UndistortedPinhole => StereoReference::Undistorted,
            PatchDepthCameraMode::RawDistorted | PatchDepthCameraMode::PerPatchBearing => StereoReference::Absent,
        };
        self.stereo = kind;
        kind
    }

    /// Whether a second camera can serve as reference.
    pub fn has_stereo_ref(&self) -> (r: bool)
        ensures
            r == (self.second_camera() != StereoReference::Absent),
    {
        self.stereo != StereoReference::Absent
    }

    /// Whether a frame with an image of the second camera is refused.
    pub open spec fn refuses_stereo(
        self,
        coordinates: PatchDepthSeedCoordinates,
        cam1_width: usize,
        cam1_height: usize,
        cam1_bytes: nat,
    ) -> bool {
        ||| coordinates != crate::depth::patch_depth::seed_coordinates_of(self.mode())
        ||| self.second_camera() == StereoReference::Absent
        ||| self.mode() == PatchDepthCameraMode::TiledBearing && !self.fits(cam1_width, cam1_height, cam1_bytes)
    }

    /// Offers a frame together with an image of the second camera, which then serves as
    /// reference. The frame itself may be kept as in `update`.
    pub fn update_with_stereo_ref(
        &mut self,
        coordinates: PatchDepthSeedCoordinates,
        frame_id: u64,
        cam1_width: usize,
        cam1_height: usize,
        cam1_bytes: usize,
        newest_baseline: Real64,
        min_baseline: Real64,
    ) -> (r: StereoOutcome)
        requires
            old(self).wf(),
        ensures
            final(self).wf(),
            final(self).same_setup(*old(self)),
            old(self).mode() == PatchDepthCameraMode::TiledBearing ==> final(self).kept() == old(self).kept(),
            old(self).mode() != PatchDepthCameraMode::TiledBearing ==> final(self).kept_tiled() == old(
                self,
            ).kept_tiled(),
            r == StereoOutcome::Refused <==> old(self).refuses_stereo(
                coordinates,
                cam1_width,
                cam1_height,
                cam1_bytes as nat,
            ),
            r == StereoOutcome::Refused ==> *final(self) == *old(self),
            r == StereoOutcome::Compare ==> final(self).references() == kept_after(
                old(self).references(),
                frame_id,
                newest_baseline,
                min_baseline,
            ),
    {
        if coordinates != self.expected_seed_coordinates() {
            return StereoOutcome::Refused;
        }
        if self.camera_mode == PatchDepthCameraMode::TiledBearing && !self.accepts_image(
            cam1_width,
            cam1_height,
            cam1_bytes,
        ) {
            return StereoOutcome::Refused;
        }
        if self.stereo == StereoReference::Absent {
            return StereoOutcome::Refused;
        }
        self.manage_keyframes(frame_id, newest_baseline, min_baseline);
        StereoOutcome::Compare
    }
}

/// Offering frames never makes a mapper keep more than two of them, and what it keeps are
/// the frames kept before, without the oldest, and the new one.
pub proof fn law_two_frames_are_kept(kept: Seq<u64>, frame: u64, newest_baseline: Real64, min_baseline: Real64)
    requires
        kept.len() <= KEYFRAMES,
    ensures
        kept_after(kept, frame, newest_baseline, min_baseline).len() <= KEYFRAMES,
        kept_after(kept, frame, newest_baseline, min_baseline).len() >= kept.len(),
        kept.len() == KEYFRAMES && !min_baseline.le(newest_baseline) ==> kept_after(
            kept,
            frame,
            newest_baseline,
            min_baseline,
        ) == kept,
        kept.len() == KEYFRAMES && min_baseline.le(newest_baseline) ==> kept_after(
            kept,
            frame,
            newest_baseline,
            min_baseline,
        ) == seq![kept[1], frame],
{
    if kept.len() == KEYFRAMES && min_baseline.le(newest_baseline) {
        assert(kept_after(kept, frame, newest_baseline, min_baseline) =~= seq![kept[1], frame]);
    }
}

/// A frame is compared with the kept one at the longest baseline within the limits, the oldest
/// of equals; a baseline outside the limits is never used.
pub proof fn law_longest_baseline_within_limits(
    baselines: &[Real64],
    limits: BaselineLimits,
    r: Option<usize>,
)
    requires
        call_ensures(select_keyframe, (baselines, limits), r),
    ensures
        r matches Some(b) ==> {
            &&& b < baselines@.len()
            &&& limits.min.le(baselines@[b as int])
            &&& baselines@[b as int].le(limits.max)
            &&& forall|j: int|
                0 <= j < baselines@.len() && limits.min.le(#[trigger] baselines@[j]) && baselines@[j].le(limits.max)
                    ==> baselines@[j].le(baselines@[b as int])
            &&& forall|j: int|
                0 <= j < b && limits.min.le(#[trigger] baselines@[j]) && baselines@[j].le(limits.max)
                    ==> baselines@[j].lt(baselines@[b as int])
        },
{
    if let Some(b) = r {
        assert forall|j: int|
            0 <= j < baselines@.len() && limits.min.le(#[trigger] baselines@[j]) && baselines@[j].le(
                limits.max,
            ) implies baselines@[j].le(baselines@[b as int]) by {
            assert(limits.allow(baselines@[j]));
        }
        assert forall|j: int|
            0 <= j < b && limits.min.le(#[trigger] baselines@[j]) && baselines@[j].le(limits.max) implies baselines@[j].lt(
            baselines@[b as int],
        ) by {
            assert(limits.allow(baselines@[j]));
        }
    }
}

/// The first two frames are kept; after them a frame is kept only where it is at least the least
/// baseline away from the newest one, and then the oldest is given up.
pub proof fn law_frames_are_kept_apart(kept: Seq<u64>, frame: u64, newest_baseline: Real64, min_baseline: Real64)
    requires
        kept.len() <= 2,
    ensures
        kept.len() < 2 ==> kept_after(kept, frame, newest_baseline, min_baseline) == kept + seq![frame],
        kept.len() == 2 && min_baseline.le(newest_baseline) ==> kept_after(kept, frame, newest_baseline, min_baseline)
            == seq![kept[1], frame],
        kept.len() == 2 && newest_baseline.lt(min_baseline) ==> kept_after(kept, frame, newest_baseline, min_baseline)
            == kept,
{
    if kept.len() < 2 {
        assert(kept.push(frame) =~= kept + seq![frame]);
    } else if min_baseline.le(newest_baseline) {
        assert(kept.skip(1).push(frame) =~= seq![kept[1], frame]);
    }
}

/// A seed is taken where its depth is positive and within the limits, the variance of its depth
/// is finite, and its log-range is finite with a finite, positive variance.
pub proof fn law_seeds_have_a_depth_within_limits(query: &SeedQuery, settings: &PatchDepthSettings, r: bool)
    requires
        call_ensures(SeedQuery::is_admitted, (query, settings), r),
    ensures
        r ==> query.depth_var.finite() && query.eta.finite() && query.eta_var.finite() && zero64().lt(query.eta_var),
        r && !query.depth.nan() ==> zero64().lt(query.depth),
        r && !query.depth.nan() && !settings.min_depth.nan() ==> settings.min_depth.le(query.depth),
        r && !query.depth.nan() && !settings.max_depth.nan() ==> query.depth.le(settings.max_depth),
        !r ==> query.depth.le(zero64()) || query.depth.lt(settings.min_depth) || settings.max_depth.lt(query.depth)
            || !query.depth_var.finite() || !query.eta.finite() || !query.eta_var.finite() || !zero64().lt(
            query.eta_var,
        ),
{
}

/// Every admitted seed is gathered with its own pixel, log-range and variance, and no other one;
/// the seeds come in the order of their identifiers.
pub proof fn law_gathered_seeds_are_the_admitted_ones(
    queries: &[SeedQuery],
    settings: &PatchDepthSettings,
    r: Vec<SparseDepthPrior>,
    k: int,
)
    requires
        call_ensures(gather_seeds, (queries, settings), r),
        0 <= k < r@.len(),
    ensures
        exists|q: SeedQuery|
            {
                &&& #[trigger] queries@.contains(q)
                &&& q.admitted(*settings)
                &&& r@[k].uv == q.uv
                &&& r@[k].eta == q.eta
                &&& r@[k].eta_var == q.eta_var
            },
{
    let sorted = choose|sorted: Seq<SeedQuery>|
        {
            &&& #[trigger] crate::ordering::is_id_sorting_of(sorted, queries@)
            &&& r@ == sorted.filter(|q: SeedQuery| q.admitted(*settings)).map_values(|q: SeedQuery| q.prior())
        };
    let keep = |q: SeedQuery| q.admitted(*settings);
    let kept = sorted.filter(keep);
    sorted.lemma_filter_contains_rev(keep, kept[k]);
    assert(kept.contains(kept[k]));
    broadcast use vstd::seq_lib::group_to_multiset_ensures;

    let q = kept[k];
    sorted.filter_lemma(keep);
    assert(sorted.contains(q));
    assert(sorted.to_multiset().count(q) > 0);
    assert(queries@.contains(q));
    assert(r@[k] == q.prior());
}

/// A second camera serves the modes that resample their images: tile by tile for tiles, through
/// tables for the pinhole; not the modes that work on raw images.
pub proof fn law_second_camera_serves_resampling_modes(mode: PatchDepthCameraMode)
    ensures
        PatchDepthMapper::stereo_kind(mode) == StereoReference::Tiled <==> mode == PatchDepthCameraMode::TiledBearing,
        PatchDepthMapper::stereo_kind(mode) == StereoReference::Undistorted <==> mode
            == PatchDepthCameraMode::UndistortedPinhole,
        PatchDepthMapper::stereo_kind(mode) == StereoReference::Absent <==> mode == PatchDepthCameraMode::RawDistorted
            || mode == PatchDepthCameraMode::PerPatchBearing,
{
}

/// A mapper takes images of its own size, with one byte for each pixel, and no others.
pub proof fn law_images_have_the_mapper_s_size(
    mapper: &PatchDepthMapper,
    width: usize,
    height: usize,
    bytes: usize,
    r: bool,
)
    requires
        mapper.wf(),
        call_ensures(PatchDepthMapper::accepts_image, (mapper, width, height, bytes), r),
    ensures
        r <==> width == mapper.image_width() && height == mapper.image_height() && bytes == width * height,
{
}

/// With a second camera a frame is refused where its seeds are given in other coordinates than
/// the mode takes, where there is no second camera, or where tiles are used and its image has
/// another size; not otherwise.
pub proof fn law_stereo_is_refused_for_a_reason(
    mapper: PatchDepthMapper,
    coordinates: PatchDepthSeedCoordinates,
    width: usize,
    height: usize,
    bytes: nat,
)
    ensures
        ({
            let refused = mapper.refuses_stereo(coordinates, width, height, bytes);
            let raw = mapper.mode() == PatchDepthCameraMode::RawDistorted || mapper.mode()
                == PatchDepthCameraMode::PerPatchBearing;
            &&& raw && coordinates == PatchDepthSeedCoordinates::UndistortedPinhole ==> refused
            &&& !raw && coordinates == PatchDepthSeedCoordinates::RawDistorted ==> refused
            &&& mapper.second_camera() == StereoReference::Absent ==> refused
            &&& mapper.mode() == PatchDepthCameraMode::TiledBearing && (width != mapper.image_width() || height
                != mapper.image_height() || bytes != mapper.image_width() * mapper.image_height()) ==> refused
            &&& mapper.mode() == PatchDepthCameraMode::UndistortedPinhole && coordinates
                == PatchDepthSeedCoordinates::UndistortedPinhole && mapper.second_camera() != StereoReference::Absent
                ==> !refused
            &&& mapper.mode() == PatchDepthCameraMode::TiledBearing && coordinates
                == PatchDepthSeedCoordinates::UndistortedPinhole && mapper.second_camera() != StereoReference::Absent
                && width == mapper.image_width() && height == mapper.image_height() && bytes == mapper.image_width()
                * mapper.image_height() ==> !refused
        }),
{
}

/// Tiles are compared with kept tiled frames, every other mode with kept plain ones.
pub proof fn law_modes_keep_their_own_frames(mapper: &PatchDepthMapper, r: Vec<u64>, plain: usize, tiled: usize)
    requires
        call_ensures(PatchDepthMapper::reference_frames, (mapper,), r),
        call_ensures(PatchDepthMapper::keyframe_count, (mapper,), plain),
        call_ensures(PatchDepthMapper::tiled_keyframe_count, (mapper,), tiled),
    ensures
        mapper.mode() == PatchDepthCameraMode::TiledBearing ==> r@ == mapper.kept_tiled() && r@.len() == tiled,
        mapper.mode() != PatchDepthCameraMode::TiledBearing ==> r@ == mapper.kept() && r@.len() == plain,
{
}

/// Seeds are expected in the coordinates of the mode: raw ones where the images stay raw.
pub proof fn law_seeds_are_expected_in_the_images_coordinates(
    mapper: &PatchDepthMapper,
    r: PatchDepthSeedCoordinates,
    undistorted: bool,
)
    requires
        call_ensures(PatchDepthMapper::expected_seed_coordinates, (mapper,), r),
        call_ensures(PatchDepthCameraMode::needs_undistortion, (mapper.mode(),), undistorted),
    ensures
        r == PatchDepthSeedCoordinates::RawDistorted <==> !undistorted,
{
}

} // verus!
