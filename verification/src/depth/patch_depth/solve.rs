//! The decisions of a patch solve: when to iterate, when to stop, what came of it.
use vstd::prelude::*;
use crate::depth::patch_depth::fuse::PatchCenter;
use crate::depth::patch_depth::tiled_bearing::TiledBearingTile;
use crate::depth::patch_depth::{
    structure_tensor_passes, PatchDepthCameraMode, PatchDepthSettings, PatchDepthWarpMode,
    PatchEstimate, StructureMeasure,
};
use crate::ieee::{real64, zero32, zero64, Real32, Real64};

verus! {

/// 1e10: the residual of a patch that was never compared.
#[verifier::allow_in_spec]
pub fn no_residual() -> Real64
    returns
        (Real64 { bits: 0x4202_A05F_2000_0000 }),
{
    Real64 { bits: 0x4202_A05F_2000_0000 }
}

/// 1e-12: below it a curvature cannot be divided by.
#[verifier::allow_in_spec]
pub fn least_curvature() -> Real64
    returns
        (Real64 { bits: 0x3D71_9799_812D_EA11 }),
{
    Real64 { bits: 0x3D71_9799_812D_EA11 }
}

/// Infinity as a binary64 number.
#[verifier::allow_in_spec]
pub fn infinity64() -> Real64
    returns
        (Real64 { bits: 0x7FF0_0000_0000_0000 }),
{
    Real64 { bits: 0x7FF0_0000_0000_0000 }
}

/// Which solver a camera mode uses for one patch of an untiled frame.
#[derive(Clone, Copy, Debug, PartialEq, Eq, Structural)]
pub enum PatchSolver {
    /// Every patch in its own tangent frame.
    PerPatchBearing,
    /// Patches warped through the camera model of the frame.
    Frame,
}

/// Picks the solver for one patch of an untiled frame.
pub fn solve_one_patch_dispatch(mode: PatchDepthCameraMode) -> (r: PatchSolver)
    ensures
        r == (if mode == PatchDepthCameraMode::PerPatchBearing {
            PatchSolver::PerPatchBearing
        } else {
            PatchSolver::Frame
        }),
{
    if mode == PatchDepthCameraMode::PerPatchBearing {
        PatchSolver::PerPatchBearing
    } else {
        PatchSolver::Frame
    }
}

/// Whether patches are compared as translated squares.
pub open spec fn translates_patches(settings: PatchDepthSettings, mode: PatchDepthCameraMode) -> bool {
    settings.warp_mode == PatchDepthWarpMode::FastTranslation && mode == PatchDepthCameraMode::UndistortedPinhole
}

/// Whether patches are compared as translated squares instead of pixel by pixel.
pub fn uses_fast_translation(settings: &PatchDepthSettings, mode: PatchDepthCameraMode) -> (r: bool)
    ensures
        r == translates_patches(*settings, mode),
{
    settings.warp_mode == PatchDepthWarpMode::FastTranslation && mode == PatchDepthCameraMode::UndistortedPinhole
}

/// Whether both texture limits are switched off.
pub open spec fn structure_gate_is_off(settings: PatchDepthSettings) -> bool {
    settings.min_structure_eigen.le(zero64()) && settings.max_structure_condition.le(zero64())
}

/// Decides whether a patch has the texture that a depth needs. `measure` is what was found
/// in the reference image; nothing where the patch does not fall into it.
pub fn patch_has_enough_structure(settings: &PatchDepthSettings, measure: Option<StructureMeasure>) -> (r: bool)
    ensures
        r == (structure_gate_is_off(*settings) || (measure matches Some(m)
            && crate::depth::patch_depth::has_structure(
            m,
            settings.min_structure_eigen,
            settings.max_structure_condition,
        ))),
{
    if settings.min_structure_eigen.at_most(zero64()) && settings.max_structure_condition.at_most(zero64()) {
        return true;
    }
    match measure {
        Some(m) => structure_tensor_passes(m, settings.min_structure_eigen, settings.max_structure_condition),
        None => false,
    }
}

/// The log-ranges between which a patch is solved.
#[derive(Clone, Copy, Debug, PartialEq)]
pub struct EtaLimits {
    pub low: Real64,
    pub high: Real64,
}

impl EtaLimits {
    /// The lower limit is not above the upper one.
    pub open spec fn wf(self) -> bool {
        self.low.le(self.high)
    }

    /// Whether a log-range lies between the limits.
    pub open spec fn hold(self, eta: Real64) -> bool {
        self.low.le(eta) && eta.le(self.high)
    }

    /// The log-range moved between the limits; a NaN stays as it is.
    pub fn limit(&self, eta: Real64) -> (r: Real64)
        requires
            self.wf(),
        ensures
            r == eta.clamped(self.low, self.high),
            r.nan() <==> eta.nan(),
            !eta.nan() ==> self.hold(r),
    {
        eta.clamp(self.low, self.high)
    }
}

/// What is known of a patch before it is compared with the reference image.
#[derive(Clone, Copy, Debug, PartialEq)]
pub struct PatchEntry {
    pub has_seeds: bool,
    pub has_direction: bool,
    pub has_structure: bool,
    pub eta_init: Real64,
}

/// The estimate of a patch that need not be compared; nothing where it must be.
pub fn settle_before_solve(entry: &PatchEntry) -> (r: Option<PatchEstimate>)
    ensures
        !entry.has_seeds || !entry.has_direction ==> r == Some(PatchEstimate::unknown_estimate()),
        entry.has_seeds && entry.has_direction && !entry.has_structure ==> r == Some(
            PatchEstimate {
                eta: entry.eta_init,
                status: crate::depth::patch_depth::PatchStatus::Rejected,
                inv_var_w: zero64(),
            },
        ),
        entry.has_seeds && entry.has_direction && entry.has_structure ==> r is None,
{
    if !entry.has_seeds || !entry.has_direction {
        return Some(PatchEstimate::unknown());
    }
    if !entry.has_structure {
        return Some(PatchEstimate::rejected(entry.eta_init));
    }
    None
}

/// The estimate of a patch in its own tangent frame that cannot be compared: that of its seeds
/// where it has no tile, or its tile no map into the images; nothing where it is compared.
pub fn settle_without_map(has_tile: bool, has_map: bool, eta_init: Real64, seed_weight: Real64) -> (r: Option<
    PatchEstimate,
>)
    ensures
        has_tile && has_map <==> r is None,
        !has_tile || !has_map ==> r == Some(
            PatchEstimate {
                eta: eta_init,
                status: crate::depth::patch_depth::PatchStatus::SeedOnly,
                inv_var_w: seed_weight,
            },
        ),
{
    if has_tile && has_map {
        None
    } else {
        Some(PatchEstimate::seed_only(eta_init, seed_weight))
    }
}

/// A log-range tried before the iteration, with its photometric cost and the number of
/// pixels compared.
#[derive(Clone, Copy, Debug, PartialEq)]
pub struct SearchCandidate {
    pub eta: Real64,
    pub cost: Real64,
    pub valid: usize,
}

impl SearchCandidate {
    /// Whether pixels were compared, at a cost below infinity.
    pub open spec fn counts(self) -> bool {
        self.valid > 0 && self.cost.lt(infinity64())
    }
}

/// Whether `best` is the first of the cheapest candidates that count.
pub open spec fn is_first_cheapest(candidates: Seq<SearchCandidate>, best: int) -> bool {
    &&& 0 <= best < candidates.len()
    &&& candidates[best].counts()
    &&& forall|j: int|
        0 <= j < candidates.len() && (#[trigger] candidates[j]).counts() ==> candidates[best].cost.le(
            candidates[j].cost,
        )
    &&& forall|j: int|
        0 <= j < best && (#[trigger] candidates[j]).counts() ==> candidates[best].cost.lt(candidates[j].cost)
}

/// Number of log-ranges tried before the iteration: a single one is not tried at all.
pub fn tried_candidates(n: usize) -> (r: usize)
    ensures
        r == (if n > 1 {
            n
        } else {
            0
        }),
{
    if n > 1 {
        n
    } else {
        0
    }
}

/// The log-range to start from: that of the cheapest candidate, the first of equals, or the
/// one from the seeds where no candidate counts. A single candidate is not tried at all.
pub fn search_initial_eta(eta_init: Real64, candidates: &[SearchCandidate]) -> (r: Real64)
    ensures
        candidates@.len() <= 1 ==> r == eta_init,
        candidates@.len() > 1 && (forall|j: int| 0 <= j < candidates@.len() ==> !(#[trigger] candidates@[j]).counts())
            ==> r == eta_init,
        candidates@.len() > 1 && (exists|j: int| 0 <= j < candidates@.len() && (#[trigger] candidates@[j]).counts())
            ==> exists|b: int| #[trigger] is_first_cheapest(candidates@, b) && r == candidates@[b].eta,
{
    let n: usize = candidates.len();
    if n <= 1 {
        return eta_init;
    }
    let mut best: Option<usize> = None;
    let mut best_cost: Real64 = infinity64();
    let mut i: usize = 0;
    while i < n
        invariant
            i <= n,
            n == candidates@.len(),
            !best_cost.nan(),
            best_cost.le(infinity64()),
            best is None ==> best_cost == infinity64() && forall|j: int|
                0 <= j < i ==> !(#[trigger] candidates@[j]).counts(),
            best matches Some(b) ==> {
                &&& b < i
                &&& candidates@[b as int].counts()
                &&& best_cost == candidates@[b as int].cost
                &&& forall|j: int|
                    0 <= j < i && (#[trigger] candidates@[j]).counts() ==> best_cost.le(candidates@[j].cost)
                &&& forall|j: int|
                    0 <= j < b && (#[trigger] candidates@[j]).counts() ==> best_cost.lt(candidates@[j].cost)
            },
        decreases n - i,
    {
        let c: SearchCandidate = candidates[i];
        if c.valid > 0 && c.cost.less(best_cost) {
            best_cost = c.cost;
            best = Some(i);
        }
        i = i + 1;
    }
    match best {
        Some(b) => {
            assert(is_first_cheapest(candidates@, b as int));
            candidates[b].eta
        },
        None => eta_init,
    }
}

/// What one comparison with the reference image gave: the number of pixels compared, the
/// curvature with and without the seeds, the mean residual, the log-range that the step leads
/// to, and the length of the step once that is moved between the limits.
#[derive(Clone, Copy, Debug, PartialEq)]
pub struct SolveStep {
    pub valid: usize,
    pub hess_total: Real64,
    pub hess_photo: Real64,
    pub mean_residual: Real64,
    pub eta_next: Real64,
    pub delta: Real64,
}

impl SolveStep {
    /// Whether the step is taken: pixels were compared, with a curvature that can be divided
    /// by.
    pub open spec fn moves(self) -> bool {
        self.valid > 0 && !self.hess_total.lt(least_curvature())
    }
}

/// What became of a patch.
#[derive(Clone, Copy, Debug, PartialEq, Eq, Structural)]
pub enum PatchVerdict {
    PhotoRefined,
    Rejected,
    SeedOnly,
}

/// The state of the iteration over one patch.
#[derive(Clone, Copy, Debug, PartialEq)]
pub struct PatchSolve {
    pub eta: Real64,
    pub eta_init: Real64,
    pub limits: EtaLimits,
    pub residual: Real64,
    pub curvature: Real64,
    pub rounds_left: usize,
    pub observed: bool,
}

impl PatchSolve {
    /// Starts an iteration of at most `rounds` rounds from `eta`.
    pub fn new(eta: Real64, eta_init: Real64, limits: EtaLimits, rounds: usize) -> (r: Self)
        ensures
            r == (PatchSolve {
                eta,
                eta_init,
                limits,
                residual: no_residual(),
                curvature: zero64(),
                rounds_left: rounds,
                observed: false,
            }),
    {
        PatchSolve {
            eta,
            eta_init,
            limits,
            residual: no_residual(),
            curvature: zero64(),
            rounds_left: rounds,
            observed: false,
        }
    }

    /// Whether another comparison is wanted.
    pub fn wants_round(&self) -> (r: bool)
        ensures
            r == (self.rounds_left > 0),
    {
        self.rounds_left > 0
    }

    /// The state after a round. Without any compared pixel, or with a curvature too small to
    /// divide by, the iteration ends where it stands; after a step shorter than `tolerance`
    /// it ends with that step. A step does not leave the limits.
    pub open spec fn after(self, step: SolveStep, tolerance: Option<Real64>) -> Self {
        if step.valid == 0 {
            PatchSolve { rounds_left: 0, ..self }
        } else if step.hess_total.lt(least_curvature()) {
            PatchSolve { rounds_left: 0, observed: true, ..self }
        } else {
            PatchSolve {
                eta: step.eta_next.clamped(self.limits.low, self.limits.high),
                residual: step.mean_residual,
                curvature: step.hess_photo,
                rounds_left: if tolerance matches Some(t) && step.delta.lt(t) {
                    0
                } else {
                    (self.rounds_left - 1) as usize
                },
                observed: true,
                ..self
            }
        }
    }

    /// Takes the outcome of one comparison.
    pub fn take(&mut self, step: &SolveStep, tolerance: Option<Real64>)
        requires
            old(self).rounds_left > 0,
            old(self).limits.wf(),
        ensures
            *final(self) == old(self).after(*step, tolerance),
            final(self).rounds_left < old(self).rounds_left,
            step.moves() && !step.eta_next.nan() ==> final(self).limits.hold(final(self).eta),
    {
        if step.valid == 0 {
            self.rounds_left = 0;
            return;
        }
        self.observed = true;
        if step.hess_total.less(least_curvature()) {
            self.rounds_left = 0;
            return;
        }
        self.eta = self.limits.limit(step.eta_next);
        self.residual = step.mean_residual;
        self.curvature = step.hess_photo;
        let converged: bool = match tolerance {
            Some(t) => step.delta.less(t),
            None => false,
        };
        self.rounds_left = if converged { 0 } else { self.rounds_left - 1 };
    }

    /// What the last curvature and residual say of the patch.
    pub open spec fn judged(self, min_curvature: Real64, max_residual: Real64) -> PatchVerdict {
        if min_curvature.le(self.curvature) && self.residual.le(max_residual) {
            PatchVerdict::PhotoRefined
        } else if max_residual.lt(self.residual) && min_curvature.le(self.curvature) {
            PatchVerdict::Rejected
        } else {
            PatchVerdict::SeedOnly
        }
    }

    /// Judges a patch: refined where there is enough curvature and a small residual,
    /// rejected where there is enough curvature and a large residual, left to the seeds
    /// otherwise.
    pub fn verdict(&self, min_curvature: Real64, max_residual: Real64) -> (r: PatchVerdict)
        ensures
            r == self.judged(min_curvature, max_residual),
    {
        if min_curvature.at_most(self.curvature) && self.residual.at_most(max_residual) {
            PatchVerdict::PhotoRefined
        } else if max_residual.less(self.residual) && min_curvature.at_most(self.curvature) {
            PatchVerdict::Rejected
        } else {
            PatchVerdict::SeedOnly
        }
    }

    /// What becomes of a patch in its own tangent frame, which is never rejected.
    pub open spec fn judged_without_rejection(self, min_curvature: Real64, max_residual: Real64) -> PatchVerdict {
        if self.observed && min_curvature.le(self.curvature) && self.residual.le(max_residual) {
            PatchVerdict::PhotoRefined
        } else {
            PatchVerdict::SeedOnly
        }
    }

    /// Judges a patch in its own tangent frame: refined where it was compared with enough
    /// curvature and a small residual, left to the seeds otherwise.
    pub fn verdict_without_rejection(&self, min_curvature: Real64, max_residual: Real64) -> (r: PatchVerdict)
        ensures
            r == self.judged_without_rejection(min_curvature, max_residual),
    {
        if self.observed && min_curvature.at_most(self.curvature) && self.residual.at_most(max_residual) {
            PatchVerdict::PhotoRefined
        } else {
            PatchVerdict::SeedOnly
        }
    }

    /// What is estimated of a judged patch.
    pub open spec fn estimated(
        self,
        verdict: PatchVerdict,
        photo_weight: Real64,
        seed_weight: Real64,
    ) -> PatchEstimate {
        match verdict {
            PatchVerdict::PhotoRefined => PatchEstimate {
                eta: self.eta,
                status: crate::depth::patch_depth::PatchStatus::PhotoRefined,
                inv_var_w: photo_weight,
            },
            PatchVerdict::Rejected => PatchEstimate {
                eta: self.eta,
                status: crate::depth::patch_depth::PatchStatus::Rejected,
                inv_var_w: zero64(),
            },
            PatchVerdict::SeedOnly => PatchEstimate {
                eta: self.eta_init,
                status: crate::depth::patch_depth::PatchStatus::SeedOnly,
                inv_var_w: seed_weight,
            },
        }
    }

    /// The estimate of a judged patch: the refined log-range, or that of the seeds, with the
    /// weight of its variance.
    pub fn estimate(&self, verdict: PatchVerdict, photo_weight: Real64, seed_weight: Real64) -> (r: PatchEstimate)
        ensures
            r == self.estimated(verdict, photo_weight, seed_weight),
            self.limits.hold(self.eta) && self.limits.hold(self.eta_init) ==> self.limits.hold(r.eta),
    {
        match verdict {
            PatchVerdict::PhotoRefined => PatchEstimate::photo_refined(self.eta, photo_weight),
            PatchVerdict::Rejected => PatchEstimate::rejected(self.eta),
            PatchVerdict::SeedOnly => PatchEstimate::seed_only(self.eta_init, seed_weight),
        }
    }
}

/// A patch is never refined and rejected at once; without enough curvature it is neither.
pub proof fn law_verdicts_exclude_each_other(solve: PatchSolve, min_curvature: Real64, max_residual: Real64)
    ensures
        !min_curvature.le(solve.curvature) ==> solve.judged(min_curvature, max_residual) == PatchVerdict::SeedOnly,
        solve.residual.nan() || max_residual.nan() ==> solve.judged(min_curvature, max_residual)
            == PatchVerdict::SeedOnly,
        solve.judged(min_curvature, max_residual) == PatchVerdict::PhotoRefined ==> !max_residual.lt(solve.residual),
        solve.judged_without_rejection(min_curvature, max_residual) == PatchVerdict::PhotoRefined ==> solve.judged(
            min_curvature,
            max_residual,
        ) == PatchVerdict::PhotoRefined,
        solve.judged_without_rejection(min_curvature, max_residual) != PatchVerdict::Rejected,
{
}

/// Whether an iteration goes through these states, one round after the other.
pub open spec fn is_iteration(states: Seq<PatchSolve>, steps: Seq<SolveStep>, tolerance: Option<Real64>) -> bool {
    &&& states.len() == steps.len() + 1
    &&& forall|i: int|
        0 <= i < steps.len() ==> states[i].rounds_left > 0 && states[i + 1] == states[i].after(
            #[trigger] steps[i],
            tolerance,
        )
}

/// Every solved log-range lies between its limits: where the seeds' log-range does, no step is
/// NaN, and the iteration starts between the limits or takes at least one step.
pub proof fn law_solved_range_stays_within_limits(
    states: Seq<PatchSolve>,
    steps: Seq<SolveStep>,
    tolerance: Option<Real64>,
    verdict: PatchVerdict,
    photo_weight: Real64,
    seed_weight: Real64,
)
    requires
        is_iteration(states, steps, tolerance),
        states[0].limits.wf(),
        states[0].limits.hold(states[0].eta_init),
        forall|i: int| 0 <= i < steps.len() ==> !(#[trigger] steps[i]).eta_next.nan(),
        states[0].limits.hold(states[0].eta) || exists|i: int|
            0 <= i < steps.len() && (#[trigger] steps[i]).moves(),
    ensures
        states.last().limits == states[0].limits,
        states[0].limits.hold(states.last().eta),
        states[0].limits.hold(states.last().estimated(verdict, photo_weight, seed_weight).eta),
{
    lemma_rounds_keep_limits(states, steps, tolerance, steps.len() as int);
}

proof fn lemma_rounds_keep_limits(
    states: Seq<PatchSolve>,
    steps: Seq<SolveStep>,
    tolerance: Option<Real64>,
    n: int,
)
    requires
        is_iteration(states, steps, tolerance),
        states[0].limits.wf(),
        forall|i: int| 0 <= i < steps.len() ==> !(#[trigger] steps[i]).eta_next.nan(),
        0 <= n <= steps.len(),
    ensures
        states[n].limits == states[0].limits,
        states[n].eta_init == states[0].eta_init,
        states[0].limits.hold(states[0].eta) || (exists|i: int| 0 <= i < n && (#[trigger] steps[i]).moves())
            ==> states[0].limits.hold(states[n].eta),
    decreases n,
{
    if n > 0 {
        lemma_rounds_keep_limits(states, steps, tolerance, n - 1);
        let step = steps[n - 1];
        assert(states[(n - 1) + 1] == states[n - 1].after(step, tolerance));
    }
}

/// A round without compared pixels changes nothing but that it is the last one.
pub proof fn law_unseen_patch_keeps_its_state(solve: PatchSolve, step: SolveStep, tolerance: Option<Real64>)
    requires
        step.valid == 0,
    ensures
        solve.after(step, tolerance).eta == solve.eta,
        solve.after(step, tolerance).residual == solve.residual,
        solve.after(step, tolerance).curvature == solve.curvature,
        solve.after(step, tolerance).observed == solve.observed,
        solve.after(step, tolerance).rounds_left == 0,
{
}

/// A square of pixels within a level.
#[derive(Clone, Copy, Debug, PartialEq, Eq, Structural)]
pub struct TileSquare {
    pub x0: usize,
    pub y0: usize,
    pub side: usize,
}

/// Side of the square around a patch: what is needed, from twice the patch up to the
/// configured tile.
pub open spec fn square_side(settings: PatchDepthSettings, need: int) -> int {
    let low = 2 * settings.patch_size;
    let high = if settings.tiled_tile_size > low {
        settings.tiled_tile_size as int
    } else {
        low
    };
    if need < low {
        low
    } else if need > high {
        high
    } else {
        need
    }
}

/// First pixel of a square of `side` pixels around `center`, moved into an axis of `len`.
pub open spec fn square_start(center: int, side: int, len: int) -> int {
    let start = center - side / 2;
    if start < 0 {
        0
    } else if start > len - side {
        len - side
    } else {
        start
    }
}

/// A rounded coordinate as an integer.
pub open spec fn rounded_pixel(q: Real64) -> int {
    if q.nan() {
        0
    } else {
        crate::ieee::saturated_i64(q.truncated())
    }
}

fn place_square(center: Real64, side: usize, len: usize) -> (r: usize)
    requires
        side < len <= i64::MAX,
        rounded_pixel(center) - side / 2 >= i64::MIN,
    ensures
        r == square_start(rounded_pixel(center), side as int, len as int),
        r + side <= len,
{
    let c: i64 = center.trunc_to_i64();
    let start: i64 = c - (side / 2) as i64;
    let last: i64 = (len - side) as i64;
    if start < 0 {
        0
    } else if start > last {
        last as usize
    } else {
        start as usize
    }
}

/// Places the square in which a patch is rectified. `need` is the side that holds the
/// displacement of the patch; `cu` and `cv` are the rounded coordinates of its centre.
/// Nothing where the level is not larger than the square.
pub fn place_patch_tile(
    settings: &PatchDepthSettings,
    need: Real64,
    cu: Real64,
    cv: Real64,
    lw: usize,
    lh: usize,
) -> (r: Option<TileSquare>)
    requires
        2 * settings.patch_size <= usize::MAX,
        lw <= i64::MAX,
        lh <= i64::MAX,
        ({
            let side = square_side(*settings, need.whole_size());
            side < lw && side < lh ==> rounded_pixel(cu) - side / 2 >= i64::MIN && rounded_pixel(cv) - side / 2
                >= i64::MIN
        }),
    ensures
        ({
            let side = square_side(*settings, need.whole_size());
            &&& r is None <==> side >= lw || side >= lh
            &&& r matches Some(t) ==> {
                &&& t.side == side
                &&& t.x0 == square_start(rounded_pixel(cu), side, lw as int)
                &&& t.y0 == square_start(rounded_pixel(cv), side, lh as int)
                &&& t.x0 + t.side <= lw
                &&& t.y0 + t.side <= lh
            }
        }),
{
    let wanted: usize = need.trunc_to_usize();
    let low: usize = 2 * settings.patch_size;
    let high: usize = if settings.tiled_tile_size > low { settings.tiled_tile_size } else { low };
    let side: usize = if wanted < low {
        low
    } else if wanted > high {
        high
    } else {
        wanted
    };
    if side >= lw || side >= lh {
        return None;
    }
    let x0: usize = place_square(cu, side, lw);
    let y0: usize = place_square(cv, side, lh);
    Some(TileSquare { x0, y0, side })
}

/// A pixel of an image.
#[derive(Clone, Copy, Debug, PartialEq, Eq, Structural)]
pub struct ImagePixel {
    pub x: usize,
    pub y: usize,
}

/// Whether a pixel belongs to the patch around a centre: `half` pixels before it, and
/// `half - 1` behind it, in both directions.
pub open spec fn in_patch(center: PatchCenter, half: int, x: int, y: int) -> bool {
    center.u - half <= x < center.u + half && center.v - half <= y < center.v + half
}

/// The pixels of a patch that lie inside an image, row by row.
pub fn patch_pixels(center: PatchCenter, half: usize, width: usize, height: usize) -> (r: Vec<ImagePixel>)
    requires
        center.u + half <= usize::MAX,
        center.v + half <= usize::MAX,
    ensures
        forall|k: int|
            0 <= k < r@.len() ==> in_patch(center, half as int, (#[trigger] r@[k]).x as int, r@[k].y as int) && r@[k].x
                < width && r@[k].y < height,
        forall|p: ImagePixel|
            in_patch(center, half as int, p.x as int, p.y as int) && p.x < width && p.y < height
                ==> #[trigger] r@.contains(p),
        forall|a: int, b: int|
            0 <= a < b < r@.len() ==> (#[trigger] r@[a]).y < (#[trigger] r@[b]).y || r@[a].y == r@[b].y && r@[a].x
                < r@[b].x,
{
    let x_start: usize = if center.u < half { 0 } else { center.u - half };
    let y_start: usize = if center.v < half { 0 } else { center.v - half };
    let x_end: usize = if center.u + half < width { center.u + half } else { width };
    let y_end: usize = if center.v + half < height { center.v + half } else { height };
    let mut out: Vec<ImagePixel> = Vec::new();
    let mut y: usize = y_start;
    while y < y_end
        invariant
            y_start <= y,
            y <= y_end || y == y_start,
            x_start == (if center.u < half {
                0
            } else {
                center.u - half
            }),
            y_start == (if center.v < half {
                0
            } else {
                center.v - half
            }),
            x_end <= width,
            y_end <= height,
            x_end <= center.u + half,
            y_end <= center.v + half,
            forall|k: int|
                0 <= k < out@.len() ==> in_patch(
                    center,
                    half as int,
                    (#[trigger] out@[k]).x as int,
                    out@[k].y as int,
                ) && out@[k].x < width && out@[k].y < height && out@[k].y < y,
            forall|p: ImagePixel| x_start <= p.x < x_end && y_start <= p.y < y ==> #[trigger] out@.contains(p),
            forall|a: int, b: int|
                0 <= a < b < out@.len() ==> (#[trigger] out@[a]).y < (#[trigger] out@[b]).y || out@[a].y == out@[b].y
                    && out@[a].x < out@[b].x,
        decreases y_end - y,
    {
        let mut x: usize = x_start;
        while x < x_end
            invariant
                y_start <= y < y_end,
                x_start <= x,
                x <= x_end || x == x_start,
                x_start == (if center.u < half {
                    0
                } else {
                    center.u - half
                }),
                y_start == (if center.v < half {
                    0
                } else {
                    center.v - half
                }),
                x_end <= width,
                y_end <= height,
                x_end <= center.u + half,
                y_end <= center.v + half,
                forall|k: int|
                    0 <= k < out@.len() ==> in_patch(
                        center,
                        half as int,
                        (#[trigger] out@[k]).x as int,
                        out@[k].y as int,
                    ) && out@[k].x < width && out@[k].y < height && (out@[k].y < y || out@[k].y == y && out@[k].x < x),
                forall|p: ImagePixel|
                    x_start <= p.x < x_end && y_start <= p.y < y || x_start <= p.x < x && p.y == y
                        ==> #[trigger] out@.contains(p),
                forall|a: int, b: int|
                    0 <= a < b < out@.len() ==> (#[trigger] out@[a]).y < (#[trigger] out@[b]).y || out@[a].y
                        == out@[b].y && out@[a].x < out@[b].x,
            decreases x_end - x,
        {
            let ghost before = out@;
            let added: ImagePixel = ImagePixel { x, y };
            out.push(added);
            assert forall|p: ImagePixel|
                x_start <= p.x < x_end && y_start <= p.y < y || x_start <= p.x < x + 1 && p.y
                    == y implies #[trigger] out@.contains(p) by {
                crate::seqs::lemma_push_contains(before, added, p);
            }
            x = x + 1;
        }
        y = y + 1;
    }
    out
}

/// On which sides a tile fades out: those that do not coincide with the edge of the level.
#[derive(Clone, Copy, Debug, PartialEq, Eq, Structural)]
pub struct FeatheredSides {
    pub left: bool,
    pub right: bool,
    pub top: bool,
    pub bottom: bool,
}

/// On which sides a tile of a level of `width` by `height` pixels fades out.
pub fn feathered_sides(tile: &TiledBearingTile, width: usize, height: usize) -> (r: FeatheredSides)
    requires
        tile.x0 + tile.width <= usize::MAX,
        tile.y0 + tile.height <= usize::MAX,
    ensures
        r.left == (tile.x0 > 0),
        r.right == (tile.x0 + tile.width < width),
        r.top == (tile.y0 > 0),
        r.bottom == (tile.y0 + tile.height < height),
{
    FeatheredSides {
        left: tile.x0 > 0,
        right: tile.x0 + tile.width < width,
        top: tile.y0 > 0,
        bottom: tile.y0 + tile.height < height,
    }
}

/// Number of pixels over which a tile fades out: what the overlap has beyond a patch, at
/// least one.
pub fn blend_margin(settings: &PatchDepthSettings) -> (r: usize)
    ensures
        r == (if settings.tiled_tile_overlap > settings.patch_size {
            settings.tiled_tile_overlap - settings.patch_size
        } else {
            1
        }),
        r >= 1,
{
    if settings.tiled_tile_overlap > settings.patch_size {
        settings.tiled_tile_overlap - settings.patch_size
    } else {
        1
    }
}

/// Whether a tile adds to a pixel at which its blend has this weight.
pub fn tile_contributes(weight: Real32) -> (r: bool)
    ensures
        r == !weight.le(zero32()),
{
    !weight.at_most(zero32())
}

/// A patch that lies in a tile has its centre in the tile.
pub proof fn law_owned_patch_has_its_centre_in_the_tile(tile: TiledBearingTile, u: int, v: int, half: int)
    requires
        half >= 0,
        tile.holds_center(u, v, half),
    ensures
        tile.has_pixel(u, v),
        forall|x: int, y: int|
            u - half <= x < u + half && v - half <= y < v + half ==> #[trigger] tile.has_pixel(x, y),
{
}

/// A round that compared pixels, with a curvature of at least 1e-12, leaves its own mean
/// residual and its own photometric curvature behind, whatever earlier rounds gave; it moves
/// the log-range to where the step leads, or to the nearer limit beyond it. It is the last
/// round if its step is shorter than the tolerance, else one round of several.
pub proof fn law_moving_round_leaves_its_own_measure(solve: PatchSolve, step: SolveStep, tolerance: Option<Real64>)
    requires
        step.valid > 0,
        !step.hess_total.lt(Real64 { bits: 0x3D71_9799_812D_EA11 }),
        solve.rounds_left > 0,
        solve.limits.low.le(solve.limits.high),
    ensures
        solve.after(step, tolerance).residual == step.mean_residual,
        solve.after(step, tolerance).curvature == step.hess_photo,
        solve.after(step, tolerance).observed,
        solve.after(step, tolerance).eta_init == solve.eta_init,
        solve.after(step, tolerance).limits == solve.limits,
        step.eta_next.nan() || (solve.limits.low.le(step.eta_next) && step.eta_next.le(solve.limits.high))
            ==> solve.after(step, tolerance).eta == step.eta_next,
        step.eta_next.lt(solve.limits.low) ==> solve.after(step, tolerance).eta == solve.limits.low,
        solve.limits.high.lt(step.eta_next) ==> solve.after(step, tolerance).eta == solve.limits.high,
        tolerance is None ==> solve.after(step, tolerance).rounds_left == solve.rounds_left - 1,
        tolerance matches Some(t) ==> (step.delta.lt(t) ==> solve.after(step, tolerance).rounds_left == 0) && (
        !step.delta.lt(t) ==> solve.after(step, tolerance).rounds_left == solve.rounds_left - 1),
{
}

/// A round whose curvature is below 1e-12 ends the iteration where it stands: what the patch
/// is judged by stays that of the rounds before it, and the patch counts as compared.
pub proof fn law_flat_round_ends_the_iteration(solve: PatchSolve, step: SolveStep, tolerance: Option<Real64>)
    requires
        step.valid > 0,
        step.hess_total.lt(Real64 { bits: 0x3D71_9799_812D_EA11 }),
    ensures
        solve.after(step, tolerance).eta == solve.eta,
        solve.after(step, tolerance).eta_init == solve.eta_init,
        solve.after(step, tolerance).limits == solve.limits,
        solve.after(step, tolerance).residual == solve.residual,
        solve.after(step, tolerance).curvature == solve.curvature,
        solve.after(step, tolerance).observed,
        solve.after(step, tolerance).rounds_left == 0,
{
}

/// Whether a round moves the log-range: pixels were compared, with a curvature of at least
/// 1e-12.
pub open spec fn compares(step: SolveStep) -> bool {
    step.valid > 0 && !step.hess_total.lt(Real64 { bits: 0x3D71_9799_812D_EA11 })
}

/// Over a whole iteration the last round that moved decides: the patch is refined where that
/// round's curvature is large enough and its residual small enough, rejected where the
/// curvature is large enough and the residual too large, left to the seeds otherwise,
/// whatever the earlier rounds gave.
pub proof fn law_last_moving_round_decides(
    states: Seq<PatchSolve>,
    steps: Seq<SolveStep>,
    tolerance: Option<Real64>,
    k: int,
    min_curvature: Real64,
    max_residual: Real64,
)
    requires
        is_iteration(states, steps, tolerance),
        0 <= k < steps.len(),
        compares(steps[k]),
        forall|j: int| k < j < steps.len() ==> !compares(#[trigger] steps[j]),
    ensures
        states.last().residual == steps[k].mean_residual,
        states.last().curvature == steps[k].hess_photo,
        states.last().eta == states[k + 1].eta,
        states.last().observed,
        min_curvature.le(steps[k].hess_photo) && steps[k].mean_residual.le(max_residual) ==> states.last().judged(
            min_curvature,
            max_residual,
        ) == PatchVerdict::PhotoRefined && states.last().judged_without_rejection(min_curvature, max_residual)
            == PatchVerdict::PhotoRefined,
        min_curvature.le(steps[k].hess_photo) && max_residual.lt(steps[k].mean_residual) ==> states.last().judged(
            min_curvature,
            max_residual,
        ) == PatchVerdict::Rejected && states.last().judged_without_rejection(min_curvature, max_residual)
            == PatchVerdict::SeedOnly,
        !min_curvature.le(steps[k].hess_photo) ==> states.last().judged(min_curvature, max_residual)
            == PatchVerdict::SeedOnly && states.last().judged_without_rejection(min_curvature, max_residual)
            == PatchVerdict::SeedOnly,
{
    lemma_still_rounds_keep_the_measure(states, steps, tolerance, k, steps.len() as int);
    assert(states[k + 1] == states[k].after(steps[k], tolerance));
}

proof fn lemma_still_rounds_keep_the_measure(
    states: Seq<PatchSolve>,
    steps: Seq<SolveStep>,
    tolerance: Option<Real64>,
    k: int,
    n: int,
)
    requires
        is_iteration(states, steps, tolerance),
        0 <= k < n <= steps.len(),
        compares(steps[k]),
        forall|j: int| k < j < steps.len() ==> !compares(#[trigger] steps[j]),
    ensures
        states[n].residual == states[k + 1].residual,
        states[n].curvature == states[k + 1].curvature,
        states[n].eta == states[k + 1].eta,
        states[n].observed,
    decreases n,
{
    assert(states[(n - 1) + 1] == states[n - 1].after(steps[n - 1], tolerance));
    if n > k + 1 {
        lemma_still_rounds_keep_the_measure(states, steps, tolerance, k, n - 1);
        assert(!compares(steps[n - 1]));
    }
}

/// A patch that no round moved is never refined, and never judged by a residual it did not
/// have: it keeps the log-range it started from.
pub proof fn law_unmoved_patch_is_left_to_the_seeds(
    states: Seq<PatchSolve>,
    steps: Seq<SolveStep>,
    tolerance: Option<Real64>,
    min_curvature: Real64,
    max_residual: Real64,
)
    requires
        is_iteration(states, steps, tolerance),
        states[0].curvature == zero64(),
        forall|j: int| 0 <= j < steps.len() ==> !compares(#[trigger] steps[j]),
    ensures
        states.last().eta == states[0].eta,
        states.last().residual == states[0].residual,
        zero64().lt(min_curvature) ==> states.last().judged(min_curvature, max_residual) == PatchVerdict::SeedOnly,
{
    lemma_unmoved(states, steps, tolerance, steps.len() as int);
}

proof fn lemma_unmoved(states: Seq<PatchSolve>, steps: Seq<SolveStep>, tolerance: Option<Real64>, n: int)
    requires
        is_iteration(states, steps, tolerance),
        forall|j: int| 0 <= j < steps.len() ==> !compares(#[trigger] steps[j]),
        0 <= n <= steps.len(),
    ensures
        states[n].eta == states[0].eta,
        states[n].residual == states[0].residual,
        states[n].curvature == states[0].curvature,
    decreases n,
{
    if n > 0 {
        lemma_unmoved(states, steps, tolerance, n - 1);
        assert(states[(n - 1) + 1] == states[n - 1].after(steps[n - 1], tolerance));
    }
}

/// A patch is refined where its curvature reaches the least one and its residual does not pass
/// the largest; it is rejected where the residual passes it with enough curvature. A wider limit
/// of the residual never takes a refinement back.
pub proof fn law_limits_decide_the_verdict(
    solve: &PatchSolve,
    min_curvature: Real64,
    max_residual: Real64,
    r: PatchVerdict,
    wider: Real64,
    s: PatchVerdict,
)
    requires
        call_ensures(PatchSolve::verdict, (solve, min_curvature, max_residual), r),
        call_ensures(PatchSolve::verdict, (solve, min_curvature, wider), s),
        max_residual.le(wider),
    ensures
        r == PatchVerdict::PhotoRefined <==> min_curvature.le(solve.curvature) && solve.residual.le(max_residual),
        r == PatchVerdict::Rejected <==> min_curvature.le(solve.curvature) && max_residual.lt(solve.residual),
        r == PatchVerdict::PhotoRefined ==> s == PatchVerdict::PhotoRefined,
        s == PatchVerdict::Rejected ==> r == PatchVerdict::Rejected,
{
}

/// In its own tangent frame a patch is refined only where it was compared, and by the same
/// two limits; it is left to the seeds otherwise.
pub proof fn law_limits_decide_without_rejection(
    solve: &PatchSolve,
    min_curvature: Real64,
    max_residual: Real64,
    r: PatchVerdict,
)
    requires
        call_ensures(PatchSolve::verdict_without_rejection, (solve, min_curvature, max_residual), r),
    ensures
        r == PatchVerdict::PhotoRefined <==> solve.observed && min_curvature.le(solve.curvature)
            && solve.residual.le(max_residual),
        r != PatchVerdict::PhotoRefined ==> r == PatchVerdict::SeedOnly,
{
}

/// A refined patch has the log-range that was solved and the photometric weight; a patch that
/// is left to its seeds has theirs; a rejected patch has no weight, so it takes no part in
/// the fusion.
pub proof fn law_estimate_follows_the_verdict(
    solve: &PatchSolve,
    verdict: PatchVerdict,
    photo_weight: Real64,
    seed_weight: Real64,
    r: PatchEstimate,
)
    requires
        call_ensures(PatchSolve::estimate, (solve, verdict, photo_weight, seed_weight), r),
    ensures
        verdict == PatchVerdict::PhotoRefined <==> r.status == crate::depth::patch_depth::PatchStatus::PhotoRefined,
        verdict == PatchVerdict::Rejected <==> r.status == crate::depth::patch_depth::PatchStatus::Rejected,
        verdict == PatchVerdict::SeedOnly <==> r.status == crate::depth::patch_depth::PatchStatus::SeedOnly,
        r.status == crate::depth::patch_depth::PatchStatus::PhotoRefined ==> r.eta == solve.eta && r.inv_var_w
            == photo_weight,
        r.status == crate::depth::patch_depth::PatchStatus::SeedOnly ==> r.eta == solve.eta_init && r.inv_var_w
            == seed_weight,
        r.status == crate::depth::patch_depth::PatchStatus::Rejected ==> r.eta == solve.eta && r.inv_var_w.bits == 0,
{
}

/// The square around a patch has at least twice the side of the patch and at most that of a tile
/// where a tile is larger; between these it has the side that is needed.
pub proof fn law_square_side_is_what_is_needed(settings: PatchDepthSettings, need: int, more: int)
    requires
        need <= more,
    ensures
        square_side(settings, need) >= 2 * settings.patch_size,
        square_side(settings, need) <= 2 * settings.patch_size || square_side(settings, need)
            <= settings.tiled_tile_size,
        2 * settings.patch_size <= need <= settings.tiled_tile_size ==> square_side(settings, need) == need,
        need >= settings.tiled_tile_size && settings.tiled_tile_size >= 2 * settings.patch_size ==> square_side(
            settings,
            need,
        ) == settings.tiled_tile_size,
        square_side(settings, need) <= square_side(settings, more),
{
}

/// A square stands as near to its centre as it can while it stays inside: no other place inside
/// is nearer to where half of it lies before the centre.
pub proof fn law_square_stands_nearest_to_its_centre(center: int, side: int, len: int, other: int)
    requires
        0 < side <= len,
        0 <= other <= len - side,
    ensures
        ({
            let start = square_start(center, side, len);
            let wanted = center - side / 2;
            let off = if start < wanted { wanted - start } else { start - wanted };
            let other_off = if other < wanted { wanted - other } else { other - wanted };
            &&& 0 <= start <= len - side
            &&& off <= other_off
            &&& 0 <= center < len ==> start <= center < start + side
        }),
{
}

/// The log-range that a patch starts from is that of a candidate with compared pixels, none of
/// which is cheaper, or that of the seeds where no candidate has any at a finite cost.
pub proof fn law_search_starts_from_the_cheapest(eta_init: Real64, candidates: &[SearchCandidate], r: Real64)
    requires
        call_ensures(search_initial_eta, (eta_init, candidates), r),
    ensures
        candidates@.len() <= 1 ==> r == eta_init,
        r != eta_init ==> exists|b: int|
            {
                &&& 0 <= b < candidates@.len()
                &&& r == (#[trigger] candidates@[b]).eta
                &&& candidates@[b].valid > 0
                &&& candidates@[b].cost.lt(Real64 { bits: 0x7FF0_0000_0000_0000 })
                &&& forall|j: int|
                    0 <= j < candidates@.len() && (#[trigger] candidates@[j]).valid > 0 ==> !candidates@[j].cost.lt(
                        candidates@[b].cost,
                    )
            },
{
    if r != eta_init {
        if exists|j: int| 0 <= j < candidates@.len() && (#[trigger] candidates@[j]).counts() {
            let b = choose|b: int| #[trigger] is_first_cheapest(candidates@, b) && r == candidates@[b].eta;
            assert(is_first_cheapest(candidates@, b));
            assert(r == candidates@[b].eta);
            assert forall|j: int| 0 <= j < candidates@.len() && (#[trigger] candidates@[j]).valid
                > 0 implies !candidates@[j].cost.lt(candidates@[b].cost) by {
                if candidates@[j].cost.lt(candidates@[b].cost) {
                    assert(candidates@[j].counts());
                }
            }
        }
    }
}

/// The pixels of a patch are those of the image from half a patch before its centre up to half a
/// patch behind it, the last one left out.
pub proof fn law_patch_pixels_surround_the_centre(
    center: PatchCenter,
    half: usize,
    width: usize,
    height: usize,
    r: Vec<ImagePixel>,
    p: ImagePixel,
)
    requires
        center.u + half <= usize::MAX,
        center.v + half <= usize::MAX,
        call_ensures(patch_pixels, (center, half, width, height), r),
    ensures
        r@.contains(p) <==> p.x < width && p.y < height && -half <= p.x - center.u < half && -half <= p.y - center.v
            < half,
{
    if r@.contains(p) {
        let k = choose|k: int| 0 <= k < r@.len() && r@[k] == p;
        assert(in_patch(center, half as int, r@[k].x as int, r@[k].y as int));
    }
    if p.x < width && p.y < height && -half <= p.x - center.u < half && -half <= p.y - center.v < half {
        assert(in_patch(center, half as int, p.x as int, p.y as int));
    }
}

/// Patches are translated as squares only for the pinhole, and only where that is asked for; a
/// patch has enough texture where both limits are off, or where it was measured and meets them.
pub proof fn law_translation_is_for_the_pinhole(
    settings: &PatchDepthSettings,
    mode: PatchDepthCameraMode,
    fast: bool,
    measure: Option<StructureMeasure>,
    textured: bool,
)
    requires
        call_ensures(uses_fast_translation, (settings, mode), fast),
        call_ensures(patch_has_enough_structure, (settings, measure), textured),
    ensures
        fast <==> settings.warp_mode == PatchDepthWarpMode::FastTranslation && mode
            == PatchDepthCameraMode::UndistortedPinhole,
        settings.min_structure_eigen.le(zero64()) && settings.max_structure_condition.le(zero64()) ==> textured,
        measure is None && (zero64().lt(settings.min_structure_eigen) || zero64().lt(settings.max_structure_condition))
            ==> !textured,
{
}

/// A rounded coordinate is the whole number it is, as far as that can be written down, and zero
/// where it is not a number.
pub proof fn law_rounded_coordinate_is_whole(q: Real64)
    ensures
        q.nan() ==> rounded_pixel(q) == 0,
        q.ge_int(0) && q.lt_int(i64::MAX as int) ==> q.ge_int(rounded_pixel(q)) && q.lt_int(rounded_pixel(q) + 1),
{
    if q.ge_int(0) && q.lt_int(i64::MAX as int) {
        q.lemma_trunc_nonnegative();
        q.lemma_floor_compares(i64::MAX as int);
        q.lemma_floor_compares(q.floored());
        q.lemma_floor_compares(q.floored() + 1);
    }
}

/// Before any comparison: a patch without seeds or without a direction is unknown and has no
/// weight, one without texture is rejected and has none either; one without a tile or without a
/// map into the images is left to its seeds. Every other patch is compared.
pub proof fn law_patches_are_settled_before_the_solve(
    entry: &PatchEntry,
    r: Option<PatchEstimate>,
    has_tile: bool,
    has_map: bool,
    eta_init: Real64,
    seed_weight: Real64,
    s: Option<PatchEstimate>,
)
    requires
        call_ensures(settle_before_solve, (entry,), r),
        call_ensures(settle_without_map, (has_tile, has_map, eta_init, seed_weight), s),
    ensures
        r is None <==> entry.has_seeds && entry.has_direction && entry.has_structure,
        r matches Some(e) ==> e.inv_var_w.bits == 0,
        r matches Some(e) ==> (e.status == crate::depth::patch_depth::PatchStatus::Rejected <==> entry.has_seeds
            && entry.has_direction),
        r matches Some(e) ==> (e.status == crate::depth::patch_depth::PatchStatus::Unknown <==> !entry.has_seeds
            || !entry.has_direction),
        s is None <==> has_tile && has_map,
        s matches Some(e) ==> e.eta == eta_init && e.inv_var_w == seed_weight && e.status
            == crate::depth::patch_depth::PatchStatus::SeedOnly,
{
}

/// A tile fades out on the sides that do not lie on the edge of its level, over what the overlap
/// has beyond a patch, and over at least one pixel.
pub proof fn law_tiles_fade_inside_the_level(
    tile: &TiledBearingTile,
    width: usize,
    height: usize,
    sides: FeatheredSides,
    settings: &PatchDepthSettings,
    margin: usize,
)
    requires
        tile.x0 + tile.width <= width <= usize::MAX,
        tile.y0 + tile.height <= height <= usize::MAX,
        call_ensures(feathered_sides, (tile, width, height), sides),
        call_ensures(blend_margin, (settings,), margin),
    ensures
        !sides.left <==> tile.x0 == 0,
        !sides.top <==> tile.y0 == 0,
        !sides.right <==> tile.x0 + tile.width == width,
        !sides.bottom <==> tile.y0 + tile.height == height,
        margin >= 1,
        settings.tiled_tile_overlap > settings.patch_size ==> margin + settings.patch_size
            == settings.tiled_tile_overlap,
        settings.tiled_tile_overlap <= settings.patch_size ==> margin == 1,
{
}

/// A search tries nothing or at least two log-ranges; rounds go on as long as any is left.
pub proof fn law_search_and_rounds_end(n: usize, tried: usize, solve: &PatchSolve, again: bool)
    requires
        call_ensures(tried_candidates, (n,), tried),
        call_ensures(PatchSolve::wants_round, (solve,), again),
    ensures
        tried != 1,
        n >= 2 ==> tried == n,
        tried == 0 <==> n <= 1,
        !again <==> solve.rounds_left == 0,
{
}

/// A tile adds to a pixel where its weight is positive.
pub proof fn law_tile_adds_with_positive_weight(weight: Real32, r: bool)
    requires
        !weight.nan(),
        call_ensures(tile_contributes, (weight,), r),
    ensures
        r <==> crate::ieee::zero32().lt(weight),
{
}

/// Patches are solved by themselves in the mode that bears them one by one, and with their frame
/// in every other.
pub proof fn law_patches_are_solved_by_mode(mode: PatchDepthCameraMode, r: PatchSolver)
    requires
        call_ensures(solve_one_patch_dispatch, (mode,), r),
    ensures
        r == PatchSolver::PerPatchBearing <==> mode == PatchDepthCameraMode::PerPatchBearing,
        r == PatchSolver::Frame <==> mode != PatchDepthCameraMode::PerPatchBearing,
{
}

/// A square of a patch lies in its level and around the centre of the patch, where that lies in
/// the level; it is missing only where the level is not larger than it along both axes.
pub proof fn law_square_lies_around_its_centre(
    settings: &PatchDepthSettings,
    need: Real64,
    cu: Real64,
    cv: Real64,
    lw: usize,
    lh: usize,
    r: Option<TileSquare>,
)
    requires
        2 * settings.patch_size <= usize::MAX,
        lw <= i64::MAX,
        lh <= i64::MAX,
        call_ensures(place_patch_tile, (settings, need, cu, cv, lw, lh), r),
    ensures
        r matches Some(t) ==> {
            &&& t.side < lw && t.side < lh
            &&& t.x0 + t.side <= lw && t.y0 + t.side <= lh
            &&& t.side > 0 && 0 <= rounded_pixel(cu) < lw ==> t.x0 <= rounded_pixel(cu) < t.x0 + t.side
            &&& t.side > 0 && 0 <= rounded_pixel(cv) < lh ==> t.y0 <= rounded_pixel(cv) < t.y0 + t.side
        },
        r is None ==> square_side(*settings, need.whole_size()) >= lw || square_side(*settings, need.whole_size())
            >= lh,
{
    if let Some(t) = r {
        if t.side > 0 {
            law_square_stands_nearest_to_its_centre(rounded_pixel(cu), t.side as int, lw as int, 0);
            law_square_stands_nearest_to_its_centre(rounded_pixel(cv), t.side as int, lh as int, 0);
        }
    }
}

} // verus!
