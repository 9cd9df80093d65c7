//! Inverse depth from optical flow: which pixels are triangulated, where they are splatted
//! to, and how a prediction and an observation of a pixel are fused.
use vstd::prelude::*;
use crate::ieee::{real32, real64, zero32, zero64, Real32, Real64};

verus! {

/// The value of a pixel without inverse depth.
#[verifier::allow_in_spec]
pub fn no_depth() -> Real32
    returns
        (Real32 { bits: 0xBF80_0000 }),
{
    real32(0xBF80_0000)
}

/// The least forward component of a bearing, and the least product of two displacements.
#[verifier::allow_in_spec]
pub fn least_product() -> Real64
    returns
        (Real64 { bits: 0x3EB0_C6F7_A0B5_ED8D }),
{
    real64(0x3EB0_C6F7_A0B5_ED8D)
}

/// The least cosine between the displacement that was seen and the one of the motion.
#[verifier::allow_in_spec]
pub fn least_cosine() -> Real64
    returns
        (Real64 { bits: 0x3FEE_6666_6666_6666 }),
{
    real64(0x3FEE_6666_6666_6666)
}

/// The least depth.
#[verifier::allow_in_spec]
pub fn least_depth() -> Real64
    returns
        (Real64 { bits: 0x3FB9_9999_9999_999A }),
{
    real64(0x3FB9_9999_9999_999A)
}

/// The numbers from which a pixel is triangulated.
#[derive(Clone, Copy, Debug, PartialEq)]
pub struct PixelTriangulation {
    /// Where the pixel was in the reference frame.
    pub u_prev: Real64,
    pub v_prev: Real64,
    /// Forward component of its bearing there, turned into the current frame.
    pub forward: Real64,
    /// Length of the displacement that the motion gives at unit inverse depth, and the same
    /// rounded.
    pub ideal: Real64,
    pub ideal_rounded: Real32,
    /// Length of the displacement that was seen.
    pub observed: Real64,
    /// Product and cosine of the two displacements.
    pub product: Real64,
    pub cosine: Real64,
    /// Depth, and its inverse, rounded.
    pub depth: Real64,
    pub inverse_rounded: Real32,
}

impl PixelTriangulation {
    /// Whether the pixel was in the image, its bearing points forward, and both displacements
    /// have a length.
    pub open spec fn moved(self, w: int, h: int) -> bool {
        &&& self.u_prev.ge_int(0)
        &&& self.u_prev.lt_int(w)
        &&& self.v_prev.ge_int(0)
        &&& self.v_prev.lt_int(h)
        &&& least_product().lt(self.forward)
        &&& zero64().lt(self.ideal)
        &&& zero64().lt(self.observed)
    }

    /// Whether, besides, the displacements agree and the depth is not too small.
    pub open spec fn triangulated(self, w: int, h: int) -> bool {
        &&& self.moved(w, h)
        &&& least_product().lt(self.product)
        &&& least_cosine().lt(self.cosine)
        &&& least_depth().lt(self.depth)
    }

    /// The pixel's inverse depth.
    pub open spec fn inverse_depth(self, w: int, h: int) -> Real32 {
        if self.triangulated(w, h) {
            self.inverse_rounded
        } else {
            no_depth()
        }
    }

    /// How strongly the motion drives the pixel.
    pub open spec fn drive(self, w: int, h: int) -> Real32 {
        if self.moved(w, h) {
            self.ideal_rounded
        } else {
            zero32()
        }
    }

    /// Decides the pixel's inverse depth and drive.
    pub fn settle(&self, w: u32, h: u32) -> (r: (Real32, Real32))
        ensures
            r.0 == self.inverse_depth(w as int, h as int),
            r.1 == self.drive(w as int, h as int),
    {
        let inside: bool = self.u_prev.at_least_int(0) && self.u_prev.less_than_int(w as i64)
            && self.v_prev.at_least_int(0) && self.v_prev.less_than_int(h as i64);
        let moved: bool = inside && least_product().less(self.forward) && zero64().less(self.ideal)
            && zero64().less(self.observed);
        if !moved {
            return (no_depth(), zero32());
        }
        if least_product().less(self.product) && least_cosine().less(self.cosine) && least_depth().less(self.depth) {
            (self.inverse_rounded, self.ideal_rounded)
        } else {
            (no_depth(), self.ideal_rounded)
        }
    }
}

/// The inverse depths and drives of an image, row by row.
pub fn depth_densification(pixels: &[PixelTriangulation], h: u32, w: u32) -> (r: (Vec<Real32>, Vec<Real32>))
    ensures
        r.0@.len() == pixels@.len(),
        r.1@.len() == pixels@.len(),
        forall|i: int|
            0 <= i < pixels@.len() ==> #[trigger] r.0@[i] == pixels@[i].inverse_depth(w as int, h as int),
        forall|i: int| 0 <= i < pixels@.len() ==> #[trigger] r.1@[i] == pixels@[i].drive(w as int, h as int),
{
    let n: usize = pixels.len();
    let mut depths: Vec<Real32> = Vec::new();
    let mut drives: Vec<Real32> = Vec::new();
    let mut i: usize = 0;
    while i < n
        invariant
            i <= n,
            n == pixels@.len(),
            depths@.len() == i,
            drives@.len() == i,
            forall|k: int| 0 <= k < i ==> #[trigger] depths@[k] == pixels@[k].inverse_depth(w as int, h as int),
            forall|k: int| 0 <= k < i ==> #[trigger] drives@[k] == pixels@[k].drive(w as int, h as int),
        decreases n - i,
    {
        let (depth, drive): (Real32, Real32) = pixels[i].settle(w, h);
        depths.push(depth);
        drives.push(drive);
        i = i + 1;
    }
    (depths, drives)
}

/// An inverse depth is only given to a pixel that also has a drive.
pub proof fn law_depth_needs_drive(pixel: PixelTriangulation, w: int, h: int)
    requires
        pixel.inverse_depth(w, h) != no_depth(),
    ensures
        pixel.moved(w, h),
        pixel.drive(w, h) == pixel.ideal_rounded,
{
}

/// The four cells that a projected point is spread over.
#[derive(Clone, Copy, Debug, PartialEq, Eq, Structural)]
pub struct SplatCells {
    /// Column and row of the upper left cell.
    pub u: usize,
    pub v: usize,
    /// Positions of the cells at the left and right of the row, and of those below.
    pub upper_left: usize,
    pub upper_right: usize,
    pub lower_left: usize,
    pub lower_right: usize,
}

/// The cell that a coordinate falls in; the first one for what is not a number.
pub open spec fn splat_floor(x: Real64) -> int {
    if x.nan() {
        0
    } else {
        x.floored()
    }
}

/// The cells that a projected point is spread over: those around it, if all four lie in the
/// image.
pub fn splat_cells(u: Real64, v: Real64, h: usize, w: usize) -> (r: Option<SplatCells>)
    requires
        0 < w <= 0x7FFF_FFFF,
        0 < h <= 0x7FFF_FFFF,
        w * h <= usize::MAX,
    ensures
        r is Some <==> 0 <= splat_floor(u) < w - 1 && 0 <= splat_floor(v) < h - 1,
        r matches Some(c) ==> {
            &&& c.u == splat_floor(u)
            &&& c.v == splat_floor(v)
            &&& c.upper_left == crate::layout::cell2(w as int, c.u as int, c.v as int)
            &&& c.upper_right == crate::layout::cell2(w as int, c.u + 1, c.v as int)
            &&& c.lower_left == crate::layout::cell2(w as int, c.u as int, c.v + 1)
            &&& c.lower_right == crate::layout::cell2(w as int, c.u + 1, c.v + 1)
            &&& c.upper_left < w * h
            &&& c.upper_right < w * h
            &&& c.lower_left < w * h
            &&& c.lower_right < w * h
        },
{
    let uf: i64 = u.floor_to_i64();
    let vf: i64 = v.floor_to_i64();
    if uf < 0 || uf >= (w - 1) as i64 || vf < 0 || vf >= (h - 1) as i64 {
        return None;
    }
    let x: usize = uf as usize;
    let y: usize = vf as usize;
    proof {
        crate::layout::lemma_cell2_bound(w as int, h as int, x as int, y as int);
        crate::layout::lemma_cell2_bound(w as int, h as int, x + 1, y as int);
        crate::layout::lemma_cell2_bound(w as int, h as int, x as int, y + 1);
        crate::layout::lemma_cell2_bound(w as int, h as int, x + 1, y + 1);
    }
    let upper: usize = y * w;
    let lower: usize = (y + 1) * w;
    Some(
        SplatCells {
            u: x,
            v: y,
            upper_left: upper + x,
            upper_right: upper + x + 1,
            lower_left: lower + x,
            lower_right: lower + x + 1,
        },
    )
}

/// The four cells of a point are different ones.
pub proof fn law_splat_cells_differ(c: SplatCells, w: int, h: int)
    requires
        c.u < w - 1,
        c.v < h - 1,
        c.upper_left == crate::layout::cell2(w, c.u as int, c.v as int),
        c.upper_right == crate::layout::cell2(w, c.u + 1, c.v as int),
        c.lower_left == crate::layout::cell2(w, c.u as int, c.v + 1),
        c.lower_right == crate::layout::cell2(w, c.u + 1, c.v + 1),
    ensures
        c.upper_left < c.upper_right < c.lower_right,
        c.upper_left < c.lower_left < c.lower_right,
        c.upper_right < c.lower_left,
{
    let u = c.u as int;
    let v = c.v as int;
    assert((v + 1) * w == v * w + w) by (nonlinear_arith);
}

/// The squared distance beyond which the Gaussian part counts as zero.
#[verifier::allow_in_spec]
pub fn gaussian_reach() -> Real64
    returns
        (Real64 { bits: 0x4059_0000_0000_0000 }),
{
    real64(0x4059_0000_0000_0000)
}

/// The density of the Gaussian part at a squared distance.
pub fn gaussian_density(distance: Real64, density: Real64) -> (r: Real64)
    ensures
        r == (if gaussian_reach().lt(distance) {
            zero64()
        } else {
            density
        }),
{
    if gaussian_reach().less(distance) {
        zero64()
    } else {
        density
    }
}

/// The least total weight that can be divided by.
#[verifier::allow_in_spec]
pub fn least_weight() -> Real64
    returns
        (Real64 { bits: 0x39B4_484B_FEEB_C2A0 }),
{
    real64(0x39B4_484B_FEEB_C2A0)
}

/// The largest share of inliers that is matched by moments.
#[verifier::allow_in_spec]
pub fn largest_share() -> Real64
    returns
        (Real64 { bits: 0x3FEF_FFFD_E721_0BE9 }),
{
    real64(0x3FEF_FFFD_E721_0BE9)
}

/// The least factor of a Beta distribution matched by moments.
#[verifier::allow_in_spec]
pub fn least_factor() -> Real64
    returns
        (Real64 { bits: 0x3FE0_0000_0000_0000 }),
{
    real64(0x3FE0_0000_0000_0000)
}

/// The factor of a Beta distribution matched by moments, kept away from zero.
pub fn matched_factor(factor: Real64) -> (r: Real64)
    ensures
        r == (if factor.lt(least_factor()) {
            least_factor()
        } else {
            factor
        }),
{
    if factor.less(least_factor()) {
        least_factor()
    } else {
        factor
    }
}

/// The least variance, and the same rounded.
#[verifier::allow_in_spec]
pub fn least_variance() -> Real64
    returns
        (Real64 { bits: 0x3E45_798E_E230_8C3A }),
{
    real64(0x3E45_798E_E230_8C3A)
}

/// The least variance, rounded.
#[verifier::allow_in_spec]
pub fn least_variance_rounded() -> Real32
    returns
        (Real32 { bits: 0x322B_CC77 }),
{
    real32(0x322B_CC77)
}

/// A number, and the same number rounded.
#[derive(Clone, Copy, Debug, PartialEq)]
pub struct Rounded {
    pub exact: Real64,
    pub rounded: Real32,
}

impl Rounded {
    /// Whether rounding keeps the order of two numbers.
    pub open spec fn keeps_order(self, other: Rounded) -> bool {
        self.exact.le(other.exact) ==> self.rounded.le(other.rounded)
    }

    /// The rounded number, limited to an interval.
    pub open spec fn limited(self, low: Rounded, high: Rounded) -> Real32 {
        if self.exact.lt(low.exact) {
            low.rounded
        } else if high.exact.lt(self.exact) {
            high.rounded
        } else {
            self.rounded
        }
    }

    /// Limits a number to an interval and rounds it.
    pub fn limit(self, low: Rounded, high: Rounded) -> (r: Real32)
        requires
            low.exact.le(high.exact),
        ensures
            r == self.limited(low, high),
    {
        if self.exact.less(low.exact) {
            low.rounded
        } else if high.exact.less(self.exact) {
            high.rounded
        } else {
            self.rounded
        }
    }

    /// The rounded number, at least the least variance.
    pub open spec fn as_variance(self) -> Real32 {
        if least_variance().le(self.exact) {
            self.rounded
        } else {
            least_variance_rounded()
        }
    }

    /// Keeps a variance away from zero and rounds it.
    pub fn to_variance(self) -> (r: Real32)
        ensures
            r == self.as_variance(),
    {
        if least_variance().at_most(self.exact) {
            self.rounded
        } else {
            least_variance_rounded()
        }
    }
}

/// The state of a pixel: inverse depth, its variance, and the counts of inliers and outliers.
#[derive(Clone, Copy, Debug, PartialEq)]
pub struct PixelState {
    pub invdepth: Real32,
    pub var: Real32,
    pub a: Real32,
    pub b: Real32,
}

/// Counts of inliers and outliers.
#[derive(Clone, Copy, Debug, PartialEq)]
pub struct BetaCounts {
    pub a: Rounded,
    pub b: Rounded,
}

/// What the fusion of a pixel may turn out to be.
#[derive(Clone, Copy, Debug, PartialEq)]
pub struct FusionTerms {
    /// Sum of the predicted counts, and the share of inliers in it.
    pub count_sum: Real64,
    pub inlier_share: Real64,
    /// Squared distance of the observation to the prediction.
    pub distance: Real64,
    /// Variance of the observation, rounded.
    pub observed_var: Real32,
    /// Total weight of both parts of the mixture.
    pub total_weight: Real64,
    /// The predicted counts with one more outlier.
    pub unexplained: BetaCounts,
    /// Mean and variance of the mixture.
    pub mean: Real32,
    pub variance: Rounded,
    /// Expected share of inliers, and its variance.
    pub expected_share: Real64,
    pub share_variance: Real64,
    /// The predicted counts with the weights added.
    pub counted: BetaCounts,
    /// The counts matched by moments.
    pub matched: BetaCounts,
}

/// The parameters of the fusion.
#[derive(Clone, Copy, Debug, PartialEq)]
pub struct FusionSettings {
    pub init_var: Real32,
    pub a_init: Real32,
    pub b_init: Real32,
    pub ab_min: Rounded,
    pub ab_max: Rounded,
    pub min_inlier_ratio: Real64,
    pub mahal_reset_chi2: Real64,
}

impl FusionSettings {
    /// The state of a pixel of which nothing is known.
    pub open spec fn unknown(self) -> PixelState {
        PixelState { invdepth: no_depth(), var: self.init_var, a: self.a_init, b: self.b_init }
    }

    /// Whether the lower limit of the counts is not above the upper one.
    pub open spec fn limits_are_ordered(self) -> bool {
        self.ab_min.exact.le(self.ab_max.exact)
    }

    /// Whether a count lies between the rounded limits.
    pub open spec fn holds_count(self, count: Real32) -> bool {
        self.ab_min.rounded.le(count) && count.le(self.ab_max.rounded)
    }

    /// Whether both counts of a pixel lie between the rounded limits.
    pub open spec fn holds_counts(self, state: PixelState) -> bool {
        self.holds_count(state.a) && self.holds_count(state.b)
    }

    /// Limits counts to their interval.
    pub open spec fn limited(self, counts: BetaCounts) -> (Real32, Real32) {
        (counts.a.limited(self.ab_min, self.ab_max), counts.b.limited(self.ab_min, self.ab_max))
    }
}

impl FusionTerms {
    /// Whether a pixel that is mostly seen as an outlier has moved too far to be explained.
    pub open spec fn resets(self, settings: FusionSettings) -> bool {
        &&& zero64().lt(self.count_sum)
        &&& self.inlier_share.lt(settings.min_inlier_ratio)
        &&& settings.mahal_reset_chi2.lt(self.distance)
    }

    /// Whether the moments of the share determine no Beta distribution.
    pub open spec fn degenerate(self) -> bool {
        ||| self.share_variance.lt(least_product())
        ||| self.expected_share.le(least_product())
        ||| largest_share().le(self.expected_share)
    }
}

/// The state of a pixel after a prediction and an observation of it.
pub open spec fn fused(
    predicted: PixelState,
    observed: Real32,
    terms: FusionTerms,
    settings: FusionSettings,
) -> PixelState {
    let predicted_depth = zero32().lt(predicted.invdepth);
    let observed_depth = zero32().lt(observed);
    if predicted_depth && observed_depth {
        if terms.resets(settings) {
            PixelState { invdepth: observed, var: terms.observed_var, a: settings.a_init, b: settings.b_init }
        } else if terms.total_weight.lt(least_weight()) {
            let (a, b) = settings.limited(terms.unexplained);
            PixelState { invdepth: predicted.invdepth, var: predicted.var, a, b }
        } else {
            let (a, b) = settings.limited(if terms.degenerate() {
                terms.counted
            } else {
                terms.matched
            });
            PixelState { invdepth: terms.mean, var: terms.variance.as_variance(), a, b }
        }
    } else if observed_depth {
        PixelState { invdepth: observed, var: settings.init_var, a: settings.a_init, b: settings.b_init }
    } else if predicted_depth {
        predicted
    } else {
        settings.unknown()
    }
}

/// Whether the counts of a pixel are limited: it was predicted and observed, and starts not
/// anew.
pub open spec fn counts_are_limited(
    predicted: PixelState,
    observed: Real32,
    terms: FusionTerms,
    settings: FusionSettings,
) -> bool {
    zero32().lt(predicted.invdepth) && zero32().lt(observed) && !terms.resets(settings)
}

/// Whether the counts of a pixel are limited, so that their limits must be in order.
pub fn limits_counts(predicted: PixelState, observed: Real32, terms: &FusionTerms, settings: &FusionSettings) -> (r:
    bool)
    ensures
        r == counts_are_limited(predicted, observed, *terms, *settings),
{
    zero32().less(predicted.invdepth) && zero32().less(observed) && !(zero64().less(terms.count_sum)
        && terms.inlier_share.less(settings.min_inlier_ratio) && settings.mahal_reset_chi2.less(terms.distance))
}

/// Fuses a prediction and an observation of a pixel.
pub fn fuse_pixel(predicted: PixelState, observed: Real32, terms: &FusionTerms, settings: &FusionSettings) -> (r:
    PixelState)
    requires
        counts_are_limited(predicted, observed, *terms, *settings) ==> settings.limits_are_ordered(),
    ensures
        r == fused(predicted, observed, *terms, *settings),
{
    let predicted_depth: bool = zero32().less(predicted.invdepth);
    let observed_depth: bool = zero32().less(observed);
    if predicted_depth && observed_depth {
        if !limits_counts(predicted, observed, terms, settings) {
            return PixelState {
                invdepth: observed,
                var: terms.observed_var,
                a: settings.a_init,
                b: settings.b_init,
            };
        }
        if terms.total_weight.less(least_weight()) {
            return PixelState {
                invdepth: predicted.invdepth,
                var: predicted.var,
                a: terms.unexplained.a.limit(settings.ab_min, settings.ab_max),
                b: terms.unexplained.b.limit(settings.ab_min, settings.ab_max),
            };
        }
        let degenerate: bool = terms.share_variance.less(least_product()) || terms.expected_share.at_most(
            least_product(),
        ) || largest_share().at_most(terms.expected_share);
        let counts: BetaCounts = if degenerate {
            terms.counted
        } else {
            terms.matched
        };
        PixelState {
            invdepth: terms.mean,
            var: terms.variance.to_variance(),
            a: counts.a.limit(settings.ab_min, settings.ab_max),
            b: counts.b.limit(settings.ab_min, settings.ab_max),
        }
    } else if observed_depth {
        PixelState { invdepth: observed, var: settings.init_var, a: settings.a_init, b: settings.b_init }
    } else if predicted_depth {
        predicted
    } else {
        PixelState { invdepth: no_depth(), var: settings.init_var, a: settings.a_init, b: settings.b_init }
    }
}

/// The states of an image after its predictions and observations, pixel by pixel.
pub fn vogiatzis_update(
    predicted: &[PixelState],
    observed: &[Real32],
    terms: &[FusionTerms],
    settings: &FusionSettings,
) -> (r: Vec<PixelState>)
    requires
        observed@.len() == predicted@.len(),
        terms@.len() == predicted@.len(),
        forall|i: int|
            0 <= i < predicted@.len() && counts_are_limited(
                #[trigger] predicted@[i],
                observed@[i],
                terms@[i],
                *settings,
            ) ==> settings.limits_are_ordered(),
    ensures
        r@.len() == predicted@.len(),
        forall|i: int|
            0 <= i < predicted@.len() ==> #[trigger] r@[i] == fused(
                predicted@[i],
                observed@[i],
                terms@[i],
                *settings,
            ),
{
    let n: usize = predicted.len();
    let mut out: Vec<PixelState> = Vec::new();
    let mut i: usize = 0;
    while i < n
        invariant
            i <= n,
            n == predicted@.len(),
            observed@.len() == n,
            terms@.len() == n,
            forall|i: int|
                0 <= i < predicted@.len() && counts_are_limited(
                    #[trigger] predicted@[i],
                    observed@[i],
                    terms@[i],
                    *settings,
                ) ==> settings.limits_are_ordered(),
            out@.len() == i,
            forall|k: int|
                0 <= k < i ==> #[trigger] out@[k] == fused(predicted@[k], observed@[k], terms@[k], *settings),
        decreases n - i,
    {
        out.push(fuse_pixel(predicted[i], observed[i], &terms[i], settings));
        i = i + 1;
    }
    out
}

/// A pixel has an inverse depth after the fusion if it had one before or was observed: the
/// fusion invents none, and loses none but through the mean of the mixture.
pub proof fn law_fusion_keeps_depth(
    predicted: PixelState,
    observed: Real32,
    terms: FusionTerms,
    settings: FusionSettings,
)
    ensures
        !zero32().lt(predicted.invdepth) && !zero32().lt(observed) ==> fused(predicted, observed, terms, settings)
            == settings.unknown(),
        zero32().lt(predicted.invdepth) && !zero32().lt(observed) ==> fused(predicted, observed, terms, settings)
            == predicted,
        (zero32().lt(predicted.invdepth) || zero32().lt(observed)) && (zero32().lt(terms.mean)) ==> zero32().lt(
            fused(predicted, observed, terms, settings).invdepth,
        ),
{
}

/// The counts that a fused pixel is given, before they are limited.
pub open spec fn raw_counts(terms: FusionTerms) -> BetaCounts {
    if terms.total_weight.lt(least_weight()) {
        terms.unexplained
    } else if terms.degenerate() {
        terms.counted
    } else {
        terms.matched
    }
}

/// Counts stay within their limits: a fused pixel has counts between the limits wherever they
/// are computed anew and are numbers, and else its predicted or its initial ones; so where
/// those lie between the limits, the fused ones do. Rounding is taken to keep order.
pub proof fn law_counts_stay_limited(
    predicted: PixelState,
    observed: Real32,
    terms: FusionTerms,
    settings: FusionSettings,
)
    requires
        counts_are_limited(predicted, observed, terms, settings) ==> {
            &&& settings.limits_are_ordered()
            &&& settings.ab_min.keeps_order(settings.ab_max)
            &&& settings.ab_min.keeps_order(raw_counts(terms).a)
            &&& settings.ab_min.keeps_order(raw_counts(terms).b)
            &&& raw_counts(terms).a.keeps_order(settings.ab_max)
            &&& raw_counts(terms).b.keeps_order(settings.ab_max)
            &&& !raw_counts(terms).a.exact.nan()
            &&& !raw_counts(terms).b.exact.nan()
        },
    ensures
        ({
            let r = fused(predicted, observed, terms, settings);
            &&& counts_are_limited(predicted, observed, terms, settings) ==> settings.holds_counts(r)
            &&& !counts_are_limited(predicted, observed, terms, settings) ==> (r.a == settings.a_init && r.b
                == settings.b_init) || (r.a == predicted.a && r.b == predicted.b)
            &&& settings.holds_counts(predicted) && settings.holds_count(settings.a_init) && settings.holds_count(
                settings.b_init,
            ) ==> settings.holds_counts(r)
        }),
{
}

/// A pixel that is predicted and observed starts anew from the observation only where both
/// hold: its share of inliers is below the least one, and its squared distance is above the
/// largest one. Where either fails it keeps what the mixture gives: the mean, or the prediction
/// itself where the total weight is below 1e-30.
pub proof fn law_reset_needs_an_outlier_far_away(
    predicted: PixelState,
    observed: Real32,
    terms: FusionTerms,
    settings: FusionSettings,
)
    requires
        zero32().lt(predicted.invdepth),
        zero32().lt(observed),
    ensures
        ({
            let r = fused(predicted, observed, terms, settings);
            let light = terms.total_weight.lt(Real64 { bits: 0x39B4_484B_FEEB_C2A0 });
            &&& settings.min_inlier_ratio.le(terms.inlier_share) || terms.distance.le(settings.mahal_reset_chi2)
                || terms.count_sum.le(zero64()) ==> (if light {
                r.invdepth == predicted.invdepth && r.var == predicted.var
            } else {
                r.invdepth == terms.mean
            })
            &&& terms.inlier_share.lt(settings.min_inlier_ratio) && settings.mahal_reset_chi2.lt(terms.distance)
                && zero64().lt(terms.count_sum) ==> r.invdepth == observed && r.var == terms.observed_var && r.a
                == settings.a_init && r.b == settings.b_init
        }),
{
}

/// The limits of the counts are asked for exactly where a pixel is predicted, observed and not
/// started anew.
pub proof fn law_limits_are_asked_where_counts_are_computed(
    predicted: PixelState,
    observed: Real32,
    terms: &FusionTerms,
    settings: &FusionSettings,
    r: bool,
)
    requires
        call_ensures(limits_counts, (predicted, observed, terms, settings), r),
    ensures
        r ==> zero32().lt(predicted.invdepth) && zero32().lt(observed),
        r ==> !zero64().lt(terms.count_sum) || !terms.inlier_share.lt(settings.min_inlier_ratio)
            || !settings.mahal_reset_chi2.lt(terms.distance),
        !r ==> !zero32().lt(predicted.invdepth) || !zero32().lt(observed) || (zero64().lt(terms.count_sum)
            && terms.inlier_share.lt(settings.min_inlier_ratio) && settings.mahal_reset_chi2.lt(terms.distance)),
{
}

/// A pixel that is only observed takes the observation, with the initial variance and counts.
pub proof fn law_first_observation_is_taken(
    predicted: PixelState,
    observed: Real32,
    terms: FusionTerms,
    settings: FusionSettings,
)
    requires
        !zero32().lt(predicted.invdepth),
    ensures
        zero32().lt(observed) ==> fused(predicted, observed, terms, settings) == (PixelState {
            invdepth: observed,
            var: settings.init_var,
            a: settings.a_init,
            b: settings.b_init,
        }),
        !zero32().lt(observed) ==> fused(predicted, observed, terms, settings) == (PixelState {
            invdepth: Real32 { bits: 0xBF80_0000 },
            var: settings.init_var,
            a: settings.a_init,
            b: settings.b_init,
        }),
{
}

/// A count limited to an interval: the rounded count where it lies between the limits, and the
/// rounded nearer limit beyond them.
pub proof fn law_count_is_moved_to_the_nearer_limit(count: Rounded, low: Rounded, high: Rounded)
    requires
        low.exact.le(high.exact),
    ensures
        low.exact.le(count.exact) && count.exact.le(high.exact) ==> count.limited(low, high) == count.rounded,
        count.exact.lt(low.exact) ==> count.limited(low, high) == low.rounded,
        high.exact.lt(count.exact) ==> count.limited(low, high) == high.rounded,
        count.exact.nan() ==> count.limited(low, high) == count.rounded,
{
}

/// The mixture of a pixel: its variance is that of the mixture, but never below 1e-8; its
/// counts are matched by moments where the variance of the share is at least 1e-6 and its mean
/// lies strictly between 1e-6 and its largest value, and the weighted counts otherwise; where
/// the total weight is below 1e-30 they are the predicted counts with one more outlier.
pub proof fn law_mixture_sets_variance_and_counts(
    predicted: PixelState,
    observed: Real32,
    terms: FusionTerms,
    settings: FusionSettings,
)
    requires
        zero32().lt(predicted.invdepth),
        zero32().lt(observed),
        settings.min_inlier_ratio.le(terms.inlier_share) || terms.distance.le(settings.mahal_reset_chi2),
    ensures
        ({
            let r = fused(predicted, observed, terms, settings);
            let light = terms.total_weight.lt(Real64 { bits: 0x39B4_484B_FEEB_C2A0 });
            let shaped = !terms.share_variance.lt(Real64 { bits: 0x3EB0_C6F7_A0B5_ED8D }) && !terms.expected_share.le(
                Real64 { bits: 0x3EB0_C6F7_A0B5_ED8D },
            ) && !(Real64 { bits: 0x3FEF_FFFD_E721_0BE9 }).le(terms.expected_share);
            &&& light ==> r.a == terms.unexplained.a.limited(settings.ab_min, settings.ab_max) && r.b
                == terms.unexplained.b.limited(settings.ab_min, settings.ab_max)
            &&& !light && shaped ==> r.a == terms.matched.a.limited(settings.ab_min, settings.ab_max) && r.b
                == terms.matched.b.limited(settings.ab_min, settings.ab_max)
            &&& !light && !shaped ==> r.a == terms.counted.a.limited(settings.ab_min, settings.ab_max) && r.b
                == terms.counted.b.limited(settings.ab_min, settings.ab_max)
            &&& !light && (Real64 { bits: 0x3E45_798E_E230_8C3A }).le(terms.variance.exact) ==> r.var
                == terms.variance.rounded
            &&& !light && !(Real64 { bits: 0x3E45_798E_E230_8C3A }).le(terms.variance.exact) ==> r.var.bits
                == 0x322B_CC77
        }),
{
}

/// A pixel gets the inverse of its depth only where it was inside the reference image, its
/// bearing points forward by more than 1e-6, both displacements have a length, their product is
/// above 1e-6 and their cosine above 0.95, and the depth is above 0.1; and wherever all of this
/// holds. Its drive needs the first three of these.
pub proof fn law_depth_needs_agreeing_displacements(pixel: &PixelTriangulation, w: u32, h: u32, r: (Real32, Real32))
    requires
        call_ensures(PixelTriangulation::settle, (pixel, w, h), r),
    ensures
        ({
            let inside = pixel.u_prev.ge_int(0) && pixel.u_prev.lt_int(w as int) && pixel.v_prev.ge_int(0)
                && pixel.v_prev.lt_int(h as int);
            let moves = (Real64 { bits: 0x3EB0_C6F7_A0B5_ED8D }).lt(pixel.forward) && zero64().lt(pixel.ideal)
                && zero64().lt(pixel.observed);
            let agrees = (Real64 { bits: 0x3EB0_C6F7_A0B5_ED8D }).lt(pixel.product) && (Real64 {
                bits: 0x3FEE_6666_6666_6666,
            }).lt(pixel.cosine) && (Real64 { bits: 0x3FB9_9999_9999_999A }).lt(pixel.depth);
            &&& inside && moves && agrees ==> r.0 == pixel.inverse_rounded
            &&& !(inside && moves && agrees) ==> r.0.bits == 0xBF80_0000
            &&& inside && moves ==> r.1 == pixel.ideal_rounded
            &&& !(inside && moves) ==> r.1.bits == 0
        }),
{
}

/// A point is spread over the four cells around it: it lies not before the upper left one and
/// before the next one along both axes; and every point that has four cells in the image is
/// spread.
pub proof fn law_point_is_spread_around_itself(u: Real64, v: Real64, h: usize, w: usize, r: Option<SplatCells>)
    requires
        0 < w <= 0x7FFF_FFFF,
        0 < h <= 0x7FFF_FFFF,
        w * h <= usize::MAX,
        !u.nan(),
        !v.nan(),
        call_ensures(splat_cells, (u, v, h, w), r),
    ensures
        r is Some <==> u.ge_int(0) && u.lt_int(w - 1) && v.ge_int(0) && v.lt_int(h - 1),
        r matches Some(c) ==> {
            &&& u.ge_int(c.u as int)
            &&& u.lt_int(c.u + 1)
            &&& v.ge_int(c.v as int)
            &&& v.lt_int(c.v + 1)
            &&& c.upper_left == c.v * w + c.u
            &&& c.upper_right == c.upper_left + 1
            &&& c.lower_left == c.upper_left + w
            &&& c.lower_right == c.lower_left + 1
        },
{
    u.lemma_floor_compares(0);
    u.lemma_floor_compares(w - 1);
    v.lemma_floor_compares(0);
    v.lemma_floor_compares(h - 1);
    if let Some(c) = r {
        u.lemma_floor_compares(c.u as int);
        u.lemma_floor_compares(c.u + 1);
        v.lemma_floor_compares(c.v as int);
        v.lemma_floor_compares(c.v + 1);
        let y = c.v as int;
        assert((y + 1) * w == y * w + w) by (nonlinear_arith);
    }
}

/// A Gaussian has no density beyond a squared distance of one hundred, and its own up to there.
pub proof fn law_gaussian_ends_at_its_reach(distance: Real64, density: Real64, r: Real64)
    requires
        call_ensures(gaussian_density, (distance, density), r),
    ensures
        (Real64 { bits: 0x4059_0000_0000_0000 }).lt(distance) ==> r.bits == 0,
        distance.le(Real64 { bits: 0x4059_0000_0000_0000 }) ==> r == density,
{
}

/// A matched factor is not below one half, and is itself where it is not.
pub proof fn law_matched_factor_is_at_least_one_half(factor: Real64, r: Real64)
    requires
        call_ensures(matched_factor, (factor,), r),
    ensures
        factor.lt(Real64 { bits: 0x3FE0_0000_0000_0000 }) ==> r.bits == 0x3FE0_0000_0000_0000,
        !factor.lt(Real64 { bits: 0x3FE0_0000_0000_0000 }) ==> r == factor,
{
}

/// A variance is kept where it is not below 1e-8, and is 1e-8 otherwise, also where it is not a
/// number.
pub proof fn law_variance_stays_away_from_zero(x: Rounded, r: Real32)
    requires
        call_ensures(Rounded::to_variance, (x,), r),
    ensures
        x.exact.lt(Real64 { bits: 0x3E45_798E_E230_8C3A }) || x.exact.nan() ==> r.bits == 0x322B_CC77,
        (Real64 { bits: 0x3E45_798E_E230_8C3A }).le(x.exact) ==> r == x.rounded,
{
}

/// A whole image is fused pixel by pixel: each pixel becomes what it becomes alone.
pub proof fn law_pixels_are_fused_one_by_one(
    predicted: &[PixelState],
    observed: &[Real32],
    terms: &[FusionTerms],
    settings: &FusionSettings,
    r: Vec<PixelState>,
    i: int,
    alone: PixelState,
)
    requires
        observed@.len() == predicted@.len(),
        terms@.len() == predicted@.len(),
        call_ensures(vogiatzis_update, (predicted, observed, terms, settings), r),
        0 <= i < predicted@.len(),
        call_ensures(fuse_pixel, (predicted@[i], observed@[i], &terms@[i], settings), alone),
    ensures
        r@.len() == predicted@.len(),
        r@[i] == alone,
{
}

} // verus!
