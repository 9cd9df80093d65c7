//! A filter that estimates the inverse depth of every pixel from optical flow.
use vstd::prelude::*;
use crate::depth::flowdep_kernels::{FusionSettings, FusionTerms, PixelState, least_depth, no_depth, vogiatzis_update};
use crate::depth::keyframe_pool::{Keyframe, KeyframePool};
use crate::ieee::{real32, real64, zero32, Real32, Real64};

verus! {

/// The number of reference frames held.
pub const POOL_SIZE: usize = 5;

/// The variance from which on a pixel is not carried to the next frame.
#[verifier::allow_in_spec]
pub fn critical_variance() -> Real32
    returns
        (Real32 { bits: 0x4040_0000 }),
{
    real32(0x4040_0000)
}

/// The least weight that a predicted pixel needs.
#[verifier::allow_in_spec]
pub fn least_splat_weight() -> Real32
    returns
        (Real32 { bits: 0x3586_37BD }),
{
    real32(0x3586_37BD)
}

/// The time of the last frame before there is any.
#[verifier::allow_in_spec]
pub fn no_stamp() -> Real64
    returns
        (Real64 { bits: 0xBFF0_0000_0000_0000 }),
{
    real64(0xBFF0_0000_0000_0000)
}

/// Whether a pixel is carried to the next frame: it has an inverse depth of small enough
/// variance.
pub fn is_carried(state: &PixelState) -> (r: bool)
    ensures
        r == (zero32().lt(state.invdepth) && state.var.lt(critical_variance())),
{
    zero32().less(state.invdepth) && state.var.less(critical_variance())
}

/// Whether a carried pixel is still far enough before the camera to be seen in the next frame.
pub fn stays_visible(depth: Real64) -> (r: bool)
    ensures
        r == least_depth().lt(depth),
{
    least_depth().less(depth)
}

/// The predicted state of a pixel from the accumulated weight and the weighted means.
pub open spec fn predicted_pixel(weight: Real32, mean: PixelState, settings: FusionSettings) -> PixelState {
    if least_splat_weight().lt(weight) {
        mean
    } else {
        settings.unknown()
    }
}

/// The predicted states of an image from the accumulated weights and the weighted means.
pub fn finish_prediction(weights: &[Real32], means: &[PixelState], settings: &FusionSettings) -> (r: Vec<PixelState>)
    requires
        weights@.len() == means@.len(),
    ensures
        r@.len() == means@.len(),
        forall|i: int|
            0 <= i < means@.len() ==> #[trigger] r@[i] == predicted_pixel(weights@[i], means@[i], *settings),
{
    let n: usize = means.len();
    let mut out: Vec<PixelState> = Vec::new();
    let mut i: usize = 0;
    while i < n
        invariant
            i <= n,
            n == means@.len(),
            weights@.len() == n,
            out@.len() == i,
            forall|k: int| 0 <= k < i ==> #[trigger] out@[k] == predicted_pixel(weights@[k], means@[k], *settings),
        decreases n - i,
    {
        if least_splat_weight().less(weights[i]) {
            out.push(means[i]);
        } else {
            out.push(
                PixelState { invdepth: no_depth(), var: settings.init_var, a: settings.a_init, b: settings.b_init },
            );
        }
        i = i + 1;
    }
    out
}

/// The first state of a pixel: its observation, with the variance of the observation where
/// there is an inverse depth.
pub open spec fn initial_pixel(observed: Real32, observed_var: Real32, settings: FusionSettings) -> PixelState {
    PixelState {
        invdepth: observed,
        var: if zero32().lt(observed) {
            observed_var
        } else {
            settings.init_var
        },
        a: settings.a_init,
        b: settings.b_init,
    }
}

/// What a frame is compared with.
#[derive(Clone, Debug)]
pub enum FlowReference {
    /// It is the first frame, and is only stored.
    Nothing,
    /// A kept reference frame.
    Kept(Keyframe),
    /// The frame before.
    Previous(Keyframe),
}

/// The filter: its states of all pixels once there are any, the frame before, and the
/// reference frames.
pub struct FlowDepFilter {
    settings: FusionSettings,
    width: usize,
    height: usize,
    states: Option<Vec<PixelState>>,
    pool: KeyframePool,
    previous: Option<Keyframe>,
}

impl FlowDepFilter {
    /// The states of all pixels, row by row.
    pub closed spec fn pixels(self) -> Option<Seq<PixelState>> {
        match self.states {
            Some(s) => Some(s@),
            None => None,
        }
    }

    pub closed spec fn references(self) -> Seq<Keyframe> {
        self.pool.frames()
    }

    pub closed spec fn last_frame(self) -> Option<Keyframe> {
        self.previous
    }

    pub closed spec fn config(self) -> FusionSettings {
        self.settings
    }

    pub closed spec fn image_width(self) -> usize {
        self.width
    }

    pub closed spec fn image_height(self) -> usize {
        self.height
    }

    /// At most five reference frames are held; there are references and states only after the
    /// first frame; there is a state for each pixel.
    pub closed spec fn wf(self) -> bool {
        &&& self.pool.wf()
        &&& self.pool.capacity() == POOL_SIZE
        &&& self.width * self.height <= usize::MAX
        &&& (self.previous is None ==> self.states is None && self.pool.frames().len() == 0)
        &&& (self.states matches Some(s) ==> s@.len() == self.width * self.height)
    }

    /// The reference frames after one more was stored.
    pub open spec fn with_reference(references: Seq<Keyframe>, frame: Keyframe) -> Seq<Keyframe> {
        (if references.len() >= POOL_SIZE {
            references.skip(1)
        } else {
            references
        }).push(frame)
    }

    pub fn new(settings: FusionSettings, width: usize, height: usize) -> (r: Self)
        requires
            width * height <= usize::MAX,
        ensures
            r.wf(),
            r.config() == settings,
            r.image_width() == width,
            r.image_height() == height,
            r.pixels() is None,
            r.last_frame() is None,
            r.references().len() == 0,
    {
        FlowDepFilter { settings, width, height, states: None, pool: KeyframePool::new(POOL_SIZE), previous: None }
    }

    /// The states of all pixels, if there are any.
    pub fn state(&self) -> (r: Option<&Vec<PixelState>>)
        ensures
            r is Some == self.pixels() is Some,
            r matches Some(s) ==> self.pixels() == Some(s@),
    {
        self.states.as_ref()
    }

    /// The time of the frame before; minus one before there is any.
    pub fn last_stamp(&self) -> (r: Real64)
        ensures
            r == (match self.last_frame() {
                Some(frame) => frame.stamp,
                None => no_stamp(),
            }),
    {
        match &self.previous {
            Some(frame) => frame.stamp,
            None => no_stamp(),
        }
    }

    /// The poses of the reference frames, oldest first.
    pub fn reference_poses(&self) -> (r: Vec<[[Real64; 4]; 4]>)
        ensures
            r@ == self.references().map_values(|frame: Keyframe| frame.t_wc),
    {
        self.pool.poses()
    }

    /// What beginning a frame does to the filter, and what the frame is compared with.
    pub open spec fn begun(
        before: Self,
        after: Self,
        gray: Seq<u8>,
        t_wc: [[Real64; 4]; 4],
        stamp: Real64,
        baselines: Seq<Real64>,
        reference: FlowReference,
    ) -> bool {
        let stored = after.references().last();
        &&& after.pixels() == before.pixels()
        &&& after.config() == before.config()
        &&& after.image_width() == before.image_width()
        &&& after.image_height() == before.image_height()
        &&& stored.gray@ == gray
        &&& stored.width == before.image_width()
        &&& stored.height == before.image_height()
        &&& stored.t_wc == t_wc
        &&& stored.stamp == stamp
        &&& stored.score == crate::ieee::zero64()
        &&& after.references() == Self::with_reference(before.references(), stored)
        &&& before.last_frame() is None <==> reference is Nothing
        &&& before.last_frame() is None ==> (after.last_frame() matches Some(f) && f.same_as(stored))
        &&& before.last_frame() is Some ==> after.last_frame() == before.last_frame()
        &&& before.last_frame() is Some ==> (reference is Kept <==> exists|j: int|
            0 <= j < baselines.len() && crate::ieee::zero64().lt(#[trigger] baselines[j]))
        &&& reference matches FlowReference::Kept(kf) ==> exists|i: int|
            {
                &&& #[trigger] crate::depth::keyframe_pool::is_first_largest(baselines, i)
                &&& kf.same_as(before.references()[i])
            }
        &&& reference matches FlowReference::Previous(kf) ==> before.last_frame() matches Some(f) && kf.same_as(f)
    }

    /// What finishing a frame does to the filter, but for its pixels.
    pub open spec fn finished(before: Self, after: Self, gray: Seq<u8>, t_wc: [[Real64; 4]; 4], stamp: Real64) -> bool {
        &&& after.config() == before.config()
        &&& after.image_width() == before.image_width()
        &&& after.image_height() == before.image_height()
        &&& after.references() == before.references()
        &&& after.last_frame() matches Some(f) && f.gray@ == gray && f.width == before.image_width() && f.height
            == before.image_height() && f.t_wc == t_wc && f.stamp == stamp && f.score == crate::ieee::zero64()
    }

    /// Chooses what a frame is compared with and stores it: nothing for the first frame;
    /// after that the reference with the longest baseline, and the frame before where no
    /// baseline is positive. `baselines` holds those to the references, oldest first.
    pub fn begin_frame(
        &mut self,
        gray: Vec<u8>,
        t_wc: [[Real64; 4]; 4],
        stamp: Real64,
        baselines: &[Real64],
    ) -> (r: FlowReference)
        requires
            old(self).wf(),
            baselines@.len() == old(self).references().len(),
        ensures
            final(self).wf(),
            Self::begun(*old(self), *final(self), gray@, t_wc, stamp, baselines@, r),
    {
        let copy: Vec<u8> = gray.clone();
        assert(copy@ =~= gray@);
        let reference: FlowReference = match &self.previous {
            None => FlowReference::Nothing,
            Some(frame) => match self.pool.select_best(baselines) {
                Some(kf) => FlowReference::Kept(copy_frame(kf)),
                None => FlowReference::Previous(copy_frame(frame)),
            },
        };
        if self.previous.is_none() {
            let frame: Keyframe = Keyframe {
                gray: copy,
                width: self.width,
                height: self.height,
                t_wc,
                stamp,
                score: crate::ieee::zero64(),
            };
            self.previous = Some(frame);
        }
        self.pool.add_keyframe(gray, self.width, self.height, t_wc, stamp);
        reference
    }

    /// Takes in the observations of the frame that was begun, and makes it the frame before.
    /// Without states the observations become the states; else they are fused with the
    /// predictions.
    pub fn finish_frame(
        &mut self,
        gray: Vec<u8>,
        t_wc: [[Real64; 4]; 4],
        stamp: Real64,
        observed: &[Real32],
        observed_var: &[Real32],
        predicted: &[PixelState],
        terms: &[FusionTerms],
    )
        requires
            old(self).wf(),
            observed@.len() == old(self).image_width() * old(self).image_height(),
            observed_var@.len() == observed@.len(),
            old(self).pixels() is Some ==> predicted@.len() == observed@.len() && terms@.len() == observed@.len(),
            old(self).pixels() is Some ==> forall|i: int|
                0 <= i < predicted@.len() && crate::depth::flowdep_kernels::counts_are_limited(
                    #[trigger] predicted@[i],
                    observed@[i],
                    terms@[i],
                    old(self).config(),
                ) ==> old(self).config().limits_are_ordered(),
        ensures
            final(self).wf(),
            Self::finished(*old(self), *final(self), gray@, t_wc, stamp),
            final(self).pixels() matches Some(s) && s.len() == observed@.len() && forall|i: int|
                0 <= i < s.len() ==> #[trigger] s[i] == (if old(self).pixels() is None {
                    initial_pixel(observed@[i], observed_var@[i], old(self).config())
                } else {
                    crate::depth::flowdep_kernels::fused(
                        predicted@[i],
                        observed@[i],
                        terms@[i],
                        old(self).config(),
                    )
                }),
    {
        let states: Vec<PixelState> = if self.states.is_none() {
            self.init_all_states(observed, observed_var)
        } else {
            vogiatzis_update(predicted, observed, terms, &self.settings)
        };
        self.states = Some(states);
        self.previous = Some(
            Keyframe { gray, width: self.width, height: self.height, t_wc, stamp, score: crate::ieee::zero64() },
        );
    }

    /// The first states of all pixels.
    fn init_all_states(&self, observed: &[Real32], observed_var: &[Real32]) -> (r: Vec<PixelState>)
        requires
            observed_var@.len() == observed@.len(),
        ensures
            r@.len() == observed@.len(),
            forall|i: int|
                0 <= i < observed@.len() ==> #[trigger] r@[i] == initial_pixel(
                    observed@[i],
                    observed_var@[i],
                    self.config(),
                ),
    {
        let n: usize = observed.len();
        let mut out: Vec<PixelState> = Vec::new();
        let mut i: usize = 0;
        while i < n
            invariant
                i <= n,
                n == observed@.len(),
                observed_var@.len() == n,
                out@.len() == i,
                forall|k: int|
                    0 <= k < i ==> #[trigger] out@[k] == initial_pixel(
                        observed@[k],
                        observed_var@[k],
                        self.config(),
                    ),
            decreases n - i,
        {
            let var: Real32 = if zero32().less(observed[i]) {
                observed_var[i]
            } else {
                self.settings.init_var
            };
            out.push(PixelState { invdepth: observed[i], var, a: self.settings.a_init, b: self.settings.b_init });
            i = i + 1;
        }
        out
    }
}

/// A copy of a frame.
fn copy_frame(frame: &Keyframe) -> (r: Keyframe)
    ensures
        r.same_as(*frame),
{
    let gray: Vec<u8> = frame.gray.clone();
    assert(gray@ =~= frame.gray@);
    Keyframe {
        gray,
        width: frame.width,
        height: frame.height,
        t_wc: frame.t_wc,
        stamp: frame.stamp,
        score: frame.score,
    }
}

/// A frame as it is handed to the filter, with the baselines to the references then held.
pub struct FlowFrame {
    pub gray: Seq<u8>,
    pub t_wc: [[Real64; 4]; 4],
    pub stamp: Real64,
    pub baselines: Seq<Real64>,
}

impl FlowFrame {
    /// Whether a stored frame is this one.
    pub open spec fn is_stored_as(self, kf: Keyframe) -> bool {
        kf.gray@ == self.gray && kf.t_wc == self.t_wc && kf.stamp == self.stamp
    }
}

/// Whether a filter that is handed a frame becomes another, where the frame is compared with
/// `reference`. A frame that is compared with nothing is only begun.
pub open spec fn takes_frame(
    before: FlowDepFilter,
    frame: FlowFrame,
    reference: FlowReference,
    after: FlowDepFilter,
) -> bool {
    &&& frame.baselines.len() == before.references().len()
    &&& exists|between: FlowDepFilter|
        {
            &&& #[trigger] FlowDepFilter::begun(
                before,
                between,
                frame.gray,
                frame.t_wc,
                frame.stamp,
                frame.baselines,
                reference,
            )
            &&& if reference is Nothing {
                after == between
            } else {
                FlowDepFilter::finished(between, after, frame.gray, frame.t_wc, frame.stamp)
            }
        }
}

/// Whether a filter that starts empty takes a sequence of frames, one after the other.
pub open spec fn takes_frames(
    filters: Seq<FlowDepFilter>,
    frames: Seq<FlowFrame>,
    references: Seq<FlowReference>,
) -> bool {
    &&& filters.len() == frames.len() + 1
    &&& references.len() == frames.len()
    &&& filters[0].last_frame() is None
    &&& filters[0].references().len() == 0
    &&& forall|i: int|
        0 <= i < frames.len() ==> takes_frame(filters[i], #[trigger] frames[i], references[i], filters[i + 1])
}

/// Number of reference frames held after `n` frames.
pub open spec fn held_after(n: int) -> int {
    if n < POOL_SIZE {
        n
    } else {
        POOL_SIZE as int
    }
}

proof fn lemma_holds_latest(
    filters: Seq<FlowDepFilter>,
    frames: Seq<FlowFrame>,
    references: Seq<FlowReference>,
    n: int,
)
    requires
        takes_frames(filters, frames, references),
        0 <= n <= frames.len(),
    ensures
        n == 0 <==> filters[n].last_frame() is None,
        n > 0 ==> (filters[n].last_frame() matches Some(f) && frames[n - 1].is_stored_as(f)),
        filters[n].references().len() == held_after(n),
        forall|j: int|
            0 <= j < held_after(n) ==> frames[n - held_after(n) + j].is_stored_as(
                #[trigger] filters[n].references()[j],
            ),
    decreases n,
{
    if n > 0 {
        lemma_holds_latest(filters, frames, references, n - 1);
        let (before, after) = (filters[n - 1], filters[n]);
        let frame = frames[n - 1];
        assert(takes_frame(before, frame, references[n - 1], filters[(n - 1) + 1]));
        assert forall|j: int| 0 <= j < held_after(n) implies frames[n - held_after(n) + j].is_stored_as(
            #[trigger] after.references()[j],
        ) by {
            if j < held_after(n) - 1 {
                let k = if n > POOL_SIZE {
                    j + 1
                } else {
                    j
                };
                assert(after.references()[j] == before.references()[k]);
            }
        }
    }
}

/// The first frame is compared with nothing, every later one with exactly one frame: that of
/// the last five with the longest baseline, the first of equals, and the frame just before
/// where no baseline is positive.
pub proof fn law_every_later_frame_is_compared(
    filters: Seq<FlowDepFilter>,
    frames: Seq<FlowFrame>,
    references: Seq<FlowReference>,
    n: int,
)
    requires
        takes_frames(filters, frames, references),
        0 <= n < frames.len(),
    ensures
        frames[n].baselines.len() == held_after(n),
        references[n] is Nothing <==> n == 0,
        n > 0 ==> (references[n] is Kept <==> exists|j: int|
            0 <= j < held_after(n) && crate::ieee::zero64().lt(#[trigger] frames[n].baselines[j])),
        references[n] matches FlowReference::Kept(kf) ==> exists|i: int|
            {
                &&& #[trigger] crate::depth::keyframe_pool::is_first_largest(frames[n].baselines, i)
                &&& frames[n - held_after(n) + i].is_stored_as(kf)
            },
        references[n] matches FlowReference::Previous(kf) ==> frames[n - 1].is_stored_as(kf),
{
    lemma_holds_latest(filters, frames, references, n);
    assert(takes_frame(filters[n], frames[n], references[n], filters[n + 1]));
    if let FlowReference::Kept(kf) = references[n] {
        let i = choose|i: int|
            {
                &&& #[trigger] crate::depth::keyframe_pool::is_first_largest(frames[n].baselines, i)
                &&& kf.same_as(filters[n].references()[i])
            };
        assert(frames[n - held_after(n) + i].is_stored_as(filters[n].references()[i]));
    }
}

/// A pixel is carried to the next frame where it has an inverse depth and its variance is below
/// three; a smaller variance never stops it.
pub proof fn law_certain_pixels_are_carried(state: &PixelState, r: bool, surer: &PixelState, s: bool)
    requires
        call_ensures(is_carried, (state,), r),
        call_ensures(is_carried, (surer,), s),
        surer.invdepth == state.invdepth,
        surer.var.le(state.var),
    ensures
        r <==> zero32().lt(state.invdepth) && state.var.lt(Real32 { bits: 0x4040_0000 }),
        r ==> s,
{
}

/// A predicted pixel is the weighted mean where its weight is above 1e-6, and unknown otherwise.
pub proof fn law_prediction_needs_weight(
    weights: &[Real32],
    means: &[PixelState],
    settings: &FusionSettings,
    r: Vec<PixelState>,
    i: int,
)
    requires
        weights@.len() == means@.len(),
        call_ensures(finish_prediction, (weights, means, settings), r),
        0 <= i < means@.len(),
    ensures
        r@.len() == means@.len(),
        (Real32 { bits: 0x3586_37BD }).lt(weights@[i]) ==> r@[i] == means@[i],
        !(Real32 { bits: 0x3586_37BD }).lt(weights@[i]) ==> r@[i].invdepth.bits == 0xBF80_0000 && r@[i].var
            == settings.init_var && r@[i].a == settings.a_init && r@[i].b == settings.b_init,
{
}

/// The first state of a pixel is its observation: with the observation's own variance where it
/// has an inverse depth, with the initial variance otherwise, and with the initial counts.
pub proof fn law_first_state_is_the_observation(observed: Real32, observed_var: Real32, settings: FusionSettings)
    ensures
        ({
            let s = initial_pixel(observed, observed_var, settings);
            &&& s.invdepth == observed
            &&& s.a == settings.a_init
            &&& s.b == settings.b_init
            &&& zero32().lt(observed) ==> s.var == observed_var
            &&& !zero32().lt(observed) ==> s.var == settings.init_var
        }),
{
}

/// At most five reference frames are held: the newest last, the others in their order, and the
/// oldest given up where there were five.
pub proof fn law_references_are_the_newest(references: Seq<Keyframe>, frame: Keyframe)
    requires
        references.len() <= 5,
    ensures
        ({
            let r = FlowDepFilter::with_reference(references, frame);
            &&& r.last() == frame
            &&& references.len() < 5 ==> r.len() == references.len() + 1 && r.drop_last() == references
            &&& references.len() == 5 ==> r.len() == 5 && forall|i: int|
                0 <= i < 4 ==> #[trigger] r[i] == references[i + 1]
        }),
{
    let r = FlowDepFilter::with_reference(references, frame);
    if references.len() < 5 {
        assert(r.drop_last() =~= references);
    }
}

/// Beginning a frame stores it as the newest reference, with its own image, pose and time, and
/// changes no state; the first frame is also the frame before the next one. Finishing a frame
/// makes it the frame before the next one and keeps the references.
pub proof fn law_frames_are_stored_as_they_come(
    before: FlowDepFilter,
    between: FlowDepFilter,
    after: FlowDepFilter,
    gray: Seq<u8>,
    t_wc: [[Real64; 4]; 4],
    stamp: Real64,
    baselines: Seq<Real64>,
    reference: FlowReference,
)
    requires
        FlowDepFilter::begun(before, between, gray, t_wc, stamp, baselines, reference),
        FlowDepFilter::finished(between, after, gray, t_wc, stamp),
        before.references().len() <= 5,
    ensures
        between.pixels() == before.pixels(),
        between.config() == before.config() && after.config() == before.config(),
        between.image_width() == before.image_width() && between.image_height() == before.image_height(),
        after.image_width() == before.image_width() && after.image_height() == before.image_height(),
        between.references().len() == (if before.references().len() == 5 { 5 } else { before.references().len() + 1 }),
        ({
            let stored = between.references().last();
            &&& stored.gray@ == gray
            &&& stored.t_wc == t_wc
            &&& stored.stamp == stamp
            &&& stored.width == before.image_width()
            &&& stored.height == before.image_height()
        }),
        before.last_frame() is None ==> (between.last_frame() matches Some(f) && f.gray@ == gray && f.stamp == stamp
            && f.t_wc == t_wc),
        before.last_frame() is Some ==> between.last_frame() == before.last_frame(),
        after.references() == between.references(),
        after.last_frame() matches Some(f) && f.gray@ == gray && f.t_wc == t_wc && f.stamp == stamp && f.width
            == before.image_width() && f.height == before.image_height(),
{
}

/// A carried pixel is seen as long as it lies more than a tenth before the camera.
pub proof fn law_carried_pixel_is_seen_before_the_camera(depth: Real64, r: bool)
    requires
        !depth.nan(),
        call_ensures(stays_visible, (depth,), r),
    ensures
        !r <==> depth.le(Real64 { bits: 0x3FB9_9999_9999_999A }),
{
}

} // verus!
