//! A bounded pool of reference frames, oldest first.
use vstd::prelude::*;
use crate::ieee::{zero64, Real64};

verus! {

/// A reference frame with its camera-to-world pose, by rows.
#[derive(Clone, Debug)]
pub struct Keyframe {
    pub gray: Vec<u8>,
    pub width: usize,
    pub height: usize,
    pub t_wc: [[Real64; 4]; 4],
    pub stamp: Real64,
    pub score: Real64,
}

impl Keyframe {
    /// Whether two frames hold the same image, size, pose, time and score.
    pub open spec fn same_as(self, other: Self) -> bool {
        &&& self.gray@ == other.gray@
        &&& self.width == other.width
        &&& self.height == other.height
        &&& self.t_wc == other.t_wc
        &&& self.stamp == other.stamp
        &&& self.score == other.score
    }
}

pub struct KeyframePool {
    max_keyframes: usize,
    pool: Vec<Keyframe>,
}

/// Whether `best` is the first of the largest baselines, and is positive.
pub open spec fn is_first_largest(baselines: Seq<Real64>, best: int) -> bool {
    &&& 0 <= best < baselines.len()
    &&& zero64().lt(baselines[best])
    &&& forall|j: int| 0 <= j < baselines.len() ==> !baselines[best].lt(#[trigger] baselines[j])
    &&& forall|j: int| 0 <= j < best ==> !baselines[best].le(#[trigger] baselines[j])
}

impl KeyframePool {
    /// The largest number of frames held.
    pub closed spec fn capacity(self) -> nat {
        self.max_keyframes as nat
    }

    /// The frames held, oldest first.
    pub closed spec fn frames(self) -> Seq<Keyframe> {
        self.pool@
    }

    /// No more frames are held than the capacity allows.
    pub open spec fn wf(self) -> bool {
        self.frames().len() <= self.capacity()
    }

    pub fn new(max_keyframes: usize) -> (r: Self)
        ensures
            r.capacity() == max_keyframes,
            r.frames() == Seq::<Keyframe>::empty(),
            r.wf(),
    {
        KeyframePool { max_keyframes, pool: Vec::new() }
    }

    /// Appends a frame with score zero; a full pool loses its oldest frame first.
    pub fn add_keyframe(
        &mut self,
        gray: Vec<u8>,
        width: usize,
        height: usize,
        t_wc: [[Real64; 4]; 4],
        stamp: Real64,
    )
        requires
            old(self).wf(),
            old(self).capacity() > 0,
        ensures
            final(self).wf(),
            final(self).capacity() == old(self).capacity(),
            final(self).frames() == (if old(self).frames().len() >= old(self).capacity() {
                old(self).frames().skip(1)
            } else {
                old(self).frames()
            }).push(Keyframe { gray, width, height, t_wc, stamp, score: zero64() }),
    {
        if self.pool.len() >= self.max_keyframes {
            let _oldest: Keyframe = self.pool.remove(0);
            assert(self.pool@ =~= old(self).pool@.skip(1));
        }
        self.pool.push(Keyframe { gray, width, height, t_wc, stamp, score: zero64() });
    }

    /// The poses of the frames held, oldest first.
    pub fn poses(&self) -> (r: Vec<[[Real64; 4]; 4]>)
        ensures
            r@ == self.frames().map_values(|frame: Keyframe| frame.t_wc),
    {
        let ghost pose = |frame: Keyframe| frame.t_wc;
        let mut out: Vec<[[Real64; 4]; 4]> = Vec::new();
        let n: usize = self.pool.len();
        let mut i: usize = 0;
        while i < n
            invariant
                i <= n,
                n == self.pool@.len(),
                pose == (|frame: Keyframe| frame.t_wc),
                out@ == self.pool@.take(i as int).map_values(pose),
            decreases n - i,
        {
            out.push(self.pool[i].t_wc);
            i = i + 1;
            assert(out@ =~= self.pool@.take(i as int).map_values(pose));
        }
        assert(self.pool@.take(n as int) =~= self.pool@);
        out
    }

    /// The frame with the longest baseline to the current frame, the oldest of equals.
    /// `baselines` holds one baseline per frame; one that is zero or not a number
    /// does not count.
    pub fn select_best(&self, baselines: &[Real64]) -> (r: Option<&Keyframe>)
        requires
            baselines@.len() == self.frames().len(),
        ensures
            r is None <==> (forall|j: int| 0 <= j < baselines@.len() ==> !zero64().lt(#[trigger] baselines@[j])),
            r matches Some(kf) ==> exists|i: int|
                #[trigger] is_first_largest(baselines@, i) && *kf == self.frames()[i],
    {
        let mut best: Option<usize> = None;
        let mut best_baseline: Real64 = zero64();
        let n: usize = self.pool.len();
        let mut i: usize = 0;
        while i < n
            invariant
                i <= n,
                n == self.pool@.len(),
                n == baselines@.len(),
                best is None ==> best_baseline == zero64(),
                !best_baseline.nan(),
                best matches Some(b) ==> b < i && best_baseline == baselines@[b as int] && zero64().lt(best_baseline),
                forall|j: int| 0 <= j < i ==> !best_baseline.lt(#[trigger] baselines@[j]),
                best matches Some(b) ==> forall|j: int| 0 <= j < b ==> !best_baseline.le(#[trigger] baselines@[j]),
            decreases n - i,
        {
            let baseline: Real64 = baselines[i];
            if best_baseline.less(baseline) {
                best_baseline = baseline;
                best = Some(i);
            }
            i = i + 1;
        }
        match best {
            Some(b) => {
                assert(is_first_largest(baselines@, b as int));
                Some(&self.pool[b])
            },
            None => None,
        }
    }

    /// Drops every frame with this stamp and keeps the others in order.
    #[verifier::spinoff_prover]
    pub fn remove_keyframe(&mut self, stamp: Real64)
        ensures
            final(self).capacity() == old(self).capacity(),
            final(self).frames() == old(self).frames().filter(|kf: Keyframe| !kf.stamp.eq_number(stamp)),
            final(self).frames().len() <= old(self).frames().len(),
    {
        let ghost start = self.pool@;
        let ghost keep = |kf: Keyframe| !kf.stamp.eq_number(stamp);
        let ghost mut seen: int = 0;
        let mut i: usize = 0;
        while i < self.pool.len()
            invariant
                i <= self.pool@.len(),
                0 <= seen <= start.len(),
                self.max_keyframes == old(self).max_keyframes,
                keep == (|kf: Keyframe| !kf.stamp.eq_number(stamp)),
                self.pool@.len() - i == start.len() - seen,
                i <= seen,
                self.pool@.take(i as int) == start.take(seen).filter(keep),
                forall|k: int| i <= k < self.pool@.len() ==> (#[trigger] self.pool@[k]) == start[seen + k - i],
            decreases self.pool@.len() - i,
        {
            let ghost before = self.pool@;
            let drop: bool = self.pool[i].stamp.equals(stamp);
            proof {
                crate::seqs::lemma_filter_take(start, seen, keep);
            }
            if drop {
                let _gone: Keyframe = self.pool.remove(i);
                assert(self.pool@.take(i as int) =~= before.take(i as int));
            } else {
                i = i + 1;
                assert(self.pool@.take(i as int) =~= before.take(i - 1).push(before[i - 1]));
            }
            proof {
                seen = seen + 1;
            }
        }
        assert(self.pool@.take(i as int) =~= self.pool@);
        assert(start.take(seen) =~= start);
    }

    pub fn is_empty(&self) -> (r: bool)
        ensures
            r == (self.frames().len() == 0),
    {
        self.pool.len() == 0
    }
}

/// Adding frames never makes a pool larger than its capacity, and the newest frame
/// is always the last one held.
pub proof fn law_newest_frame_is_kept(before: KeyframePool, after: KeyframePool, added: Keyframe)
    requires
        before.wf(),
        before.capacity() > 0,
        after.capacity() == before.capacity(),
        after.frames() == (if before.frames().len() >= before.capacity() {
            before.frames().skip(1)
        } else {
            before.frames()
        }).push(added),
    ensures
        after.wf(),
        after.frames().last() == added,
        forall|i: int|
            0 <= i < after.frames().len() - 1 ==> #[trigger] after.frames()[i] == before.frames()[before.frames().len() - (
            after.frames().len() - 1) + i],
{
}

/// The frame that is chosen has a positive baseline, no frame has a longer one, and no older
/// frame has one as long.
pub proof fn law_longest_baseline_is_chosen(
    pool: &KeyframePool,
    baselines: &[Real64],
    r: Option<&Keyframe>,
)
    requires
        baselines@.len() == pool.frames().len(),
        call_ensures(KeyframePool::select_best, (pool, baselines), r),
    ensures
        r matches Some(frame) ==> exists|i: int|
            {
                &&& 0 <= i < baselines@.len()
                &&& *frame == #[trigger] pool.frames()[i]
                &&& zero64().lt(baselines@[i])
                &&& forall|j: int| 0 <= j < baselines@.len() && !baselines@[j].nan() ==> (#[trigger] baselines@[j]).le(baselines@[i])
                &&& forall|j: int| 0 <= j < i && !baselines@[j].nan() ==> (#[trigger] baselines@[j]).lt(baselines@[i])
            },
{
    if let Some(frame) = r {
        let i = choose|i: int| #[trigger] is_first_largest(baselines@, i) && *frame == pool.frames()[i];
        assert(zero64().lt(baselines@[i]));
        assert(*frame == pool.frames()[i]);
    }
}

} // verus!
