//! Which poses of an estimated trajectory belong to which poses of a reference, and how the
//! two trajectories are aligned.
use vstd::prelude::*;
use crate::ieee::{one64, real64, zero64, Real64};

verus! {

/// The number of matched poses below which only the first poses are aligned.
pub const ENOUGH_MATCHES: usize = 100;

/// A pose of the estimate and the pose of the reference that belongs to it.
#[derive(Clone, Copy, Debug, PartialEq, Eq, Structural)]
pub struct MatchedPair {
    pub estimate: usize,
    pub reference: usize,
}

/// The first position from `from` on whose time is not before `t`; the end if there is none.
pub open spec fn first_not_before(stamps: Seq<Real64>, from: int, t: Real64) -> int
    decreases stamps.len() - from,
{
    if from < 0 || from >= stamps.len() || !stamps[from].lt(t) {
        from
    } else {
        first_not_before(stamps, from + 1, t)
    }
}

/// The position reached after the first `k` times were looked up one after the other.
pub open spec fn cursor(stamps: Seq<Real64>, times: Seq<Real64>, k: int) -> int
    decreases k,
{
    if k <= 0 {
        0
    } else {
        first_not_before(stamps, cursor(stamps, times, k - 1), times[k - 1])
    }
}

/// Whether the first `k` times are all before the end and find a pose in both trajectories.
pub open spec fn matches_up_to(
    estimate: Seq<Real64>,
    reference: Seq<Real64>,
    times: Seq<Real64>,
    end: Real64,
    k: int,
) -> bool {
    forall|j: int|
        1 <= j <= k ==> (#[trigger] times[j - 1]).lt(end) && cursor(estimate, times, j) < estimate.len() && cursor(
            reference,
            times,
            j,
        ) < reference.len()
}

/// The position found is a bound for itself, and lies at the start or beyond.
pub proof fn lemma_first_not_before(stamps: Seq<Real64>, from: int, t: Real64)
    requires
        0 <= from <= stamps.len(),
    ensures
        from <= first_not_before(stamps, from, t) <= stamps.len(),
        forall|i: int| from <= i < first_not_before(stamps, from, t) ==> (#[trigger] stamps[i]).lt(t),
        first_not_before(stamps, from, t) < stamps.len() ==> !stamps[first_not_before(stamps, from, t)].lt(t),
    decreases stamps.len() - from,
{
    if from < stamps.len() && stamps[from].lt(t) {
        lemma_first_not_before(stamps, from + 1, t);
    }
}

/// The position reached never leaves the trajectory.
pub proof fn lemma_cursor_bound(stamps: Seq<Real64>, times: Seq<Real64>, k: int)
    requires
        0 <= k <= times.len(),
    ensures
        0 <= cursor(stamps, times, k) <= stamps.len(),
    decreases k,
{
    if k > 0 {
        lemma_cursor_bound(stamps, times, k - 1);
        lemma_first_not_before(stamps, cursor(stamps, times, k - 1), times[k - 1]);
    }
}

/// The first position from `from` on whose time is not before `t`.
fn advance(stamps: &[Real64], from: usize, t: Real64) -> (r: usize)
    requires
        from <= stamps@.len(),
    ensures
        r == first_not_before(stamps@, from as int, t),
        r <= stamps@.len(),
{
    let mut i: usize = from;
    while i < stamps.len() && stamps[i].less(t)
        invariant
            from <= i <= stamps@.len(),
            first_not_before(stamps@, from as int, t) == first_not_before(stamps@, i as int, t),
        decreases stamps@.len() - i,
    {
        i = i + 1;
    }
    i
}

/// The pairs of poses at a sequence of times: at each time the first poses that are not
/// before it, up to the first time that is not before `end` or finds no pose.
pub fn match_trajectories(estimate: &[Real64], reference: &[Real64], times: &[Real64], end: Real64) -> (r: Vec<
    MatchedPair,
>)
    ensures
        r@.len() <= times@.len(),
        matches_up_to(estimate@, reference@, times@, end, r@.len() as int),
        r@.len() < times@.len() ==> !matches_up_to(estimate@, reference@, times@, end, r@.len() as int + 1),
        forall|k: int|
            0 <= k < r@.len() ==> (#[trigger] r@[k]).estimate == cursor(estimate@, times@, k + 1) && r@[k].reference
                == cursor(reference@, times@, k + 1),
{
    let mut out: Vec<MatchedPair> = Vec::new();
    let mut i: usize = 0;
    let mut j: usize = 0;
    let mut k: usize = 0;
    let n: usize = times.len();
    while k < n
        invariant
            k <= n,
            n == times@.len(),
            out@.len() == k,
            i == cursor(estimate@, times@, k as int),
            j == cursor(reference@, times@, k as int),
            i <= estimate@.len(),
            j <= reference@.len(),
            matches_up_to(estimate@, reference@, times@, end, k as int),
            forall|l: int|
                0 <= l < k ==> (#[trigger] out@[l]).estimate == cursor(estimate@, times@, l + 1) && out@[l].reference
                    == cursor(reference@, times@, l + 1),
        decreases n - k,
    {
        let t: Real64 = times[k];
        if !t.less(end) {
            assert(!(times@[(k + 1) - 1].lt(end)));
            return out;
        }
        i = advance(estimate, i, t);
        j = advance(reference, j, t);
        if i >= estimate.len() || j >= reference.len() {
            assert(times@[(k + 1) - 1] == t);
            return out;
        }
        out.push(MatchedPair { estimate: i, reference: j });
        k = k + 1;
    }
    out
}

/// Where the times do not run backwards, each of them is matched with the very first pose
/// that is not before it.
pub proof fn law_match_is_the_first(stamps: Seq<Real64>, times: Seq<Real64>, k: int)
    requires
        0 < k <= times.len(),
        forall|i: int, j: int| 0 <= i <= j < times.len() ==> (#[trigger] times[i]).le(#[trigger] times[j]),
        cursor(stamps, times, k) < stamps.len(),
    ensures
        cursor(stamps, times, k) == first_not_before(stamps, 0, times[k - 1]),
        !stamps[cursor(stamps, times, k)].lt(times[k - 1]),
{
    lemma_passed_are_before(stamps, times, k);
    lemma_cursor_bound(stamps, times, k);
    lemma_cursor_bound(stamps, times, k - 1);
    let c = cursor(stamps, times, k);
    lemma_first_not_before(stamps, cursor(stamps, times, k - 1), times[k - 1]);
    lemma_first_not_before(stamps, 0, times[k - 1]);
    let f = first_not_before(stamps, 0, times[k - 1]);
    if f < c {
        assert(stamps[f].lt(times[k - 1]));
    }
    if c < f {
        assert(stamps[c].lt(times[k - 1]));
    }
}

/// Where the times do not run backwards, every pose passed over is before the last time.
proof fn lemma_passed_are_before(stamps: Seq<Real64>, times: Seq<Real64>, k: int)
    requires
        0 < k <= times.len(),
        forall|i: int, j: int| 0 <= i <= j < times.len() ==> (#[trigger] times[i]).le(#[trigger] times[j]),
    ensures
        forall|i: int| 0 <= i < cursor(stamps, times, k) ==> (#[trigger] stamps[i]).lt(times[k - 1]),
    decreases k,
{
    lemma_cursor_bound(stamps, times, k - 1);
    lemma_first_not_before(stamps, cursor(stamps, times, k - 1), times[k - 1]);
    if k > 1 {
        lemma_passed_are_before(stamps, times, k - 1);
        assert(times[k - 2].le(times[k - 1]));
    }
}

/// How two trajectories are aligned.
#[derive(Clone, Copy, Debug, PartialEq, Eq, Structural)]
pub enum Alignment {
    /// Not at all: one of them is empty or nothing matches.
    Identity,
    /// By their first poses.
    FirstPose,
    /// By all matched poses.
    AllPoses,
}

/// How two trajectories are aligned, from the numbers of their poses and of the matches.
pub fn align_trajectories(estimate: usize, reference: usize, matched: usize) -> (r: Alignment)
    ensures
        r == Alignment::Identity <==> estimate == 0 || reference == 0 || matched == 0,
        r == Alignment::FirstPose <==> estimate > 0 && reference > 0 && 0 < matched < ENOUGH_MATCHES,
        r == Alignment::AllPoses <==> estimate > 0 && reference > 0 && matched >= ENOUGH_MATCHES,
{
    if estimate == 0 || reference == 0 || matched == 0 {
        Alignment::Identity
    } else if matched < ENOUGH_MATCHES {
        Alignment::FirstPose
    } else {
        Alignment::AllPoses
    }
}

/// The sign given to the last direction of a rotation, from the determinant of the
/// correlation: it undoes a reflection.
pub fn reflection_sign(determinant: Real64) -> (r: Real64)
    ensures
        r == (if determinant.lt(zero64()) {
            one64().negated()
        } else {
            one64()
        }),
{
    if determinant.less(zero64()) {
        one64().neg()
    } else {
        one64()
    }
}

/// Where the times do not run backwards, the pose that a time is matched with is not before it,
/// and every pose before that one is; matching ends with the first time that is not before the
/// end, or that has no such pose in one of the trajectories.
pub proof fn law_time_is_matched_with_the_next_pose(
    estimate: &[Real64],
    reference: &[Real64],
    times: &[Real64],
    end: Real64,
    r: Vec<MatchedPair>,
    k: int,
    i: int,
)
    requires
        call_ensures(match_trajectories, (estimate, reference, times, end), r),
        forall|a: int, b: int| 0 <= a <= b < times@.len() ==> (#[trigger] times@[a]).le(#[trigger] times@[b]),
        0 <= k < r@.len(),
    ensures
        times@[k].lt(end),
        r@[k].estimate < estimate@.len(),
        r@[k].reference < reference@.len(),
        !estimate@[r@[k].estimate as int].lt(times@[k]),
        !reference@[r@[k].reference as int].lt(times@[k]),
        0 <= i < r@[k].estimate ==> estimate@[i].lt(times@[k]),
        0 <= i < r@[k].reference ==> reference@[i].lt(times@[k]),
{
    assert(r@[k].estimate == cursor(estimate@, times@, k + 1));
    assert(times@[(k + 1) - 1] == times@[k]);
    law_match_is_the_first(estimate@, times@, k + 1);
    law_match_is_the_first(reference@, times@, k + 1);
    lemma_first_not_before(estimate@, 0, times@[k]);
    lemma_first_not_before(reference@, 0, times@[k]);
}

/// Trajectories are aligned by all their poses from one hundred matches on, by the first pose
/// below that, and not at all without any match.
pub proof fn law_alignment_needs_enough_matches(estimate: usize, reference: usize, matched: usize, r: Alignment)
    requires
        call_ensures(align_trajectories, (estimate, reference, matched), r),
        estimate > 0,
        reference > 0,
    ensures
        matched >= 100 <==> r == Alignment::AllPoses,
        1 <= matched <= 99 <==> r == Alignment::FirstPose,
        matched == 0 <==> r == Alignment::Identity,
{
}

/// The sign of the last direction is one in size, and negative exactly where the determinant is:
/// together they never reflect.
pub proof fn law_sign_undoes_a_reflection(determinant: Real64, r: Real64)
    requires
        call_ensures(reflection_sign, (determinant,), r),
    ensures
        r.lt(zero64()) <==> determinant.lt(zero64()),
        determinant.lt(zero64()) ==> r.value() == -one64().value(),
        !determinant.lt(zero64()) ==> r == one64(),
{
    one64().lemma_negation();
    zero64().lemma_key_orders_values(one64());
    zero64().lemma_key_orders_values(one64().negated());
}

} // verus!
