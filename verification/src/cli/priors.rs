//! The depths that are passed on to the filter.
use std::collections::HashMap;
use vstd::prelude::*;
use crate::cli::hashing::DepthPrior;
use crate::ieee::{real64, zero64, Real64};
use crate::ordering::sort_by_id;

verus! {

/// What a sparse filter's answer on a feature is used for.
#[derive(Clone, Copy, Debug, PartialEq, Eq, Structural)]
pub enum PriorChoice {
    /// The range becomes a prior.
    Prior,
    /// There is a track but no range yet: no other range is made up for it.
    Deferred,
    /// The filter does not know the feature.
    Unknown,
}

/// What a sparse filter's answer is used for: a positive range of finite variance becomes a
/// prior.
pub fn prior_choice(range: Real64, range_var: Real64, has_track: bool) -> (r: PriorChoice)
    ensures
        r == PriorChoice::Prior <==> zero64().lt(range) && range_var.finite(),
        r == PriorChoice::Deferred <==> !(zero64().lt(range) && range_var.finite()) && has_track,
        r == PriorChoice::Unknown <==> !(zero64().lt(range) && range_var.finite()) && !has_track,
{
    if zero64().less(range) && range_var.is_finite() {
        PriorChoice::Prior
    } else if has_track {
        PriorChoice::Deferred
    } else {
        PriorChoice::Unknown
    }
}

/// Priors with those of `later` written over them one after the other.
pub open spec fn overlaid(priors: Map<u64, DepthPrior>, later: Seq<DepthPrior>) -> Map<u64, DepthPrior>
    decreases later.len(),
{
    if later.len() == 0 {
        priors
    } else {
        overlaid(priors, later.drop_last()).insert(later.last().id, later.last())
    }
}

/// Writes the priors of a stereo pair over those of the sparse filter.
pub fn extend_priors(priors: &mut HashMap<u64, DepthPrior>, stereo: &[DepthPrior])
    ensures
        final(priors)@ == overlaid(old(priors)@, stereo@),
{
    let ghost before = priors@;
    let n: usize = stereo.len();
    let mut i: usize = 0;
    assert(stereo@.take(0) =~= Seq::empty());
    while i < n
        invariant
            i <= n,
            n == stereo@.len(),
            priors@ == overlaid(before, stereo@.take(i as int)),
        decreases n - i,
    {
        let prior: DepthPrior = stereo[i];
        priors.insert(prior.id, prior);
        proof {
            let next = stereo@.take(i + 1);
            assert(next.drop_last() =~= stereo@.take(i as int));
            assert(next.last() == prior);
        }
        i = i + 1;
    }
    assert(stereo@.take(n as int) =~= stereo@);
}

/// A prior of the stereo pair replaces that of the sparse filter; features that only the
/// sparse filter knows keep theirs.
pub proof fn law_stereo_takes_precedence(priors: Map<u64, DepthPrior>, stereo: Seq<DepthPrior>, id: u64)
    ensures
        (exists|i: int| 0 <= i < stereo.len() && (#[trigger] stereo[i]).id == id) ==> overlaid(priors, stereo)
            .contains_key(id) && exists|i: int|
            0 <= i < stereo.len() && (#[trigger] stereo[i]).id == id && overlaid(priors, stereo)[id] == stereo[i],
        (forall|i: int| 0 <= i < stereo.len() ==> (#[trigger] stereo[i]).id != id) ==> (overlaid(
            priors,
            stereo,
        ).contains_key(id) <==> priors.contains_key(id)) && (priors.contains_key(id) ==> overlaid(priors, stereo)[id]
            == priors[id]),
    decreases stereo.len(),
{
    if stereo.len() > 0 {
        let rest = stereo.drop_last();
        law_stereo_takes_precedence(priors, rest, id);
        if stereo.last().id == id {
            assert(stereo[stereo.len() - 1].id == id);
        } else {
            if exists|i: int| 0 <= i < stereo.len() && (#[trigger] stereo[i]).id == id {
                let i = choose|i: int| 0 <= i < stereo.len() && (#[trigger] stereo[i]).id == id;
                assert(rest[i].id == id);
                let k = choose|k: int|
                    0 <= k < rest.len() && (#[trigger] rest[k]).id == id && overlaid(priors, rest)[id] == rest[k];
                assert(stereo[k] == rest[k]);
            } else {
                assert forall|i: int| 0 <= i < rest.len() implies (#[trigger] rest[i]).id != id by {
                    assert(stereo[i].id != id);
                }
            }
        }
    }
}

/// The least number of points that determine a rigid motion.
pub const LEAST_PAIRS: usize = 3;

/// The least variance of a range of the stereo pair.
#[verifier::allow_in_spec]
pub fn least_range_variance() -> Real64
    returns
        (Real64 { bits: 0x3F1A_36E2_EB1C_432D }),
{
    real64(0x3F1A_36E2_EB1C_432D)
}

/// Whether an identifier is among others.
fn is_among(ids: &[u64], id: u64) -> (r: bool)
    ensures
        r == ids@.contains(id),
{
    let mut i: usize = 0;
    while i < ids.len()
        invariant
            i <= ids@.len(),
            forall|k: int| 0 <= k < i ==> #[trigger] ids@[k] != id,
        decreases ids@.len() - i,
    {
        if ids[i] == id {
            return true;
        }
        i = i + 1;
    }
    false
}

/// The features that have a point in this frame and in the one before, in ascending order.
pub fn common_ids(current: &[u64], previous: &[u64]) -> (r: Vec<u64>)
    ensures
        exists|sorted: Seq<u64>|
            #[trigger] crate::ordering::is_id_sorting_of(sorted, current@) && r@ == sorted.filter(
                |id: u64| previous@.contains(id),
            ),
{
    let sorted: Vec<u64> = sort_by_id(current);
    let ghost keep = |id: u64| previous@.contains(id);
    let mut out: Vec<u64> = Vec::new();
    let n: usize = sorted.len();
    let mut i: usize = 0;
    proof {
        reveal(Seq::filter);
        assert(sorted@.take(0).filter(keep) =~= out@);
    }
    while i < n
        invariant
            i <= n,
            n == sorted@.len(),
            keep == (|id: u64| previous@.contains(id)),
            out@ == sorted@.take(i as int).filter(keep),
        decreases n - i,
    {
        proof {
            crate::seqs::lemma_filter_take(sorted@, i as int, keep);
        }
        if is_among(previous, sorted[i]) {
            out.push(sorted[i]);
        }
        i = i + 1;
    }
    assert(sorted@.take(n as int) =~= sorted@);
    out
}

/// Whether a rigid motion is estimated from this many pairs of points.
pub fn motion_is_estimated(pairs: usize) -> (r: bool)
    ensures
        r == (pairs >= LEAST_PAIRS),
{
    pairs >= LEAST_PAIRS
}

/// The features that agree with an estimate, or those that do not, in their order.
pub open spec fn on_side(ids: Seq<u64>, inliers: Seq<bool>, wanted: bool) -> Seq<u64>
    decreases ids.len(),
{
    if ids.len() == 0 || inliers.len() == 0 {
        Seq::empty()
    } else {
        let n = if ids.len() < inliers.len() {
            ids.len()
        } else {
            inliers.len()
        };
        let rest = on_side(ids.take(n - 1), inliers.take(n - 1), wanted);
        if inliers[n - 1] == wanted {
            rest.push(ids[n - 1])
        } else {
            rest
        }
    }
}

/// The features that agree with an estimate, and those that do not, each in their order.
pub fn split_by_estimate(ids: &[u64], inliers: &[bool]) -> (r: (Vec<u64>, Vec<u64>))
    ensures
        r.0@ == on_side(ids@, inliers@, true),
        r.1@ == on_side(ids@, inliers@, false),
{
    let n: usize = if ids.len() < inliers.len() {
        ids.len()
    } else {
        inliers.len()
    };
    let mut kept: Vec<u64> = Vec::new();
    let mut dropped: Vec<u64> = Vec::new();
    let mut i: usize = 0;
    while i < n
        invariant
            i <= n,
            n <= ids@.len(),
            n <= inliers@.len(),
            kept@ == on_side(ids@.take(i as int), inliers@.take(i as int), true),
            dropped@ == on_side(ids@.take(i as int), inliers@.take(i as int), false),
        decreases n - i,
    {
        proof {
            let a = ids@.take(i + 1);
            let b = inliers@.take(i + 1);
            assert(a.take(i as int) =~= ids@.take(i as int));
            assert(b.take(i as int) =~= inliers@.take(i as int));
        }
        if inliers[i] {
            kept.push(ids[i]);
        } else {
            dropped.push(ids[i]);
        }
        i = i + 1;
    }
    proof {
        if n > 0 {
            let a = ids@.take(n as int);
            let b = inliers@.take(n as int);
            assert(a.take(n - 1) =~= ids@.take(n - 1));
            assert(b.take(n - 1) =~= inliers@.take(n - 1));
        }
    }
    (kept, dropped)
}

/// The prior of a feature that agrees with the estimate, from its range and the variance
/// computed for it; none at range zero.
pub fn stereo_prior(id: u64, range: Real64, range_var: Real64) -> (r: Option<DepthPrior>)
    ensures
        r is Some <==> zero64().lt(range),
        r matches Some(p) ==> p.id == id && p.range == range && p.range_var == (if least_range_variance().le(
            range_var,
        ) {
            range_var
        } else {
            least_range_variance()
        }),
{
    if !zero64().less(range) {
        return None;
    }
    let var: Real64 = if least_range_variance().at_most(range_var) {
        range_var
    } else {
        least_range_variance()
    };
    Some(DepthPrior { id, range, range_var: var })
}

/// The forward component of a bearing at which it has no pixel.
#[verifier::allow_in_spec]
pub fn least_forward() -> Real64
    returns
        (Real64 { bits: 0x3D71_9799_812D_EA11 }),
{
    real64(0x3D71_9799_812D_EA11)
}

/// Whether a bearing has a pixel in an undistorted image: its forward component is not almost
/// zero.
pub fn has_undistorted_pixel(forward: Real64) -> (r: bool)
    ensures
        r == !(forward.le(least_forward()) && least_forward().negated().le(forward)),
{
    !(forward.at_most(least_forward()) && least_forward().neg().at_most(forward))
}

/// A feature has a prior where its range is positive and the variance finite; it waits for one
/// where it has a track, and is unknown otherwise.
pub proof fn law_prior_needs_a_range(range: Real64, range_var: Real64, has_track: bool, r: PriorChoice)
    requires
        call_ensures(prior_choice, (range, range_var, has_track), r),
    ensures
        zero64().lt(range) && range_var.finite() ==> r == PriorChoice::Prior,
        range.le(zero64()) || !range_var.finite() ==> r != PriorChoice::Prior,
        r != PriorChoice::Prior ==> (r == PriorChoice::Deferred <==> has_track),
{
}

/// Splitting by an estimate takes each identifier that has a mark to the side of its mark, in
/// its order, and loses none.
pub proof fn law_split_takes_each_to_its_side(ids: Seq<u64>, inliers: Seq<bool>, wanted: bool, id: u64)
    ensures
        on_side(ids, inliers, wanted).contains(id) <==> exists|k: int|
            0 <= k < ids.len() && k < inliers.len() && #[trigger] ids[k] == id && inliers[k] == wanted,
        on_side(ids, inliers, true).len() + on_side(ids, inliers, false).len() == (if ids.len() < inliers.len() {
            ids.len()
        } else {
            inliers.len()
        }),
    decreases ids.len(),
{
    if ids.len() > 0 && inliers.len() > 0 {
        let n: int = if ids.len() < inliers.len() {
            ids.len() as int
        } else {
            inliers.len() as int
        };
        let (a, b) = (ids.take(n - 1), inliers.take(n - 1));
        law_split_takes_each_to_its_side(a, b, wanted, id);
        let rest = on_side(a, b, wanted);
        crate::seqs::lemma_push_contains(rest, ids[n - 1], id);
        if rest.contains(id) {
            let k = choose|k: int| 0 <= k < a.len() && k < b.len() && #[trigger] a[k] == id && b[k] == wanted;
            assert(ids[k] == id && inliers[k] == wanted);
        }
        if exists|k: int| 0 <= k < ids.len() && k < inliers.len() && #[trigger] ids[k] == id && inliers[k] == wanted {
            let k = choose|k: int|
                0 <= k < ids.len() && k < inliers.len() && #[trigger] ids[k] == id && inliers[k] == wanted;
            if k < n - 1 {
                assert(a[k] == id && b[k] == wanted);
            }
        }
        assert(ids[n - 1] == ids[n - 1]);
    }
}

/// A stereo prior has a positive range and a variance that is never below 1e-4.
pub proof fn law_stereo_prior_is_not_too_sure(id: u64, range: Real64, range_var: Real64, r: Option<DepthPrior>)
    requires
        call_ensures(stereo_prior, (id, range, range_var), r),
    ensures
        r is Some <==> zero64().lt(range),
        r matches Some(p) ==> {
            &&& p.id == id
            &&& p.range == range
            &&& (Real64 { bits: 0x3F1A_36E2_EB1C_432D }).le(p.range_var)
            &&& (Real64 { bits: 0x3F1A_36E2_EB1C_432D }).le(range_var) ==> p.range_var == range_var
        },
{
}

/// The identifiers that two frames have in common: those of the current one that the other one
/// has too.
pub proof fn law_common_ids_are_in_both(current: &[u64], previous: &[u64], r: Vec<u64>, k: int)
    requires
        call_ensures(common_ids, (current, previous), r),
        0 <= k < r@.len(),
    ensures
        current@.contains(r@[k]),
        previous@.contains(r@[k]),
{
    let sorted = choose|sorted: Seq<u64>|
        #[trigger] crate::ordering::is_id_sorting_of(sorted, current@) && r@ == sorted.filter(
            |id: u64| previous@.contains(id),
        );
    let keep = |id: u64| previous@.contains(id);
    broadcast use vstd::seq_lib::group_to_multiset_ensures;

    sorted.filter_lemma(keep);
    let kept = sorted.filter(keep);
    assert(kept.contains(kept[k]));
    sorted.lemma_filter_contains_rev(keep, kept[k]);
    assert(sorted.contains(kept[k]));
    assert(sorted.to_multiset().count(kept[k]) > 0);
    assert(current@.to_multiset().count(kept[k]) > 0);
}

/// A rigid motion is estimated from three pairs of points on.
pub proof fn law_motion_needs_three_pairs(pairs: usize, r: bool)
    requires
        call_ensures(motion_is_estimated, (pairs,), r),
    ensures
        pairs < 3 <==> !r,
{
}

/// A bearing has no pixel in an undistorted image exactly where it points sideways: its forward
/// component is a number and lies between minus and plus 1e-12, the ends taken in.
pub proof fn law_sideways_bearing_has_no_pixel(forward: Real64, r: bool)
    requires
        !forward.nan(),
        call_ensures(has_undistorted_pixel, (forward,), r),
    ensures
        !r <==> -(Real64 { bits: 0x3D71_9799_812D_EA11 }).value() <= forward.value() <= (Real64 {
            bits: 0x3D71_9799_812D_EA11,
        }).value(),
{
    least_forward().lemma_negation();
}

/// Of two lists of the same length, each feature that agrees with the estimate is found on the
/// first side, each that does not on the second, and no other on either.
pub proof fn law_estimate_parts_the_features(ids: &[u64], inliers: &[bool], r: (Vec<u64>, Vec<u64>), id: u64)
    requires
        inliers@.len() == ids@.len(),
        call_ensures(split_by_estimate, (ids, inliers), r),
    ensures
        r.0@.contains(id) <==> exists|k: int| 0 <= k < ids@.len() && #[trigger] ids@[k] == id && inliers@[k],
        r.1@.contains(id) <==> exists|k: int| 0 <= k < ids@.len() && #[trigger] ids@[k] == id && !inliers@[k],
        r.0@.len() + r.1@.len() == ids@.len(),
{
    law_split_takes_each_to_its_side(ids@, inliers@, true, id);
    law_split_takes_each_to_its_side(ids@, inliers@, false, id);
}

} // verus!
