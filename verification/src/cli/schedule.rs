//! The order in which recorded data is taken in, and when something is reported.
use vstd::prelude::*;
use crate::ieee::Real64;

verus! {

/// What is taken in next.
#[derive(Clone, Copy, Debug, PartialEq, Eq, Structural)]
pub enum NextEvent {
    /// The next sample of the inertial sensor.
    Inertial,
    /// The next image.
    Image,
    /// There are no more images: the run is over.
    End,
}

/// What is taken in next, from the times of the next sample and the next image: samples up to
/// the time of the image, then the image.
pub open spec fn next_of(sample: Option<Real64>, image: Option<Real64>) -> NextEvent {
    match image {
        None => NextEvent::End,
        Some(i) => match sample {
            Some(s) => if i.lt(s) {
                NextEvent::Image
            } else {
                NextEvent::Inertial
            },
            None => NextEvent::Image,
        },
    }
}

/// Decides what is taken in next.
pub fn next_event(sample: Option<Real64>, image: Option<Real64>) -> (r: NextEvent)
    ensures
        r == next_of(sample, image),
{
    match image {
        None => NextEvent::End,
        Some(i) => match sample {
            Some(s) => if i.less(s) {
                NextEvent::Image
            } else {
                NextEvent::Inertial
            },
            None => NextEvent::Image,
        },
    }
}

/// The order in which samples and images are taken in.
pub fn interleave(samples: &[Real64], images: &[Real64]) -> (r: Vec<NextEvent>)
    requires
        samples@.len() + images@.len() <= usize::MAX,
    ensures
        r@ == interleaved(samples@, images@, 0, 0),
{
    let mut out: Vec<NextEvent> = Vec::new();
    let mut i: usize = 0;
    let mut j: usize = 0;
    while j < images.len()
        invariant
            i <= samples@.len(),
            j <= images@.len(),
            samples@.len() + images@.len() <= usize::MAX,
            out@ + interleaved(samples@, images@, i as int, j as int) == interleaved(samples@, images@, 0, 0),
        decreases samples@.len() - i + (images@.len() - j),
    {
        let sample: Option<Real64> = if i < samples.len() {
            Some(samples[i])
        } else {
            None
        };
        let ghost before = out@;
        let ghost rest = interleaved(samples@, images@, i as int, j as int);
        match next_event(sample, Some(images[j])) {
            NextEvent::Inertial => {
                out.push(NextEvent::Inertial);
                i = i + 1;
            },
            _ => {
                out.push(NextEvent::Image);
                j = j + 1;
            },
        }
        assert(out@ + interleaved(samples@, images@, i as int, j as int) =~= before + rest);
    }
    assert(out@ =~= out@ + interleaved(samples@, images@, i as int, j as int));
    out
}

/// The order in which samples from `i` on and images from `j` on are taken in.
pub open spec fn interleaved(samples: Seq<Real64>, images: Seq<Real64>, i: int, j: int) -> Seq<NextEvent>
    decreases samples.len() - i + (images.len() - j),
{
    if i < 0 || i > samples.len() || j < 0 || j >= images.len() {
        Seq::empty()
    } else {
        let sample = if i < samples.len() {
            Some(samples[i])
        } else {
            None
        };
        if next_of(sample, Some(images[j])) == NextEvent::Inertial {
            seq![NextEvent::Inertial] + interleaved(samples, images, i + 1, j)
        } else {
            seq![NextEvent::Image] + interleaved(samples, images, i, j + 1)
        }
    }
}

/// Every image is taken in, and nothing after the last one.
pub proof fn law_every_image_is_taken_in(samples: Seq<Real64>, images: Seq<Real64>, i: int, j: int)
    requires
        0 <= i <= samples.len(),
        0 <= j <= images.len(),
    ensures
        interleaved(samples, images, i, j).filter(|e: NextEvent| e == NextEvent::Image).len() == images.len() - j,
        j == images.len() ==> interleaved(samples, images, i, j).len() == 0,
    decreases samples.len() - i + (images.len() - j),
{
    let is_image = |e: NextEvent| e == NextEvent::Image;
    reveal(Seq::filter);
    if j < images.len() {
        let sample = if i < samples.len() {
            Some(samples[i])
        } else {
            None
        };
        if next_of(sample, Some(images[j])) == NextEvent::Inertial {
            law_every_image_is_taken_in(samples, images, i + 1, j);
            crate::seqs::lemma_filter_prepend(
                NextEvent::Inertial,
                interleaved(samples, images, i + 1, j),
                is_image,
            );
        } else {
            law_every_image_is_taken_in(samples, images, i, j + 1);
            crate::seqs::lemma_filter_prepend(NextEvent::Image, interleaved(samples, images, i, j + 1), is_image);
        }
    }
}

/// How often an event occurs.
pub open spec fn occurrences(events: Seq<NextEvent>, wanted: NextEvent) -> nat
    decreases events.len(),
{
    if events.len() == 0 {
        0
    } else {
        occurrences(events.skip(1), wanted) + if events[0] == wanted {
            1nat
        } else {
            0nat
        }
    }
}

/// An image is taken in once no sample is left that is not later than it, and not before: the
/// sample taken in last before an image is not later than that image.
pub proof fn law_image_waits_for_its_samples(samples: Seq<Real64>, images: Seq<Real64>, i: int, j: int, p: int)
    requires
        0 <= i <= samples.len(),
        0 <= j <= images.len(),
        0 <= p < interleaved(samples, images, i, j).len(),
    ensures
        ({
            let events = interleaved(samples, images, i, j);
            let sample = i + occurrences(events.take(p), NextEvent::Inertial);
            let image = j + occurrences(events.take(p), NextEvent::Image);
            &&& 0 <= sample <= samples.len()
            &&& 0 <= image < images.len()
            &&& events[p] == NextEvent::Image ==> sample == samples.len() || images[image].lt(samples[sample])
            &&& events[p] == NextEvent::Inertial ==> sample < samples.len() && !images[image].lt(samples[sample])
        }),
    decreases p,
{
    let events = interleaved(samples, images, i, j);
    if p > 0 {
        let sample = if i < samples.len() {
            Some(samples[i])
        } else {
            None
        };
        let inertial = next_of(sample, Some(images[j])) == NextEvent::Inertial;
        let rest = if inertial {
            interleaved(samples, images, i + 1, j)
        } else {
            interleaved(samples, images, i, j + 1)
        };
        if inertial {
            law_image_waits_for_its_samples(samples, images, i + 1, j, p - 1);
        } else {
            law_image_waits_for_its_samples(samples, images, i, j + 1, p - 1);
        }
        assert(events.take(p).skip(1) =~= rest.take(p - 1));
    } else {
        assert(events.take(0) =~= Seq::empty());
    }
}

/// Whether an image of the second camera is passed over: it is not at the time of the image
/// of the first one, or later.
pub fn is_passed_over(second: Real64, first: Real64) -> (r: bool)
    ensures
        r == !first.le(second),
{
    !first.at_most(second)
}

/// The number of frames reported at the start.
pub const FIRST_REPORTS: usize = 5;

/// The number of frames between later reports.
pub const REPORT_PERIOD: usize = 100;

/// Whether the state is reported after this many frames.
pub fn is_reported(frames: usize) -> (r: bool)
    ensures
        r == (frames <= FIRST_REPORTS || frames % REPORT_PERIOD == 0),
{
    frames % REPORT_PERIOD == 0 || frames <= FIRST_REPORTS
}

/// The number of states from which on the shown reference is aligned.
pub const ALIGNED_FROM: usize = 100;

/// The number of states between two alignments of the shown reference.
pub const ALIGNMENT_PERIOD: usize = 5;

/// Whether the shown reference is aligned anew after this many states.
pub fn is_realigned(states: usize, reference_poses: usize) -> (r: bool)
    ensures
        r == (states >= ALIGNED_FROM && states % ALIGNMENT_PERIOD == 0 && reference_poses > 0),
{
    states >= ALIGNED_FROM && states % ALIGNMENT_PERIOD == 0 && reference_poses > 0
}

/// What comes next: nothing once no image is left; the image where no sample is left or the
/// image is before the next one; the sample otherwise.
pub proof fn law_the_earlier_event_comes_next(sample: Option<Real64>, image: Option<Real64>, r: NextEvent)
    requires
        call_ensures(next_event, (sample, image), r),
    ensures
        r == NextEvent::End <==> image is None,
        image is Some && sample is None ==> r == NextEvent::Image,
        image is Some && sample is Some && image->0.lt(sample->0) ==> r == NextEvent::Image,
        image is Some && sample is Some && sample->0.le(image->0) ==> r == NextEvent::Inertial,
{
}

/// An image of the second camera is passed over where it is before that of the first one.
pub proof fn law_earlier_second_images_are_passed_over(second: Real64, first: Real64, r: bool)
    requires
        call_ensures(is_passed_over, (second, first), r),
        !second.nan(),
        !first.nan(),
    ensures
        r <==> second.lt(first),
{
}

/// The first five frames are reported, and after them every hundredth; trajectories are aligned
/// anew with every fifth state from the hundredth on.
pub proof fn law_reports_come_at_intervals(frames: usize, reported: bool, poses: usize, realigned: bool)
    requires
        call_ensures(is_reported, (frames,), reported),
        call_ensures(is_realigned, (frames, poses), realigned),
    ensures
        frames <= 5 ==> reported,
        frames > 5 ==> (reported <==> frames % 100 == 0),
        realigned <==> frames >= 100 && frames % 5 == 0 && poses > 0,
{
}

/// An image comes after the samples that are not later than it, and before the others; all images
/// come.
pub proof fn law_events_come_by_their_times(samples: &[Real64], images: &[Real64], r: Vec<NextEvent>, p: int)
    requires
        samples@.len() + images@.len() <= usize::MAX,
        call_ensures(interleave, (samples, images), r),
        0 <= p < r@.len(),
    ensures
        r@.filter(|e: NextEvent| e == NextEvent::Image).len() == images@.len(),
        ({
            let sample = occurrences(r@.take(p), NextEvent::Inertial);
            let image = occurrences(r@.take(p), NextEvent::Image);
            &&& 0 <= sample <= samples@.len()
            &&& 0 <= image < images@.len()
            &&& r@[p] == NextEvent::Image ==> sample == samples@.len() || images@[image as int].lt(
                samples@[sample as int],
            )
            &&& r@[p] == NextEvent::Inertial ==> sample < samples@.len() && !images@[image as int].lt(
                samples@[sample as int],
            )
        }),
{
    law_every_image_is_taken_in(samples@, images@, 0, 0);
    law_image_waits_for_its_samples(samples@, images@, 0, 0, p);
}

} // verus!
