//! Hashes of priors and states, by which two runs can be compared.
use std::collections::hash_map::DefaultHasher;
use std::hash::Hasher;
use vstd::bytes::u64_to_le_bytes;
use vstd::prelude::*;
use crate::ieee::Real64;
use crate::ordering::{sort_by_id, Identified};

verus! {

/// The order in which a machine keeps the bytes of a word.
#[derive(Clone, Copy, Debug, PartialEq, Eq, Structural)]
pub enum ByteOrder {
    LowestFirst,
    HighestFirst,
}

/// The bytes of a word as a machine keeps them.
pub open spec fn word(order: ByteOrder, x: u64) -> Seq<u8> {
    match order {
        ByteOrder::LowestFirst => vstd::bytes::spec_u64_to_le_bytes(x),
        ByteOrder::HighestFirst => vstd::bytes::spec_u64_to_le_bytes(x).reverse(),
    }
}

/// What is written for a sequence of words.
pub open spec fn written(order: ByteOrder, words: Seq<u64>) -> Seq<Seq<u8>> {
    words.map_values(|x: u64| word(order, x))
}

/// Writes a word as the machine keeps it.
pub fn hash_u64(hasher: &mut DefaultHasher, order: ByteOrder, value: u64)
    ensures
        final(hasher)@ == old(hasher)@.push(word(order, value)),
{
    let low_first: Vec<u8> = u64_to_le_bytes(value);
    match order {
        ByteOrder::LowestFirst => hasher.write(low_first.as_slice()),
        ByteOrder::HighestFirst => {
            let n: usize = low_first.len();
            let mut bytes: Vec<u8> = Vec::new();
            while bytes.len() < n
                invariant
                    n == low_first@.len(),
                    bytes@.len() <= n,
                    forall|k: int| 0 <= k < bytes@.len() ==> #[trigger] bytes@[k] == low_first@[n - 1 - k],
                decreases n - bytes@.len(),
            {
                bytes.push(low_first[n - 1 - bytes.len()]);
            }
            assert(bytes@ =~= low_first@.reverse());
            hasher.write(bytes.as_slice());
        },
    }
}

/// Writes the bits of a number.
pub fn hash_f64(hasher: &mut DefaultHasher, order: ByteOrder, value: Real64)
    ensures
        final(hasher)@ == old(hasher)@.push(word(order, value.bits)),
{
    hash_u64(hasher, order, value.bits);
}

/// Writes numbers one after the other.
fn hash_numbers(hasher: &mut DefaultHasher, order: ByteOrder, numbers: &[Real64])
    ensures
        final(hasher)@ == old(hasher)@ + written(order, numbers@.map_values(|x: Real64| x.bits)),
{
    let ghost start = hasher@;
    let n: usize = numbers.len();
    let mut i: usize = 0;
    assert(hasher@ =~= start + written(order, numbers@.take(0).map_values(|x: Real64| x.bits)));
    while i < n
        invariant
            i <= n,
            n == numbers@.len(),
            hasher@ == start + written(order, numbers@.take(i as int).map_values(|x: Real64| x.bits)),
        decreases n - i,
    {
        hash_f64(hasher, order, numbers[i]);
        i = i + 1;
        assert(hasher@ =~= start + written(order, numbers@.take(i as int).map_values(|x: Real64| x.bits)));
    }
    assert(numbers@.take(n as int) =~= numbers@);
}

/// A range that something is expected at.
#[derive(Clone, Copy, Debug, PartialEq)]
pub struct DepthPrior {
    pub id: u64,
    pub range: Real64,
    pub range_var: Real64,
}

impl Identified for DepthPrior {
    open spec fn id_of(self) -> u64 {
        self.id
    }

    fn id(&self) -> (r: u64) {
        self.id
    }
}

/// The words of priors: identifier, range and variance of each.
pub open spec fn prior_words(priors: Seq<DepthPrior>) -> Seq<u64>
    decreases priors.len(),
{
    if priors.len() == 0 {
        Seq::empty()
    } else {
        prior_words(priors.drop_last()) + seq![
            priors.last().id,
            priors.last().range.bits,
            priors.last().range_var.bits,
        ]
    }
}

/// The hash of a sequence of words.
pub open spec fn hash_of(order: ByteOrder, words: Seq<u64>) -> u64 {
    <DefaultHasher as vstd::std_specs::hash::DefaultHasherAdditionalSpecFns>::spec_finish(written(order, words))
}

/// The hash of priors in ascending order of their identifiers, whatever order they come in.
pub fn hash_depth_priors(order: ByteOrder, priors: &[DepthPrior]) -> (r: u64)
    ensures
        exists|sorted: Seq<DepthPrior>|
            #[trigger] crate::ordering::is_id_sorting_of(sorted, priors@) && r == hash_of(order, prior_words(sorted)),
{
    let sorted: Vec<DepthPrior> = sort_by_id(priors);
    let mut hasher: DefaultHasher = DefaultHasher::new();
    let n: usize = sorted.len();
    let mut i: usize = 0;
    assert(hasher@ =~= written(order, prior_words(sorted@.take(0))));
    while i < n
        invariant
            i <= n,
            n == sorted@.len(),
            hasher@ == written(order, prior_words(sorted@.take(i as int))),
        decreases n - i,
    {
        let prior: DepthPrior = sorted[i];
        hash_u64(&mut hasher, order, prior.id);
        hash_f64(&mut hasher, order, prior.range);
        hash_f64(&mut hasher, order, prior.range_var);
        proof {
            let next = sorted@.take(i + 1);
            assert(next.drop_last() =~= sorted@.take(i as int));
            assert(next.last() == prior);
        }
        i = i + 1;
        assert(hasher@ =~= written(order, prior_words(sorted@.take(i as int))));
    }
    assert(sorted@.take(n as int) =~= sorted@);
    hasher.finish()
}

/// The hash of the ranges that a sparse filter holds; that of nothing without a filter.
pub fn hash_sparse_filter(order: ByteOrder, features: Option<&[DepthPrior]>) -> (r: u64)
    ensures
        features is None ==> r == hash_of(order, Seq::empty()),
        features matches Some(f) ==> exists|sorted: Seq<DepthPrior>|
            #[trigger] crate::ordering::is_id_sorting_of(sorted, f@) && r == hash_of(order, prior_words(sorted)),
{
    match features {
        Some(f) => hash_depth_priors(order, f),
        None => {
            let hasher: DefaultHasher = DefaultHasher::new();
            assert(hasher@ =~= written(order, Seq::<u64>::empty()));
            hasher.finish()
        },
    }
}

/// A landmark of a state.
#[derive(Clone, Copy, Debug, PartialEq)]
pub struct HashedLandmark {
    pub id: u64,
    pub x: Real64,
    pub y: Real64,
    pub z: Real64,
}

/// The parts of a state that its hash depends on.
#[derive(Clone, Debug)]
pub struct HashedState {
    /// Attitude, as a quaternion with the scalar last.
    pub rotation: [Real64; 4],
    pub translation: [Real64; 3],
    pub velocity: [Real64; 3],
    pub input_bias: [Real64; 6],
    pub landmarks: Vec<HashedLandmark>,
}

/// The words of landmarks: identifier and coordinates of each.
pub open spec fn landmark_words(landmarks: Seq<HashedLandmark>) -> Seq<u64>
    decreases landmarks.len(),
{
    if landmarks.len() == 0 {
        Seq::empty()
    } else {
        landmark_words(landmarks.drop_last()) + seq![
            landmarks.last().id,
            landmarks.last().x.bits,
            landmarks.last().y.bits,
            landmarks.last().z.bits,
        ]
    }
}

/// The bits of numbers.
pub open spec fn bits_of(numbers: Seq<Real64>) -> Seq<u64> {
    numbers.map_values(|x: Real64| x.bits)
}

impl HashedState {
    /// The words of a state, in the order in which they are hashed.
    pub open spec fn words(self) -> Seq<u64> {
        bits_of(self.rotation@) + bits_of(self.translation@) + bits_of(self.velocity@) + bits_of(self.input_bias@)
            + landmark_words(self.landmarks@)
    }
}

/// The hash of a state.
pub fn hash_state(order: ByteOrder, state: &HashedState) -> (r: u64)
    ensures
        r == hash_of(order, state.words()),
{
    let mut hasher: DefaultHasher = DefaultHasher::new();
    hash_numbers(&mut hasher, order, &state.rotation);
    hash_numbers(&mut hasher, order, &state.translation);
    hash_numbers(&mut hasher, order, &state.velocity);
    hash_numbers(&mut hasher, order, &state.input_bias);
    let ghost head = bits_of(state.rotation@) + bits_of(state.translation@) + bits_of(state.velocity@) + bits_of(
        state.input_bias@,
    );
    assert(hasher@ =~= written(order, head));
    let n: usize = state.landmarks.len();
    let mut i: usize = 0;
    assert(hasher@ =~= written(order, head + landmark_words(state.landmarks@.take(0))));
    while i < n
        invariant
            i <= n,
            n == state.landmarks@.len(),
            hasher@ == written(order, head + landmark_words(state.landmarks@.take(i as int))),
        decreases n - i,
    {
        let landmark: HashedLandmark = state.landmarks[i];
        hash_u64(&mut hasher, order, landmark.id);
        hash_f64(&mut hasher, order, landmark.x);
        hash_f64(&mut hasher, order, landmark.y);
        hash_f64(&mut hasher, order, landmark.z);
        proof {
            let next = state.landmarks@.take(i + 1);
            assert(next.drop_last() =~= state.landmarks@.take(i as int));
            assert(next.last() == landmark);
        }
        i = i + 1;
        assert(hasher@ =~= written(order, head + landmark_words(state.landmarks@.take(i as int))));
    }
    assert(state.landmarks@.take(n as int) =~= state.landmarks@);
    hasher.finish()
}

/// The hash of priors does not depend on the order they come in: two arrangements of the same
/// priors, of which no two have the same identifier, are hashed as the same words.
pub proof fn law_hash_ignores_order(
    order: ByteOrder,
    a: Seq<DepthPrior>,
    b: Seq<DepthPrior>,
    x: Seq<DepthPrior>,
    y: Seq<DepthPrior>,
)
    requires
        a.to_multiset() == b.to_multiset(),
        crate::ordering::is_id_sorting_of(x, a),
        crate::ordering::is_id_sorting_of(y, b),
        crate::ordering::distinct_ids(x),
    ensures
        hash_of(order, prior_words(x)) == hash_of(order, prior_words(y)),
{
    crate::ordering::law_id_sorting_is_unique(x, y, a);
}

/// Priors are hashed one after the other, each by its identifier, its range and the variance of
/// its range.
pub proof fn law_priors_are_hashed_in_order(priors: Seq<DepthPrior>, k: int)
    requires
        0 <= k < priors.len(),
    ensures
        prior_words(priors).len() == 3 * priors.len(),
        prior_words(priors)[3 * k] == priors[k].id,
        prior_words(priors)[3 * k + 1] == priors[k].range.bits,
        prior_words(priors)[3 * k + 2] == priors[k].range_var.bits,
    decreases priors.len(),
{
    lemma_prior_words_len(priors.drop_last());
    if k < priors.len() - 1 {
        law_priors_are_hashed_in_order(priors.drop_last(), k);
    }
}

proof fn lemma_prior_words_len(priors: Seq<DepthPrior>)
    ensures
        prior_words(priors).len() == 3 * priors.len(),
    decreases priors.len(),
{
    if priors.len() > 0 {
        lemma_prior_words_len(priors.drop_last());
    }
}

proof fn lemma_landmark_words_len(landmarks: Seq<HashedLandmark>)
    ensures
        landmark_words(landmarks).len() == 4 * landmarks.len(),
    decreases landmarks.len(),
{
    if landmarks.len() > 0 {
        lemma_landmark_words_len(landmarks.drop_last());
    }
}

proof fn lemma_landmark_words(landmarks: Seq<HashedLandmark>, k: int)
    requires
        0 <= k < landmarks.len(),
    ensures
        landmark_words(landmarks).len() == 4 * landmarks.len(),
        landmark_words(landmarks)[4 * k] == landmarks[k].id,
        landmark_words(landmarks)[4 * k + 1] == landmarks[k].x.bits,
        landmark_words(landmarks)[4 * k + 2] == landmarks[k].y.bits,
        landmark_words(landmarks)[4 * k + 3] == landmarks[k].z.bits,
    decreases landmarks.len(),
{
    lemma_landmark_words_len(landmarks.drop_last());
    if k < landmarks.len() - 1 {
        lemma_landmark_words(landmarks.drop_last(), k);
    }
}

/// A state is hashed by its attitude, translation, velocity and input bias, and then landmark
/// by landmark: nothing of it is left out.
pub proof fn law_whole_state_is_hashed(state: HashedState, i: int, k: int)
    requires
        0 <= i < 6,
        0 <= k < state.landmarks@.len(),
    ensures
        state.words().len() == 16 + 4 * state.landmarks@.len(),
        i < 4 ==> state.words()[i] == state.rotation@[i].bits,
        i < 3 ==> state.words()[4 + i] == state.translation@[i].bits,
        i < 3 ==> state.words()[7 + i] == state.velocity@[i].bits,
        state.words()[10 + i] == state.input_bias@[i].bits,
        state.words()[16 + 4 * k] == state.landmarks@[k].id,
        state.words()[16 + 4 * k + 1] == state.landmarks@[k].x.bits,
        state.words()[16 + 4 * k + 2] == state.landmarks@[k].y.bits,
        state.words()[16 + 4 * k + 3] == state.landmarks@[k].z.bits,
{
    lemma_landmark_words(state.landmarks@, k);
}

/// The two orders of bytes are each other's reverse, and both have the eight bytes of a word.
pub proof fn law_byte_orders_are_reversed(x: u64, i: int)
    requires
        0 <= i < 8,
    ensures
        word(ByteOrder::LowestFirst, x).len() == 8,
        word(ByteOrder::HighestFirst, x).len() == 8,
        word(ByteOrder::HighestFirst, x)[i] == word(ByteOrder::LowestFirst, x)[7 - i],
        word(ByteOrder::LowestFirst, x)[0] == (x & 0xff) as u8,
{
    vstd::bytes::lemma_auto_spec_u64_to_from_le_bytes();
    vstd::bytes::spec_u64_to_le_bytes_to_open(x);
}

} // verus!
