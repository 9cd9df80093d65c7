//! The Euclidean suite: landmarks in Cartesian coordinates.
use vstd::prelude::*;
use crate::coordinate_suite::matrix::BlockMatrix;
use crate::coordinate_suite::{base_skew, is_within, StateError, SENSOR_DIM};
use crate::ieee::{real64, zero64, Real64};

verus! {

/// The squared distance below which a landmark is left out.
#[verifier::allow_in_spec]
pub fn least_range_squared() -> Real64
    returns
        (Real64 { bits: 0x3BC7_9CA1_0C92_4223 }),
{
    real64(0x3BC7_9CA1_0C92_4223)
}

/// The size of scale below which a landmark is left out.
#[verifier::allow_in_spec]
pub fn least_scale() -> Real64
    returns
        (Real64 { bits: 0x3D71_9799_812D_EA11 }),
{
    real64(0x3D71_9799_812D_EA11)
}

/// Whether a landmark's scale is finite and away from zero.
pub open spec fn usable_scale(scale: Real64) -> bool {
    scale.finite() && !crate::coordinate_suite::within(scale, least_scale())
}

/// Decides whether a landmark's scale is finite and away from zero.
pub fn is_usable_scale(scale: Real64) -> (r: bool)
    ensures
        r == usable_scale(scale),
{
    scale.is_finite() && !is_within(scale, least_scale())
}

/// What a landmark contributes to the matrices.
#[derive(Clone, Debug)]
pub struct LandmarkBlocks {
    /// Squared distance of the estimated landmark.
    pub range_squared: Real64,
    /// Scale of the landmark's group element.
    pub scale: Real64,
    /// Its rows under the gyroscope's input: three by three.
    pub input: BlockMatrix,
    /// Its rows under the velocity: three by three.
    pub velocity: BlockMatrix,
    /// Its rows under the camera offset: three by six.
    pub offset: BlockMatrix,
    /// Its rows under itself: three by three.
    pub own: BlockMatrix,
}

impl LandmarkBlocks {
    /// The blocks have their sizes.
    pub open spec fn wf(self) -> bool {
        &&& self.input.has_size(3, 3)
        &&& self.velocity.has_size(3, 3)
        &&& self.offset.has_size(3, 6)
        &&& self.own.has_size(3, 3)
    }

    /// Whether the landmark is away from the camera's centre and has a usable scale.
    pub open spec fn usable(self) -> bool {
        !self.range_squared.lt(least_range_squared()) && usable_scale(self.scale)
    }

    /// Decides whether the landmark is usable.
    pub fn is_usable(&self) -> (r: bool)
        ensures
            r == self.usable(),
    {
        !self.range_squared.less(least_range_squared()) && is_usable_scale(self.scale)
    }
}

/// What the sensor contributes to the input matrix.
#[derive(Clone, Debug)]
pub struct SensorInput {
    /// Noise of the biases: six by six.
    pub bias_noise: BlockMatrix,
    /// Attitude of the group element: three by three.
    pub rotation: BlockMatrix,
    /// Rows of the position under the gyroscope: three by three.
    pub position: BlockMatrix,
    /// Rows of the velocity under the gyroscope: three by three.
    pub velocity: BlockMatrix,
}

impl SensorInput {
    /// The blocks have their sizes.
    pub open spec fn wf(self) -> bool {
        &&& self.bias_noise.has_size(6, 6)
        &&& self.rotation.has_size(3, 3)
        &&& self.position.has_size(3, 3)
        &&& self.velocity.has_size(3, 3)
    }
}

/// All landmarks have blocks of the right sizes.
pub open spec fn landmarks_wf(landmarks: Seq<LandmarkBlocks>) -> bool {
    forall|k: int| 0 <= k < landmarks.len() ==> (#[trigger] landmarks[k]).wf()
}

/// The entry of the input matrix in the rows of the sensor.
pub open spec fn sensor_input_entry(sensor: SensorInput, i: int, j: int) -> Real64 {
    if crate::coordinate_suite::matrix::in_block(i, j, 0, 6, 6, 6) {
        sensor.bias_noise.at(i, j - 6)
    } else if crate::coordinate_suite::matrix::in_block(i, j, 6, 0, 3, 3) {
        sensor.rotation.at(i - 6, j)
    } else if crate::coordinate_suite::matrix::in_block(i, j, 9, 0, 3, 3) {
        sensor.position.at(i - 9, j)
    } else if crate::coordinate_suite::matrix::in_block(i, j, 12, 0, 3, 3) {
        sensor.velocity.at(i - 12, j)
    } else if crate::coordinate_suite::matrix::in_block(i, j, 12, 3, 3, 3) {
        sensor.rotation.at(i - 12, j - 3)
    } else {
        zero64()
    }
}

/// The entry of the input matrix.
pub open spec fn input_entry(sensor: SensorInput, landmarks: Seq<LandmarkBlocks>, i: int, j: int) -> Real64 {
    if i < SENSOR_DIM {
        sensor_input_entry(sensor, i, j)
    } else if j < 3 {
        landmarks[(i - 21) / 3].input.at((i - 21) % 3, j)
    } else {
        zero64()
    }
}

/// The entry of a landmark's rows under the velocity, the camera offset and itself, where
/// `own` is the landmark's first column.
pub open spec fn landmark_entry(landmark: LandmarkBlocks, own: int, i: int, j: int) -> Real64 {
    if !landmark.usable() {
        zero64()
    } else if 12 <= j < 15 {
        landmark.velocity.at(i, j - 12)
    } else if 15 <= j < 21 {
        landmark.offset.at(i, j - 15)
    } else if own <= j < own + 3 {
        landmark.own.at(i, j - own)
    } else {
        zero64()
    }
}

/// The entry of the state matrix in the rows of the sensor, from the columns of the input
/// matrix, the block of gravity and the block of the camera offset.
pub open spec fn sensor_state_entry(input: Real64, gravity: BlockMatrix, offset: BlockMatrix, i: int, j: int) -> Real64 {
    if j < 6 {
        input.negated()
    } else if crate::coordinate_suite::matrix::in_block(i, j, 9, 12, 3, 3) {
        crate::coordinate_suite::matrix::identity_entry(i - 9, j - 12)
    } else if crate::coordinate_suite::matrix::in_block(i, j, 12, 6, 3, 3) {
        gravity.at(i - 12, j - 6)
    } else if crate::coordinate_suite::matrix::in_block(i, j, 15, 15, 6, 6) {
        offset.at(i - 15, j - 15)
    } else {
        zero64()
    }
}

/// The entry of the state matrix with additive biases.
pub open spec fn state_entry(
    input: BlockMatrix,
    gravity: BlockMatrix,
    offset: BlockMatrix,
    landmarks: Seq<LandmarkBlocks>,
    i: int,
    j: int,
) -> Real64 {
    if i < SENSOR_DIM {
        sensor_state_entry(input.at(i, j), gravity, offset, i, j)
    } else if j < 6 {
        input.at(i, j).negated()
    } else {
        landmark_entry(landmarks[(i - 21) / 3], 21 + 3 * ((i - 21) / 3), (i - 21) % 3, j)
    }
}

/// The couplings that are written over the state matrix when the biases act on the pose.
#[derive(Clone, Copy, Debug, PartialEq, Eq, Structural)]
pub enum CouplingVariant {
    /// No further coupling.
    Plain,
    /// The position follows the attitude.
    Position,
    /// As before, and attitude and velocity decay.
    PositionAndDecay,
    /// Attitude and velocity decay.
    Decay,
    /// The attitude decays.
    AttitudeDecay,
    /// The velocity decays.
    VelocityDecay,
    /// Attitude and velocity follow the biases.
    BiasAdjoint,
}

impl CouplingVariant {
    /// The variant that a setting names.
    pub open spec fn named(text: Option<Seq<char>>) -> Self {
        match text {
            Some(t) => if t == "1"@ {
                CouplingVariant::Position
            } else if t == "2"@ {
                CouplingVariant::PositionAndDecay
            } else if t == "3"@ {
                CouplingVariant::Decay
            } else if t == "4"@ {
                CouplingVariant::AttitudeDecay
            } else if t == "5"@ {
                CouplingVariant::VelocityDecay
            } else if t == "6"@ {
                CouplingVariant::BiasAdjoint
            } else {
                CouplingVariant::Plain
            },
            None => CouplingVariant::Plain,
        }
    }

    /// The variant that a setting names; none without a setting or with another text.
    pub fn from_text(text: Option<&str>) -> (r: Self)
        ensures
            text is None ==> r == Self::named(None),
            text matches Some(t) ==> r == Self::named(Some(t@)),
    {
        match text {
            Some(t) => if crate::text::same_text(t, "1") {
                CouplingVariant::Position
            } else if crate::text::same_text(t, "2") {
                CouplingVariant::PositionAndDecay
            } else if crate::text::same_text(t, "3") {
                CouplingVariant::Decay
            } else if crate::text::same_text(t, "4") {
                CouplingVariant::AttitudeDecay
            } else if crate::text::same_text(t, "5") {
                CouplingVariant::VelocityDecay
            } else if crate::text::same_text(t, "6") {
                CouplingVariant::BiasAdjoint
            } else {
                CouplingVariant::Plain
            },
            None => CouplingVariant::Plain,
        }
    }

    /// Whether the position follows the attitude.
    pub open spec fn position(self) -> bool {
        self == CouplingVariant::Position || self == CouplingVariant::PositionAndDecay
    }

    /// Whether the attitude decays.
    pub open spec fn attitude_decays(self) -> bool {
        self == CouplingVariant::PositionAndDecay || self == CouplingVariant::Decay || self
            == CouplingVariant::AttitudeDecay
    }

    /// Whether the velocity decays.
    pub open spec fn velocity_decays(self) -> bool {
        self == CouplingVariant::PositionAndDecay || self == CouplingVariant::Decay || self
            == CouplingVariant::VelocityDecay
    }

    /// Whether decays are written, and the coupling of the position is not.
    pub open spec fn only_decays(self) -> bool {
        self == CouplingVariant::Decay || self == CouplingVariant::AttitudeDecay || self
            == CouplingVariant::VelocityDecay
    }
}

/// What is written over the state matrix when the biases act on the pose.
#[derive(Clone, Debug)]
pub struct SemiDirectBlocks {
    /// The columns of the biases, transported: as many rows as the matrix, six columns.
    pub bias_columns: BlockMatrix,
    /// The biases under themselves: six by six.
    pub bias_bias: BlockMatrix,
    /// The biases under the attitude: six by three.
    pub bias_attitude: BlockMatrix,
    pub variant: CouplingVariant,
    /// The position under the attitude: three by three.
    pub position_attitude: BlockMatrix,
    /// The bias of the gyroscope.
    pub gyro_bias: [Real64; 3],
    /// The velocity under the attitude with the bias of the accelerometer: three by three.
    pub velocity_attitude: BlockMatrix,
}

impl SemiDirectBlocks {
    /// The blocks have their sizes.
    pub open spec fn wf(self, dim: int) -> bool {
        &&& self.bias_columns.has_size(dim, 6)
        &&& self.bias_bias.has_size(6, 6)
        &&& self.bias_attitude.has_size(6, 3)
        &&& self.position_attitude.has_size(3, 3)
        &&& self.velocity_attitude.has_size(3, 3)
    }
}

/// The entry of the state matrix when the biases act on the pose, from the entry without.
pub open spec fn semi_direct_entry(plain: Real64, blocks: SemiDirectBlocks, i: int, j: int) -> Real64 {
    let v = blocks.variant;
    if i < 6 {
        if j < 6 {
            blocks.bias_bias.at(i, j)
        } else if j < 9 {
            blocks.bias_attitude.at(i, j - 6)
        } else {
            zero64()
        }
    } else if j < 6 {
        blocks.bias_columns.at(i, j)
    } else if crate::coordinate_suite::matrix::in_block(i, j, 9, 6, 3, 3) && v.position() {
        blocks.position_attitude.at(i - 9, j - 6)
    } else if crate::coordinate_suite::matrix::in_block(i, j, 9, 6, 3, 3) && v.only_decays() {
        zero64()
    } else if crate::coordinate_suite::matrix::in_block(i, j, 6, 6, 3, 3) && v.attitude_decays() {
        crate::coordinate_suite::matrix::identity_entry(i - 6, j - 6).negated()
    } else if crate::coordinate_suite::matrix::in_block(i, j, 12, 12, 3, 3) && v.velocity_decays() {
        crate::coordinate_suite::matrix::identity_entry(i - 12, j - 12).negated()
    } else if crate::coordinate_suite::matrix::in_block(i, j, 6, 6, 3, 3) && v == CouplingVariant::BiasAdjoint {
        crate::coordinate_suite::skew_entry(blocks.gyro_bias@, i - 6, j - 6).negated()
    } else if crate::coordinate_suite::matrix::in_block(i, j, 12, 12, 3, 3) && v == CouplingVariant::BiasAdjoint {
        crate::coordinate_suite::skew_entry(blocks.gyro_bias@, i - 12, j - 12).negated()
    } else if crate::coordinate_suite::matrix::in_block(i, j, 12, 6, 3, 3) && v == CouplingVariant::BiasAdjoint {
        blocks.velocity_attitude.at(i - 12, j - 6)
    } else {
        plain
    }
}

/// The entry of the state matrix with the identity as coupling of the biases to attitude
/// and velocity, from the entry without; `translation` is that of the group element.
pub open spec fn flattened_entry(plain: Real64, translation: Seq<Real64>, i: int, j: int) -> Real64 {
    if j < 6 && 6 <= i < 15 {
        if i < 9 {
            crate::coordinate_suite::matrix::identity_entry(i - 6, j)
        } else if i < 12 {
            if j < 3 {
                crate::coordinate_suite::skew_entry(translation, i - 9, j)
            } else {
                zero64()
            }
        } else {
            crate::coordinate_suite::matrix::identity_entry(i - 12, j - 3)
        }
    } else {
        plain
    }
}

/// The entry of the state matrix after both optional steps.
pub open spec fn finished_entry(
    plain: Real64,
    semi_direct: Option<SemiDirectBlocks>,
    flatten: Option<[Real64; 3]>,
    i: int,
    j: int,
) -> Real64 {
    let coupled = match semi_direct {
        Some(blocks) => semi_direct_entry(plain, blocks, i, j),
        None => plain,
    };
    match flatten {
        Some(translation) => flattened_entry(coupled, translation@, i, j),
        None => coupled,
    }
}

/// The matrices of one propagation step, landmark by landmark.
#[derive(Clone, Debug)]
pub struct RiccatiPropagationBlocks {
    /// State matrix of the sensor.
    pub a_ss: BlockMatrix,
    /// Rows of the landmarks under the sensor.
    pub a_lm_s: BlockMatrix,
    /// Rows of each landmark under itself.
    pub a_lm_lm: Vec<BlockMatrix>,
    /// Input matrix of the sensor.
    pub b_s: BlockMatrix,
    /// Rows of the landmarks in the input matrix.
    pub b_lm: BlockMatrix,
}

impl RiccatiPropagationBlocks {
    /// The blocks have the sizes for `n` landmarks.
    pub open spec fn wf(self, n: int) -> bool {
        &&& self.a_ss.has_size(21, 21)
        &&& self.a_lm_s.has_size(3 * n, 21)
        &&& self.a_lm_lm@.len() == n
        &&& forall|k: int| 0 <= k < n ==> (#[trigger] self.a_lm_lm@[k]).has_size(3, 3)
        &&& self.b_s.has_size(21, 12)
        &&& self.b_lm.has_size(3 * n, 12)
    }
}

/// The entry of the landmarks' rows under the sensor.
pub open spec fn landmark_sensor_entry(landmarks: Seq<LandmarkBlocks>, i: int, j: int) -> Real64 {
    let landmark = landmarks[i / 3];
    if j < 3 {
        landmark.input.at(i % 3, j).negated()
    } else {
        landmark_entry(landmark, 21, i % 3, j)
    }
}

/// The entry of a landmark's rows under itself.
pub open spec fn own_entry(landmark: LandmarkBlocks, i: int, j: int) -> Real64 {
    if landmark.usable() {
        landmark.own.at(i, j)
    } else {
        zero64()
    }
}

/// Landmarks in Cartesian coordinates.
#[derive(Clone, Copy, Debug, PartialEq, Eq, Structural)]
pub struct EuclideanSuite;

impl EuclideanSuite {
    /// The rows of the sensor in the input matrix, above as many rows of zeros as there are
    /// coordinates of landmarks.
    fn sensor_input(&self, sensor: &SensorInput, n: usize) -> (m: BlockMatrix)
        requires
            sensor.wf(),
            (SENSOR_DIM + 3 * n) * 12 <= usize::MAX,
        ensures
            m.has_size(SENSOR_DIM + 3 * n, 12),
            forall|i: int, j: int|
                0 <= i < SENSOR_DIM + 3 * n && 0 <= j < 12 ==> #[trigger] m.at(i, j) == (if i < SENSOR_DIM {
                    sensor_input_entry(*sensor, i, j)
                } else {
                    zero64()
                }),
    {
        let mut m: BlockMatrix = BlockMatrix::zeros(SENSOR_DIM + 3 * n, 12);
        m.set_block(0, 6, &sensor.bias_noise);
        m.set_block(6, 0, &sensor.rotation);
        m.set_block(9, 0, &sensor.position);
        m.set_block(12, 0, &sensor.velocity);
        m.set_block(12, 3, &sensor.rotation);
        m
    }

    /// The input matrix.
    pub fn input_matrix_b(&self, sensor: &SensorInput, landmarks: &[LandmarkBlocks]) -> (m: BlockMatrix)
        requires
            sensor.wf(),
            landmarks_wf(landmarks@),
            (SENSOR_DIM + 3 * landmarks@.len()) * 12 <= usize::MAX,
        ensures
            m.has_size(SENSOR_DIM + 3 * landmarks@.len(), 12),
            forall|i: int, j: int|
                0 <= i < SENSOR_DIM + 3 * landmarks@.len() && 0 <= j < 12 ==> #[trigger] m.at(i, j) == input_entry(
                    *sensor,
                    landmarks@,
                    i,
                    j,
                ),
    {
        let n: usize = landmarks.len();
        let mut m: BlockMatrix = self.sensor_input(sensor, n);
        let mut k: usize = 0;
        while k < n
            invariant
                k <= n,
                n == landmarks@.len(),
                landmarks_wf(landmarks@),
                (SENSOR_DIM + 3 * n) * 12 <= usize::MAX,
                m.has_size(SENSOR_DIM + 3 * n, 12),
                forall|i: int, j: int|
                    0 <= i < SENSOR_DIM + 3 * n && 0 <= j < 12 ==> #[trigger] m.at(i, j) == (if i < SENSOR_DIM + 3
                        * k {
                        input_entry(*sensor, landmarks@, i, j)
                    } else {
                        zero64()
                    }),
            decreases n - k,
        {
            let ghost before = m;
            m.set_block(SENSOR_DIM + 3 * k, 0, &landmarks[k].input);
            assert forall|i: int, j: int| 0 <= i < SENSOR_DIM + 3 * n && 0 <= j < 12 implies #[trigger] m.at(i, j) == (
            if i < SENSOR_DIM + 3 * (k + 1) {
                input_entry(*sensor, landmarks@, i, j)
            } else {
                zero64()
            }) by {
                assert(before.at(i, j) == before.at(i, j));
                if SENSOR_DIM + 3 * k <= i < SENSOR_DIM + 3 * (k + 1) {
                    assert((i - 21) / 3 == k);
                    assert((i - 21) % 3 == i - 21 - 3 * k);
                }
            }
            k = k + 1;
        }
        m
    }

    /// The state matrix with additive biases, from the input matrix, the block of gravity and
    /// the block of the camera offset.
    pub fn additive_state_matrix(
        &self,
        input: &BlockMatrix,
        gravity: &BlockMatrix,
        offset: &BlockMatrix,
        landmarks: &[LandmarkBlocks],
    ) -> (m: BlockMatrix)
        requires
            input.has_size(SENSOR_DIM + 3 * landmarks@.len(), 12),
            gravity.has_size(3, 3),
            offset.has_size(6, 6),
            landmarks_wf(landmarks@),
            (SENSOR_DIM + 3 * landmarks@.len()) * (SENSOR_DIM + 3 * landmarks@.len()) <= usize::MAX,
        ensures
            m.has_size(SENSOR_DIM + 3 * landmarks@.len(), SENSOR_DIM + 3 * landmarks@.len()),
            forall|i: int, j: int|
                0 <= i < SENSOR_DIM + 3 * landmarks@.len() && 0 <= j < SENSOR_DIM + 3 * landmarks@.len()
                    ==> #[trigger] m.at(i, j) == state_entry(*input, *gravity, *offset, landmarks@, i, j),
    {
        let n: usize = landmarks.len();
        proof {
            input.lemma_size();
        }
        let dim: usize = SENSOR_DIM + 3 * n;
        let mut m: BlockMatrix = BlockMatrix::zeros(dim, dim);
        let bias: BlockMatrix = input.block(0, 0, dim, 6).negated();
        m.set_block(0, 0, &bias);
        m.set_block(9, 12, &BlockMatrix::identity(3));
        m.set_block(12, 6, gravity);
        m.set_block(15, 15, offset);
        let mut k: usize = 0;
        while k < n
            invariant
                k <= n,
                n == landmarks@.len(),
                dim == SENSOR_DIM + 3 * n,
                landmarks_wf(landmarks@),
                m.has_size(dim as int, dim as int),
                forall|i: int, j: int|
                    0 <= i < dim && 0 <= j < dim ==> #[trigger] m.at(i, j) == (if i < SENSOR_DIM + 3 * k || j < 6 {
                        state_entry(*input, *gravity, *offset, landmarks@, i, j)
                    } else {
                        zero64()
                    }),
            decreases n - k,
        {
            let ghost before = m;
            let row: usize = SENSOR_DIM + 3 * k;
            let landmark: &LandmarkBlocks = &landmarks[k];
            if landmark.is_usable() {
                m.set_block(row, 12, &landmark.velocity);
                m.set_block(row, 15, &landmark.offset);
                m.set_block(row, row, &landmark.own);
            }
            assert forall|i: int, j: int| 0 <= i < dim && 0 <= j < dim implies #[trigger] m.at(i, j) == (if i
                < SENSOR_DIM + 3 * (k + 1) || j < 6 {
                state_entry(*input, *gravity, *offset, landmarks@, i, j)
            } else {
                zero64()
            }) by {
                assert(before.at(i, j) == before.at(i, j));
                if row <= i < row + 3 {
                    assert((i - 21) / 3 == k);
                    assert((i - 21) % 3 == i - row);
                }
            }
            k = k + 1;
        }
        m
    }

    /// Writes the couplings of biases that act on the pose over a state matrix.
    fn couple_biases(&self, m: &mut BlockMatrix, blocks: &SemiDirectBlocks)
        requires
            old(m).wf(),
            old(m).height() >= SENSOR_DIM,
            old(m).width() == old(m).height(),
            blocks.wf(old(m).height() as int),
        ensures
            final(m).has_size(old(m).height() as int, old(m).width() as int),
            forall|i: int, j: int|
                0 <= i < old(m).height() && 0 <= j < old(m).width() ==> #[trigger] final(m).at(i, j)
                    == semi_direct_entry(old(m).at(i, j), *blocks, i, j),
    {
        let ghost before = *m;
        proof {
            m.lemma_size();
            assert(6 * m.width() <= m.height() * m.width()) by (nonlinear_arith)
                requires
                    m.height() >= 6,
            ;
        }
        let dim: usize = m.column_count();
        m.set_block(0, 0, &blocks.bias_columns);
        m.set_block(0, 0, &BlockMatrix::zeros(6, dim));
        m.set_block(0, 0, &blocks.bias_bias);
        m.set_block(0, 6, &blocks.bias_attitude);
        let v: CouplingVariant = blocks.variant;
        let zeros: BlockMatrix = BlockMatrix::zeros(3, 3);
        let decay: BlockMatrix = BlockMatrix::identity(3).negated();
        let ghost first = *m;
        match v {
            CouplingVariant::Plain => {},
            CouplingVariant::Position => {
                m.set_block(9, 6, &blocks.position_attitude);
            },
            CouplingVariant::PositionAndDecay => {
                m.set_block(9, 6, &blocks.position_attitude);
                m.set_block(6, 6, &decay);
                m.set_block(12, 12, &decay);
            },
            CouplingVariant::Decay => {
                m.set_block(6, 6, &decay);
                m.set_block(12, 12, &decay);
                m.set_block(9, 6, &zeros);
            },
            CouplingVariant::AttitudeDecay => {
                m.set_block(6, 6, &decay);
                m.set_block(9, 6, &zeros);
            },
            CouplingVariant::VelocityDecay => {
                m.set_block(12, 12, &decay);
                m.set_block(9, 6, &zeros);
            },
            CouplingVariant::BiasAdjoint => {
                let follow: BlockMatrix = base_skew(&blocks.gyro_bias).negated();
                m.set_block(6, 6, &follow);
                m.set_block(12, 12, &follow);
                m.set_block(12, 6, &blocks.velocity_attitude);
            },
        }
        assert forall|i: int, j: int| 0 <= i < before.height() && 0 <= j < before.width() implies #[trigger] m.at(i, j)
            == semi_direct_entry(before.at(i, j), *blocks, i, j) by {
            assert(first.at(i, j) == first.at(i, j));
        }
    }

    /// Writes the identity as coupling of the biases to attitude and velocity.
    fn flatten_biases(&self, m: &mut BlockMatrix, translation: &[Real64; 3])
        requires
            old(m).wf(),
            old(m).height() >= SENSOR_DIM,
            old(m).width() == old(m).height(),
        ensures
            final(m).has_size(old(m).height() as int, old(m).width() as int),
            forall|i: int, j: int|
                0 <= i < old(m).height() && 0 <= j < old(m).width() ==> #[trigger] final(m).at(i, j)
                    == flattened_entry(old(m).at(i, j), translation@, i, j),
    {
        let zeros: BlockMatrix = BlockMatrix::zeros(3, 3);
        let identity: BlockMatrix = BlockMatrix::identity(3);
        m.set_block(6, 0, &identity);
        m.set_block(6, 3, &zeros);
        m.set_block(12, 0, &zeros);
        m.set_block(12, 3, &identity);
        m.set_block(9, 0, &base_skew(translation));
        m.set_block(9, 3, &zeros);
    }

    /// The state matrix, from the one with additive biases: where the biases act on the pose
    /// with their couplings, and on request with the identity as coupling of the biases to
    /// attitude and velocity.
    pub fn state_matrix_a(
        &self,
        additive: BlockMatrix,
        semi_direct: Option<&SemiDirectBlocks>,
        flatten: Option<[Real64; 3]>,
    ) -> (m: BlockMatrix)
        requires
            additive.wf(),
            additive.height() >= SENSOR_DIM,
            additive.width() == additive.height(),
            semi_direct matches Some(blocks) ==> blocks.wf(additive.height() as int),
        ensures
            m.has_size(additive.height() as int, additive.width() as int),
            forall|i: int, j: int|
                0 <= i < additive.height() && 0 <= j < additive.width() ==> #[trigger] m.at(i, j) == finished_entry(
                    additive.at(i, j),
                    match semi_direct {
                        Some(blocks) => Some(*blocks),
                        None => None,
                    },
                    flatten,
                    i,
                    j,
                ),
    {
        let mut m: BlockMatrix = additive;
        if let Some(blocks) = semi_direct {
            self.couple_biases(&mut m, blocks);
        }
        let ghost coupled = m;
        if let Some(translation) = flatten {
            self.flatten_biases(&mut m, &translation);
        }
        assert forall|i: int, j: int| 0 <= i < additive.height() && 0 <= j < additive.width() implies #[trigger] m.at(
            i,
            j,
        ) == finished_entry(
            additive.at(i, j),
            match semi_direct {
                Some(blocks) => Some(*blocks),
                None => None,
            },
            flatten,
            i,
            j,
        ) by {
            assert(coupled.at(i, j) == coupled.at(i, j));
        }
        m
    }

    /// The rows of the landmarks under the sensor, and in the input matrix.
    fn landmark_rows(&self, landmarks: &[LandmarkBlocks]) -> (r: (BlockMatrix, Vec<BlockMatrix>, BlockMatrix))
        requires
            landmarks_wf(landmarks@),
            3 * landmarks@.len() * 21 <= usize::MAX,
        ensures
            r.0.has_size(3 * landmarks@.len() as int, 21),
            forall|i: int, j: int|
                0 <= i < 3 * landmarks@.len() && 0 <= j < 21 ==> #[trigger] r.0.at(i, j) == landmark_sensor_entry(
                    landmarks@,
                    i,
                    j,
                ),
            r.1@.len() == landmarks@.len(),
            forall|k: int| 0 <= k < landmarks@.len() ==> (#[trigger] r.1@[k]).has_size(3, 3),
            forall|k: int, i: int, j: int|
                0 <= k < landmarks@.len() && 0 <= i < 3 && 0 <= j < 3 ==> #[trigger] r.1@[k].at(i, j) == own_entry(
                    landmarks@[k],
                    i,
                    j,
                ),
            r.2.has_size(3 * landmarks@.len() as int, 12),
            forall|i: int, j: int|
                0 <= i < 3 * landmarks@.len() && 0 <= j < 12 ==> #[trigger] r.2.at(i, j) == input_entry_of_landmark(
                    landmarks@,
                    i,
                    j,
                ),
    {
        let n: usize = landmarks.len();
        let mut a_lm_s: BlockMatrix = BlockMatrix::zeros(3 * n, SENSOR_DIM);
        let mut a_lm_lm: Vec<BlockMatrix> = Vec::new();
        let mut b_lm: BlockMatrix = BlockMatrix::zeros(3 * n, 12);
        let mut k: usize = 0;
        while k < n
            invariant
                k <= n,
                n == landmarks@.len(),
                3 * n * 21 <= usize::MAX,
                landmarks_wf(landmarks@),
                a_lm_s.has_size(3 * n, 21),
                forall|i: int, j: int|
                    0 <= i < 3 * n && 0 <= j < 21 ==> #[trigger] a_lm_s.at(i, j) == (if i < 3 * k {
                        landmark_sensor_entry(landmarks@, i, j)
                    } else {
                        zero64()
                    }),
                a_lm_lm@.len() == k,
                forall|l: int| 0 <= l < k ==> (#[trigger] a_lm_lm@[l]).has_size(3, 3),
                forall|l: int, i: int, j: int|
                    0 <= l < k && 0 <= i < 3 && 0 <= j < 3 ==> #[trigger] a_lm_lm@[l].at(i, j) == own_entry(
                        landmarks@[l],
                        i,
                        j,
                    ),
                b_lm.has_size(3 * n, 12),
                forall|i: int, j: int|
                    0 <= i < 3 * n && 0 <= j < 12 ==> #[trigger] b_lm.at(i, j) == (if i < 3 * k {
                        input_entry_of_landmark(landmarks@, i, j)
                    } else {
                        zero64()
                    }),
            decreases n - k,
        {
            let ghost a_before = a_lm_s;
            let ghost b_before = b_lm;
            let row: usize = 3 * k;
            let landmark: &LandmarkBlocks = &landmarks[k];
            b_lm.set_block(row, 0, &landmark.input);
            a_lm_s.set_block(row, 0, &landmark.input.negated());
            if landmark.is_usable() {
                a_lm_s.set_block(row, 12, &landmark.velocity);
                a_lm_s.set_block(row, 15, &landmark.offset);
                a_lm_lm.push(landmark.own.block(0, 0, 3, 3));
            } else {
                a_lm_lm.push(BlockMatrix::zeros(3, 3));
            }
            assert forall|i: int, j: int| 0 <= i < 3 * n && 0 <= j < 21 implies #[trigger] a_lm_s.at(i, j) == (if i
                < 3 * (k + 1) {
                landmark_sensor_entry(landmarks@, i, j)
            } else {
                zero64()
            }) by {
                assert(a_before.at(i, j) == a_before.at(i, j));
                if row <= i < row + 3 {
                    assert(i / 3 == k && i % 3 == i - row);
                }
            }
            assert forall|i: int, j: int| 0 <= i < 3 * n && 0 <= j < 12 implies #[trigger] b_lm.at(i, j) == (if i
                < 3 * (k + 1) {
                input_entry_of_landmark(landmarks@, i, j)
            } else {
                zero64()
            }) by {
                assert(b_before.at(i, j) == b_before.at(i, j));
                if row <= i < row + 3 {
                    assert(i / 3 == k && i % 3 == i - row);
                }
            }
            k = k + 1;
        }
        (a_lm_s, a_lm_lm, b_lm)
    }

    /// The matrices of one propagation step. Where the biases act on the pose, the blocks of
    /// the state matrix are taken from `semi_direct`.
    pub fn propagation_blocks(
        &self,
        sensor: &SensorInput,
        gravity: &BlockMatrix,
        offset: &BlockMatrix,
        landmarks: &[LandmarkBlocks],
        semi_direct: Option<&BlockMatrix>,
    ) -> (r: RiccatiPropagationBlocks)
        requires
            sensor.wf(),
            gravity.has_size(3, 3),
            offset.has_size(6, 6),
            landmarks_wf(landmarks@),
            (SENSOR_DIM + 3 * landmarks@.len()) * 21 <= usize::MAX,
            semi_direct matches Some(a) ==> a.has_size(
                SENSOR_DIM + 3 * landmarks@.len(),
                SENSOR_DIM + 3 * landmarks@.len(),
            ),
        ensures
            r.wf(landmarks@.len() as int),
            forall|i: int, j: int|
                0 <= i < 21 && 0 <= j < 12 ==> #[trigger] r.b_s.at(i, j) == sensor_input_entry(*sensor, i, j),
            forall|i: int, j: int|
                0 <= i < 3 * landmarks@.len() && 0 <= j < 12 ==> #[trigger] r.b_lm.at(i, j)
                    == input_entry_of_landmark(landmarks@, i, j),
            semi_direct is None ==> {
                &&& forall|i: int, j: int|
                    0 <= i < 21 && 0 <= j < 21 ==> #[trigger] r.a_ss.at(i, j) == sensor_state_entry(
                        sensor_input_entry(*sensor, i, j),
                        *gravity,
                        *offset,
                        i,
                        j,
                    )
                &&& forall|i: int, j: int|
                    0 <= i < 3 * landmarks@.len() && 0 <= j < 21 ==> #[trigger] r.a_lm_s.at(i, j)
                        == landmark_sensor_entry(landmarks@, i, j)
                &&& forall|k: int, i: int, j: int|
                    0 <= k < landmarks@.len() && 0 <= i < 3 && 0 <= j < 3 ==> #[trigger] r.a_lm_lm@[k].at(i, j)
                        == own_entry(landmarks@[k], i, j)
            },
            semi_direct matches Some(a) ==> {
                &&& forall|i: int, j: int| 0 <= i < 21 && 0 <= j < 21 ==> #[trigger] r.a_ss.at(i, j) == a.at(i, j)
                &&& forall|i: int, j: int|
                    0 <= i < 3 * landmarks@.len() && 0 <= j < 21 ==> #[trigger] r.a_lm_s.at(i, j) == a.at(21 + i, j)
                &&& forall|k: int, i: int, j: int|
                    0 <= k < landmarks@.len() && 0 <= i < 3 && 0 <= j < 3 ==> #[trigger] r.a_lm_lm@[k].at(i, j)
                        == a.at(21 + 3 * k + i, 21 + 3 * k + j)
            },
    {
        let n: usize = landmarks.len();
        let b_s: BlockMatrix = self.sensor_input(sensor, 0);
        let (own_rows, own_blocks, b_lm) = self.landmark_rows(landmarks);
        match semi_direct {
            None => {
                let mut a_ss: BlockMatrix = BlockMatrix::zeros(21, 21);
                let bias: BlockMatrix = b_s.block(0, 0, 21, 6).negated();
                a_ss.set_block(0, 0, &bias);
                a_ss.set_block(9, 12, &BlockMatrix::identity(3));
                a_ss.set_block(12, 6, gravity);
                a_ss.set_block(15, 15, offset);
                RiccatiPropagationBlocks { a_ss, a_lm_s: own_rows, a_lm_lm: own_blocks, b_s, b_lm }
            },
            Some(a) => {
                let mut a_lm_lm: Vec<BlockMatrix> = Vec::new();
                let mut k: usize = 0;
                while k < n
                    invariant
                        k <= n,
                        n == landmarks@.len(),
                        (SENSOR_DIM + 3 * n) * 21 <= usize::MAX,
                        a.has_size(SENSOR_DIM + 3 * n, SENSOR_DIM + 3 * n),
                        a_lm_lm@.len() == k,
                        forall|l: int| 0 <= l < k ==> (#[trigger] a_lm_lm@[l]).has_size(3, 3),
                        forall|l: int, i: int, j: int|
                            0 <= l < k && 0 <= i < 3 && 0 <= j < 3 ==> #[trigger] a_lm_lm@[l].at(i, j) == a.at(
                                21 + 3 * l + i,
                                21 + 3 * l + j,
                            ),
                    decreases n - k,
                {
                    let row: usize = SENSOR_DIM + 3 * k;
                    a_lm_lm.push(a.block(row, row, 3, 3));
                    k = k + 1;
                }
                RiccatiPropagationBlocks {
                    a_ss: a.block(0, 0, 21, 21),
                    a_lm_s: a.block(21, 0, 3 * n, 21),
                    a_lm_lm,
                    b_s,
                    b_lm,
                }
            },
        }
    }

    /// The part of a lifted innovation that moves the velocity, from the negated velocity
    /// innovation and the same with the turned velocity taken away: the former where the
    /// group action itself turns the velocity.
    pub fn lifted_velocity(&self, keep_turn: bool, straight: [Real64; 3], turned: [Real64; 3]) -> (r: [Real64; 3])
        ensures
            r@ == (if keep_turn {
                straight@
            } else {
                turned@
            }),
    {
        if keep_turn {
            straight
        } else {
            turned
        }
    }

    /// The algebra element that an innovation lifts to: the innovation of the biases and of
    /// the pose as they are, what the caller computed of the others, and the identifiers of
    /// the landmarks in their order.
    pub fn lift_innovation(
        &self,
        innovation: &StateError,
        offset: [Real64; 6],
        velocity: [Real64; 3],
        landmarks: Vec<[Real64; 4]>,
        ids: &[u64],
    ) -> (r: LiftedInnovation)
        requires
            landmarks@.len() == ids@.len(),
            innovation.landmarks@.len() == ids@.len(),
        ensures
            r.bias@ == innovation.bias@,
            r.pose@ == innovation.pose@,
            r.offset@ == offset@,
            r.velocity@ == velocity@,
            r.landmarks@ == landmarks@,
            r.ids@ == ids@,
    {
        let mut kept: Vec<u64> = Vec::new();
        let mut i: usize = 0;
        while i < ids.len()
            invariant
                i <= ids@.len(),
                kept@ == ids@.take(i as int),
            decreases ids@.len() - i,
        {
            kept.push(ids[i]);
            assert(kept@ =~= ids@.take(i + 1));
            i = i + 1;
        }
        assert(kept@ =~= ids@);
        LiftedInnovation {
            bias: innovation.bias,
            pose: innovation.pose,
            offset,
            velocity,
            landmarks,
            ids: kept,
        }
    }
}

/// An element of the algebra that moves the filter state.
#[derive(Clone, Debug)]
pub struct LiftedInnovation {
    pub bias: [Real64; 6],
    pub pose: [Real64; 6],
    pub offset: [Real64; 6],
    pub velocity: [Real64; 3],
    pub landmarks: Vec<[Real64; 4]>,
    pub ids: Vec<u64>,
}

/// The entry of a landmark's rows in the input matrix.
pub open spec fn input_entry_of_landmark(landmarks: Seq<LandmarkBlocks>, i: int, j: int) -> Real64 {
    if j < 3 {
        landmarks[i / 3].input.at(i % 3, j)
    } else {
        zero64()
    }
}

/// The sensor does not depend on the landmarks, and no landmark depends on another one: with
/// or without the couplings of the biases these entries of the state matrix are zero.
pub proof fn law_landmarks_do_not_couple(
    input: BlockMatrix,
    gravity: BlockMatrix,
    offset: BlockMatrix,
    landmarks: Seq<LandmarkBlocks>,
    semi_direct: Option<SemiDirectBlocks>,
    flatten: Option<[Real64; 3]>,
    i: int,
    j: int,
)
    requires
        0 <= i < SENSOR_DIM + 3 * landmarks.len(),
        SENSOR_DIM <= j < SENSOR_DIM + 3 * landmarks.len(),
        i < SENSOR_DIM || (i - SENSOR_DIM) / 3 != (j - SENSOR_DIM) / 3,
    ensures
        finished_entry(state_entry(input, gravity, offset, landmarks, i, j), semi_direct, flatten, i, j) == zero64(),
{
    if i >= SENSOR_DIM {
        let k = (i - 21) / 3;
        if 21 + 3 * k <= j < 21 + 3 * k + 3 {
            assert((j - 21) / 3 == k);
        }
    }
}

/// Whether two numbers are the same, or both zero.
pub open spec fn same_number(a: Real64, b: Real64) -> bool {
    a == b || (a.value() == 0 && b.value() == 0 && a.finite() && b.finite())
}

/// With additive biases the blocks of a propagation step are those of the state matrix: each
/// of their entries is the same number as the entry of the state matrix in its place.
pub proof fn law_blocks_are_the_matrix(
    sensor: SensorInput,
    input: BlockMatrix,
    gravity: BlockMatrix,
    offset: BlockMatrix,
    landmarks: Seq<LandmarkBlocks>,
    i: int,
    j: int,
)
    requires
        forall|a: int, b: int|
            0 <= a < SENSOR_DIM + 3 * landmarks.len() && 0 <= b < 12 ==> #[trigger] input.at(a, b) == input_entry(
                sensor,
                landmarks,
                a,
                b,
            ),
        0 <= i < SENSOR_DIM + 3 * landmarks.len(),
        0 <= j < SENSOR_DIM,
    ensures
        i < SENSOR_DIM ==> state_entry(input, gravity, offset, landmarks, i, j) == sensor_state_entry(
            sensor_input_entry(sensor, i, j),
            gravity,
            offset,
            i,
            j,
        ),
        i >= SENSOR_DIM ==> same_number(
            state_entry(input, gravity, offset, landmarks, i, j),
            landmark_sensor_entry(landmarks, i - 21, j),
        ),
        i >= SENSOR_DIM && j < 3 ==> state_entry(
            input,
            gravity,
            offset,
            landmarks,
            i,
            21 + 3 * ((i - 21) / 3) + j,
        ) == own_entry(landmarks[(i - 21) / 3], (i - 21) % 3, j),
{
    if j < 12 {
        assert(input.at(i, j) == input_entry(sensor, landmarks, i, j));
    }
    zero64().lemma_negation();
}

/// The sensor's rows of the input matrix, by rows and columns: the gyroscope enters attitude,
/// position and velocity, the accelerometer the velocity alone, the noise of the biases the
/// biases alone; nothing enters the camera offset.
pub proof fn law_inputs_enter_their_rows(sensor: SensorInput, i: int, j: int)
    requires
        0 <= i < 21,
        0 <= j < 12,
    ensures
        ({
            let entry = sensor_input_entry(sensor, i, j);
            &&& j < 3 && (i < 6 || i >= 15) ==> entry.bits == 0
            &&& 3 <= j < 6 && (i < 12 || i >= 15) ==> entry.bits == 0
            &&& j >= 6 && i >= 6 ==> entry.bits == 0
            &&& i >= 15 ==> entry.bits == 0
            &&& i < 6 && j < 6 ==> entry.bits == 0
            &&& i < 6 && j >= 6 ==> entry == sensor.bias_noise.at(i, j - 6)
            &&& 6 <= i < 9 && j < 3 ==> entry == sensor.rotation.at(i - 6, j)
            &&& 9 <= i < 12 && j < 3 ==> entry == sensor.position.at(i - 9, j)
            &&& 12 <= i < 15 && j < 3 ==> entry == sensor.velocity.at(i - 12, j)
            &&& 12 <= i < 15 && 3 <= j < 6 ==> entry == sensor.rotation.at(i - 12, j - 3)
        }),
{
}

/// The whole input matrix: the accelerometer and the noise of the biases reach only their own
/// rows of the sensor, and the landmarks see the gyroscope alone, each in its own three rows.
pub proof fn law_input_matrix_is_sparse(
    suite: &EuclideanSuite,
    sensor: &SensorInput,
    landmarks: &[LandmarkBlocks],
    m: BlockMatrix,
    i: int,
    j: int,
    k: int,
    a: int,
)
    requires
        sensor.wf(),
        landmarks_wf(landmarks@),
        (SENSOR_DIM + 3 * landmarks@.len()) * 12 <= usize::MAX,
        call_ensures(EuclideanSuite::input_matrix_b, (suite, sensor, landmarks), m),
        0 <= i < 21 + 3 * landmarks@.len(),
        0 <= j < 12,
        0 <= k < landmarks@.len(),
        0 <= a < 3,
    ensures
        m.has_size(21 + 3 * landmarks@.len() as int, 12),
        3 <= j < 6 && (i < 12 || i >= 15) ==> m.at(i, j).bits == 0,
        j >= 6 && i >= 6 ==> m.at(i, j).bits == 0,
        j < 3 && (i < 6 || 15 <= i < 21) ==> m.at(i, j).bits == 0,
        j < 3 && 6 <= i < 9 ==> m.at(i, j) == sensor.rotation.at(i - 6, j),
        j < 3 && 9 <= i < 12 ==> m.at(i, j) == sensor.position.at(i - 9, j),
        j < 3 && 12 <= i < 15 ==> m.at(i, j) == sensor.velocity.at(i - 12, j),
        3 <= j < 6 && 12 <= i < 15 ==> m.at(i, j) == sensor.rotation.at(i - 12, j - 3),
        j >= 6 && i < 6 ==> m.at(i, j) == sensor.bias_noise.at(i, j - 6),
        j < 3 ==> m.at(21 + 3 * k + a, j) == landmarks@[k].input.at(a, j),
{
    if i < 21 {
        law_inputs_enter_their_rows(*sensor, i, j);
    }
    assert(m.at(i, j) == input_entry(*sensor, landmarks@, i, j));
    let row = 21 + 3 * k + a;
    assert((row - 21) / 3 == k && (row - 21) % 3 == a);
    assert(m.at(row, j) == input_entry(*sensor, landmarks@, row, j));
}

/// The sensor's rows of the state matrix with additive biases: the biases act as the inputs do,
/// with the opposite sign; the position follows the velocity one for one, the velocity the
/// attitude through gravity, the camera offset itself; nothing else couples.
pub proof fn law_sensor_dynamics_by_blocks(input: Real64, gravity: BlockMatrix, offset: BlockMatrix, i: int, j: int)
    requires
        0 <= i < 21,
        0 <= j < 21,
    ensures
        ({
            let entry = sensor_state_entry(input, gravity, offset, i, j);
            &&& j < 6 ==> entry == input.negated()
            &&& 9 <= i < 12 && j == i + 3 ==> entry.bits == 0x3FF0_0000_0000_0000
            &&& 12 <= j < 15 && j != i + 3 ==> entry.bits == 0
            &&& 12 <= i < 15 && 6 <= j < 9 ==> entry == gravity.at(i - 12, j - 6)
            &&& 6 <= j < 9 && (i < 12 || i >= 15) ==> entry.bits == 0
            &&& 9 <= j < 12 ==> entry.bits == 0
            &&& i >= 15 && j >= 15 ==> entry == offset.at(i - 15, j - 15)
            &&& i < 15 && j >= 15 ==> entry.bits == 0
        }),
{
}

/// A landmark's rows of the state matrix: under the biases the input with the opposite sign;
/// under velocity, camera offset and itself its own blocks where it is usable, and zero where it
/// is not; zero under attitude, position and every other landmark.
pub proof fn law_landmark_dynamics_by_blocks(
    input: BlockMatrix,
    gravity: BlockMatrix,
    offset: BlockMatrix,
    landmarks: Seq<LandmarkBlocks>,
    k: int,
    a: int,
    j: int,
)
    requires
        0 <= k < landmarks.len(),
        0 <= a < 3,
        0 <= j < 21 + 3 * landmarks.len(),
    ensures
        ({
            let row = 21 + 3 * k;
            let entry = state_entry(input, gravity, offset, landmarks, row + a, j);
            let landmark = landmarks[k];
            let usable = !landmark.range_squared.lt(Real64 { bits: 0x3BC7_9CA1_0C92_4223 })
                && landmark.scale.finite() && !(landmark.scale.lt(Real64 { bits: 0x3D71_9799_812D_EA11 })
                && (Real64 { bits: 0xBD71_9799_812D_EA11 }).lt(landmark.scale));
            &&& j < 6 ==> entry == input.at(row + a, j).negated()
            &&& 6 <= j < 12 ==> entry.bits == 0
            &&& j >= 12 && !usable ==> entry.bits == 0
            &&& 12 <= j < 15 && usable ==> entry == landmark.velocity.at(a, j - 12)
            &&& 15 <= j < 21 && usable ==> entry == landmark.offset.at(a, j - 15)
            &&& row <= j < row + 3 && usable ==> entry == landmark.own.at(a, j - row)
            &&& j >= 21 && (j < row || j >= row + 3) ==> entry.bits == 0
        }),
{
    assert((21 + 3 * k + a - 21) / 3 == k && (21 + 3 * k + a - 21) % 3 == a);
    assert((Real64 { bits: 0x3D71_9799_812D_EA11 }).negated() == (Real64 { bits: 0xBD71_9799_812D_EA11 }));
}

/// Where the biases act on the pose: the rows of the biases hold their own two blocks and zeros,
/// the columns of the biases are the transported ones, and beside them only the blocks that the
/// variant names are written; every other entry stays.
pub proof fn law_bias_couplings_by_blocks(plain: Real64, blocks: SemiDirectBlocks, i: int, j: int)
    requires
        0 <= i,
        0 <= j,
    ensures
        ({
            let entry = semi_direct_entry(plain, blocks, i, j);
            let v = blocks.variant;
            &&& i < 6 && j < 6 ==> entry == blocks.bias_bias.at(i, j)
            &&& i < 6 && 6 <= j < 9 ==> entry == blocks.bias_attitude.at(i, j - 6)
            &&& i < 6 && j >= 9 ==> entry.bits == 0
            &&& i >= 6 && j < 6 ==> entry == blocks.bias_columns.at(i, j)
            &&& i >= 6 && j >= 6 && (i >= 15 || j >= 15 || 9 <= j < 12) ==> entry == plain
            &&& 9 <= i < 12 && j >= 12 ==> entry == plain
            &&& 6 <= i < 9 && j >= 12 ==> entry == plain
            &&& i >= 6 && j >= 6 && v == CouplingVariant::Plain ==> entry == plain
            &&& 9 <= i < 12 && 6 <= j < 9 ==> {
                &&& v == CouplingVariant::Position || v == CouplingVariant::PositionAndDecay ==> entry
                    == blocks.position_attitude.at(i - 9, j - 6)
                &&& v == CouplingVariant::Decay || v == CouplingVariant::AttitudeDecay || v
                    == CouplingVariant::VelocityDecay ==> entry.bits == 0
                &&& v == CouplingVariant::BiasAdjoint ==> entry == plain
            }
            &&& 6 <= i < 9 && 6 <= j < 9 ==> {
                &&& v == CouplingVariant::PositionAndDecay || v == CouplingVariant::Decay || v
                    == CouplingVariant::AttitudeDecay ==> entry.bits == (if i == j {
                    0xBFF0_0000_0000_0000u64
                } else {
                    0x8000_0000_0000_0000u64
                })
                &&& v == CouplingVariant::Position || v == CouplingVariant::VelocityDecay ==> entry == plain
                &&& v == CouplingVariant::BiasAdjoint && i != j ==> entry == crate::coordinate_suite::skew_entry(
                    blocks.gyro_bias@,
                    j - 6,
                    i - 6,
                )
            }
            &&& 12 <= i < 15 && 12 <= j < 15 ==> {
                &&& v == CouplingVariant::PositionAndDecay || v == CouplingVariant::Decay || v
                    == CouplingVariant::VelocityDecay ==> entry.bits == (if i == j {
                    0xBFF0_0000_0000_0000u64
                } else {
                    0x8000_0000_0000_0000u64
                })
                &&& v == CouplingVariant::Position || v == CouplingVariant::AttitudeDecay ==> entry == plain
                &&& v == CouplingVariant::BiasAdjoint && i != j ==> entry == crate::coordinate_suite::skew_entry(
                    blocks.gyro_bias@,
                    j - 12,
                    i - 12,
                )
            }
            &&& 12 <= i < 15 && 6 <= j < 9 ==> {
                &&& v == CouplingVariant::BiasAdjoint ==> entry == blocks.velocity_attitude.at(i - 12, j - 6)
                &&& v != CouplingVariant::BiasAdjoint ==> entry == plain
            }
        }),
{
    if 6 <= i < 9 && 6 <= j < 9 {
        crate::coordinate_suite::law_skew_is_antisymmetric(blocks.gyro_bias@, i - 6, j - 6);
    }
    if 12 <= i < 15 && 12 <= j < 15 {
        crate::coordinate_suite::law_skew_is_antisymmetric(blocks.gyro_bias@, i - 12, j - 12);
    }
}

/// On request the gyroscope's bias drives the attitude and the accelerometer's bias the velocity
/// one for one, and the gyroscope's bias the position through the translation; the other columns
/// and rows stay as they are.
pub proof fn law_flattened_biases_by_blocks(plain: Real64, translation: Seq<Real64>, i: int, j: int)
    requires
        0 <= i,
        0 <= j,
    ensures
        ({
            let entry = flattened_entry(plain, translation, i, j);
            &&& j >= 6 || i < 6 || i >= 15 ==> entry == plain
            &&& 6 <= i < 9 && j < 6 ==> entry.bits == (if j == i - 6 { 0x3FF0_0000_0000_0000u64 } else { 0u64 })
            &&& 12 <= i < 15 && j < 6 ==> entry.bits == (if j == i - 9 { 0x3FF0_0000_0000_0000u64 } else { 0u64 })
            &&& 9 <= i < 12 && 3 <= j < 6 ==> entry.bits == 0
            &&& 9 <= i < 12 && j < 3 ==> entry == crate::coordinate_suite::skew_entry(translation, i - 9, j)
        }),
{
}

/// The identity stays where it is written last: a flattened matrix does not depend on how the
/// biases were coupled to attitude, position and velocity before; without either step the
/// matrix stays as it is.
pub proof fn law_flattening_comes_last(
    plain: Real64,
    semi_direct: Option<SemiDirectBlocks>,
    translation: [Real64; 3],
    i: int,
    j: int,
)
    requires
        0 <= i,
        0 <= j,
    ensures
        j < 6 && 6 <= i < 15 ==> finished_entry(plain, semi_direct, Some(translation), i, j) == flattened_entry(
            plain,
            translation@,
            i,
            j,
        ),
        j >= 6 || i < 6 || i >= 15 ==> finished_entry(plain, semi_direct, Some(translation), i, j) == finished_entry(
            plain,
            semi_direct,
            None,
            i,
            j,
        ),
        finished_entry(plain, None, None, i, j) == plain,
        semi_direct matches Some(blocks) ==> finished_entry(plain, semi_direct, None, i, j) == semi_direct_entry(
            plain,
            blocks,
            i,
            j,
        ),
{
}

/// A landmark's rows of a propagation step: the input with the opposite sign under the
/// gyroscope's bias, zero under the accelerometer's bias, attitude and position, its own blocks
/// under velocity, camera offset and itself where it is usable, and zero where it is not. In
/// the input matrix it sees the gyroscope alone.
pub proof fn law_landmark_rows_by_blocks(landmarks: Seq<LandmarkBlocks>, k: int, a: int, j: int)
    requires
        0 <= k < landmarks.len(),
        0 <= a < 3,
        0 <= j < 21,
    ensures
        ({
            let entry = landmark_sensor_entry(landmarks, 3 * k + a, j);
            let usable = landmarks[k].usable();
            &&& j < 3 ==> entry == landmarks[k].input.at(a, j).negated()
            &&& 3 <= j < 12 ==> entry.bits == 0
            &&& j >= 12 && !usable ==> entry.bits == 0
            &&& 12 <= j < 15 && usable ==> entry == landmarks[k].velocity.at(a, j - 12)
            &&& j >= 15 && usable ==> entry == landmarks[k].offset.at(a, j - 15)
        }),
        j < 3 ==> input_entry_of_landmark(landmarks, 3 * k + a, j) == landmarks[k].input.at(a, j),
        3 <= j < 12 ==> input_entry_of_landmark(landmarks, 3 * k + a, j).bits == 0,
        j < 3 && landmarks[k].usable() ==> own_entry(landmarks[k], a, j) == landmarks[k].own.at(a, j),
        j < 3 && !landmarks[k].usable() ==> own_entry(landmarks[k], a, j).bits == 0,
{
    assert((3 * k + a) / 3 == k && (3 * k + a) % 3 == a);
}

/// A landmark is usable where its squared distance is not below 1e-20 and its scale is finite
/// and at least 1e-12 in size.
pub proof fn law_usable_landmark_is_away_from_the_camera(landmark: &LandmarkBlocks, r: bool)
    requires
        call_ensures(LandmarkBlocks::is_usable, (landmark,), r),
    ensures
        ({
            let least = (Real64 { bits: 0x3D71_9799_812D_EA11 }).value();
            &&& r ==> landmark.scale.finite() && (landmark.scale.value() >= least || landmark.scale.value() <= -least)
            &&& r ==> !landmark.range_squared.lt(Real64 { bits: 0x3BC7_9CA1_0C92_4223 })
            &&& !r ==> landmark.range_squared.lt(Real64 { bits: 0x3BC7_9CA1_0C92_4223 }) || !landmark.scale.finite()
                || -least < landmark.scale.value() < least
        }),
{
    least_scale().lemma_negation();
}

/// A setting names its variant by its number from one to six; any other text, and none, names
/// the plain one.
pub proof fn law_variants_are_named_by_number(t: &str, r: CouplingVariant, none: CouplingVariant)
    requires
        call_ensures(CouplingVariant::from_text, (Some(t),), r),
        call_ensures(CouplingVariant::from_text, (None,), none),
    ensures
        none == CouplingVariant::Plain,
        r == CouplingVariant::Position <==> t@ == seq!['1'],
        r == CouplingVariant::PositionAndDecay <==> t@ == seq!['2'],
        r == CouplingVariant::Decay <==> t@ == seq!['3'],
        r == CouplingVariant::AttitudeDecay <==> t@ == seq!['4'],
        r == CouplingVariant::VelocityDecay <==> t@ == seq!['5'],
        r == CouplingVariant::BiasAdjoint <==> t@ == seq!['6'],
{
    reveal_strlit("1");
    reveal_strlit("2");
    reveal_strlit("3");
    reveal_strlit("4");
    reveal_strlit("5");
    reveal_strlit("6");
    assert("1"@ =~= seq!['1']);
    assert("2"@ =~= seq!['2']);
    assert("3"@ =~= seq!['3']);
    assert("4"@ =~= seq!['4']);
    assert("5"@ =~= seq!['5']);
    assert("6"@ =~= seq!['6']);
    assert(seq!['1'][0] == '1' && seq!['2'][0] == '2' && seq!['3'][0] == '3' && seq!['4'][0] == '4' && seq!['5'][0]
        == '5' && seq!['6'][0] == '6');
}

/// A lifted innovation moves biases and pose by the innovation itself, and keeps the landmarks
/// with their identifiers in order; the velocity is the straight one where the group itself
/// turns it.
pub proof fn law_lift_keeps_biases_and_pose(
    suite: &EuclideanSuite,
    innovation: &StateError,
    offset: [Real64; 6],
    velocity: [Real64; 3],
    landmarks: Vec<[Real64; 4]>,
    ids: &[u64],
    r: LiftedInnovation,
    i: int,
)
    requires
        landmarks@.len() == ids@.len(),
        innovation.landmarks@.len() == ids@.len(),
        call_ensures(EuclideanSuite::lift_innovation, (suite, innovation, offset, velocity, landmarks, ids), r),
        0 <= i < 6,
    ensures
        r.bias@[i] == innovation.coordinate(i),
        r.pose@[i] == innovation.coordinate(6 + i),
        r.offset@[i] == offset@[i],
        i < 3 ==> r.velocity@[i] == velocity@[i],
        r.landmarks@.len() == r.ids@.len(),
        r.ids@ == ids@,
{
}

/// A scale is usable where it is finite and not nearer to zero than 1e-12; a velocity is lifted
/// straight where the group turns it, and turned where it does not.
pub proof fn law_scales_and_velocities_are_chosen(
    suite: &EuclideanSuite,
    scale: Real64,
    usable: bool,
    straight: [Real64; 3],
    turned: [Real64; 3],
    kept: [Real64; 3],
    given: [Real64; 3],
)
    requires
        call_ensures(is_usable_scale, (scale,), usable),
        call_ensures(EuclideanSuite::lifted_velocity, (suite, true, straight, turned), kept),
        call_ensures(EuclideanSuite::lifted_velocity, (suite, false, straight, turned), given),
    ensures
        usable <==> scale.finite() && (scale.value() >= (Real64 { bits: 0x3D71_9799_812D_EA11 }).value()
            || scale.value() <= -(Real64 { bits: 0x3D71_9799_812D_EA11 }).value()),
        kept@ == straight@,
        given@ == turned@,
{
    least_scale().lemma_negation();
}

} // verus!
