//! The normal suite: exponential coordinates of the sensor, landmarks by bearing and the
//! logarithm of the inverse distance.
use vstd::prelude::*;
use crate::coordinate_suite::matrix::BlockMatrix;
use crate::coordinate_suite::{columns_beside, is_within, rows_above, StateError, SENSOR_DIM};
use crate::ieee::{real64, zero64, Real64};

verus! {

/// The angle below which a turn is not rescaled.
#[verifier::allow_in_spec]
pub fn small_angle() -> Real64
    returns
        (Real64 { bits: 0x3E45_798E_E230_8C3A }),
{
    real64(0x3E45_798E_E230_8C3A)
}

/// The bearing of a point in the normal chart, from its angle to the pole, the sine of the
/// turn to it, and that turn scaled to the angle.
pub fn sphere_chart_normal(angle: Real64, sine: &[Real64; 3], turn: &[Real64; 3]) -> (r: [Real64; 2])
    ensures
        crate::coordinate_suite::within(angle, small_angle()) ==> r@ == sine@.take(2),
        !crate::coordinate_suite::within(angle, small_angle()) ==> r@ == turn@.take(2),
{
    let r: [Real64; 2] = if is_within(angle, small_angle()) {
        [sine[0], sine[1]]
    } else {
        [turn[0], turn[1]]
    };
    assert(crate::coordinate_suite::within(angle, small_angle()) ==> r@ =~= sine@.take(2));
    assert(!crate::coordinate_suite::within(angle, small_angle()) ==> r@ =~= turn@.take(2));
    r
}

/// The turn that takes the pole to the point of a bearing.
pub fn pole_turn(bearing: &[Real64; 2]) -> (r: [Real64; 3])
    ensures
        r@ == seq![bearing@[0].negated(), bearing@[1].negated(), zero64().negated()],
{
    let r: [Real64; 3] = [bearing[0].neg(), bearing[1].neg(), zero64().neg()];
    assert(r@ =~= seq![bearing@[0].negated(), bearing@[1].negated(), zero64().negated()]);
    r
}

/// The entry of the Jacobian of the normal chart at the pole, where `r` turns the pole up.
pub open spec fn normal_diff_entry(r: BlockMatrix, i: int, j: int) -> Real64 {
    if i == 0 {
        r.at(1, j)
    } else {
        r.at(0, j).negated()
    }
}

/// The entry of the Jacobian of the inverse normal chart at zero, where `r` turns the pole
/// back.
pub open spec fn normal_inv_diff_entry(r: BlockMatrix, i: int, j: int) -> Real64 {
    if j == 0 {
        r.at(i, 1)
    } else {
        r.at(i, 0).negated()
    }
}

/// The Jacobian of the normal chart at the pole, from the turn that takes the pole up.
pub fn sphere_chart_normal_diff0(r: &BlockMatrix) -> (m: BlockMatrix)
    requires
        r.has_size(3, 3),
    ensures
        m.has_size(2, 3),
        forall|i: int, j: int| 0 <= i < 2 && 0 <= j < 3 ==> #[trigger] m.at(i, j) == normal_diff_entry(*r, i, j),
{
    let mut m: BlockMatrix = BlockMatrix::zeros(2, 3);
    m.set_block(0, 0, &r.block(1, 0, 1, 3));
    m.set_block(1, 0, &r.block(0, 0, 1, 3).negated());
    m
}

/// The Jacobian of the inverse normal chart at zero, from the turn that takes the pole back.
pub fn sphere_chart_normal_inv_diff0(r: &BlockMatrix) -> (m: BlockMatrix)
    requires
        r.has_size(3, 3),
    ensures
        m.has_size(3, 2),
        forall|i: int, j: int| 0 <= i < 3 && 0 <= j < 2 ==> #[trigger] m.at(i, j) == normal_inv_diff_entry(*r, i, j),
{
    let mut m: BlockMatrix = BlockMatrix::zeros(3, 2);
    m.set_block(0, 0, &r.block(0, 1, 3, 1));
    m.set_block(0, 1, &r.block(0, 0, 3, 1).negated());
    m
}

/// Where the turn back is the transpose of the turn, the Jacobian of the inverse chart is
/// the transpose of the chart's.
pub proof fn law_inverse_jacobian_is_the_transpose(turn: BlockMatrix, back: BlockMatrix, i: int, j: int)
    requires
        forall|a: int, b: int| 0 <= a < 3 && 0 <= b < 3 ==> #[trigger] back.at(a, b) == turn.at(b, a),
        0 <= i < 3,
        0 <= j < 2,
    ensures
        normal_inv_diff_entry(back, i, j) == normal_diff_entry(turn, j, i),
{
}

/// The Jacobian of the change from Cartesian coordinates, from the rows of the bearing and
/// the row of the logarithm.
pub fn conv_euc2normal(bearing: &BlockMatrix, logarithm: &[Real64; 3]) -> (m: BlockMatrix)
    requires
        bearing.has_size(2, 3),
    ensures
        m.has_size(3, 3),
        forall|i: int, j: int|
            0 <= i < 3 && 0 <= j < 3 ==> #[trigger] m.at(i, j) == (if i < 2 {
                bearing.at(i, j)
            } else {
                logarithm@[j]
            }),
{
    rows_above(bearing, logarithm)
}

/// The Jacobian of the change to Cartesian coordinates, from the columns of the bearing and
/// the landmark `q0`: moving the logarithm moves the landmark towards the camera.
pub fn conv_normal2euc(bearing: &BlockMatrix, q0: &[Real64; 3]) -> (m: BlockMatrix)
    requires
        bearing.has_size(3, 2),
    ensures
        m.has_size(3, 3),
        forall|i: int, j: int|
            0 <= i < 3 && 0 <= j < 3 ==> #[trigger] m.at(i, j) == (if j < 2 {
                bearing.at(i, j)
            } else {
                q0@[i].negated()
            }),
{
    columns_beside(bearing, &[q0[0].neg(), q0[1].neg(), q0[2].neg()])
}

/// The entry of the sensor's change of coordinates.
pub open spec fn sensor_change_entry(velocity: Seq<Real64>, adjoint: BlockMatrix, i: int, j: int) -> Real64 {
    if crate::coordinate_suite::matrix::in_block(i, j, 15, 6, 6, 6) {
        adjoint.at(i - 15, j - 6)
    } else if crate::coordinate_suite::matrix::in_block(i, j, 12, 6, 3, 3) && i - 12 != j - 6 {
        crate::coordinate_suite::skew_entry(velocity, j - 6, i - 12)
    } else {
        crate::coordinate_suite::matrix::identity_entry(i, j)
    }
}

/// The sensor's change from Euclidean to normal coordinates, from the velocity and the
/// adjoint of the inverse camera offset.
pub fn build_m_sensor(velocity: &[Real64; 3], adjoint: &BlockMatrix) -> (m: BlockMatrix)
    requires
        adjoint.has_size(6, 6),
    ensures
        m.has_size(21, 21),
        forall|i: int, j: int|
            0 <= i < 21 && 0 <= j < 21 ==> #[trigger] m.at(i, j) == sensor_change_entry(velocity@, *adjoint, i, j),
{
    let mut m: BlockMatrix = BlockMatrix::identity(SENSOR_DIM);
    m.set(12, 7, velocity[2]);
    m.set(12, 8, velocity[1].neg());
    m.set(13, 6, velocity[2].neg());
    m.set(13, 8, velocity[0]);
    m.set(14, 6, velocity[1]);
    m.set(14, 7, velocity[0].neg());
    m.set_block(15, 6, adjoint);
    m
}

/// The sensor's change of coordinates is lower triangular with ones on its diagonal, so it
/// can be undone.
pub proof fn law_sensor_change_is_unit_triangular(velocity: Seq<Real64>, adjoint: BlockMatrix, i: int, j: int)
    requires
        0 <= i <= j < 21,
    ensures
        sensor_change_entry(velocity, adjoint, i, j) == crate::coordinate_suite::matrix::identity_entry(i, j),
{
}

/// What a landmark contributes to the matrices in this suite.
#[derive(Clone, Debug)]
pub struct NormalBlocks {
    /// Its rows under the sensor: three by twenty-one.
    pub sensor: BlockMatrix,
    /// Its rows under itself: three by three.
    pub own: BlockMatrix,
}

impl NormalBlocks {
    /// The blocks have their sizes.
    pub open spec fn wf(self) -> bool {
        self.sensor.has_size(3, 21) && self.own.has_size(3, 3)
    }
}

/// The entry of the state matrix.
pub open spec fn state_entry(sensor: BlockMatrix, landmarks: Seq<NormalBlocks>, i: int, j: int) -> Real64 {
    if i < SENSOR_DIM {
        if j < SENSOR_DIM {
            sensor.at(i, j)
        } else {
            zero64()
        }
    } else {
        let k = (i - 21) / 3;
        let row = 21 + 3 * k;
        if j < SENSOR_DIM {
            landmarks[k].sensor.at(i - row, j)
        } else if row <= j < row + 3 {
            landmarks[k].own.at(i - row, j - row)
        } else {
            zero64()
        }
    }
}

/// The entry of the input matrix.
pub open spec fn input_entry(sensor: BlockMatrix, landmarks: Seq<BlockMatrix>, i: int, j: int) -> Real64 {
    if i < SENSOR_DIM {
        sensor.at(i, j)
    } else {
        landmarks[(i - 21) / 3].at((i - 21) % 3, j)
    }
}

/// Exponential coordinates of the sensor, landmarks by bearing and logarithm.
#[derive(Clone, Copy, Debug, PartialEq, Eq, Structural)]
pub struct NormalSuite;

impl NormalSuite {
    pub fn new() -> (r: Self)
        ensures
            r == NormalSuite,
    {
        NormalSuite
    }

    /// The state matrix, from the changed blocks of the Euclidean one.
    pub fn state_matrix_a(&self, sensor: &BlockMatrix, landmarks: &[NormalBlocks]) -> (m: BlockMatrix)
        requires
            sensor.has_size(21, 21),
            forall|k: int| 0 <= k < landmarks@.len() ==> (#[trigger] landmarks@[k]).wf(),
            (SENSOR_DIM + 3 * landmarks@.len()) * (SENSOR_DIM + 3 * landmarks@.len()) <= usize::MAX,
            SENSOR_DIM + 3 * landmarks@.len() <= usize::MAX,
        ensures
            m.has_size(SENSOR_DIM + 3 * landmarks@.len(), SENSOR_DIM + 3 * landmarks@.len()),
            forall|i: int, j: int|
                0 <= i < SENSOR_DIM + 3 * landmarks@.len() && 0 <= j < SENSOR_DIM + 3 * landmarks@.len()
                    ==> #[trigger] m.at(i, j) == state_entry(*sensor, landmarks@, i, j),
    {
        let n: usize = landmarks.len();
        let dim: usize = SENSOR_DIM + 3 * n;
        let mut m: BlockMatrix = BlockMatrix::zeros(dim, dim);
        m.set_block(0, 0, sensor);
        let mut k: usize = 0;
        while k < n
            invariant
                k <= n,
                n == landmarks@.len(),
                dim == SENSOR_DIM + 3 * n,
                forall|l: int| 0 <= l < landmarks@.len() ==> (#[trigger] landmarks@[l]).wf(),
                m.has_size(dim as int, dim as int),
                forall|i: int, j: int|
                    0 <= i < dim && 0 <= j < dim ==> #[trigger] m.at(i, j) == (if i < SENSOR_DIM + 3 * k {
                        state_entry(*sensor, landmarks@, i, j)
                    } else {
                        zero64()
                    }),
            decreases n - k,
        {
            let ghost before = m;
            let row: usize = SENSOR_DIM + 3 * k;
            m.set_block(row, 0, &landmarks[k].sensor);
            m.set_block(row, row, &landmarks[k].own);
            assert forall|i: int, j: int| 0 <= i < dim && 0 <= j < dim implies #[trigger] m.at(i, j) == (if i
                < SENSOR_DIM + 3 * (k + 1) {
                state_entry(*sensor, landmarks@, i, j)
            } else {
                zero64()
            }) by {
                assert(before.at(i, j) == before.at(i, j));
                if row <= i < row + 3 {
                    assert((i - 21) / 3 == k);
                }
            }
            k = k + 1;
        }
        m
    }

    /// The input matrix, from the changed blocks of the Euclidean one.
    pub fn input_matrix_b(&self, sensor: &BlockMatrix, landmarks: &[BlockMatrix]) -> (m: BlockMatrix)
        requires
            sensor.has_size(21, 12),
            forall|k: int| 0 <= k < landmarks@.len() ==> (#[trigger] landmarks@[k]).has_size(3, 12),
            (SENSOR_DIM + 3 * landmarks@.len()) * 12 <= usize::MAX,
        ensures
            m.has_size(SENSOR_DIM + 3 * landmarks@.len(), 12),
            forall|i: int, j: int|
                0 <= i < SENSOR_DIM + 3 * landmarks@.len() && 0 <= j < 12 ==> #[trigger] m.at(i, j) == input_entry(
                    *sensor,
                    landmarks@,
                    i,
                    j,
                ),
    {
        let n: usize = landmarks.len();
        let dim: usize = SENSOR_DIM + 3 * n;
        let mut m: BlockMatrix = BlockMatrix::zeros(dim, 12);
        m.set_block(0, 0, sensor);
        let mut k: usize = 0;
        while k < n
            invariant
                k <= n,
                n == landmarks@.len(),
                dim == SENSOR_DIM + 3 * n,
                forall|l: int| 0 <= l < landmarks@.len() ==> (#[trigger] landmarks@[l]).has_size(3, 12),
                m.has_size(dim as int, 12),
                forall|i: int, j: int|
                    0 <= i < SENSOR_DIM + 3 * k && 0 <= j < 12 ==> #[trigger] m.at(i, j) == input_entry(
                        *sensor,
                        landmarks@,
                        i,
                        j,
                    ),
            decreases n - k,
        {
            let ghost before = m;
            let row: usize = SENSOR_DIM + 3 * k;
            m.set_block(row, 0, &landmarks[k]);
            assert forall|i: int, j: int| 0 <= i < SENSOR_DIM + 3 * (k + 1) && 0 <= j < 12 implies #[trigger] m.at(
                i,
                j,
            ) == input_entry(*sensor, landmarks@, i, j) by {
                assert(before.at(i, j) == before.at(i, j));
                if row <= i < row + 3 {
                    assert((i - 21) / 3 == k && (i - 21) % 3 == i - row);
                }
            }
            k = k + 1;
        }
        m
    }

    /// The output matrix of a landmark, from its columns under the bearing: a bearing says
    /// nothing about the logarithm, whose column is zero.
    pub fn output_matrix_ci_star(&self, bearing: &BlockMatrix) -> (m: BlockMatrix)
        requires
            bearing.has_size(2, 2),
        ensures
            m.has_size(2, 3),
            forall|i: int, j: int|
                0 <= i < 2 && 0 <= j < 3 ==> #[trigger] m.at(i, j) == (if j < 2 {
                    bearing.at(i, j)
                } else {
                    zero64()
                }),
    {
        let mut m: BlockMatrix = BlockMatrix::zeros(2, 3);
        m.set_block(0, 0, bearing);
        m
    }

    /// The innovation in Euclidean coordinates, from the changed coordinates of the sensor
    /// and of each landmark.
    pub fn euclidean_innovation(&self, sensor: &[Real64; 21], landmarks: Vec<[Real64; 3]>) -> (r: StateError)
        ensures
            r.landmarks@ == landmarks@,
            forall|i: int| 0 <= i < 21 ==> #[trigger] r.coordinate(i) == sensor@[i],
    {
        StateError {
            bias: [sensor[0], sensor[1], sensor[2], sensor[3], sensor[4], sensor[5]],
            pose: [sensor[6], sensor[7], sensor[8], sensor[9], sensor[10], sensor[11]],
            velocity: [sensor[12], sensor[13], sensor[14]],
            offset: [sensor[15], sensor[16], sensor[17], sensor[18], sensor[19], sensor[20]],
            landmarks,
        }
    }
}

/// In normal coordinates too the sensor does not depend on the landmarks, and no landmark
/// depends on another one.
pub proof fn law_landmarks_do_not_couple(sensor: BlockMatrix, landmarks: Seq<NormalBlocks>, i: int, j: int)
    requires
        0 <= i < SENSOR_DIM + 3 * landmarks.len(),
        SENSOR_DIM <= j < SENSOR_DIM + 3 * landmarks.len(),
        i < SENSOR_DIM || (i - SENSOR_DIM) / 3 != (j - SENSOR_DIM) / 3,
    ensures
        state_entry(sensor, landmarks, i, j) == zero64(),
{
    if i >= SENSOR_DIM {
        let k = (i - 21) / 3;
        if 21 + 3 * k <= j < 21 + 3 * k + 3 {
            assert((j - 21) / 3 == k);
        }
    }
}

/// The Jacobian of the normal chart at the pole is the turn's second row above its negated first
/// one; that of the inverse chart is the second column beside the negated first one.
pub proof fn law_chart_jacobians_are_turned_rows(
    r: &BlockMatrix,
    chart: BlockMatrix,
    inverse: BlockMatrix,
    j: int,
)
    requires
        r.has_size(3, 3),
        call_ensures(sphere_chart_normal_diff0, (r,), chart),
        call_ensures(sphere_chart_normal_inv_diff0, (r,), inverse),
        0 <= j < 3,
    ensures
        chart.at(0, j) == r.at(1, j),
        chart.at(1, j) == r.at(0, j).negated(),
        inverse.at(j, 0) == r.at(j, 1),
        inverse.at(j, 1) == r.at(j, 0).negated(),
{
}

/// The sensor's change of coordinates: ones on the diagonal, the negated cross product with the
/// velocity in the velocity's rows under the attitude, the adjoint in the offset's rows under
/// the pose, and zeros elsewhere.
pub proof fn law_sensor_change_by_blocks(velocity: Seq<Real64>, adjoint: BlockMatrix, i: int, j: int)
    requires
        0 <= i < 21,
        0 <= j < 21,
    ensures
        ({
            let entry = sensor_change_entry(velocity, adjoint, i, j);
            &&& i == j ==> entry.bits == 0x3FF0_0000_0000_0000
            &&& i >= 15 && 6 <= j < 12 ==> entry == adjoint.at(i - 15, j - 6)
            &&& 12 <= i < 15 && 6 <= j < 9 && i - 12 != j - 6 ==> entry == crate::coordinate_suite::skew_entry(
                velocity,
                i - 12,
                j - 6,
            ).negated()
            &&& 12 <= i < 15 && j == i - 6 ==> entry.bits == 0
            &&& i != j && i < 12 ==> entry.bits == 0
            &&& i != j && (j < 6 || j >= 12) ==> entry.bits == 0
            &&& 12 <= i < 15 && 9 <= j < 12 ==> entry.bits == 0
        }),
{
    if 12 <= i < 15 && 6 <= j < 9 {
        crate::coordinate_suite::law_skew_is_antisymmetric(velocity, i - 12, j - 6);
    }
}

/// The matrices in normal coordinates hold the changed blocks in their places: the sensor's at
/// the top, each landmark's in its own three rows, under the sensor and under itself.
pub proof fn law_changed_blocks_are_in_place(
    sensor: BlockMatrix,
    landmarks: Seq<NormalBlocks>,
    input: BlockMatrix,
    inputs: Seq<BlockMatrix>,
    i: int,
    j: int,
    k: int,
    a: int,
    b: int,
)
    requires
        0 <= i < 21,
        0 <= j < 21,
        0 <= k < landmarks.len(),
        inputs.len() == landmarks.len(),
        0 <= a < 3,
        0 <= b < 3,
    ensures
        state_entry(sensor, landmarks, i, j) == sensor.at(i, j),
        state_entry(sensor, landmarks, 21 + 3 * k + a, j) == landmarks[k].sensor.at(a, j),
        state_entry(sensor, landmarks, 21 + 3 * k + a, 21 + 3 * k + b) == landmarks[k].own.at(a, b),
        j < 12 ==> input_entry(input, inputs, i, j) == input.at(i, j),
        j < 12 ==> input_entry(input, inputs, 21 + 3 * k + a, j) == inputs[k].at(a, j),
{
    assert((21 + 3 * k + a - 21) / 3 == k && (21 + 3 * k + a - 21) % 3 == a);
}

/// The two Jacobians keep what belongs to the bearing in the first two rows and columns; the last
/// row is that of the logarithm, and the last column leads towards the camera. What is seen of a
/// landmark depends on its bearing alone.
pub proof fn law_logarithm_stands_last(
    suite: &NormalSuite,
    rows: &BlockMatrix,
    logarithm: &[Real64; 3],
    to: BlockMatrix,
    columns: &BlockMatrix,
    q0: &[Real64; 3],
    from: BlockMatrix,
    bearing: &BlockMatrix,
    output: BlockMatrix,
    i: int,
)
    requires
        rows.has_size(2, 3),
        columns.has_size(3, 2),
        bearing.has_size(2, 2),
        call_ensures(conv_euc2normal, (rows, logarithm), to),
        call_ensures(conv_normal2euc, (columns, q0), from),
        call_ensures(NormalSuite::output_matrix_ci_star, (suite, bearing), output),
        0 <= i < 3,
    ensures
        to.at(0, i) == rows.at(0, i) && to.at(1, i) == rows.at(1, i) && to.at(2, i) == logarithm@[i],
        from.at(i, 0) == columns.at(i, 0) && from.at(i, 1) == columns.at(i, 1),
        from.at(i, 2) == q0@[i].negated(),
        i < 2 ==> output.at(i, 0) == bearing.at(i, 0) && output.at(i, 1) == bearing.at(i, 1) && output.at(i, 2).bits
            == 0,
{
}

/// Near the pole a bearing is the sine of the turn, elsewhere the turn; the turn of a bearing is
/// its negative, with nothing around the axis of the pole.
pub proof fn law_bearing_and_turn_are_opposite(
    angle: Real64,
    sine: &[Real64; 3],
    turn: &[Real64; 3],
    r: [Real64; 2],
    bearing: &[Real64; 2],
    back: [Real64; 3],
    i: int,
)
    requires
        !angle.nan(),
        call_ensures(sphere_chart_normal, (angle, sine, turn), r),
        call_ensures(pole_turn, (bearing,), back),
        0 <= i < 2,
    ensures
        ({
            let small = (Real64 { bits: 0x3E45_798E_E230_8C3A }).value();
            &&& -small < angle.value() < small ==> r@[i] == sine@[i]
            &&& angle.value() <= -small || small <= angle.value() ==> r@[i] == turn@[i]
        }),
        back@[i] == bearing@[i].negated(),
        back@[2] == zero64().negated(),
{
    small_angle().lemma_negation();
}

} // verus!
