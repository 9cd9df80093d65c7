//! The inverse-depth suite: landmarks by bearing and inverse distance.
use vstd::prelude::*;
use crate::coordinate_suite::euclid::{is_usable_scale, RiccatiPropagationBlocks};
use crate::coordinate_suite::matrix::BlockMatrix;
use crate::coordinate_suite::{columns_beside, rows_above, SENSOR_DIM};
use crate::ieee::{real64, zero64, Real64};

verus! {

/// The distance below which a landmark keeps its Euclidean blocks.
#[verifier::allow_in_spec]
pub fn least_distance() -> Real64
    returns
        (Real64 { bits: 0x3DDB_7CDF_D9D7_BDBB }),
{
    real64(0x3DDB_7CDF_D9D7_BDBB)
}

/// The inverse distance that stands for one that is not positive.
#[verifier::allow_in_spec]
pub fn least_inverse_depth() -> Real64
    returns
        (Real64 { bits: 0x3EB0_C6F7_A0B5_ED8D }),
{
    real64(0x3EB0_C6F7_A0B5_ED8D)
}

/// The inverse distance that a chart coordinate stands for: never zero or negative.
pub fn usable_inverse_depth(rho: Real64) -> (r: Real64)
    ensures
        r == (if rho.le(zero64()) {
            least_inverse_depth()
        } else {
            rho
        }),
{
    if rho.at_most(zero64()) {
        least_inverse_depth()
    } else {
        rho
    }
}

/// An inverse distance that a chart gives back is never zero or negative.
pub proof fn law_inverse_depth_is_positive(rho: Real64, r: Real64)
    requires
        r == (if rho.le(zero64()) {
            least_inverse_depth()
        } else {
            rho
        }),
    ensures
        !r.le(zero64()),
{
    assert(!least_inverse_depth().le(zero64())) by {
        least_inverse_depth().lemma_key_orders_values(zero64());
        assert(least_inverse_depth().key() > zero64().key());
    }
}

/// The Jacobian of the change from Cartesian coordinates, from the rows of the bearing and
/// the row of the inverse distance.
pub fn conv_euc2ind(bearing: &BlockMatrix, inverse_depth: &[Real64; 3]) -> (m: BlockMatrix)
    requires
        bearing.has_size(2, 3),
    ensures
        m.has_size(3, 3),
        forall|i: int, j: int|
            0 <= i < 3 && 0 <= j < 3 ==> #[trigger] m.at(i, j) == (if i < 2 {
                bearing.at(i, j)
            } else {
                inverse_depth@[j]
            }),
{
    rows_above(bearing, inverse_depth)
}

/// The Jacobian of the change to Cartesian coordinates, from the columns of the bearing and
/// the column of the inverse distance.
pub fn conv_ind2euc(bearing: &BlockMatrix, inverse_depth: &[Real64; 3]) -> (m: BlockMatrix)
    requires
        bearing.has_size(3, 2),
    ensures
        m.has_size(3, 3),
        forall|i: int, j: int|
            0 <= i < 3 && 0 <= j < 3 ==> #[trigger] m.at(i, j) == (if j < 2 {
                bearing.at(i, j)
            } else {
                inverse_depth@[i]
            }),
{
    columns_beside(bearing, inverse_depth)
}

/// What a landmark contributes to the matrices in this suite.
#[derive(Clone, Debug)]
pub struct InverseDepthBlocks {
    /// Distance of the landmark at the origin of the chart.
    pub origin_distance: Real64,
    /// Distance of the estimated landmark.
    pub estimated_distance: Real64,
    /// Scale of the landmark's group element.
    pub scale: Real64,
    /// Its rows in the input matrix: three by three.
    pub input: BlockMatrix,
    /// Its rows under the biases: three by six.
    pub bias: BlockMatrix,
    /// Its rows under the velocity: three by three.
    pub velocity: BlockMatrix,
    /// Its rows under the camera offset: three by six.
    pub offset: BlockMatrix,
    /// Its rows under itself: three by three.
    pub own: BlockMatrix,
}

impl InverseDepthBlocks {
    /// The blocks have their sizes.
    pub open spec fn wf(self) -> bool {
        &&& self.input.has_size(3, 3)
        &&& self.bias.has_size(3, 6)
        &&& self.velocity.has_size(3, 3)
        &&& self.offset.has_size(3, 6)
        &&& self.own.has_size(3, 3)
    }

    /// Whether the chart is defined at the landmark.
    pub open spec fn charted(self) -> bool {
        !self.origin_distance.lt(least_distance()) && crate::coordinate_suite::euclid::usable_scale(self.scale)
    }

    /// Whether the chart is defined at the landmark and at its estimate.
    pub open spec fn usable(self) -> bool {
        self.charted() && !self.estimated_distance.lt(least_distance())
    }

    /// Decides whether the chart is defined at the landmark.
    pub fn is_charted(&self) -> (r: bool)
        ensures
            r == self.charted(),
    {
        !self.origin_distance.less(least_distance()) && is_usable_scale(self.scale)
    }

    /// Decides whether the chart is defined at the landmark and at its estimate.
    pub fn is_usable(&self) -> (r: bool)
        ensures
            r == self.usable(),
    {
        self.is_charted() && !self.estimated_distance.less(least_distance())
    }
}

/// All landmarks have blocks of the right sizes.
pub open spec fn landmarks_wf(landmarks: Seq<InverseDepthBlocks>) -> bool {
    forall|k: int| 0 <= k < landmarks.len() ==> (#[trigger] landmarks[k]).wf()
}

/// The entry of the state matrix, from that of the Euclidean suite.
pub open spec fn state_entry(plain: Real64, landmarks: Seq<InverseDepthBlocks>, i: int, j: int) -> Real64 {
    if i < SENSOR_DIM {
        plain
    } else {
        let k = (i - 21) / 3;
        let row = 21 + 3 * k;
        let landmark = landmarks[k];
        if !landmark.usable() {
            plain
        } else if j < 6 {
            landmark.bias.at(i - row, j)
        } else if 12 <= j < 15 {
            landmark.velocity.at(i - row, j - 12)
        } else if 15 <= j < 21 {
            landmark.offset.at(i - row, j - 15)
        } else if row <= j < row + 3 {
            landmark.own.at(i - row, j - row)
        } else {
            plain
        }
    }
}

/// The entry of the input matrix, from that of the Euclidean suite.
pub open spec fn input_entry(plain: Real64, landmarks: Seq<InverseDepthBlocks>, i: int, j: int) -> Real64 {
    if i >= SENSOR_DIM && j < 3 && landmarks[(i - 21) / 3].charted() {
        landmarks[(i - 21) / 3].input.at((i - 21) % 3, j)
    } else {
        plain
    }
}

/// The entry of a landmark's rows under the sensor, from that of the Euclidean suite.
pub open spec fn landmark_sensor_entry(plain: Real64, landmarks: Seq<InverseDepthBlocks>, i: int, j: int) -> Real64 {
    let landmark = landmarks[i / 3];
    if !landmark.usable() {
        plain
    } else if j < 3 {
        landmark.input.at(i % 3, j).negated()
    } else if j < 6 {
        zero64()
    } else if 12 <= j < 15 {
        landmark.velocity.at(i % 3, j - 12)
    } else if 15 <= j < 21 {
        landmark.offset.at(i % 3, j - 15)
    } else {
        plain
    }
}

/// Landmarks by bearing and inverse distance.
#[derive(Clone, Copy, Debug, PartialEq, Eq, Structural)]
pub struct InvDepthSuite;

impl InvDepthSuite {
    pub fn new() -> (r: Self)
        ensures
            r == InvDepthSuite,
    {
        InvDepthSuite
    }

    /// The state matrix, from that of the Euclidean suite.
    pub fn state_matrix_a(&self, euclidean: BlockMatrix, landmarks: &[InverseDepthBlocks]) -> (m: BlockMatrix)
        requires
            euclidean.has_size(SENSOR_DIM + 3 * landmarks@.len(), SENSOR_DIM + 3 * landmarks@.len()),
            landmarks_wf(landmarks@),
        ensures
            m.has_size(SENSOR_DIM + 3 * landmarks@.len(), SENSOR_DIM + 3 * landmarks@.len()),
            forall|i: int, j: int|
                0 <= i < SENSOR_DIM + 3 * landmarks@.len() && 0 <= j < SENSOR_DIM + 3 * landmarks@.len()
                    ==> #[trigger] m.at(i, j) == state_entry(euclidean.at(i, j), landmarks@, i, j),
    {
        let n: usize = landmarks.len();
        proof {
            euclidean.lemma_size();
        }
        let mut m: BlockMatrix = euclidean;
        let mut k: usize = 0;
        while k < n
            invariant
                k <= n,
                n == landmarks@.len(),
                SENSOR_DIM + 3 * n <= usize::MAX,
                landmarks_wf(landmarks@),
                m.has_size(SENSOR_DIM + 3 * n, SENSOR_DIM + 3 * n),
                forall|i: int, j: int|
                    0 <= i < SENSOR_DIM + 3 * n && 0 <= j < SENSOR_DIM + 3 * n ==> #[trigger] m.at(i, j) == (if i
                        < SENSOR_DIM + 3 * k {
                        state_entry(euclidean.at(i, j), landmarks@, i, j)
                    } else {
                        euclidean.at(i, j)
                    }),
            decreases n - k,
        {
            let ghost before = m;
            let row: usize = SENSOR_DIM + 3 * k;
            let landmark: &InverseDepthBlocks = &landmarks[k];
            if landmark.is_usable() {
                m.set_block(row, 0, &landmark.bias);
                m.set_block(row, 12, &landmark.velocity);
                m.set_block(row, 15, &landmark.offset);
                m.set_block(row, row, &landmark.own);
            }
            assert forall|i: int, j: int| 0 <= i < SENSOR_DIM + 3 * n && 0 <= j < SENSOR_DIM + 3 * n implies #[trigger] m.at(
                i,
                j,
            ) == (if i < SENSOR_DIM + 3 * (k + 1) {
                state_entry(euclidean.at(i, j), landmarks@, i, j)
            } else {
                euclidean.at(i, j)
            }) by {
                assert(before.at(i, j) == before.at(i, j));
                if row <= i < row + 3 {
                    assert((i - 21) / 3 == k);
                }
            }
            k = k + 1;
        }
        m
    }

    /// The input matrix, from that of the Euclidean suite.
    pub fn input_matrix_b(&self, euclidean: BlockMatrix, landmarks: &[InverseDepthBlocks]) -> (m: BlockMatrix)
        requires
            euclidean.has_size(SENSOR_DIM + 3 * landmarks@.len(), 12),
            landmarks_wf(landmarks@),
        ensures
            m.has_size(SENSOR_DIM + 3 * landmarks@.len(), 12),
            forall|i: int, j: int|
                0 <= i < SENSOR_DIM + 3 * landmarks@.len() && 0 <= j < 12 ==> #[trigger] m.at(i, j) == input_entry(
                    euclidean.at(i, j),
                    landmarks@,
                    i,
                    j,
                ),
    {
        let n: usize = landmarks.len();
        proof {
            euclidean.lemma_size();
        }
        let mut m: BlockMatrix = euclidean;
        let mut k: usize = 0;
        while k < n
            invariant
                k <= n,
                n == landmarks@.len(),
                SENSOR_DIM + 3 * n <= usize::MAX,
                landmarks_wf(landmarks@),
                m.has_size(SENSOR_DIM + 3 * n, 12),
                forall|i: int, j: int|
                    0 <= i < SENSOR_DIM + 3 * n && 0 <= j < 12 ==> #[trigger] m.at(i, j) == (if i < SENSOR_DIM + 3
                        * k {
                        input_entry(euclidean.at(i, j), landmarks@, i, j)
                    } else {
                        euclidean.at(i, j)
                    }),
            decreases n - k,
        {
            let ghost before = m;
            let row: usize = SENSOR_DIM + 3 * k;
            if landmarks[k].is_charted() {
                m.set_block(row, 0, &landmarks[k].input);
            }
            assert forall|i: int, j: int| 0 <= i < SENSOR_DIM + 3 * n && 0 <= j < 12 implies #[trigger] m.at(i, j) == (
            if i < SENSOR_DIM + 3 * (k + 1) {
                input_entry(euclidean.at(i, j), landmarks@, i, j)
            } else {
                euclidean.at(i, j)
            }) by {
                assert(before.at(i, j) == before.at(i, j));
                if row <= i < row + 3 {
                    assert((i - 21) / 3 == k && (i - 21) % 3 == i - row);
                }
            }
            k = k + 1;
        }
        m
    }

    /// The matrices of one propagation step, from those of the Euclidean suite.
    pub fn propagation_blocks(
        &self,
        euclidean: RiccatiPropagationBlocks,
        landmarks: &[InverseDepthBlocks],
    ) -> (r: RiccatiPropagationBlocks)
        requires
            euclidean.wf(landmarks@.len() as int),
            landmarks_wf(landmarks@),
        ensures
            r.wf(landmarks@.len() as int),
            r.a_ss == euclidean.a_ss,
            r.b_s == euclidean.b_s,
            forall|i: int, j: int|
                0 <= i < 3 * landmarks@.len() && 0 <= j < 12 ==> #[trigger] r.b_lm.at(i, j) == input_entry(
                    euclidean.b_lm.at(i, j),
                    landmarks@,
                    21 + i,
                    j,
                ),
            forall|i: int, j: int|
                0 <= i < 3 * landmarks@.len() && 0 <= j < 21 ==> #[trigger] r.a_lm_s.at(i, j)
                    == landmark_sensor_entry(euclidean.a_lm_s.at(i, j), landmarks@, i, j),
            forall|k: int, i: int, j: int|
                0 <= k < landmarks@.len() && 0 <= i < 3 && 0 <= j < 3 ==> #[trigger] r.a_lm_lm@[k].at(i, j) == (
                if landmarks@[k].usable() {
                    landmarks@[k].own.at(i, j)
                } else {
                    euclidean.a_lm_lm@[k].at(i, j)
                }),
    {
        let n: usize = landmarks.len();
        proof {
            euclidean.a_lm_s.lemma_size();
        }
        let mut a_lm_s: BlockMatrix = euclidean.a_lm_s;
        let mut a_lm_lm: Vec<BlockMatrix> = Vec::new();
        let mut b_lm: BlockMatrix = euclidean.b_lm;
        let zeros: BlockMatrix = BlockMatrix::zeros(3, 3);
        let mut k: usize = 0;
        while k < n
            invariant
                k <= n,
                n == landmarks@.len(),
                3 * n <= usize::MAX,
                landmarks_wf(landmarks@),
                euclidean.wf(n as int),
                zeros.has_size(3, 3),
                forall|i: int, j: int| 0 <= i < 3 && 0 <= j < 3 ==> #[trigger] zeros.at(i, j) == zero64(),
                a_lm_s.has_size(3 * n as int, 21),
                forall|i: int, j: int|
                    0 <= i < 3 * n && 0 <= j < 21 ==> #[trigger] a_lm_s.at(i, j) == (if i < 3 * k {
                        landmark_sensor_entry(euclidean.a_lm_s.at(i, j), landmarks@, i, j)
                    } else {
                        euclidean.a_lm_s.at(i, j)
                    }),
                a_lm_lm@.len() == k,
                forall|l: int| 0 <= l < k ==> (#[trigger] a_lm_lm@[l]).has_size(3, 3),
                forall|l: int, i: int, j: int|
                    0 <= l < k && 0 <= i < 3 && 0 <= j < 3 ==> #[trigger] a_lm_lm@[l].at(i, j) == (
                    if landmarks@[l].usable() {
                        landmarks@[l].own.at(i, j)
                    } else {
                        euclidean.a_lm_lm@[l].at(i, j)
                    }),
                b_lm.has_size(3 * n as int, 12),
                forall|i: int, j: int|
                    0 <= i < 3 * n && 0 <= j < 12 ==> #[trigger] b_lm.at(i, j) == (if i < 3 * k {
                        input_entry(euclidean.b_lm.at(i, j), landmarks@, 21 + i, j)
                    } else {
                        euclidean.b_lm.at(i, j)
                    }),
            decreases n - k,
        {
            let ghost a_before = a_lm_s;
            let ghost b_before = b_lm;
            let row: usize = 3 * k;
            let landmark: &InverseDepthBlocks = &landmarks[k];
            if landmark.is_charted() {
                b_lm.set_block(row, 0, &landmark.input);
            }
            if landmark.is_usable() {
                a_lm_s.set_block(row, 0, &landmark.input.negated());
                a_lm_s.set_block(row, 3, &zeros);
                a_lm_s.set_block(row, 12, &landmark.velocity);
                a_lm_s.set_block(row, 15, &landmark.offset);
                a_lm_lm.push(landmark.own.block(0, 0, 3, 3));
            } else {
                a_lm_lm.push(euclidean.a_lm_lm[k].block(0, 0, 3, 3));
            }
            assert forall|i: int, j: int| 0 <= i < 3 * n && 0 <= j < 21 implies #[trigger] a_lm_s.at(i, j) == (if i
                < 3 * (k + 1) {
                landmark_sensor_entry(euclidean.a_lm_s.at(i, j), landmarks@, i, j)
            } else {
                euclidean.a_lm_s.at(i, j)
            }) by {
                assert(a_before.at(i, j) == a_before.at(i, j));
                if row <= i < row + 3 {
                    assert(i / 3 == k && i % 3 == i - row);
                }
            }
            assert forall|i: int, j: int| 0 <= i < 3 * n && 0 <= j < 12 implies #[trigger] b_lm.at(i, j) == (if i
                < 3 * (k + 1) {
                input_entry(euclidean.b_lm.at(i, j), landmarks@, 21 + i, j)
            } else {
                euclidean.b_lm.at(i, j)
            }) by {
                assert(b_before.at(i, j) == b_before.at(i, j));
                if row <= i < row + 3 {
                    assert((21 + i - 21) / 3 == k && (21 + i - 21) % 3 == i - row);
                }
            }
            k = k + 1;
        }
        RiccatiPropagationBlocks { a_ss: euclidean.a_ss, a_lm_s, a_lm_lm, b_s: euclidean.b_s, b_lm }
    }
}

/// The change of coordinates couples no landmark to another one, nor the sensor to any: an
/// entry between them stays what it was.
pub proof fn law_change_keeps_landmarks_apart(plain: Real64, landmarks: Seq<InverseDepthBlocks>, i: int, j: int)
    requires
        0 <= i < SENSOR_DIM + 3 * landmarks.len(),
        SENSOR_DIM <= j < SENSOR_DIM + 3 * landmarks.len(),
        i < SENSOR_DIM || (i - SENSOR_DIM) / 3 != (j - SENSOR_DIM) / 3,
    ensures
        state_entry(plain, landmarks, i, j) == plain,
{
    if i >= SENSOR_DIM {
        let k = (i - 21) / 3;
        if 21 + 3 * k <= j < 21 + 3 * k + 3 {
            assert((j - 21) / 3 == k);
        }
    }
}

/// The change to inverse depth keeps the sensor's rows. A landmark's rows hold its own blocks
/// under the biases, the velocity, the camera offset and itself where the chart is defined at it
/// and at its estimate, and stay Euclidean otherwise; under attitude and position they stay
/// Euclidean in any case.
pub proof fn law_changed_rows_by_blocks(plain: Real64, landmarks: Seq<InverseDepthBlocks>, k: int, a: int, i: int, j: int)
    requires
        0 <= k < landmarks.len(),
        0 <= a < 3,
        0 <= i < 21,
        0 <= j < 21 + 3 * landmarks.len(),
    ensures
        state_entry(plain, landmarks, i, j) == plain,
        ({
            let row = 21 + 3 * k;
            let entry = state_entry(plain, landmarks, row + a, j);
            let landmark = landmarks[k];
            let usable = landmark.usable();
            &&& !usable ==> entry == plain
            &&& usable && j < 6 ==> entry == landmark.bias.at(a, j)
            &&& 6 <= j < 12 ==> entry == plain
            &&& usable && 12 <= j < 15 ==> entry == landmark.velocity.at(a, j - 12)
            &&& usable && 15 <= j < 21 ==> entry == landmark.offset.at(a, j - 15)
            &&& usable && row <= j < row + 3 ==> entry == landmark.own.at(a, j - row)
        }),
{
    assert((21 + 3 * k + a - 21) / 3 == k);
}

/// In the input matrix a landmark's rows under the gyroscope are its own where the chart is
/// defined at it; every other entry stays Euclidean.
pub proof fn law_changed_input_by_blocks(plain: Real64, landmarks: Seq<InverseDepthBlocks>, k: int, a: int, i: int, j: int)
    requires
        0 <= k < landmarks.len(),
        0 <= a < 3,
        0 <= i < 21,
        0 <= j < 12,
    ensures
        input_entry(plain, landmarks, i, j) == plain,
        j >= 3 || !landmarks[k].charted() ==> input_entry(plain, landmarks, 21 + 3 * k + a, j) == plain,
        j < 3 && landmarks[k].charted() ==> input_entry(plain, landmarks, 21 + 3 * k + a, j)
            == landmarks[k].input.at(a, j),
{
    assert((21 + 3 * k + a - 21) / 3 == k && (21 + 3 * k + a - 21) % 3 == a);
}

/// In the blocks of a propagation step a usable landmark holds its input with the opposite sign
/// under the gyroscope's bias, zeros under the accelerometer's bias, its own blocks under the
/// velocity and the camera offset, and what it had under attitude and position; another one
/// stays Euclidean.
pub proof fn law_changed_step_by_blocks(plain: Real64, landmarks: Seq<InverseDepthBlocks>, k: int, a: int, j: int)
    requires
        0 <= k < landmarks.len(),
        0 <= a < 3,
        0 <= j < 21,
    ensures
        ({
            let entry = landmark_sensor_entry(plain, landmarks, 3 * k + a, j);
            let landmark = landmarks[k];
            let usable = landmark.usable();
            &&& !usable ==> entry == plain
            &&& usable && j < 3 ==> entry == landmark.input.at(a, j).negated()
            &&& usable && 3 <= j < 6 ==> entry.bits == 0
            &&& 6 <= j < 12 ==> entry == plain
            &&& usable && 12 <= j < 15 ==> entry == landmark.velocity.at(a, j - 12)
            &&& usable && j >= 15 ==> entry == landmark.offset.at(a, j - 15)
        }),
{
    assert((3 * k + a) / 3 == k && (3 * k + a) % 3 == a);
}

/// The chart is defined at a landmark whose distance at the origin is not below 1e-10 and whose
/// scale is finite and at least 1e-12 in size; a landmark is usable where, besides, its
/// estimated distance is not below 1e-10.
pub proof fn law_chart_is_defined_away_from_the_camera(landmark: &InverseDepthBlocks, charted: bool, usable: bool)
    requires
        call_ensures(InverseDepthBlocks::is_charted, (landmark,), charted),
        call_ensures(InverseDepthBlocks::is_usable, (landmark,), usable),
    ensures
        ({
            let least = (Real64 { bits: 0x3D71_9799_812D_EA11 }).value();
            let scaled = landmark.scale.finite() && (landmark.scale.value() >= least || landmark.scale.value()
                <= -least);
            &&& charted <==> scaled && !landmark.origin_distance.lt(Real64 { bits: 0x3DDB_7CDF_D9D7_BDBB })
            &&& usable <==> charted && !landmark.estimated_distance.lt(Real64 { bits: 0x3DDB_7CDF_D9D7_BDBB })
        }),
{
    crate::coordinate_suite::euclid::least_scale().lemma_negation();
}

/// An inverse distance is itself where it is positive, and 1e-6 where it is zero or negative.
pub proof fn law_inverse_depth_is_kept_where_positive(rho: Real64, r: Real64)
    requires
        call_ensures(usable_inverse_depth, (rho,), r),
    ensures
        zero64().lt(rho) ==> r == rho,
        rho.le(zero64()) ==> r.bits == 0x3EB0_C6F7_A0B5_ED8D,
{
}

/// The two Jacobians keep what belongs to the bearing in the first two rows and columns; the last
/// row and the last column are those of the inverse distance.
pub proof fn law_inverse_depth_stands_last(
    rows: &BlockMatrix,
    row: &[Real64; 3],
    to: BlockMatrix,
    columns: &BlockMatrix,
    column: &[Real64; 3],
    from: BlockMatrix,
    i: int,
)
    requires
        rows.has_size(2, 3),
        columns.has_size(3, 2),
        call_ensures(conv_euc2ind, (rows, row), to),
        call_ensures(conv_ind2euc, (columns, column), from),
        0 <= i < 3,
    ensures
        to.at(0, i) == rows.at(0, i) && to.at(1, i) == rows.at(1, i) && to.at(2, i) == row@[i],
        from.at(i, 0) == columns.at(i, 0) && from.at(i, 1) == columns.at(i, 1) && from.at(i, 2) == column@[i],
{
}

} // verus!
