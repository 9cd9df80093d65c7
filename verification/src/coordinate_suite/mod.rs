//! Charts of the filter state and the matrices of its linearised error dynamics.
//!
//! Products and quotients of numbers are computed by the caller. What stands here decides
//! which of them are used, and where in a vector or matrix each of them goes.
use vstd::prelude::*;
use crate::coordinate_suite::matrix::BlockMatrix;
use crate::ieee::{real64, zero64, Real64};

pub mod euclid;
pub mod invdepth;
pub mod matrix;
pub mod normal;

verus! {

/// Number of error coordinates of the sensor: six of the biases, six of the pose, three of
/// the velocity, six of the camera offset.
pub const SENSOR_DIM: usize = 21;

/// The entry of the matrix of the cross product with `v`.
pub open spec fn skew_entry(v: Seq<Real64>, i: int, j: int) -> Real64 {
    if i == 0 && j == 1 {
        v[2].negated()
    } else if i == 0 && j == 2 {
        v[1]
    } else if i == 1 && j == 0 {
        v[2]
    } else if i == 1 && j == 2 {
        v[0].negated()
    } else if i == 2 && j == 0 {
        v[1].negated()
    } else if i == 2 && j == 1 {
        v[0]
    } else {
        zero64()
    }
}

/// The matrix of the cross product with a vector.
pub fn base_skew(v: &[Real64; 3]) -> (m: BlockMatrix)
    ensures
        m.has_size(3, 3),
        forall|i: int, j: int| 0 <= i < 3 && 0 <= j < 3 ==> #[trigger] m.at(i, j) == skew_entry(v@, i, j),
{
    let mut m: BlockMatrix = BlockMatrix::zeros(3, 3);
    m.set(0, 1, v[2].neg());
    m.set(0, 2, v[1]);
    m.set(1, 0, v[2]);
    m.set(1, 2, v[0].neg());
    m.set(2, 0, v[1].neg());
    m.set(2, 1, v[0]);
    m
}

/// Off its diagonal the matrix of the cross product is the negative of its transpose, and
/// its diagonal is zero.
pub proof fn law_skew_is_antisymmetric(v: Seq<Real64>, i: int, j: int)
    requires
        0 <= i < 3,
        0 <= j < 3,
    ensures
        i != j ==> skew_entry(v, i, j).negated() == skew_entry(v, j, i),
        i == j ==> skew_entry(v, i, j) == zero64(),
{
    v[0].lemma_negation();
    v[1].lemma_negation();
    v[2].lemma_negation();
}

/// The distance from the pole below which a stereographic projection is not formed.
#[verifier::allow_in_spec]
pub fn pole_limit() -> Real64
    returns
        (Real64 { bits: 0x3D71_9799_812D_EA11 }),
{
    real64(0x3D71_9799_812D_EA11)
}

/// Whether a number lies strictly between a limit and its negative.
pub open spec fn within(x: Real64, limit: Real64) -> bool {
    x.lt(limit) && limit.negated().lt(x)
}

/// Decides whether a number lies strictly between a limit and its negative.
pub fn is_within(x: Real64, limit: Real64) -> (r: bool)
    ensures
        r == within(x, limit),
{
    x.less(limit) && limit.neg().less(x)
}

/// The stereographic projection of a point of the sphere, from its distance `d` to the
/// plane through the pole and its quotients by that distance: the origin near the pole.
pub fn e3_project_sphere(d: Real64, quotients: [Real64; 2]) -> (r: [Real64; 2])
    ensures
        within(d, pole_limit()) ==> r@ == seq![zero64(), zero64()],
        !within(d, pole_limit()) ==> r@ == quotients@,
{
    if is_within(d, pole_limit()) {
        let r: [Real64; 2] = [zero64(), zero64()];
        assert(r@ =~= seq![zero64(), zero64()]);
        r
    } else {
        quotients
    }
}

/// The entry of the Jacobian of the stereographic projection.
pub open spec fn project_sphere_diff_entry(d: Real64, inverse: Real64, slopes: Seq<Real64>, i: int, j: int) -> Real64 {
    if within(d, pole_limit()) {
        zero64()
    } else if i == j {
        inverse
    } else if j == 2 {
        slopes[i]
    } else {
        zero64()
    }
}

/// The Jacobian of the stereographic projection, from the distance `d` to the plane through
/// the pole, its inverse, and the point's first two coordinates over its square: zero near
/// the pole.
pub fn e3_project_sphere_diff(d: Real64, inverse: Real64, slopes: &[Real64; 2]) -> (m: BlockMatrix)
    ensures
        m.has_size(2, 3),
        forall|i: int, j: int|
            0 <= i < 2 && 0 <= j < 3 ==> #[trigger] m.at(i, j) == project_sphere_diff_entry(
                d,
                inverse,
                slopes@,
                i,
                j,
            ),
{
    let mut m: BlockMatrix = BlockMatrix::zeros(2, 3);
    if !is_within(d, pole_limit()) {
        m.set(0, 0, inverse);
        m.set(0, 2, slopes[0]);
        m.set(1, 1, inverse);
        m.set(1, 2, slopes[1]);
    }
    m
}

/// The error coordinates of a state: those of the sensor and three of each landmark.
#[derive(Clone, Debug)]
pub struct StateError {
    pub bias: [Real64; 6],
    pub pose: [Real64; 6],
    pub velocity: [Real64; 3],
    pub offset: [Real64; 6],
    pub landmarks: Vec<[Real64; 3]>,
}

impl StateError {
    /// The number of coordinates.
    pub open spec fn dim(self) -> int {
        SENSOR_DIM + 3 * self.landmarks@.len()
    }

    /// One coordinate.
    pub open spec fn coordinate(self, i: int) -> Real64 {
        if i < 6 {
            self.bias@[i]
        } else if i < 12 {
            self.pose@[i - 6]
        } else if i < 15 {
            self.velocity@[i - 12]
        } else if i < 21 {
            self.offset@[i - 15]
        } else {
            self.landmarks@[(i - 21) / 3]@[(i - 21) % 3]
        }
    }

    /// All coordinates in one vector.
    pub fn stacked(&self) -> (r: Vec<Real64>)
        requires
            self.dim() <= usize::MAX,
        ensures
            r@.len() == self.dim(),
            forall|i: int| 0 <= i < self.dim() ==> #[trigger] r@[i] == self.coordinate(i),
    {
        let mut r: Vec<Real64> = Vec::new();
        let mut i: usize = 0;
        while i < 6
            invariant
                i <= 6,
                r@.len() == i,
                forall|a: int| 0 <= a < i ==> #[trigger] r@[a] == self.coordinate(a),
            decreases 6 - i,
        {
            r.push(self.bias[i]);
            i = i + 1;
        }
        while i < 12
            invariant
                6 <= i <= 12,
                r@.len() == i,
                forall|a: int| 0 <= a < i ==> #[trigger] r@[a] == self.coordinate(a),
            decreases 12 - i,
        {
            r.push(self.pose[i - 6]);
            i = i + 1;
        }
        while i < 15
            invariant
                12 <= i <= 15,
                r@.len() == i,
                forall|a: int| 0 <= a < i ==> #[trigger] r@[a] == self.coordinate(a),
            decreases 15 - i,
        {
            r.push(self.velocity[i - 12]);
            i = i + 1;
        }
        while i < 21
            invariant
                15 <= i <= 21,
                r@.len() == i,
                forall|a: int| 0 <= a < i ==> #[trigger] r@[a] == self.coordinate(a),
            decreases 21 - i,
        {
            r.push(self.offset[i - 15]);
            i = i + 1;
        }
        let n: usize = self.landmarks.len();
        let mut k: usize = 0;
        while k < n
            invariant
                k <= n,
                n == self.landmarks@.len(),
                r@.len() == 21 + 3 * k,
                forall|a: int| 0 <= a < 21 + 3 * k ==> #[trigger] r@[a] == self.coordinate(a),
            decreases n - k,
        {
            let p: &[Real64; 3] = &self.landmarks[k];
            r.push(p[0]);
            r.push(p[1]);
            r.push(p[2]);
            k = k + 1;
        }
        r
    }

    /// The coordinates in a vector, part by part; nothing if their number does not fit.
    pub fn from_stacked(r: &[Real64]) -> (e: Option<Self>)
        ensures
            e is Some <==> r@.len() >= SENSOR_DIM && (r@.len() - SENSOR_DIM) % 3 == 0,
            e matches Some(x) ==> x.dim() == r@.len() && forall|i: int|
                0 <= i < r@.len() ==> #[trigger] x.coordinate(i) == r@[i],
    {
        if r.len() < SENSOR_DIM || (r.len() - SENSOR_DIM) % 3 != 0 {
            return None;
        }
        let n: usize = (r.len() - SENSOR_DIM) / 3;
        let mut landmarks: Vec<[Real64; 3]> = Vec::new();
        let mut k: usize = 0;
        while k < n
            invariant
                k <= n,
                r@.len() == 21 + 3 * n,
                r@.len() <= usize::MAX,
                landmarks@.len() == k,
                forall|a: int, c: int|
                    0 <= a < k && 0 <= c < 3 ==> #[trigger] landmarks@[a]@[c] == r@[21 + 3 * a + c],
            decreases n - k,
        {
            landmarks.push([r[21 + 3 * k], r[21 + 3 * k + 1], r[21 + 3 * k + 2]]);
            k = k + 1;
        }
        let x: StateError = StateError {
            bias: [r[0], r[1], r[2], r[3], r[4], r[5]],
            pose: [r[6], r[7], r[8], r[9], r[10], r[11]],
            velocity: [r[12], r[13], r[14]],
            offset: [r[15], r[16], r[17], r[18], r[19], r[20]],
            landmarks,
        };
        assert forall|i: int| 0 <= i < r@.len() implies #[trigger] x.coordinate(i) == r@[i] by {
            if i >= 21 {
                let a = (i - 21) / 3;
                let c = (i - 21) % 3;
                assert(21 + 3 * a + c == i);
                assert(landmarks@[a]@[c] == r@[21 + 3 * a + c]);
            }
        }
        Some(x)
    }
}

/// Two sets of error coordinates with the same vector are the same part by part: nothing is
/// lost between the parts and the vector.
pub proof fn law_stacking_loses_nothing(a: StateError, b: StateError)
    requires
        a.dim() == b.dim(),
        forall|i: int| 0 <= i < a.dim() ==> #[trigger] a.coordinate(i) == b.coordinate(i),
    ensures
        a.bias@ == b.bias@,
        a.pose@ == b.pose@,
        a.velocity@ == b.velocity@,
        a.offset@ == b.offset@,
        a.landmarks@.len() == b.landmarks@.len(),
        forall|k: int| 0 <= k < a.landmarks@.len() ==> #[trigger] a.landmarks@[k]@ == b.landmarks@[k]@,
{
    assert forall|i: int| 0 <= i < 6 implies a.bias@[i] == b.bias@[i] by {
        assert(a.coordinate(i) == b.coordinate(i));
    }
    assert(a.bias@ =~= b.bias@);
    assert forall|i: int| 0 <= i < 6 implies a.pose@[i] == b.pose@[i] by {
        assert(a.coordinate(i + 6) == b.coordinate(i + 6));
    }
    assert(a.pose@ =~= b.pose@);
    assert forall|i: int| 0 <= i < 3 implies a.velocity@[i] == b.velocity@[i] by {
        assert(a.coordinate(i + 12) == b.coordinate(i + 12));
    }
    assert(a.velocity@ =~= b.velocity@);
    assert forall|i: int| 0 <= i < 6 implies a.offset@[i] == b.offset@[i] by {
        assert(a.coordinate(i + 15) == b.coordinate(i + 15));
    }
    assert(a.offset@ =~= b.offset@);
    assert forall|k: int| 0 <= k < a.landmarks@.len() implies #[trigger] a.landmarks@[k]@ == b.landmarks@[k]@ by {
        assert forall|c: int| 0 <= c < 3 implies a.landmarks@[k]@[c] == b.landmarks@[k]@[c] by {
            assert(a.coordinate(21 + 3 * k + c) == b.coordinate(21 + 3 * k + c));
        }
        assert(a.landmarks@[k]@ =~= b.landmarks@[k]@);
    }
}

/// The three by three matrix of two rows above a third one.
pub fn rows_above(top: &BlockMatrix, bottom: &[Real64; 3]) -> (m: BlockMatrix)
    requires
        top.has_size(2, 3),
    ensures
        m.has_size(3, 3),
        forall|i: int, j: int|
            0 <= i < 3 && 0 <= j < 3 ==> #[trigger] m.at(i, j) == (if i < 2 {
                top.at(i, j)
            } else {
                bottom@[j]
            }),
{
    let mut m: BlockMatrix = BlockMatrix::zeros(3, 3);
    m.set_block(0, 0, top);
    m.set(2, 0, bottom[0]);
    m.set(2, 1, bottom[1]);
    m.set(2, 2, bottom[2]);
    m
}

/// The three by three matrix of two columns left of a third one.
pub fn columns_beside(left: &BlockMatrix, right: &[Real64; 3]) -> (m: BlockMatrix)
    requires
        left.has_size(3, 2),
    ensures
        m.has_size(3, 3),
        forall|i: int, j: int|
            0 <= i < 3 && 0 <= j < 3 ==> #[trigger] m.at(i, j) == (if j < 2 {
                left.at(i, j)
            } else {
                right@[i]
            }),
{
    let mut m: BlockMatrix = BlockMatrix::zeros(3, 3);
    m.set_block(0, 0, left);
    m.set(0, 2, right[0]);
    m.set(1, 2, right[1]);
    m.set(2, 2, right[2]);
    m
}

/// The matrix of the cross product: each row holds, behind its zero, the negated second
/// component behind its own and then the first one, counted around.
pub proof fn law_skew_is_the_cross_product(v: &[Real64; 3], m: BlockMatrix, i: int)
    requires
        call_ensures(base_skew, (v,), m),
        0 <= i < 3,
    ensures
        m.at(i, i).bits == 0,
        m.at(i, (i + 1) % 3) == v@[(i + 2) % 3].negated(),
        m.at(i, (i + 2) % 3) == v@[(i + 1) % 3],
{
}

/// Near the pole a stereographic projection is the origin, and its Jacobian zero; elsewhere the
/// projection is the pair of quotients, and its Jacobian holds the inverse distance on the
/// diagonal of its first two columns, zeros beside it, and the slopes in the last column.
pub proof fn law_projection_is_cut_at_the_pole(
    d: Real64,
    quotients: [Real64; 2],
    r: [Real64; 2],
    inverse: Real64,
    slopes: &[Real64; 2],
    m: BlockMatrix,
    i: int,
)
    requires
        call_ensures(e3_project_sphere, (d, quotients), r),
        call_ensures(e3_project_sphere_diff, (d, inverse, slopes), m),
        0 <= i < 2,
    ensures
        ({
            let limit = Real64 { bits: 0x3D71_9799_812D_EA11 };
            let near = !d.nan() && -limit.value() < d.value() < limit.value();
            &&& near ==> r@[i].bits == 0 && m.at(i, 0).bits == 0 && m.at(i, 1).bits == 0 && m.at(i, 2).bits == 0
            &&& !near ==> r@[i] == quotients@[i] && m.at(i, i) == inverse && m.at(i, 1 - i).bits == 0 && m.at(i, 2)
                == slopes@[i]
        }),
{
    let limit = Real64 { bits: 0x3D71_9799_812D_EA11 };
    limit.lemma_negation();
    assert(limit == pole_limit());
    let near = !d.nan() && -limit.value() < d.value() < limit.value();
    assert(within(d, pole_limit()) <==> near);
    assert(r@[i] == (if near { seq![zero64(), zero64()][i] } else { quotients@[i] }));
}

/// A state has its biases first, then the pose, the velocity, the camera offset and the
/// landmarks, each of them in its own order.
pub proof fn law_parts_are_stacked_in_order(e: &StateError, r: Vec<Real64>, i: int, k: int, c: int)
    requires
        e.dim() <= usize::MAX,
        call_ensures(StateError::stacked, (e,), r),
        0 <= i < 6,
        0 <= k < e.landmarks@.len(),
        0 <= c < 3,
    ensures
        r@.len() == 21 + 3 * e.landmarks@.len(),
        r@[i] == e.bias@[i],
        r@[6 + i] == e.pose@[i],
        r@[12 + c] == e.velocity@[c],
        r@[15 + i] == e.offset@[i],
        r@[21 + 3 * k + c] == e.landmarks@[k]@[c],
{
    assert((21 + 3 * k + c - 21) / 3 == k && (21 + 3 * k + c - 21) % 3 == c);
}

/// A row set below two others is the last row, and leaves the two where they are; a column set
/// beside two others is the last column.
pub proof fn law_third_row_and_column_come_last(
    top: &BlockMatrix,
    bottom: &[Real64; 3],
    rows: BlockMatrix,
    left: &BlockMatrix,
    right: &[Real64; 3],
    columns: BlockMatrix,
    i: int,
)
    requires
        top.has_size(2, 3),
        left.has_size(3, 2),
        call_ensures(rows_above, (top, bottom), rows),
        call_ensures(columns_beside, (left, right), columns),
        0 <= i < 3,
    ensures
        rows.at(0, i) == top.at(0, i) && rows.at(1, i) == top.at(1, i) && rows.at(2, i) == bottom@[i],
        columns.at(i, 0) == left.at(i, 0) && columns.at(i, 1) == left.at(i, 1) && columns.at(i, 2) == right@[i],
{
}

} // verus!
