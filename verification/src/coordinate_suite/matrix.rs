//! Dense matrices of numbers, put together block by block.
use vstd::prelude::*;
use crate::ieee::{one64, zero64, Real64};

verus! {

/// A dense matrix, row by row.
#[derive(Clone, Debug)]
pub struct BlockMatrix {
    rows: usize,
    cols: usize,
    data: Vec<Real64>,
}

/// Whether an entry lies in the block of `h` by `w` entries at row `r` and column `c`.
pub open spec fn in_block(i: int, j: int, r: int, c: int, h: int, w: int) -> bool {
    r <= i < r + h && c <= j < c + w
}

/// The entries of an identity matrix.
pub open spec fn identity_entry(i: int, j: int) -> Real64 {
    if i == j {
        one64()
    } else {
        zero64()
    }
}

impl BlockMatrix {
    pub closed spec fn height(self) -> nat {
        self.rows as nat
    }

    pub closed spec fn width(self) -> nat {
        self.cols as nat
    }

    /// The entry at a row and a column.
    pub closed spec fn at(self, i: int, j: int) -> Real64 {
        self.data@[crate::layout::cell2(self.cols as int, j, i)]
    }

    /// There is one number for each entry.
    pub closed spec fn wf(self) -> bool {
        self.data@.len() == self.rows * self.cols
    }

    pub open spec fn has_size(self, rows: int, cols: int) -> bool {
        self.wf() && self.height() == rows && self.width() == cols
    }

    /// The size of the storage fits the machine.
    pub proof fn lemma_size(self)
        requires
            self.wf(),
        ensures
            self.height() * self.width() <= usize::MAX,
            self.height() <= usize::MAX,
            self.width() <= usize::MAX,
    {
        assert(self.data.len() <= usize::MAX);
    }

    /// A matrix that holds one number everywhere.
    pub fn filled(rows: usize, cols: usize, value: Real64) -> (r: Self)
        requires
            rows * cols <= usize::MAX,
        ensures
            r.has_size(rows as int, cols as int),
            forall|i: int, j: int| 0 <= i < rows && 0 <= j < cols ==> #[trigger] r.at(i, j) == value,
    {
        let r: BlockMatrix = BlockMatrix { rows, cols, data: vec![value; rows * cols] };
        assert forall|i: int, j: int| 0 <= i < rows && 0 <= j < cols implies #[trigger] r.at(i, j) == value by {
            crate::layout::lemma_cell2_bound(cols as int, rows as int, j, i);
            assert(rows * cols == cols * rows) by (nonlinear_arith);
        }
        r
    }

    /// A matrix of zeros.
    pub fn zeros(rows: usize, cols: usize) -> (r: Self)
        requires
            rows * cols <= usize::MAX,
        ensures
            r.has_size(rows as int, cols as int),
            forall|i: int, j: int| 0 <= i < rows && 0 <= j < cols ==> #[trigger] r.at(i, j) == zero64(),
    {
        Self::filled(rows, cols, zero64())
    }

    pub fn row_count(&self) -> (r: usize)
        ensures
            r == self.height(),
    {
        self.rows
    }

    pub fn column_count(&self) -> (r: usize)
        ensures
            r == self.width(),
    {
        self.cols
    }

    /// The entry at a row and a column.
    pub fn get(&self, i: usize, j: usize) -> (r: Real64)
        requires
            self.wf(),
            i < self.height(),
            j < self.width(),
        ensures
            r == self.at(i as int, j as int),
    {
        proof {
            crate::layout::lemma_cell2_bound(self.cols as int, self.rows as int, j as int, i as int);
            assert(self.rows * self.cols == self.cols * self.rows) by (nonlinear_arith);
            assert(self.data.len() <= usize::MAX);
        }
        self.data[i * self.cols + j]
    }

    /// Writes one entry.
    pub fn set(&mut self, i: usize, j: usize, value: Real64)
        requires
            old(self).wf(),
            i < old(self).height(),
            j < old(self).width(),
        ensures
            final(self).has_size(old(self).height() as int, old(self).width() as int),
            forall|a: int, b: int|
                0 <= a < old(self).height() && 0 <= b < old(self).width() ==> #[trigger] final(self).at(a, b) == (
                if a == i && b == j {
                    value
                } else {
                    old(self).at(a, b)
                }),
    {
        let ghost before = *self;
        proof {
            crate::layout::lemma_cell2_bound(self.cols as int, self.rows as int, j as int, i as int);
            assert(self.rows * self.cols == self.cols * self.rows) by (nonlinear_arith);
            assert(self.data.len() <= usize::MAX);
        }
        let position: usize = i * self.cols + j;
        self.data.set(position, value);
        assert forall|a: int, b: int| 0 <= a < before.height() && 0 <= b < before.width() implies #[trigger] self.at(
            a,
            b,
        ) == (if a == i && b == j {
            value
        } else {
            before.at(a, b)
        }) by {
            crate::layout::lemma_cell2_injective(before.cols as int, b, a, j as int, i as int);
            crate::layout::lemma_cell2_bound(before.cols as int, before.rows as int, b, a);
        }
    }

    /// Writes a block of entries, its upper left one at row `r` and column `c`.
    pub fn set_block(&mut self, r: usize, c: usize, block: &BlockMatrix)
        requires
            old(self).wf(),
            block.wf(),
            r + block.height() <= old(self).height(),
            c + block.width() <= old(self).width(),
        ensures
            final(self).has_size(old(self).height() as int, old(self).width() as int),
            forall|i: int, j: int|
                0 <= i < old(self).height() && 0 <= j < old(self).width() ==> #[trigger] final(self).at(i, j) == (
                if in_block(i, j, r as int, c as int, block.height() as int, block.width() as int) {
                    block.at(i - r, j - c)
                } else {
                    old(self).at(i, j)
                }),
    {
        let ghost before = *self;
        let h: usize = block.rows;
        let w: usize = block.cols;
        let mut i: usize = 0;
        while i < h
            invariant
                i <= h,
                h == block.height(),
                w == block.width(),
                block.wf(),
                before.wf(),
                r + h <= before.height(),
                c + w <= before.width(),
                self.has_size(before.height() as int, before.width() as int),
                forall|a: int, b: int|
                    0 <= a < before.height() && 0 <= b < before.width() ==> #[trigger] self.at(a, b) == (if in_block(
                        a,
                        b,
                        r as int,
                        c as int,
                        i as int,
                        w as int,
                    ) {
                        block.at(a - r, b - c)
                    } else {
                        before.at(a, b)
                    }),
            decreases h - i,
        {
            let mut j: usize = 0;
            while j < w
                invariant
                    i < h,
                    j <= w,
                    h == block.height(),
                    w == block.width(),
                    block.wf(),
                    before.wf(),
                    r + h <= before.height(),
                    c + w <= before.width(),
                    before.height() <= usize::MAX,
                    before.width() <= usize::MAX,
                    self.has_size(before.height() as int, before.width() as int),
                    forall|a: int, b: int|
                        0 <= a < before.height() && 0 <= b < before.width() ==> #[trigger] self.at(a, b) == (
                        if in_block(a, b, r as int, c as int, i as int, w as int) || in_block(
                            a,
                            b,
                            r + i,
                            c as int,
                            1,
                            j as int,
                        ) {
                            block.at(a - r, b - c)
                        } else {
                            before.at(a, b)
                        }),
                decreases w - j,
            {
                let value: Real64 = block.get(i, j);
                self.set(r + i, c + j, value);
                j = j + 1;
            }
            i = i + 1;
        }
    }

    /// The block of `h` by `w` entries at row `r` and column `c`.
    pub fn block(&self, r: usize, c: usize, h: usize, w: usize) -> (m: Self)
        requires
            self.wf(),
            r + h <= self.height(),
            c + w <= self.width(),
        ensures
            m.has_size(h as int, w as int),
            forall|i: int, j: int| 0 <= i < h && 0 <= j < w ==> #[trigger] m.at(i, j) == self.at(r + i, c + j),
    {
        proof {
            self.lemma_size();
            let height = self.height() as int;
            let width = self.width() as int;
            assert(h * w <= height * width) by (nonlinear_arith)
                requires
                    0 <= h <= height,
                    0 <= w <= width,
            ;
        }
        let mut m: BlockMatrix = BlockMatrix::zeros(h, w);
        let mut i: usize = 0;
        while i < h
            invariant
                i <= h,
                self.wf(),
                r + h <= self.height(),
                c + w <= self.width(),
                m.has_size(h as int, w as int),
                forall|a: int, b: int| 0 <= a < i && 0 <= b < w ==> #[trigger] m.at(a, b) == self.at(r + a, c + b),
            decreases h - i,
        {
            let mut j: usize = 0;
            while j < w
                invariant
                    i < h,
                    j <= w,
                    self.wf(),
                    r + h <= self.height(),
                    c + w <= self.width(),
                    self.height() <= usize::MAX,
                    self.width() <= usize::MAX,
                    m.has_size(h as int, w as int),
                    forall|a: int, b: int|
                        (0 <= a < i && 0 <= b < w) || (a == i && 0 <= b < j) ==> #[trigger] m.at(a, b) == self.at(
                            r + a,
                            c + b,
                        ),
                decreases w - j,
            {
                let value: Real64 = self.get(r + i, c + j);
                m.set(i, j, value);
                j = j + 1;
            }
            i = i + 1;
        }
        m
    }

    /// The matrix with all signs flipped.
    pub fn negated(&self) -> (m: Self)
        requires
            self.wf(),
        ensures
            m.has_size(self.height() as int, self.width() as int),
            forall|i: int, j: int|
                0 <= i < self.height() && 0 <= j < self.width() ==> #[trigger] m.at(i, j) == self.at(i, j).negated(),
    {
        let n: usize = self.data.len();
        let mut data: Vec<Real64> = Vec::new();
        let mut k: usize = 0;
        while k < n
            invariant
                k <= n,
                n == self.data@.len(),
                data@.len() == k,
                forall|a: int| 0 <= a < k ==> #[trigger] data@[a] == self.data@[a].negated(),
            decreases n - k,
        {
            data.push(self.data[k].neg());
            k = k + 1;
        }
        let m: BlockMatrix = BlockMatrix { rows: self.rows, cols: self.cols, data };
        assert forall|i: int, j: int| 0 <= i < self.height() && 0 <= j < self.width() implies #[trigger] m.at(i, j)
            == self.at(i, j).negated() by {
            crate::layout::lemma_cell2_bound(self.cols as int, self.rows as int, j, i);
            assert(self.rows * self.cols == self.cols * self.rows) by (nonlinear_arith);
        }
        m
    }

    /// The identity matrix of `n` rows.
    pub fn identity(n: usize) -> (m: Self)
        requires
            n * n <= usize::MAX,
        ensures
            m.has_size(n as int, n as int),
            forall|i: int, j: int| 0 <= i < n && 0 <= j < n ==> #[trigger] m.at(i, j) == identity_entry(i, j),
    {
        let mut m: BlockMatrix = BlockMatrix::zeros(n, n);
        let mut k: usize = 0;
        while k < n
            invariant
                k <= n,
                m.has_size(n as int, n as int),
                forall|i: int, j: int|
                    0 <= i < n && 0 <= j < n ==> #[trigger] m.at(i, j) == (if i == j && i < k {
                        one64()
                    } else {
                        zero64()
                    }),
            decreases n - k,
        {
            m.set(k, k, one64());
            k = k + 1;
        }
        m
    }

    /// The matrix of the given numbers, row by row; nothing if there are too few or too many.
    pub fn from_rows(rows: usize, cols: usize, data: Vec<Real64>) -> (m: Option<Self>)
        requires
            rows * cols <= usize::MAX,
        ensures
            m is Some <==> data@.len() == rows * cols,
            m matches Some(b) ==> b.has_size(rows as int, cols as int) && forall|i: int, j: int|
                0 <= i < rows && 0 <= j < cols ==> #[trigger] b.at(i, j) == data@[i * cols + j],
    {
        if data.len() == rows * cols {
            Some(BlockMatrix { rows, cols, data })
        } else {
            None
        }
    }

    /// The numbers of the matrix, row by row.
    pub fn to_rows(&self) -> (data: Vec<Real64>)
        requires
            self.wf(),
        ensures
            data@.len() == self.height() * self.width(),
            forall|i: int, j: int|
                0 <= i < self.height() && 0 <= j < self.width() ==> data@[i * self.width() + j] == #[trigger] self.at(
                    i,
                    j,
                ),
    {
        let data: Vec<Real64> = self.data.clone();
        assert(data@ =~= self.data@);
        data
    }
}

/// Writing a block and reading it back gives the block.
pub proof fn law_block_reads_back(before: BlockMatrix, after: BlockMatrix, block: BlockMatrix, r: int, c: int, i: int, j: int)
    requires
        0 <= r,
        0 <= c,
        r + block.height() <= before.height(),
        c + block.width() <= before.width(),
        forall|a: int, b: int|
            0 <= a < before.height() && 0 <= b < before.width() ==> #[trigger] after.at(a, b) == (if in_block(
                a,
                b,
                r,
                c,
                block.height() as int,
                block.width() as int,
            ) {
                block.at(a - r, b - c)
            } else {
                before.at(a, b)
            }),
        0 <= i < block.height(),
        0 <= j < block.width(),
    ensures
        after.at(r + i, c + j) == block.at(i, j),
{
}

/// An identity matrix has ones on its diagonal and zeros beside it; a negated matrix has every
/// number with the opposite sign.
pub proof fn law_identity_and_negation(n: usize, m: BlockMatrix, a: &BlockMatrix, b: BlockMatrix, i: int, j: int)
    requires
        n * n <= usize::MAX,
        call_ensures(BlockMatrix::identity, (n,), m),
        a.wf(),
        a.height() == n,
        a.width() == n,
        call_ensures(BlockMatrix::negated, (a,), b),
        0 <= i < n,
        0 <= j < n,
    ensures
        m.at(i, j).bits == (if i == j { 0x3FF0_0000_0000_0000u64 } else { 0u64 }),
        b.at(i, j).value() == -a.at(i, j).value(),
{
    a.at(i, j).lemma_negation();
}

/// An entry lies in a block where its distance from the upper left corner is within the block's
/// size, along both axes.
pub proof fn law_block_is_a_rectangle(i: int, j: int, r: int, c: int, h: int, w: int)
    ensures
        in_block(i, j, r, c, h, w) <==> 0 <= i - r < h && 0 <= j - c < w,
{
}

/// A matrix written row by row and read back is the same matrix.
pub proof fn law_rows_read_back(
    m: &BlockMatrix,
    rows: usize,
    cols: usize,
    data: Vec<Real64>,
    back: Option<BlockMatrix>,
    i: int,
    j: int,
)
    requires
        m.wf(),
        m.has_size(rows as int, cols as int),
        rows * cols <= usize::MAX,
        call_ensures(BlockMatrix::to_rows, (m,), data),
        call_ensures(BlockMatrix::from_rows, (rows, cols, data), back),
        0 <= i < rows,
        0 <= j < cols,
    ensures
        data@[i * cols + j] == m.at(i, j),
        back matches Some(b) && b.has_size(rows as int, cols as int) && b.at(i, j) == m.at(i, j),
{
}

} // verus!
