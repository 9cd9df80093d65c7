//! Sparse seeds binned by image cell, and the seeds near a patch.
use vstd::prelude::*;
use crate::ieee::{zero64, Real64};
use crate::ordering::sort_numbers;

verus! {

/// The position of a seed in units of the cell size.
#[derive(Clone, Copy, Debug, PartialEq)]
pub struct SeedPosition {
    pub u: Real64,
    pub v: Real64,
}

/// Column or row that a position in cells falls into, limited to `count` of them.
pub open spec fn bin_coordinate(q: Real64, count: int) -> int {
    let t = if q.nan() || q.negative() {
        0
    } else {
        q.truncated()
    };
    if t > count - 1 {
        count - 1
    } else {
        t
    }
}

fn bin_index(q: Real64, count: usize) -> (r: usize)
    requires
        count > 0,
    ensures
        r == bin_coordinate(q, count as int),
        r < count,
{
    let t: usize = q.trunc_to_usize();
    if t > count - 1 {
        count - 1
    } else {
        t
    }
}

/// The cell of a seed, row by row.
pub open spec fn bin_of(p: SeedPosition, cols: int, rows: int) -> int {
    crate::layout::cell2(cols, bin_coordinate(p.u, cols), bin_coordinate(p.v, rows))
}

/// The seeds below the `n`-th whose cell is `bin`, in order.
pub open spec fn members(positions: Seq<SeedPosition>, cols: int, rows: int, bin: int, n: int) -> Seq<usize>
    decreases n,
{
    if n <= 0 {
        Seq::empty()
    } else if bin_of(positions[n - 1], cols, rows) == bin {
        members(positions, cols, rows, bin, n - 1).push((n - 1) as usize)
    } else {
        members(positions, cols, rows, bin, n - 1)
    }
}

proof fn lemma_members(positions: Seq<SeedPosition>, cols: int, rows: int, bin: int, n: int, i: usize)
    requires
        0 <= n <= positions.len(),
        n <= usize::MAX,
    ensures
        members(positions, cols, rows, bin, n).contains(i) <==> i < n && bin_of(positions[i as int], cols, rows) == bin,
        members(positions, cols, rows, bin, n).len() <= n,
    decreases n,
{
    if n > 0 {
        lemma_members(positions, cols, rows, bin, n - 1, i);
        crate::seqs::lemma_push_contains(members(positions, cols, rows, bin, n - 1), (n - 1) as usize, i);
    }
}

/// Number of seeds below the `n`-th in the cells below `bins`.
spec fn members_below(positions: Seq<SeedPosition>, cols: int, rows: int, bins: int, n: int) -> int
    decreases bins,
{
    if bins <= 0 {
        0
    } else {
        members_below(positions, cols, rows, bins - 1, n) + members(positions, cols, rows, bins - 1, n).len()
    }
}

proof fn lemma_members_below(positions: Seq<SeedPosition>, cols: int, rows: int, bins: int, n: int)
    requires
        0 < n,
    ensures
        members_below(positions, cols, rows, bins, n) == members_below(positions, cols, rows, bins, n - 1) + (if 0
            <= bin_of(positions[n - 1], cols, rows) < bins {
            1int
        } else {
            0
        }),
    decreases bins,
{
    if bins > 0 {
        lemma_members_below(positions, cols, rows, bins - 1, n);
    }
}

proof fn lemma_every_seed_is_binned(positions: Seq<SeedPosition>, cols: int, rows: int, n: int)
    requires
        cols > 0,
        rows > 0,
        0 <= n,
    ensures
        members_below(positions, cols, rows, cols * rows, n) == n,
    decreases n,
{
    if n > 0 {
        lemma_every_seed_is_binned(positions, cols, rows, n - 1);
        lemma_members_below(positions, cols, rows, cols * rows, n);
        let p = positions[n - 1];
        assert(0 <= bin_coordinate(p.u, cols) < cols) by {
            if !p.u.nan() && !p.u.negative() {
                lemma_truncated_nonnegative(p.u);
            }
        }
        assert(0 <= bin_coordinate(p.v, rows) < rows) by {
            if !p.v.nan() && !p.v.negative() {
                lemma_truncated_nonnegative(p.v);
            }
        }
        crate::layout::lemma_cell2_bound(cols, rows, bin_coordinate(p.u, cols), bin_coordinate(p.v, rows));
    } else {
        lemma_no_seeds(positions, cols, rows, cols * rows);
    }
}

proof fn lemma_no_seeds(positions: Seq<SeedPosition>, cols: int, rows: int, bins: int)
    ensures
        members_below(positions, cols, rows, bins, 0) == 0,
    decreases bins,
{
    if bins > 0 {
        lemma_no_seeds(positions, cols, rows, bins - 1);
    }
}

proof fn lemma_truncated_nonnegative(q: Real64)
    requires
        !q.nan(),
        !q.negative(),
    ensures
        q.truncated() >= 0,
{
    assert(0 * crate::ieee::unit64() == 0);
    q.lemma_value_sign();
    q.lemma_trunc_nonnegative();
}

/// Seeds by image cell: the seeds of cell `c` are `ids[starts[c]..starts[c + 1]]`.
#[derive(Clone, Debug)]
pub struct SeedGrid {
    ids: Vec<usize>,
    starts: Vec<usize>,
    cols: usize,
    rows: usize,
}

impl SeedGrid {
    pub closed spec fn order(self) -> Seq<usize> {
        self.ids@
    }

    pub closed spec fn offsets(self) -> Seq<usize> {
        self.starts@
    }

    pub closed spec fn columns(self) -> int {
        self.cols as int
    }

    pub closed spec fn lines(self) -> int {
        self.rows as int
    }

    /// The seeds of a cell.
    pub open spec fn bin(self, c: int) -> Seq<usize> {
        self.order().subrange(self.offsets()[c] as int, self.offsets()[c + 1] as int)
    }

    /// One more offset than cells, ascending from zero to the number of seeds.
    pub open spec fn wf(self) -> bool {
        &&& 0 < self.columns() <= i64::MAX
        &&& 0 < self.lines() <= i64::MAX
        &&& self.offsets().len() == self.columns() * self.lines() + 1
        &&& self.offsets()[0] == 0
        &&& self.offsets()[self.columns() * self.lines()] == self.order().len()
        &&& forall|i: int, j: int|
            0 <= i <= j < self.offsets().len() ==> #[trigger] self.offsets()[i] <= #[trigger] self.offsets()[j]
    }

    /// Bins seeds into `cols` by `rows` cells; a seed beyond the last cell falls into it.
    pub fn new(positions: &[SeedPosition], cols: usize, rows: usize) -> (r: Self)
        requires
            cols > 0,
            rows > 0,
            cols * rows < isize::MAX,
        ensures
            r.wf(),
            r.columns() == cols,
            r.lines() == rows,
            r.order().len() == positions@.len(),
            forall|c: int|
                0 <= c < cols * rows ==> #[trigger] r.bin(c) == members(
                    positions@,
                    cols as int,
                    rows as int,
                    c,
                    positions@.len() as int,
                ),
    {
        let n: usize = positions.len();
        assert(cols <= cols * rows && rows <= cols * rows) by (nonlinear_arith)
            requires
                cols > 0,
                rows > 0,
        ;
        let cells: usize = cols * rows;
        let mut bins: Vec<Vec<usize>> = Vec::new();
        let mut c: usize = 0;
        while c < cells
            invariant
                c <= cells,
                cells == cols * rows,
                bins@.len() == c,
                forall|k: int|
                    0 <= k < c ==> (#[trigger] bins@[k])@ == members(positions@, cols as int, rows as int, k, 0),
            decreases cells - c,
        {
            bins.push(Vec::new());
            c = c + 1;
        }
        let mut i: usize = 0;
        while i < n
            invariant
                i <= n,
                n == positions@.len(),
                cols > 0,
                rows > 0,
                cells == cols * rows,
                bins@.len() == cells,
                forall|k: int|
                    0 <= k < cells ==> (#[trigger] bins@[k])@ == members(
                        positions@,
                        cols as int,
                        rows as int,
                        k,
                        i as int,
                    ),
            decreases n - i,
        {
            let ci: usize = bin_index(positions[i].u, cols);
            let cj: usize = bin_index(positions[i].v, rows);
            proof {
                crate::layout::lemma_cell2_bound(cols as int, rows as int, ci as int, cj as int);
            }
            let cell: usize = cj * cols + ci;
            let ghost before = bins@;
            bins[cell].push(i);
            assert forall|k: int| 0 <= k < cells implies (#[trigger] bins@[k])@ == members(
                positions@,
                cols as int,
                rows as int,
                k,
                i + 1,
            ) by {
                assert(before[k]@ == members(positions@, cols as int, rows as int, k, i as int));
                if k != cell {
                    assert(bins@[k] == before[k]);
                }
            }
            i = i + 1;
        }
        let mut ids: Vec<usize> = Vec::new();
        let mut starts: Vec<usize> = Vec::new();
        starts.push(0);
        let mut c: usize = 0;
        while c < cells
            invariant
                c <= cells,
                n == positions@.len(),
                cells == cols * rows,
                bins@.len() == cells,
                forall|k: int|
                    0 <= k < cells ==> (#[trigger] bins@[k])@ == members(
                        positions@,
                        cols as int,
                        rows as int,
                        k,
                        n as int,
                    ),
                starts@.len() == c + 1,
                starts@[0] == 0,
                starts@[c as int] == ids@.len(),
                ids@.len() == members_below(positions@, cols as int, rows as int, c as int, n as int),
                forall|a: int, b: int| 0 <= a <= b <= c ==> #[trigger] starts@[a] <= #[trigger] starts@[b],
                forall|k: int|
                    #![trigger starts@[k]]
                    0 <= k < c ==> ids@.subrange(starts@[k] as int, starts@[k + 1] as int) == members(
                        positions@,
                        cols as int,
                        rows as int,
                        k,
                        n as int,
                    ),
            decreases cells - c,
        {
            let ghost before = ids@;
            let ghost bin = bins@[c as int]@;
            let mut j: usize = 0;
            while j < bins[c as usize].len()
                invariant
                    c < cells,
                    bins@.len() == cells,
                    bin == bins@[c as int]@,
                    j <= bin.len(),
                    ids@ == before + bin.take(j as int),
                decreases bin.len() - j,
            {
                ids.push(bins[c][j]);
                assert(bin.take(j + 1) =~= bin.take(j as int).push(bin[j as int]));
                assert(ids@ =~= before + bin.take(j + 1));
                j = j + 1;
            }
            assert(bin.take(bin.len() as int) =~= bin);
            let ghost old_starts = starts@;
            starts.push(ids.len());
            assert forall|k: int|
                #![trigger starts@[k]]
                0 <= k < c + 1 implies ids@.subrange(starts@[k] as int, starts@[k + 1] as int) == members(
                positions@,
                cols as int,
                rows as int,
                k,
                n as int,
            ) by {
                if k < c {
                    assert(old_starts[k] == starts@[k] && old_starts[k + 1] == starts@[k + 1]);
                    assert(old_starts[k + 1] <= old_starts[c as int]);
                    assert(ids@.subrange(starts@[k] as int, starts@[k + 1] as int) =~= before.subrange(
                        starts@[k] as int,
                        starts@[k + 1] as int,
                    ));
                } else {
                    assert(ids@.subrange(starts@[k] as int, starts@[k + 1] as int) =~= bin);
                }
            }
            assert forall|a: int, b: int| 0 <= a <= b <= c + 1 implies #[trigger] starts@[a] <= #[trigger] starts@[b] by {
                if b == c + 1 && a <= c {
                    assert(old_starts[a] <= old_starts[c as int]);
                }
            }
            c = c + 1;
        }
        proof {
            lemma_every_seed_is_binned(positions@, cols as int, rows as int, n as int);
        }
        SeedGrid { ids, starts, cols, rows }
    }

    /// The cells of a column range, row range, and of both: what a window visits.
    pub open spec fn window_ids(self, u0: int, u1: int, v0: int, v1: int) -> Seq<usize>
        decreases v1 - v0 + 1,
    {
        if v1 < v0 {
            Seq::empty()
        } else {
            self.window_ids(u0, u1, v0, v1 - 1) + self.row_ids(u0, u1, v1)
        }
    }

    /// The seeds in columns `u0` to `u1` of one row of cells.
    pub open spec fn row_ids(self, u0: int, u1: int, v: int) -> Seq<usize>
        decreases u1 - u0 + 1,
    {
        if u1 < u0 {
            Seq::empty()
        } else {
            self.row_ids(u0, u1 - 1, v) + self.bin(crate::layout::cell2(self.columns(), u1, v))
        }
    }

    /// The seeds in the cells of a window, row by row; the limits given in cells.
    pub fn window(&self, low_u: Real64, high_u: Real64, low_v: Real64, high_v: Real64) -> (r: Vec<usize>)
        requires
            self.wf(),
        ensures
            r@ == self.window_ids(
                window_start(low_u),
                window_end(high_u, self.columns()),
                window_start(low_v),
                window_end(high_v, self.lines()),
            ),
    {
        let u0: u64 = window_low(low_u);
        let u1: usize = window_high(high_u, self.cols);
        let v0: u64 = window_low(low_v);
        let v1: usize = window_high(high_v, self.rows);
        let mut out: Vec<usize> = Vec::new();
        if v0 > v1 as u64 || u0 > u1 as u64 {
            proof {
                self.lemma_empty_window(u0 as int, u1 as int, v0 as int, v1 as int);
            }
            return out;
        }
        let u0: usize = u0 as usize;
        let v0: usize = v0 as usize;
        let mut cj: usize = v0;
        while cj <= v1
            invariant
                self.wf(),
                u0 <= u1,
                v0 <= cj,
                cj <= v1 + 1,
                u1 < self.columns(),
                v1 < self.lines(),
                out@ == self.window_ids(u0 as int, u1 as int, v0 as int, cj - 1),
            decreases v1 + 1 - cj,
        {
            let ghost above = out@;
            let mut ci: usize = u0;
            while ci <= u1
                invariant
                    self.wf(),
                    u0 <= ci,
                    ci <= u1 + 1,
                    u1 < self.columns(),
                    cj < self.lines(),
                    out@ == above + self.row_ids(u0 as int, ci - 1, cj as int),
                decreases u1 + 1 - ci,
            {
                proof {
                    crate::layout::lemma_cell2_bound(self.columns(), self.lines(), ci as int, cj as int);
                    assert(self.starts.len() <= usize::MAX);
                }
                let cell: usize = cj * self.cols + ci;
                let from: usize = self.starts[cell];
                let to: usize = self.starts[cell + 1];
                let ghost left = out@;
                proof {
                    assert(self.offsets()[cell as int] <= self.offsets()[cell + 1]);
                    assert(self.offsets()[cell + 1] <= self.offsets()[self.columns() * self.lines()]);
                }
                let mut k: usize = from;
                while k < to
                    invariant
                        self.wf(),
                        from <= k <= to,
                        to <= self.order().len(),
                        out@ == left + self.order().subrange(from as int, k as int),
                    decreases to - k,
                {
                    out.push(self.ids[k]);
                    assert(self.order().subrange(from as int, k + 1) =~= self.order().subrange(
                        from as int,
                        k as int,
                    ).push(self.order()[k as int]));
                    assert(out@ =~= left + self.order().subrange(from as int, k + 1));
                    k = k + 1;
                }
                assert(out@ =~= above + self.row_ids(u0 as int, ci as int, cj as int));
                ci = ci + 1;
            }
            assert(out@ == above + self.row_ids(u0 as int, u1 as int, cj as int));
            cj = cj + 1;
        }
        out
    }

    proof fn lemma_empty_window(self, u0: int, u1: int, v0: int, v1: int)
        requires
            u1 < u0 || v1 < v0,
        ensures
            self.window_ids(u0, u1, v0, v1) == Seq::<usize>::empty(),
        decreases v1 - v0 + 1,
    {
        if v1 >= v0 {
            self.lemma_empty_window(u0, u1, v0, v1 - 1);
            assert(self.row_ids(u0, u1, v1) =~= Seq::<usize>::empty());
        }
    }
}

/// First cell of a window: its lower limit rounded down, at least zero.
pub open spec fn window_start(low: Real64) -> int {
    if low.nan() || low.floored() < 0 {
        0
    } else {
        crate::ieee::saturated_i64(low.floored())
    }
}

/// Last cell of a window: its upper limit rounded down, from zero to the last cell.
pub open spec fn window_end(high: Real64, count: int) -> int {
    if high.nan() || high.floored() > count - 1 {
        count - 1
    } else if high.floored() < 0 {
        0
    } else {
        high.floored()
    }
}

fn window_low(low: Real64) -> (r: u64)
    ensures
        r == window_start(low),
{
    let f: i64 = low.floor_to_i64();
    if f < 0 {
        0
    } else {
        f as u64
    }
}

fn window_high(high: Real64, count: usize) -> (r: usize)
    requires
        0 < count <= i64::MAX,
    ensures
        r == window_end(high, count as int),
        r < count,
{
    if high.is_nan() {
        return count - 1;
    }
    let f: i64 = high.floor_to_i64();
    if f < 0 {
        0
    } else if (f as u64) > (count - 1) as u64 {
        count - 1
    } else {
        f as usize
    }
}

/// Every seed stands in the bin of its cell, once, and in no other bin.
pub proof fn law_each_seed_in_one_bin(grid: SeedGrid, positions: Seq<SeedPosition>, c: int, i: usize)
    requires
        grid.wf(),
        grid.columns() * grid.lines() <= usize::MAX,
        positions.len() <= usize::MAX,
        forall|k: int|
            0 <= k < grid.columns() * grid.lines() ==> #[trigger] grid.bin(k) == members(
                positions,
                grid.columns(),
                grid.lines(),
                k,
                positions.len() as int,
            ),
        0 <= c < grid.columns() * grid.lines(),
    ensures
        grid.bin(c).contains(i) <==> i < positions.len() && bin_of(positions[i as int], grid.columns(), grid.lines())
            == c,
        grid.bin(c).no_duplicates(),
{
    lemma_members(positions, grid.columns(), grid.lines(), c, positions.len() as int, i);
    lemma_members_ascend(positions, grid.columns(), grid.lines(), c, positions.len() as int);
}

proof fn lemma_members_ascend(positions: Seq<SeedPosition>, cols: int, rows: int, bin: int, n: int)
    requires
        0 <= n <= positions.len(),
        n <= usize::MAX,
    ensures
        ({
            let m = members(positions, cols, rows, bin, n);
            &&& forall|a: int, b: int| 0 <= a < b < m.len() ==> #[trigger] m[a] < #[trigger] m[b]
            &&& forall|a: int| 0 <= a < m.len() ==> (#[trigger] m[a]) < n
        }),
    decreases n,
{
    if n > 0 {
        lemma_members_ascend(positions, cols, rows, bin, n - 1);
        let before = members(positions, cols, rows, bin, n - 1);
        let m = members(positions, cols, rows, bin, n);
        assert forall|a: int| 0 <= a < m.len() implies (#[trigger] m[a]) < n by {
            if a < before.len() {
                assert(m[a] == before[a]);
            }
        }
        assert forall|a: int, b: int| 0 <= a < b < m.len() implies #[trigger] m[a] < #[trigger] m[b] by {
            assert(m[a] == before[a]);
            if b < before.len() {
                assert(m[b] == before[b]);
            }
        }
    }
}

/// A seed near a patch, with the weight of its distance and its precision.
#[derive(Clone, Copy, Debug, PartialEq)]
pub struct NearbySeed {
    pub idx: usize,
    pub w_spatial: Real64,
    pub precision: Real64,
}

/// The largest number of seeds that a patch takes into account.
pub const MAX_NEARBY: usize = 64;

/// A bounded list of seeds near a patch.
#[derive(Clone, Debug)]
pub struct NearbySeeds {
    items: Vec<NearbySeed>,
}

impl NearbySeeds {
    pub closed spec fn view(&self) -> Seq<NearbySeed> {
        self.items@
    }

    /// No more seeds are held than a patch takes into account.
    pub open spec fn wf(self) -> bool {
        self@.len() <= MAX_NEARBY
    }

    pub fn new() -> (r: Self)
        ensures
            r@ == Seq::<NearbySeed>::empty(),
            r.wf(),
    {
        NearbySeeds { items: Vec::new() }
    }

    pub fn is_empty(&self) -> (r: bool)
        ensures
            r == (self@.len() == 0),
    {
        self.items.len() == 0
    }

    pub fn len(&self) -> (r: usize)
        ensures
            r == self@.len(),
    {
        self.items.len()
    }

    pub fn get(&self, i: usize) -> (r: NearbySeed)
        requires
            i < self@.len(),
        ensures
            r == self@[i as int],
    {
        self.items[i]
    }

    /// Appends a seed; a full list refuses it.
    pub fn push(&mut self, item: NearbySeed) -> (r: bool)
        requires
            old(self).wf(),
        ensures
            final(self).wf(),
            r == (old(self)@.len() < MAX_NEARBY),
            final(self)@ == (if r {
                old(self)@.push(item)
            } else {
                old(self)@
            }),
    {
        if self.items.len() >= MAX_NEARBY {
            return false;
        }
        self.items.push(item);
        true
    }
}

/// What was computed of a candidate seed: its squared distance, weight and precision.
#[derive(Clone, Copy, Debug, PartialEq)]
pub struct SeedCandidate {
    pub idx: usize,
    pub dist_sq: Real64,
    pub w_spatial: Real64,
    pub precision: Real64,
}

impl SeedCandidate {
    pub open spec fn as_nearby(self) -> NearbySeed {
        NearbySeed { idx: self.idx, w_spatial: self.w_spatial, precision: self.precision }
    }
}

/// The candidates below the `n`-th that are not farther away than the radius, in order.
pub open spec fn within_radius(candidates: Seq<SeedCandidate>, radius_sq: Real64, n: int) -> Seq<NearbySeed>
    decreases n,
{
    if n <= 0 {
        Seq::empty()
    } else if radius_sq.lt(candidates[n - 1].dist_sq) {
        within_radius(candidates, radius_sq, n - 1)
    } else {
        within_radius(candidates, radius_sq, n - 1).push(candidates[n - 1].as_nearby())
    }
}

proof fn lemma_within_radius_prefix(candidates: Seq<SeedCandidate>, radius_sq: Real64, n: int, m: int)
    requires
        0 <= n <= m,
    ensures
        within_radius(candidates, radius_sq, n).len() <= within_radius(candidates, radius_sq, m).len(),
        within_radius(candidates, radius_sq, n) == within_radius(candidates, radius_sq, m).take(
            within_radius(candidates, radius_sq, n).len() as int,
        ),
    decreases m - n,
{
    let a = within_radius(candidates, radius_sq, n);
    if n < m {
        lemma_within_radius_prefix(candidates, radius_sq, n, m - 1);
        let b = within_radius(candidates, radius_sq, m - 1);
        let c = within_radius(candidates, radius_sq, m);
        assert(c.take(a.len() as int) =~= b.take(a.len() as int));
    } else {
        assert(a.take(a.len() as int) =~= a);
    }
}

/// The first candidates that are not farther away than the radius, as many as a patch
/// takes into account.
pub fn nearby_seed_weights(candidates: &[SeedCandidate], radius_sq: Real64) -> (r: NearbySeeds)
    ensures
        r.wf(),
        ({
            let all = within_radius(candidates@, radius_sq, candidates@.len() as int);
            r@ == (if all.len() <= MAX_NEARBY {
                all
            } else {
                all.take(MAX_NEARBY as int)
            })
        }),
{
    let mut out: NearbySeeds = NearbySeeds::new();
    let n: usize = candidates.len();
    let mut i: usize = 0;
    while i < n
        invariant
            i <= n,
            n == candidates@.len(),
            out.wf(),
            out@ == within_radius(candidates@, radius_sq, i as int),
        decreases n - i,
    {
        let c: SeedCandidate = candidates[i];
        if !radius_sq.less(c.dist_sq) {
            let taken: bool = out.push(
                NearbySeed { idx: c.idx, w_spatial: c.w_spatial, precision: c.precision },
            );
            if !taken {
                proof {
                    let all = within_radius(candidates@, radius_sq, n as int);
                    lemma_within_radius_prefix(candidates@, radius_sq, i as int, n as int);
                    lemma_within_radius_prefix(candidates@, radius_sq, i + 1, n as int);
                    assert(all.len() > MAX_NEARBY);
                    assert(all.take(MAX_NEARBY as int) == out@);
                }
                return out;
            }
        }
        i = i + 1;
    }
    out
}

/// The inverse depth of a seed and the depth that it stands for.
#[derive(Clone, Copy, Debug, PartialEq)]
pub struct SeedDepth {
    pub rho: Real64,
    pub depth: Real64,
}

/// The depths of the seeds with positive inverse depth.
pub open spec fn positive_depths(seeds: Seq<SeedDepth>) -> Seq<Real64> {
    seeds.filter(|s: SeedDepth| zero64().lt(s.rho)).map_values(|s: SeedDepth| s.depth)
}

/// The middle depth of the seeds with positive inverse depth, the upper one of two.
pub fn median_seed_depth(seeds: &[SeedDepth]) -> (r: Option<Real64>)
    ensures
        r is None <==> positive_depths(seeds@).len() == 0,
        r matches Some(m) ==> exists|sorted: Seq<Real64>|
            #[trigger] crate::ordering::is_sorting_of(sorted, positive_depths(seeds@)) && sorted.len()
                == positive_depths(seeds@).len() && m == sorted[sorted.len() as int / 2],
{
    let mut depths: Vec<Real64> = Vec::new();
    let ghost keep = |s: SeedDepth| zero64().lt(s.rho);
    let ghost pick = |s: SeedDepth| s.depth;
    let n: usize = seeds.len();
    let mut i: usize = 0;
    proof {
        reveal(Seq::filter);
        assert(seeds@.take(0).filter(keep).map_values(pick) =~= depths@);
    }
    while i < n
        invariant
            i <= n,
            n == seeds@.len(),
            keep == (|s: SeedDepth| zero64().lt(s.rho)),
            pick == (|s: SeedDepth| s.depth),
            depths@ == seeds@.take(i as int).filter(keep).map_values(pick),
        decreases n - i,
    {
        proof {
            crate::seqs::lemma_filter_take(seeds@, i as int, keep);
        }
        if zero64().less(seeds[i].rho) {
            depths.push(seeds[i].depth);
        }
        assert(depths@ =~= seeds@.take(i + 1).filter(keep).map_values(pick));
        i = i + 1;
    }
    assert(seeds@.take(n as int) =~= seeds@);
    if depths.len() == 0 {
        return None;
    }
    let sorted: Vec<Real64> = sort_numbers(&depths);
    assert(crate::ordering::is_sorting_of(sorted@, positive_depths(seeds@)));
    Some(sorted[sorted.len() / 2])
}

/// A coordinate falls into the cell that covers it: the cell is not above it and the next one
/// is, but for what lies before the first cell or beyond the last one, which those take.
pub proof fn law_coordinate_falls_into_its_bin(q: Real64, count: int)
    requires
        count > 0,
    ensures
        0 <= bin_coordinate(q, count) < count,
        q.ge_int(0) && q.lt_int(count) ==> q.ge_int(bin_coordinate(q, count)) && q.lt_int(
            bin_coordinate(q, count) + 1,
        ),
        q.lt_int(0) || q.nan() ==> bin_coordinate(q, count) == 0,
        q.ge_int(count) ==> bin_coordinate(q, count) == count - 1,
{
    let c = bin_coordinate(q, count);
    if !q.nan() {
        q.lemma_value_sign();
        assert(0 * crate::ieee::unit64() == 0);
        q.lemma_floor_compares(c);
        q.lemma_floor_compares(c + 1);
        q.lemma_floor_compares(count);
        vstd::arithmetic::power2::lemma_pow2_pos(1074);
        if !q.lt_int(0) {
            q.lemma_trunc_nonnegative();
        }
        if q.ge_int(count) {
            assert(count * crate::ieee::unit64() > 0) by (nonlinear_arith)
                requires
                    count > 0,
                    crate::ieee::unit64() > 0,
            ;
        }
    }
}

impl SeedGrid {
    proof fn lemma_row_holds(self, u0: int, u1: int, v: int, i: usize)
        ensures
            self.row_ids(u0, u1, v).contains(i) <==> exists|u: int|
                u0 <= u <= u1 && #[trigger] self.bin(crate::layout::cell2(self.columns(), u, v)).contains(i),
        decreases u1 - u0 + 1,
    {
        if u0 <= u1 {
            self.lemma_row_holds(u0, u1 - 1, v, i);
            lemma_concat_contains(
                self.row_ids(u0, u1 - 1, v),
                self.bin(crate::layout::cell2(self.columns(), u1, v)),
                i,
            );
            assert(self.bin(crate::layout::cell2(self.columns(), u1, v)).contains(i) || true);
        }
    }

    proof fn lemma_window_holds(self, u0: int, u1: int, v0: int, v1: int, i: usize)
        ensures
            self.window_ids(u0, u1, v0, v1).contains(i) <==> exists|u: int, v: int|
                u0 <= u <= u1 && v0 <= v <= v1 && #[trigger] self.bin(
                    crate::layout::cell2(self.columns(), u, v),
                ).contains(i),
        decreases v1 - v0 + 1,
    {
        if v0 <= v1 {
            self.lemma_window_holds(u0, u1, v0, v1 - 1, i);
            self.lemma_row_holds(u0, u1, v1, i);
            lemma_concat_contains(self.window_ids(u0, u1, v0, v1 - 1), self.row_ids(u0, u1, v1), i);
        }
    }
}

proof fn lemma_concat_contains(a: Seq<usize>, b: Seq<usize>, i: usize)
    ensures
        (a + b).contains(i) <==> a.contains(i) || b.contains(i),
{
    if a.contains(i) {
        let k = choose|k: int| 0 <= k < a.len() && a[k] == i;
        assert((a + b)[k] == i);
    }
    if b.contains(i) {
        let k = choose|k: int| 0 <= k < b.len() && b[k] == i;
        assert((a + b)[a.len() + k] == i);
    }
    if (a + b).contains(i) {
        let k = choose|k: int| 0 <= k < (a + b).len() && (a + b)[k] == i;
        if k < a.len() {
            assert(a[k] == i);
        } else {
            assert(b[k - a.len()] == i);
        }
    }
}

/// A window of the grid misses no seed: every seed whose coordinates lie in the grid and between
/// the limits, along both axes, is found.
pub proof fn law_window_finds_every_seed_in_it(
    positions: &[SeedPosition],
    cols: usize,
    rows: usize,
    grid: SeedGrid,
    low_u: Real64,
    high_u: Real64,
    low_v: Real64,
    high_v: Real64,
    r: Vec<usize>,
    i: usize,
)
    requires
        0 < cols <= i64::MAX,
        0 < rows <= i64::MAX,
        cols * rows < isize::MAX,
        positions@.len() <= usize::MAX,
        call_ensures(SeedGrid::new, (positions, cols, rows), grid),
        call_ensures(SeedGrid::window, (&grid, low_u, high_u, low_v, high_v), r),
        i < positions@.len(),
        low_u.le(positions@[i as int].u),
        positions@[i as int].u.le(high_u),
        low_v.le(positions@[i as int].v),
        positions@[i as int].v.le(high_v),
        positions@[i as int].u.ge_int(0),
        positions@[i as int].u.lt_int(cols as int),
        positions@[i as int].v.ge_int(0),
        positions@[i as int].v.lt_int(rows as int),
    ensures
        r@.contains(i),
{
    let p = positions@[i as int];
    let (cu, cv) = (bin_coordinate(p.u, cols as int), bin_coordinate(p.v, rows as int));
    law_coordinate_falls_into_its_bin(p.u, cols as int);
    law_coordinate_falls_into_its_bin(p.v, rows as int);
    lemma_bin_in_window(p.u, low_u, high_u, cols as int);
    lemma_bin_in_window(p.v, low_v, high_v, rows as int);
    let c = crate::layout::cell2(cols as int, cu, cv);
    crate::layout::lemma_cell2_bound(cols as int, rows as int, cu, cv);
    assert(grid.bin(c) == members(positions@, cols as int, rows as int, c, positions@.len() as int));
    lemma_members(positions@, cols as int, rows as int, c, positions@.len() as int, i);
    let (u0, u1) = (window_start(low_u), window_end(high_u, cols as int));
    let (v0, v1) = (window_start(low_v), window_end(high_v, rows as int));
    grid.lemma_window_holds(u0, u1, v0, v1, i);
    assert(grid.bin(crate::layout::cell2(grid.columns(), cu, cv)).contains(i));
}

proof fn lemma_bin_in_window(q: Real64, low: Real64, high: Real64, count: int)
    requires
        0 < count <= i64::MAX,
        q.ge_int(0),
        q.lt_int(count),
        low.le(q),
        q.le(high),
    ensures
        window_start(low) <= bin_coordinate(q, count) <= window_end(high, count),
{
    q.lemma_trunc_nonnegative();
    q.lemma_floor_compares(0);
    q.lemma_floor_compares(count);
    vstd::arithmetic::power2::lemma_pow2_pos(1074);
    vstd::arithmetic::div_mod::lemma_div_is_ordered(low.value(), q.value(), crate::ieee::unit64());
    vstd::arithmetic::div_mod::lemma_div_is_ordered(q.value(), high.value(), crate::ieee::unit64());
}

/// A seed counts as nearby exactly where its squared distance is not above the squared radius;
/// of more than sixty-four such seeds the first sixty-four are kept.
pub proof fn law_nearby_seeds_lie_in_the_radius(
    candidates: &[SeedCandidate],
    radius_sq: Real64,
    r: NearbySeeds,
    i: int,
)
    requires
        call_ensures(nearby_seed_weights, (candidates, radius_sq), r),
        0 <= i < candidates@.len(),
    ensures
        r@.len() <= 64,
        forall|k: int|
            0 <= k < r@.len() ==> exists|j: int|
                {
                    &&& 0 <= j < candidates@.len()
                    &&& #[trigger] r@[k] == (NearbySeed {
                        idx: candidates@[j].idx,
                        w_spatial: candidates@[j].w_spatial,
                        precision: candidates@[j].precision,
                    })
                    &&& !radius_sq.lt((#[trigger] candidates@[j]).dist_sq)
                },
        r@.len() < 64 && !radius_sq.lt(candidates@[i].dist_sq) ==> r@.contains(
            NearbySeed {
                idx: candidates@[i].idx,
                w_spatial: candidates@[i].w_spatial,
                precision: candidates@[i].precision,
            },
        ),
{
    let n = candidates@.len() as int;
    let all = within_radius(candidates@, radius_sq, n);
    lemma_within_radius_holds(candidates@, radius_sq, n, i);
    assert forall|k: int| 0 <= k < r@.len() implies exists|j: int|
        {
            &&& 0 <= j < candidates@.len()
            &&& #[trigger] r@[k] == (NearbySeed {
                idx: candidates@[j].idx,
                w_spatial: candidates@[j].w_spatial,
                precision: candidates@[j].precision,
            })
            &&& !radius_sq.lt((#[trigger] candidates@[j]).dist_sq)
        } by {
        assert(r@[k] == all[k]);
        let j = choose|j: int|
            {
                &&& 0 <= j < n
                &&& all[k] == (#[trigger] candidates@[j]).as_nearby()
                &&& !radius_sq.lt(candidates@[j].dist_sq)
            };
        assert(r@[k] == candidates@[j].as_nearby());
    }
}

proof fn lemma_within_radius_holds(candidates: Seq<SeedCandidate>, radius_sq: Real64, n: int, i: int)
    requires
        0 <= n <= candidates.len(),
    ensures
        ({
            let all = within_radius(candidates, radius_sq, n);
            &&& forall|k: int|
                0 <= k < all.len() ==> exists|j: int|
                    {
                        &&& 0 <= j < n
                        &&& #[trigger] all[k] == (#[trigger] candidates[j]).as_nearby()
                        &&& !radius_sq.lt(candidates[j].dist_sq)
                    }
            &&& 0 <= i < n && !radius_sq.lt(candidates[i].dist_sq) ==> all.contains(candidates[i].as_nearby())
        }),
    decreases n,
{
    if n > 0 {
        lemma_within_radius_holds(candidates, radius_sq, n - 1, i);
        let before = within_radius(candidates, radius_sq, n - 1);
        let all = within_radius(candidates, radius_sq, n);
        let last = candidates[n - 1].as_nearby();
        if 0 <= i < n && !radius_sq.lt(candidates[n - 1].dist_sq) {
            crate::seqs::lemma_push_contains(before, last, candidates[i].as_nearby());
        }
        assert forall|k: int| 0 <= k < all.len() implies exists|j: int|
            {
                &&& 0 <= j < n
                &&& #[trigger] all[k] == (#[trigger] candidates[j]).as_nearby()
                &&& !radius_sq.lt(candidates[j].dist_sq)
            } by {
            if k < before.len() {
                assert(all[k] == before[k]);
                let j = choose|j: int|
                    {
                        &&& 0 <= j < n - 1
                        &&& before[k] == (#[trigger] candidates[j]).as_nearby()
                        &&& !radius_sq.lt(candidates[j].dist_sq)
                    };
                assert(all[k] == candidates[j].as_nearby());
            } else {
                assert(all[k] == candidates[n - 1].as_nearby());
            }
        }
    }
}

/// The median depth of seeds is the upper middle one of the depths of those with a positive
/// inverse depth: as many of them, rounded down, stand before it in order, and the others not
/// before it.
pub proof fn law_median_stands_in_the_middle(seeds: &[SeedDepth], r: Option<Real64>)
    requires
        call_ensures(median_seed_depth, (seeds,), r),
    ensures
        r matches Some(m) ==> exists|sorted: Seq<Real64>|
            {
                let kept = seeds@.filter(|s: SeedDepth| zero64().lt(s.rho));
                let n = kept.len() as int;
                &&& #[trigger] sorted.to_multiset() == kept.map_values(|s: SeedDepth| s.depth).to_multiset()
                &&& sorted.len() == n
                &&& n > 0
                &&& m == sorted[n / 2]
                &&& forall|i: int| 0 <= i < n / 2 ==> (#[trigger] sorted[i]).total_key() <= m.total_key()
                &&& forall|i: int| n / 2 <= i < n ==> m.total_key() <= (#[trigger] sorted[i]).total_key()
            },
{
    if let Some(m) = r {
        let depths = positive_depths(seeds@);
        let sorted = choose|sorted: Seq<Real64>|
            #[trigger] crate::ordering::is_sorting_of(sorted, depths) && sorted.len() == depths.len() && m
                == sorted[sorted.len() as int / 2];
        assert(crate::ordering::is_sorting_of(sorted, depths));
        assert(sorted.to_multiset() == depths.to_multiset());
    }
}

/// A window begins with the cell of its lower limit, or the first one where that lies before it
/// or is not a number; it ends with the cell of its upper limit, or the last one where that lies
/// beyond it or is not a number.
pub proof fn law_window_follows_its_limits(low: Real64, high: Real64, count: int)
    requires
        0 < count <= i64::MAX,
    ensures
        low.nan() || low.lt_int(0) ==> window_start(low) == 0,
        low.ge_int(0) && low.lt_int(count) ==> low.ge_int(window_start(low)) && low.lt_int(window_start(low) + 1),
        high.nan() || high.ge_int(count) ==> window_end(high, count) == count - 1,
        high.ge_int(0) && high.lt_int(count) ==> high.ge_int(window_end(high, count)) && high.lt_int(
            window_end(high, count) + 1,
        ),
        high.lt_int(0) ==> window_end(high, count) == 0,
{
    low.lemma_floor_compares(0);
    low.lemma_floor_compares(count);
    low.lemma_floor_compares(window_start(low));
    low.lemma_floor_compares(window_start(low) + 1);
    high.lemma_floor_compares(0);
    high.lemma_floor_compares(count);
    high.lemma_floor_compares(window_end(high, count));
    high.lemma_floor_compares(window_end(high, count) + 1);
}

/// A window finds no seed but those of its cells.
pub proof fn law_window_finds_only_its_cells(
    positions: &[SeedPosition],
    cols: usize,
    rows: usize,
    grid: SeedGrid,
    low_u: Real64,
    high_u: Real64,
    low_v: Real64,
    high_v: Real64,
    r: Vec<usize>,
    i: usize,
)
    requires
        0 < cols <= i64::MAX,
        0 < rows <= i64::MAX,
        cols * rows < isize::MAX,
        positions@.len() <= usize::MAX,
        call_ensures(SeedGrid::new, (positions, cols, rows), grid),
        call_ensures(SeedGrid::window, (&grid, low_u, high_u, low_v, high_v), r),
        r@.contains(i),
    ensures
        i < positions@.len(),
        window_start(low_u) <= bin_coordinate(positions@[i as int].u, cols as int) <= window_end(high_u, cols as int),
        window_start(low_v) <= bin_coordinate(positions@[i as int].v, rows as int) <= window_end(high_v, rows as int),
{
    let (u0, u1) = (window_start(low_u), window_end(high_u, cols as int));
    let (v0, v1) = (window_start(low_v), window_end(high_v, rows as int));
    grid.lemma_window_holds(u0, u1, v0, v1, i);
    let (u, v) = choose|u: int, v: int|
        u0 <= u <= u1 && v0 <= v <= v1 && #[trigger] grid.bin(
            crate::layout::cell2(grid.columns(), u, v),
        ).contains(i);
    lemma_window_inside(low_u, high_u, cols as int);
    lemma_window_inside(low_v, high_v, rows as int);
    let c = crate::layout::cell2(cols as int, u, v);
    crate::layout::lemma_cell2_bound(cols as int, rows as int, u, v);
    assert(grid.bin(c) == members(positions@, cols as int, rows as int, c, positions@.len() as int));
    lemma_members(positions@, cols as int, rows as int, c, positions@.len() as int, i);
    let p = positions@[i as int];
    law_coordinate_falls_into_its_bin(p.u, cols as int);
    law_coordinate_falls_into_its_bin(p.v, rows as int);
    crate::layout::lemma_cell2_injective(
        cols as int,
        bin_coordinate(p.u, cols as int),
        bin_coordinate(p.v, rows as int),
        u,
        v,
    );
}

proof fn lemma_window_inside(low: Real64, high: Real64, count: int)
    requires
        0 < count <= i64::MAX,
    ensures
        0 <= window_start(low),
        window_end(high, count) < count,
{
}

} // verus!
