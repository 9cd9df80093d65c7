//! Fusion of patches into cells of the image.
use vstd::prelude::*;
use crate::core_types::DepthMap;
use crate::depth::patch_depth::fuse::{infinity32, nan32};
use crate::depth::patch_depth::{PatchDepthOutput, PatchStatus};
use crate::ieee::{zero64, Real32, Real64};

verus! {

/// Number of cells along an axis: at least one.
pub open spec fn cells_along(len: int, cell_size: int) -> int {
    if len / cell_size >= 1 {
        len / cell_size
    } else {
        1
    }
}

/// The cell along an axis that a coordinate falls in: the last one for what is beyond it.
pub open spec fn cell_along(q: Real64, cell_size: int, count: int) -> int {
    let pixel = q.whole_size();
    if pixel / cell_size < count {
        pixel / cell_size
    } else {
        count - 1
    }
}

/// The best status of the patches in each cell.
#[derive(Clone, Debug)]
pub struct FuseAccumulator {
    cell_size: usize,
    n_cells_u: usize,
    n_cells_v: usize,
    status: Vec<PatchStatus>,
}

impl FuseAccumulator {
    pub closed spec fn size(self) -> int {
        self.cell_size as int
    }

    pub closed spec fn columns(self) -> int {
        self.n_cells_u as int
    }

    pub closed spec fn lines(self) -> int {
        self.n_cells_v as int
    }

    pub closed spec fn statuses(self) -> Seq<PatchStatus> {
        self.status@
    }

    /// Cells have a size, and there is a status for each.
    pub open spec fn wf(self) -> bool {
        &&& self.size() > 0
        &&& self.columns() > 0
        &&& self.lines() > 0
        &&& self.statuses().len() == self.columns() * self.lines()
    }

    /// The cell that a pixel falls in.
    pub open spec fn cell_of(self, cu: Real64, cv: Real64) -> int {
        crate::layout::cell2(
            self.columns(),
            cell_along(cu, self.size(), self.columns()),
            cell_along(cv, self.size(), self.lines()),
        )
    }

    pub fn new(width: usize, height: usize, cell_size: usize) -> (r: Self)
        requires
            cell_size > 0,
            cells_along(width as int, cell_size as int) * cells_along(height as int, cell_size as int) <= usize::MAX,
        ensures
            r.wf(),
            r.size() == cell_size,
            r.columns() == cells_along(width as int, cell_size as int),
            r.lines() == cells_along(height as int, cell_size as int),
            forall|i: int| 0 <= i < r.statuses().len() ==> #[trigger] r.statuses()[i] == PatchStatus::Unknown,
    {
        let n_cells_u: usize = if width / cell_size >= 1 {
            width / cell_size
        } else {
            1
        };
        let n_cells_v: usize = if height / cell_size >= 1 {
            height / cell_size
        } else {
            1
        };
        let status: Vec<PatchStatus> = vec![PatchStatus::Unknown; n_cells_u * n_cells_v];
        FuseAccumulator { cell_size, n_cells_u, n_cells_v, status }
    }

    /// Takes in the status of a patch around a pixel, and says which cell its depth is added
    /// to. A patch of which nothing is known, or that was rejected, adds nothing.
    pub fn add_patch(&mut self, cu: Real64, cv: Real64, status: PatchStatus) -> (r: Option<usize>)
        requires
            old(self).wf(),
        ensures
            final(self).wf(),
            final(self).size() == old(self).size(),
            final(self).columns() == old(self).columns(),
            final(self).lines() == old(self).lines(),
            r is Some <==> status.usable(),
            r is None ==> final(self).statuses() == old(self).statuses(),
            r matches Some(i) ==> {
                &&& i == old(self).cell_of(cu, cv)
                &&& i < old(self).statuses().len()
                &&& final(self).statuses() == old(self).statuses().update(
                    i as int,
                    old(self).statuses()[i as int].merged(status),
                )
            },
    {
        if !status.is_usable() {
            return None;
        }
        let pu: usize = cu.trunc_to_usize();
        let pv: usize = cv.trunc_to_usize();
        let ci: usize = if pu / self.cell_size < self.n_cells_u {
            pu / self.cell_size
        } else {
            self.n_cells_u - 1
        };
        let cj: usize = if pv / self.cell_size < self.n_cells_v {
            pv / self.cell_size
        } else {
            self.n_cells_v - 1
        };
        proof {
            crate::layout::lemma_cell2_bound(self.n_cells_u as int, self.n_cells_v as int, ci as int, cj as int);
            assert(self.status.len() <= usize::MAX);
        }
        let i: usize = cj * self.n_cells_u + ci;
        let merged: PatchStatus = self.status[i].merge(status);
        self.status.set(i, merged);
        Some(i)
    }

    /// The maps of all cells, from the sums of weights and the weighted means. A cell without
    /// weight holds NaN and an infinite variance.
    pub fn finish(self, weights: &[Real64], means: &[Real32], variances: &[Real32]) -> (r: PatchDepthOutput)
        requires
            self.wf(),
            weights@.len() == self.statuses().len(),
            means@.len() == self.statuses().len(),
            variances@.len() == self.statuses().len(),
        ensures
            r.wf(),
            r.eta.width == self.columns(),
            r.eta.height == self.lines(),
            r.status.data@ == self.statuses(),
            forall|i: int|
                0 <= i < self.statuses().len() ==> #[trigger] r.eta.data@[i] == (if zero64().lt(weights@[i]) {
                    means@[i]
                } else {
                    nan32()
                }),
            forall|i: int|
                0 <= i < self.statuses().len() ==> #[trigger] r.eta_var.data@[i] == (if zero64().lt(weights@[i]) {
                    variances@[i]
                } else {
                    infinity32()
                }),
    {
        let n: usize = self.status.len();
        let mut eta: Vec<Real32> = Vec::new();
        let mut eta_var: Vec<Real32> = Vec::new();
        let mut i: usize = 0;
        while i < n
            invariant
                i <= n,
                n == self.statuses().len(),
                weights@.len() == n,
                means@.len() == n,
                variances@.len() == n,
                eta@.len() == i,
                eta_var@.len() == i,
                forall|k: int|
                    0 <= k < i ==> #[trigger] eta@[k] == (if zero64().lt(weights@[k]) {
                        means@[k]
                    } else {
                        nan32()
                    }),
                forall|k: int|
                    0 <= k < i ==> #[trigger] eta_var@[k] == (if zero64().lt(weights@[k]) {
                        variances@[k]
                    } else {
                        infinity32()
                    }),
            decreases n - i,
        {
            if zero64().less(weights[i]) {
                eta.push(means[i]);
                eta_var.push(variances[i]);
            } else {
                eta.push(nan32());
                eta_var.push(infinity32());
            }
            i = i + 1;
        }
        let width: usize = self.n_cells_u;
        let height: usize = self.n_cells_v;
        PatchDepthOutput {
            eta: DepthMap { width, height, data: eta },
            eta_var: DepthMap { width, height, data: eta_var },
            status: DepthMap { width, height, data: self.status },
        }
    }
}

/// A pixel falls into the cell that covers it: the cells are squares of the given size, as many
/// as fit and at least one along each axis, and the last one takes what is beyond it.
pub proof fn law_pixel_falls_into_its_cell(q: Real64, len: int, cell_size: int)
    requires
        len > 0,
        cell_size > 0,
        0 <= q.whole_size(),
    ensures
        ({
            let count = cells_along(len, cell_size);
            let cell = cell_along(q, cell_size, count);
            let pixel = q.whole_size();
            &&& count >= 1
            &&& count == 1 || count * cell_size <= len
            &&& (count + 1) * cell_size > len
            &&& 0 <= cell < count
            &&& cell * cell_size <= pixel
            &&& cell == count - 1 || pixel < (cell + 1) * cell_size
        }),
{
    let pixel = q.whole_size();
    vstd::arithmetic::div_mod::lemma_fundamental_div_mod(len, cell_size);
    vstd::arithmetic::div_mod::lemma_mod_bound(len, cell_size);
    vstd::arithmetic::div_mod::lemma_fundamental_div_mod(pixel, cell_size);
    vstd::arithmetic::div_mod::lemma_mod_bound(pixel, cell_size);
    vstd::arithmetic::div_mod::lemma_div_pos_is_pos(pixel, cell_size);
    vstd::arithmetic::div_mod::lemma_div_pos_is_pos(len, cell_size);
    let a = len / cell_size;
    let b = pixel / cell_size;
    let count = cells_along(len, cell_size);
    let cell = cell_along(q, cell_size, count);
    assert(a * cell_size <= len < (a + 1) * cell_size && b * cell_size <= pixel < (b + 1) * cell_size)
        by (nonlinear_arith)
        requires
            len == cell_size * a + len % cell_size,
            0 <= len % cell_size < cell_size,
            pixel == cell_size * b + pixel % cell_size,
            0 <= pixel % cell_size < cell_size,
    ;
    assert((count + 1) * cell_size > len) by (nonlinear_arith)
        requires
            count >= a,
            len < (a + 1) * cell_size,
            cell_size > 0,
    ;
    assert(cell * cell_size <= pixel) by (nonlinear_arith)
        requires
            cell <= b,
            b * cell_size <= pixel,
            cell_size > 0,
    ;
}

} // verus!
