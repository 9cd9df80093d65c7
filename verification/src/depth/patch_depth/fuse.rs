//! The lattice of patches over an image, and which patches speak for which pixel.
use vstd::prelude::*;
use crate::core_types::DepthMap;
use crate::depth::patch_depth::{
    PatchDepthOutput, PatchDepthSettings, PatchEstimate, PatchStatus,
};
use crate::ieee::{real32, zero32, Real32};
use crate::layout::sample_count;

verus! {

/// Number of patches along an axis of `len` pixels.
pub open spec fn patches_along(len: int, half: int, stride: int) -> int {
    crate::layout::samples_along(len - 2 * half, stride)
}

/// The half size of a patch.
pub open spec fn half_patch(settings: PatchDepthSettings) -> int {
    settings.patch_size as int / 2
}

fn patch_count(len: usize, half: usize, stride: usize) -> (r: usize)
    requires
        stride > 0,
        2 * half <= usize::MAX,
    ensures
        r == patches_along(len as int, half as int, stride as int),
        r > 0 <==> len > 2 * half,
{
    if len > 2 * half {
        proof {
            crate::layout::lemma_samples_along(len - 2 * half, stride as int, 0);
        }
        sample_count(len - 2 * half, stride)
    } else {
        0
    }
}

/// A patch centre, in pixels.
#[derive(Clone, Copy, Debug, PartialEq, Eq, Structural)]
pub struct PatchCenter {
    pub u: usize,
    pub v: usize,
}

/// The `k`-th patch centre, row by row.
pub open spec fn center_at(settings: PatchDepthSettings, width: int, k: int) -> (int, int) {
    let half = half_patch(settings);
    let stride = settings.patch_stride as int;
    let per_row = patches_along(width, half, stride);
    (half + (k % per_row) * stride, half + (k / per_row) * stride)
}

/// The centres of all patches of an image, row by row: every `patch_stride`-th pixel whose
/// patch has its half size on either side.
pub fn patch_centers(width: usize, height: usize, settings: &PatchDepthSettings) -> (r: Vec<PatchCenter>)
    requires
        settings.patch_stride > 0,
    ensures
        r@.len() == patches_along(width as int, half_patch(*settings), settings.patch_stride as int) * patches_along(
            height as int,
            half_patch(*settings),
            settings.patch_stride as int,
        ),
        forall|k: int|
            0 <= k < r@.len() ==> (((#[trigger] r@[k]).u as int, r@[k].v as int) == center_at(
                *settings,
                width as int,
                k,
            )),
        forall|k: int|
            #![trigger r@[k]]
            0 <= k < r@.len() ==> half_patch(*settings) <= r@[k].u && r@[k].u + half_patch(*settings) < width
                && half_patch(*settings) <= r@[k].v && r@[k].v + half_patch(*settings) < height,
{
    let half: usize = settings.patch_size / 2;
    let stride: usize = settings.patch_stride;
    let nu: usize = patch_count(width, half, stride);
    let nv: usize = patch_count(height, half, stride);
    let mut out: Vec<PatchCenter> = Vec::new();
    let mut j: usize = 0;
    assert(0 * nu == 0);
    while j < nv
        invariant
            j <= nv,
            half == half_patch(*settings),
            stride == settings.patch_stride,
            stride > 0,
            nu == patches_along(width as int, half as int, stride as int),
            nv == patches_along(height as int, half as int, stride as int),
            out@.len() == j * nu,
            forall|k: int|
                0 <= k < out@.len() ==> (((#[trigger] out@[k]).u as int, out@[k].v as int) == center_at(
                    *settings,
                    width as int,
                    k,
                )),
            forall|k: int|
                #![trigger out@[k]]
                0 <= k < out@.len() ==> half <= out@[k].u && out@[k].u + half < width && half <= out@[k].v
                    && out@[k].v + half < height,
        decreases nv - j,
    {
        let mut i: usize = 0;
        while i < nu
            invariant
                i <= nu,
                j < nv,
                half == half_patch(*settings),
                stride == settings.patch_stride,
                stride > 0,
                nu == patches_along(width as int, half as int, stride as int),
                nv == patches_along(height as int, half as int, stride as int),
                out@.len() == j * nu + i,
                forall|k: int|
                    0 <= k < out@.len() ==> (((#[trigger] out@[k]).u as int, out@[k].v as int) == center_at(
                        *settings,
                        width as int,
                        k,
                    )),
                forall|k: int|
                    #![trigger out@[k]]
                    0 <= k < out@.len() ==> half <= out@[k].u && out@[k].u + half < width && half <= out@[k].v
                        && out@[k].v + half < height,
            decreases nu - i,
        {
            proof {
                crate::layout::lemma_samples_along(width - 2 * half, stride as int, i as int);
                crate::layout::lemma_samples_along(height - 2 * half, stride as int, j as int);
                assert(0 <= i * stride && 0 <= j * stride) by (nonlinear_arith);
                assert(j * nu + i == nu * j + i) by (nonlinear_arith);
                vstd::arithmetic::div_mod::lemma_fundamental_div_mod_converse(
                    j * nu + i,
                    nu as int,
                    j as int,
                    i as int,
                );
            }
            out.push(PatchCenter { u: half + i * stride, v: half + j * stride });
            i = i + 1;
        }
        assert((j + 1) * nu == j * nu + nu) by (nonlinear_arith);
        j = j + 1;
    }
    assert(nv * nu == nu * nv) by (nonlinear_arith);
    out
}

/// One estimate per patch of an image, row by row.
#[derive(Clone, Debug)]
pub struct PatchGrid {
    patches: Vec<PatchEstimate>,
    n_u: usize,
    n_v: usize,
    half: usize,
    stride: usize,
}

impl PatchGrid {
    pub closed spec fn estimates(self) -> Seq<PatchEstimate> {
        self.patches@
    }

    pub closed spec fn cols(self) -> int {
        self.n_u as int
    }

    pub closed spec fn rows(self) -> int {
        self.n_v as int
    }

    pub closed spec fn half_size(self) -> int {
        self.half as int
    }

    pub closed spec fn step(self) -> int {
        self.stride as int
    }

    /// One estimate per patch, and patches at least one pixel apart.
    pub open spec fn wf(self) -> bool {
        &&& self.estimates().len() == self.cols() * self.rows()
        &&& self.step() > 0
        &&& self.half_size() >= 0
        &&& self.cols() >= 0
        &&& self.rows() >= 0
    }

    /// The sizes a grid has for an image and settings.
    pub open spec fn fits(self, width: int, height: int, settings: PatchDepthSettings) -> bool {
        &&& self.half_size() == half_patch(settings)
        &&& self.step() == settings.patch_stride
        &&& self.cols() == patches_along(width, half_patch(settings), settings.patch_stride as int)
        &&& self.rows() == patches_along(height, half_patch(settings), settings.patch_stride as int)
    }

    /// Whether patches in column `i` have pixels in image column `x`. The same holds of
    /// rows.
    pub open spec fn reaches(self, i: int, x: int) -> bool {
        i * self.step() <= x < i * self.step() + 2 * self.half_size()
    }

    /// Whether the `k`-th patch has the pixel `(x, y)`.
    pub open spec fn covers(self, k: int, x: int, y: int) -> bool {
        &&& 0 <= k < self.estimates().len()
        &&& self.reaches(k % self.cols(), x)
        &&& self.reaches(k / self.cols(), y)
    }

    /// Whether the `k`-th patch takes part in the depth of the pixel `(x, y)`.
    pub open spec fn contributes(self, k: int, x: int, y: int) -> bool {
        self.covers(k, x, y) && self.estimates()[k].weighs()
    }

    /// A grid without any estimate.
    pub fn new(width: usize, height: usize, settings: &PatchDepthSettings) -> (r: Self)
        requires
            settings.patch_stride > 0,
            patches_along(width as int, half_patch(*settings), settings.patch_stride as int) * patches_along(
                height as int,
                half_patch(*settings),
                settings.patch_stride as int,
            ) <= usize::MAX,
        ensures
            r.wf(),
            r.fits(width as int, height as int, *settings),
            forall|k: int|
                0 <= k < r.estimates().len() ==> #[trigger] r.estimates()[k] == PatchEstimate::unknown_estimate(),
    {
        let half: usize = settings.patch_size / 2;
        let stride: usize = settings.patch_stride;
        let n_u: usize = patch_count(width, half, stride);
        let n_v: usize = patch_count(height, half, stride);
        let patches: Vec<PatchEstimate> = vec![PatchEstimate::unknown(); n_u * n_v];
        PatchGrid { patches, n_u, n_v, half, stride }
    }

    /// Number of patches in a row.
    pub fn n_u(&self) -> (r: usize)
        ensures
            r == self.cols(),
    {
        self.n_u
    }

    /// Number of rows of patches.
    pub fn n_v(&self) -> (r: usize)
        ensures
            r == self.rows(),
    {
        self.n_v
    }

    /// Stores the estimate of the patch around a centre. A centre beyond the last patch
    /// is left out.
    pub fn set(&mut self, cu: usize, cv: usize, estimate: PatchEstimate)
        requires
            old(self).wf(),
            old(self).half_size() <= cu,
            old(self).half_size() <= cv,
        ensures
            final(self).wf(),
            final(self).cols() == old(self).cols(),
            final(self).rows() == old(self).rows(),
            final(self).half_size() == old(self).half_size(),
            final(self).step() == old(self).step(),
            ({
                let iu = (cu - old(self).half_size()) / old(self).step();
                let iv = (cv - old(self).half_size()) / old(self).step();
                final(self).estimates() == (if iu < old(self).cols() && iv < old(self).rows() {
                    old(self).estimates().update(crate::layout::cell2(old(self).cols(), iu, iv), estimate)
                } else {
                    old(self).estimates()
                })
            }),
    {
        let iu: usize = (cu - self.half) / self.stride;
        let iv: usize = (cv - self.half) / self.stride;
        if iu < self.n_u && iv < self.n_v {
            proof {
                crate::layout::lemma_cell2_bound(self.n_u as int, self.n_v as int, iu as int, iv as int);
                assert(self.patches.len() <= usize::MAX);
            }
            let index: usize = iv * self.n_u + iu;
            self.patches.set(index, estimate);
        }
    }

    /// The estimate of the patch in column `iu` and row `iv`.
    pub fn get(&self, iu: usize, iv: usize) -> (r: &PatchEstimate)
        requires
            self.wf(),
            iu < self.cols(),
            iv < self.rows(),
        ensures
            *r == self.estimates()[crate::layout::cell2(self.cols(), iu as int, iv as int)],
    {
        proof {
            crate::layout::lemma_cell2_bound(self.n_u as int, self.n_v as int, iu as int, iv as int);
            assert(self.patches.len() <= usize::MAX);
        }
        &self.patches[iv * self.n_u + iu]
    }

    /// Whether patches in column `i` are counted at image column `x` when pixels look up
    /// their patches: all columns of a patch but its last one.
    pub open spec fn looked_up(self, i: int, x: int) -> bool {
        i * self.step() <= x && x + 1 < i * self.step() + 2 * self.half_size()
    }

    proof fn lemma_division_threshold(a: int, s: int, i: int)
        requires
            s > 0,
            a >= 0,
        ensures
            i > a / s <==> i * s > a,
            i <= a / s <==> i * s <= a,
    {
        vstd::arithmetic::div_mod::lemma_fundamental_div_mod(a, s);
        vstd::arithmetic::div_mod::lemma_mod_bound(a, s);
        let q = a / s;
        assert(i > q <==> i * s > a) by (nonlinear_arith)
            requires
                a == s * q + a % s,
                0 <= a % s < s,
        ;
    }

    fn overlap_axis(&self, n: usize, px: usize) -> (r: (usize, usize))
        requires
            self.wf(),
            n > 0,
            px + 1 <= usize::MAX,
            2 * self.half_size() <= usize::MAX,
            px / (self.stride) + 1 <= usize::MAX,
        ensures
            forall|i: int| 0 <= i < n ==> (r.0 <= i <= r.1 <==> #[trigger] self.looked_up(i, px as int)),
            r.1 < n,
    {
        let span: usize = 2 * self.half;
        proof {
            if px + 1 >= span {
                vstd::arithmetic::div_mod::lemma_div_is_ordered(px + 1 - span, px as int + 1, self.stride as int);
                vstd::arithmetic::div_mod::lemma_div_nonincreasing(px + 1 - span, self.stride as int);
            }
        }
        let start: usize = if px + 1 >= span {
            let a: usize = px + 1 - span;
            if a / self.stride == usize::MAX {
                usize::MAX
            } else {
                a / self.stride + 1
            }
        } else {
            0
        };
        let last: usize = px / self.stride;
        let end: usize = if last < n - 1 { last } else { n - 1 };
        assert forall|i: int| 0 <= i < n implies (start <= i <= end <==> #[trigger] self.looked_up(i, px as int)) by {
            Self::lemma_division_threshold(px as int, self.stride as int, i);
            if px + 1 >= span {
                Self::lemma_division_threshold(px + 1 - span, self.stride as int, i);
            } else {
                assert(i * self.stride >= 0) by (nonlinear_arith)
                    requires
                        i >= 0,
                        self.stride > 0,
                ;
            }
        }
        (start, end)
    }

    /// First and last column of patches that are looked up at image column `px`; none
    /// where the first is behind the last.
    pub fn overlap_u(&self, px: usize) -> (r: (usize, usize))
        requires
            self.wf(),
            self.cols() > 0,
            px < usize::MAX,
            2 * self.half_size() <= usize::MAX,
        ensures
            forall|i: int| 0 <= i < self.cols() ==> (r.0 <= i <= r.1 <==> #[trigger] self.looked_up(i, px as int)),
            r.1 < self.cols(),
    {
        proof {
            vstd::arithmetic::div_mod::lemma_div_nonincreasing(px as int, self.stride as int);
        }
        self.overlap_axis(self.n_u, px)
    }

    /// First and last row of patches that are looked up at image row `py`; none where the
    /// first is behind the last.
    pub fn overlap_v(&self, py: usize) -> (r: (usize, usize))
        requires
            self.wf(),
            self.rows() > 0,
            py < usize::MAX,
            2 * self.half_size() <= usize::MAX,
        ensures
            forall|i: int| 0 <= i < self.rows() ==> (r.0 <= i <= r.1 <==> #[trigger] self.looked_up(i, py as int)),
            r.1 < self.rows(),
    {
        proof {
            vstd::arithmetic::div_mod::lemma_div_nonincreasing(py as int, self.stride as int);
        }
        self.overlap_axis(self.n_v, py)
    }

    /// First patch column that reaches image column `px`, and the one behind the last.
    fn reach_axis(&self, n: usize, px: usize) -> (r: (usize, usize))
        requires
            self.wf(),
            2 * self.half_size() <= usize::MAX,
        ensures
            forall|i: int| 0 <= i < n ==> (r.0 <= i < r.1 <==> #[trigger] self.reaches(i, px as int)),
            r.1 <= n,
    {
        let span: usize = 2 * self.half;
        let last: usize = px / self.stride;
        let end: usize = if last < n { last + 1 } else { n };
        let start: usize = if px >= span {
            let q: usize = (px - span) / self.stride;
            if q < n {
                q + 1
            } else {
                n
            }
        } else {
            0
        };
        assert forall|i: int| 0 <= i < n implies (start <= i < end <==> #[trigger] self.reaches(i, px as int)) by {
            Self::lemma_division_threshold(px as int, self.stride as int, i);
            if px >= span {
                Self::lemma_division_threshold(px - span, self.stride as int, i);
            } else {
                assert(i * self.stride >= 0) by (nonlinear_arith)
                    requires
                        i >= 0,
                        self.stride > 0,
                ;
            }
        }
        (start, end)
    }

    /// The patches of a rectangle of the lattice that take part in fusion, in order.
    fn weighing_in(&self, u0: usize, u1: usize, v0: usize, v1: usize) -> (r: Vec<usize>)
        requires
            self.wf(),
            u1 <= self.cols(),
            v1 <= self.rows(),
        ensures
            forall|a: int, b: int| 0 <= a < b < r@.len() ==> #[trigger] r@[a] < #[trigger] r@[b],
            forall|k: int|
                #![trigger self.estimates()[k]]
                0 <= k <= usize::MAX ==> (r@.contains(k as usize) <==> 0 <= k < self.estimates().len() && u0 <= k
                    % self.cols() < u1 && v0 <= k / self.cols() < v1 && self.estimates()[k].weighs()),
    {
        let mut out: Vec<usize> = Vec::new();
        let n: usize = self.n_u;
        let ghost goal = |k: int| 0 <= k < self.estimates().len() && u0 <= k % self.cols() < u1 && v0 <= k / self.cols()
            < v1 && self.estimates()[k].weighs();
        assert(self.patches.len() <= usize::MAX);
        let mut iv: usize = v0;
        while iv < v1
            invariant
                self.wf(),
                u1 <= self.cols(),
                v1 <= self.rows(),
                n == self.cols(),
                v0 <= iv <= v1 || v1 < v0 && iv == v0,
                self.patches.len() == self.estimates().len(),
                goal == (|k: int| 0 <= k < self.estimates().len() && u0 <= k % self.cols() < u1 && v0 <= k / self.cols()
                    < v1 && self.estimates()[k].weighs()),
                forall|a: int, b: int| 0 <= a < b < out@.len() ==> #[trigger] out@[a] < #[trigger] out@[b],
                forall|a: int| 0 <= a < out@.len() ==> goal(#[trigger] out@[a] as int) && out@[a] as int / self.cols() < iv,
                forall|k: int|
                    #![trigger self.estimates()[k]]
                    0 <= k <= usize::MAX && goal(k) && k / self.cols() < iv ==> out@.contains(k as usize),
            decreases v1 - iv,
        {
            let mut iu: usize = u0;
            while iu < u1
                invariant
                    self.wf(),
                    u1 <= self.cols(),
                    v1 <= self.rows(),
                    n == self.cols(),
                    v0 <= iv < v1,
                    u0 <= iu <= u1 || u1 < u0 && iu == u0,
                    self.patches.len() == self.estimates().len(),
                    goal == (|k: int| 0 <= k < self.estimates().len() && u0 <= k % self.cols() < u1 && v0 <= k
                        / self.cols() < v1 && self.estimates()[k].weighs()),
                    forall|a: int, b: int| 0 <= a < b < out@.len() ==> #[trigger] out@[a] < #[trigger] out@[b],
                    forall|a: int|
                        0 <= a < out@.len() ==> goal(#[trigger] out@[a] as int) && (out@[a] as int / self.cols() < iv
                            || out@[a] as int / self.cols() == iv && out@[a] as int % self.cols() < iu),
                    forall|k: int|
                        #![trigger self.estimates()[k]]
                        0 <= k <= usize::MAX && goal(k) && (k / self.cols() < iv || k / self.cols() == iv && k
                            % self.cols() < iu) ==> out@.contains(k as usize),
                decreases u1 - iu,
            {
                proof {
                    crate::layout::lemma_cell2_bound(n as int, self.n_v as int, iu as int, iv as int);
                    assert(iv * n + iu == n * iv + iu) by (nonlinear_arith);
                    vstd::arithmetic::div_mod::lemma_fundamental_div_mod_converse(
                        iv * n + iu,
                        n as int,
                        iv as int,
                        iu as int,
                    );
                }
                let index: usize = iv * n + iu;
                let estimate: PatchEstimate = self.patches[index];
                let ghost before = out@;
                if estimate.inv_var_weight().is_some() {
                    proof {
                        assert forall|a: int| 0 <= a < before.len() implies #[trigger] before[a] < index by {
                            let m = before[a] as int;
                            vstd::arithmetic::div_mod::lemma_fundamental_div_mod(m, n as int);
                            vstd::arithmetic::div_mod::lemma_mod_bound(m, n as int);
                            let q = m / (n as int);
                            assert(m < index) by (nonlinear_arith)
                                requires
                                    m == n * q + m % (n as int),
                                    0 <= m % (n as int) < n,
                                    index == iv * n + iu,
                                    q < iv || q == iv && m % (n as int) < iu,
                                    iu >= 0,
                            ;
                        }
                    }
                    out.push(index);
                }
                proof {
                    assert forall|k: int|
                        #![trigger self.estimates()[k]]
                        0 <= k <= usize::MAX && goal(k) && (k / self.cols() < iv || k / self.cols() == iv && k
                            % self.cols() < iu + 1) implies out@.contains(k as usize) by {
                        crate::seqs::lemma_push_contains(before, index, k as usize);
                        if k / self.cols() == iv && k % self.cols() == iu {
                            vstd::arithmetic::div_mod::lemma_fundamental_div_mod(k, n as int);
                            assert(n * iv == iv * n) by (nonlinear_arith);
                            assert(k == index);
                        }
                    }
                }
                iu = iu + 1;
            }
            iv = iv + 1;
        }
        assert forall|k: int|
            #![trigger self.estimates()[k]]
            0 <= k <= usize::MAX implies (out@.contains(k as usize) <==> 0 <= k < self.estimates().len() && u0 <= k
                % self.cols() < u1 && v0 <= k / self.cols() < v1 && self.estimates()[k].weighs()) by {
            if out@.contains(k as usize) {
                let a = choose|a: int| 0 <= a < out@.len() && out@[a] == k as usize;
                assert(goal(out@[a] as int));
            }
        }
        out
    }

    /// The patches that take part in the depth of a pixel, in order.
    pub fn contributors(&self, px: usize, py: usize) -> (r: Vec<usize>)
        requires
            self.wf(),
            2 * self.half_size() <= usize::MAX,
        ensures
            forall|a: int, b: int| 0 <= a < b < r@.len() ==> #[trigger] r@[a] < #[trigger] r@[b],
            forall|k: usize| #[trigger] r@.contains(k) <==> self.contributes(k as int, px as int, py as int),
    {
        let (u0, u1): (usize, usize) = self.reach_axis(self.n_u, px);
        let (v0, v1): (usize, usize) = self.reach_axis(self.n_v, py);
        let out: Vec<usize> = self.weighing_in(u0, u1, v0, v1);
        assert forall|k: usize| #[trigger] out@.contains(k) <==> self.contributes(k as int, px as int, py as int) by {
            let e = self.estimates()[k as int];
            if 0 <= k < self.estimates().len() {
                self.lemma_slot(k as int);
                assert(self.reaches(k as int % self.cols(), px as int) <==> u0 <= k as int % self.cols() < u1);
                assert(self.reaches(k as int / self.cols(), py as int) <==> v0 <= k as int / self.cols() < v1);
            }
        }
        out
    }

    proof fn lemma_slot(self, k: int)
        requires
            self.wf(),
            0 <= k < self.estimates().len(),
        ensures
            0 <= k % self.cols() < self.cols(),
            0 <= k / self.cols() < self.rows(),
            crate::layout::cell2(self.cols(), k % self.cols(), k / self.cols()) == k,
    {
        if self.cols() == 0 {
            assert(self.cols() * self.rows() == 0) by (nonlinear_arith)
                requires
                    self.cols() == 0,
            ;
        }
        crate::layout::lemma_cell2_of_position(self.cols(), self.rows(), k);
    }

    /// Whether the `k`-th patch takes part in the depth of the pixel `(x, y)` when pixels
    /// look up their patches.
    pub open spec fn looked_up_at(self, k: int, x: int, y: int) -> bool {
        &&& 0 <= k < self.estimates().len()
        &&& self.looked_up(k % self.cols(), x)
        &&& self.looked_up(k / self.cols(), y)
        &&& self.estimates()[k].weighs()
    }

    /// The patches that a pixel looks up and that take part in fusion, in order.
    pub fn looked_up_contributors(&self, px: usize, py: usize) -> (r: Vec<usize>)
        requires
            self.wf(),
            self.cols() > 0,
            self.rows() > 0,
            px < usize::MAX,
            py < usize::MAX,
            2 * self.half_size() <= usize::MAX,
        ensures
            forall|a: int, b: int| 0 <= a < b < r@.len() ==> #[trigger] r@[a] < #[trigger] r@[b],
            forall|k: usize| #[trigger] r@.contains(k) <==> self.looked_up_at(k as int, px as int, py as int),
    {
        let (u0, u_last): (usize, usize) = self.overlap_u(px);
        let (v0, v_last): (usize, usize) = self.overlap_v(py);
        let out: Vec<usize> = self.weighing_in(u0, u_last + 1, v0, v_last + 1);
        assert forall|k: usize| #[trigger] out@.contains(k) <==> self.looked_up_at(k as int, px as int, py as int) by {
            let e = self.estimates()[k as int];
            if 0 <= k < self.estimates().len() {
                self.lemma_slot(k as int);
                assert(self.looked_up(k as int % self.cols(), px as int) <==> u0 <= k as int % self.cols() <= u_last);
                assert(self.looked_up(k as int / self.cols(), py as int) <==> v0 <= k as int / self.cols() <= v_last);
            }
        }
        out
    }

    /// Whether the `k`-th patch takes part in the depth of the pixel `(x, y)` when rows look
    /// up their patches, which then fill all their columns.
    pub open spec fn row_looked_up_at(self, k: int, x: int, y: int) -> bool {
        &&& 0 <= k < self.estimates().len()
        &&& self.reaches(k % self.cols(), x)
        &&& self.looked_up(k / self.cols(), y)
        &&& self.estimates()[k].weighs()
    }

    /// The patches that a row looks up and that fill a pixel of it, in order.
    pub fn row_contributors(&self, px: usize, py: usize) -> (r: Vec<usize>)
        requires
            self.wf(),
            self.rows() > 0,
            py < usize::MAX,
            2 * self.half_size() <= usize::MAX,
        ensures
            forall|a: int, b: int| 0 <= a < b < r@.len() ==> #[trigger] r@[a] < #[trigger] r@[b],
            forall|k: usize| #[trigger] r@.contains(k) <==> self.row_looked_up_at(k as int, px as int, py as int),
    {
        let (u0, u1): (usize, usize) = self.reach_axis(self.n_u, px);
        let (v0, v_last): (usize, usize) = self.overlap_v(py);
        let out: Vec<usize> = self.weighing_in(u0, u1, v0, v_last + 1);
        assert forall|k: usize| #[trigger] out@.contains(k) <==> self.row_looked_up_at(
            k as int,
            px as int,
            py as int,
        ) by {
            let e = self.estimates()[k as int];
            if 0 <= k < self.estimates().len() {
                self.lemma_slot(k as int);
                assert(self.reaches(k as int % self.cols(), px as int) <==> u0 <= k as int % self.cols() < u1);
                assert(self.looked_up(k as int / self.cols(), py as int) <==> v0 <= k as int / self.cols() <= v_last);
            }
        }
        out
    }

    /// Whether `status` is the status of highest rank among the listed patches, and
    /// unknown where there are none.
    pub open spec fn is_best_status(self, listed: Seq<usize>, status: PatchStatus) -> bool {
        &&& forall|i: int|
            0 <= i < listed.len() ==> self.estimates()[#[trigger] listed[i] as int].status.rank() <= status.rank()
        &&& status == PatchStatus::Unknown || exists|i: int|
            0 <= i < listed.len() && self.estimates()[#[trigger] listed[i] as int].status == status
    }

    /// The status of highest rank among the listed patches.
    pub fn best_status(&self, listed: &Vec<usize>) -> (r: PatchStatus)
        requires
            forall|i: int| 0 <= i < listed@.len() ==> (#[trigger] listed@[i]) < self.estimates().len(),
        ensures
            self.is_best_status(listed@, r),
    {
        let mut best: PatchStatus = PatchStatus::Unknown;
        let mut i: usize = 0;
        while i < listed.len()
            invariant
                i <= listed@.len(),
                forall|k: int| 0 <= k < listed@.len() ==> (#[trigger] listed@[k]) < self.estimates().len(),
                forall|k: int|
                    0 <= k < i ==> self.estimates()[#[trigger] listed@[k] as int].status.rank() <= best.rank(),
                best == PatchStatus::Unknown || exists|k: int|
                    0 <= k < i && self.estimates()[#[trigger] listed@[k] as int].status == best,
            decreases listed@.len() - i,
        {
            let ghost seen = listed@[i as int];
            best = best.merge(self.patches[listed[i]].status);
            i = i + 1;
        }
        best
    }
}

/// Storing the estimate of every centre fills every slot of a grid exactly once: the
/// `k`-th centre belongs to the `k`-th slot.
pub proof fn law_centers_fill_the_grid(grid: PatchGrid, settings: PatchDepthSettings, width: int, height: int, k: int)
    requires
        grid.wf(),
        grid.fits(width, height, settings),
        settings.patch_stride > 0,
        0 <= k < grid.estimates().len(),
    ensures
        ({
            let (u, v) = center_at(settings, width, k);
            let iu = (u - grid.half_size()) / grid.step();
            let iv = (v - grid.half_size()) / grid.step();
            &&& grid.half_size() <= u
            &&& grid.half_size() <= v
            &&& iu < grid.cols()
            &&& iv < grid.rows()
            &&& crate::layout::cell2(grid.cols(), iu, iv) == k
        }),
{
    grid.lemma_slot(k);
    let iu = k % grid.cols();
    let iv = k / grid.cols();
    let s = grid.step();
    assert(iu * s >= 0 && iv * s >= 0) by (nonlinear_arith)
        requires
            iu >= 0,
            iv >= 0,
            s > 0,
    ;
    vstd::arithmetic::div_mod::lemma_div_by_multiple(iu, s);
    vstd::arithmetic::div_mod::lemma_div_by_multiple(iv, s);
}

/// A pixel looks up only patches that it lies in, and all of those but the ones whose
/// last column or row it lies in.
pub proof fn law_lookup_is_coverage_without_the_last_line(grid: PatchGrid, i: int, x: int)
    ensures
        grid.looked_up(i, x) ==> grid.reaches(i, x),
        grid.reaches(i, x) && !grid.looked_up(i, x) <==> grid.half_size() > 0 && x == i * grid.step() + 2
            * grid.half_size() - 1 && i * grid.step() <= x,
{
}

/// Every patch lies inside the image, and its centre lies in it.
pub proof fn law_patches_lie_inside(grid: PatchGrid, settings: PatchDepthSettings, width: int, height: int, i: int, x: int)
    requires
        grid.wf(),
        grid.fits(width, height, settings),
        0 <= i < grid.cols(),
    ensures
        grid.reaches(i, x) ==> 0 <= x < width - 1,
        grid.half_size() > 0 ==> grid.reaches(i, i * grid.step() + grid.half_size()),
{
    crate::layout::lemma_samples_along(
        if width - 2 * grid.half_size() > 0 {
            width - 2 * grid.half_size()
        } else {
            0
        },
        grid.step(),
        i,
    );
    let s = grid.step();
    assert(i * s >= 0) by (nonlinear_arith)
        requires
            i >= 0,
            s > 0,
    ;
}

/// NaN as a binary32 number.
#[verifier::allow_in_spec]
pub fn nan32() -> Real32
    returns
        (Real32 { bits: 0x7FC0_0000 }),
{
    Real32 { bits: 0x7FC0_0000 }
}

/// Infinity as a binary32 number.
#[verifier::allow_in_spec]
pub fn infinity32() -> Real32
    returns
        (Real32 { bits: 0x7F80_0000 }),
{
    Real32 { bits: 0x7F80_0000 }
}

/// What was summed up for one pixel: the sum of weights, the weighted mean of the
/// log-range and the inverse of the sum of weights.
#[derive(Clone, Copy, Debug, PartialEq)]
pub struct PixelSum {
    pub weight: Real32,
    pub mean: Real32,
    pub variance: Real32,
    pub status: PatchStatus,
}

impl PixelSum {
    /// Whether the pixel has an estimate.
    pub open spec fn weighs(self) -> bool {
        zero32().lt(self.weight)
    }
}

/// The maps of an image from the sums of its pixels, row by row. A pixel without weight
/// holds NaN and an infinite variance; its status is kept, or unknown where
/// `status_needs_weight`.
pub fn assemble_output(width: usize, height: usize, sums: &[PixelSum], status_needs_weight: bool) -> (r: PatchDepthOutput)
    requires
        sums@.len() == width * height,
    ensures
        r.wf(),
        r.eta.width == width,
        r.eta.height == height,
        forall|i: int|
            0 <= i < sums@.len() ==> #[trigger] r.eta.data@[i] == (if sums@[i].weighs() {
                sums@[i].mean
            } else {
                nan32()
            }),
        forall|i: int|
            0 <= i < sums@.len() ==> #[trigger] r.eta_var.data@[i] == (if sums@[i].weighs() {
                sums@[i].variance
            } else {
                infinity32()
            }),
        forall|i: int|
            0 <= i < sums@.len() ==> #[trigger] r.status.data@[i] == (if status_needs_weight && !sums@[i].weighs() {
                PatchStatus::Unknown
            } else {
                sums@[i].status
            }),
{
    let mut eta: Vec<Real32> = Vec::new();
    let mut eta_var: Vec<Real32> = Vec::new();
    let mut status: Vec<PatchStatus> = Vec::new();
    let n: usize = sums.len();
    let mut i: usize = 0;
    while i < n
        invariant
            i <= n,
            n == sums@.len(),
            eta@.len() == i,
            eta_var@.len() == i,
            status@.len() == i,
            forall|k: int|
                0 <= k < i ==> #[trigger] eta@[k] == (if sums@[k].weighs() {
                    sums@[k].mean
                } else {
                    nan32()
                }),
            forall|k: int|
                0 <= k < i ==> #[trigger] eta_var@[k] == (if sums@[k].weighs() {
                    sums@[k].variance
                } else {
                    infinity32()
                }),
            forall|k: int|
                0 <= k < i ==> #[trigger] status@[k] == (if status_needs_weight && !sums@[k].weighs() {
                    PatchStatus::Unknown
                } else {
                    sums@[k].status
                }),
        decreases n - i,
    {
        let s: PixelSum = sums[i];
        if zero32().less(s.weight) {
            eta.push(s.mean);
            eta_var.push(s.variance);
            status.push(s.status);
        } else {
            eta.push(nan32());
            eta_var.push(infinity32());
            status.push(if status_needs_weight { PatchStatus::Unknown } else { s.status });
        }
        i = i + 1;
    }
    PatchDepthOutput {
        eta: DepthMap { width, height, data: eta },
        eta_var: DepthMap { width, height, data: eta_var },
        status: DepthMap { width, height, data: status },
    }
}

/// Whether the reference image is compared at a warped pixel: the point lies in front of
/// the camera (where its depth is given), the pixel inside the reference image before its
/// last column `max_u` and row `max_v`, and the pixel it came from is valid.
pub open spec fn compares_reference(
    u: Real32,
    v: Real32,
    z: Option<Real32>,
    max_u: Real32,
    max_v: Real32,
    current_valid: bool,
) -> bool {
    &&& z matches Some(depth) ==> real32(0x3586_37BD).lt(depth)
    &&& zero32().le(u)
    &&& zero32().le(v)
    &&& u.lt(max_u)
    &&& v.lt(max_v)
    &&& current_valid
}

/// Whether the reference image is asked for the weight of a patch: only where the patch was
/// compared with it.
pub fn has_photo_weight(status: PatchStatus) -> (r: bool)
    ensures
        r == (status == PatchStatus::PhotoRefined),
{
    match status {
        PatchStatus::PhotoRefined => true,
        PatchStatus::Unknown | PatchStatus::SeedOnly | PatchStatus::Rejected => false,
    }
}

/// Decides whether the reference image is compared at a warped pixel; elsewhere the weight
/// of a patch stays as it is.
pub fn photo_weight_applies(
    u: Real32,
    v: Real32,
    z: Option<Real32>,
    max_u: Real32,
    max_v: Real32,
    current_valid: bool,
) -> (r: bool)
    ensures
        r == compares_reference(u, v, z, max_u, max_v, current_valid),
{
    let in_front: bool = match z {
        Some(depth) => real32(0x3586_37BD).less(depth),
        None => true,
    };
    in_front && zero32().at_most(u) && zero32().at_most(v) && u.less(max_u) && v.less(max_v) && current_valid
}

/// Patches stand at every multiple of the stride behind the first half patch, along both axes,
/// as far as half a patch still lies between the centre and the end of the image; and only
/// there.
pub proof fn law_centers_are_all_that_fit(
    width: usize,
    height: usize,
    settings: &PatchDepthSettings,
    r: Vec<PatchCenter>,
    a: int,
    b: int,
    k: int,
)
    requires
        settings.patch_stride > 0,
        call_ensures(patch_centers, (width, height, settings), r),
        0 <= a,
        0 <= b,
        2 * (settings.patch_size as int / 2) + a * settings.patch_stride < width,
        2 * (settings.patch_size as int / 2) + b * settings.patch_stride < height,
        0 <= k < r@.len(),
    ensures
        exists|l: int|
            {
                &&& 0 <= l < r@.len()
                &&& (#[trigger] r@[l]).u == settings.patch_size as int / 2 + a * settings.patch_stride
                &&& r@[l].v == settings.patch_size as int / 2 + b * settings.patch_stride
            },
        (r@[k].u - settings.patch_size as int / 2) % (settings.patch_stride as int) == 0,
        (r@[k].v - settings.patch_size as int / 2) % (settings.patch_stride as int) == 0,
        r@[k].u >= settings.patch_size as int / 2 && r@[k].u + settings.patch_size as int / 2 < width,
        r@[k].v >= settings.patch_size as int / 2 && r@[k].v + settings.patch_size as int / 2 < height,
{
    let half = half_patch(*settings);
    let s = settings.patch_stride as int;
    let nx = patches_along(width as int, half, s);
    let ny = patches_along(height as int, half, s);
    assert(a * s >= 0 && b * s >= 0) by (nonlinear_arith)
        requires
            a >= 0,
            b >= 0,
            s > 0,
    ;
    crate::layout::lemma_samples_along(width - 2 * half, s, a);
    crate::layout::lemma_samples_along(height - 2 * half, s, b);
    let l = crate::layout::cell2(nx, a, b);
    crate::layout::lemma_cell2_bound(nx, ny, a, b);
    assert(b * nx + a == nx * b + a) by (nonlinear_arith);
    vstd::arithmetic::div_mod::lemma_fundamental_div_mod_converse(l, nx, b, a);
    assert(center_at(*settings, width as int, l) == (half + a * s, half + b * s));
    assert((r@[l].u as int, r@[l].v as int) == center_at(*settings, width as int, l));
    assert((r@[k].u as int, r@[k].v as int) == center_at(*settings, width as int, k));
    vstd::arithmetic::div_mod::lemma_mod_multiples_basic(k % nx, s);
    vstd::arithmetic::div_mod::lemma_mod_multiples_basic(k / nx, s);
}

/// A patch covers the pixels from half a patch before its centre up to half a patch behind it,
/// the last one left out, along both axes.
pub proof fn law_patch_covers_the_pixels_around_its_centre(
    grid: PatchGrid,
    settings: PatchDepthSettings,
    width: int,
    height: int,
    k: int,
    x: int,
    y: int,
)
    requires
        grid.wf(),
        grid.fits(width, height, settings),
        settings.patch_stride > 0,
        0 <= k < grid.estimates().len(),
    ensures
        ({
            let (u, v) = center_at(settings, width, k);
            let half = settings.patch_size as int / 2;
            let inside = u - half <= x < u + half && v - half <= y < v + half;
            let last_column = x == u + half - 1;
            let last_row = y == v + half - 1;
            let weighs = crate::ieee::zero64().lt(grid.estimates()[k].inv_var_w);
            &&& grid.contributes(k, x, y) <==> inside && weighs
            &&& grid.looked_up_at(k, x, y) <==> inside && weighs && !last_column && !last_row
            &&& grid.row_looked_up_at(k, x, y) <==> inside && weighs && !last_row
        }),
{
}

/// The best status of the patches of a pixel: a rejection where there is any, else a refinement
/// where there is any, else that of the seeds where there is any.
pub proof fn law_best_status_is_the_strongest(grid: &PatchGrid, listed: &Vec<usize>, r: PatchStatus, i: int)
    requires
        forall|k: int| 0 <= k < listed@.len() ==> (#[trigger] listed@[k]) < grid.estimates().len(),
        call_ensures(PatchGrid::best_status, (grid, listed), r),
        0 <= i < listed@.len(),
    ensures
        grid.estimates()[listed@[i] as int].status == PatchStatus::Rejected ==> r == PatchStatus::Rejected,
        grid.estimates()[listed@[i] as int].status == PatchStatus::PhotoRefined ==> r == PatchStatus::PhotoRefined || r
            == PatchStatus::Rejected,
        grid.estimates()[listed@[i] as int].status == PatchStatus::SeedOnly ==> r != PatchStatus::Unknown,
        r != PatchStatus::Unknown ==> exists|k: int|
            0 <= k < listed@.len() && grid.estimates()[#[trigger] listed@[k] as int].status == r,
{
    let seen = listed@[i];
}

/// A pixel has a log-range and a variance exactly where its sum of weights is positive; without
/// one it holds NaN and infinity.
pub proof fn law_pixels_without_weight_are_empty(
    width: usize,
    height: usize,
    sums: &[PixelSum],
    status_needs_weight: bool,
    r: PatchDepthOutput,
    i: int,
)
    requires
        sums@.len() == width * height,
        call_ensures(assemble_output, (width, height, sums, status_needs_weight), r),
        0 <= i < sums@.len(),
    ensures
        zero32().lt(sums@[i].weight) ==> r.eta.data@[i] == sums@[i].mean && r.eta_var.data@[i] == sums@[i].variance
            && r.status.data@[i] == sums@[i].status,
        !zero32().lt(sums@[i].weight) ==> r.eta.data@[i].nan() && r.eta_var.data@[i].bits == 0x7F80_0000,
        !zero32().lt(sums@[i].weight) && status_needs_weight ==> r.status.data@[i] == PatchStatus::Unknown,
        !status_needs_weight ==> r.status.data@[i] == sums@[i].status,
{
}

/// A pixel of a refined patch is weighed by the images where it goes to a place inside the
/// reference image, at a depth above 1e-6 where one is known, and is valid itself.
pub proof fn law_photo_weight_needs_the_reference(
    u: Real32,
    v: Real32,
    z: Option<Real32>,
    max_u: Real32,
    max_v: Real32,
    current_valid: bool,
    r: bool,
)
    requires
        call_ensures(photo_weight_applies, (u, v, z, max_u, max_v, current_valid), r),
    ensures
        r ==> current_valid && zero32().le(u) && u.lt(max_u) && zero32().le(v) && v.lt(max_v),
        r ==> (z matches Some(depth) ==> (Real32 { bits: 0x3586_37BD }).lt(depth)),
        !r ==> !current_valid || !zero32().le(u) || !u.lt(max_u) || !zero32().le(v) || !v.lt(max_v) || (
        z matches Some(depth) && !(Real32 { bits: 0x3586_37BD }).lt(depth)),
{
}

/// The weight of the reference image is asked for where a patch was refined, and for no other.
pub proof fn law_only_refined_patches_have_a_weight(status: PatchStatus, r: bool)
    requires
        call_ensures(has_photo_weight, (status,), r),
    ensures
        r <==> status != PatchStatus::Unknown && status != PatchStatus::SeedOnly && status != PatchStatus::Rejected,
{
}

} // verus!
