//! Which pixels of a patch are compared with which pixels of the reference image.
use vstd::prelude::*;
use crate::depth::patch_depth::image_ops::{
    bilinear_footprint, bilinear_patch_footprint, sample_nearest, sample_valid_nearest, Mask, EXACT_INTEGERS,
};
use crate::ieee::{real64, zero64, Real64};

verus! {

/// Where a patch lies in the current image, and where its pixels are read in the reference
/// image when the whole patch is shifted.
#[derive(Clone, Copy, Debug, PartialEq, Eq, Structural)]
pub struct TranslatedPatchFootprint {
    /// Upper left pixel in the reference image.
    pub ref_x: usize,
    pub ref_y: usize,
    /// Upper left pixel in the current image, which may lie outside.
    pub curr_x0: i64,
    pub curr_y0: i64,
    /// Number of rows and columns.
    pub side: usize,
}

impl TranslatedPatchFootprint {
    /// The patch, with one more row and column, lies in the reference image, and its
    /// positions can be computed with.
    pub open spec fn wf(self, ref_w: int, ref_h: int) -> bool {
        &&& self.ref_x + self.side < ref_w
        &&& self.ref_y + self.side < ref_h
        &&& self.side <= i64::MAX
        &&& self.curr_x0 + self.side <= i64::MAX
        &&& self.curr_y0 + self.side <= i64::MAX
    }
}

/// The place of a shifted patch, from its upper left corner in both images; nothing where it
/// is not read inside the reference image.
pub fn translated_patch_footprint(
    ref_w: usize,
    ref_h: usize,
    ref_corner_u: Real64,
    ref_corner_v: Real64,
    curr_corner_u: Real64,
    curr_corner_v: Real64,
    half: usize,
) -> (r: Option<TranslatedPatchFootprint>)
    requires
        2 * half <= usize::MAX,
        crate::depth::patch_depth::image_ops::pixel_index(ref_corner_u) + 2 * half <= usize::MAX,
        crate::depth::patch_depth::image_ops::pixel_index(ref_corner_v) + 2 * half <= usize::MAX,
    ensures
        r is Some <==> {
            &&& !ref_corner_u.lt_int(0)
            &&& !ref_corner_v.lt_int(0)
            &&& crate::depth::patch_depth::image_ops::pixel_index(ref_corner_u) + 2 * half < ref_w
            &&& crate::depth::patch_depth::image_ops::pixel_index(ref_corner_v) + 2 * half < ref_h
        },
        r matches Some(p) ==> {
            &&& p.ref_x == crate::depth::patch_depth::image_ops::pixel_index(ref_corner_u)
            &&& p.ref_y == crate::depth::patch_depth::image_ops::pixel_index(ref_corner_v)
            &&& p.side == 2 * half
            &&& p.curr_x0 == crate::ieee::saturated_i64(
                crate::depth::patch_depth::image_ops::pixel_index(curr_corner_u),
            )
            &&& p.curr_y0 == crate::ieee::saturated_i64(
                crate::depth::patch_depth::image_ops::pixel_index(curr_corner_v),
            )
        },
{
    let side: usize = 2 * half;
    match bilinear_patch_footprint(ref_w, ref_h, ref_corner_u, ref_corner_v, side) {
        None => None,
        Some((x, y)) => Some(
            TranslatedPatchFootprint {
                ref_x: x,
                ref_y: y,
                curr_x0: curr_corner_u.trunc_to_i64(),
                curr_y0: curr_corner_v.trunc_to_i64(),
                side,
            },
        ),
    }
}

/// A pixel of the current image and the pixel from which on the reference image is read.
#[derive(Clone, Copy, Debug, PartialEq, Eq, Structural)]
pub struct PixelPair {
    pub curr_x: usize,
    pub curr_y: usize,
    pub ref_x: usize,
    pub ref_y: usize,
}

/// A mask that fits an image, where there is one.
pub open spec fn mask_fits(mask: Option<&Mask>, width: int, height: int) -> bool {
    mask matches Some(m) ==> m.wf() && m.width == width && m.height == height
}

/// Whether a pixel is valid; without a mask every pixel is.
pub open spec fn valid_at(mask: Option<&Mask>, x: int, y: int) -> bool {
    mask matches Some(m) ==> m.set(x, y)
}

fn is_valid_at(mask: Option<&Mask>, x: usize, y: usize, width: usize, height: usize) -> (r: bool)
    requires
        mask_fits(mask, width as int, height as int),
        x < width,
        y < height,
    ensures
        r == valid_at(mask, x as int, y as int),
{
    match mask {
        Some(m) => m.is_set(x, y),
        None => true,
    }
}

/// Whether the pixel in column `lx` and row `ly` of a shifted patch is compared: it lies in
/// the current image, and is valid in both.
pub open spec fn compared(
    patch: TranslatedPatchFootprint,
    curr_w: int,
    curr_h: int,
    curr_mask: Option<&Mask>,
    ref_mask: Option<&Mask>,
    lx: int,
    ly: int,
) -> bool {
    &&& 0 <= patch.curr_x0 + lx < curr_w
    &&& 0 <= patch.curr_y0 + ly < curr_h
    &&& valid_at(curr_mask, patch.curr_x0 + lx, patch.curr_y0 + ly)
    &&& valid_at(ref_mask, patch.ref_x + lx, patch.ref_y + ly)
}

/// The pair of pixels in column `lx` and row `ly` of a shifted patch.
pub open spec fn pair_at(patch: TranslatedPatchFootprint, lx: int, ly: int) -> PixelPair {
    PixelPair {
        curr_x: (patch.curr_x0 + lx) as usize,
        curr_y: (patch.curr_y0 + ly) as usize,
        ref_x: (patch.ref_x + lx) as usize,
        ref_y: (patch.ref_y + ly) as usize,
    }
}

/// The pairs among the first `n` pixels of a shifted patch, row by row.
pub open spec fn compared_pairs(
    patch: TranslatedPatchFootprint,
    curr_w: int,
    curr_h: int,
    curr_mask: Option<&Mask>,
    ref_mask: Option<&Mask>,
    n: nat,
) -> Seq<PixelPair>
    decreases n,
{
    if n == 0 {
        Seq::empty()
    } else {
        let k = n - 1;
        let lx = k % (patch.side as int);
        let ly = k / (patch.side as int);
        let rest = compared_pairs(patch, curr_w, curr_h, curr_mask, ref_mask, k as nat);
        if compared(patch, curr_w, curr_h, curr_mask, ref_mask, lx, ly) {
            rest.push(pair_at(patch, lx, ly))
        } else {
            rest
        }
    }
}

/// The pixels of a shifted patch that are compared, row by row.
pub fn patch_pairs(
    patch: &TranslatedPatchFootprint,
    curr_w: usize,
    curr_h: usize,
    curr_mask: Option<&Mask>,
    ref_w: usize,
    ref_h: usize,
    ref_mask: Option<&Mask>,
) -> (r: Vec<PixelPair>)
    requires
        patch.wf(ref_w as int, ref_h as int),
        curr_w <= i64::MAX,
        curr_h <= i64::MAX,
        mask_fits(curr_mask, curr_w as int, curr_h as int),
        mask_fits(ref_mask, ref_w as int, ref_h as int),
    ensures
        r@ == compared_pairs(
            *patch,
            curr_w as int,
            curr_h as int,
            curr_mask,
            ref_mask,
            (patch.side * patch.side) as nat,
        ),
{
    let side: usize = patch.side;
    let mut out: Vec<PixelPair> = Vec::new();
    let mut ly: usize = 0;
    assert(0 * side == 0);
    while ly < side
        invariant
            ly <= side,
            side == patch.side,
            patch.wf(ref_w as int, ref_h as int),
            curr_w <= i64::MAX,
            curr_h <= i64::MAX,
            mask_fits(curr_mask, curr_w as int, curr_h as int),
            mask_fits(ref_mask, ref_w as int, ref_h as int),
            out@ == compared_pairs(
                *patch,
                curr_w as int,
                curr_h as int,
                curr_mask,
                ref_mask,
                (ly * side) as nat,
            ),
        decreases side - ly,
    {
        let mut lx: usize = 0;
        while lx < side
            invariant
                ly < side,
                lx <= side,
                side == patch.side,
                patch.wf(ref_w as int, ref_h as int),
                curr_w <= i64::MAX,
                curr_h <= i64::MAX,
                mask_fits(curr_mask, curr_w as int, curr_h as int),
                mask_fits(ref_mask, ref_w as int, ref_h as int),
                ly * side >= 0,
                out@ == compared_pairs(
                    *patch,
                    curr_w as int,
                    curr_h as int,
                    curr_mask,
                    ref_mask,
                    (ly * side + lx) as nat,
                ),
            decreases side - lx,
        {
            proof {
                assert(ly * side + lx == side * ly + lx) by (nonlinear_arith);
                vstd::arithmetic::div_mod::lemma_fundamental_div_mod_converse(
                    ly * side + lx,
                    side as int,
                    ly as int,
                    lx as int,
                );
            }
            let cx: i64 = patch.curr_x0 + lx as i64;
            let cy: i64 = patch.curr_y0 + ly as i64;
            if cx >= 0 && cx < curr_w as i64 && cy >= 0 && cy < curr_h as i64 {
                let x: usize = cx as usize;
                let y: usize = cy as usize;
                if is_valid_at(curr_mask, x, y, curr_w, curr_h) && is_valid_at(
                    ref_mask,
                    patch.ref_x + lx,
                    patch.ref_y + ly,
                    ref_w,
                    ref_h,
                ) {
                    out.push(
                        PixelPair { curr_x: x, curr_y: y, ref_x: patch.ref_x + lx, ref_y: patch.ref_y + ly },
                    );
                }
            }
            lx = lx + 1;
        }
        assert((ly + 1) * side == ly * side + side && (ly + 1) * side >= 0) by (nonlinear_arith)
            requires
                ly >= 0,
                side >= 0,
        ;
        ly = ly + 1;
    }
    out
}

/// Whether a shifted patch is compared many pixels at a time: its side is one that is
/// supported, and all of it lies in the current image.
pub open spec fn vector_sized(patch: TranslatedPatchFootprint, curr_w: int, curr_h: int) -> bool {
    &&& patch.side == 4 || patch.side == 8 || patch.side == 16
    &&& 0 <= patch.curr_x0
    &&& 0 <= patch.curr_y0
    &&& patch.curr_x0 + patch.side <= curr_w
    &&& patch.curr_y0 + patch.side <= curr_h
}

/// Decides whether a shifted patch is compared many pixels at a time.
pub fn is_vector_sized(patch: &TranslatedPatchFootprint, curr_w: usize, curr_h: usize) -> (r: bool)
    requires
        patch.curr_x0 + patch.side <= i64::MAX,
        patch.curr_y0 + patch.side <= i64::MAX,
    ensures
        r == vector_sized(*patch, curr_w as int, curr_h as int),
{
    if patch.side != 4 && patch.side != 8 && patch.side != 16 {
        return false;
    }
    if patch.curr_x0 < 0 || patch.curr_y0 < 0 {
        return false;
    }
    let x1: u64 = patch.curr_x0 as u64 + patch.side as u64;
    let y1: u64 = patch.curr_y0 as u64 + patch.side as u64;
    x1 <= curr_w as u64 && y1 <= curr_h as u64
}

/// Comparing many pixels at a time, which is done only where all of a patch is valid, sees
/// every pixel of the patch, as comparing them one by one does.
pub proof fn law_vector_path_sees_all_pixels(
    patch: TranslatedPatchFootprint,
    curr_w: int,
    curr_h: int,
    curr_mask: Option<&Mask>,
    ref_mask: Option<&Mask>,
    n: nat,
)
    requires
        vector_sized(patch, curr_w, curr_h),
        forall|lx: int, ly: int|
            0 <= lx < patch.side && 0 <= ly < patch.side ==> valid_at(
                curr_mask,
                #[trigger] (patch.curr_x0 + lx),
                #[trigger] (patch.curr_y0 + ly),
            ) && valid_at(ref_mask, patch.ref_x + lx, patch.ref_y + ly),
        n <= patch.side * patch.side,
    ensures
        compared_pairs(patch, curr_w, curr_h, curr_mask, ref_mask, n).len() == n,
    decreases n,
{
    if n > 0 {
        law_vector_path_sees_all_pixels(patch, curr_w, curr_h, curr_mask, ref_mask, (n - 1) as nat);
        let k = n - 1;
        let side = patch.side as int;
        let lx = k % side;
        let ly = k / side;
        crate::layout::lemma_cell2_of_position(side, side, k);
        let x = patch.curr_x0 + lx;
        let y = patch.curr_y0 + ly;
        assert(valid_at(curr_mask, x, y));
    }
}

/// Whether the comparison through an affine map is done many pixels at a time.
pub fn is_affine_vector_sized(side: usize, width: usize, height: usize, same_layout: bool) -> (r: bool)
    ensures
        r == (side % 8 == 0 && side != 0 && width >= 2 && height >= 2 && same_layout),
{
    side % 8 == 0 && side != 0 && width >= 2 && height >= 2 && same_layout
}

/// The pixels from which on both images are read at two points, without masks; nothing if
/// either point is outside.
pub fn raw_pair(width: usize, height: usize, curr_u: Real64, curr_v: Real64, ref_u: Real64, ref_v: Real64) -> (r:
    Option<PixelPair>)
    requires
        0 < width <= EXACT_INTEGERS,
        0 < height <= EXACT_INTEGERS,
    ensures
        r is None <==> crate::depth::patch_depth::image_ops::outside_image(
            curr_u,
            curr_v,
            width as int,
            height as int,
        ) || crate::depth::patch_depth::image_ops::outside_image(ref_u, ref_v, width as int, height as int),
        r matches Some(p) ==> {
            &&& p.curr_x == crate::depth::patch_depth::image_ops::pixel_index(curr_u)
            &&& p.curr_y == crate::depth::patch_depth::image_ops::pixel_index(curr_v)
            &&& p.ref_x == crate::depth::patch_depth::image_ops::pixel_index(ref_u)
            &&& p.ref_y == crate::depth::patch_depth::image_ops::pixel_index(ref_v)
        },
{
    match bilinear_footprint(width, height, curr_u, curr_v) {
        None => None,
        Some((cx, cy)) => match bilinear_footprint(width, height, ref_u, ref_v) {
            None => None,
            Some((rx, ry)) => Some(PixelPair { curr_x: cx, curr_y: cy, ref_x: rx, ref_y: ry }),
        },
    }
}

/// The pixels that are compared when each pixel of a patch is warped on its own: the nearest
/// one of the current image, if it is valid, and the one from which on the reference image is
/// read, if an interpolation may read there. `warped` is where the pixel goes, if anywhere.
pub fn exact_pair(
    curr_w: usize,
    curr_h: usize,
    curr_mask: Option<&Mask>,
    ref_w: usize,
    ref_h: usize,
    ref_mask: Option<&Mask>,
    pu: Real64,
    pv: Real64,
    warped: Option<(Real64, Real64)>,
) -> (r: Option<PixelPair>)
    requires
        curr_w <= isize::MAX,
        curr_h <= isize::MAX,
        1 < ref_w <= EXACT_INTEGERS,
        1 < ref_h <= EXACT_INTEGERS,
        mask_fits(curr_mask, curr_w as int, curr_h as int),
        mask_fits(ref_mask, ref_w as int, ref_h as int),
    ensures
        r is Some <==> {
            &&& crate::depth::patch_depth::image_ops::nearest_inside(pu, pv, curr_w as int, curr_h as int)
            &&& valid_at(
                curr_mask,
                crate::depth::patch_depth::image_ops::pixel_index(pu),
                crate::depth::patch_depth::image_ops::pixel_index(pv),
            )
            &&& warped matches Some(w)
            &&& !crate::depth::patch_depth::image_ops::outside_image(w.0, w.1, ref_w as int, ref_h as int)
            &&& valid_at(
                ref_mask,
                crate::depth::patch_depth::image_ops::pixel_index(w.0),
                crate::depth::patch_depth::image_ops::pixel_index(w.1),
            )
        },
        r matches Some(p) ==> {
            &&& p.curr_x == crate::depth::patch_depth::image_ops::pixel_index(pu)
            &&& p.curr_y == crate::depth::patch_depth::image_ops::pixel_index(pv)
            &&& warped matches Some(w)
            &&& p.ref_x == crate::depth::patch_depth::image_ops::pixel_index(w.0)
            &&& p.ref_y == crate::depth::patch_depth::image_ops::pixel_index(w.1)
        },
{
    let (cx, cy): (usize, usize) = match sample_nearest(curr_w, curr_h, pu, pv) {
        Some(at) => at,
        None => {
            return None;
        },
    };
    if !sample_valid_nearest(curr_mask, pu, pv) {
        return None;
    }
    let (u, v): (Real64, Real64) = match warped {
        Some(w) => w,
        None => {
            return None;
        },
    };
    match bilinear_footprint(ref_w, ref_h, u, v) {
        None => None,
        Some((rx, ry)) => if is_valid_at(ref_mask, rx, ry, ref_w, ref_h) {
            Some(PixelPair { curr_x: cx, curr_y: cy, ref_x: rx, ref_y: ry })
        } else {
            None
        },
    }
}

/// The uncertainty of a warp up to which it is ignored.
#[verifier::allow_in_spec]
pub fn negligible_warp() -> Real64
    returns
        (Real64 { bits: 0x3C32_725D_D1D2_43AC }),
{
    real64(0x3C32_725D_D1D2_43AC)
}

/// Whether all residuals have the same variance.
pub fn has_constant_variance(sigma_warp_sq: Real64) -> (r: bool)
    ensures
        r == sigma_warp_sq.le(negligible_warp()),
{
    sigma_warp_sq.at_most(negligible_warp())
}

/// The distance between two cameras below which their motion has no direction.
#[verifier::allow_in_spec]
pub fn least_motion() -> Real64
    returns
        (Real64 { bits: 0x3E45_798E_E230_8C3A }),
{
    real64(0x3E45_798E_E230_8C3A)
}

/// The uncertainty of a warp, from the one computed for the uncertainty of the velocity over
/// a time: zero where that is not known, no time has passed, or the camera has not moved.
pub fn warp_variance(velocity_known: bool, dt: Real64, motion: Real64, computed: Real64) -> (r: Real64)
    ensures
        r == (if !velocity_known || dt.le(zero64()) || motion.lt(least_motion()) {
            zero64()
        } else {
            computed
        }),
{
    if !velocity_known || dt.at_most(zero64()) || motion.less(least_motion()) {
        zero64()
    } else {
        computed
    }
}

/// The cost or weight of a residual: one within the threshold, another one beyond it.
pub fn robust_choice(abs_residual: Real64, delta: Real64, within: Real64, beyond: Real64) -> (r: Real64)
    ensures
        r == (if abs_residual.le(delta) {
            within
        } else {
            beyond
        }),
{
    if abs_residual.at_most(delta) {
        within
    } else {
        beyond
    }
}

/// What a sum of residuals is divided by.
pub fn mean_divisor(n_valid: usize) -> (r: usize)
    ensures
        r == (if n_valid == 0 {
            1
        } else {
            n_valid
        }),
{
    if n_valid == 0 {
        1
    } else {
        n_valid
    }
}

/// Exactly those pixels of a shifted patch are compared that lie in the current image and are
/// valid in both images, each with the pixel of the reference image at the same place of the
/// patch.
pub proof fn law_pairs_are_the_valid_pixels(
    patch: TranslatedPatchFootprint,
    curr_w: int,
    curr_h: int,
    curr_mask: Option<&Mask>,
    ref_mask: Option<&Mask>,
    n: nat,
    p: PixelPair,
)
    requires
        patch.side > 0,
        curr_w <= usize::MAX,
        curr_h <= usize::MAX,
        patch.ref_x + patch.side <= usize::MAX,
        patch.ref_y + patch.side <= usize::MAX,
        n <= patch.side * patch.side,
    ensures
        compared_pairs(patch, curr_w, curr_h, curr_mask, ref_mask, n).contains(p) <==> exists|k: int|
            0 <= k < n && #[trigger] is_pair(patch, curr_w, curr_h, curr_mask, ref_mask, k, p),
        compared_pairs(patch, curr_w, curr_h, curr_mask, ref_mask, n).len() <= n,
    decreases n,
{
    if n > 0 {
        let k = n - 1;
        law_pairs_are_the_valid_pixels(patch, curr_w, curr_h, curr_mask, ref_mask, k as nat, p);
        let side = patch.side as int;
        crate::layout::lemma_cell2_of_position(side, side, k);
        let (lx, ly) = (k % side, k / side);
        let rest = compared_pairs(patch, curr_w, curr_h, curr_mask, ref_mask, k as nat);
        crate::seqs::lemma_push_contains(rest, pair_at(patch, lx, ly), p);
        assert(is_pair(patch, curr_w, curr_h, curr_mask, ref_mask, k, p) <==> compared(
            patch,
            curr_w,
            curr_h,
            curr_mask,
            ref_mask,
            lx,
            ly,
        ) && p == pair_at(patch, lx, ly));
    }
}

/// Whether a pair is that of the `k`-th pixel of a shifted patch, row by row: inside the current
/// image, and set in both masks.
pub open spec fn is_pair(
    patch: TranslatedPatchFootprint,
    curr_w: int,
    curr_h: int,
    curr_mask: Option<&Mask>,
    ref_mask: Option<&Mask>,
    k: int,
    p: PixelPair,
) -> bool {
    let (lx, ly) = (k % (patch.side as int), k / (patch.side as int));
    &&& p.curr_x - patch.curr_x0 == lx
    &&& p.curr_y - patch.curr_y0 == ly
    &&& p.ref_x - patch.ref_x == lx
    &&& p.ref_y - patch.ref_y == ly
    &&& p.curr_x < curr_w
    &&& p.curr_y < curr_h
    &&& curr_mask matches Some(m) ==> m.data@[crate::layout::cell2(m.width as int, p.curr_x as int, p.curr_y as int)]
        != 0
    &&& ref_mask matches Some(m) ==> m.data@[crate::layout::cell2(m.width as int, p.ref_x as int, p.ref_y as int)]
        != 0
}

/// A patch is compared many pixels at a time where its side is four, eight or sixteen and no
/// pixel of it lies outside the current image.
pub proof fn law_vectors_stay_in_the_image(patch: &TranslatedPatchFootprint, curr_w: usize, curr_h: usize, r: bool)
    requires
        patch.curr_x0 + patch.side <= i64::MAX,
        patch.curr_y0 + patch.side <= i64::MAX,
        call_ensures(is_vector_sized, (patch, curr_w, curr_h), r),
    ensures
        r ==> forall|lx: int, ly: int|
            0 <= lx < patch.side && 0 <= ly < patch.side ==> 0 <= #[trigger] (patch.curr_x0 + lx) < curr_w && 0
                <= #[trigger] (patch.curr_y0 + ly) < curr_h,
        r ==> patch.side == 4 || patch.side == 8 || patch.side == 16,
        !r && (patch.side == 4 || patch.side == 8 || patch.side == 16) ==> patch.curr_x0 < 0 || patch.curr_y0 < 0
            || patch.curr_x0 + patch.side > curr_w || patch.curr_y0 + patch.side > curr_h,
{
}

/// A residual counts in one way up to the threshold and in another way beyond it.
pub proof fn law_threshold_parts_the_residuals(
    abs_residual: Real64,
    delta: Real64,
    within: Real64,
    beyond: Real64,
    r: Real64,
)
    requires
        call_ensures(robust_choice, (abs_residual, delta, within, beyond), r),
    ensures
        abs_residual.le(delta) ==> r == within,
        delta.lt(abs_residual) ==> r == beyond,
{
}

/// A warp is uncertain only where the velocity is, time has passed, and the cameras are apart by
/// at least 1e-8.
pub proof fn law_still_camera_has_a_certain_warp(
    velocity_known: bool,
    dt: Real64,
    motion: Real64,
    computed: Real64,
    r: Real64,
)
    requires
        call_ensures(warp_variance, (velocity_known, dt, motion, computed), r),
    ensures
        !velocity_known || dt.le(zero64()) || motion.lt(Real64 { bits: 0x3E45_798E_E230_8C3A }) ==> r.bits == 0,
        velocity_known && zero64().lt(dt) && (Real64 { bits: 0x3E45_798E_E230_8C3A }).le(motion) ==> r == computed,
{
}

/// Two points are compared where an interpolation reads inside the image at both; it reads from
/// the pixels that the points lie in.
pub proof fn law_raw_pairs_lie_at_their_points(
    width: usize,
    height: usize,
    curr_u: Real64,
    curr_v: Real64,
    ref_u: Real64,
    ref_v: Real64,
    r: Option<PixelPair>,
)
    requires
        0 < width <= EXACT_INTEGERS,
        0 < height <= EXACT_INTEGERS,
        !curr_u.nan() && !curr_v.nan() && !ref_u.nan() && !ref_v.nan(),
        call_ensures(raw_pair, (width, height, curr_u, curr_v, ref_u, ref_v), r),
    ensures
        r is Some <==> curr_u.ge_int(0) && curr_u.lt_int(width - 1) && curr_v.ge_int(0) && curr_v.lt_int(height - 1)
            && ref_u.ge_int(0) && ref_u.lt_int(width - 1) && ref_v.ge_int(0) && ref_v.lt_int(height - 1),
        r matches Some(p) ==> p.curr_x == curr_u.floored() && p.curr_y == curr_v.floored() && p.ref_x
            == ref_u.floored() && p.ref_y == ref_v.floored(),
{
    if r is Some {
        curr_u.lemma_trunc_nonnegative();
        curr_v.lemma_trunc_nonnegative();
        ref_u.lemma_trunc_nonnegative();
        ref_v.lemma_trunc_nonnegative();
    }
}

/// A shifted patch is read where its corner is not before the reference image and its last line
/// and column, with one more, still lie in it; it keeps its side, and both its corners are cut
/// off to pixels.
pub proof fn law_shifted_patch_lies_in_the_reference(
    ref_w: usize,
    ref_h: usize,
    ref_u: Real64,
    ref_v: Real64,
    curr_u: Real64,
    curr_v: Real64,
    half: usize,
    r: Option<TranslatedPatchFootprint>,
)
    requires
        2 * half <= usize::MAX,
        !ref_u.nan(),
        !ref_v.nan(),
        crate::depth::patch_depth::image_ops::pixel_index(ref_u) + 2 * half <= usize::MAX,
        crate::depth::patch_depth::image_ops::pixel_index(ref_v) + 2 * half <= usize::MAX,
        call_ensures(translated_patch_footprint, (ref_w, ref_h, ref_u, ref_v, curr_u, curr_v, half), r),
    ensures
        r is Some <==> ref_u.ge_int(0) && ref_v.ge_int(0) && ref_u.floored() + 2 * half < ref_w && ref_v.floored() + 2
            * half < ref_h,
        r matches Some(p) ==> p.ref_x == ref_u.floored() && p.ref_y == ref_v.floored() && p.side == 2 * half,
{
    if ref_u.ge_int(0) && ref_v.ge_int(0) {
        ref_u.lemma_trunc_nonnegative();
        ref_v.lemma_trunc_nonnegative();
    }
}

/// A sum is divided by the number of its terms, and never by zero.
pub proof fn law_mean_has_a_divisor(n_valid: usize, r: usize)
    requires
        call_ensures(mean_divisor, (n_valid,), r),
    ensures
        r >= 1,
        n_valid >= 1 ==> r == n_valid,
        n_valid == 0 ==> r == 1,
{
}

/// A pixel warped on its own is compared where it has a target; it lies in the current image and
/// is valid there, and the target leaves room for an interpolation in the reference and is valid.
pub proof fn law_warped_pixel_needs_both_images(
    curr_w: usize,
    curr_h: usize,
    ref_w: usize,
    ref_h: usize,
    curr_mask: Option<&Mask>,
    ref_mask: Option<&Mask>,
    pu: Real64,
    pv: Real64,
    w: (Real64, Real64),
    r: Option<PixelPair>,
    none: Option<PixelPair>,
)
    requires
        curr_w <= isize::MAX,
        curr_h <= isize::MAX,
        1 < ref_w <= EXACT_INTEGERS,
        1 < ref_h <= EXACT_INTEGERS,
        mask_fits(curr_mask, curr_w as int, curr_h as int),
        mask_fits(ref_mask, ref_w as int, ref_h as int),
        !w.0.nan() && !w.1.nan(),
        call_ensures(exact_pair, (curr_w, curr_h, curr_mask, ref_w, ref_h, ref_mask, pu, pv, Some(w)), r),
        call_ensures(exact_pair, (curr_w, curr_h, curr_mask, ref_w, ref_h, ref_mask, pu, pv, None), none),
    ensures
        none is None,
        r matches Some(p) ==> {
            &&& p.curr_x < curr_w && p.curr_y < curr_h
            &&& p.ref_x == w.0.truncated() && p.ref_y == w.1.truncated()
            &&& w.0.ge_int(0) && w.0.lt_int(ref_w - 1) && w.1.ge_int(0) && w.1.lt_int(ref_h - 1)
            &&& curr_mask matches Some(m) ==> m.set(p.curr_x as int, p.curr_y as int)
            &&& ref_mask matches Some(m) ==> m.set(p.ref_x as int, p.ref_y as int)
        },
        curr_mask is None && ref_mask is None && w.0.ge_int(0) && w.0.lt_int(ref_w - 1) && w.1.ge_int(0)
            && w.1.lt_int(ref_h - 1) && crate::depth::patch_depth::image_ops::nearest_inside(
            pu,
            pv,
            curr_w as int,
            curr_h as int,
        ) ==> r is Some,
{
}

/// Vectors are used for whole groups of eight pixels in images of two by two pixels and more with
/// the same layout; residuals have one variance where the warp is as good as certain.
pub proof fn law_vectors_take_eight_pixels(
    side: usize,
    width: usize,
    height: usize,
    same_layout: bool,
    r: bool,
    sigma_warp_sq: Real64,
    constant: bool,
)
    requires
        call_ensures(is_affine_vector_sized, (side, width, height, same_layout), r),
        call_ensures(has_constant_variance, (sigma_warp_sq,), constant),
    ensures
        r ==> side >= 8 && side % 8 == 0 && width > 1 && height > 1 && same_layout,
        !r ==> side % 8 != 0 || side == 0 || width <= 1 || height <= 1 || !same_layout,
        constant <==> sigma_warp_sq.le(Real64 { bits: 0x3C32_725D_D1D2_43AC }),
{
}

/// The compared pixels of a patch are those of its square that are valid in both images, and no
/// more than it has.
pub proof fn law_patch_compares_its_valid_pixels(
    patch: &TranslatedPatchFootprint,
    curr_w: usize,
    curr_h: usize,
    curr_mask: Option<&Mask>,
    ref_w: usize,
    ref_h: usize,
    ref_mask: Option<&Mask>,
    r: Vec<PixelPair>,
    p: PixelPair,
)
    requires
        patch.wf(ref_w as int, ref_h as int),
        patch.side > 0,
        patch.ref_x + patch.side <= usize::MAX,
        patch.ref_y + patch.side <= usize::MAX,
        curr_w <= i64::MAX,
        curr_h <= i64::MAX,
        mask_fits(curr_mask, curr_w as int, curr_h as int),
        mask_fits(ref_mask, ref_w as int, ref_h as int),
        call_ensures(patch_pairs, (patch, curr_w, curr_h, curr_mask, ref_w, ref_h, ref_mask), r),
    ensures
        r@.len() <= patch.side * patch.side,
        r@.contains(p) <==> exists|k: int|
            0 <= k < patch.side * patch.side && #[trigger] is_pair(
                *patch,
                curr_w as int,
                curr_h as int,
                curr_mask,
                ref_mask,
                k,
                p,
            ),
{
    assert(patch.side * patch.side >= 0) by (nonlinear_arith);
    law_pairs_are_the_valid_pixels(
        *patch,
        curr_w as int,
        curr_h as int,
        curr_mask,
        ref_mask,
        (patch.side * patch.side) as nat,
        p,
    );
}

} // verus!
