//! Which points can be warped from one image to the other, and the choice of tangents.
use vstd::prelude::*;
use crate::depth::patch_depth::image_ops::{bilinear_footprint, EXACT_INTEGERS};
use crate::depth::patch_depth::PatchDepthCameraMode;
use crate::ieee::{one64, real64, zero64, Real64};

verus! {

/// The depth up to which a point has no pixel.
#[verifier::allow_in_spec]
pub fn nearest_depth() -> Real64
    returns
        (Real64 { bits: 0x3EB0_C6F7_A0B5_ED8D }),
{
    real64(0x3EB0_C6F7_A0B5_ED8D)
}

/// Whether a point at this depth before the reference camera has a pixel.
pub fn has_pixel(depth: Real64) -> (r: bool)
    ensures
        r == !depth.le(nearest_depth()),
{
    !depth.at_most(nearest_depth())
}

/// Whether a point at this depth is safely before a camera.
pub fn is_before(depth: Real64) -> (r: bool)
    ensures
        r == nearest_depth().lt(depth),
{
    nearest_depth().less(depth)
}

/// The depth along a tile's axis up to which a point has no pixel in the tile.
#[verifier::allow_in_spec]
pub fn nearest_to_tile() -> Real64
    returns
        (Real64 { bits: 0x3E11_2E0B_E826_D695 }),
{
    real64(0x3E11_2E0B_E826_D695)
}

/// Whether a point at this depth along a tile's axis has a pixel in the tile.
pub fn has_tile_pixel(depth: Real64) -> (r: bool)
    ensures
        r == !depth.le(nearest_to_tile()),
{
    !depth.at_most(nearest_to_tile())
}

/// The length that a vector must exceed to be divided by it.
#[verifier::allow_in_spec]
pub fn least_divisor() -> Real64
    returns
        (Real64 { bits: 0x3D71_9799_812D_EA11 }),
{
    real64(0x3D71_9799_812D_EA11)
}

/// Whether a direction of this length, or a bearing of this depth without its sign, can be
/// scaled to one.
pub fn can_be_scaled(length: Real64) -> (r: bool)
    ensures
        r == least_divisor().lt(length),
{
    least_divisor().less(length)
}

/// Whether an inverse depth places a point.
pub fn places_point(rho: Real64) -> (r: bool)
    ensures
        r == !rho.le(zero64()),
{
    !rho.at_most(zero64())
}

/// How bearings and pixels are related in a camera mode.
#[derive(Clone, Copy, Debug, PartialEq, Eq, Structural)]
pub enum PixelModel {
    /// Through the camera's own model, tabulated over its pixels.
    Camera,
    /// Through a pinhole.
    Pinhole,
}

/// How bearings and pixels are related in a camera mode: modes that work on raw images use
/// the camera's own model.
pub fn pixel_model(mode: PatchDepthCameraMode) -> (r: PixelModel)
    ensures
        r == PixelModel::Camera <==> mode == PatchDepthCameraMode::RawDistorted || mode
            == PatchDepthCameraMode::PerPatchBearing,
{
    match mode {
        PatchDepthCameraMode::RawDistorted | PatchDepthCameraMode::PerPatchBearing => PixelModel::Camera,
        PatchDepthCameraMode::UndistortedPinhole | PatchDepthCameraMode::TiledBearing => PixelModel::Pinhole,
    }
}

/// The first of the four tabulated bearings that a pixel's bearing is interpolated from, and
/// the three others; nothing for a pixel outside the image or in its last row or column.
pub fn bearing_at_original(width: usize, height: usize, u: Real64, v: Real64) -> (r: Option<[usize; 4]>)
    requires
        0 < width <= EXACT_INTEGERS,
        0 < height <= EXACT_INTEGERS,
        crate::depth::patch_depth::image_ops::readable(u, v, width as int, height as int),
        width * height <= usize::MAX,
    ensures
        r is None <==> crate::depth::patch_depth::image_ops::outside_image(u, v, width as int, height as int),
        r matches Some(idx) ==> {
            let x = crate::depth::patch_depth::image_ops::pixel_index(u);
            let y = crate::depth::patch_depth::image_ops::pixel_index(v);
            &&& idx@[0] == crate::layout::cell2(width as int, x, y)
            &&& idx@[1] == crate::layout::cell2(width as int, x + 1, y)
            &&& idx@[2] == crate::layout::cell2(width as int, x, y + 1)
            &&& idx@[3] == crate::layout::cell2(width as int, x + 1, y + 1)
            &&& forall|k: int| 0 <= k < 4 ==> #[trigger] idx@[k] < width * height
        },
{
    match bilinear_footprint(width, height, u, v) {
        None => None,
        Some((x, y)) => {
            proof {
                crate::layout::lemma_cell2_bound(width as int, height as int, x as int, y as int);
                crate::layout::lemma_cell2_bound(width as int, height as int, x + 1, y as int);
                crate::layout::lemma_cell2_bound(width as int, height as int, x as int, y + 1);
                crate::layout::lemma_cell2_bound(width as int, height as int, x + 1, y + 1);
            }
            let upper: usize = y * width + x;
            let lower: usize = (y + 1) * width + x;
            Some([upper, upper + 1, lower, lower + 1])
        },
    }
}

/// The squared length below which a direction is not used.
#[verifier::allow_in_spec]
pub fn least_length_squared() -> Real64
    returns
        (Real64 { bits: 0x3C32_725D_D1D2_43AC }),
{
    real64(0x3C32_725D_D1D2_43AC)
}

/// A direction, or another one where its squared length is too small.
pub fn normalize_or_fallback(length_squared: Real64, direction: [Real64; 3], fallback: [Real64; 3]) -> (r: [Real64; 3])
    ensures
        r == (if least_length_squared().lt(length_squared) {
            direction
        } else {
            fallback
        }),
{
    if least_length_squared().less(length_squared) {
        direction
    } else {
        fallback
    }
}

/// The tangent turned so that it follows the image axis, from its product with that axis.
pub fn oriented(tangent: [Real64; 3], product: Real64) -> (r: [Real64; 3])
    ensures
        product.lt(zero64()) ==> r@ == tangent@.map_values(|x: Real64| x.negated()),
        !product.lt(zero64()) ==> r@ == tangent@,
{
    if product.less(zero64()) {
        let r: [Real64; 3] = [tangent[0].neg(), tangent[1].neg(), tangent[2].neg()];
        assert(r@ =~= tangent@.map_values(|x: Real64| x.negated()));
        r
    } else {
        tangent
    }
}

/// The argument of a smooth step, limited to the unit interval.
pub fn smoothstep_argument(x: Real64) -> (r: Real64)
    ensures
        r == x.clamped(zero64(), one64()),
{
    proof {
        zero64().lemma_key_orders_values(one64());
        assert(zero64().key() < one64().key());
    }
    x.clamp(zero64(), one64())
}

/// A bearing is interpolated between the four tabulated pixels around it: the upper left one is
/// not behind the point, along either axis, and the others are the next ones.
pub proof fn law_bearing_lies_between_its_pixels(
    width: usize,
    height: usize,
    u: Real64,
    v: Real64,
    r: Option<[usize; 4]>,
)
    requires
        0 < width <= EXACT_INTEGERS,
        0 < height <= EXACT_INTEGERS,
        width * height <= usize::MAX,
        !u.nan(),
        !v.nan(),
        call_ensures(bearing_at_original, (width, height, u, v), r),
    ensures
        r is Some <==> u.ge_int(0) && u.lt_int(width - 1) && v.ge_int(0) && v.lt_int(height - 1),
        r matches Some(at) ==> {
            &&& at@[0] == v.floored() * width + u.floored()
            &&& at@[1] == at@[0] + 1
            &&& at@[2] == at@[0] + width
            &&& at@[3] == at@[2] + 1
        },
{
    if u.ge_int(0) && v.ge_int(0) {
        u.lemma_trunc_nonnegative();
        v.lemma_trunc_nonnegative();
    }
    let y = v.floored();
    assert((y + 1) * width == y * width + width) by (nonlinear_arith);
}

/// A direction that is long enough is used, and the other one where it is not; a tangent is
/// turned around exactly where it runs against the image axis.
pub proof fn law_tangents_follow_the_image_axis(
    length_squared: Real64,
    direction: [Real64; 3],
    fallback: [Real64; 3],
    chosen: [Real64; 3],
    product: Real64,
    turned: [Real64; 3],
    i: int,
)
    requires
        call_ensures(normalize_or_fallback, (length_squared, direction, fallback), chosen),
        call_ensures(oriented, (direction, product), turned),
        0 <= i < 3,
    ensures
        (Real64 { bits: 0x3C32_725D_D1D2_43AC }).lt(length_squared) ==> chosen == direction,
        !(Real64 { bits: 0x3C32_725D_D1D2_43AC }).lt(length_squared) ==> chosen == fallback,
        product.lt(zero64()) ==> turned@[i] == direction@[i].negated(),
        !product.lt(zero64()) ==> turned@[i] == direction@[i],
{
}

/// The argument of a smooth step lies in the unit interval, and is unchanged where it already did.
pub proof fn law_smooth_step_is_limited(x: Real64, r: Real64)
    requires
        !x.nan(),
        call_ensures(smoothstep_argument, (x,), r),
    ensures
        x.lt(Real64 { bits: 0 }) ==> r.bits == 0,
        (Real64 { bits: 0x3FF0_0000_0000_0000 }).lt(x) ==> r.bits == 0x3FF0_0000_0000_0000,
        (Real64 { bits: 0 }).le(x) && x.le(Real64 { bits: 0x3FF0_0000_0000_0000 }) ==> r == x,
{
}

/// A point has a pixel where it lies more than 1e-6 before the camera, and more than 1e-9 along
/// the axis of a tile; a direction is scaled where it is longer than 1e-12, and an inverse depth
/// places a point where it is positive.
pub proof fn law_points_are_seen_before_the_camera(
    depth: Real64,
    pixel: bool,
    before: bool,
    tile: bool,
    scaled: bool,
    placed: bool,
)
    requires
        !depth.nan(),
        call_ensures(has_pixel, (depth,), pixel),
        call_ensures(is_before, (depth,), before),
        call_ensures(has_tile_pixel, (depth,), tile),
        call_ensures(can_be_scaled, (depth,), scaled),
        call_ensures(places_point, (depth,), placed),
    ensures
        pixel <==> (Real64 { bits: 0x3EB0_C6F7_A0B5_ED8D }).lt(depth),
        before == pixel,
        tile <==> (Real64 { bits: 0x3E11_2E0B_E826_D695 }).lt(depth),
        scaled <==> (Real64 { bits: 0x3D71_9799_812D_EA11 }).lt(depth),
        placed <==> zero64().lt(depth),
{
}

/// Raw images, and patches taken from them, are seen through the camera's own model; all other
/// modes see through another one.
pub proof fn law_raw_images_have_the_camera_model(mode: PatchDepthCameraMode, r: PixelModel)
    requires
        call_ensures(pixel_model, (mode,), r),
    ensures
        mode == PatchDepthCameraMode::RawDistorted ==> r == PixelModel::Camera,
        mode == PatchDepthCameraMode::PerPatchBearing ==> r == PixelModel::Camera,
        mode != PatchDepthCameraMode::RawDistorted && mode != PatchDepthCameraMode::PerPatchBearing ==> r
            != PixelModel::Camera,
{
}

} // verus!
