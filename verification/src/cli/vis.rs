//! What is shown: which pixels of an image, in which colours, and which voxels.
use vstd::prelude::*;
use crate::config::{over, PatchDepthConfig, SparseVogConfig};
use crate::core_types::Pixel;
use crate::depth::occupancy::{LocalOccupancySettings, OccupancyGridSnapshot};
use crate::depth::patch_depth::image_ops::EXACT_INTEGERS;
use crate::depth::patch_depth::PatchStatus;
use crate::ieee::{one64, real64, zero32, zero64, Real32, Real64};

verus! {

/// How many pixels have each status.
#[derive(Clone, Copy, Debug, PartialEq, Eq, Structural)]
pub struct StatusCounts {
    pub unknown: usize,
    pub seed_only: usize,
    pub photo_refined: usize,
    pub rejected: usize,
}

/// How many of a sequence of pixels have a status.
pub open spec fn count_of(status: Seq<PatchStatus>, wanted: PatchStatus) -> nat
    decreases status.len(),
{
    if status.len() == 0 {
        0
    } else {
        count_of(status.drop_last(), wanted) + if status.last() == wanted {
            1nat
        } else {
            0nat
        }
    }
}

/// Counts the pixels of each status.
pub fn patch_depth_status_counts(status: &[PatchStatus]) -> (r: StatusCounts)
    ensures
        r.unknown == count_of(status@, PatchStatus::Unknown),
        r.seed_only == count_of(status@, PatchStatus::SeedOnly),
        r.photo_refined == count_of(status@, PatchStatus::PhotoRefined),
        r.rejected == count_of(status@, PatchStatus::Rejected),
        r.unknown + r.seed_only + r.photo_refined + r.rejected == status@.len(),
{
    let mut unknown: usize = 0;
    let mut seed_only: usize = 0;
    let mut photo_refined: usize = 0;
    let mut rejected: usize = 0;
    let n: usize = status.len();
    let mut i: usize = 0;
    while i < n
        invariant
            i <= n,
            n == status@.len(),
            unknown == count_of(status@.take(i as int), PatchStatus::Unknown),
            seed_only == count_of(status@.take(i as int), PatchStatus::SeedOnly),
            photo_refined == count_of(status@.take(i as int), PatchStatus::PhotoRefined),
            rejected == count_of(status@.take(i as int), PatchStatus::Rejected),
            unknown + seed_only + photo_refined + rejected == i,
        decreases n - i,
    {
        proof {
            let next = status@.take(i + 1);
            assert(next.drop_last() =~= status@.take(i as int));
            assert(next.last() == status@[i as int]);
        }
        match status[i] {
            PatchStatus::Unknown => {
                unknown = unknown + 1;
            },
            PatchStatus::SeedOnly => {
                seed_only = seed_only + 1;
            },
            PatchStatus::PhotoRefined => {
                photo_refined = photo_refined + 1;
            },
            PatchStatus::Rejected => {
                rejected = rejected + 1;
            },
        }
        i = i + 1;
    }
    assert(status@.take(n as int) =~= status@);
    StatusCounts { unknown, seed_only, photo_refined, rejected }
}

/// The row or column of a map of `to` that a row or column of an image of `from` shows.
pub open spec fn shown_line(at: int, from: int, to: int) -> int {
    at * to / from
}

/// The position in a map that a pixel of the image shows.
pub fn shown_position(x: usize, y: usize, img_w: usize, img_h: usize, map_w: usize, map_h: usize) -> (r: usize)
    requires
        x < img_w,
        y < img_h,
        0 < map_w,
        0 < map_h,
        img_w * map_w <= usize::MAX,
        img_h * map_h <= usize::MAX,
        map_w * map_h <= usize::MAX,
    ensures
        r == crate::layout::cell2(
            map_w as int,
            shown_line(x as int, img_w as int, map_w as int),
            shown_line(y as int, img_h as int, map_h as int),
        ),
        r < map_w * map_h,
{
    proof {
        lemma_shown_line(x as int, img_w as int, map_w as int);
        lemma_shown_line(y as int, img_h as int, map_h as int);
        assert(x * map_w <= img_w * map_w) by (nonlinear_arith)
            requires
                x < img_w,
        ;
        assert(y * map_h <= img_h * map_h) by (nonlinear_arith)
            requires
                y < img_h,
        ;
        crate::layout::lemma_cell2_bound(
            map_w as int,
            map_h as int,
            shown_line(x as int, img_w as int, map_w as int),
            shown_line(y as int, img_h as int, map_h as int),
        );
    }
    let dx: usize = x * map_w / img_w;
    let dy: usize = y * map_h / img_h;
    dy * map_w + dx
}

/// A line of the image shows a line of the map.
pub proof fn lemma_shown_line(at: int, from: int, to: int)
    requires
        0 <= at < from,
        0 < to,
    ensures
        0 <= shown_line(at, from, to) < to,
{
    assert(0 <= at * to < from * to) by (nonlinear_arith)
        requires
            0 <= at < from,
            0 < to,
    ;
    vstd::arithmetic::div_mod::lemma_div_pos_is_pos(at * to, from);
    vstd::arithmetic::div_mod::lemma_fundamental_div_mod(at * to, from);
    vstd::arithmetic::div_mod::lemma_mod_bound(at * to, from);
    let q = at * to / from;
    assert(q < to) by (nonlinear_arith)
        requires
            from * q <= at * to,
            at * to < from * to,
            0 < from,
    ;
}

/// The lines of a map are shown in their order, and one by one at its own size.
pub proof fn law_lines_stay_in_order(a: int, b: int, from: int, to: int)
    requires
        0 <= a <= b < from,
        0 < to,
    ensures
        shown_line(a, from, to) <= shown_line(b, from, to),
        to == from ==> shown_line(a, from, to) == a,
{
    assert(a * to <= b * to) by (nonlinear_arith)
        requires
            a <= b,
            0 < to,
    ;
    vstd::arithmetic::div_mod::lemma_div_is_ordered(a * to, b * to, from);
    if to == from {
        vstd::arithmetic::div_mod::lemma_div_by_multiple(a, from);
    }
}

/// The red, green or blue part of a colour.
pub open spec fn channel(color: u32, c: int) -> u8 {
    if c == 0 {
        ((color >> 24) & 0xFF) as u8
    } else if c == 1 {
        ((color >> 16) & 0xFF) as u8
    } else {
        ((color >> 8) & 0xFF) as u8
    }
}

/// The part of a pixel in an image: black where nothing is shown.
pub open spec fn rgb_value(color: Option<u32>, c: int) -> u8 {
    match color {
        Some(v) => channel(v, c),
        None => 0,
    }
}

/// An image of a map, three bytes per pixel: each pixel has the colour of the place of the
/// map that it shows.
pub fn rgb_for_vis(colors: &[Option<u32>], map_w: usize, map_h: usize, img_w: usize, img_h: usize) -> (r: Vec<u8>)
    requires
        colors@.len() == map_w * map_h,
        0 < map_w,
        0 < map_h,
        img_w * map_w <= usize::MAX,
        img_h * map_h <= usize::MAX,
        img_w * img_h * 3 <= usize::MAX,
    ensures
        r@.len() == img_w * img_h * 3,
        forall|x: int, y: int, c: int|
            0 <= x < img_w && 0 <= y < img_h && 0 <= c < 3 ==> r@[#[trigger] rgb_position(img_w as int, x, y, c)]
                == rgb_value(
                colors@[crate::layout::cell2(
                    map_w as int,
                    shown_line(x, img_w as int, map_w as int),
                    shown_line(y, img_h as int, map_h as int),
                )],
                c,
            ),
{
    let mut out: Vec<u8> = Vec::new();
    assert(colors.len() <= usize::MAX);
    let mut y: usize = 0;
    while y < img_h
        invariant
            y <= img_h,
            0 < map_w,
            0 < map_h,
            img_w * map_w <= usize::MAX,
            img_h * map_h <= usize::MAX,
            map_w * map_h <= usize::MAX,
            colors@.len() == map_w * map_h,
            out@.len() == 3 * (y * img_w),
            forall|a: int, b: int, c: int|
                0 <= a < img_w && 0 <= b < y && 0 <= c < 3 ==> out@[#[trigger] rgb_position(img_w as int, a, b, c)]
                    == rgb_value(
                    colors@[crate::layout::cell2(
                        map_w as int,
                        shown_line(a, img_w as int, map_w as int),
                        shown_line(b, img_h as int, map_h as int),
                    )],
                    c,
                ),
        decreases img_h - y,
    {
        let mut x: usize = 0;
        while x < img_w
            invariant
                y < img_h,
                x <= img_w,
                0 < map_w,
                0 < map_h,
                img_w * map_w <= usize::MAX,
                img_h * map_h <= usize::MAX,
                map_w * map_h <= usize::MAX,
                colors@.len() == map_w * map_h,
                out@.len() == 3 * (y * img_w + x),
                forall|a: int, b: int, c: int|
                    (0 <= a < img_w && 0 <= b < y || 0 <= a < x && b == y) && 0 <= c < 3
                        ==> out@[#[trigger] rgb_position(img_w as int, a, b, c)] == rgb_value(
                        colors@[crate::layout::cell2(
                            map_w as int,
                            shown_line(a, img_w as int, map_w as int),
                            shown_line(b, img_h as int, map_h as int),
                        )],
                        c,
                    ),
            decreases img_w - x,
        {
            let position: usize = shown_position(x, y, img_w, img_h, map_w, map_h);
            let ghost before = out@;
            match colors[position] {
                Some(color) => {
                    out.push(((color >> 24) & 0xFF) as u8);
                    out.push(((color >> 16) & 0xFF) as u8);
                    out.push(((color >> 8) & 0xFF) as u8);
                },
                None => {
                    out.push(0);
                    out.push(0);
                    out.push(0);
                },
            }
            assert forall|a: int, b: int, c: int|
                (0 <= a < img_w && 0 <= b < y || 0 <= a < x + 1 && b == y) && 0 <= c < 3 implies out@[#[trigger] rgb_position(
                img_w as int,
                a,
                b,
                c,
            )] == rgb_value(
                colors@[crate::layout::cell2(
                    map_w as int,
                    shown_line(a, img_w as int, map_w as int),
                    shown_line(b, img_h as int, map_h as int),
                )],
                c,
            ) by {
                crate::layout::lemma_cell2_injective(img_w as int, a, b, x as int, y as int);
                if !(a == x && b == y) {
                    assert(crate::layout::cell2(img_w as int, a, b) < y * img_w + x) by {
                        if b < y {
                            assert(b * img_w + img_w <= y * img_w) by (nonlinear_arith)
                                requires
                                    b < y,
                                    img_w >= 0,
                            ;
                        }
                    }
                    assert(0 <= b * img_w) by (nonlinear_arith)
                        requires
                            0 <= b,
                            img_w >= 0,
                    ;
                    assert(before[rgb_position(img_w as int, a, b, c)] == out@[rgb_position(img_w as int, a, b, c)]);
                }
            }
            x = x + 1;
        }
        assert((y + 1) * img_w == y * img_w + img_w) by (nonlinear_arith);
        y = y + 1;
    }
    assert(img_h * img_w * 3 == img_w * img_h * 3) by (nonlinear_arith);
    out
}

/// The position of a part of a pixel in an image of three bytes per pixel.
pub open spec fn rgb_position(img_w: int, x: int, y: int, c: int) -> int {
    3 * crate::layout::cell2(img_w, x, y) + c
}

/// The limits between which depths and deviations are coloured.
#[derive(Clone, Copy, Debug, PartialEq)]
pub struct ShownRanges {
    pub min_depth: Real64,
    pub max_depth: Real64,
    pub min_deviation: Real64,
    pub max_deviation: Real64,
    pub sparse_min_depth: Real64,
    pub sparse_max_depth: Real64,
}

/// The least depth that is coloured without a configured one.
#[verifier::allow_in_spec]
pub fn default_min_depth() -> Real64
    returns
        (Real64 { bits: 0x3FB9_9999_9999_999A }),
{
    real64(0x3FB9_9999_9999_999A)
}

/// The largest depth that is coloured without a configured one.
#[verifier::allow_in_spec]
pub fn default_max_depth() -> Real64
    returns
        (Real64 { bits: 0x4014_0000_0000_0000 }),
{
    real64(0x4014_0000_0000_0000)
}

/// The largest deviation that is coloured without a configured one.
#[verifier::allow_in_spec]
pub fn default_max_deviation() -> Real64
    returns
        (Real64 { bits: 0x3FE0_0000_0000_0000 }),
{
    real64(0x3FE0_0000_0000_0000)
}

/// What is coloured by the configuration of the two depth estimators: each limit is the
/// configured one, or its default without it.
pub fn shown_ranges(patch: Option<&PatchDepthConfig>, sparse: Option<&SparseVogConfig>) -> (r: ShownRanges)
    ensures
        patch is None ==> r.min_depth == default_min_depth() && r.max_depth == default_max_depth()
            && r.min_deviation == zero64() && r.max_deviation == default_max_deviation(),
        patch matches Some(c) ==> {
            &&& r.min_depth == crate::config::overridden(c.vis_min_depth, default_min_depth())
            &&& r.max_depth == crate::config::overridden(c.vis_max_depth, default_max_depth())
            &&& r.min_deviation == crate::config::overridden(c.cov_vis_min, zero64())
            &&& r.max_deviation == crate::config::overridden(c.cov_vis_max, default_max_deviation())
        },
        sparse is None ==> r.sparse_min_depth == default_min_depth() && r.sparse_max_depth == default_max_depth(),
        sparse matches Some(c) ==> {
            &&& r.sparse_min_depth == crate::config::overridden(c.vis_min_depth, default_min_depth())
            &&& r.sparse_max_depth == crate::config::overridden(c.vis_max_depth, default_max_depth())
        },
{
    let mut r: ShownRanges = ShownRanges {
        min_depth: default_min_depth(),
        max_depth: default_max_depth(),
        min_deviation: zero64(),
        max_deviation: default_max_deviation(),
        sparse_min_depth: default_min_depth(),
        sparse_max_depth: default_max_depth(),
    };
    if let Some(c) = patch {
        r.min_depth = over(c.vis_min_depth, default_min_depth());
        r.max_depth = over(c.vis_max_depth, default_max_depth());
        r.min_deviation = over(c.cov_vis_min, zero64());
        r.max_deviation = over(c.cov_vis_max, default_max_deviation());
    }
    if let Some(c) = sparse {
        r.sparse_min_depth = over(c.vis_min_depth, default_min_depth());
        r.sparse_max_depth = over(c.vis_max_depth, default_max_depth());
    }
    r
}

/// Whether depths are shown between these limits.
pub fn depth_range_is_shown(min_depth: Real64, max_depth: Real64) -> (r: bool)
    ensures
        r == !(min_depth.le(zero64()) || max_depth.le(min_depth)),
{
    !(min_depth.at_most(zero64()) || max_depth.at_most(min_depth))
}

/// Whether deviations are shown between these limits.
pub fn deviation_range_is_shown(least: Real64, largest: Real64) -> (r: bool)
    ensures
        r == !largest.le(least),
{
    !largest.at_most(least)
}

/// Whether a pixel's deviation is shown: its log-range and variance are finite, and the
/// variance is positive.
pub fn deviation_is_shown(eta: Real32, eta_var: Real32) -> (r: bool)
    ensures
        r == (eta.finite() && eta_var.finite() && !eta_var.le(zero32())),
{
    eta.is_finite() && eta_var.is_finite() && !eta_var.at_most(zero32())
}

/// A point, if it lies in the image.
pub fn clip_image_point(x: Real64, y: Real64, img_w: usize, img_h: usize) -> (r: Option<Pixel>)
    requires
        img_w <= EXACT_INTEGERS,
        img_h <= EXACT_INTEGERS,
    ensures
        r is Some <==> x.ge_int(0) && x.lt_int(img_w as int) && y.ge_int(0) && y.lt_int(img_h as int),
        r matches Some(p) ==> p.u == x && p.v == y,
{
    if x.at_least_int(0) && x.less_than_int(img_w as i64) && y.at_least_int(0) && y.less_than_int(img_h as i64) {
        Some(Pixel { u: x, v: y })
    } else {
        None
    }
}

/// The depth at which a point is too near to be shown.
#[verifier::allow_in_spec]
pub fn nearest_shown() -> Real64
    returns
        (Real64 { bits: 0x3EB0_C6F7_A0B5_ED8D }),
{
    real64(0x3EB0_C6F7_A0B5_ED8D)
}

/// Whether a point of the sparse filter is shown.
pub fn point_is_shown(depth: Real64) -> (r: bool)
    ensures
        r == !depth.le(nearest_shown()),
{
    !depth.at_most(nearest_shown())
}

/// A colour between black and full.
#[derive(Clone, Copy, Debug, PartialEq, Eq, Structural)]
pub struct Rgb {
    pub r: u8,
    pub g: u8,
    pub b: u8,
}

/// A place on the colour scale.
#[derive(Clone, Copy, Debug, PartialEq)]
pub struct ColorKnot {
    pub at: Real64,
    pub color: Rgb,
}

/// The places of the colour scale, from dark blue to dark red.
pub open spec fn scale_knot(i: int) -> ColorKnot {
    if i <= 0 {
        ColorKnot { at: zero64(), color: Rgb { r: 0, g: 0, b: 128 } }
    } else if i == 1 {
        ColorKnot { at: real64(0x3FC0_0000_0000_0000), color: Rgb { r: 0, g: 0, b: 255 } }
    } else if i == 2 {
        ColorKnot { at: real64(0x3FD8_0000_0000_0000), color: Rgb { r: 0, g: 255, b: 255 } }
    } else if i == 3 {
        ColorKnot { at: real64(0x3FE4_0000_0000_0000), color: Rgb { r: 255, g: 255, b: 0 } }
    } else if i == 4 {
        ColorKnot { at: real64(0x3FEC_0000_0000_0000), color: Rgb { r: 255, g: 0, b: 0 } }
    } else {
        ColorKnot { at: one64(), color: Rgb { r: 128, g: 0, b: 0 } }
    }
}

/// A place of the colour scale.
pub fn color_knot(i: usize) -> (r: ColorKnot)
    ensures
        r == scale_knot(i as int),
{
    if i == 0 {
        ColorKnot { at: zero64(), color: Rgb { r: 0, g: 0, b: 128 } }
    } else if i == 1 {
        ColorKnot { at: real64(0x3FC0_0000_0000_0000), color: Rgb { r: 0, g: 0, b: 255 } }
    } else if i == 2 {
        ColorKnot { at: real64(0x3FD8_0000_0000_0000), color: Rgb { r: 0, g: 255, b: 255 } }
    } else if i == 3 {
        ColorKnot { at: real64(0x3FE4_0000_0000_0000), color: Rgb { r: 255, g: 255, b: 0 } }
    } else if i == 4 {
        ColorKnot { at: real64(0x3FEC_0000_0000_0000), color: Rgb { r: 255, g: 0, b: 0 } }
    } else {
        ColorKnot { at: one64(), color: Rgb { r: 128, g: 0, b: 0 } }
    }
}

/// The number of places on the colour scale.
pub const KNOTS: usize = 6;

/// The middle of the colour scale.
#[verifier::allow_in_spec]
pub fn scale_middle() -> Real64
    returns
        (Real64 { bits: 0x3FE0_0000_0000_0000 }),
{
    real64(0x3FE0_0000_0000_0000)
}

/// Where a value lies on the colour scale, from its share of the range: within the scale, and
/// in the middle where there is no range.
pub fn scale_position(share: Real64, min_value: Real64, max_value: Real64) -> (r: Real64)
    ensures
        r == (if min_value.lt(max_value) {
            share.clamped(zero64(), one64())
        } else {
            scale_middle()
        }),
{
    proof {
        zero64().lemma_key_orders_values(one64());
        assert(zero64().key() < one64().key());
    }
    if min_value.less(max_value) {
        share.clamp(zero64(), one64())
    } else {
        scale_middle()
    }
}

/// The segment of the colour scale that a position lies in: the first whose end is not below
/// it, the last one for what is not a number.
pub fn color_segment(t: Real64) -> (r: usize)
    ensures
        r <= KNOTS - 2,
        forall|i: int| 0 <= i < r ==> !t.le(#[trigger] scale_knot(i + 1).at),
        r < KNOTS - 2 ==> t.le(scale_knot(r + 1).at),
{
    let mut i: usize = 0;
    while i < KNOTS - 2
        invariant
            i <= KNOTS - 2,
            forall|k: int| 0 <= k < i ==> !t.le(#[trigger] scale_knot(k + 1).at),
        decreases KNOTS - 2 - i,
    {
        if t.at_most(color_knot(i + 1).at) {
            return i;
        }
        i = i + 1;
    }
    i
}

/// A colour as one word, without transparency.
pub fn pack_color(color: Rgb) -> (r: u32)
    ensures
        r == ((color.r as u32) << 24) | ((color.g as u32) << 16) | ((color.b as u32) << 8) | 0xFF,
{
    ((color.r as u32) << 24) | ((color.g as u32) << 16) | ((color.b as u32) << 8) | 0xFF
}

/// The parts of a packed colour are those it was packed from.
pub proof fn law_packed_color_unpacks(color: Rgb, packed: u32)
    requires
        packed == ((color.r as u32) << 24) | ((color.g as u32) << 16) | ((color.b as u32) << 8) | 0xFF,
    ensures
        channel(packed, 0) == color.r,
        channel(packed, 1) == color.g,
        channel(packed, 2) == color.b,
{
    let r = color.r;
    let g = color.g;
    let b = color.b;
    assert((((((r as u32) << 24) | ((g as u32) << 16) | ((b as u32) << 8) | 0xFF) >> 24) & 0xFF) as u8 == r)
        by (bit_vector);
    assert((((((r as u32) << 24) | ((g as u32) << 16) | ((b as u32) << 8) | 0xFF) >> 16) & 0xFF) as u8 == g)
        by (bit_vector);
    assert((((((r as u32) << 24) | ((g as u32) << 16) | ((b as u32) << 8) | 0xFF) >> 8) & 0xFF) as u8 == b)
        by (bit_vector);
}

/// Of the free voxels one in so many along each axis is shown.
pub const FREE_STRIDE: usize = 2;

/// What is shown of a voxel.
#[derive(Clone, Copy, Debug, PartialEq, Eq, Structural)]
pub enum ShownVoxel {
    Occupied,
    Free,
    /// It is unknown, or free and passed over.
    Hidden,
}

/// What is shown of a voxel with this value.
pub open spec fn shown_voxel(settings: LocalOccupancySettings, value: Real32, x: int, y: int, z: int) -> ShownVoxel {
    if settings.occupied_threshold.le(value) {
        ShownVoxel::Occupied
    } else if settings.free_threshold.lt(value) {
        ShownVoxel::Hidden
    } else if x % 2 != 0 || y % 2 != 0 || z % 2 != 0 {
        ShownVoxel::Hidden
    } else {
        ShownVoxel::Free
    }
}

/// A voxel by its position along each axis.
#[derive(Clone, Copy, Debug, PartialEq, Eq, Structural)]
pub struct GridCell {
    pub x: usize,
    pub y: usize,
    pub z: usize,
}

/// The voxel at a position of the storage of a grid.
pub open spec fn cell_at(width: nat, height: nat, position: nat) -> GridCell {
    GridCell {
        x: (position % width) as usize,
        y: ((position / width) % height) as usize,
        z: (position / width / height) as usize,
    }
}

/// Decides what is shown of a voxel.
pub fn voxel_is_shown(settings: &LocalOccupancySettings, value: Real32, cell: GridCell) -> (r: ShownVoxel)
    ensures
        r == shown_voxel(*settings, value, cell.x as int, cell.y as int, cell.z as int),
{
    if settings.occupied_threshold.at_most(value) {
        ShownVoxel::Occupied
    } else if settings.free_threshold.less(value) {
        ShownVoxel::Hidden
    } else if cell.x % FREE_STRIDE != 0 || cell.y % FREE_STRIDE != 0 || cell.z % FREE_STRIDE != 0 {
        ShownVoxel::Hidden
    } else {
        ShownVoxel::Free
    }
}

/// The voxels among the first `n` that are shown in a certain way, in the order of storage.
pub open spec fn shown_cells(
    snapshot: OccupancyGridSnapshot,
    settings: LocalOccupancySettings,
    wanted: ShownVoxel,
    n: nat,
) -> Seq<GridCell>
    decreases n,
{
    if n == 0 {
        Seq::empty()
    } else {
        let position = (n - 1) as nat;
        let cell = cell_at(snapshot.width as nat, snapshot.height as nat, position);
        let rest = shown_cells(snapshot, settings, wanted, position);
        if shown_voxel(
            settings,
            snapshot.log_odds@[position as int],
            cell.x as int,
            cell.y as int,
            cell.z as int,
        ) == wanted {
            rest.push(cell)
        } else {
            rest
        }
    }
}

/// The occupied voxels of a map, and every second of the free ones along each axis.
pub fn occupancy_cells_for_vis(snapshot: &OccupancyGridSnapshot, settings: &LocalOccupancySettings) -> (r: (
    Vec<GridCell>,
    Vec<GridCell>,
))
    requires
        snapshot.width > 0,
        snapshot.height > 0,
    ensures
        r.0@ == shown_cells(*snapshot, *settings, ShownVoxel::Occupied, snapshot.log_odds@.len()),
        r.1@ == shown_cells(*snapshot, *settings, ShownVoxel::Free, snapshot.log_odds@.len()),
{
    let mut occupied: Vec<GridCell> = Vec::new();
    let mut free: Vec<GridCell> = Vec::new();
    let n: usize = snapshot.log_odds.len();
    let mut p: usize = 0;
    while p < n
        invariant
            p <= n,
            n == snapshot.log_odds@.len(),
            snapshot.width > 0,
            snapshot.height > 0,
            occupied@ == shown_cells(*snapshot, *settings, ShownVoxel::Occupied, p as nat),
            free@ == shown_cells(*snapshot, *settings, ShownVoxel::Free, p as nat),
        decreases n - p,
    {
        let cell: GridCell = GridCell {
            x: p % snapshot.width,
            y: p / snapshot.width % snapshot.height,
            z: p / snapshot.width / snapshot.height,
        };
        match voxel_is_shown(settings, snapshot.log_odds[p], cell) {
            ShownVoxel::Occupied => {
                occupied.push(cell);
            },
            ShownVoxel::Free => {
                free.push(cell);
            },
            ShownVoxel::Hidden => {},
        }
        p = p + 1;
    }
    (occupied, free)
}

/// The voxel at the position of `(x, y, z)` is that voxel.
pub proof fn law_shown_cell_is_in_place(width: int, height: int, x: int, y: int, z: int)
    requires
        0 <= x < width,
        0 <= y < height,
        0 <= z,
        width <= usize::MAX,
        height <= usize::MAX,
        z <= usize::MAX,
    ensures
        ({
            let cell = cell_at(
                width as nat,
                height as nat,
                crate::layout::cell3(width, height, x, y, z) as nat,
            );
            cell.x == x && cell.y == y && cell.z == z
        }),
{
    let row = z * height + y;
    assert(row * width + x == width * row + x) by (nonlinear_arith);
    vstd::arithmetic::div_mod::lemma_fundamental_div_mod_converse(row * width + x, width, row, x);
    assert(z * height + y == height * z + y) by (nonlinear_arith);
    vstd::arithmetic::div_mod::lemma_fundamental_div_mod_converse(row, height, z, y);
    assert(0 <= row * width) by (nonlinear_arith)
        requires
            0 <= row,
            0 <= width,
    ;
}

/// The counts of statuses are the numbers of pixels that have them.
pub proof fn law_counts_are_those_of_the_pixels(status: &[PatchStatus], r: StatusCounts)
    requires
        call_ensures(patch_depth_status_counts, (status,), r),
    ensures
        r.unknown == status@.filter(|s: PatchStatus| s == PatchStatus::Unknown).len(),
        r.seed_only == status@.filter(|s: PatchStatus| s == PatchStatus::SeedOnly).len(),
        r.photo_refined == status@.filter(|s: PatchStatus| s == PatchStatus::PhotoRefined).len(),
        r.rejected == status@.filter(|s: PatchStatus| s == PatchStatus::Rejected).len(),
{
    lemma_count_is_filter(status@, PatchStatus::Unknown);
    lemma_count_is_filter(status@, PatchStatus::SeedOnly);
    lemma_count_is_filter(status@, PatchStatus::PhotoRefined);
    lemma_count_is_filter(status@, PatchStatus::Rejected);
    assert(status@.filter(|s: PatchStatus| s == PatchStatus::Unknown).len() == count_of(status@, PatchStatus::Unknown));
}

proof fn lemma_count_is_filter(status: Seq<PatchStatus>, wanted: PatchStatus)
    ensures
        count_of(status, wanted) == status.filter(|s: PatchStatus| s == wanted).len(),
    decreases status.len(),
{
    reveal(Seq::filter);
    if status.len() > 0 {
        lemma_count_is_filter(status.drop_last(), wanted);
    }
}

/// A line of the picture shows the line of the map that covers its beginning: the map's line
/// begins, on the scale of the picture, not behind it, and the next one behind it.
pub proof fn law_shown_line_covers_the_pixel(at: int, from: int, to: int)
    requires
        0 <= at < from,
        0 < to,
    ensures
        0 <= shown_line(at, from, to) < to,
        shown_line(at, from, to) * from <= at * to < (shown_line(at, from, to) + 1) * from,
{
    lemma_shown_line(at, from, to);
    vstd::arithmetic::div_mod::lemma_fundamental_div_mod(at * to, from);
    vstd::arithmetic::div_mod::lemma_mod_bound(at * to, from);
    let q = at * to / from;
    assert(q * from <= at * to < (q + 1) * from) by (nonlinear_arith)
        requires
            at * to == from * q + (at * to) % from,
            0 <= (at * to) % from < from,
    ;
}

/// A picture has three bytes for each pixel, row by row: the red, green and blue of the map's
/// pixel, and black where it has no colour.
pub proof fn law_picture_shows_the_colours(
    colors: &[Option<u32>],
    map_w: usize,
    map_h: usize,
    img_w: usize,
    img_h: usize,
    r: Vec<u8>,
    x: int,
    y: int,
)
    requires
        colors@.len() == map_w * map_h,
        0 < map_w,
        0 < map_h,
        img_w * map_w <= usize::MAX,
        img_h * map_h <= usize::MAX,
        img_w * img_h * 3 <= usize::MAX,
        call_ensures(rgb_for_vis, (colors, map_w, map_h, img_w, img_h), r),
        0 <= x < img_w,
        0 <= y < img_h,
    ensures
        ({
            let at = 3 * (y * img_w + x);
            let color = colors@[(y * map_h / img_h as int) * map_w + x * map_w / img_w as int];
            &&& color is None ==> r@[at] == 0 && r@[at + 1] == 0 && r@[at + 2] == 0
            &&& color matches Some(c) ==> r@[at] == ((c >> 24u32) & 0xFF) as u8 && r@[at + 1] == ((c >> 16u32) & 0xFF)
                as u8 && r@[at + 2] == ((c >> 8u32) & 0xFF) as u8
        }),
{
    assert(rgb_position(img_w as int, x, y, 0) == 3 * (y * img_w + x));
    assert(rgb_position(img_w as int, x, y, 1) == 3 * (y * img_w + x) + 1);
    assert(rgb_position(img_w as int, x, y, 2) == 3 * (y * img_w + x) + 2);
}

/// The knots of the colour scale ascend from zero to one.
pub proof fn law_knots_ascend(i: int, j: int)
    requires
        0 <= i < j < 6,
    ensures
        scale_knot(i).at.lt(scale_knot(j).at),
        zero64().le(scale_knot(i).at),
        scale_knot(j).at.le(one64()),
        scale_knot(0).at == zero64(),
        scale_knot(5).at == one64(),
{
    scale_knot(i).at.lemma_key_orders_values(scale_knot(j).at);
    zero64().lemma_key_orders_values(scale_knot(i).at);
    scale_knot(j).at.lemma_key_orders_values(one64());
}

/// A value is shown between the two knots around it: it is above the lower one, unless that is
/// the first, and not above the upper one, unless that is the last.
pub proof fn law_value_lies_in_its_segment(t: Real64, r: usize)
    requires
        call_ensures(color_segment, (t,), r),
        !t.nan(),
    ensures
        r <= 4,
        r == 0 || scale_knot(r as int).at.lt(t),
        r == 4 || t.le(scale_knot(r + 1).at),
{
    if r > 0 {
        assert(!t.le(scale_knot((r - 1) + 1).at));
    }
}

/// A share is limited to the scale; without a range to show, everything is in its middle.
pub proof fn law_share_is_limited_to_the_scale(share: Real64, min_value: Real64, max_value: Real64, r: Real64)
    requires
        call_ensures(scale_position, (share, min_value, max_value), r),
    ensures
        !min_value.lt(max_value) ==> r.bits == 0x3FE0_0000_0000_0000,
        min_value.lt(max_value) && share.lt(zero64()) ==> r.bits == 0,
        min_value.lt(max_value) && one64().lt(share) ==> r.bits == 0x3FF0_0000_0000_0000,
        min_value.lt(max_value) && zero64().le(share) && share.le(one64()) ==> r == share,
{
}

/// An occupied voxel is always shown, a free one only where all its coordinates are even, and
/// an unknown one never.
pub proof fn law_voxels_are_shown_by_state(
    settings: &LocalOccupancySettings,
    value: Real32,
    cell: GridCell,
    r: ShownVoxel,
)
    requires
        call_ensures(voxel_is_shown, (settings, value, cell), r),
        !value.nan(),
        !settings.occupied_threshold.nan(),
        !settings.free_threshold.nan(),
    ensures
        r == ShownVoxel::Occupied <==> settings.state_of(value)
            == crate::depth::occupancy::OccupancyCell::Occupied,
        r == ShownVoxel::Occupied <==> settings.occupied_threshold.le(value),
        r == ShownVoxel::Free <==> settings.state_of(value) == crate::depth::occupancy::OccupancyCell::Free && cell.x
            % 2 == 0 && cell.y % 2 == 0 && cell.z % 2 == 0,
        settings.free_threshold.lt(value) && value.lt(settings.occupied_threshold) ==> r == ShownVoxel::Hidden,
{
}

/// The shown cells are those of the grid whose log-odds are shown in that way, in their order.
pub proof fn law_shown_cells_are_those_of_the_grid(
    snapshot: OccupancyGridSnapshot,
    settings: LocalOccupancySettings,
    wanted: ShownVoxel,
    n: nat,
    cell: GridCell,
)
    ensures
        shown_cells(snapshot, settings, wanted, n).contains(cell) <==> exists|p: nat|
            {
                &&& p < n
                &&& #[trigger] cell_at(snapshot.width as nat, snapshot.height as nat, p) == cell
                &&& shown_voxel(
                    settings,
                    snapshot.log_odds@[p as int],
                    cell.x as int,
                    cell.y as int,
                    cell.z as int,
                ) == wanted
            },
    decreases n,
{
    if n > 0 {
        let position = (n - 1) as nat;
        law_shown_cells_are_those_of_the_grid(snapshot, settings, wanted, position, cell);
        let last = cell_at(snapshot.width as nat, snapshot.height as nat, position);
        crate::seqs::lemma_push_contains(shown_cells(snapshot, settings, wanted, position), last, cell);
    }
}

/// Depths are shown between limits of which the lower one is positive and the upper one above
/// it; deviations between limits in order; a pixel's deviation where its log-range is finite and
/// its variance finite and positive.
pub proof fn law_only_sound_ranges_are_shown(
    low: Real64,
    high: Real64,
    depths: bool,
    deviations: bool,
    eta: Real32,
    eta_var: Real32,
    shown: bool,
)
    requires
        call_ensures(depth_range_is_shown, (low, high), depths),
        call_ensures(deviation_range_is_shown, (low, high), deviations),
        call_ensures(deviation_is_shown, (eta, eta_var), shown),
        !low.nan(),
        !high.nan(),
    ensures
        depths <==> zero64().lt(low) && low.lt(high),
        deviations <==> low.lt(high),
        shown <==> eta.finite() && eta_var.finite() && zero32().lt(eta_var),
{
}

/// Each configured limit of what is coloured is used; without it depths are coloured from a tenth
/// to five, and deviations from zero to one half.
pub proof fn law_configured_limits_are_shown(patch: &PatchDepthConfig, sparse: &SparseVogConfig, r: ShownRanges)
    requires
        call_ensures(shown_ranges, (Some(patch), Some(sparse)), r),
    ensures
        patch.vis_min_depth matches Some(x) ==> r.min_depth == x,
        patch.vis_max_depth matches Some(x) ==> r.max_depth == x,
        patch.cov_vis_min matches Some(x) ==> r.min_deviation == x,
        patch.cov_vis_max matches Some(x) ==> r.max_deviation == x,
        sparse.vis_min_depth matches Some(x) ==> r.sparse_min_depth == x,
        sparse.vis_max_depth matches Some(x) ==> r.sparse_max_depth == x,
        patch.vis_min_depth is None ==> r.min_depth.bits == 0x3FB9_9999_9999_999A,
        patch.vis_max_depth is None ==> r.max_depth.bits == 0x4014_0000_0000_0000,
        patch.cov_vis_min is None ==> r.min_deviation.bits == 0,
        patch.cov_vis_max is None ==> r.max_deviation.bits == 0x3FE0_0000_0000_0000,
        sparse.vis_min_depth is None ==> r.sparse_min_depth.bits == 0x3FB9_9999_9999_999A,
        sparse.vis_max_depth is None ==> r.sparse_max_depth.bits == 0x4014_0000_0000_0000,
{
}

/// A point of the image is shown where it is: unchanged, and not where it lies before the first
/// or behind the last column or row. A point of the filter is shown unless it is nearer than 1e-6.
pub proof fn law_points_are_shown_in_the_image(
    x: Real64,
    y: Real64,
    img_w: usize,
    img_h: usize,
    r: Option<Pixel>,
    depth: Real64,
    shown: bool,
)
    requires
        img_w <= EXACT_INTEGERS,
        img_h <= EXACT_INTEGERS,
        call_ensures(clip_image_point, (x, y, img_w, img_h), r),
        call_ensures(point_is_shown, (depth,), shown),
    ensures
        r is None <==> !x.ge_int(0) || !x.lt_int(img_w as int) || !y.ge_int(0) || !y.lt_int(img_h as int),
        r matches Some(p) ==> p.u == x && p.v == y,
        !shown <==> depth.le(Real64 { bits: 0x3EB0_C6F7_A0B5_ED8D }),
{
}

/// The shown cells are those whose voxel is occupied, and of the free ones those that are shown.
pub proof fn law_occupied_and_free_cells_are_shown(
    snapshot: &OccupancyGridSnapshot,
    settings: &LocalOccupancySettings,
    r: (Vec<GridCell>, Vec<GridCell>),
    cell: GridCell,
    p: nat,
)
    requires
        snapshot.width > 0,
        snapshot.height > 0,
        call_ensures(occupancy_cells_for_vis, (snapshot, settings), r),
        p < snapshot.log_odds@.len(),
        cell_at(snapshot.width as nat, snapshot.height as nat, p) == cell,
    ensures
        ({
            let shown = shown_voxel(
                *settings,
                snapshot.log_odds@[p as int],
                cell.x as int,
                cell.y as int,
                cell.z as int,
            );
            &&& shown == ShownVoxel::Occupied ==> r.0@.contains(cell)
            &&& shown == ShownVoxel::Free ==> r.1@.contains(cell)
        }),
{
    let n = snapshot.log_odds@.len();
    law_shown_cells_are_those_of_the_grid(*snapshot, *settings, ShownVoxel::Occupied, n, cell);
    law_shown_cells_are_those_of_the_grid(*snapshot, *settings, ShownVoxel::Free, n, cell);
}

} // verus!
