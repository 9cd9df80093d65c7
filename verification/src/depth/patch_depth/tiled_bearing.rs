//! Overlapping square tiles over one pyramid level, and what belongs to which tile.
use vstd::prelude::*;
use crate::core_types::Pixel;
use crate::depth::patch_depth::fuse::{patch_centers, PatchCenter};
use crate::depth::patch_depth::image_ops::{level_size, EXACT_INTEGERS};
use crate::depth::patch_depth::PatchDepthSettings;
use crate::ieee::Real64;

verus! {

/// Size and spacing of tiles after the requested size and overlap are made consistent:
/// tiles have at least two pixels, and each starts behind the one before it.
pub open spec fn effective_size(tile_size: int) -> int {
    if tile_size < 2 {
        2
    } else {
        tile_size
    }
}

pub open spec fn effective_stride(tile_size: int, tile_overlap: int) -> int {
    let size = effective_size(tile_size);
    let overlap = if tile_overlap < size - 1 {
        tile_overlap
    } else {
        size - 1
    };
    size - overlap
}

/// Number of tiles along an axis of `len` pixels: as many as reach its end.
pub open spec fn tiles_along(len: int, size: int, stride: int) -> int {
    if len <= size {
        1
    } else {
        (len - size - 1) / stride + 2
    }
}

/// Pixels of the `k`-th tile along an axis.
pub open spec fn extent_at(len: int, size: int, stride: int, k: int) -> int {
    if size < len - k * stride {
        size
    } else {
        len - k * stride
    }
}

/// The last tile, and no earlier one, reaches the end of the axis.
proof fn lemma_tiles_along(len: int, size: int, stride: int, k: int)
    requires
        len >= 0,
        1 <= stride <= size,
        0 <= k,
    ensures
        tiles_along(len, size, stride) >= 1,
        k < tiles_along(len, size, stride) - 1 <==> k * stride + size < len,
        k < tiles_along(len, size, stride) ==> k * stride <= len,
        len > 0 && k < tiles_along(len, size, stride) ==> k * stride < len,
{
    if len > size {
        let d = len - size - 1;
        let q = d / stride;
        vstd::arithmetic::div_mod::lemma_fundamental_div_mod(d, stride);
        vstd::arithmetic::div_mod::lemma_mod_bound(d, stride);
        vstd::arithmetic::div_mod::lemma_div_pos_is_pos(d, stride);
        assert(k <= q <==> k * stride <= d) by (nonlinear_arith)
            requires
                d == stride * q + d % stride,
                0 <= d % stride < stride,
        ;
        if k <= q + 1 {
            assert(k * stride <= stride * q + stride) by (nonlinear_arith)
                requires
                    k <= q + 1,
                    stride > 0,
            ;
        }
    } else {
        assert(k * stride >= 0) by (nonlinear_arith)
            requires
                k >= 0,
                stride > 0,
        ;
        if k < 1 {
            assert(k * stride == 0) by (nonlinear_arith)
                requires
                    k == 0,
            ;
        }
    }
}

/// A rectangle of pixels of one pyramid level.
#[derive(Clone, Copy, Debug, PartialEq, Eq, Structural)]
pub struct TiledBearingTile {
    pub level: usize,
    pub x0: usize,
    pub y0: usize,
    pub width: usize,
    pub height: usize,
}

/// The edges of a patch around a point, in pixels.
#[derive(Clone, Copy, Debug, PartialEq)]
pub struct PatchEdges {
    pub u_min: Real64,
    pub v_min: Real64,
    pub u_max: Real64,
    pub v_max: Real64,
}

impl TiledBearingTile {
    /// The pixels of the tile lie below the integers that are exact as numbers.
    pub open spec fn wf(self) -> bool {
        self.x0 + self.width <= EXACT_INTEGERS && self.y0 + self.height <= EXACT_INTEGERS && self.x0 + self.width
            <= usize::MAX && self.y0 + self.height <= usize::MAX
    }

    /// Whether the tile has a pixel.
    pub open spec fn has_pixel(self, x: int, y: int) -> bool {
        self.x0 <= x < self.x0 + self.width && self.y0 <= y < self.y0 + self.height
    }

    /// Whether a point lies in the tile.
    pub open spec fn holds_point(self, p: Pixel) -> bool {
        &&& p.u.ge_int(self.x0 as int)
        &&& p.v.ge_int(self.y0 as int)
        &&& p.u.lt_int(self.x0 + self.width)
        &&& p.v.lt_int(self.y0 + self.height)
    }

    /// Whether a point lies in the tile.
    pub fn contains_point(&self, p: Pixel) -> (r: bool)
        requires
            self.wf(),
        ensures
            r == self.holds_point(p),
    {
        p.u.at_least_int(self.x0 as i64) && p.v.at_least_int(self.y0 as i64) && p.u.less_than_int(
            (self.x0 + self.width) as i64,
        ) && p.v.less_than_int((self.y0 + self.height) as i64)
    }

    /// Whether a patch with these edges lies in the tile.
    pub open spec fn holds_patch(self, e: PatchEdges) -> bool {
        &&& e.u_min.ge_int(self.x0 as int)
        &&& e.v_min.ge_int(self.y0 as int)
        &&& e.u_max.lt_int(self.x0 + self.width)
        &&& e.v_max.lt_int(self.y0 + self.height)
    }

    /// Whether a patch with these edges lies in the tile.
    pub fn contains_patch(&self, e: PatchEdges) -> (r: bool)
        requires
            self.wf(),
        ensures
            r == self.holds_patch(e),
    {
        e.u_min.at_least_int(self.x0 as i64) && e.v_min.at_least_int(self.y0 as i64) && e.u_max.less_than_int(
            (self.x0 + self.width) as i64,
        ) && e.v_max.less_than_int((self.y0 + self.height) as i64)
    }

    /// Whether the patch of half size `half` around a pixel lies in the tile.
    pub open spec fn holds_center(self, u: int, v: int, half: int) -> bool {
        &&& self.x0 <= u - half
        &&& self.y0 <= v - half
        &&& u + half < self.x0 + self.width
        &&& v + half < self.y0 + self.height
    }

    /// Whether the patch of half size `half` around a pixel lies in the tile.
    pub fn contains_center(&self, center: PatchCenter, half: usize) -> (r: bool)
        requires
            self.wf(),
            half <= center.u,
            half <= center.v,
            center.u + half <= usize::MAX,
            center.v + half <= usize::MAX,
        ensures
            r == self.holds_center(center.u as int, center.v as int, half as int),
    {
        center.u - half >= self.x0 && center.v - half >= self.y0 && center.u + half < self.x0 + self.width && center.v
            + half < self.y0 + self.height
    }
}

/// The tile in column `i` and row `j` of a layout.
pub open spec fn tile_at(
    level: usize,
    lw: int,
    lh: int,
    size: int,
    stride: int,
    i: int,
    j: int,
) -> TiledBearingTile {
    TiledBearingTile {
        level,
        x0: (i * stride) as usize,
        y0: (j * stride) as usize,
        width: extent_at(lw, size, stride, i) as usize,
        height: extent_at(lh, size, stride, j) as usize,
    }
}

/// The tiles of a level of `lw` by `lh` pixels, row by row.
pub open spec fn is_layout(
    tiles: Seq<TiledBearingTile>,
    level: usize,
    lw: int,
    lh: int,
    size: int,
    stride: int,
) -> bool {
    let nx = tiles_along(lw, size, stride);
    let ny = tiles_along(lh, size, stride);
    &&& tiles.len() == nx * ny
    &&& forall|i: int, j: int|
        #![trigger crate::layout::cell2(nx, i, j)]
        0 <= i < nx && 0 <= j < ny ==> tiles[crate::layout::cell2(nx, i, j)] == tile_at(
            level,
            lw,
            lh,
            size,
            stride,
            i,
            j,
        )
}

/// Lays tiles over a level: they start `tile_size - tile_overlap` pixels apart, and the
/// last one of a row or column ends with the level.
pub fn build_tiled_bearing_tiles_for_level(lw: usize, lh: usize, level: usize, tile_size: usize, tile_overlap: usize) -> (r:
    Vec<TiledBearingTile>)
    ensures
        is_layout(
            r@,
            level,
            lw as int,
            lh as int,
            effective_size(tile_size as int),
            effective_stride(tile_size as int, tile_overlap as int),
        ),
{
    let size: usize = if tile_size < 2 { 2 } else { tile_size };
    let overlap: usize = if tile_overlap < size - 1 { tile_overlap } else { size - 1 };
    let stride: usize = size - overlap;
    let ghost nx = tiles_along(lw as int, size as int, stride as int);
    let ghost ny = tiles_along(lh as int, size as int, stride as int);
    let mut tiles: Vec<TiledBearingTile> = Vec::new();
    let mut y0: usize = 0;
    let ghost mut j: int = 0;
    proof {
        lemma_tiles_along(lh as int, size as int, stride as int, 0);
        assert(0 * stride == 0 && 0 * nx == 0);
    }
    loop
        invariant_except_break
            0 <= j < ny,
            tiles@.len() == j * nx,
            forall|a: int, b: int|
                #![trigger crate::layout::cell2(nx, a, b)]
                0 <= a < nx && 0 <= b < j ==> tiles@[crate::layout::cell2(nx, a, b)] == tile_at(
                    level,
                    lw as int,
                    lh as int,
                    size as int,
                    stride as int,
                    a,
                    b,
                ),
        invariant
            size == effective_size(tile_size as int),
            stride == effective_stride(tile_size as int, tile_overlap as int),
            1 <= stride <= size,
            nx == tiles_along(lw as int, size as int, stride as int),
            ny == tiles_along(lh as int, size as int, stride as int),
            y0 == j * stride,
            y0 <= lh,
        ensures
            is_layout(tiles@, level, lw as int, lh as int, size as int, stride as int),
        decreases ny - j,
    {
        let h: usize = if size < lh - y0 { size } else { lh - y0 };
        let mut x0: usize = 0;
        let ghost mut i: int = 0;
        proof {
            lemma_tiles_along(lw as int, size as int, stride as int, 0);
        }
        let ghost above = tiles@;
        loop
            invariant_except_break
                0 <= i < nx,
                tiles@.len() == j * nx + i,
                forall|a: int|
                    #![trigger crate::layout::cell2(nx, a, j)]
                    0 <= a < i ==> tiles@[crate::layout::cell2(nx, a, j)] == tile_at(
                        level,
                        lw as int,
                        lh as int,
                        size as int,
                        stride as int,
                        a,
                        j,
                    ),
            invariant
                1 <= stride <= size,
                nx == tiles_along(lw as int, size as int, stride as int),
                0 <= j < ny,
                y0 == j * stride,
                y0 <= lh,
                h == extent_at(lh as int, size as int, stride as int, j),
                x0 == i * stride,
                x0 <= lw,
                above.len() == j * nx,
                tiles@.len() >= above.len(),
                forall|k: int| 0 <= k < above.len() ==> tiles@[k] == above[k],
            ensures
                tiles@.len() == j * nx + nx,
                forall|a: int|
                    #![trigger crate::layout::cell2(nx, a, j)]
                    0 <= a < nx ==> tiles@[crate::layout::cell2(nx, a, j)] == tile_at(
                        level,
                        lw as int,
                        lh as int,
                        size as int,
                        stride as int,
                        a,
                        j,
                    ),
            decreases nx - i,
        {
            let w: usize = if size < lw - x0 { size } else { lw - x0 };
            let ghost before = tiles@;
            tiles.push(TiledBearingTile { level, x0, y0, width: w, height: h });
            proof {
                lemma_tiles_along(lw as int, size as int, stride as int, i);
                assert((i + 1) * stride == i * stride + stride) by (nonlinear_arith);
                assert forall|a: int|
                    #![trigger crate::layout::cell2(nx, a, j)]
                    0 <= a < i + 1 implies tiles@[crate::layout::cell2(nx, a, j)] == tile_at(
                    level,
                    lw as int,
                    lh as int,
                    size as int,
                    stride as int,
                    a,
                    j,
                ) by {
                    if a < i {
                        assert(tiles@[crate::layout::cell2(nx, a, j)] == before[crate::layout::cell2(nx, a, j)]);
                    }
                }
            }
            if x0 + w >= lw {
                break;
            }
            x0 = if x0 + stride < lw - 1 { x0 + stride } else { lw - 1 };
            proof {
                i = i + 1;
            }
        }
        proof {
            lemma_tiles_along(lh as int, size as int, stride as int, j);
            assert((j + 1) * stride == j * stride + stride) by (nonlinear_arith);
            assert((j + 1) * nx == j * nx + nx) by (nonlinear_arith);
            assert forall|a: int, b: int|
                #![trigger crate::layout::cell2(nx, a, b)]
                0 <= a < nx && 0 <= b < j + 1 implies tiles@[crate::layout::cell2(nx, a, b)] == tile_at(
                level,
                lw as int,
                lh as int,
                size as int,
                stride as int,
                a,
                b,
            ) by {
                if b < j {
                    crate::layout::lemma_cell2_bound(nx, j, a, b);
                    assert(nx * j == j * nx) by (nonlinear_arith);
                    assert(tiles@[crate::layout::cell2(nx, a, b)] == above[crate::layout::cell2(nx, a, b)]);
                }
            }
            if y0 + h >= lh {
                assert(nx * ny == ny * nx) by (nonlinear_arith);
            }
        }
        if y0 + h >= lh {
            break;
        }
        y0 = if y0 + stride < lh - 1 { y0 + stride } else { lh - 1 };
        proof {
            j = j + 1;
        }
    }
    tiles
}

/// Tiles lie inside their level and together cover all of it.
pub proof fn law_tiles_cover_the_level(
    tiles: Seq<TiledBearingTile>,
    level: usize,
    lw: usize,
    lh: usize,
    size: int,
    stride: int,
    x: int,
    y: int,
)
    requires
        is_layout(tiles, level, lw as int, lh as int, size, stride),
        1 <= stride <= size,
        size >= 2,
        0 <= x < lw,
        0 <= y < lh,
    ensures
        forall|k: int| #![trigger tiles[k]] 0 <= k < tiles.len() ==> tiles[k].x0 + tiles[k].width <= lw && tiles[k].y0
            + tiles[k].height <= lh && tiles[k].width > 0 && tiles[k].height > 0,
        exists|k: int| 0 <= k < tiles.len() && (#[trigger] tiles[k]).has_pixel(x, y),
{
    let nx = tiles_along(lw as int, size, stride);
    let ny = tiles_along(lh as int, size, stride);
    lemma_tiles_along(lw as int, size, stride, 0);
    lemma_tiles_along(lh as int, size, stride, 0);
    assert forall|k: int| #![trigger tiles[k]] 0 <= k < tiles.len() implies tiles[k].x0 + tiles[k].width <= lw
        && tiles[k].y0 + tiles[k].height <= lh && tiles[k].width > 0 && tiles[k].height > 0 by {
        crate::layout::lemma_cell2_of_position(nx, ny, k);
        let (i, j) = (k % nx, k / nx);
        lemma_tile_extent(lw as int, size, stride, i);
        lemma_tile_extent(lh as int, size, stride, j);
        assert(tiles[crate::layout::cell2(nx, i, j)] == tile_at(level, lw as int, lh as int, size, stride, i, j));
    }
    let i = lemma_tile_of_pixel(lw as int, size, stride, 0, x);
    let j = lemma_tile_of_pixel(lh as int, size, stride, 0, y);
    lemma_tile_extent(lw as int, size, stride, i);
    lemma_tile_extent(lh as int, size, stride, j);
    crate::layout::lemma_cell2_bound(nx, ny, i, j);
    let k = crate::layout::cell2(nx, i, j);
    assert(tiles[k] == tile_at(level, lw as int, lh as int, size, stride, i, j));
    assert(tiles[k].has_pixel(x, y));
}

proof fn lemma_tile_extent(len: int, size: int, stride: int, k: int)
    requires
        0 < len <= usize::MAX,
        1 <= stride <= size,
        0 <= k < tiles_along(len, size, stride),
    ensures
        0 <= k * stride < len,
        0 < extent_at(len, size, stride, k),
        k * stride + extent_at(len, size, stride, k) <= len,
        k < tiles_along(len, size, stride) - 1 ==> extent_at(len, size, stride, k) == size,
        k == tiles_along(len, size, stride) - 1 ==> k * stride + extent_at(len, size, stride, k) == len,
{
    lemma_tiles_along(len, size, stride, k);
    assert(k * stride >= 0) by (nonlinear_arith)
        requires
            k >= 0,
            stride > 0,
    ;
}

/// A tile that holds the pixels from `x` to `x + span`, where tiles overlap by at least
/// `span` pixels.
proof fn lemma_tile_of_pixel(len: int, size: int, stride: int, span: int, x: int) -> (k: int)
    requires
        0 < len <= usize::MAX,
        1 <= stride <= size,
        0 <= span <= size - stride,
        0 <= x,
        x + span < len,
    ensures
        0 <= k < tiles_along(len, size, stride),
        k * stride <= x,
        x + span < k * stride + extent_at(len, size, stride, k),
{
    let n = tiles_along(len, size, stride);
    lemma_tiles_along(len, size, stride, 0);
    let q = x / stride;
    vstd::arithmetic::div_mod::lemma_fundamental_div_mod(x, stride);
    vstd::arithmetic::div_mod::lemma_mod_bound(x, stride);
    vstd::arithmetic::div_mod::lemma_div_pos_is_pos(x, stride);
    assert(stride * q == q * stride) by (nonlinear_arith);
    if q < n {
        lemma_tile_extent(len, size, stride, q);
        q
    } else {
        let k = n - 1;
        lemma_tile_extent(len, size, stride, k);
        assert(k * stride <= q * stride) by (nonlinear_arith)
            requires
                k <= q,
                stride > 0,
        ;
        k
    }
}

/// Where tiles overlap by at least a patch, every patch of the level lies in some tile.
pub proof fn law_every_patch_has_a_tile(
    tiles: Seq<TiledBearingTile>,
    level: usize,
    lw: usize,
    lh: usize,
    size: int,
    stride: int,
    u: int,
    v: int,
    half: int,
)
    requires
        is_layout(tiles, level, lw as int, lh as int, size, stride),
        1 <= stride <= size,
        half >= 0,
        2 * half <= size - stride,
        half <= u,
        u + half < lw,
        half <= v,
        v + half < lh,
    ensures
        exists|k: int| 0 <= k < tiles.len() && (#[trigger] tiles[k]).holds_center(u, v, half),
{
    let nx = tiles_along(lw as int, size, stride);
    let ny = tiles_along(lh as int, size, stride);
    let i = lemma_tile_of_pixel(lw as int, size, stride, 2 * half, u - half);
    let j = lemma_tile_of_pixel(lh as int, size, stride, 2 * half, v - half);
    lemma_tile_extent(lw as int, size, stride, i);
    lemma_tile_extent(lh as int, size, stride, j);
    crate::layout::lemma_cell2_bound(nx, ny, i, j);
    let k = crate::layout::cell2(nx, i, j);
    assert(tiles[k] == tile_at(level, lw as int, lh as int, size, stride, i, j));
    assert(tiles[k].holds_center(u, v, half));
}

/// The tiles of one pyramid level.
#[derive(Clone, Debug)]
pub struct TiledBearingLevel {
    pub level: usize,
    pub width: usize,
    pub height: usize,
    pub tiles: Vec<TiledBearingTile>,
}

/// The tiles of all levels of a pyramid whose finest level has `lw` by `lh` pixels.
pub fn build_tiled_bearing_levels(lw: usize, lh: usize, levels: usize, tile_size: usize, tile_overlap: usize) -> (r: Vec<
    TiledBearingLevel,
>)
    ensures
        r@.len() == levels,
        forall|k: int|
            0 <= k < levels ==> {
                &&& (#[trigger] r@[k]).level == k
                &&& r@[k].width == crate::depth::patch_depth::image_ops::level_length(lw as int, k as nat)
                &&& r@[k].height == crate::depth::patch_depth::image_ops::level_length(lh as int, k as nat)
                &&& is_layout(
                    r@[k].tiles@,
                    k as usize,
                    r@[k].width as int,
                    r@[k].height as int,
                    effective_size(tile_size as int),
                    effective_stride(tile_size as int, tile_overlap as int),
                )
            },
{
    let mut out: Vec<TiledBearingLevel> = Vec::new();
    let mut level: usize = 0;
    while level < levels
        invariant
            level <= levels,
            out@.len() == level,
            forall|k: int|
                0 <= k < level ==> {
                    &&& (#[trigger] out@[k]).level == k
                    &&& out@[k].width == crate::depth::patch_depth::image_ops::level_length(lw as int, k as nat)
                    &&& out@[k].height == crate::depth::patch_depth::image_ops::level_length(lh as int, k as nat)
                    &&& is_layout(
                        out@[k].tiles@,
                        k as usize,
                        out@[k].width as int,
                        out@[k].height as int,
                        effective_size(tile_size as int),
                        effective_stride(tile_size as int, tile_overlap as int),
                    )
                },
        decreases levels - level,
    {
        let width: usize = level_size(lw, level);
        let height: usize = level_size(lh, level);
        let tiles: Vec<TiledBearingTile> = build_tiled_bearing_tiles_for_level(
            width,
            height,
            level,
            tile_size,
            tile_overlap,
        );
        out.push(TiledBearingLevel { level, width, height, tiles });
        level = level + 1;
    }
    out
}

impl TiledBearingLevel {
    pub open spec fn wf(self) -> bool {
        forall|k: int| 0 <= k < self.tiles@.len() ==> (#[trigger] self.tiles@[k]).wf()
    }

    /// The first tile that holds a patch, or else the first that holds its centre.
    pub fn owning_tile_for_patch(&self, center: Pixel, edges: PatchEdges) -> (r: Option<usize>)
        requires
            self.wf(),
        ensures
            r is None <==> forall|k: int|
                0 <= k < self.tiles@.len() ==> !(#[trigger] self.tiles@[k]).holds_patch(edges) && !self.tiles@[k].holds_point(
                    center,
                ),
            r matches Some(t) ==> {
                &&& t < self.tiles@.len()
                &&& self.tiles@[t as int].holds_patch(edges) ==> forall|k: int|
                    0 <= k < t ==> !(#[trigger] self.tiles@[k]).holds_patch(edges)
                &&& !self.tiles@[t as int].holds_patch(edges) ==> self.tiles@[t as int].holds_point(center) && (forall|
                    k: int,
                |
                    0 <= k < self.tiles@.len() ==> !(#[trigger] self.tiles@[k]).holds_patch(edges)) && (forall|k: int|
                    0 <= k < t ==> !(#[trigger] self.tiles@[k]).holds_point(center))
            },
    {
        let n: usize = self.tiles.len();
        let mut i: usize = 0;
        while i < n
            invariant
                i <= n,
                n == self.tiles@.len(),
                self.wf(),
                forall|k: int| 0 <= k < i ==> !(#[trigger] self.tiles@[k]).holds_patch(edges),
            decreases n - i,
        {
            if self.tiles[i].contains_patch(edges) {
                return Some(i);
            }
            i = i + 1;
        }
        let mut i: usize = 0;
        while i < n
            invariant
                i <= n,
                n == self.tiles@.len(),
                self.wf(),
                forall|k: int| 0 <= k < n ==> !(#[trigger] self.tiles@[k]).holds_patch(edges),
                forall|k: int| 0 <= k < i ==> !(#[trigger] self.tiles@[k]).holds_point(center),
            decreases n - i,
        {
            if self.tiles[i].contains_point(center) {
                return Some(i);
            }
            i = i + 1;
        }
        None
    }

    /// The patch centres of the level whose patch lies in a tile, row by row; none for a
    /// tile that does not exist.
    pub fn patch_centers_in_tile(&self, tile_idx: usize, settings: &PatchDepthSettings) -> (r: Vec<PatchCenter>)
        requires
            self.wf(),
            settings.patch_stride > 0,
        ensures
            tile_idx >= self.tiles@.len() ==> r@.len() == 0,
            tile_idx < self.tiles@.len() ==> exists|all: Seq<PatchCenter>|
                {
                    &&& #[trigger] is_all_centers(all, *settings, self.width as int, self.height as int)
                    &&& r@ == all.filter(
                        |c: PatchCenter|
                            self.tiles@[tile_idx as int].holds_center(
                                c.u as int,
                                c.v as int,
                                crate::depth::patch_depth::fuse::half_patch(*settings),
                            ),
                    )
                },
    {
        let mut out: Vec<PatchCenter> = Vec::new();
        if tile_idx >= self.tiles.len() {
            return out;
        }
        let tile: TiledBearingTile = self.tiles[tile_idx];
        let half: usize = settings.patch_size / 2;
        let all: Vec<PatchCenter> = patch_centers(self.width, self.height, settings);
        let ghost keep = |c: PatchCenter|
            self.tiles@[tile_idx as int].holds_center(
                c.u as int,
                c.v as int,
                crate::depth::patch_depth::fuse::half_patch(*settings),
            );
        assert(is_all_centers(all@, *settings, self.width as int, self.height as int));
        let n: usize = all.len();
        let mut i: usize = 0;
        proof {
            reveal(Seq::filter);
            assert(all@.take(0).filter(keep) =~= out@);
        }
        while i < n
            invariant
                i <= n,
                n == all@.len(),
                tile.wf(),
                tile_idx < self.tiles@.len(),
                tile == self.tiles@[tile_idx as int],
                half == crate::depth::patch_depth::fuse::half_patch(*settings),
                keep == (|c: PatchCenter|
                    self.tiles@[tile_idx as int].holds_center(
                        c.u as int,
                        c.v as int,
                        crate::depth::patch_depth::fuse::half_patch(*settings),
                    )),
                forall|k: int|
                    #![trigger all@[k]]
                    0 <= k < all@.len() ==> half <= all@[k].u && all@[k].u + half < self.width && half <= all@[k].v
                        && all@[k].v + half < self.height,
                out@ == all@.take(i as int).filter(keep),
            decreases n - i,
        {
            proof {
                crate::seqs::lemma_filter_take(all@, i as int, keep);
            }
            if tile.contains_center(all[i], half) {
                out.push(all[i]);
            }
            i = i + 1;
        }
        assert(all@.take(n as int) =~= all@);
        out
    }

    /// Which seeds each tile works with, in order: those whose patch or whose point lies in
    /// it. `points` and `edges` are the seeds in pixels of the level.
    pub fn assign_seeds(&self, points: &[Pixel], edges: &[PatchEdges]) -> (r: Vec<Vec<usize>>)
        requires
            self.wf(),
            edges@.len() == points@.len(),
        ensures
            r@.len() == self.tiles@.len(),
            forall|t: int|
                0 <= t < r@.len() ==> (#[trigger] r@[t])@ == seeds_of_tile(
                    self.tiles@[t],
                    points@,
                    edges@,
                    points@.len() as int,
                ),
    {
        let mut out: Vec<Vec<usize>> = Vec::new();
        let n: usize = points.len();
        let mut t: usize = 0;
        while t < self.tiles.len()
            invariant
                t <= self.tiles@.len(),
                self.wf(),
                n == points@.len(),
                edges@.len() == n,
                out@.len() == t,
                forall|k: int|
                    0 <= k < t ==> (#[trigger] out@[k])@ == seeds_of_tile(
                        self.tiles@[k],
                        points@,
                        edges@,
                        points@.len() as int,
                    ),
            decreases self.tiles@.len() - t,
        {
            let tile: TiledBearingTile = self.tiles[t];
            let mut mine: Vec<usize> = Vec::new();
            let mut i: usize = 0;
            while i < n
                invariant
                    i <= n,
                    n == points@.len(),
                    edges@.len() == n,
                    tile.wf(),
                    mine@ == seeds_of_tile(tile, points@, edges@, i as int),
                decreases n - i,
            {
                if tile.contains_patch(edges[i]) || tile.contains_point(points[i]) {
                    mine.push(i);
                }
                i = i + 1;
            }
            out.push(mine);
            t = t + 1;
        }
        out
    }
}

/// The seeds below the `n`-th whose patch or whose point lies in a tile, in order.
pub open spec fn seeds_of_tile(tile: TiledBearingTile, points: Seq<Pixel>, edges: Seq<PatchEdges>, n: int) -> Seq<usize>
    decreases n,
{
    if n <= 0 {
        Seq::empty()
    } else if tile.holds_patch(edges[n - 1]) || tile.holds_point(points[n - 1]) {
        seeds_of_tile(tile, points, edges, n - 1).push((n - 1) as usize)
    } else {
        seeds_of_tile(tile, points, edges, n - 1)
    }
}

/// Whether `all` are the patch centres of an image, row by row.
pub open spec fn is_all_centers(all: Seq<PatchCenter>, settings: PatchDepthSettings, width: int, height: int) -> bool {
    let half = crate::depth::patch_depth::fuse::half_patch(settings);
    let stride = settings.patch_stride as int;
    &&& all.len() == crate::depth::patch_depth::fuse::patches_along(width, half, stride)
        * crate::depth::patch_depth::fuse::patches_along(height, half, stride)
    &&& forall|k: int|
        0 <= k < all.len() ==> ((#[trigger] all[k]).u as int, all[k].v as int)
            == crate::depth::patch_depth::fuse::center_at(settings, width, k)
}

/// Neighbouring tiles overlap by the configured overlap, or by one pixel less than a tile where
/// that would be more; a tile has the configured size, and at least two pixels.
pub proof fn law_tiles_overlap_as_configured(tile_size: int, tile_overlap: int)
    requires
        tile_size >= 0,
        tile_overlap >= 0,
    ensures
        tile_size >= 2 ==> effective_size(tile_size) == tile_size,
        tile_size < 2 ==> effective_size(tile_size) == 2,
        1 <= effective_stride(tile_size, tile_overlap) <= effective_size(tile_size),
        tile_overlap < effective_size(tile_size) ==> effective_size(tile_size) - effective_stride(
            tile_size,
            tile_overlap,
        ) == tile_overlap,
        tile_overlap >= effective_size(tile_size) ==> effective_stride(tile_size, tile_overlap) == 1,
{
}

/// The tiles of a level stand in rows: each begins one stride behind the one before it, has the
/// full size but for the last one, which ends with the level, and none begins where the one
/// before it has reached the end already.
pub proof fn law_tiles_step_through_the_level(
    tiles: Seq<TiledBearingTile>,
    level: usize,
    lw: usize,
    lh: usize,
    size: int,
    stride: int,
    i: int,
    j: int,
)
    requires
        is_layout(tiles, level, lw as int, lh as int, size, stride),
        1 <= stride <= size,
        lw > 0,
        lh > 0,
        0 <= i < tiles_along(lw as int, size, stride),
        0 <= j < tiles_along(lh as int, size, stride),
    ensures
        ({
            let t = tiles[j * tiles_along(lw as int, size, stride) + i];
            &&& t.level == level
            &&& t.x0 == i * stride
            &&& t.y0 == j * stride
            &&& i < tiles_along(lw as int, size, stride) - 1 ==> t.width == size && t.x0 + t.width < lw
            &&& i == tiles_along(lw as int, size, stride) - 1 ==> t.x0 + t.width == lw && t.width <= size
            &&& j < tiles_along(lh as int, size, stride) - 1 ==> t.height == size && t.y0 + t.height < lh
            &&& j == tiles_along(lh as int, size, stride) - 1 ==> t.y0 + t.height == lh && t.height <= size
        }),
{
    let nx = tiles_along(lw as int, size, stride);
    lemma_tiles_along(lw as int, size, stride, i);
    lemma_tiles_along(lh as int, size, stride, j);
    lemma_tile_extent(lw as int, size, stride, i);
    lemma_tile_extent(lh as int, size, stride, j);
    assert(crate::layout::cell2(nx, i, j) == j * nx + i);
}

/// A tile holds a point exactly where it has the pixel that the point lies in.
pub proof fn law_tile_holds_the_points_of_its_pixels(tile: &TiledBearingTile, p: Pixel, r: bool)
    requires
        tile.wf(),
        call_ensures(TiledBearingTile::contains_point, (tile, p), r),
    ensures
        r <==> !p.u.nan() && !p.v.nan() && tile.x0 <= p.u.floored() < tile.x0 + tile.width && tile.y0
            <= p.v.floored() < tile.y0 + tile.height,
{
    p.u.lemma_floor_compares(tile.x0 as int);
    p.u.lemma_floor_compares(tile.x0 + tile.width);
    p.v.lemma_floor_compares(tile.y0 as int);
    p.v.lemma_floor_compares(tile.y0 + tile.height);
}

/// A tile holds a patch exactly where it has the pixels of its first and of its last corner.
pub proof fn law_tile_holds_a_patch_by_its_corners(tile: &TiledBearingTile, e: PatchEdges, r: bool)
    requires
        tile.wf(),
        call_ensures(TiledBearingTile::contains_patch, (tile, e), r),
        e.u_min.le(e.u_max),
        e.v_min.le(e.v_max),
    ensures
        r <==> tile.x0 <= e.u_min.floored() && e.u_max.floored() < tile.x0 + tile.width && tile.y0
            <= e.v_min.floored() && e.v_max.floored() < tile.y0 + tile.height,
{
    e.u_min.lemma_floor_compares(tile.x0 as int);
    e.u_max.lemma_floor_compares(tile.x0 + tile.width);
    e.v_min.lemma_floor_compares(tile.y0 as int);
    e.v_max.lemma_floor_compares(tile.y0 + tile.height);
}

/// A tile takes the seeds whose patch or whose point it holds, each once, in their order, and no
/// others.
pub proof fn law_tile_takes_the_seeds_it_holds(
    tile: TiledBearingTile,
    points: Seq<Pixel>,
    edges: Seq<PatchEdges>,
    n: int,
    i: usize,
)
    requires
        0 <= n <= points.len(),
        n <= usize::MAX,
    ensures
        seeds_of_tile(tile, points, edges, n).contains(i) <==> i < n && (tile.holds_patch(edges[i as int])
            || tile.holds_point(points[i as int])),
        forall|a: int, b: int|
            0 <= a < b < seeds_of_tile(tile, points, edges, n).len() ==> #[trigger] seeds_of_tile(
                tile,
                points,
                edges,
                n,
            )[a] < #[trigger] seeds_of_tile(tile, points, edges, n)[b],
        forall|a: int|
            0 <= a < seeds_of_tile(tile, points, edges, n).len() ==> (#[trigger] seeds_of_tile(
                tile,
                points,
                edges,
                n,
            )[a]) < n,
    decreases n,
{
    if n > 0 {
        law_tile_takes_the_seeds_it_holds(tile, points, edges, n - 1, i);
        let before = seeds_of_tile(tile, points, edges, n - 1);
        crate::seqs::lemma_push_contains(before, (n - 1) as usize, i);
    }
}

/// A tile holds the patch around a centre exactly where it has the pixels half a patch before
/// and half a patch behind the centre, along both axes.
pub proof fn law_tile_holds_a_centre_by_its_patch(tile: &TiledBearingTile, center: PatchCenter, half: usize, r: bool)
    requires
        tile.wf(),
        half <= center.u,
        half <= center.v,
        center.u + half <= usize::MAX,
        center.v + half <= usize::MAX,
        call_ensures(TiledBearingTile::contains_center, (tile, center, half), r),
    ensures
        r <==> tile.x0 <= center.u - half && center.u + half < tile.x0 + tile.width && tile.y0 <= center.v - half
            && center.v + half < tile.y0 + tile.height,
        r <==> tile.has_pixel(center.u - half, center.v - half) && tile.has_pixel(center.u + half, center.v + half),
{
}

/// The centres of a tile are those of the whole level whose patch does not leave the tile: half a
/// patch lies before the centre, and half a patch and one pixel behind it.
pub proof fn law_tile_takes_the_centres_it_holds(
    level: &TiledBearingLevel,
    tile_idx: usize,
    settings: &PatchDepthSettings,
    all: Vec<PatchCenter>,
    r: Vec<PatchCenter>,
    c: PatchCenter,
)
    requires
        level.wf(),
        settings.patch_stride > 0,
        tile_idx < level.tiles@.len(),
        call_ensures(patch_centers, (level.width, level.height, settings), all),
        call_ensures(TiledBearingLevel::patch_centers_in_tile, (level, tile_idx, settings), r),
    ensures
        ({
            let tile = level.tiles@[tile_idx as int];
            let half = settings.patch_size as int / 2;
            &&& r@.contains(c) <==> {
                &&& all@.contains(c)
                &&& tile.x0 + half <= c.u < tile.x0 + tile.width - half
                &&& tile.y0 + half <= c.v < tile.y0 + tile.height - half
            }
            &&& r@.len() <= all@.len()
        }),
{
    let keep = |c: PatchCenter|
        level.tiles@[tile_idx as int].holds_center(
            c.u as int,
            c.v as int,
            crate::depth::patch_depth::fuse::half_patch(*settings),
        );
    let every = choose|every: Seq<PatchCenter>|
        {
            &&& #[trigger] is_all_centers(every, *settings, level.width as int, level.height as int)
            &&& r@ == every.filter(keep)
        };
    assert forall|k: int| 0 <= k < every.len() implies every[k] == all@[k] by {
        assert((every[k].u as int, every[k].v as int) == crate::depth::patch_depth::fuse::center_at(
            *settings,
            level.width as int,
            k,
        ));
        assert(all@[k].u == every[k].u && all@[k].v == every[k].v);
    }
    assert(every =~= all@);
    every.filter_lemma(keep);
    if r@.contains(c) {
        every.lemma_filter_contains_rev(keep, c);
    }
}

/// The tile of a patch holds the whole patch where any tile does, and else the centre of it; no
/// tile before it does the same.
pub proof fn law_first_tile_of_a_patch_owns_it(
    level: &TiledBearingLevel,
    center: Pixel,
    edges: PatchEdges,
    r: Option<usize>,
    k: int,
)
    requires
        level.wf(),
        call_ensures(TiledBearingLevel::owning_tile_for_patch, (level, center, edges), r),
        0 <= k < level.tiles@.len(),
    ensures
        r matches Some(t) ==> {
            &&& t < level.tiles@.len()
            &&& level.tiles@[t as int].holds_patch(edges) || level.tiles@[t as int].holds_point(center)
            &&& level.tiles@[k].holds_patch(edges) ==> t <= k && level.tiles@[t as int].holds_patch(edges)
            &&& level.tiles@[k].holds_point(center) ==> t <= k || level.tiles@[t as int].holds_patch(edges)
        },
{
}

/// Every tile is given the seeds whose patch or whose point it holds, each once and in order.
pub proof fn law_seeds_go_to_the_tiles_that_hold_them(
    level: &TiledBearingLevel,
    points: &[Pixel],
    edges: &[PatchEdges],
    r: Vec<Vec<usize>>,
    t: int,
    i: usize,
    a: int,
    b: int,
)
    requires
        level.wf(),
        edges@.len() == points@.len(),
        points@.len() <= usize::MAX,
        call_ensures(TiledBearingLevel::assign_seeds, (level, points, edges), r),
        0 <= t < level.tiles@.len(),
    ensures
        r@.len() == level.tiles@.len(),
        r@[t]@.contains(i) <==> i < points@.len() && (level.tiles@[t].holds_patch(edges@[i as int])
            || level.tiles@[t].holds_point(points@[i as int])),
        0 <= a < b < r@[t]@.len() ==> r@[t]@[a] < r@[t]@[b],
{
    law_tile_takes_the_seeds_it_holds(level.tiles@[t], points@, edges@, points@.len() as int, i);
}

} // verus!
