//! Validity masks, their pyramids, and the pixels that an interpolation touches.
use vstd::prelude::*;
use crate::ieee::{real64, Real64};

verus! {

/// Integers up to this one, 2^53, are exact as binary64 numbers.
pub const EXACT_INTEGERS: u64 = 0x20_0000_0000_0000;

/// A row-major image of flags: one where a pixel is valid, zero elsewhere.
#[derive(Clone, Debug)]
pub struct Mask {
    pub width: usize,
    pub height: usize,
    pub data: Vec<u8>,
}

impl Mask {
    /// The storage holds one flag, zero or one, per pixel.
    pub open spec fn wf(self) -> bool {
        &&& self.data@.len() == self.width * self.height
        &&& forall|i: int| 0 <= i < self.data@.len() ==> (#[trigger] self.data@[i]) <= 1
    }

    /// Whether the image has this pixel.
    pub open spec fn has(self, x: int, y: int) -> bool {
        0 <= x < self.width && 0 <= y < self.height
    }

    /// Whether a pixel is valid.
    pub open spec fn set(self, x: int, y: int) -> bool {
        self.data@[crate::layout::cell2(self.width as int, x, y)] != 0
    }

    /// Whether `self` and `other` are masks of the same pixels.
    pub open spec fn same(self, other: Self) -> bool {
        &&& self.width == other.width
        &&& self.height == other.height
        &&& forall|x: int, y: int| self.has(x, y) ==> (#[trigger] self.set(x, y) <==> other.set(x, y))
    }

    /// Reads one flag.
    pub fn is_set(&self, x: usize, y: usize) -> (r: bool)
        requires
            self.wf(),
            self.has(x as int, y as int),
        ensures
            r == self.set(x as int, y as int),
    {
        proof {
            crate::layout::lemma_cell2_bound(self.width as int, self.height as int, x as int, y as int);
            assert(self.data.len() <= usize::MAX);
        }
        self.data[y * self.width + x] != 0
    }

    /// All pixels at most two away from `(x, y)`, in both directions, are inside and valid.
    pub open spec fn surrounded(self, x: int, y: int) -> bool {
        &&& 2 <= x
        &&& x + 2 < self.width
        &&& 2 <= y
        &&& y + 2 < self.height
        &&& forall|i: int, j: int| x - 2 <= i <= x + 2 && y - 2 <= j <= y + 2 ==> #[trigger] self.set(i, j)
    }

    /// The pixels at most two away in the same row are inside and valid.
    spec fn row_surrounded(self, x: int, y: int) -> bool {
        &&& 2 <= x
        &&& x + 2 < self.width
        &&& self.set(x - 2, y)
        &&& self.set(x - 1, y)
        &&& self.set(x, y)
        &&& self.set(x + 1, y)
        &&& self.set(x + 2, y)
    }

    proof fn lemma_rows_surround(self, x: int, y: int)
        ensures
            self.surrounded(x, y) <==> 2 <= y && y + 2 < self.height && self.row_surrounded(x, y - 2)
                && self.row_surrounded(x, y - 1) && self.row_surrounded(x, y) && self.row_surrounded(x, y + 1)
                && self.row_surrounded(x, y + 2),
    {
        if 2 <= y && y + 2 < self.height && self.row_surrounded(x, y - 2) && self.row_surrounded(x, y - 1)
            && self.row_surrounded(x, y) && self.row_surrounded(x, y + 1) && self.row_surrounded(x, y + 2) {
            assert forall|i: int, j: int| x - 2 <= i <= x + 2 && y - 2 <= j <= y + 2 implies #[trigger] self.set(
                i,
                j,
            ) by {
                assert(j == y - 2 || j == y - 1 || j == y || j == y + 1 || j == y + 2);
                assert(i == x - 2 || i == x - 1 || i == x || i == x + 1 || i == x + 2);
            }
        }
    }
}

/// A mask that is set where the bytes are not zero.
pub open spec fn is_mask_of_bytes(mask: Mask, bytes: Seq<u8>, width: int, height: int) -> bool {
    &&& mask.width == width
    &&& mask.height == height
    &&& forall|x: int, y: int|
        mask.has(x, y) ==> (#[trigger] mask.set(x, y) <==> bytes[crate::layout::cell2(width, x, y)] != 0)
}

/// A mask from bytes, of which every byte but zero marks a valid pixel.
pub fn mask_from_bytes(bytes: &[u8], width: usize, height: usize) -> (r: Mask)
    requires
        bytes@.len() == width * height,
    ensures
        r.wf(),
        is_mask_of_bytes(r, bytes@, width as int, height as int),
{
    let n: usize = bytes.len();
    let mut data: Vec<u8> = Vec::with_capacity(n);
    let mut i: usize = 0;
    while i < n
        invariant
            i <= n,
            n == bytes@.len(),
            data@.len() == i,
            forall|k: int| 0 <= k < i ==> (#[trigger] data@[k]) <= 1 && (data@[k] != 0 <==> bytes@[k] != 0),
        decreases n - i,
    {
        data.push(if bytes[i] != 0 { 1 } else { 0 });
        i = i + 1;
    }
    let r: Mask = Mask { width, height, data };
    assert forall|x: int, y: int| r.has(x, y) implies (#[trigger] r.set(x, y) <==> bytes@[crate::layout::cell2(
        width as int,
        x,
        y,
    )] != 0) by {
        crate::layout::lemma_cell2_bound(width as int, height as int, x, y);
    }
    r
}

/// What a mask erodes to: a pixel stays valid where the whole square of five by five
/// pixels around it is valid.
pub open spec fn is_eroded(mask: Mask, eroded: Mask) -> bool {
    &&& eroded.wf()
    &&& eroded.width == mask.width
    &&& eroded.height == mask.height
    &&& forall|x: int, y: int| eroded.has(x, y) ==> (#[trigger] eroded.set(x, y) <==> mask.surrounded(x, y))
}

/// Whether the square of five by five pixels around `(cx, cy)` is inside and valid.
pub fn mask_pyrdown_footprint_valid(mask: &Mask, cx: usize, cy: usize) -> (r: bool)
    requires
        mask.wf(),
    ensures
        r == mask.surrounded(cx as int, cy as int),
{
    if cx < 2 || cy < 2 || cx >= mask.width || cy >= mask.height || mask.width - cx <= 2 || mask.height - cy <= 2 {
        return false;
    }
    let mut y: usize = cy - 2;
    while y < cy + 3
        invariant
            mask.wf(),
            2 <= cx,
            cx + 2 < mask.width,
            2 <= cy,
            cy + 2 < mask.height,
            cy - 2 <= y <= cy + 3,
            forall|i: int, j: int| cx - 2 <= i <= cx + 2 && cy - 2 <= j < y ==> #[trigger] mask.set(i, j),
        decreases cy + 3 - y,
    {
        let mut x: usize = cx - 2;
        while x < cx + 3
            invariant
                mask.wf(),
                2 <= cx,
                cx + 2 < mask.width,
                2 <= cy,
                cy + 2 < mask.height,
                cy - 2 <= y < cy + 3,
                cx - 2 <= x <= cx + 3,
                forall|i: int, j: int| cx - 2 <= i <= cx + 2 && cy - 2 <= j < y ==> #[trigger] mask.set(i, j),
                forall|i: int| cx - 2 <= i < x ==> #[trigger] mask.set(i, y as int),
            decreases cx + 3 - x,
        {
            if !mask.is_set(x, y) {
                return false;
            }
            x = x + 1;
        }
        y = y + 1;
    }
    true
}

/// The pixels at most two away in the same row, for every pixel.
fn erode_rows(mask: &Mask) -> (r: Vec<u8>)
    requires
        mask.wf(),
    ensures
        r@.len() == mask.width * mask.height,
        forall|x: int, y: int|
            #![trigger crate::layout::cell2(mask.width as int, x, y)]
            mask.has(x, y) ==> (r@[crate::layout::cell2(mask.width as int, x, y)] != 0 <==> mask.row_surrounded(x, y)),
{
    let w: usize = mask.width;
    let h: usize = mask.height;
    let mut out: Vec<u8> = Vec::with_capacity(mask.data.len());
    let mut y: usize = 0;
    assert(0 * w == 0);
    while y < h
        invariant
            y <= h,
            mask.wf(),
            w == mask.width,
            h == mask.height,
            out@.len() == y * w,
            forall|i: int, j: int|
                #![trigger crate::layout::cell2(w as int, i, j)]
                mask.has(i, j) && crate::layout::cell2(w as int, i, j) < out@.len() ==> (out@[crate::layout::cell2(
                    w as int,
                    i,
                    j,
                )] != 0 <==> mask.row_surrounded(i, j)),
        decreases h - y,
    {
        let mut x: usize = 0;
        while x < w
            invariant
                x <= w,
                y < h,
                mask.wf(),
                w == mask.width,
                h == mask.height,
                out@.len() == y * w + x,
                forall|i: int, j: int|
                    #![trigger crate::layout::cell2(w as int, i, j)]
                    mask.has(i, j) && crate::layout::cell2(w as int, i, j) < out@.len() ==> (out@[crate::layout::cell2(
                        w as int,
                        i,
                        j,
                    )] != 0 <==> mask.row_surrounded(i, j)),
            decreases w - x,
        {
            let full: bool = x >= 2 && w - x > 2 && mask.is_set(x - 2, y) && mask.is_set(x - 1, y) && mask.is_set(
                x,
                y,
            ) && mask.is_set(x + 1, y) && mask.is_set(x + 2, y);
            assert forall|i: int, j: int|
                #![trigger crate::layout::cell2(w as int, i, j)]
                mask.has(i, j) && crate::layout::cell2(w as int, i, j) == out@.len() implies i == x && j == y by {
                crate::layout::lemma_cell2_injective(w as int, i, j, x as int, y as int);
            }
            out.push(if full { 1 } else { 0 });
            x = x + 1;
        }
        assert((y + 1) * w == y * w + w) by (nonlinear_arith);
        y = y + 1;
    }
    assert(h * w == w * h) by (nonlinear_arith);
    assert forall|i: int, j: int|
        #![trigger crate::layout::cell2(w as int, i, j)]
        mask.has(i, j) implies (out@[crate::layout::cell2(w as int, i, j)] != 0 <==> mask.row_surrounded(i, j)) by {
        crate::layout::lemma_cell2_bound(w as int, h as int, i, j);
    }
    out
}

fn flag_at(flags: &Vec<u8>, width: usize, height: usize, x: usize, y: usize) -> (r: bool)
    requires
        flags@.len() == width * height,
        x < width,
        y < height,
    ensures
        r == (flags@[crate::layout::cell2(width as int, x as int, y as int)] != 0),
{
    proof {
        crate::layout::lemma_cell2_bound(width as int, height as int, x as int, y as int);
        assert(flags.len() <= usize::MAX);
    }
    flags[y * width + x] != 0
}

/// Erodes a mask by two pixels in every direction, rows first and then columns.
pub fn mask_pyrdown_erode(mask: &Mask) -> (r: Mask)
    requires
        mask.wf(),
    ensures
        is_eroded(*mask, r),
{
    let w: usize = mask.width;
    let h: usize = mask.height;
    let rows: Vec<u8> = erode_rows(mask);
    let mut out: Vec<u8> = Vec::with_capacity(rows.len());
    let mut y: usize = 0;
    assert(0 * w == 0);
    while y < h
        invariant
            y <= h,
            mask.wf(),
            w == mask.width,
            h == mask.height,
            rows@.len() == w * h,
            forall|i: int, j: int|
                #![trigger crate::layout::cell2(w as int, i, j)]
                mask.has(i, j) ==> (rows@[crate::layout::cell2(w as int, i, j)] != 0 <==> mask.row_surrounded(i, j)),
            out@.len() == y * w,
            forall|k: int| 0 <= k < out@.len() ==> (#[trigger] out@[k]) <= 1,
            forall|i: int, j: int|
                #![trigger crate::layout::cell2(w as int, i, j)]
                mask.has(i, j) && crate::layout::cell2(w as int, i, j) < out@.len() ==> (out@[crate::layout::cell2(
                    w as int,
                    i,
                    j,
                )] != 0 <==> mask.surrounded(i, j)),
        decreases h - y,
    {
        let mut x: usize = 0;
        while x < w
            invariant
                x <= w,
                y < h,
                mask.wf(),
                w == mask.width,
                h == mask.height,
                rows@.len() == w * h,
                forall|i: int, j: int|
                    #![trigger crate::layout::cell2(w as int, i, j)]
                    mask.has(i, j) ==> (rows@[crate::layout::cell2(w as int, i, j)] != 0 <==> mask.row_surrounded(
                        i,
                        j,
                    )),
                out@.len() == y * w + x,
                forall|k: int| 0 <= k < out@.len() ==> (#[trigger] out@[k]) <= 1,
                forall|i: int, j: int|
                    #![trigger crate::layout::cell2(w as int, i, j)]
                    mask.has(i, j) && crate::layout::cell2(w as int, i, j) < out@.len() ==> (out@[crate::layout::cell2(
                        w as int,
                        i,
                        j,
                    )] != 0 <==> mask.surrounded(i, j)),
            decreases w - x,
        {
            let full: bool = y >= 2 && h - y > 2 && flag_at(&rows, w, h, x, y - 2) && flag_at(
                &rows,
                w,
                h,
                x,
                y - 1,
            ) && flag_at(&rows, w, h, x, y) && flag_at(&rows, w, h, x, y + 1) && flag_at(&rows, w, h, x, y + 2);
            proof {
                mask.lemma_rows_surround(x as int, y as int);
                if y >= 2 && y + 2 < h {
                    assert(mask.has(x as int, y - 2) && mask.has(x as int, y - 1) && mask.has(x as int, y + 1)
                        && mask.has(x as int, y + 2));
                    let a = crate::layout::cell2(w as int, x as int, y - 2);
                    let b = crate::layout::cell2(w as int, x as int, y - 1);
                    let c = crate::layout::cell2(w as int, x as int, y + 1);
                    let d = crate::layout::cell2(w as int, x as int, y + 2);
                }
                assert(mask.has(x as int, y as int));
            }
            assert forall|i: int, j: int|
                #![trigger crate::layout::cell2(w as int, i, j)]
                mask.has(i, j) && crate::layout::cell2(w as int, i, j) == out@.len() implies i == x && j == y by {
                crate::layout::lemma_cell2_injective(w as int, i, j, x as int, y as int);
            }
            out.push(if full { 1 } else { 0 });
            x = x + 1;
        }
        assert((y + 1) * w == y * w + w) by (nonlinear_arith);
        y = y + 1;
    }
    assert(h * w == w * h) by (nonlinear_arith);
    let r: Mask = Mask { width: w, height: h, data: out };
    assert forall|i: int, j: int| r.has(i, j) implies (#[trigger] r.set(i, j) <==> mask.surrounded(i, j)) by {
        crate::layout::lemma_cell2_bound(w as int, h as int, i, j);
    }
    r
}

/// Half of a size, at least one.
pub open spec fn halved(n: int) -> int {
    if n / 2 < 1 {
        1
    } else {
        n / 2
    }
}

/// The next coarser mask: every second pixel of every second row of the eroded mask. A
/// size of one stays one.
pub open spec fn is_pyrdown(mask: Mask, next: Mask) -> bool {
    &&& next.wf()
    &&& next.width == halved(mask.width as int)
    &&& next.height == halved(mask.height as int)
    &&& forall|x: int, y: int| next.has(x, y) ==> (#[trigger] next.set(x, y) <==> mask.surrounded(2 * x, 2 * y))
}

/// Takes every second pixel of every second row of an eroded mask.
pub fn mask_pyrdown_from_eroded(eroded: &Mask) -> (r: Mask)
    requires
        eroded.wf(),
    ensures
        r.wf(),
        r.width == halved(eroded.width as int),
        r.height == halved(eroded.height as int),
        forall|x: int, y: int|
            r.has(x, y) ==> (#[trigger] r.set(x, y) <==> eroded.has(2 * x, 2 * y) && eroded.set(2 * x, 2 * y)),
{
    let width: usize = eroded.width;
    let height: usize = eroded.height;
    let w: usize = if width / 2 < 1 { 1 } else { width / 2 };
    let h: usize = if height / 2 < 1 { 1 } else { height / 2 };
    let mut out: Vec<u8> = Vec::new();
    let mut y: usize = 0;
    assert(0 * w == 0);
    while y < h
        invariant
            y <= h,
            eroded.wf(),
            width == eroded.width,
            height == eroded.height,
            w == halved(width as int),
            h == halved(height as int),
            out@.len() == y * w,
            forall|k: int| 0 <= k < out@.len() ==> (#[trigger] out@[k]) <= 1,
            forall|i: int, j: int|
                #![trigger crate::layout::cell2(w as int, i, j)]
                0 <= i < w && 0 <= j < h && crate::layout::cell2(w as int, i, j) < out@.len() ==> (
                out@[crate::layout::cell2(w as int, i, j)] != 0 <==> eroded.has(2 * i, 2 * j) && eroded.set(
                    2 * i,
                    2 * j,
                )),
        decreases h - y,
    {
        let mut x: usize = 0;
        while x < w
            invariant
                x <= w,
                y < h,
                eroded.wf(),
                width == eroded.width,
                height == eroded.height,
                w == halved(width as int),
                h == halved(height as int),
                out@.len() == y * w + x,
                forall|k: int| 0 <= k < out@.len() ==> (#[trigger] out@[k]) <= 1,
                forall|i: int, j: int|
                    #![trigger crate::layout::cell2(w as int, i, j)]
                    0 <= i < w && 0 <= j < h && crate::layout::cell2(w as int, i, j) < out@.len() ==> (
                    out@[crate::layout::cell2(w as int, i, j)] != 0 <==> eroded.has(2 * i, 2 * j) && eroded.set(
                        2 * i,
                        2 * j,
                    )),
            decreases w - x,
        {
            let valid: bool = x * 2 < width && y * 2 < height && eroded.is_set(x * 2, y * 2);
            assert forall|i: int, j: int|
                #![trigger crate::layout::cell2(w as int, i, j)]
                0 <= i < w && 0 <= j < h && crate::layout::cell2(w as int, i, j) == out@.len() implies i == x && j
                == y by {
                crate::layout::lemma_cell2_injective(w as int, i, j, x as int, y as int);
            }
            out.push(if valid { 1 } else { 0 });
            x = x + 1;
        }
        assert((y + 1) * w == y * w + w) by (nonlinear_arith);
        y = y + 1;
    }
    assert(h * w == w * h) by (nonlinear_arith);
    let r: Mask = Mask { width: w, height: h, data: out };
    assert forall|i: int, j: int| r.has(i, j) implies (#[trigger] r.set(i, j) <==> eroded.has(2 * i, 2 * j)
        && eroded.set(2 * i, 2 * j)) by {
        crate::layout::lemma_cell2_bound(w as int, h as int, i, j);
    }
    r
}

/// The next coarser mask.
pub fn mask_pyrdown(mask: &Mask) -> (r: Mask)
    requires
        mask.wf(),
    ensures
        is_pyrdown(*mask, r),
{
    let eroded: Mask = mask_pyrdown_erode(mask);
    mask_pyrdown_from_eroded(&eroded)
}

/// Every mask of a pyramid is the next coarser mask of the one before it.
pub open spec fn is_pyramid(levels: Seq<Mask>) -> bool {
    &&& forall|i: int| 0 <= i < levels.len() ==> (#[trigger] levels[i]).wf()
    &&& forall|i: int, j: int| 0 <= i && j == i + 1 && j < levels.len() ==> is_pyrdown(#[trigger] levels[i], #[trigger] levels[j])
}

/// Continues a pyramid from its finest mask to `levels` masks, at least one.
pub fn mask_pyramid_from(base: Mask, levels: usize) -> (r: Vec<Mask>)
    requires
        base.wf(),
    ensures
        r@.len() == (if levels < 1 {
            1
        } else {
            levels as int
        }),
        r@[0] == base,
        is_pyramid(r@),
{
    let mut out: Vec<Mask> = Vec::new();
    out.push(base);
    let mut level: usize = 1;
    while level < levels
        invariant
            1 <= level,
            level <= levels || level == 1,
            out@.len() == level,
            out@[0] == base,
            is_pyramid(out@),
        decreases levels - level,
    {
        let next: Mask = mask_pyrdown(&out[level - 1]);
        out.push(next);
        level = level + 1;
    }
    out
}

/// The pyramid of the bytes, without its `offset` finest levels.
pub open spec fn is_dyadic_pyramid(
    bytes: Seq<u8>,
    width: int,
    height: int,
    offset: int,
    levels: int,
    r: Seq<Mask>,
) -> bool {
    exists|full: Seq<Mask>|
        {
            &&& #[trigger] is_pyramid(full)
            &&& full.len() == (if offset + levels < 1 {
                1
            } else {
                offset + levels
            })
            &&& is_mask_of_bytes(full[0], bytes, width, height)
            &&& r == full.skip(offset)
        }
}

/// The pyramid of a mask, without its `offset` finest levels.
pub fn build_dyadic_mask_pyramid(bytes: &[u8], width: usize, height: usize, offset: usize, levels: usize) -> (r: Vec<
    Mask,
>)
    requires
        bytes@.len() == width * height,
        offset + levels <= usize::MAX,
    ensures
        is_dyadic_pyramid(bytes@, width as int, height as int, offset as int, levels as int, r@),
{
    let base: Mask = mask_from_bytes(bytes, width, height);
    let full: Vec<Mask> = mask_pyramid_from(base, offset + levels);
    let ghost all = full@;
    let mut rest: Vec<Mask> = full;
    let mut dropped: usize = 0;
    while dropped < offset
        invariant
            dropped <= offset,
            offset <= all.len(),
            rest@ == all.skip(dropped as int),
        decreases offset - dropped,
    {
        let _finest: Mask = rest.remove(0);
        assert(rest@ =~= all.skip(dropped + 1));
        dropped = dropped + 1;
    }
    rest
}

/// A pixel is kept where it and its right, lower and diagonal neighbours are valid.
pub open spec fn is_bilinear_valid(mask: Mask, valid: Mask) -> bool {
    &&& valid.wf()
    &&& valid.width == mask.width
    &&& valid.height == mask.height
    &&& forall|x: int, y: int|
        valid.has(x, y) ==> (#[trigger] valid.set(x, y) <==> x + 1 < mask.width && y + 1 < mask.height && mask.set(
            x,
            y,
        ) && mask.set(x + 1, y) && mask.set(x, y + 1) && mask.set(x + 1, y + 1))
}

/// Where the four pixels of an interpolation are all valid.
pub fn bilinear_valid_image(mask: &Mask) -> (r: Mask)
    requires
        mask.wf(),
    ensures
        is_bilinear_valid(*mask, r),
{
    let w: usize = mask.width;
    let h: usize = mask.height;
    let mut out: Vec<u8> = Vec::with_capacity(mask.data.len());
    let mut y: usize = 0;
    assert(0 * w == 0);
    while y < h
        invariant
            y <= h,
            mask.wf(),
            w == mask.width,
            h == mask.height,
            out@.len() == y * w,
            forall|k: int| 0 <= k < out@.len() ==> (#[trigger] out@[k]) <= 1,
            forall|i: int, j: int|
                #![trigger crate::layout::cell2(w as int, i, j)]
                mask.has(i, j) && crate::layout::cell2(w as int, i, j) < out@.len() ==> (out@[crate::layout::cell2(
                    w as int,
                    i,
                    j,
                )] != 0 <==> i + 1 < w && j + 1 < h && mask.set(i, j) && mask.set(i + 1, j) && mask.set(i, j + 1)
                    && mask.set(i + 1, j + 1)),
        decreases h - y,
    {
        let mut x: usize = 0;
        while x < w
            invariant
                x <= w,
                y < h,
                mask.wf(),
                w == mask.width,
                h == mask.height,
                out@.len() == y * w + x,
                forall|k: int| 0 <= k < out@.len() ==> (#[trigger] out@[k]) <= 1,
                forall|i: int, j: int|
                    #![trigger crate::layout::cell2(w as int, i, j)]
                    mask.has(i, j) && crate::layout::cell2(w as int, i, j) < out@.len() ==> (out@[crate::layout::cell2(
                        w as int,
                        i,
                        j,
                    )] != 0 <==> i + 1 < w && j + 1 < h && mask.set(i, j) && mask.set(i + 1, j) && mask.set(i, j + 1)
                        && mask.set(i + 1, j + 1)),
            decreases w - x,
        {
            let valid: bool = w - x > 1 && h - y > 1 && mask.is_set(x, y) && mask.is_set(x + 1, y) && mask.is_set(
                x,
                y + 1,
            ) && mask.is_set(x + 1, y + 1);
            assert forall|i: int, j: int|
                #![trigger crate::layout::cell2(w as int, i, j)]
                mask.has(i, j) && crate::layout::cell2(w as int, i, j) == out@.len() implies i == x && j == y by {
                crate::layout::lemma_cell2_injective(w as int, i, j, x as int, y as int);
            }
            out.push(if valid { 1 } else { 0 });
            x = x + 1;
        }
        assert((y + 1) * w == y * w + w) by (nonlinear_arith);
        y = y + 1;
    }
    assert(h * w == w * h) by (nonlinear_arith);
    let r: Mask = Mask { width: w, height: h, data: out };
    assert forall|i: int, j: int| r.has(i, j) implies (#[trigger] r.set(i, j) <==> i + 1 < w && j + 1 < h && mask.set(
        i,
        j,
    ) && mask.set(i + 1, j) && mask.set(i, j + 1) && mask.set(i + 1, j + 1)) by {
        crate::layout::lemma_cell2_bound(w as int, h as int, i, j);
    }
    r
}

/// Where the four pixels of an interpolation are all valid, for every level.
pub fn build_bilinear_valid_pyramid(pyramid: &[Mask]) -> (r: Vec<Mask>)
    requires
        forall|i: int| 0 <= i < pyramid@.len() ==> (#[trigger] pyramid@[i]).wf(),
    ensures
        r@.len() == pyramid@.len(),
        forall|i: int| 0 <= i < pyramid@.len() ==> is_bilinear_valid(pyramid@[i], #[trigger] r@[i]),
{
    let mut out: Vec<Mask> = Vec::new();
    let mut i: usize = 0;
    while i < pyramid.len()
        invariant
            i <= pyramid@.len(),
            out@.len() == i,
            forall|k: int| 0 <= k < pyramid@.len() ==> (#[trigger] pyramid@[k]).wf(),
            forall|k: int| 0 <= k < i ==> is_bilinear_valid(pyramid@[k], #[trigger] out@[k]),
        decreases pyramid@.len() - i,
    {
        out.push(bilinear_valid_image(&pyramid[i]));
        i = i + 1;
    }
    out
}

/// Eroding, halving and the interpolation test never make an invalid pixel valid.
pub proof fn law_masks_only_shrink(mask: Mask, eroded: Mask, next: Mask, valid: Mask, x: int, y: int)
    requires
        is_eroded(mask, eroded),
        is_pyrdown(mask, next),
        is_bilinear_valid(mask, valid),
    ensures
        eroded.has(x, y) && eroded.set(x, y) ==> mask.set(x, y),
        valid.has(x, y) && valid.set(x, y) ==> mask.set(x, y),
        next.has(x, y) && next.set(x, y) ==> mask.has(2 * x, 2 * y) && mask.set(2 * x, 2 * y),
{
    if eroded.has(x, y) && eroded.set(x, y) {
        assert(mask.surrounded(x, y));
        assert(mask.set(x, y));
    }
    if next.has(x, y) && next.set(x, y) {
        assert(mask.surrounded(2 * x, 2 * y));
        assert(mask.set(2 * x, 2 * y));
    }
}

/// Testing the square around a pixel and eroding the whole mask say the same of it.
pub proof fn law_erosion_is_the_footprint_test(mask: Mask, eroded: Mask, x: int, y: int)
    requires
        is_eroded(mask, eroded),
        mask.has(x, y),
    ensures
        eroded.set(x, y) <==> mask.surrounded(x, y),
{
    assert(eroded.has(x, y));
}

/// The four pixels that an interpolation at `(u, v)` reads.
#[derive(Clone, Copy, Debug, PartialEq, Eq, Structural)]
pub struct FootprintIndices {
    pub idx00: usize,
    pub idx10: usize,
    pub idx01: usize,
    pub idx11: usize,
}

/// Whether `(u, v)` lies before the first or at or behind the last row or column of an
/// image. Coordinates that are not numbers do not.
pub open spec fn outside_image(u: Real64, v: Real64, width: int, height: int) -> bool {
    u.lt_int(0) || v.lt_int(0) || u.ge_int(width - 1) || v.ge_int(height - 1)
}

/// Column or row that a coordinate falls into; zero for a NaN.
pub open spec fn pixel_index(u: Real64) -> int {
    if u.nan() {
        0
    } else {
        u.truncated()
    }
}

/// The upper left pixel of the interpolation at `(u, v)`; nothing outside the image.
pub fn bilinear_footprint(width: usize, height: usize, u: Real64, v: Real64) -> (r: Option<(usize, usize)>)
    requires
        0 < width <= EXACT_INTEGERS,
        0 < height <= EXACT_INTEGERS,
    ensures
        r is None <==> outside_image(u, v, width as int, height as int),
        r matches Some((x, y)) ==> {
            &&& x == pixel_index(u)
            &&& y == pixel_index(v)
            &&& !u.nan() ==> x + 1 < width
            &&& !v.nan() ==> y + 1 < height
        },
{
    if u.less_than_int(0) || v.less_than_int(0) || u.at_least_int((width - 1) as i64) || v.at_least_int(
        (height - 1) as i64,
    ) {
        return None;
    }
    proof {
        if !u.nan() {
            u.lemma_trunc_below(width - 1);
            u.lemma_trunc_nonnegative();
        }
        if !v.nan() {
            v.lemma_trunc_below(height - 1);
            v.lemma_trunc_nonnegative();
        }
    }
    Some((u.trunc_to_usize(), v.trunc_to_usize()))
}

/// Where a coordinate is not a number, the image has a second column or row to read.
pub open spec fn readable(u: Real64, v: Real64, width: int, height: int) -> bool {
    &&& u.nan() ==> width >= 2
    &&& v.nan() ==> height >= 2
}

/// The four pixels of the interpolation at `(u, v)`; nothing outside the image.
pub fn undistort_sample(u: Real64, v: Real64, width: usize, height: usize) -> (r: Option<FootprintIndices>)
    requires
        0 < width <= EXACT_INTEGERS,
        0 < height <= EXACT_INTEGERS,
        readable(u, v, width as int, height as int),
        width * height <= usize::MAX,
    ensures
        r is None <==> outside_image(u, v, width as int, height as int),
        r matches Some(s) ==> {
            let x = pixel_index(u);
            let y = pixel_index(v);
            &&& s.idx00 == crate::layout::cell2(width as int, x, y)
            &&& s.idx10 == crate::layout::cell2(width as int, x + 1, y)
            &&& s.idx01 == crate::layout::cell2(width as int, x, y + 1)
            &&& s.idx11 == crate::layout::cell2(width as int, x + 1, y + 1)
            &&& s.idx11 < width * height
        },
{
    match bilinear_footprint(width, height, u, v) {
        Some((ix, iy)) => {
            proof {
                crate::layout::lemma_cell2_bound(width as int, height as int, ix + 1, iy + 1);
                crate::layout::lemma_cell2_bound(width as int, height as int, ix + 1, iy as int);
            }
            Some(
                FootprintIndices {
                    idx00: iy * width + ix,
                    idx10: iy * width + ix + 1,
                    idx01: (iy + 1) * width + ix,
                    idx11: (iy + 1) * width + ix + 1,
                },
            )
        },
        None => None,
    }
}

/// Whether the four pixels of the interpolation at `(u, v)` are inside and valid.
pub open spec fn footprint_valid(mask: Mask, u: Real64, v: Real64) -> bool {
    let x = pixel_index(u);
    let y = pixel_index(v);
    &&& !outside_image(u, v, mask.width as int, mask.height as int)
    &&& mask.set(x, y)
    &&& mask.set(x + 1, y)
    &&& mask.set(x, y + 1)
    &&& mask.set(x + 1, y + 1)
}

/// Whether the four pixels of the interpolation at `(u, v)` are inside and valid.
pub fn mask_bilinear_footprint_valid(mask: &Mask, u: Real64, v: Real64) -> (r: bool)
    requires
        mask.wf(),
        0 < mask.width <= EXACT_INTEGERS,
        0 < mask.height <= EXACT_INTEGERS,
        readable(u, v, mask.width as int, mask.height as int),
    ensures
        r == footprint_valid(*mask, u, v),
{
    match bilinear_footprint(mask.width, mask.height, u, v) {
        Some((ix, iy)) => mask.is_set(ix, iy) && mask.is_set(ix + 1, iy) && mask.is_set(ix, iy + 1) && mask.is_set(
            ix + 1,
            iy + 1,
        ),
        None => false,
    }
}

/// A mask at another size, which is set where the interpolation at the coordinates of its
/// column and row reads valid pixels only.
pub open spec fn is_scaled_mask(mask: Mask, src_x: Seq<Real64>, src_y: Seq<Real64>, r: Mask) -> bool {
    &&& r.width == src_x.len()
    &&& r.height == src_y.len()
    &&& forall|x: int, y: int|
        r.has(x, y) ==> (#[trigger] r.set(x, y) <==> footprint_valid(mask, src_x[x], src_y[y]))
}

/// A mask at another size: `src_x` and `src_y` hold, for every column and every row, the
/// coordinate that it is taken from.
pub fn scaled_mask(mask: &Mask, src_x: &[Real64], src_y: &[Real64]) -> (r: Mask)
    requires
        mask.wf(),
        0 < mask.width <= EXACT_INTEGERS,
        0 < mask.height <= EXACT_INTEGERS,
        forall|i: int, j: int|
            #![trigger src_x@[i], src_y@[j]]
            0 <= i < src_x@.len() && 0 <= j < src_y@.len() ==> readable(
                src_x@[i],
                src_y@[j],
                mask.width as int,
                mask.height as int,
            ),
    ensures
        r.wf(),
        is_scaled_mask(*mask, src_x@, src_y@, r),
{
    let w: usize = src_x.len();
    let h: usize = src_y.len();
    let mut out: Vec<u8> = Vec::new();
    let mut y: usize = 0;
    assert(0 * w == 0);
    while y < h
        invariant
            y <= h,
            mask.wf(),
            0 < mask.width <= EXACT_INTEGERS,
            0 < mask.height <= EXACT_INTEGERS,
            forall|i: int, j: int|
                #![trigger src_x@[i], src_y@[j]]
                0 <= i < src_x@.len() && 0 <= j < src_y@.len() ==> readable(
                    src_x@[i],
                    src_y@[j],
                    mask.width as int,
                    mask.height as int,
                ),
            w == src_x@.len(),
            h == src_y@.len(),
            out@.len() == y * w,
            forall|k: int| 0 <= k < out@.len() ==> (#[trigger] out@[k]) <= 1,
            forall|i: int, j: int|
                #![trigger crate::layout::cell2(w as int, i, j)]
                0 <= i < w && 0 <= j < h && crate::layout::cell2(w as int, i, j) < out@.len() ==> (
                out@[crate::layout::cell2(w as int, i, j)] != 0 <==> footprint_valid(*mask, src_x@[i], src_y@[j])),
        decreases h - y,
    {
        let mut x: usize = 0;
        while x < w
            invariant
                x <= w,
                y < h,
                mask.wf(),
                0 < mask.width <= EXACT_INTEGERS,
                0 < mask.height <= EXACT_INTEGERS,
                forall|i: int, j: int|
                    #![trigger src_x@[i], src_y@[j]]
                    0 <= i < src_x@.len() && 0 <= j < src_y@.len() ==> readable(
                        src_x@[i],
                        src_y@[j],
                        mask.width as int,
                        mask.height as int,
                    ),
                w == src_x@.len(),
                h == src_y@.len(),
                out@.len() == y * w + x,
                forall|k: int| 0 <= k < out@.len() ==> (#[trigger] out@[k]) <= 1,
                forall|i: int, j: int|
                    #![trigger crate::layout::cell2(w as int, i, j)]
                    0 <= i < w && 0 <= j < h && crate::layout::cell2(w as int, i, j) < out@.len() ==> (
                    out@[crate::layout::cell2(w as int, i, j)] != 0 <==> footprint_valid(*mask, src_x@[i], src_y@[j])),
            decreases w - x,
        {
            let valid: bool = mask_bilinear_footprint_valid(mask, src_x[x], src_y[y]);
            assert forall|i: int, j: int|
                #![trigger crate::layout::cell2(w as int, i, j)]
                0 <= i < w && 0 <= j < h && crate::layout::cell2(w as int, i, j) == out@.len() implies i == x && j
                == y by {
                crate::layout::lemma_cell2_injective(w as int, i, j, x as int, y as int);
            }
            out.push(if valid { 1 } else { 0 });
            x = x + 1;
        }
        assert((y + 1) * w == y * w + w) by (nonlinear_arith);
        y = y + 1;
    }
    assert(h * w == w * h) by (nonlinear_arith);
    let r: Mask = Mask { width: w, height: h, data: out };
    assert forall|i: int, j: int| r.has(i, j) implies (#[trigger] r.set(i, j) <==> footprint_valid(
        *mask,
        src_x@[i],
        src_y@[j],
    )) by {
        crate::layout::lemma_cell2_bound(w as int, h as int, i, j);
    }
    r
}

/// The pyramid of a mask at a working scale. Where the scale is a power of one half, the
/// pyramid starts `offset` levels below the mask; else at the mask that is taken from the
/// coordinates `src_x` and `src_y`.
pub fn build_mask_pyramid(
    bytes: &[u8],
    width: usize,
    height: usize,
    offset: Option<usize>,
    src_x: &[Real64],
    src_y: &[Real64],
    levels: usize,
) -> (r: Vec<Mask>)
    requires
        bytes@.len() == width * height,
        offset matches Some(offset) ==> offset + levels <= usize::MAX,
        offset is None ==> {
            &&& 0 < width <= EXACT_INTEGERS
            &&& 0 < height <= EXACT_INTEGERS
            &&& forall|i: int, j: int|
                #![trigger src_x@[i], src_y@[j]]
                0 <= i < src_x@.len() && 0 <= j < src_y@.len() ==> readable(
                    src_x@[i],
                    src_y@[j],
                    width as int,
                    height as int,
                )
        },
    ensures
        offset matches Some(offset) ==> is_dyadic_pyramid(
            bytes@,
            width as int,
            height as int,
            offset as int,
            levels as int,
            r@,
        ),
        offset is None ==> {
            &&& is_pyramid(r@)
            &&& r@.len() == (if levels < 1 {
                1
            } else {
                levels as int
            })
            &&& exists|mask: Mask|
                #[trigger] is_mask_of_bytes(mask, bytes@, width as int, height as int) && is_scaled_mask(
                    mask,
                    src_x@,
                    src_y@,
                    r@[0],
                )
        },
{
    match offset {
        Some(offset) => build_dyadic_mask_pyramid(bytes, width, height, offset, levels),
        None => {
            let mask: Mask = mask_from_bytes(bytes, width, height);
            let base: Mask = scaled_mask(&mask, src_x, src_y);
            mask_pyramid_from(base, levels)
        },
    }
}

/// The upper left pixel of a patch whose upper left corner is at `(u0, v0)`, where the
/// patch and one more column and row lie inside the image.
pub fn bilinear_patch_footprint(width: usize, height: usize, u0: Real64, v0: Real64, patch_size: usize) -> (r: Option<
    (usize, usize),
>)
    requires
        pixel_index(u0) + patch_size <= usize::MAX,
        pixel_index(v0) + patch_size <= usize::MAX,
    ensures
        r is Some <==> !u0.lt_int(0) && !v0.lt_int(0) && pixel_index(u0) + patch_size < width && pixel_index(v0)
            + patch_size < height,
        r matches Some((x, y)) ==> x == pixel_index(u0) && y == pixel_index(v0),
{
    if u0.less_than_int(0) || v0.less_than_int(0) {
        return None;
    }
    proof {
        if !u0.nan() {
            u0.lemma_trunc_nonnegative();
        }
        if !v0.nan() {
            v0.lemma_trunc_nonnegative();
        }
    }
    let x: usize = u0.trunc_to_usize();
    let y: usize = v0.trunc_to_usize();
    if x + patch_size >= width || y + patch_size >= height {
        return None;
    }
    Some((x, y))
}

/// The pixel that `(u, v)` falls into, where that is inside the image. Coordinates are cut
/// off towards zero.
pub open spec fn nearest_inside(u: Real64, v: Real64, width: int, height: int) -> bool {
    0 <= pixel_index(u) < width && 0 <= pixel_index(v) < height
}

/// The pixel that `(u, v)` falls into; nothing outside the image.
pub fn sample_nearest(width: usize, height: usize, u: Real64, v: Real64) -> (r: Option<(usize, usize)>)
    requires
        width <= isize::MAX,
        height <= isize::MAX,
    ensures
        r is Some <==> nearest_inside(u, v, width as int, height as int),
        r matches Some((x, y)) ==> x == pixel_index(u) && y == pixel_index(v),
{
    let x: i64 = u.trunc_to_i64();
    let y: i64 = v.trunc_to_i64();
    if x < 0 || y < 0 || x >= width as i64 || y >= height as i64 {
        return None;
    }
    Some((x as usize, y as usize))
}

/// Whether the pixel that `(u, v)` falls into is inside and valid; without a mask every
/// pixel is.
pub fn sample_valid_nearest(mask: Option<&Mask>, u: Real64, v: Real64) -> (r: bool)
    requires
        mask matches Some(m) ==> m.wf() && m.width <= isize::MAX && m.height <= isize::MAX,
    ensures
        mask is None ==> r,
        mask matches Some(m) ==> r == (nearest_inside(u, v, m.width as int, m.height as int) && m.set(
            pixel_index(u),
            pixel_index(v),
        )),
{
    match mask {
        None => true,
        Some(m) => match sample_nearest(m.width, m.height, u, v) {
            Some((x, y)) => m.is_set(x, y),
            None => false,
        },
    }
}

/// Whether an interpolation may read from a pixel on; without a mask it may.
pub fn valid_bilinear_footprint(mask: Option<&Mask>, x: usize, y: usize) -> (r: bool)
    requires
        mask matches Some(m) ==> m.wf() && m.has(x as int, y as int),
    ensures
        mask is None ==> r,
        mask matches Some(m) ==> r == m.set(x as int, y as int),
{
    match mask {
        None => true,
        Some(m) => m.is_set(x, y),
    }
}

/// The four pixels of an interpolation at `(u, v)` within an image, where the last column
/// and row stand in for what would follow them.
pub fn clamped_footprint(width: usize, height: usize, u: Real64, v: Real64) -> (r: FootprintIndices)
    requires
        width > 0,
        height > 0,
        width * height <= usize::MAX,
        0 <= pixel_index(u) < width,
        0 <= pixel_index(v) < height,
        !u.lt_int(0),
        !v.lt_int(0),
    ensures
        ({
            let x = pixel_index(u);
            let y = pixel_index(v);
            let x1 = if x + 1 < width {
                x + 1
            } else {
                width - 1
            };
            let y1 = if y + 1 < height {
                y + 1
            } else {
                height - 1
            };
            &&& r.idx00 == crate::layout::cell2(width as int, x, y)
            &&& r.idx10 == crate::layout::cell2(width as int, x1, y)
            &&& r.idx01 == crate::layout::cell2(width as int, x, y1)
            &&& r.idx11 == crate::layout::cell2(width as int, x1, y1)
            &&& r.idx11 < width * height
        }),
{
    proof {
        if !u.nan() {
            u.lemma_trunc_nonnegative();
        }
        if !v.nan() {
            v.lemma_trunc_nonnegative();
        }
    }
    let ix: usize = u.trunc_to_usize();
    let iy: usize = v.trunc_to_usize();
    assert(ix == pixel_index(u) && iy == pixel_index(v));
    let ix1: usize = if ix + 1 < width { ix + 1 } else { width - 1 };
    let iy1: usize = if iy + 1 < height { iy + 1 } else { height - 1 };
    proof {
        crate::layout::lemma_cell2_bound(width as int, height as int, ix1 as int, iy1 as int);
        crate::layout::lemma_cell2_bound(width as int, height as int, ix1 as int, iy as int);
        crate::layout::lemma_cell2_bound(width as int, height as int, ix as int, iy1 as int);
        crate::layout::lemma_cell2_bound(width as int, height as int, ix as int, iy as int);
    }
    FootprintIndices {
        idx00: iy * width + ix,
        idx10: iy * width + ix1,
        idx01: iy1 * width + ix,
        idx11: iy1 * width + ix1,
    }
}

/// Which power of one half a scale is, up to the eighth, from its distances to them:
/// the first distance of at most 1e-12 counts.
pub fn dyadic_scale_offset(distances: &[Real64; 9]) -> (r: Option<usize>)
    ensures
        r matches Some(k) ==> k < 9 && distances[k as int].le(real64(0x3D71_9799_812D_EA11)) && forall|j: int|
            0 <= j < k ==> !(#[trigger] distances[j]).le(real64(0x3D71_9799_812D_EA11)),
        r is None ==> forall|j: int|
            0 <= j < 9 ==> !(#[trigger] distances[j]).le(real64(0x3D71_9799_812D_EA11)),
{
    let tolerance: Real64 = real64(0x3D71_9799_812D_EA11);
    let mut k: usize = 0;
    while k < 9
        invariant
            k <= 9,
            tolerance == real64(0x3D71_9799_812D_EA11),
            forall|j: int| 0 <= j < k ==> !(#[trigger] distances[j]).le(tolerance),
        decreases 9 - k,
    {
        if distances[k].at_most(tolerance) {
            return Some(k);
        }
        k = k + 1;
    }
    None
}

/// Length of an axis of a level: halved once for each level above the finest, at least one
/// pixel.
pub open spec fn level_length(len: int, level: nat) -> int {
    if level == 0 {
        len
    } else if len / vstd::arithmetic::power2::pow2(level) as int > 1 {
        len / vstd::arithmetic::power2::pow2(level) as int
    } else {
        1
    }
}

/// The length of an axis of a level.
pub fn level_size(len: usize, level: usize) -> (r: usize)
    ensures
        r == level_length(len as int, level as nat),
{
    let mut r: usize = len;
    let mut k: usize = 0;
    while k < level
        invariant
            k <= level,
            r == level_length(len as int, k as nat),
        decreases level - k,
    {
        proof {
            let p = vstd::arithmetic::power2::pow2(k as nat) as int;
            vstd::arithmetic::power2::lemma_pow2_pos(k as nat);
            vstd::arithmetic::power2::lemma_pow2_unfold((k + 1) as nat);
            if k == 0 {
                vstd::arithmetic::power2::lemma2_to64();
            }
            vstd::arithmetic::div_mod::lemma_div_denominator(len as int, p, 2);
            assert(p * 2 == vstd::arithmetic::power2::pow2((k + 1) as nat));
        }
        r = if r / 2 > 1 { r / 2 } else { 1 };
        k = k + 1;
    }
    r
}

/// Levels of a level are levels: halving `a` times and then `b` times is halving `a + b` times.
pub proof fn law_levels_compose(len: int, a: nat, b: nat)
    requires
        len >= 0,
    ensures
        level_length(level_length(len, a), b) == level_length(len, a + b),
{
    let (p, q) = (vstd::arithmetic::power2::pow2(a) as int, vstd::arithmetic::power2::pow2(b) as int);
    vstd::arithmetic::power2::lemma_pow2_pos(a);
    vstd::arithmetic::power2::lemma_pow2_pos(b);
    vstd::arithmetic::power2::lemma_pow2_adds(a, b);
    vstd::arithmetic::div_mod::lemma_div_denominator(len, p, q);
    if a > 0 && b > 0 && len / p <= 1 {
        vstd::arithmetic::div_mod::lemma_div_pos_is_pos(len, p);
        assert(len / p / q <= 1 && 1int / q <= 1) by (nonlinear_arith)
            requires
                0 <= len / p <= 1,
                q >= 1,
        ;
    }
}

/// The two pixels along an axis whose difference is the gradient at a pixel; none at the ends,
/// where the gradient is zero.
pub fn gradient_neighbours(at: usize, len: usize) -> (r: Option<(usize, usize)>)
    ensures
        r is Some <==> 1 <= at < len - 1,
        r matches Some(p) ==> p.0 == at - 1 && p.1 == at + 1 && p.1 < len,
{
    if len >= 3 && at >= 1 && at < len - 1 {
        Some((at - 1, at + 1))
    } else {
        None
    }
}

/// A mask is set where the byte of its pixel is not zero, row by row.
pub proof fn law_mask_follows_the_bytes(bytes: &[u8], width: usize, height: usize, r: Mask, x: int, y: int)
    requires
        bytes@.len() == width * height,
        call_ensures(mask_from_bytes, (bytes, width, height), r),
        0 <= x < width,
        0 <= y < height,
    ensures
        r.width == width,
        r.height == height,
        r.set(x, y) <==> bytes@[y * width + x] != 0,
        r.set(x, y) <==> r.data@[y * width + x] != 0,
{
    assert(r.has(x, y));
}

/// A pixel of an eroded mask is set exactly where all twenty-five pixels around it lie in the
/// mask and are set there.
pub proof fn law_erosion_needs_the_whole_window(mask: &Mask, r: Mask, x: int, y: int)
    requires
        mask.wf(),
        call_ensures(mask_pyrdown_erode, (mask,), r),
        0 <= x < mask.width,
        0 <= y < mask.height,
    ensures
        r.width == mask.width,
        r.height == mask.height,
        r.set(x, y) ==> forall|dx: int, dy: int|
            -2 <= dx <= 2 && -2 <= dy <= 2 ==> mask.has(#[trigger] (x + dx), #[trigger] (y + dy)) && mask.set(
                x + dx,
                y + dy,
            ),
        !r.set(x, y) ==> exists|dx: int, dy: int|
            -2 <= dx <= 2 && -2 <= dy <= 2 && !(mask.has(#[trigger] (x + dx), #[trigger] (y + dy)) && mask.set(
                x + dx,
                y + dy,
            )),
{
    assert(r.has(x, y));
    if r.set(x, y) {
        assert(mask.surrounded(x, y));
        assert forall|dx: int, dy: int| -2 <= dx <= 2 && -2 <= dy <= 2 implies mask.has(
            #[trigger] (x + dx),
            #[trigger] (y + dy),
        ) && mask.set(x + dx, y + dy) by {
        }
    } else {
        if x < 2 {
            assert(!mask.has(x + -2, y + 0));
        } else if x + 2 >= mask.width {
            assert(!mask.has(x + 2, y + 0));
        } else if y < 2 {
            assert(!mask.has(x + 0, y + -2));
        } else if y + 2 >= mask.height {
            assert(!mask.has(x + 0, y + 2));
        } else {
            let (i, j) = choose|i: int, j: int|
                x - 2 <= i <= x + 2 && y - 2 <= j <= y + 2 && !(#[trigger] mask.set(i, j));
            assert(!mask.set(x + (i - x), y + (j - y)));
        }
    }
}

/// A pixel of the next coarser mask is set exactly where the window of twenty-five pixels around
/// its place in the finer mask lies inside and is set; the coarser mask has half the size,
/// rounded down, and at least one pixel.
pub proof fn law_coarser_pixels_need_the_whole_window(mask: &Mask, r: Mask, x: int, y: int)
    requires
        mask.wf(),
        call_ensures(mask_pyrdown, (mask,), r),
        0 <= x < r.width,
        0 <= y < r.height,
    ensures
        mask.width >= 2 ==> 2 * r.width <= mask.width < 2 * r.width + 2,
        mask.width < 2 ==> r.width == 1,
        mask.height >= 2 ==> 2 * r.height <= mask.height < 2 * r.height + 2,
        mask.height < 2 ==> r.height == 1,
        r.set(x, y) ==> 2 <= 2 * x && 2 * x + 2 < mask.width && 2 <= 2 * y && 2 * y + 2 < mask.height,
        r.set(x, y) ==> forall|i: int, j: int|
            2 * x - 2 <= i <= 2 * x + 2 && 2 * y - 2 <= j <= 2 * y + 2 ==> #[trigger] mask.set(i, j),
        (2 <= 2 * x && 2 * x + 2 < mask.width && 2 <= 2 * y && 2 * y + 2 < mask.height && forall|i: int, j: int|
            2 * x - 2 <= i <= 2 * x + 2 && 2 * y - 2 <= j <= 2 * y + 2 ==> #[trigger] mask.set(i, j)) ==> r.set(x, y),
{
    assert(r.has(x, y));
}

/// An interpolation may read at a pixel exactly where it and its neighbours to the right, below
/// and below to the right lie in the mask and are set.
pub proof fn law_interpolation_needs_four_pixels(mask: &Mask, r: Mask, x: int, y: int)
    requires
        mask.wf(),
        call_ensures(bilinear_valid_image, (mask,), r),
        0 <= x < mask.width,
        0 <= y < mask.height,
    ensures
        r.width == mask.width,
        r.height == mask.height,
        r.set(x, y) <==> forall|dx: int, dy: int|
            0 <= dx <= 1 && 0 <= dy <= 1 ==> mask.has(#[trigger] (x + dx), #[trigger] (y + dy)) && mask.set(
                x + dx,
                y + dy,
            ),
{
    assert(r.has(x, y));
    let all = forall|dx: int, dy: int|
        0 <= dx <= 1 && 0 <= dy <= 1 ==> mask.has(#[trigger] (x + dx), #[trigger] (y + dy)) && mask.set(x + dx, y + dy);
    if all {
        assert(mask.has(x + 0, y + 0) && mask.has(x + 1, y + 0) && mask.has(x + 0, y + 1) && mask.has(x + 1, y + 1));
        assert(mask.set(x + 0, y + 0) && mask.set(x + 1, y + 0) && mask.set(x + 0, y + 1) && mask.set(x + 1, y + 1));
    }
}

/// An interpolation at a point reads the pixel the point lies in and the next ones: the point is
/// not before that pixel and before the next one, along both axes, and the next pixels still lie
/// in the image. Where there are no such pixels nothing is read.
pub proof fn law_footprint_lies_around_the_point(
    width: usize,
    height: usize,
    u: Real64,
    v: Real64,
    r: Option<(usize, usize)>,
)
    requires
        0 < width <= EXACT_INTEGERS,
        0 < height <= EXACT_INTEGERS,
        call_ensures(bilinear_footprint, (width, height, u, v), r),
        !u.nan(),
        !v.nan(),
    ensures
        r is Some <==> u.ge_int(0) && u.lt_int(width - 1) && v.ge_int(0) && v.lt_int(height - 1),
        r matches Some((x, y)) ==> {
            &&& u.ge_int(x as int)
            &&& u.lt_int(x + 1)
            &&& v.ge_int(y as int)
            &&& v.lt_int(y + 1)
            &&& x + 1 < width
            &&& y + 1 < height
        },
{
    if let Some((x, y)) = r {
        u.lemma_trunc_nonnegative();
        v.lemma_trunc_nonnegative();
        u.lemma_floor_compares(x as int);
        u.lemma_floor_compares(x + 1);
        v.lemma_floor_compares(y as int);
        v.lemma_floor_compares(y + 1);
    }
}

/// A footprint in a mask is valid exactly where an interpolation reads inside it, and only at
/// pixels that are set.
pub proof fn law_valid_footprint_is_set(mask: &Mask, u: Real64, v: Real64, r: bool)
    requires
        mask.wf(),
        0 < mask.width <= EXACT_INTEGERS,
        0 < mask.height <= EXACT_INTEGERS,
        readable(u, v, mask.width as int, mask.height as int),
        call_ensures(mask_bilinear_footprint_valid, (mask, u, v), r),
        !u.nan(),
        !v.nan(),
    ensures
        ({
            let (x, y) = (u.floored(), v.floored());
            r <==> u.ge_int(0) && u.lt_int(mask.width - 1) && v.ge_int(0) && v.lt_int(mask.height - 1) && mask.set(x, y)
                && mask.set(x + 1, y) && mask.set(x, y + 1) && mask.set(x + 1, y + 1)
        }),
{
    if u.ge_int(0) && v.ge_int(0) {
        u.lemma_trunc_nonnegative();
        v.lemma_trunc_nonnegative();
    }
}

/// The nearest pixel of a point is found where its coordinates, cut off towards zero, lie in the
/// image: from above minus one to below the size. It is then the pixel they are cut off to.
pub proof fn law_nearest_pixel_is_cut_off(
    width: usize,
    height: usize,
    u: Real64,
    v: Real64,
    r: Option<(usize, usize)>,
)
    requires
        width <= isize::MAX,
        height <= isize::MAX,
        call_ensures(sample_nearest, (width, height, u, v), r),
        u.ge_int(0),
        v.ge_int(0),
    ensures
        r is Some <==> u.lt_int(width as int) && v.lt_int(height as int),
        r matches Some((x, y)) ==> u.ge_int(x as int) && u.lt_int(x + 1) && v.ge_int(y as int) && v.lt_int(y + 1),
{
    u.lemma_trunc_nonnegative();
    v.lemma_trunc_nonnegative();
    u.lemma_floor_compares(width as int);
    v.lemma_floor_compares(height as int);
    if let Some((x, y)) = r {
        u.lemma_floor_compares(x as int);
        u.lemma_floor_compares(x + 1);
        v.lemma_floor_compares(y as int);
        v.lemma_floor_compares(y + 1);
    }
}

/// A level has half the length of the one before it, rounded down, and at least one pixel; the
/// first level has the whole length.
pub proof fn law_each_level_is_half_as_long(len: usize, zero: usize, one: usize)
    requires
        call_ensures(level_size, (len, 0usize), zero),
        call_ensures(level_size, (len, 1usize), one),
    ensures
        zero == len,
        len >= 2 ==> 2 * one <= len < 2 * one + 2,
        len < 2 ==> one == 1,
{
    vstd::arithmetic::power2::lemma2_to64();
}

/// A pyramid of masks that starts some levels down is the rest of the one that starts with the
/// bytes themselves: without any offset its first mask is that of the bytes.
pub proof fn law_pyramid_starts_with_the_bytes(
    bytes: &[u8],
    width: usize,
    height: usize,
    levels: usize,
    r: Vec<Mask>,
    x: int,
    y: int,
)
    requires
        bytes@.len() == width * height,
        levels >= 1,
        call_ensures(build_dyadic_mask_pyramid, (bytes, width, height, 0usize, levels), r),
        0 <= x < width,
        0 <= y < height,
    ensures
        r@.len() == levels,
        r@[0].set(x, y) <==> bytes@[y * width + x] != 0,
{
    let full = choose|full: Seq<Mask>|
        {
            &&& #[trigger] is_pyramid(full)
            &&& full.len() == (if 0 + levels < 1 {
                1
            } else {
                0 + levels
            })
            &&& is_mask_of_bytes(full[0], bytes@, width as int, height as int)
            &&& r@ == full.skip(0)
        };
    assert(full[0].has(x, y));
    assert(r@[0] == full[0]);
}

/// An offset leaves out the first levels of a pyramid and keeps the others.
pub proof fn law_offset_leaves_out_levels(
    bytes: Seq<u8>,
    width: int,
    height: int,
    offset: int,
    levels: int,
    r: Seq<Mask>,
)
    requires
        0 <= offset,
        1 <= levels,
        is_dyadic_pyramid(bytes, width, height, offset, levels, r),
    ensures
        r.len() == levels,
        exists|full: Seq<Mask>|
            {
                &&& #[trigger] is_pyramid(full)
                &&& full.len() == offset + levels
                &&& is_mask_of_bytes(full[0], bytes, width, height)
                &&& forall|i: int| 0 <= i < levels ==> #[trigger] r[i] == full[offset + i]
            },
{
    let full = choose|full: Seq<Mask>|
        {
            &&& #[trigger] is_pyramid(full)
            &&& full.len() == (if offset + levels < 1 {
                1
            } else {
                offset + levels
            })
            &&& is_mask_of_bytes(full[0], bytes, width, height)
            &&& r == full.skip(offset)
        };
    assert(is_pyramid(full));
}

/// Every level of a pyramid of masks comes from the one before it: it has half the size, and a
/// pixel is set where the whole window around its place in the finer level is.
pub proof fn law_each_mask_comes_from_the_finer_one(base: Mask, levels: usize, r: Vec<Mask>, i: int, x: int, y: int)
    requires
        base.wf(),
        call_ensures(mask_pyramid_from, (base, levels), r),
        0 <= i,
        i + 1 < r@.len(),
        0 <= x < r@[i + 1].width,
        0 <= y < r@[i + 1].height,
    ensures
        r@.len() == levels || (levels == 0 && r@.len() == 1),
        r@[0] == base,
        r@[i].width >= 2 ==> 2 * r@[i + 1].width <= r@[i].width < 2 * r@[i + 1].width + 2,
        r@[i].height >= 2 ==> 2 * r@[i + 1].height <= r@[i].height < 2 * r@[i + 1].height + 2,
        r@[i + 1].set(x, y) <==> r@[i].surrounded(2 * x, 2 * y),
{
    assert(is_pyrdown(r@[i], r@[i + 1]));
    assert(r@[i + 1].has(x, y));
}

/// A mask at another size has a column for every coordinate across and a row for every one down;
/// a pixel of it is set where the coordinates stand on the mask with a pixel behind them, and the
/// four pixels around them are set.
pub proof fn law_scaled_mask_reads_four_pixels(
    mask: &Mask,
    src_x: &[Real64],
    src_y: &[Real64],
    r: Mask,
    i: int,
    j: int,
    x: int,
    y: int,
)
    requires
        mask.wf(),
        0 < mask.width <= EXACT_INTEGERS,
        0 < mask.height <= EXACT_INTEGERS,
        call_ensures(scaled_mask, (mask, src_x, src_y), r),
        0 <= i < src_x@.len(),
        0 <= j < src_y@.len(),
        x == pixel_index(src_x@[i]),
        y == pixel_index(src_y@[j]),
    ensures
        r.width == src_x@.len() && r.height == src_y@.len(),
        r.set(i, j) <==> !outside_image(src_x@[i], src_y@[j], mask.width as int, mask.height as int) && mask.set(x, y)
            && mask.set(x + 1, y) && mask.set(x, y + 1) && mask.set(x + 1, y + 1),
{
    assert(r.has(i, j));
}

/// A patch is read where its corner is not before the image and its last column and row, with one
/// more, still lie in it; it is read from the pixel that its corner falls into.
pub proof fn law_patch_with_its_neighbours_lies_inside(
    width: usize,
    height: usize,
    u0: Real64,
    v0: Real64,
    patch_size: usize,
    r: Option<(usize, usize)>,
    x: int,
    y: int,
)
    requires
        pixel_index(u0) + patch_size <= usize::MAX,
        pixel_index(v0) + patch_size <= usize::MAX,
        call_ensures(bilinear_patch_footprint, (width, height, u0, v0, patch_size), r),
    ensures
        u0.lt_int(0) || v0.lt_int(0) ==> r is None,
        r matches Some(corner) ==> {
            &&& corner.0 == pixel_index(u0) && corner.1 == pixel_index(v0)
            &&& corner.0 <= x <= corner.0 + patch_size ==> x < width
            &&& corner.1 <= y <= corner.1 + patch_size ==> y < height
        },
        r is None && !u0.lt_int(0) && !v0.lt_int(0) ==> pixel_index(u0) + patch_size >= width || pixel_index(v0)
            + patch_size >= height,
{
}

/// Without a mask everything may be read. With one, a point is valid where the pixel that it
/// falls into is set, and an interpolation where the pixel that it starts from is.
pub proof fn law_mask_decides_what_is_read(
    m: &Mask,
    u: Real64,
    v: Real64,
    x: usize,
    y: usize,
    near: bool,
    near_free: bool,
    from: bool,
    from_free: bool,
)
    requires
        m.wf() && m.width <= isize::MAX && m.height <= isize::MAX,
        m.has(x as int, y as int),
        call_ensures(sample_valid_nearest, (Some(m), u, v), near),
        call_ensures(sample_valid_nearest, (None, u, v), near_free),
        call_ensures(valid_bilinear_footprint, (Some(m), x, y), from),
        call_ensures(valid_bilinear_footprint, (None, x, y), from_free),
    ensures
        near_free && from_free,
        near <==> 0 <= pixel_index(u) < m.width && 0 <= pixel_index(v) < m.height && m.set(
            pixel_index(u),
            pixel_index(v),
        ),
        from <==> m.set(x as int, y as int),
{
}

/// The four pixels of a limited interpolation are those of the point and their successors, and at
/// the last column and row the pixels themselves again.
pub proof fn law_limited_footprint_ends_at_the_border(
    width: usize,
    height: usize,
    u: Real64,
    v: Real64,
    r: FootprintIndices,
)
    requires
        width > 0,
        height > 0,
        width * height <= usize::MAX,
        0 <= pixel_index(u) < width,
        0 <= pixel_index(v) < height,
        !u.lt_int(0),
        !v.lt_int(0),
        call_ensures(clamped_footprint, (width, height, u, v), r),
    ensures
        pixel_index(u) + 1 < width ==> r.idx10 == r.idx00 + 1 && r.idx11 == r.idx01 + 1,
        pixel_index(u) + 1 == width ==> r.idx10 == r.idx00 && r.idx11 == r.idx01,
        pixel_index(v) + 1 < height ==> r.idx01 == r.idx00 + width && r.idx11 == r.idx10 + width,
        pixel_index(v) + 1 == height ==> r.idx01 == r.idx00 && r.idx11 == r.idx10,
        r.idx00 == pixel_index(v) * width + pixel_index(u),
{
    let y = pixel_index(v);
    assert((y + 1) * width == y * width + width) by (nonlinear_arith);
}

/// The power of a scale is the first whose distance is at most 1e-12; a gradient is taken between
/// the two neighbours of a pixel, and nowhere at the ends.
pub proof fn law_first_near_power_and_both_neighbours(
    distances: &[Real64; 9],
    power: Option<usize>,
    at: usize,
    len: usize,
    sides: Option<(usize, usize)>,
    j: int,
)
    requires
        call_ensures(dyadic_scale_offset, (distances,), power),
        call_ensures(gradient_neighbours, (at, len), sides),
        0 <= j < 9,
    ensures
        power matches Some(k) ==> {
            &&& k < 9 && distances[k as int].le(Real64 { bits: 0x3D71_9799_812D_EA11 })
            &&& distances[j].le(Real64 { bits: 0x3D71_9799_812D_EA11 }) ==> k <= j
        },
        sides is None <==> at == 0 || at + 1 >= len,
        sides matches Some(p) ==> p.0 + 1 == at && at + 1 == p.1 && p.1 < len,
{
}

} // verus!
