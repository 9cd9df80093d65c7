//! Tables that say where the pixels of an undistorted image are read in a raw one.
use vstd::prelude::*;
use crate::depth::patch_depth::image_ops::{FootprintIndices, Mask};
use crate::ieee::{zero32, Real32};

verus! {

/// Where one pixel is read: four positions in the raw image, with their weights.
#[derive(Clone, Copy, Debug, PartialEq)]
pub struct UndistortSample {
    pub at: FootprintIndices,
    pub w00: Real32,
    pub w10: Real32,
    pub w01: Real32,
    pub w11: Real32,
}

impl UndistortSample {
    /// All four positions lie in an image of so many pixels.
    pub open spec fn within(self, pixels: int) -> bool {
        &&& self.at.idx00 < pixels
        &&& self.at.idx10 < pixels
        &&& self.at.idx01 < pixels
        &&& self.at.idx11 < pixels
    }
}

/// One entry of a table: as a sample, or all zero for a pixel that is not read.
#[derive(Clone, Copy, Debug, PartialEq)]
pub struct LutEntry {
    pub idx00: u32,
    pub idx10: u32,
    pub idx01: u32,
    pub idx11: u32,
    pub w00: Real32,
    pub w10: Real32,
    pub w01: Real32,
    pub w11: Real32,
    pub valid: u8,
}

/// The entry of a sample.
pub open spec fn entry_of(sample: Option<UndistortSample>) -> LutEntry {
    match sample {
        Some(s) => LutEntry {
            idx00: s.at.idx00 as u32,
            idx10: s.at.idx10 as u32,
            idx01: s.at.idx01 as u32,
            idx11: s.at.idx11 as u32,
            w00: s.w00,
            w10: s.w10,
            w01: s.w01,
            w11: s.w11,
            valid: 1,
        },
        None => LutEntry {
            idx00: 0,
            idx10: 0,
            idx01: 0,
            idx11: 0,
            w00: zero32(),
            w10: zero32(),
            w01: zero32(),
            w11: zero32(),
            valid: 0,
        },
    }
}

/// A table for an image of `width` by `height` pixels that is read in one of `src_width` by
/// `src_height`.
#[derive(Clone, Debug)]
pub struct UndistortLut {
    width: usize,
    height: usize,
    src_width: usize,
    src_height: usize,
    entries: Vec<LutEntry>,
}

impl UndistortLut {
    pub closed spec fn table(self) -> Seq<LutEntry> {
        self.entries@
    }

    pub closed spec fn columns(self) -> int {
        self.width as int
    }

    pub closed spec fn lines(self) -> int {
        self.height as int
    }

    pub closed spec fn source_pixels(self) -> int {
        self.src_width * self.src_height
    }

    /// There is an entry for each pixel, marked zero or one, and none that is marked reads
    /// beyond the raw image.
    pub open spec fn wf(self) -> bool {
        &&& self.columns() >= 0
        &&& self.lines() >= 0
        &&& self.table().len() == self.columns() * self.lines()
        &&& forall|i: int| 0 <= i < self.table().len() ==> (#[trigger] self.table()[i]).valid <= 1
        &&& forall|i: int|
            0 <= i < self.table().len() && (#[trigger] self.table()[i]).valid != 0 ==> {
                &&& self.table()[i].idx00 < self.source_pixels()
                &&& self.table()[i].idx10 < self.source_pixels()
                &&& self.table()[i].idx01 < self.source_pixels()
                &&& self.table()[i].idx11 < self.source_pixels()
            }
    }

    /// The table for an image that is read in one of the same size.
    pub fn from_options(samples: &[Option<UndistortSample>], width: usize, height: usize) -> (r: Self)
        requires
            samples@.len() == width * height,
            width * height <= 0x1_0000_0000,
            forall|i: int|
                0 <= i < samples@.len() ==> ((#[trigger] samples@[i]) matches Some(s) ==> s.within(width * height)),
        ensures
            r.wf(),
            r.columns() == width,
            r.lines() == height,
            r.source_pixels() == width * height,
            forall|i: int| 0 <= i < samples@.len() ==> #[trigger] r.table()[i] == entry_of(samples@[i]),
    {
        Self::from_options_with_source(samples, width, height, width, height)
    }

    /// The table of given samples.
    pub fn from_options_with_source(
        samples: &[Option<UndistortSample>],
        width: usize,
        height: usize,
        src_width: usize,
        src_height: usize,
    ) -> (r: Self)
        requires
            samples@.len() == width * height,
            src_width * src_height <= 0x1_0000_0000,
            forall|i: int|
                0 <= i < samples@.len() ==> ((#[trigger] samples@[i]) matches Some(s) ==> s.within(
                    src_width * src_height,
                )),
        ensures
            r.wf(),
            r.columns() == width,
            r.lines() == height,
            r.source_pixels() == src_width * src_height,
            forall|i: int| 0 <= i < samples@.len() ==> #[trigger] r.table()[i] == entry_of(samples@[i]),
    {
        let n: usize = samples.len();
        let mut entries: Vec<LutEntry> = Vec::new();
        let mut i: usize = 0;
        while i < n
            invariant
                i <= n,
                n == samples@.len(),
                src_width * src_height <= 0x1_0000_0000,
                forall|k: int|
                    0 <= k < samples@.len() ==> ((#[trigger] samples@[k]) matches Some(s) ==> s.within(
                        src_width * src_height,
                    )),
                entries@.len() == i,
                forall|k: int| 0 <= k < i ==> #[trigger] entries@[k] == entry_of(samples@[k]),
            decreases n - i,
        {
            let entry: LutEntry = match samples[i] {
                Some(s) => LutEntry {
                    idx00: s.at.idx00 as u32,
                    idx10: s.at.idx10 as u32,
                    idx01: s.at.idx01 as u32,
                    idx11: s.at.idx11 as u32,
                    w00: s.w00,
                    w10: s.w10,
                    w01: s.w01,
                    w11: s.w11,
                    valid: 1,
                },
                None => LutEntry {
                    idx00: 0,
                    idx10: 0,
                    idx01: 0,
                    idx11: 0,
                    w00: zero32(),
                    w10: zero32(),
                    w01: zero32(),
                    w11: zero32(),
                    valid: 0,
                },
            };
            entries.push(entry);
            i = i + 1;
        }
        let r: UndistortLut = UndistortLut { width, height, src_width, src_height, entries };
        assert forall|k: int| 0 <= k < r.table().len() && (#[trigger] r.table()[k]).valid != 0 implies {
            &&& r.table()[k].idx00 < r.source_pixels()
            &&& r.table()[k].idx10 < r.source_pixels()
            &&& r.table()[k].idx01 < r.source_pixels()
            &&& r.table()[k].idx11 < r.source_pixels()
        } by {
            assert(samples@[k] is Some);
        }
        r
    }

    /// The entry of a pixel that is read; nothing for one that is not.
    pub fn entry(&self, i: usize) -> (r: Option<LutEntry>)
        requires
            self.wf(),
            i < self.table().len(),
        ensures
            r == (if self.table()[i as int].valid != 0 {
                Some(self.table()[i as int])
            } else {
                None
            }),
    {
        let e: LutEntry = self.entries[i];
        if e.valid != 0 {
            Some(e)
        } else {
            None
        }
    }

    /// The mask of the pixels that are read.
    pub fn valid_image(&self) -> (r: Mask)
        requires
            self.wf(),
        ensures
            r.wf(),
            r.width == self.columns(),
            r.height == self.lines(),
            forall|x: int, y: int|
                r.has(x, y) ==> (#[trigger] r.set(x, y) <==> self.table()[crate::layout::cell2(self.columns(), x, y)].valid
                    != 0),
    {
        let n: usize = self.entries.len();
        let mut data: Vec<u8> = Vec::new();
        let mut i: usize = 0;
        while i < n
            invariant
                i <= n,
                n == self.table().len(),
                self.wf(),
                data@.len() == i,
                forall|k: int| 0 <= k < i ==> (#[trigger] data@[k]) == self.table()[k].valid,
            decreases n - i,
        {
            data.push(self.entries[i].valid);
            i = i + 1;
        }
        let r: Mask = Mask { width: self.width, height: self.height, data };
        assert forall|x: int, y: int| r.has(x, y) implies (#[trigger] r.set(x, y) <==> self.table()[crate::layout::cell2(
            self.columns(),
            x,
            y,
        )].valid != 0) by {
            crate::layout::lemma_cell2_bound(self.columns(), self.lines(), x, y);
        }
        assert forall|k: int| 0 <= k < r.data@.len() implies (#[trigger] r.data@[k]) <= 1 by {
            assert(self.table()[k].valid <= 1);
        }
        r
    }
}

/// A pixel of the mask is set exactly where the table has a sample for it.
pub proof fn law_mask_is_where_samples_are(samples: Seq<Option<UndistortSample>>, lut: UndistortLut, i: int)
    requires
        lut.table().len() == samples.len(),
        forall|k: int| 0 <= k < samples.len() ==> #[trigger] lut.table()[k] == entry_of(samples[k]),
        0 <= i < samples.len(),
    ensures
        lut.table()[i].valid != 0 <==> samples[i] is Some,
{
    assert(lut.table()[i] == entry_of(samples[i]));
}

/// A table holds each sample in its place: its four pixels and their weights where there is one,
/// and an invalid entry where there is none.
pub proof fn law_table_holds_the_samples(
    samples: &[Option<UndistortSample>],
    width: usize,
    height: usize,
    r: UndistortLut,
    i: int,
)
    requires
        samples@.len() == width * height,
        width * height <= 0x1_0000_0000,
        forall|k: int|
            0 <= k < samples@.len() ==> ((#[trigger] samples@[k]) matches Some(s) ==> s.within(width * height)),
        call_ensures(UndistortLut::from_options, (samples, width, height), r),
        0 <= i < samples@.len(),
    ensures
        r.columns() == width,
        r.lines() == height,
        r.table()[i].valid != 0 <==> samples@[i] is Some,
        samples@[i] matches Some(s) ==> {
            let e = r.table()[i];
            &&& e.idx00 == s.at.idx00
            &&& e.idx10 == s.at.idx10
            &&& e.idx01 == s.at.idx01
            &&& e.idx11 == s.at.idx11
            &&& e.w00 == s.w00
            &&& e.w10 == s.w10
            &&& e.w01 == s.w01
            &&& e.w11 == s.w11
        },
{
    assert(r.table()[i] == entry_of(samples@[i]));
    if let Some(s) = samples@[i] {
        assert(s.within(width * height));
    }
}

/// The mask of a table has its size, and is set where an entry is read.
pub proof fn law_mask_marks_what_is_read(lut: &UndistortLut, r: Mask, x: int, y: int)
    requires
        lut.wf(),
        call_ensures(UndistortLut::valid_image, (lut,), r),
        0 <= x < lut.columns(),
        0 <= y < lut.lines(),
    ensures
        r.width == lut.columns() && r.height == lut.lines(),
        !r.set(x, y) <==> lut.table()[y * lut.columns() + x].valid == 0,
{
    assert(r.has(x, y));
}

} // verus!
