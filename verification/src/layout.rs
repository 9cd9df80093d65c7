//! Row-major layout of two- and three-dimensional grids.
use vstd::prelude::*;

verus! {

/// Position of column `x` of row `y` in a row-major grid of `width` columns.
pub open spec fn cell2(width: int, x: int, y: int) -> int {
    y * width + x
}

/// Position of voxel `(x, y, z)` in a grid of `width` by `height` by layers.
pub open spec fn cell3(width: int, height: int, x: int, y: int, z: int) -> int {
    (z * height + y) * width + x
}

/// A cell inside the grid has a position inside its storage.
pub proof fn lemma_cell2_bound(width: int, height: int, x: int, y: int)
    requires
        0 <= x < width,
        0 <= y < height,
    ensures
        0 <= cell2(width, x, y) < width * height,
        0 <= y * width,
        y * width <= cell2(width, x, y),
        (y + 1) * width <= width * height,
{
    assert(0 <= y * width && y * width + width <= width * height && (y + 1) * width == y * width + width)
        by (nonlinear_arith)
        requires
            0 <= x < width,
            0 <= y < height,
    ;
}

/// Two cells at the same position are the same cell.
pub proof fn lemma_cell2_injective(width: int, x1: int, y1: int, x2: int, y2: int)
    requires
        0 <= x1 < width,
        0 <= x2 < width,
    ensures
        cell2(width, x1, y1) == cell2(width, x2, y2) <==> x1 == x2 && y1 == y2,
{
    if y1 < y2 {
        assert(y1 * width + width <= y2 * width) by (nonlinear_arith)
            requires
                y1 < y2,
                width > 0,
        ;
    }
    if y2 < y1 {
        assert(y2 * width + width <= y1 * width) by (nonlinear_arith)
            requires
                y2 < y1,
                width > 0,
        ;
    }
}

/// Every position of the storage is the position of exactly the cell that division gives.
pub proof fn lemma_cell2_of_position(width: int, height: int, position: int)
    requires
        0 < width,
        0 <= position < width * height,
    ensures
        0 <= position % width < width,
        0 <= position / width < height,
        cell2(width, position % width, position / width) == position,
{
    vstd::arithmetic::div_mod::lemma_fundamental_div_mod(position, width);
    vstd::arithmetic::div_mod::lemma_mod_bound(position, width);
    vstd::arithmetic::div_mod::lemma_div_pos_is_pos(position, width);
    let q = position / width;
    assert(q * width == width * q) by (nonlinear_arith);
    assert(q < height) by (nonlinear_arith)
        requires
            width * q <= position,
            position < width * height,
            width > 0,
    ;
}

/// A voxel inside the grid has a position inside its storage.
pub proof fn lemma_cell3_bound(width: int, height: int, depth: int, x: int, y: int, z: int)
    requires
        0 <= x < width,
        0 <= y < height,
        0 <= z < depth,
    ensures
        0 <= z * height,
        0 <= z * height + y < height * depth,
        0 <= (z * height + y) * width,
        0 <= cell3(width, height, x, y, z) < width * height * depth,
{
    lemma_cell2_bound(height, depth, y, z);
    lemma_cell2_bound(width, height * depth, x, z * height + y);
    assert(width * (height * depth) == width * height * depth) by (nonlinear_arith);
}

/// Two voxels at the same position are the same voxel.
pub proof fn lemma_cell3_injective(
    width: int,
    height: int,
    x1: int,
    y1: int,
    z1: int,
    x2: int,
    y2: int,
    z2: int,
)
    requires
        0 <= x1 < width,
        0 <= x2 < width,
        0 <= y1 < height,
        0 <= y2 < height,
    ensures
        cell3(width, height, x1, y1, z1) == cell3(width, height, x2, y2, z2) <==> x1 == x2 && y1 == y2 && z1 == z2,
{
    lemma_cell2_injective(width, x1, z1 * height + y1, x2, z2 * height + y2);
    lemma_cell2_injective(height, y1, z1, y2, z2);
}

/// Every position of the storage is the position of a voxel inside the grid.
pub proof fn lemma_cell3_of_position(width: int, height: int, depth: int, position: int) -> (r: (int, int, int))
    requires
        0 < width,
        0 < height,
        0 <= position < width * height * depth,
    ensures
        0 <= r.0 < width,
        0 <= r.1 < height,
        0 <= r.2 < depth,
        cell3(width, height, r.0, r.1, r.2) == position,
{
    assert(width * (height * depth) == width * height * depth) by (nonlinear_arith);
    lemma_cell2_of_position(width, height * depth, position);
    let row = position / width;
    lemma_cell2_of_position(height, depth, row);
    (position % width, row % height, row / height)
}

/// Number of samples at positions 0, `stride`, 2 `stride`, ... below `len`.
pub open spec fn samples_along(len: int, stride: int) -> int {
    if len <= 0 {
        0
    } else {
        (len - 1) / stride + 1
    }
}

/// The samples are exactly the multiples of the stride below the length.
pub proof fn lemma_samples_along(len: int, stride: int, k: int)
    requires
        len >= 0,
        stride > 0,
        k >= 0,
    ensures
        0 <= samples_along(len, stride) <= len,
        k < samples_along(len, stride) <==> k * stride < len,
{
    if len > 0 {
        let q = (len - 1) / stride;
        vstd::arithmetic::div_mod::lemma_fundamental_div_mod(len - 1, stride);
        vstd::arithmetic::div_mod::lemma_mod_bound(len - 1, stride);
        vstd::arithmetic::div_mod::lemma_div_pos_is_pos(len - 1, stride);
        assert(q <= len - 1) by (nonlinear_arith)
            requires
                stride * q <= len - 1,
                stride >= 1,
                q >= 0,
        ;
        assert(k <= q <==> k * stride <= len - 1) by (nonlinear_arith)
            requires
                len - 1 == stride * q + (len - 1) % stride,
                0 <= (len - 1) % stride < stride,
                k >= 0,
        ;
    } else {
        assert(k * stride >= 0) by (nonlinear_arith)
            requires
                k >= 0,
                stride > 0,
        ;
    }
}

/// Number of samples at positions 0, `stride`, 2 `stride`, ... below `len`.
pub fn sample_count(len: usize, stride: usize) -> (r: usize)
    requires
        stride > 0,
    ensures
        r == samples_along(len as int, stride as int),
{
    proof {
        lemma_samples_along(len as int, stride as int, 0);
    }
    if len == 0 {
        0
    } else {
        (len - 1) / stride + 1
    }
}

} // verus!
