//! Arithmetic of row-major indices: the position `(x, y)` of a rectangle
//! `width` wide stands at `y * width + x`.

use vstd::prelude::*;

verus! {

/// The row-major index of `(x, y)` in a rectangle `width` wide.
pub open spec fn row_major(width: int, x: int, y: int) -> int {
    y * width + x
}

/// The index of a position inside the rectangle lies inside its buffer.
pub proof fn lemma_index_in_range(width: int, height: int, x: int, y: int)
    requires
        0 <= x < width,
        0 <= y < height,
    ensures
        0 <= row_major(width, x, y) < width * height,
{
    assert(0 <= y * width && (y + 1) * width <= height * width) by (nonlinear_arith)
        requires
            0 <= y < height,
            0 <= width,
    ;
    assert((y + 1) * width == y * width + width) by (nonlinear_arith);
    assert(height * width == width * height) by (nonlinear_arith);
}

/// An index determines its position: column and row are remainder and
/// quotient by the width.
pub proof fn lemma_index_div_mod(width: int, x: int, y: int)
    requires
        0 <= x < width,
    ensures
        row_major(width, x, y) % width == x,
        row_major(width, x, y) / width == y,
{
    vstd::arithmetic::div_mod::lemma_fundamental_div_mod_converse(y * width + x, width, y, x);
}

/// Every index of the buffer is the index of exactly the position given by
/// its remainder and quotient, and that position lies inside the rectangle.
pub proof fn lemma_index_position(width: int, height: int, i: int)
    requires
        0 <= i < width * height,
        0 <= height,
    ensures
        0 <= i % width < width,
        0 <= i / width < height,
        row_major(width, i % width, i / width) == i,
{
    assert(width > 0) by (nonlinear_arith)
        requires
            0 <= i < width * height,
            0 <= height,
    ;
    vstd::arithmetic::div_mod::lemma_fundamental_div_mod(i, width);
    vstd::arithmetic::div_mod::lemma_mod_bound(i, width);
    let q = i / width;
    assert(0 <= q < height) by (nonlinear_arith)
        requires
            0 <= i < width * height,
            width > 0,
            i == width * q + i % width,
            0 <= i % width < width,
    ;
    assert(width * q == q * width) by (nonlinear_arith);
}

} // verus!
