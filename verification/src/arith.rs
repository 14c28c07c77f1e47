//! Facts about row-major positions, stated over plain integers.

use vstd::prelude::*;

verus! {

/// In a rectangle of `height` rows of `width` places each, the place
/// `column` of the row `row` has a position inside the rectangle.
pub proof fn lemma_position_in_range(width: int, height: int, row: int, column: int)
    requires
        0 <= row < height,
        0 <= column < width,
    ensures
        0 <= row * width <= row * width + column < width * height,
{
    assert(0 <= row * width && (row + 1) * width <= height * width) by (nonlinear_arith)
        requires
            0 <= row < height,
            0 <= width,
    ;
    assert((row + 1) * width == row * width + width) by (nonlinear_arith);
    assert(height * width == width * height) by (nonlinear_arith);
}

/// A position, taken apart by the width, gives back the row and the column
/// that it was made of.
pub proof fn lemma_position_div_mod(width: int, row: int, column: int)
    requires
        0 <= column < width,
    ensures
        (row * width + column) / width == row,
        (row * width + column) % width == column,
{
    vstd::arithmetic::div_mod::lemma_fundamental_div_mod_converse(
        row * width + column,
        width,
        row,
        column,
    );
}

/// A position inside the rectangle, taken apart by the width, gives a row
/// and a column of the rectangle, and these two make up the position again.
pub proof fn lemma_position_split(width: int, height: int, position: int)
    requires
        0 <= width,
        0 <= position < width * height,
    ensures
        0 <= position / width < height,
        0 <= position % width < width,
        (position / width) * width + position % width == position,
{
    assert(0 < width) by (nonlinear_arith)
        requires
            0 <= width,
            0 <= position < width * height,
    ;
    vstd::arithmetic::div_mod::lemma_fundamental_div_mod(position, width);
    vstd::arithmetic::div_mod::lemma_mod_bound(position, width);
    let row = position / width;
    assert(width * row == row * width) by (nonlinear_arith);
    assert(0 <= row < height) by (nonlinear_arith)
        requires
            0 < width,
            0 <= position < width * height,
            0 <= position - row * width < width,
    ;
}

} // verus!
