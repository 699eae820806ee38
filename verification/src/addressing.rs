use vstd::prelude::*;
use crate::errors::GenError;
use vstd::arithmetic::div_mod::lemma_fundamental_div_mod;
use vstd::arithmetic::div_mod::lemma_fundamental_div_mod_converse;
use vstd::arithmetic::div_mod::lemma_mod_pos_bound;

verus! {

/// Row-major index of cell `(x, y)` in a grid `width` cells wide.
pub open spec fn field_index(x: int, y: int, width: int) -> int {
    x + y * width
}

/// Byte offset of the first component of pixel `(x, y)` in a packed RGB
/// buffer: three bytes per cell, same row-major order as the field.
pub open spec fn pixel_index(x: int, y: int, width: int) -> int {
    3 * field_index(x, y, width)
}

/// Whether `(x, y)` is a valid coordinate of a `width` by `height` grid.
pub open spec fn in_bounds(x: int, y: int, width: int, height: int) -> bool {
    0 <= x < width && 0 <= y < height
}

/// An in-bounds coordinate maps into the cell buffer: its row-major index
/// lies in `{0, ..., width * height - 1}`.
pub proof fn lemma_field_index_range(x: int, y: int, width: int, height: int)
    requires
        in_bounds(x, y, width, height),
    ensures
        0 <= field_index(x, y, width) < width * height,
{
    assert(0 <= x + y * width < width * height) by (nonlinear_arith)
        requires
            0 <= x < width,
            0 <= y < height,
    ;
}

/// `field_index` is injective on in-bounds coordinates: two coordinates
/// with the same row-major index are the same coordinate.
pub proof fn lemma_field_index_injective(
    x1: int, y1: int, x2: int, y2: int, width: int, height: int,
)
    requires
        in_bounds(x1, y1, width, height),
        in_bounds(x2, y2, width, height),
        field_index(x1, y1, width) == field_index(x2, y2, width),
    ensures
        x1 == x2,
        y1 == y2,
{
    lemma_field_index_decompose(x1, y1, width);
    lemma_field_index_decompose(x2, y2, width);
}

/// The row-major index splits back into its coordinates by division and
/// remainder: `(x + y * width) % width == x` and `(x + y * width) / width == y`.
pub proof fn lemma_field_index_decompose(x: int, y: int, width: int)
    requires
        0 <= x < width,
        0 <= y,
    ensures
        field_index(x, y, width) % width == x,
        field_index(x, y, width) / width == y,
{
    lemma_fundamental_div_mod_converse(x + y * width, width, y, x);
}

/// Every index in `{0, ..., width * height - 1}` is the row-major index of
/// exactly one in-bounds coordinate, namely `(i % width, i / width)`: the
/// image of `field_index` covers the whole cell buffer.
pub proof fn lemma_field_index_covers(i: int, width: int, height: int)
    requires
        width > 0,
        height > 0,
        0 <= i < width * height,
    ensures
        in_bounds(i % width, i / width, width, height),
        field_index(i % width, i / width, width) == i,
{
    lemma_fundamental_div_mod(i, width);
    lemma_mod_pos_bound(i, width);
    assert(i / width >= 0) by (nonlinear_arith)
        requires
            width > 0,
            i >= 0,
    ;
    assert(i / width < height) by {
        if i / width >= height {
            assert(width * (i / width) >= width * height) by (nonlinear_arith)
                requires
                    width > 0,
                    i / width >= height,
            ;
        }
    }
    assert((i / width) * width == width * (i / width)) by (nonlinear_arith);
}

/// An in-bounds coordinate maps into the pixel buffer: its byte offset is a
/// multiple of 3 in `{0, 3, ..., 3 * width * height - 3}`.
pub proof fn lemma_pixel_index_range(x: int, y: int, width: int, height: int)
    requires
        in_bounds(x, y, width, height),
    ensures
        0 <= pixel_index(x, y, width) < 3 * width * height,
        pixel_index(x, y, width) % 3 == 0,
{
    lemma_field_index_range(x, y, width, height);
    lemma_fundamental_div_mod_converse(3 * field_index(x, y, width), 3, field_index(x, y, width), 0);
    assert(3 * width * height == 3 * (width * height)) by (nonlinear_arith);
}

/// `pixel_index` is injective on in-bounds coordinates.
pub proof fn lemma_pixel_index_injective(
    x1: int, y1: int, x2: int, y2: int, width: int, height: int,
)
    requires
        in_bounds(x1, y1, width, height),
        in_bounds(x2, y2, width, height),
        pixel_index(x1, y1, width) == pixel_index(x2, y2, width),
    ensures
        x1 == x2,
        y1 == y2,
{
    lemma_field_index_injective(x1, y1, x2, y2, width, height);
}

/// Every multiple of 3 in `{0, ..., 3 * width * height - 3}` is the byte
/// offset of exactly one in-bounds coordinate: the image of `pixel_index`
/// is exactly the triple-aligned offsets of the pixel buffer.
pub proof fn lemma_pixel_index_covers(i: int, width: int, height: int)
    requires
        width > 0,
        height > 0,
        0 <= i < 3 * width * height,
        i % 3 == 0,
    ensures
        in_bounds((i / 3) % width, (i / 3) / width, width, height),
        pixel_index((i / 3) % width, (i / 3) / width, width) == i,
{
    lemma_fundamental_div_mod(i, 3);
    assert(i == 3 * (i / 3));
    assert(3 * width * height == 3 * (width * height)) by (nonlinear_arith);
    assert(i / 3 < width * height) by {
        if i / 3 >= width * height {
            assert(3 * (i / 3) >= 3 * (width * height));
        }
    }
    assert(i / 3 >= 0) by (nonlinear_arith)
        requires
            i >= 0,
    ;
    lemma_field_index_covers(i / 3, width, height);
}

/// Row-major offset of cell `(x, y)`, or `AddressingOverflow` when `(x, y)`
/// lies outside the `width` by `height` grid. The single source of truth for
/// field coordinate translation.
pub fn field_offset(x: usize, y: usize, width: usize, height: usize) -> (r: Result<
    usize,
    GenError,
>)
    requires
        (width as int) * (height as int) <= usize::MAX as int,
    ensures
        (r is Ok) <==> in_bounds(x as int, y as int, width as int, height as int),
        r matches Ok(off) ==> off == field_index(x as int, y as int, width as int),
        r matches Err(e) ==> e == GenError::AddressingOverflow,
{
    if x < width && y < height {
        proof {
            lemma_field_index_range(x as int, y as int, width as int, height as int);
        }
        Ok(x + y * width)
    } else {
        Err(GenError::AddressingOverflow)
    }
}

/// Byte offset of pixel `(x, y)` in the packed RGB buffer, or
/// `AddressingOverflow` when `(x, y)` lies outside the grid. The single
/// source of truth for pixel coordinate translation.
pub fn pixel_offset(x: usize, y: usize, width: usize, height: usize) -> (r: Result<
    usize,
    GenError,
>)
    requires
        3 * ((width as int) * (height as int)) <= usize::MAX as int,
    ensures
        (r is Ok) <==> in_bounds(x as int, y as int, width as int, height as int),
        r matches Ok(off) ==> off == pixel_index(x as int, y as int, width as int),
        r matches Err(e) ==> e == GenError::AddressingOverflow,
{
    if x < width && y < height {
        proof {
            lemma_field_index_range(x as int, y as int, width as int, height as int);
        }
        Ok(3 * (x + y * width))
    } else {
        Err(GenError::AddressingOverflow)
    }
}

} // verus!
