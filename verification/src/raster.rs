use vstd::prelude::*;
use crate::addressing::field_index;
use crate::addressing::in_bounds;
use crate::addressing::lemma_field_index_range;
use crate::addressing::pixel_index;
use crate::errors::GenError;
use crate::field::CellState;
use crate::field::Field;

verus! {

/// One palette entry: a packed red, green, blue triple.
#[derive(Clone, Copy, Debug, PartialEq, Eq, Structural)]
pub struct Rgb {
    pub r: u8,
    pub g: u8,
    pub b: u8,
}

/// The palette index that selects a cell's color: walls are category 0,
/// floors category 1.
pub open spec fn spec_category(c: CellState) -> int {
    match c {
        CellState::Wall => 0,
        CellState::Floor => 1,
    }
}

/// The palette index of a cell, as executable code.
pub fn category(c: CellState) -> (n: usize)
    ensures
        n as int == spec_category(c),
{
    match c {
        CellState::Wall => 0,
        CellState::Floor => 1,
    }
}

/// Every cell category of the grid has a palette entry.
pub open spec fn categories_valid(cells: Seq<CellState>, palette: Seq<Rgb>) -> bool {
    forall|i: int| 0 <= i < cells.len() ==> spec_category(#[trigger] cells[i]) < palette.len()
}

/// `buf` is the packed RGB rendering of `cells`: three bytes per cell, in
/// the same row-major order, each triple the palette color of its cell's
/// category.
pub open spec fn rasterized(cells: Seq<CellState>, palette: Seq<Rgb>, buf: Seq<u8>) -> bool {
    &&& buf.len() == 3 * cells.len()
    &&& forall|i: int|
        0 <= i < cells.len() ==> {
            let color = palette[spec_category(#[trigger] cells[i])];
            buf[3 * i] == color.r && buf[3 * i + 1] == color.g && buf[3 * i + 2] == color.b
        }
}

/// Coordinate reading of `rasterized`: the triple at `pixel_index(x, y, w)`
/// holds exactly the palette color of cell `(x, y)`.
pub proof fn lemma_rasterized_at(
    cells: Seq<CellState>,
    palette: Seq<Rgb>,
    buf: Seq<u8>,
    w: int,
    h: int,
    x: int,
    y: int,
)
    requires
        cells.len() == w * h,
        rasterized(cells, palette, buf),
        in_bounds(x, y, w, h),
    ensures
        0 <= pixel_index(x, y, w) && pixel_index(x, y, w) + 2 < buf.len(),
        buf[pixel_index(x, y, w)] == palette[spec_category(cells[field_index(x, y, w)])].r,
        buf[pixel_index(x, y, w) + 1] == palette[spec_category(cells[field_index(x, y, w)])].g,
        buf[pixel_index(x, y, w) + 2] == palette[spec_category(cells[field_index(x, y, w)])].b,
{
    lemma_field_index_range(x, y, w, h);
    assert(cells[field_index(x, y, w)] == cells[field_index(x, y, w)]);
}

/// Renders the field through the palette into a packed RGB buffer, three
/// bytes per cell in row-major order; fails with `PaletteIndexOutOfRange`
/// exactly when some cell's category has no palette entry.
pub fn rasterize(field: &Field, palette: &Vec<Rgb>) -> (r: Result<Vec<u8>, GenError>)
    requires
        field.wf(),
    ensures
        (r is Ok) <==> categories_valid(field.cells@, palette@),
        r matches Ok(buf) ==> rasterized(field.cells@, palette@, buf@),
        r matches Err(e) ==> e == GenError::PaletteIndexOutOfRange,
{
    let total: usize = field.cells.len();
    let mut buf: Vec<u8> = Vec::new();
    let mut i: usize = 0;
    while i < total
        invariant
            i <= total,
            total == field.cells@.len(),
            buf@.len() == 3 * i,
            forall|j: int| 0 <= j < i ==> spec_category(#[trigger] field.cells@[j]) < palette@.len(),
            forall|j: int|
                0 <= j < i ==> {
                    let color = palette@[spec_category(#[trigger] field.cells@[j])];
                    buf@[3 * j] == color.r && buf@[3 * j + 1] == color.g && buf@[3 * j + 2]
                        == color.b
                },
        decreases total - i,
    {
        let cat = category(field.cells[i]);
        if cat >= palette.len() {
            return Err(GenError::PaletteIndexOutOfRange);
        }
        let color = palette[cat];
        buf.push(color.r);
        buf.push(color.g);
        buf.push(color.b);
        i = i + 1;
    }
    Ok(buf)
}

} // verus!
