use vstd::prelude::*;
use crate::addressing::field_index;
use crate::addressing::field_offset;
use crate::addressing::in_bounds;
use crate::addressing::lemma_field_index_decompose;
use crate::addressing::lemma_field_index_range;
use crate::errors::GenError;

verus! {

/// The category of one grid cell: an impassable wall or open floor.
/// As a palette index, `Wall` is category 0 and `Floor` is category 1.
#[derive(Clone, Copy, Debug, PartialEq, Eq, Structural)]
pub enum CellState {
    Wall,
    Floor,
}

/// Whether a cell counts toward the automaton's wall-neighbor tally.
pub open spec fn is_wall(c: CellState) -> bool {
    c == CellState::Wall
}

/// Whether `(x, y)` lies on the outermost ring of a `w` by `h` grid.
pub open spec fn on_border(x: int, y: int, w: int, h: int) -> bool {
    x == 0 || x == w - 1 || y == 0 || y == h - 1
}

/// 1 when `(x, y)` is an in-bounds wall cell, 0 otherwise; out-of-bounds
/// positions contribute nothing to a neighbor tally.
pub open spec fn wall_at(cells: Seq<CellState>, w: int, h: int, x: int, y: int) -> int {
    if in_bounds(x, y, w, h) && is_wall(cells[field_index(x, y, w)]) {
        1
    } else {
        0
    }
}

/// How many of the 8 cells immediately surrounding `(x, y)` are walls,
/// the center cell itself excluded; neighbors outside the grid count as 0.
pub open spec fn wall_neighbors(cells: Seq<CellState>, w: int, h: int, x: int, y: int) -> int {
    wall_at(cells, w, h, x - 1, y - 1) + wall_at(cells, w, h, x, y - 1) + wall_at(
        cells,
        w,
        h,
        x + 1,
        y - 1,
    ) + wall_at(cells, w, h, x - 1, y) + wall_at(cells, w, h, x + 1, y) + wall_at(
        cells,
        w,
        h,
        x - 1,
        y + 1,
    ) + wall_at(cells, w, h, x, y + 1) + wall_at(cells, w, h, x + 1, y + 1)
}

/// The grid after every cell of the outermost ring is overwritten with
/// `value`, interior cells kept.
pub open spec fn forced_border_cells(
    cells: Seq<CellState>,
    w: int,
    h: int,
    value: CellState,
) -> Seq<CellState> {
    Seq::new(
        (w * h) as nat,
        |i: int|
            if on_border(i % w, i / w, w, h) {
                value
            } else {
                cells[i]
            },
    )
}

/// Reads one entry of `forced_border_cells` by coordinate.
pub proof fn lemma_forced_border_cell(
    cells: Seq<CellState>,
    w: int,
    h: int,
    value: CellState,
    x: int,
    y: int,
)
    requires
        in_bounds(x, y, w, h),
    ensures
        0 <= field_index(x, y, w) < forced_border_cells(cells, w, h, value).len(),
        forced_border_cells(cells, w, h, value)[field_index(x, y, w)] == if on_border(x, y, w, h) {
            value
        } else {
            cells[field_index(x, y, w)]
        },
{
    lemma_field_index_range(x, y, w, h);
    lemma_field_index_decompose(x, y, w);
}

/// Acceptable grid dimensions: both positive, and small enough that every
/// pixel-buffer offset (3 bytes per cell) fits in a `usize`.
pub open spec fn valid_dims(w: int, h: int) -> bool {
    w > 0 && h > 0 && 3 * (w * h) <= usize::MAX as int
}

/// The logical 2D grid of cell categories, stored row-major.
pub struct Field {
    pub width: usize,
    pub height: usize,
    pub cells: Vec<CellState>,
}

impl Field {
    /// Well-formedness: positive, addressable dimensions and a cell buffer
    /// of exactly `width * height` entries.
    pub open spec fn wf(self) -> bool {
        valid_dims(self.width as int, self.height as int) && self.cells@.len() == (
        self.width as int) * (self.height as int)
    }

    /// The cell stored for coordinate `(x, y)`.
    pub open spec fn spec_cell(self, x: int, y: int) -> CellState {
        self.cells@[field_index(x, y, self.width as int)]
    }

    /// Allocates a `width` by `height` field with every cell set to
    /// `initial`; rejects dimensions that are zero or too large to address.
    pub fn create(width: usize, height: usize, initial: CellState) -> (r: Result<Field, GenError>)
        ensures
            (r is Ok) <==> valid_dims(width as int, height as int),
            r matches Ok(f) ==> f.wf() && f.width == width && f.height == height && forall|i: int|
                0 <= i < f.cells@.len() ==> f.cells@[i] == initial,
            r matches Err(e) ==> e == GenError::InvalidConfiguration,
    {
        if width == 0 || height == 0 {
            return Err(GenError::InvalidConfiguration);
        }
        let total: usize = match width.checked_mul(height) {
            Some(t) => t,
            None => {
                return Err(GenError::InvalidConfiguration);
            },
        };
        match total.checked_mul(3) {
            Some(_) => (),
            None => {
                return Err(GenError::InvalidConfiguration);
            },
        };
        let mut cells: Vec<CellState> = Vec::new();
        let mut i: usize = 0;
        while i < total
            invariant
                i <= total,
                cells@.len() == i,
                forall|j: int| 0 <= j < i ==> cells@[j] == initial,
            decreases total - i,
        {
            cells.push(initial);
            i = i + 1;
        }
        Ok(Field { width, height, cells })
    }

    /// The field's width in cells.
    pub fn width(&self) -> (w: usize)
        ensures
            w == self.width,
    {
        self.width
    }

    /// The field's height in cells.
    pub fn height(&self) -> (h: usize)
        ensures
            h == self.height,
    {
        self.height
    }

    /// Reads the cell at an in-bounds coordinate through `field_offset`.
    pub(crate) fn cell_at(&self, x: usize, y: usize) -> (c: CellState)
        requires
            self.wf(),
            x < self.width,
            y < self.height,
        ensures
            c == self.spec_cell(x as int, y as int),
    {
        match field_offset(x, y, self.width, self.height) {
            Ok(off) => {
                proof {
                    lemma_field_index_range(
                        x as int,
                        y as int,
                        self.width as int,
                        self.height as int,
                    );
                }
                self.cells[off]
            },
            Err(_) => {
                proof {
                    assert(false);
                }
                CellState::Floor
            },
        }
    }

    /// The cell at `(x, y)`, or `AddressingOverflow` when `(x, y)` lies
    /// outside the grid.
    pub fn get(&self, x: usize, y: usize) -> (r: Result<CellState, GenError>)
        requires
            self.wf(),
        ensures
            (r is Ok) <==> in_bounds(x as int, y as int, self.width as int, self.height as int),
            r matches Ok(c) ==> c == self.spec_cell(x as int, y as int),
            r matches Err(e) ==> e == GenError::AddressingOverflow,
    {
        if x < self.width && y < self.height {
            Ok(self.cell_at(x, y))
        } else {
            Err(GenError::AddressingOverflow)
        }
    }

    /// Overwrites the cell at `(x, y)` with `value`, or returns
    /// `AddressingOverflow` (leaving the field unchanged) when `(x, y)` lies
    /// outside the grid.
    pub fn set(&mut self, x: usize, y: usize, value: CellState) -> (r: Result<(), GenError>)
        requires
            old(self).wf(),
        ensures
            final(self).wf(),
            final(self).width == old(self).width,
            final(self).height == old(self).height,
            (r is Ok) <==> in_bounds(
                x as int,
                y as int,
                old(self).width as int,
                old(self).height as int,
            ),
            r is Ok ==> final(self).cells@ == old(self).cells@.update(
                field_index(x as int, y as int, old(self).width as int),
                value,
            ),
            r is Err ==> final(self).cells@ == old(self).cells@,
            r matches Err(e) ==> e == GenError::AddressingOverflow,
    {
        match field_offset(x, y, self.width, self.height) {
            Ok(off) => {
                proof {
                    lemma_field_index_range(
                        x as int,
                        y as int,
                        self.width as int,
                        self.height as int,
                    );
                }
                self.cells[off] = value;
                Ok(())
            },
            Err(e) => Err(e),
        }
    }

    /// 1 when the in-bounds cell `(x, y)` is a wall, 0 otherwise.
    fn wall_indicator(&self, x: usize, y: usize) -> (n: u8)
        requires
            self.wf(),
            x < self.width,
            y < self.height,
        ensures
            n as int == wall_at(self.cells@, self.width as int, self.height as int, x as int, y as int),
            n <= 1,
    {
        match self.cell_at(x, y) {
            CellState::Wall => 1,
            CellState::Floor => 0,
        }
    }

    /// Tally of wall cells among the up-to-8 in-bounds neighbors of any
    /// in-bounds coordinate; positions beyond an edge contribute 0.
    pub(crate) fn wall_neighbor_total(&self, x: usize, y: usize) -> (n: u8)
        requires
            self.wf(),
            x < self.width,
            y < self.height,
        ensures
            n as int == wall_neighbors(
                self.cells@,
                self.width as int,
                self.height as int,
                x as int,
                y as int,
            ),
    {
        let mut n: u8 = 0;
        if x > 0 && y > 0 {
            n = n + self.wall_indicator(x - 1, y - 1);
        }
        if y > 0 {
            n = n + self.wall_indicator(x, y - 1);
        }
        if x + 1 < self.width && y > 0 {
            n = n + self.wall_indicator(x + 1, y - 1);
        }
        if x > 0 {
            n = n + self.wall_indicator(x - 1, y);
        }
        if x + 1 < self.width {
            n = n + self.wall_indicator(x + 1, y);
        }
        if x > 0 && y + 1 < self.height {
            n = n + self.wall_indicator(x - 1, y + 1);
        }
        if y + 1 < self.height {
            n = n + self.wall_indicator(x, y + 1);
        }
        if x + 1 < self.width && y + 1 < self.height {
            n = n + self.wall_indicator(x + 1, y + 1);
        }
        n
    }

    /// Overwrites every cell of the outermost ring with `value`, leaving
    /// interior cells as they were.
    pub fn force_border(&mut self, value: CellState)
        requires
            old(self).wf(),
        ensures
            final(self).wf(),
            final(self).width == old(self).width,
            final(self).height == old(self).height,
            final(self).cells@ == forced_border_cells(
                old(self).cells@,
                old(self).width as int,
                old(self).height as int,
                value,
            ),
    {
        let w: usize = self.width;
        let h: usize = self.height;
        let ghost target = forced_border_cells(
            self.cells@,
            w as int,
            h as int,
            value,
        );
        let mut out: Vec<CellState> = Vec::new();
        let mut y: usize = 0;
        while y < h
            invariant
                self.wf(),
                w == self.width,
                h == self.height,
                target == forced_border_cells(self.cells@, w as int, h as int, value),
                y <= h,
                out@.len() == (y as int) * (w as int),
                forall|i: int| 0 <= i < out@.len() ==> out@[i] == target[i],
            decreases h - y,
        {
            let mut x: usize = 0;
            while x < w
                invariant
                    self.wf(),
                    w == self.width,
                    h == self.height,
                    target == forced_border_cells(self.cells@, w as int, h as int, value),
                    y < h,
                    x <= w,
                    out@.len() == (y as int) * (w as int) + x,
                    forall|i: int| 0 <= i < out@.len() ==> out@[i] == target[i],
                decreases w - x,
            {
                proof {
                    lemma_forced_border_cell(self.cells@, w as int, h as int, value, x as int, y as int);
                }
                if x == 0 || x == w - 1 || y == 0 || y == h - 1 {
                    out.push(value);
                } else {
                    out.push(self.cell_at(x, y));
                }
                x = x + 1;
            }
            proof {
                assert((y as int + 1) * (w as int) == (y as int) * (w as int) + (w as int))
                    by (nonlinear_arith);
            }
            y = y + 1;
        }
        proof {
            assert((h as int) * (w as int) == (w as int) * (h as int)) by (nonlinear_arith);
            assert(out@ =~= target);
        }
        self.cells = out;
    }

    /// Counts how many of the 8 cells immediately surrounding the interior
    /// cell `(x, y)` are walls, excluding the center cell itself.
    pub fn neighbor_count(&self, x: usize, y: usize) -> (n: u8)
        requires
            self.wf(),
            0 < x && x + 1 < self.width,
            0 < y && y + 1 < self.height,
        ensures
            n as int == wall_neighbors(
                self.cells@,
                self.width as int,
                self.height as int,
                x as int,
                y as int,
            ),
    {
        self.wall_neighbor_total(x, y)
    }
}

} // verus!
