use vstd::prelude::*;
use crate::addressing::field_index;
use crate::addressing::in_bounds;
use crate::addressing::lemma_field_index_decompose;
use crate::addressing::lemma_field_index_range;
use crate::field::CellState;
use crate::field::Field;
use crate::field::on_border;
use crate::field::wall_neighbors;

verus! {

/// How the transition rule classifies cells on the outermost ring of the
/// grid, where part of the 8-cell neighborhood falls outside the field.
/// `TreatAsInterior` applies the counting rule with the missing neighbors
/// counted as 0.
#[derive(Clone, Copy, Debug, PartialEq, Eq, Structural)]
pub enum BorderPolicy {
    AlwaysWall,
    AlwaysFloor,
    TreatAsInterior,
}

/// Whether one transition makes cell `(x, y)` a wall: border cells go by
/// `policy`; interior cells become walls exactly when at least `threshold`
/// of their 8 surrounding cells are walls.
pub open spec fn next_is_wall(
    cells: Seq<CellState>,
    w: int,
    h: int,
    x: int,
    y: int,
    threshold: int,
    policy: BorderPolicy,
) -> bool {
    if on_border(x, y, w, h) {
        match policy {
            BorderPolicy::AlwaysWall => true,
            BorderPolicy::AlwaysFloor => false,
            BorderPolicy::TreatAsInterior => wall_neighbors(cells, w, h, x, y) >= threshold,
        }
    } else {
        wall_neighbors(cells, w, h, x, y) >= threshold
    }
}

/// The cell that one transition writes at `(x, y)`.
pub open spec fn next_cell(
    cells: Seq<CellState>,
    w: int,
    h: int,
    x: int,
    y: int,
    threshold: int,
    policy: BorderPolicy,
) -> CellState {
    if next_is_wall(cells, w, h, x, y, threshold, policy) {
        CellState::Wall
    } else {
        CellState::Floor
    }
}

/// One synchronous transition of the whole grid: every entry of the result
/// is computed from the input snapshot alone.
pub open spec fn step_cells(
    cells: Seq<CellState>,
    w: int,
    h: int,
    threshold: int,
    policy: BorderPolicy,
) -> Seq<CellState> {
    Seq::new((w * h) as nat, |i: int| next_cell(cells, w, h, i % w, i / w, threshold, policy))
}

/// `steps` successive synchronous transitions; 0 steps is the identity.
pub open spec fn iterate_cells(
    cells: Seq<CellState>,
    w: int,
    h: int,
    steps: nat,
    threshold: int,
    policy: BorderPolicy,
) -> Seq<CellState>
    decreases steps,
{
    if steps == 0 {
        cells
    } else {
        step_cells(
            iterate_cells(cells, w, h, (steps - 1) as nat, threshold, policy),
            w,
            h,
            threshold,
            policy,
        )
    }
}

/// Reads one entry of a transition result by coordinate: the cell written
/// at `(x, y)` is `next_cell` of the input snapshot.
pub proof fn lemma_step_cell(
    cells: Seq<CellState>,
    w: int,
    h: int,
    threshold: int,
    policy: BorderPolicy,
    x: int,
    y: int,
)
    requires
        in_bounds(x, y, w, h),
    ensures
        0 <= field_index(x, y, w) < step_cells(cells, w, h, threshold, policy).len(),
        step_cells(cells, w, h, threshold, policy)[field_index(x, y, w)] == next_cell(
            cells,
            w,
            h,
            x,
            y,
            threshold,
            policy,
        ),
{
    lemma_field_index_range(x, y, w, h);
    lemma_field_index_decompose(x, y, w);
}

/// Step purity: the transition is a function of the input snapshot alone,
/// so two results of `step` computed from equal inputs with equal
/// parameters hold equal cells. (That `step` leaves its input unchanged is
/// already forced by its shared-borrow signature.)
pub proof fn lemma_step_pure(
    cells: Seq<CellState>,
    w: int,
    h: int,
    threshold: int,
    policy: BorderPolicy,
    r1: Seq<CellState>,
    r2: Seq<CellState>,
)
    requires
        r1 == step_cells(cells, w, h, threshold, policy),
        r2 == step_cells(cells, w, h, threshold, policy),
    ensures
        r1 == r2,
{
}

/// Border policy `AlwaysWall`: after one or more transitions, every border
/// cell of the result is a wall, whatever the starting grid, threshold, or
/// number of steps. (0 steps return the input unchanged, so its border is
/// whatever it already held.)
pub proof fn lemma_always_wall_border(
    cells: Seq<CellState>,
    w: int,
    h: int,
    steps: nat,
    threshold: int,
    x: int,
    y: int,
)
    requires
        steps >= 1,
        in_bounds(x, y, w, h),
        on_border(x, y, w, h),
    ensures
        iterate_cells(cells, w, h, steps, threshold, BorderPolicy::AlwaysWall)[field_index(
            x,
            y,
            w,
        )] == CellState::Wall,
{
    let prev = iterate_cells(cells, w, h, (steps - 1) as nat, threshold, BorderPolicy::AlwaysWall);
    lemma_step_cell(prev, w, h, threshold, BorderPolicy::AlwaysWall, x, y);
}

/// The per-cell transition decision, evaluated on the live field: border
/// cells go by `policy`, interior cells by the 8-neighbor wall tally
/// against `threshold`.
pub fn should_be_wall(field: &Field, x: usize, y: usize, threshold: u8, policy: BorderPolicy) -> (r:
    bool)
    requires
        field.wf(),
        x < field.width,
        y < field.height,
    ensures
        r == next_is_wall(
            field.cells@,
            field.width as int,
            field.height as int,
            x as int,
            y as int,
            threshold as int,
            policy,
        ),
{
    if x == 0 || x == field.width - 1 || y == 0 || y == field.height - 1 {
        match policy {
            BorderPolicy::AlwaysWall => true,
            BorderPolicy::AlwaysFloor => false,
            BorderPolicy::TreatAsInterior => field.wall_neighbor_total(x, y) >= threshold,
        }
    } else {
        field.wall_neighbor_total(x, y) >= threshold
    }
}

/// One smoothing pass: builds a brand-new field in which every cell is the
/// transition of the input snapshot, never reading partially updated
/// neighbors. The input field is only borrowed and survives unchanged.
pub fn step(field: &Field, threshold: u8, policy: BorderPolicy) -> (r: Field)
    requires
        field.wf(),
    ensures
        r.wf(),
        r.width == field.width,
        r.height == field.height,
        r.cells@ == step_cells(
            field.cells@,
            field.width as int,
            field.height as int,
            threshold as int,
            policy,
        ),
{
    let w: usize = field.width;
    let h: usize = field.height;
    let ghost target = step_cells(
        field.cells@,
        w as int,
        h as int,
        threshold as int,
        policy,
    );
    let mut out: Vec<CellState> = Vec::new();
    let mut y: usize = 0;
    while y < h
        invariant
            field.wf(),
            w == field.width,
            h == field.height,
            target == step_cells(field.cells@, w as int, h as int, threshold as int, policy),
            y <= h,
            out@.len() == (y as int) * (w as int),
            forall|i: int| 0 <= i < out@.len() ==> out@[i] == target[i],
        decreases h - y,
    {
        let mut x: usize = 0;
        while x < w
            invariant
                field.wf(),
                w == field.width,
                h == field.height,
                target == step_cells(field.cells@, w as int, h as int, threshold as int, policy),
                y < h,
                x <= w,
                out@.len() == (y as int) * (w as int) + x,
                forall|i: int| 0 <= i < out@.len() ==> out@[i] == target[i],
            decreases w - x,
        {
            let wall = should_be_wall(field, x, y, threshold, policy);
            proof {
                lemma_step_cell(
                    field.cells@,
                    w as int,
                    h as int,
                    threshold as int,
                    policy,
                    x as int,
                    y as int,
                );
            }
            if wall {
                out.push(CellState::Wall);
            } else {
                out.push(CellState::Floor);
            }
            x = x + 1;
        }
        proof {
            assert((y as int + 1) * (w as int) == (y as int) * (w as int) + (w as int))
                by (nonlinear_arith);
        }
        y = y + 1;
    }
    proof {
        assert((h as int) * (w as int) == (w as int) * (h as int)) by (nonlinear_arith);
        assert(out@ =~= target);
    }
    Field { width: w, height: h, cells: out }
}

/// Applies `step` exactly `steps` times in sequence, handing each result to
/// the next pass; 0 steps return the input unchanged.
pub fn iterate(field: Field, steps: usize, threshold: u8, policy: BorderPolicy) -> (r: Field)
    requires
        field.wf(),
    ensures
        r.wf(),
        r.width == field.width,
        r.height == field.height,
        r.cells@ == iterate_cells(
            field.cells@,
            field.width as int,
            field.height as int,
            steps as nat,
            threshold as int,
            policy,
        ),
{
    let ghost start = field;
    let mut cur = field;
    let mut k: usize = 0;
    while k < steps
        invariant
            k <= steps,
            cur.wf(),
            cur.width == start.width,
            cur.height == start.height,
            cur.cells@ == iterate_cells(
                start.cells@,
                start.width as int,
                start.height as int,
                k as nat,
                threshold as int,
                policy,
            ),
        decreases steps - k,
    {
        cur = step(&cur, threshold, policy);
        k = k + 1;
    }
    cur
}

} // verus!
