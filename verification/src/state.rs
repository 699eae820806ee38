use vstd::prelude::*;
use crate::errors::GenError;
use crate::field::CellState;
use crate::field::Field;
use crate::field::valid_dims;
use crate::header::format_header;
use crate::header::header_chars;

verus! {

/// The bundle a generation run works on: the grid being evolved, the
/// configured number of smoothing passes, and the raster header matching
/// the grid's dimensions.
pub struct State {
    pub field: Field,
    pub iter_c: usize,
    pub header: String,
}

impl State {
    /// Well-formedness: the field is well-formed and the header describes
    /// its dimensions.
    pub open spec fn wf(self) -> bool {
        &&& self.field.wf()
        &&& self.header@ == header_chars(self.field.width as nat, self.field.height as nat)
    }
}

/// Builds the starting state: a `w` by `h` field of floor cells, the
/// configured pass count `i`, and the image header; rejects dimensions that
/// are zero or too large to address.
pub fn new_state(w: usize, h: usize, i: usize) -> (r: Result<State, GenError>)
    ensures
        (r is Ok) <==> valid_dims(w as int, h as int),
        r matches Ok(st) ==> st.wf() && st.field.width == w && st.field.height == h && st.iter_c
            == i && (forall|j: int|
            0 <= j < st.field.cells@.len() ==> st.field.cells@[j] == CellState::Floor),
        r matches Err(e) ==> e == GenError::InvalidConfiguration,
{
    match Field::create(w, h, CellState::Floor) {
        Ok(field) => Ok(State { field, iter_c: i, header: format_header(w, h) }),
        Err(e) => Err(e),
    }
}

} // verus!
