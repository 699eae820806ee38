use vstd::prelude::*;

verus! {

/// Errors raised by the generation and rasterization pipeline.
///
/// `AddressingOverflow` and `PaletteIndexOutOfRange` signal internal
/// invariant violations (a coordinate or a cell category outside its owning
/// buffer); `InvalidConfiguration` rejects bad construction parameters
/// (a zero dimension, a probability over 100, a grid too large to address).
#[derive(Clone, Copy, Debug, PartialEq, Eq, Structural)]
pub enum GenError {
    AddressingOverflow,
    PaletteIndexOutOfRange,
    InvalidConfiguration,
}

impl GenError {
    /// A short human-readable description of the error.
    pub fn describe(&self) -> (r: String)
        ensures
            self is AddressingOverflow ==> r@ == "coordinate outside the owning buffer"@,
            self is PaletteIndexOutOfRange ==> r@ == "cell category has no palette entry"@,
            self is InvalidConfiguration ==> r@ == "invalid construction parameters"@,
    {
        match self {
            GenError::AddressingOverflow => "coordinate outside the owning buffer".to_owned(),
            GenError::PaletteIndexOutOfRange => "cell category has no palette entry".to_owned(),
            GenError::InvalidConfiguration => "invalid construction parameters".to_owned(),
        }
    }
}

} // verus!
