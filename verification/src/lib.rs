//! Procedural cave-pattern generation: a seeded random field, smoothed by a
//! majority-rule cellular automaton, rendered to a packed RGB raster buffer.

pub mod addressing;
pub mod automaton;
pub mod errors;
pub mod field;
pub mod generator;
pub mod header;
pub mod raster;
pub mod state;

pub use addressing::field_offset;
pub use addressing::pixel_offset;
pub use automaton::BorderPolicy;
pub use automaton::iterate;
pub use automaton::should_be_wall;
pub use automaton::step;
pub use errors::GenError;
pub use field::CellState;
pub use field::Field;
pub use generator::generate;
pub use header::format_header;
pub use raster::Rgb;
pub use raster::rasterize;
pub use state::State;
pub use state::new_state;
