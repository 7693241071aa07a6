//! Turns streams of numeric (x, y) samples into character, braille or
//! vector charts.  The crate holds the plotting core: dataset storage,
//! bounds derivation with the axis-clamping heuristic, the shared
//! coordinate contract, per-cell density counting, and the grid assembly
//! the renderers draw on.  Every sample coordinate is carried as the bit
//! pattern of its 64-bit float, so the core's decisions are verified as
//! plain integer logic; the surrounding shell performs the float
//! arithmetic itself (logarithms, scaling, regression) and hands the
//! results back as bit patterns.

pub mod ascii;
pub mod braille;
pub mod config;
pub mod counter;
pub mod fbits;
pub mod input;
pub mod plot;
pub mod scale;
pub mod strutil;
pub mod svg;
pub mod types;
