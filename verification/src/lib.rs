//! A small authoring library for vector graphics in PostScript form.
//!
//! Callers issue drawing operations (boxes, lines, circles, Bezier curves,
//! text, raw markup, and color/fill/font state changes); the library records
//! them as an ordered event log and, on request, serializes the log into a
//! textual page description together with a computed bounding box.  A
//! companion line-oriented command format lets the same events be described
//! in a text file instead of through API calls.
//!
//! Coordinates are fixed-point decimals with a resolution of one thousandth
//! of a PostScript point (see [`fixed::Fixed`]), so every geometric
//! computation is exact integer arithmetic.

use vstd::prelude::*;

pub mod bbox;
pub mod decimal;
pub mod event;
pub mod fixed;
pub mod model;
pub mod parse;
pub mod point;
pub mod render;
pub mod tool;

pub use tool::PSTool;

verus! {

/// Returns an information string for the installed version.
pub fn pstools_version() -> (s: String)
    ensures
        s@ == "PSTools version 0.1"@,
{
    let s = "PSTools version 0.1";
    s.to_owned()
}

} // verus!
