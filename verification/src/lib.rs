//! Core of a fused-filament-fabrication slicer: triangle-tower plane
//! sweeping, per-layer slice assembly, move-chain plotting, and command-stream
//! optimization, with all geometry carried in fixed-point integer coordinates
//! (one unit is a thousandth of a millimetre).

pub mod bounds;
pub mod calculation;
pub mod commands;
pub mod errors;
pub mod geometry;
pub mod heap;
pub mod optimizer;
pub mod order;
pub mod passes;
pub mod pipeline;
pub mod settings;
pub mod plotter;
pub mod poly;
pub mod slicing;
pub mod tower;

use vstd::prelude::*;

verus! {

/// Number of fixed-point units in one millimetre.
pub const UNITS_PER_MM: i64 = 1000;

} // verus!
