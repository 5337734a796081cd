//! A pseudo-3D first-person renderer for a 2D tile grid, verified end to
//! end over exact rational arithmetic.
//!
//! The core is the grid ray caster ([`cast`]): a digital differential
//! analyzer that walks a ray from grid-line crossing to grid-line crossing
//! until it strikes a wall, returning the wall's tile and the exact
//! perpendicular depth of the hit. Around it sit the per-column rendering
//! pipeline ([`render`]), the scene state it consumes ([`grid`], [`scene`]),
//! per-frame movement ([`motion`]) and the minimap overlay geometry
//! ([`minimap`]). Every continuous quantity is an exact fraction
//! ([`frac`]), so the stepping comparisons, the Y-wins tie-break and the
//! projection formulas are decided exactly rather than by float rounding;
//! the drawing layer converts the exact geometry to pixels and applies the
//! one inexact step, the exponential distance shade.

pub mod cast;
pub mod frac;
pub mod grid;
pub mod minimap;
pub mod motion;
pub mod render;
pub mod scene;
