//! Exact decision logic of a path-tracing renderer.
//!
//! Distances, dot products and colour channels are `f64` values in the
//! renderer; the library receives them as IEEE-754 bit patterns
//! (`f64::to_bits`) and decides over those patterns, in the total order that
//! `f64::total_cmp` uses or as `<` on `f64` compares, as each function states.
pub mod order;
pub mod interval;
pub mod scene;
pub mod color;
pub mod trace;
pub mod frame;
pub mod material;
