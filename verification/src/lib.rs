//! Procedural scene renderer: an animated particle compositor, an analytic
//! star/corona compositor over a pluggable noise field, and a sphere-tracing
//! renderer, all writing BGRA pixels into a caller-owned frame buffer. All
//! geometry is carried in fixed-point integer arithmetic.

pub mod blend;
pub mod curves;
pub mod fixed;
pub mod noise;
pub mod render;
pub mod rng;
pub mod scene;
pub mod stars;
pub mod tracer;
