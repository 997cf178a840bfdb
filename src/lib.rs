//! Discrete core of a Monte Carlo path tracer: how pixels are indexed and
//! written out, how a path's bounce budget ends it, and which intersection
//! is the nearest.
pub mod image;
pub mod integrator;
pub mod hit;
