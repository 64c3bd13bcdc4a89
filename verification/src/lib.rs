//! The decision core of a Monte Carlo path tracer.
//!
//! Every real quantity is held by the 64 bits of its double-precision form.
//! The library orders and compares these numbers, picks the valid hit of a
//! ray on a primitive, reduces the hits of a scene to the nearest one, steers
//! a light path from bounce to bounce, lays out the image and encodes it.
//! Arithmetic on the numbers is the caller's.

pub mod geo;
mod par;
pub mod obj;
pub mod env;
pub mod io;
pub mod render;
