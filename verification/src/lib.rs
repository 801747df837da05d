//! A discrete-time falling-sand automaton: a rectangular grid of material
//! cells (sand, water, rock) advanced one tick at a time by local movement
//! rules — gravity with accumulated fall energy, diagonal slides, and lateral
//! spread for liquids.

pub mod cell;
pub mod laws;
pub mod motion;
pub mod render;
pub mod rng;
pub mod scan;
pub mod universe;
