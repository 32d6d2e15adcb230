//! A falling-block puzzle engine: the well and its line clearing, the falling
//! piece with its per-tick rules, scoring and levels, and the composition of
//! the pictures a front end draws.
pub mod piece;
pub mod playfield;
pub mod render;
pub mod scoring;
