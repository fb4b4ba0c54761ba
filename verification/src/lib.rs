//! A toroidal cellular automaton over a fixed alphabet of glyphs.
//!
//! Each cell carries a glyph and three continuous scalars (`energy`,
//! `phase`, `quasicrystal_value`). The scalars are IEEE-754 binary64
//! values, held here as their 64-bit patterns: the transcendental
//! arithmetic that evolves them is performed by the caller, while this
//! crate owns and verifies everything discrete about the automaton —
//! the toroidal Moore neighbourhood, the glyph alphabet and its hue
//! table, neighbour symbol counts, the bit-level ordering and clamping
//! of scalars, the stochastic symbol mutation, and the synchronous
//! (double-buffered) grid update.

pub mod alphabet;
pub mod engine;
pub mod grid;
pub mod rng;
pub mod scalar;
