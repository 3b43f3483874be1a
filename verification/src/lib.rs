//! Core of an interactive terminal client: a pure navigation reducer over
//! sections and selections, a fuzzy-ranked search overlay, wraparound
//! selection arithmetic, a coalescing resize flag, and the layout
//! computations behind each screen. Terminal drawing, networking and
//! persistence live outside the library and exchange plain values with it.

pub mod account;
pub mod dims;
pub mod layout;
pub mod nav;
pub mod resize;
pub mod search;
pub mod tree;
pub mod wrap;
