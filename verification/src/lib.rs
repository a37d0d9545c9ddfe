//! Bitmask autotiling: cuts a sheet of reference corners into a full set of
//! icon states, one per neighbour pattern, and flattens the templated
//! configuration that describes the cut.

pub mod config;
pub mod generation;
pub mod operations;
pub mod util;
