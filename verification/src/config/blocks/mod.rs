pub mod cutters;
pub mod generators;
