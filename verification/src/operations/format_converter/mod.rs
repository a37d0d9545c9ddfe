pub mod bitmask_to_precut;
