//! Baseline configuration of the storage buckets.

pub mod cos_map;
