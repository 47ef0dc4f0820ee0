//! Budgets, filters and filter storage.

pub mod hashmap_filter_storage;
pub mod pure_dp_filter;
pub mod traits;
