//! Sample values, for examples and tests.

pub mod samples;
