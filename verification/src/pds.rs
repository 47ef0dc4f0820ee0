//! The private data service: quotas, accounting and the service itself.

pub mod accounting;
pub mod guarantees;
pub mod aliases;
pub mod pds_core;
pub mod private_data_service;
pub mod quotas;
