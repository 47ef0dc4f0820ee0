//! On-device bookkeeping of differential-privacy budgets across epochs, and
//! attribution reports computed under those budgets.
//!
//! A device keeps a set of filters, each with a capacity and with what has
//! been consumed of it. A report request spans a window of epochs. For each
//! epoch the service computes the privacy loss of the request, asks every
//! filter of the epoch for it, and deducts it from all of them or from none.
//! The events of an epoch that lacks the budget are left out of the report.
//!
//! Budgets, attributed values and noise scales are exact fixed-point
//! quantities (see [`budget::pure_dp_filter::UNITS_PER_ONE`]), so that every
//! deduction is reproducible and the accounting can be stated over integers.
//! Maps from integers are hash maps. Maps from sites and from filter ids
//! keep their entries in the order of insertion (see [`vec_map`]), so that
//! the filters of an epoch are asked, and named, in one fixed order.
//!
//! - [`budget`]: budgets, filters, and the storage of filters.
//! - [`events`]: events, the storage of events, and the events relevant to
//!   a request.
//! - [`queries`]: report requests, histograms, and last-touch attribution.
//! - [`pds`]: the accounting, the core that deducts from the filters, the
//!   service, and what holds of the filters across its operations.
//! - [`mechanisms`]: noise scales and norms.
//! - [`epoch`], [`filter_data`]: epochs of timestamps, and the filter data of
//!   events.

pub mod budget;
pub mod epoch;
pub mod error;
pub mod events;
pub mod filter_data;
pub mod mechanisms;
pub mod pds;
pub mod queries;
pub mod util;
pub mod vec_map;
