//! Events, their storage, and the events relevant to a request.

pub mod hashmap_event_storage;
pub mod ppa_event;
pub mod relevant_events;
pub mod simple_event;
pub mod traits;
