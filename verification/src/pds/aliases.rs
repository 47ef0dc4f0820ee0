use vstd::prelude::*;

use crate::budget::hashmap_filter_storage::HashMapFilterStorage;
use crate::events::hashmap_event_storage::HashMapEventStorage;
use crate::events::ppa_event::PpaEvent;
use crate::events::simple_event::SimpleEvent;
use crate::pds::pds_core::PrivateDataServiceCore;
use crate::pds::private_data_service::PrivateDataService;
use crate::pds::quotas::StaticCapacities;

verus! {

/// The filter storage of a service for simple events.
pub type SimpleFilterStorage = HashMapFilterStorage<StaticCapacities>;

/// The event storage of a service for simple events.
pub type SimpleEventStorage = HashMapEventStorage<SimpleEvent>;

/// The core of a service for simple events.
pub type SimplePdsCore<FS = SimpleFilterStorage> = PrivateDataServiceCore<FS>;

/// A service for simple events.
pub type SimplePds<FS = SimpleFilterStorage, ES = SimpleEventStorage> = PrivateDataService<FS, ES>;

/// The filter storage of a service for impressions.
pub type PpaFilterStorage = HashMapFilterStorage<StaticCapacities>;

/// The event storage of a service for impressions.
pub type PpaEventStorage = HashMapEventStorage<PpaEvent>;

/// The core of a service for impressions.
pub type PpaPdsCore<FS = PpaFilterStorage> = PrivateDataServiceCore<FS>;

/// A service for impressions.
pub type PpaPds<FS = PpaFilterStorage, ES = PpaEventStorage> = PrivateDataService<FS, ES>;

} // verus!
