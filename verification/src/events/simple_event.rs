use vstd::prelude::*;

use crate::events::traits::{Event, EventUris, EventUrisView};

verus! {

/// A bare event: an id, an epoch, a key and its sites.
#[derive(Debug)]
pub struct SimpleEvent {
    pub id: u64,
    pub epoch_number: u64,
    /// The bin of the histogram that the event is counted in.
    pub event_key: u64,
    pub uris: EventUris,
}

/// A bare event, as contracts see it.
pub struct SimpleEventView {
    pub id: u64,
    pub epoch_number: u64,
    pub event_key: u64,
    pub uris: EventUrisView,
}

impl View for SimpleEvent {
    type V = SimpleEventView;

    open spec fn view(&self) -> SimpleEventView {
        SimpleEventView {
            id: self.id,
            epoch_number: self.epoch_number,
            event_key: self.event_key,
            uris: self.uris@,
        }
    }
}

impl Clone for SimpleEvent {
    fn clone(&self) -> (r: Self)
        ensures
            r@ == self@,
    {
        SimpleEvent {
            id: self.id,
            epoch_number: self.epoch_number,
            event_key: self.event_key,
            uris: self.uris.clone(),
        }
    }
}

impl Event for SimpleEvent {
    open spec fn spec_epoch_id(event: SimpleEventView) -> u64 {
        event.epoch_number
    }

    open spec fn spec_event_uris(event: SimpleEventView) -> EventUrisView {
        event.uris
    }

    fn epoch_id(&self) -> (epoch: u64) {
        self.epoch_number
    }

    fn event_uris(&self) -> (uris: &EventUris) {
        &self.uris
    }

    fn clone_event(&self) -> (event: Self) {
        self.clone()
    }
}

} // verus!
