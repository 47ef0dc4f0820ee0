use vstd::prelude::*;

use crate::events::traits::{Event, EventUris, EventUrisView};

verus! {

/// An impression.
#[derive(Debug)]
pub struct PpaEvent {
    /// A counter or a random id. The accounting does not read it.
    pub id: u64,
    /// When the event happened. The accounting does not read it.
    pub timestamp: u64,
    pub epoch_number: u64,
    /// The bin of the histogram that the event is counted in.
    pub histogram_index: u64,
    pub uris: EventUris,
    /// Bits that a request may select events by: campaigns, ads or any
    /// other attribute.
    pub filter_data: u64,
}

/// An impression, as contracts see it.
pub struct PpaEventView {
    pub id: u64,
    pub timestamp: u64,
    pub epoch_number: u64,
    pub histogram_index: u64,
    pub uris: EventUrisView,
    pub filter_data: u64,
}

impl View for PpaEvent {
    type V = PpaEventView;

    open spec fn view(&self) -> PpaEventView {
        PpaEventView {
            id: self.id,
            timestamp: self.timestamp,
            epoch_number: self.epoch_number,
            histogram_index: self.histogram_index,
            uris: self.uris@,
            filter_data: self.filter_data,
        }
    }
}

impl Clone for PpaEvent {
    fn clone(&self) -> (r: Self)
        ensures
            r@ == self@,
    {
        PpaEvent {
            id: self.id,
            timestamp: self.timestamp,
            epoch_number: self.epoch_number,
            histogram_index: self.histogram_index,
            uris: self.uris.clone(),
            filter_data: self.filter_data,
        }
    }
}

impl Event for PpaEvent {
    open spec fn spec_epoch_id(event: PpaEventView) -> u64 {
        event.epoch_number
    }

    open spec fn spec_event_uris(event: PpaEventView) -> EventUrisView {
        event.uris
    }

    fn epoch_id(&self) -> (epoch: u64) {
        self.epoch_number
    }

    fn event_uris(&self) -> (uris: &EventUris) {
        &self.uris
    }

    fn clone_event(&self) -> (event: Self) {
        self.clone()
    }
}

} // verus!
