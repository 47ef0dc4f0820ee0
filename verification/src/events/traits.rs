use vstd::prelude::*;

use crate::vec_map::MapKey;

verus! {

/// What names an epoch: a key that is copied freely.
pub trait EpochId: MapKey + Copy {

}

impl EpochId for u64 {

}

/// What names a site: a key.
pub trait Uri: MapKey {

}

impl Uri for String {

}

/// A site, as contracts see it.
pub type UriView = Seq<char>;

/// Events by epoch, as contracts see them.
pub type EventsByEpoch<EV> = Map<u64, Seq<EV>>;

/// The sites of an event.
#[derive(Debug)]
pub struct EventUris {
    /// The site that registered the event.
    pub source_uri: String,
    /// The sites that may trigger a report over the event.
    pub trigger_uris: Vec<String>,
    /// The sites embedded in the source and trigger sites that may receive
    /// reports over the event.
    pub intermediary_uris: Vec<String>,
    /// The sites that may receive reports over the event.
    pub querier_uris: Vec<String>,
}

/// The sites of an event, as contracts see them.
pub struct EventUrisView {
    pub source_uri: Seq<char>,
    pub trigger_uris: Seq<Seq<char>>,
    pub intermediary_uris: Seq<Seq<char>>,
    pub querier_uris: Seq<Seq<char>>,
}

impl View for EventUris {
    type V = EventUrisView;

    open spec fn view(&self) -> EventUrisView {
        EventUrisView {
            source_uri: self.source_uri@,
            trigger_uris: self.trigger_uris.deep_view(),
            intermediary_uris: self.intermediary_uris.deep_view(),
            querier_uris: self.querier_uris.deep_view(),
        }
    }
}

/// A copy of a list of sites.
pub fn clone_uris(uris: &Vec<String>) -> (r: Vec<String>)
    ensures
        r.deep_view() == uris.deep_view(),
{
    let r = uris.clone();
    proof {
        assert(r.deep_view() =~= uris.deep_view());
    }
    r
}

/// Whether `uri` is among `uris`.
pub fn contains_uri(uris: &Vec<String>, uri: &String) -> (b: bool)
    ensures
        b == uris.deep_view().contains(uri@),
{
    let mut i: usize = 0;
    while i < uris.len()
        invariant
            i <= uris.len(),
            forall|j: int| 0 <= j < i ==> uris.deep_view()[j] != uri@,
        decreases uris.len() - i,
    {
        if uris[i] == *uri {
            proof {
                assert(uris.deep_view()[i as int] == uri@);
            }
            return true;
        }
        i += 1;
    }
    false
}

impl Clone for EventUris {
    fn clone(&self) -> (r: Self)
        ensures
            r@ == self@,
    {
        EventUris {
            source_uri: self.source_uri.clone(),
            trigger_uris: clone_uris(&self.trigger_uris),
            intermediary_uris: clone_uris(&self.intermediary_uris),
            querier_uris: clone_uris(&self.querier_uris),
        }
    }
}

/// An event that belongs to an epoch.
pub trait Event: View + Sized {
    /// The epoch of the event.
    spec fn spec_epoch_id(event: Self::V) -> u64;

    /// The sites of the event.
    spec fn spec_event_uris(event: Self::V) -> EventUrisView;

    fn epoch_id(&self) -> (epoch: u64)
        ensures
            epoch == Self::spec_epoch_id(self@),
    ;

    fn event_uris(&self) -> (uris: &EventUris)
        ensures
            uris@ == Self::spec_event_uris(self@),
    ;

    /// A copy of the event.
    fn clone_event(&self) -> (event: Self)
        ensures
            event@ == self@,
    ;
}

/// A condition that whoever makes a request supplies. Whether it holds of a
/// value depends on the value alone.
pub trait Predicate<T: View> {
    spec fn spec_holds(&self, value: T::V) -> bool;

    fn holds(&self, value: &T) -> (b: bool)
        ensures
            b == self.spec_holds(value@),
    ;
}

/// The condition that holds of every value.
#[derive(Clone, Copy, Debug)]
pub struct Always;

impl<T: View> Predicate<T> for Always {
    open spec fn spec_holds(&self, value: T::V) -> bool {
        true
    }

    fn holds(&self, value: &T) -> (b: bool) {
        true
    }
}

/// Tells the events that are relevant to a request from the others. The
/// answer depends on the event alone.
pub trait RelevantEventSelector {
    type Event: Event;

    /// Whether `event` is relevant.
    spec fn spec_is_relevant(&self, event: <Self::Event as View>::V) -> bool;

    fn is_relevant_event(&self, event: &Self::Event) -> (b: bool)
        ensures
            b == self.spec_is_relevant(event@),
    ;
}

/// The views of the events of each epoch.
pub open spec fn epoch_views<E: Event>(events: Map<u64, Vec<E>>) -> Map<u64, Seq<E::V>> {
    events.map_values(|events: Vec<E>| crate::vec_map::views(events@))
}

/// The events of `epoch` among `events`: none where the epoch is absent.
pub open spec fn events_in<V>(events: Map<u64, Seq<V>>, epoch: u64) -> Seq<V> {
    if events.contains_key(epoch) {
        events[epoch]
    } else {
        Seq::empty()
    }
}

/// A store of events by epoch. Within an epoch the events stay in the order
/// in which they were added.
pub trait EventStorage: Sized {
    type Event: Event;

    type Error;

    /// The events stored, by epoch.
    spec fn events(&self) -> EventsByEpoch<<Self::Event as View>::V>;

    /// Whether the storage is one whose calls always succeed.
    spec fn never_fails(&self) -> bool;

    /// Stores `event` as the last of its epoch.
    fn add_event(&mut self, event: Self::Event) -> (r: Result<(), Self::Error>)
        ensures
            final(self).never_fails() == old(self).never_fails(),
            old(self).never_fails() ==> r is Ok,
            r is Ok ==> final(self).events() == old(self).events().insert(
                Self::Event::spec_epoch_id(event@),
                events_in(old(self).events(), Self::Event::spec_epoch_id(event@)).push(event@),
            ),
            r is Err ==> final(self).events() == old(self).events(),
    ;

    /// The events of `epoch_id`, in the order in which they were added: none
    /// for an epoch that has no event.
    fn events_for_epoch(&mut self, epoch_id: &u64) -> (r: Result<Vec<Self::Event>, Self::Error>)
        ensures
            final(self).never_fails() == old(self).never_fails(),
            final(self).events() == old(self).events(),
            old(self).never_fails() ==> r is Ok,
            r matches Ok(events) ==> crate::vec_map::views(events@) == events_in(
                old(self).events(),
                *epoch_id,
            ),
    ;
}

} // verus!
