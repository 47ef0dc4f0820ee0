use std::collections::HashMap;
use vstd::prelude::*;

use crate::events::traits::{
    epoch_views, events_in, Event, EventStorage, RelevantEventSelector,
};
use crate::vec_map::{distinct, views};

verus! {

/// The events relevant to one request, by epoch. Within an epoch they are in
/// the order in which they were stored.
#[derive(Debug)]
pub struct RelevantEvents<E: Event> {
    pub events_per_epoch: HashMap<u64, Vec<E>>,
}

impl<E: Event> View for RelevantEvents<E> {
    type V = Map<u64, Seq<E::V>>;

    open spec fn view(&self) -> Map<u64, Seq<E::V>> {
        epoch_views(self.events_per_epoch@)
    }
}

/// The source sites of `events`, each once, in the order in which they occur
/// first.
pub open spec fn sources_of<E: Event>(events: Seq<E::V>) -> Seq<Seq<char>> {
    distinct(events.map_values(|event: E::V| E::spec_event_uris(event).source_uri))
}

/// The predicate that holds of the events that `selector` finds relevant.
pub open spec fn relevance<E: Event, S: RelevantEventSelector<Event = E>>(
    selector: S,
) -> spec_fn(E::V) -> bool {
    |event: E::V| selector.spec_is_relevant(event)
}

/// Of the events stored for `epochs`, those that `selector` finds relevant:
/// an entry for each of the epochs, also where it has no relevant event.
pub open spec fn relevant_in<E: Event, S: RelevantEventSelector<Event = E>>(
    stored: Map<u64, Seq<E::V>>,
    epochs: Seq<u64>,
    selector: S,
) -> Map<u64, Seq<E::V>> {
    Map::new(
        |epoch: u64| epochs.contains(epoch),
        |epoch: u64| events_in(stored, epoch).filter(relevance(selector)),
    )
}

/// The predicate that holds of the events of `epoch`.
pub open spec fn in_epoch<E: Event>(epoch: u64) -> spec_fn(E::V) -> bool {
    |event: E::V| E::spec_epoch_id(event) == epoch
}

/// The given events by epoch: each epoch that has an event, with its events
/// in their order.
pub open spec fn by_epoch<E: Event>(events: Seq<E::V>) -> Map<u64, Seq<E::V>> {
    Map::new(
        |epoch: u64|
            exists|i: int|
                0 <= i < events.len() && E::spec_epoch_id(#[trigger] events[i]) == epoch,
        |epoch: u64| events.filter(in_epoch::<E>(epoch)),
    )
}

impl<E: Event> RelevantEvents<E> {
    /// The given events, which are all relevant, by their epochs.
    pub fn from_events(events: &Vec<E>) -> (r: Self)
        ensures
            r@ == by_epoch::<E>(views(events@)),
    {
        let ghost all = views(events@);
        let mut events_per_epoch: HashMap<u64, Vec<E>> = HashMap::new();
        let mut i: usize = 0;
        proof {
            assert(all.take(0) =~= Seq::<E::V>::empty());
            assert(epoch_views(events_per_epoch@) =~= by_epoch::<E>(all.take(0)));
        }
        while i < events.len()
            invariant
                i <= events.len(),
                all == views(events@),
                epoch_views(events_per_epoch@) == by_epoch::<E>(all.take(i as int)),
            decreases events.len() - i,
        {
            let event = events[i].clone_event();
            let epoch_id = event.epoch_id();
            let ghost before = events_per_epoch@;
            let ghost earlier = all.take(i as int);
            let ghost added = event@;
            let mut epoch_events: Vec<E> = match events_per_epoch.remove(&epoch_id) {
                Some(epoch_events) => epoch_events,
                None => Vec::new(),
            };
            proof {
                assert(all.take(i + 1) =~= earlier.push(added));
                let prev = epoch_views(before);
                if prev.contains_key(epoch_id) {
                    assert(before.contains_key(epoch_id));
                    assert(prev[epoch_id] == views(before[epoch_id]@));
                    assert(epoch_events == before[epoch_id]);
                } else {
                    // No event so far is of this epoch.
                    let of_epoch = in_epoch::<E>(epoch_id);
                    assert forall|j: int| 0 <= j < earlier.len() implies !of_epoch(
                        #[trigger] earlier[j],
                    ) by {
                        if of_epoch(earlier[j]) {
                            assert(E::spec_epoch_id(earlier[j]) == epoch_id);
                            assert(by_epoch::<E>(earlier).contains_key(epoch_id));
                        }
                    }
                    assert(earlier.all(|x: E::V| !of_epoch(x)));
                    earlier.lemma_all_neg_filter_empty(of_epoch);
                    assert(epoch_events@.len() == 0);
                }
                assert(views(epoch_events@) =~= earlier.filter(in_epoch::<E>(epoch_id)));
            }
            let ghost earlier_in_epoch = epoch_events@;
            epoch_events.push(event);
            proof {
                assert(views(epoch_events@) =~= views(earlier_in_epoch).push(added));
            }
            events_per_epoch.insert(epoch_id, epoch_events);
            proof {
                let lhs = epoch_views(events_per_epoch@);
                let rhs = by_epoch::<E>(earlier.push(added));
                let prev = epoch_views(before);
                assert(events_per_epoch@ =~= before.insert(epoch_id, epoch_events));
                assert forall|epoch: u64| lhs.contains_key(epoch) == rhs.contains_key(epoch) by {
                    if rhs.contains_key(epoch) {
                        let j = choose|j: int|
                            0 <= j < earlier.push(added).len() && E::spec_epoch_id(
                                #[trigger] earlier.push(added)[j],
                            ) == epoch;
                        if j < earlier.len() {
                            assert(E::spec_epoch_id(earlier[j]) == epoch);
                            assert(prev.contains_key(epoch));
                        }
                    }
                    if prev.contains_key(epoch) {
                        let j = choose|j: int|
                            0 <= j < earlier.len() && E::spec_epoch_id(#[trigger] earlier[j])
                                == epoch;
                        assert(E::spec_epoch_id(earlier.push(added)[j]) == epoch);
                    }
                    if epoch == epoch_id {
                        assert(E::spec_epoch_id(earlier.push(added)[i as int]) == epoch);
                    }
                }
                assert forall|epoch: u64| lhs.contains_key(epoch) implies lhs[epoch]
                    == rhs[epoch] by {
                    earlier.lemma_filter_push(added, in_epoch::<E>(epoch));
                    if epoch != epoch_id {
                        assert(prev.contains_key(epoch));
                        assert(prev[epoch] == lhs[epoch]);
                    }
                }
                assert(lhs =~= rhs);
            }
            i += 1;
        }
        proof {
            assert(all.take(i as int) =~= all);
        }
        Self::from_mapping(events_per_epoch)
    }

    /// Fetches the events of `epoch_ids` from `event_storage` and keeps
    /// those that `selector` finds relevant. Every epoch asked for gets an
    /// entry, also where no event of it is relevant.
    pub fn from_event_storage<ES, S>(event_storage: &mut ES, epoch_ids: &[u64], selector: &S) -> (r:
        Result<Self, ES::Error>) where
        ES: EventStorage<Event = E>,
        S: RelevantEventSelector<Event = E>,

        ensures
            final(event_storage).events() == old(event_storage).events(),
            final(event_storage).never_fails() == old(event_storage).never_fails(),
            old(event_storage).never_fails() ==> r is Ok,
            r matches Ok(relevant) ==> relevant@ == relevant_in(
                old(event_storage).events(),
                epoch_ids@,
                *selector,
            ),
    {
        let ghost stored = event_storage.events();
        let ghost relevant = relevance(*selector);
        let mut events_per_epoch: HashMap<u64, Vec<E>> = HashMap::new();
        let mut i: usize = 0;
        proof {
            assert(epoch_views(events_per_epoch@) =~= relevant_in(
                stored,
                epoch_ids@.take(0),
                *selector,
            ));
        }
        while i < epoch_ids.len()
            invariant
                i <= epoch_ids.len(),
                stored == old(event_storage).events(),
                event_storage.events() == stored,
                event_storage.never_fails() == old(event_storage).never_fails(),
                relevant == relevance(*selector),
                epoch_views(events_per_epoch@) == relevant_in(
                    stored,
                    epoch_ids@.take(i as int),
                    *selector,
                ),
            decreases epoch_ids.len() - i,
        {
            let epoch_id = epoch_ids[i];
            let all = match event_storage.events_for_epoch(&epoch_id) {
                Ok(all) => all,
                Err(e) => {
                    return Err(e);
                },
            };
            let mut kept: Vec<E> = Vec::new();
            let mut j: usize = 0;
            proof {
                assert(views(all@).take(0) =~= Seq::<E::V>::empty());
                assert(views(kept@) =~= Seq::<E::V>::empty());
            }
            while j < all.len()
                invariant
                    j <= all.len(),
                    relevant == relevance(*selector),
                    views(kept@) == views(all@).take(j as int).filter(relevant),
                decreases all.len() - j,
            {
                proof {
                    assert(views(all@).take(j + 1) =~= views(all@).take(j as int).push(
                        all@[j as int]@,
                    ));
                    views(all@).take(j as int).lemma_filter_push(all@[j as int]@, relevant);
                }
                if selector.is_relevant_event(&all[j]) {
                    let ghost before = kept@;
                    kept.push(all[j].clone_event());
                    proof {
                        assert(views(kept@) =~= views(before).push(all@[j as int]@));
                    }
                }
                j += 1;
            }
            proof {
                assert(views(all@).take(j as int) =~= views(all@));
                assert(epoch_ids@.take(i + 1) =~= epoch_ids@.take(i as int).push(epoch_id));
            }
            let ghost before = events_per_epoch@;
            events_per_epoch.insert(epoch_id, kept);
            proof {
                let earlier = epoch_ids@.take(i as int);
                broadcast use vstd::seq_lib::lemma_seq_contains_after_push;
                let lhs = epoch_views(events_per_epoch@);
                let rhs = relevant_in(stored, earlier.push(epoch_id), *selector);
                let prev = epoch_views(before);
                assert(prev == relevant_in(stored, earlier, *selector));
                assert(views(kept@) == events_in(stored, epoch_id).filter(relevant));
                assert forall|epoch: u64| lhs.contains_key(epoch) == rhs.contains_key(epoch) by {
                    assert(prev.contains_key(epoch) == earlier.contains(epoch));
                    assert(rhs.contains_key(epoch) == earlier.push(epoch_id).contains(epoch));
                }
                assert forall|epoch: u64| lhs.contains_key(epoch) implies lhs[epoch]
                    == rhs[epoch] by {
                    if epoch != epoch_id {
                        assert(prev.contains_key(epoch));
                        assert(prev[epoch] == lhs[epoch]);
                    }
                }
                assert(lhs =~= rhs);
            }
            i += 1;
        }
        proof {
            assert(epoch_ids@.take(i as int) =~= epoch_ids@);
        }
        let r = Self::from_mapping(events_per_epoch);
        Ok(r)
    }

    /// The relevant events that `events_per_epoch` holds.
    pub fn from_mapping(events_per_epoch: HashMap<u64, Vec<E>>) -> (r: Self)
        ensures
            r.events_per_epoch == events_per_epoch,
    {
        RelevantEvents { events_per_epoch }
    }

    /// The relevant events of `epoch_id`: none where the epoch is absent.
    pub fn for_epoch(&self, epoch_id: &u64) -> (events: &[E])
        ensures
            views(events@) == events_in(self@, *epoch_id),
    {
        match self.events_per_epoch.get(epoch_id) {
            Some(events) => events.as_slice(),
            None => {
                let none: &[E] = &[];
                proof {
                    assert(views(none@) =~= Seq::<E::V>::empty());
                }
                none
            },
        }
    }

    /// The source sites that have a relevant event in `epoch_id`, each once.
    pub fn sources_for_epoch(&self, epoch_id: &u64) -> (sources: Vec<String>)
        ensures
            sources.deep_view() == sources_of::<E>(events_in(self@, *epoch_id)),
    {
        let events = self.for_epoch(epoch_id);
        let ghost all = views(events@).map_values(
            |event: E::V| E::spec_event_uris(event).source_uri,
        );
        let mut sources: Vec<String> = Vec::new();
        let mut i: usize = 0;
        proof {
            assert(all.take(0) =~= Seq::<Seq<char>>::empty());
            assert(sources.deep_view() =~= Seq::<Seq<char>>::empty());
        }
        while i < events.len()
            invariant
                i <= events.len(),
                all == views(events@).map_values(
                    |event: E::V| E::spec_event_uris(event).source_uri,
                ),
                sources.deep_view() == distinct(all.take(i as int)),
            decreases events.len() - i,
        {
            let source = &events[i].event_uris().source_uri;
            proof {
                assert(all.take(i + 1).drop_last() =~= all.take(i as int));
                assert(all.take(i + 1).last() == source@);
            }
            if !crate::events::traits::contains_uri(&sources, source) {
                let ghost before = sources.deep_view();
                sources.push(source.clone());
                proof {
                    assert(sources.deep_view() =~= before.push(source@));
                }
            }
            i += 1;
        }
        proof {
            assert(all.take(i as int) =~= all);
        }
        sources
    }

    /// Forgets `epoch_id` and all its events.
    pub fn drop_epoch(&mut self, epoch_id: &u64)
        ensures
            final(self)@ == old(self)@.remove(*epoch_id),
    {
        self.events_per_epoch.remove(epoch_id);
        proof {
            assert(self@ =~= old(self)@.remove(*epoch_id));
        }
    }
}

} // verus!
