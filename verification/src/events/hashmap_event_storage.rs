use std::collections::HashMap;
use vstd::prelude::*;

use crate::error::PdsError;
use crate::events::traits::{epoch_views, events_in, Event, EventStorage};
use crate::vec_map::views;

verus! {

/// Event storage in memory: for each epoch the events added to it. It hands
/// out copies of its events, and its calls always succeed.
#[derive(Debug)]
pub struct HashMapEventStorage<E: Event> {
    epochs: HashMap<u64, Vec<E>>,
}

impl<E: Event> HashMapEventStorage<E> {
    /// A storage without events.
    pub fn new() -> (s: Self)
        ensures
            s.events() == Map::<u64, Seq<E::V>>::empty(),
    {
        let s = HashMapEventStorage { epochs: HashMap::new() };
        proof {
            assert(s.events() =~= Map::<u64, Seq<E::V>>::empty());
        }
        s
    }
}

impl<E: Event> EventStorage for HashMapEventStorage<E> {
    type Event = E;

    type Error = PdsError;

    closed spec fn events(&self) -> Map<u64, Seq<E::V>> {
        epoch_views(self.epochs@)
    }

    open spec fn never_fails(&self) -> bool {
        true
    }

    fn add_event(&mut self, event: E) -> (r: Result<(), PdsError>) {
        let epoch_id = event.epoch_id();
        let ghost before = self.epochs@;
        let ghost added = event@;
        let mut epoch: Vec<E> = match self.epochs.remove(&epoch_id) {
            Some(events) => events,
            None => Vec::new(),
        };
        proof {
            assert(views(epoch@) =~= events_in(old(self).events(), epoch_id));
        }
        let ghost earlier = epoch@;
        epoch.push(event);
        proof {
            assert(views(epoch@) =~= views(earlier).push(added));
        }
        self.epochs.insert(epoch_id, epoch);
        proof {
            assert(self.epochs@ =~= before.insert(epoch_id, epoch));
            assert(self.events() =~= old(self).events().insert(
                epoch_id,
                events_in(old(self).events(), epoch_id).push(added),
            ));
        }
        Ok(())
    }

    fn events_for_epoch(&mut self, epoch_id: &u64) -> (r: Result<Vec<E>, PdsError>) {
        let mut events: Vec<E> = Vec::new();
        match self.epochs.get(epoch_id) {
            None => {
                proof {
                    assert(views(events@) =~= Seq::<E::V>::empty());
                }
            },
            Some(stored) => {
                let mut i: usize = 0;
                while i < stored.len()
                    invariant
                        i <= stored.len(),
                        views(events@) == views(stored@).take(i as int),
                    decreases stored.len() - i,
                {
                    let ghost before = events@;
                    events.push(stored[i].clone_event());
                    proof {
                        assert(views(events@) =~= views(before).push(stored@[i as int]@));
                        assert(views(stored@).take(i + 1) =~= views(stored@).take(i as int).push(
                            stored@[i as int]@,
                        ));
                    }
                    i += 1;
                }
                proof {
                    assert(views(stored@).take(i as int) =~= views(stored@));
                }
            },
        }
        Ok(events)
    }
}

} // verus!
