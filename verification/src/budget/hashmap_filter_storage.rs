use vstd::prelude::*;

use crate::budget::pure_dp_filter::PureDPBudgetFilter;
use crate::budget::traits::{FilterCapacities, FilterStorage};
use crate::error::PdsError;
use crate::pds::quotas::{FilterId, FilterKey};
use crate::vec_map::{MapKey, VecMap};

verus! {

/// Filter storage in memory. Its calls always succeed.
#[derive(Debug)]
pub struct HashMapFilterStorage<C: FilterCapacities> {
    capacities: C,
    filters: VecMap<FilterId, PureDPBudgetFilter>,
}

impl<C: FilterCapacities> HashMapFilterStorage<C> {
    /// The number of filters stored.
    pub fn len(&self) -> (n: usize)
        ensures
            n == self.filters().len(),
            n == self.filter_ids().len(),
    {
        self.filters.len()
    }

    /// The ids of the filters stored, in the order in which they were
    /// stored first.
    pub closed spec fn filter_ids(&self) -> Seq<FilterKey> {
        self.filters.keys()
    }

    /// The `i`-th of the filters stored, with its id.
    pub fn filter_at(&self, i: usize) -> (r: (&FilterId, &PureDPBudgetFilter))
        requires
            i < self.filter_ids().len(),
        ensures
            r.0@ == self.filter_ids()[i as int],
            self.filters().contains_key(r.0@),
            *r.1 == self.filters()[r.0@],
    {
        proof {
            use_type_invariant(&self.filters);
            self.filters.lemma_view();
        }
        (self.filters.key_at(i), self.filters.value_at(i))
    }
}

impl<C: FilterCapacities> FilterStorage for HashMapFilterStorage<C> {
    type Capacities = C;

    type Error = PdsError;

    closed spec fn filters(&self) -> Map<FilterKey, PureDPBudgetFilter> {
        self.filters@
    }

    closed spec fn spec_capacities(&self) -> C {
        self.capacities
    }

    open spec fn never_fails(&self) -> bool {
        true
    }

    fn new(capacities: C) -> (r: Result<Self, PdsError>)
        ensures
            r is Ok,
    {
        Ok(HashMapFilterStorage { capacities, filters: VecMap::new() })
    }

    fn capacities(&self) -> (c: &C) {
        &self.capacities
    }

    fn get_filter(&mut self, filter_id: &FilterId) -> (r: Result<
        Option<PureDPBudgetFilter>,
        PdsError,
    >) {
        match self.filters.get(filter_id) {
            Some(filter) => Ok(Some(*filter)),
            None => Ok(None),
        }
    }

    fn set_filter(&mut self, filter_id: &FilterId, filter: PureDPBudgetFilter) -> (r: Result<
        (),
        PdsError,
    >) {
        self.filters.insert(filter_id.copy_key(), filter);
        Ok(())
    }
}

} // verus!
