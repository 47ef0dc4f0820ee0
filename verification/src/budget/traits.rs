use vstd::prelude::*;

use crate::budget::pure_dp_filter::{PureDPBudget, PureDPBudgetFilter};
use crate::error::PdsError;
use crate::pds::quotas::{FilterId, FilterKey};

verus! {

/// A privacy budget: a quantity that filters hold and requests consume.
pub trait Budget: Sized {

}

/// What a filter answers to a request for budget.
#[derive(Clone, Copy, Debug, PartialEq, Eq, Structural)]
pub enum FilterStatus {
    /// The budget fits.
    Continue,
    /// The budget exceeds what remains.
    OutOfBudget,
}

/// A privacy filter: a capacity, and what has been consumed of it.
pub trait Filter<T: Budget>: Sized {
    type Error;

    /// What is left of the capacity.
    spec fn remaining(&self) -> T;

    /// Whether `budget` fits into what is left.
    spec fn admits(&self, budget: T) -> bool;

    /// The filter after `budget` has been consumed from it.
    spec fn after(&self, budget: T) -> Self;

    /// A filter of the given capacity, with nothing consumed.
    fn new(capacity: T) -> (r: Result<Self, Self::Error>)
        ensures
            r matches Ok(f) ==> f.remaining() == capacity,
    ;

    /// Says whether `budget` fits, without consuming it.
    fn can_consume(&self, budget: &T) -> (r: Result<FilterStatus, Self::Error>)
        ensures
            r matches Ok(s) ==> (s == FilterStatus::Continue <==> self.admits(*budget)),
    ;

    /// Consumes `budget` if it fits, and leaves the filter as it is otherwise.
    fn try_consume(&mut self, budget: &T) -> (r: Result<FilterStatus, Self::Error>)
        ensures
            r matches Ok(s) ==> (s == FilterStatus::Continue <==> old(self).admits(*budget)),
            r == Ok::<FilterStatus, Self::Error>(FilterStatus::Continue) ==> *final(self) == old(
                self,
            ).after(*budget),
            r != Ok::<FilterStatus, Self::Error>(FilterStatus::Continue) ==> *final(self) == *old(
                self,
            ),
    ;

    /// What is left of the capacity.
    fn remaining_budget(&self) -> (r: Result<T, Self::Error>)
        ensures
            r matches Ok(b) ==> b == self.remaining(),
    ;
}

/// The capacities that new filters are made with.
pub trait FilterCapacities {
    /// The capacity of a new filter named `id`.
    spec fn spec_capacity(&self, id: FilterKey) -> PureDPBudget;

    /// The capacity of a new filter named `filter_id`. It depends on nothing
    /// but the id, and there is one for every id.
    fn capacity(&self, filter_id: &FilterId) -> (r: Result<PureDPBudget, PdsError>)
        ensures
            r == Ok::<PureDPBudget, PdsError>(self.spec_capacity(filter_id@)),
    ;
}

/// Filters by id, as contracts see them.
pub type FilterMap = Map<FilterKey, PureDPBudgetFilter>;

/// The filter that `id` stands for in a storage that holds `filters`: the
/// stored one, or a fresh one of the capacity that `capacities` gives.
pub open spec fn filter_of<C: FilterCapacities>(
    filters: Map<FilterKey, PureDPBudgetFilter>,
    capacities: C,
    id: FilterKey,
) -> PureDPBudgetFilter {
    if filters.contains_key(id) {
        filters[id]
    } else {
        PureDPBudgetFilter::fresh(capacities.spec_capacity(id))
    }
}

/// A store of filters by id. Whoever keeps the filters implements it: in
/// memory, or on a backend that can fail.
///
/// What `get_filter` returns is exactly what `set_filter` stored last, and a
/// call that fails stores nothing.
pub trait FilterStorage: Sized {
    type Capacities: FilterCapacities;

    type Error;

    /// The filters that the storage holds.
    spec fn filters(&self) -> FilterMap;

    /// The capacities that the storage was made with.
    spec fn spec_capacities(&self) -> Self::Capacities;

    /// Whether the storage is one whose calls always succeed.
    spec fn never_fails(&self) -> bool;

    /// An empty storage, whose new filters get their capacity from
    /// `capacities`.
    fn new(capacities: Self::Capacities) -> (r: Result<Self, Self::Error>)
        ensures
            r matches Ok(s) ==> s.filters() == Map::<FilterKey, PureDPBudgetFilter>::empty()
                && s.spec_capacities() == capacities,
    ;

    /// The capacities that the storage was made with.
    fn capacities(&self) -> (c: &Self::Capacities)
        ensures
            *c == self.spec_capacities(),
    ;

    /// The filter stored under `filter_id`, or `None` where none was stored
    /// yet. The storage holds afterwards what it held before.
    fn get_filter(&mut self, filter_id: &FilterId) -> (r: Result<
        Option<PureDPBudgetFilter>,
        Self::Error,
    >)
        ensures
            final(self).filters() == old(self).filters(),
            final(self).spec_capacities() == old(self).spec_capacities(),
            final(self).never_fails() == old(self).never_fails(),
            old(self).never_fails() ==> r is Ok,
            r matches Ok(f) ==> f == old(self).filters().get(filter_id@),
    ;

    /// Stores `filter` under `filter_id`, in place of what was there.
    fn set_filter(&mut self, filter_id: &FilterId, filter: PureDPBudgetFilter) -> (r: Result<
        (),
        Self::Error,
    >)
        ensures
            final(self).spec_capacities() == old(self).spec_capacities(),
            final(self).never_fails() == old(self).never_fails(),
            old(self).never_fails() ==> r is Ok,
            r is Ok ==> final(self).filters() == old(self).filters().insert(filter_id@, filter),
            r is Err ==> final(self).filters() == old(self).filters(),
    ;

    /// The filter stored under `filter_id`, or a new one of the capacity for
    /// that id where none was stored yet. The new filter is not stored.
    fn get_filter_or_new(&mut self, filter_id: &FilterId) -> (r: Result<
        PureDPBudgetFilter,
        Self::Error,
    >)
        ensures
            final(self).filters() == old(self).filters(),
            final(self).spec_capacities() == old(self).spec_capacities(),
            final(self).never_fails() == old(self).never_fails(),
            old(self).never_fails() ==> r is Ok,
            r matches Ok(f) ==> f == filter_of(
                old(self).filters(),
                old(self).spec_capacities(),
                filter_id@,
            ),
    {
        match self.get_filter(filter_id) {
            Err(e) => Err(e),
            Ok(Some(filter)) => Ok(filter),
            Ok(None) => {
                let capacity = self.capacities().capacity(filter_id).unwrap();
                Ok(PureDPBudgetFilter::new(capacity).unwrap())
            },
        }
    }

    /// Says whether the filter of `filter_id` has `budget` left. The storage
    /// holds afterwards what it held before.
    fn can_consume(&mut self, filter_id: &FilterId, budget: &PureDPBudget) -> (r: Result<
        FilterStatus,
        Self::Error,
    >)
        ensures
            final(self).filters() == old(self).filters(),
            final(self).spec_capacities() == old(self).spec_capacities(),
            final(self).never_fails() == old(self).never_fails(),
            old(self).never_fails() ==> r is Ok,
            r matches Ok(s) ==> s == filter_of(
                old(self).filters(),
                old(self).spec_capacities(),
                filter_id@,
            ).spec_status(*budget),
    {
        match self.get_filter_or_new(filter_id) {
            Err(e) => Err(e),
            Ok(filter) => {
                Ok(filter.can_consume(budget).unwrap())
            },
        }
    }

    /// Consumes `budget` from the filter of `filter_id` if it has that much
    /// left. The filter is stored afterwards whether it changed or not, so
    /// that a first deduction creates its record.
    fn try_consume(&mut self, filter_id: &FilterId, budget: &PureDPBudget) -> (r: Result<
        FilterStatus,
        Self::Error,
    >)
        ensures
            final(self).spec_capacities() == old(self).spec_capacities(),
            final(self).never_fails() == old(self).never_fails(),
            old(self).never_fails() ==> r is Ok,
            r matches Ok(s) ==> {
                let filter = filter_of(
                    old(self).filters(),
                    old(self).spec_capacities(),
                    filter_id@,
                );
                &&& s == filter.spec_status(*budget)
                &&& final(self).filters() == old(self).filters().insert(
                    filter_id@,
                    filter.spec_try_consume(*budget),
                )
            },
            r is Err ==> final(self).filters() == old(self).filters(),
    {
        match self.get_filter_or_new(filter_id) {
            Err(e) => Err(e),
            Ok(filter) => {
                let mut filter = filter;
                let status = filter.try_consume(budget).unwrap();
                match self.set_filter(filter_id, filter) {
                    Err(e) => Err(e),
                    Ok(()) => Ok(status),
                }
            },
        }
    }

    /// What the filter of `filter_id` has left: of a filter that was never
    /// stored, its whole capacity.
    fn remaining_budget(&mut self, filter_id: &FilterId) -> (r: Result<PureDPBudget, Self::Error>)
        ensures
            final(self).filters() == old(self).filters(),
            final(self).spec_capacities() == old(self).spec_capacities(),
            final(self).never_fails() == old(self).never_fails(),
            old(self).never_fails() ==> r is Ok,
            r matches Ok(b) ==> b == filter_of(
                old(self).filters(),
                old(self).spec_capacities(),
                filter_id@,
            ).spec_remaining(),
    {
        match self.get_filter(filter_id) {
            Err(e) => Err(e),
            Ok(Some(filter)) => Ok(filter.remaining_budget().unwrap()),
            Ok(None) => Ok(self.capacities().capacity(filter_id).unwrap()),
        }
    }
}

} // verus!
