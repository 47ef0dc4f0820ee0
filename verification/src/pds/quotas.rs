use vstd::prelude::*;

use crate::budget::pure_dp_filter::PureDPBudget;
use crate::budget::traits::FilterCapacities;
use crate::error::PdsError;
use crate::events::traits::{EpochId, Uri};
use crate::vec_map::MapKey;

verus! {

/// The name of a filter: its kind, its epoch and, but for the collusion
/// filter, the site that it belongs to.
#[derive(Debug, Clone, PartialEq, Eq, Hash)]
pub enum FilterId<E = u64, U = String> {
    /// Non-collusion filter, one per querier and epoch.
    Nc(E, U),
    /// Collusion filter, one per epoch, shared by all queriers.
    C(E),
    /// Quota filter, one per trigger site and epoch.
    QTrigger(E, U),
    /// Quota filter, one per source site and epoch.
    QSource(E, U),
}

/// A filter id as contracts see it: the sites are sequences of characters.
pub type FilterKey = FilterId<u64, Seq<char>>;

impl<E: EpochId, U: Uri> View for FilterId<E, U> {
    type V = FilterId<E::V, U::V>;

    open spec fn view(&self) -> FilterId<E::V, U::V> {
        match *self {
            FilterId::Nc(e, u) => FilterId::Nc(e@, u@),
            FilterId::C(e) => FilterId::C(e@),
            FilterId::QTrigger(e, u) => FilterId::QTrigger(e@, u@),
            FilterId::QSource(e, u) => FilterId::QSource(e@, u@),
        }
    }
}

impl<E: EpochId, U: Uri> DeepView for FilterId<E, U> {
    type V = FilterId<E::V, U::V>;

    open spec fn deep_view(&self) -> FilterId<E::V, U::V> {
        self@
    }
}

impl<E: EpochId, U: Uri> MapKey for FilterId<E, U> {
    fn same_key(&self, other: &FilterId<E, U>) -> (b: bool) {
        match (self, other) {
            (FilterId::Nc(e1, u1), FilterId::Nc(e2, u2)) => e1.same_key(e2) && u1.same_key(u2),
            (FilterId::C(e1), FilterId::C(e2)) => e1.same_key(e2),
            (FilterId::QTrigger(e1, u1), FilterId::QTrigger(e2, u2)) => e1.same_key(e2)
                && u1.same_key(u2),
            (FilterId::QSource(e1, u1), FilterId::QSource(e2, u2)) => e1.same_key(e2)
                && u1.same_key(u2),
            _ => false,
        }
    }

    fn copy_key(&self) -> (k: FilterId<E, U>) {
        match self {
            FilterId::Nc(e, u) => FilterId::Nc(*e, u.copy_key()),
            FilterId::C(e) => FilterId::C(*e),
            FilterId::QTrigger(e, u) => FilterId::QTrigger(*e, u.copy_key()),
            FilterId::QSource(e, u) => FilterId::QSource(*e, u.copy_key()),
        }
    }
}

/// The id of the kind that `kind` names, for `epoch` and `uri`: `None` where
/// `kind` names no kind. The names of the kinds are those of the variants.
pub open spec fn filter_key_of_kind(kind: Seq<char>, epoch: u64, uri: Seq<char>) -> Option<
    FilterKey,
> {
    if kind == "Nc"@ {
        Some(FilterId::Nc(epoch, uri))
    } else if kind == "C"@ {
        Some(FilterId::C(epoch))
    } else if kind == "QTrigger"@ {
        Some(FilterId::QTrigger(epoch, uri))
    } else if kind == "QSource"@ {
        Some(FilterId::QSource(epoch, uri))
    } else {
        None
    }
}

impl FilterId<u64, String> {
    /// The id of the kind that `kind` names, for `epoch_id` and `uri`. The
    /// collusion filter has no site, and `uri` is left out of its id.
    pub fn from_kind(kind: &String, epoch_id: u64, uri: String) -> (r: Option<FilterId>)
        ensures
            match r {
                Some(id) => filter_key_of_kind(kind@, epoch_id, uri@) == Some(id@),
                None => filter_key_of_kind(kind@, epoch_id, uri@) is None,
            },
    {
        if *kind == "Nc".to_owned() {
            Some(FilterId::Nc(epoch_id, uri))
        } else if *kind == "C".to_owned() {
            Some(FilterId::C(epoch_id))
        } else if *kind == "QTrigger".to_owned() {
            Some(FilterId::QTrigger(epoch_id, uri))
        } else if *kind == "QSource".to_owned() {
            Some(FilterId::QSource(epoch_id, uri))
        } else {
            None
        }
    }
}

/// The capacity that a new filter gets, by the kind of the filter.
#[derive(Clone, Copy, Debug, PartialEq, Eq, Structural)]
pub struct StaticCapacities {
    pub nc: PureDPBudget,
    pub c: PureDPBudget,
    pub qtrigger: PureDPBudget,
    pub qsource: PureDPBudget,
}

impl StaticCapacities {
    pub fn new(
        nc: PureDPBudget,
        c: PureDPBudget,
        qtrigger: PureDPBudget,
        qsource: PureDPBudget,
    ) -> (caps: Self)
        ensures
            caps == (StaticCapacities { nc, c, qtrigger, qsource }),
    {
        StaticCapacities { nc, c, qtrigger, qsource }
    }

    /// The capacity of this configuration for the kind of `id`.
    pub open spec fn capacity_of(&self, id: FilterKey) -> PureDPBudget {
        match id {
            FilterId::Nc(..) => self.nc,
            FilterId::C(..) => self.c,
            FilterId::QTrigger(..) => self.qtrigger,
            FilterId::QSource(..) => self.qsource,
        }
    }
}

impl FilterCapacities for StaticCapacities {
    open spec fn spec_capacity(&self, id: FilterKey) -> PureDPBudget {
        self.capacity_of(id)
    }

    fn capacity(&self, filter_id: &FilterId) -> (r: Result<PureDPBudget, PdsError>) {
        match filter_id {
            FilterId::Nc(..) => Ok(self.nc),
            FilterId::C(..) => Ok(self.c),
            FilterId::QTrigger(..) => Ok(self.qtrigger),
            FilterId::QSource(..) => Ok(self.qsource),
        }
    }
}

/// The outcome of the check of all the filters of one epoch.
#[derive(Debug, Clone, PartialEq, Eq)]
pub enum PdsFilterStatus<FID> {
    /// Every filter has the budget asked of it.
    Continue,
    /// The filters named here lack the budget asked of them. The list may be
    /// empty where the check failed without naming a filter.
    OutOfBudget(Vec<FID>),
}

impl<FID> Default for PdsFilterStatus<FID> {
    fn default() -> (s: Self)
        ensures
            s matches PdsFilterStatus::OutOfBudget(ids) && ids@.len() == 0,
    {
        PdsFilterStatus::OutOfBudget(Vec::new())
    }
}

} // verus!
