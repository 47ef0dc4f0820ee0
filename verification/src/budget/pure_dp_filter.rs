use vstd::prelude::*;

use crate::budget::traits::{Budget, Filter, FilterStatus};
use crate::error::PdsError;

verus! {

/// How many units make one: every budget, value and noise scale of this
/// crate is a whole number of billionths.
pub const UNITS_PER_ONE: u64 = 1_000_000_000;

/// A budget for pure differential privacy: an epsilon counted in billionths,
/// or the infinite budget.
///
/// The infinite budget is the capacity of a filter that is switched off, and
/// the loss of a query that adds no noise.
#[derive(Clone, Copy, Debug, PartialEq, Eq, Structural)]
pub enum PureDPBudget {
    /// A finite epsilon, in billionths.
    Epsilon(u64),
    /// More than any finite epsilon.
    Infinite,
}

impl Budget for PureDPBudget {

}

impl PureDPBudget {
    /// The order of budgets: the infinite budget is above every finite one
    /// and equal to itself.
    pub open spec fn spec_leq(self, other: PureDPBudget) -> bool {
        match (self, other) {
            (_, PureDPBudget::Infinite) => true,
            (PureDPBudget::Infinite, PureDPBudget::Epsilon(_)) => false,
            (PureDPBudget::Epsilon(a), PureDPBudget::Epsilon(b)) => a <= b,
        }
    }

    /// The sum of two budgets. A sum that the finite range cannot hold is
    /// infinite.
    pub open spec fn spec_plus(self, other: PureDPBudget) -> PureDPBudget {
        match (self, other) {
            (PureDPBudget::Epsilon(a), PureDPBudget::Epsilon(b)) => if a + b <= u64::MAX {
                PureDPBudget::Epsilon((a + b) as u64)
            } else {
                PureDPBudget::Infinite
            },
            _ => PureDPBudget::Infinite,
        }
    }

    /// The difference of two budgets, which stops at zero. Whatever is taken
    /// from the infinite budget, it stays infinite.
    pub open spec fn spec_minus(self, other: PureDPBudget) -> PureDPBudget {
        match (self, other) {
            (PureDPBudget::Infinite, _) => PureDPBudget::Infinite,
            (PureDPBudget::Epsilon(_), PureDPBudget::Infinite) => PureDPBudget::Epsilon(0),
            (PureDPBudget::Epsilon(a), PureDPBudget::Epsilon(b)) => if a >= b {
                PureDPBudget::Epsilon((a - b) as u64)
            } else {
                PureDPBudget::Epsilon(0)
            },
        }
    }

    /// The budget of `whole` times one.
    pub open spec fn spec_from_whole(whole: u64) -> PureDPBudget {
        if whole * UNITS_PER_ONE <= u64::MAX {
            PureDPBudget::Epsilon((whole * UNITS_PER_ONE) as u64)
        } else {
            PureDPBudget::Infinite
        }
    }

    /// The budget of `whole` times one; infinite where the finite range
    /// cannot hold it.
    pub fn from_whole(whole: u64) -> (b: PureDPBudget)
        ensures
            b == Self::spec_from_whole(whole),
    {
        match whole.checked_mul(UNITS_PER_ONE) {
            Some(units) => PureDPBudget::Epsilon(units),
            None => PureDPBudget::Infinite,
        }
    }

    /// Whether the budget is finite.
    pub fn is_finite(&self) -> (b: bool)
        ensures
            b == (*self is Epsilon),
    {
        match self {
            PureDPBudget::Epsilon(_) => true,
            PureDPBudget::Infinite => false,
        }
    }

    /// Whether `self` is at most `other`.
    pub fn leq(&self, other: &PureDPBudget) -> (b: bool)
        ensures
            b == self.spec_leq(*other),
    {
        match (self, other) {
            (_, PureDPBudget::Infinite) => true,
            (PureDPBudget::Infinite, PureDPBudget::Epsilon(_)) => false,
            (PureDPBudget::Epsilon(a), PureDPBudget::Epsilon(b)) => *a <= *b,
        }
    }

    /// The sum of `self` and `other`.
    pub fn plus(&self, other: &PureDPBudget) -> (b: PureDPBudget)
        ensures
            b == self.spec_plus(*other),
    {
        match (self, other) {
            (PureDPBudget::Epsilon(a), PureDPBudget::Epsilon(b)) => match a.checked_add(*b) {
                Some(sum) => PureDPBudget::Epsilon(sum),
                None => PureDPBudget::Infinite,
            },
            _ => PureDPBudget::Infinite,
        }
    }

    /// What is left of `self` once `other` is taken from it.
    pub fn minus(&self, other: &PureDPBudget) -> (b: PureDPBudget)
        ensures
            b == self.spec_minus(*other),
    {
        match (self, other) {
            (PureDPBudget::Infinite, _) => PureDPBudget::Infinite,
            (PureDPBudget::Epsilon(_), PureDPBudget::Infinite) => PureDPBudget::Epsilon(0),
            (PureDPBudget::Epsilon(a), PureDPBudget::Epsilon(b)) => if *a >= *b {
                PureDPBudget::Epsilon(*a - *b)
            } else {
                PureDPBudget::Epsilon(0)
            },
        }
    }
}

/// A filter for pure differential privacy: what has been consumed, and the
/// capacity that it may not exceed.
#[derive(Clone, Copy, Debug, PartialEq, Eq, Structural)]
pub struct PureDPBudgetFilter {
    pub consumed: PureDPBudget,
    /// The infinite capacity switches the filter off.
    pub capacity: PureDPBudget,
}

impl PureDPBudgetFilter {
    /// A filter is well formed when it has consumed no more than its
    /// capacity.
    pub open spec fn wf(&self) -> bool {
        self.consumed.spec_leq(self.capacity)
    }

    /// The filter of the given capacity that has consumed nothing.
    pub open spec fn fresh(capacity: PureDPBudget) -> PureDPBudgetFilter {
        PureDPBudgetFilter { consumed: PureDPBudget::Epsilon(0), capacity }
    }

    /// What is left: the capacity less what was consumed, and the infinite
    /// budget where the capacity is infinite.
    pub open spec fn spec_remaining(&self) -> PureDPBudget {
        self.capacity.spec_minus(self.consumed)
    }

    /// Whether `budget` fits: always under an infinite capacity, else when
    /// what was consumed and `budget` together stay within the capacity.
    pub open spec fn spec_admits(&self, budget: PureDPBudget) -> bool {
        match self.capacity {
            PureDPBudget::Infinite => true,
            PureDPBudget::Epsilon(capacity) => match (self.consumed, budget) {
                (PureDPBudget::Epsilon(consumed), PureDPBudget::Epsilon(b)) => consumed + b
                    <= capacity,
                _ => false,
            },
        }
    }

    /// The filter once `budget` has been added to what it consumed.
    pub open spec fn spec_after(&self, budget: PureDPBudget) -> PureDPBudgetFilter {
        PureDPBudgetFilter { consumed: self.consumed.spec_plus(budget), capacity: self.capacity }
    }

    /// What an attempt to consume `budget` leaves of the filter.
    pub open spec fn spec_try_consume(&self, budget: PureDPBudget) -> PureDPBudgetFilter {
        if self.spec_admits(budget) {
            self.spec_after(budget)
        } else {
            *self
        }
    }

    /// What the filter answers to a request for `budget`.
    pub open spec fn spec_status(&self, budget: PureDPBudget) -> FilterStatus {
        if self.spec_admits(budget) {
            FilterStatus::Continue
        } else {
            FilterStatus::OutOfBudget
        }
    }
}

impl PureDPBudgetFilter {
    /// A well-formed filter stays well formed, whatever it is asked to
    /// consume.
    pub proof fn lemma_try_consume_wf(self, budget: PureDPBudget)
        requires
            self.wf(),
        ensures
            self.spec_try_consume(budget).wf(),
            self.spec_try_consume(budget).capacity == self.capacity,
    {
    }

    /// What a filter has left never grows.
    pub proof fn lemma_remaining_never_grows(self, budget: PureDPBudget)
        ensures
            self.spec_try_consume(budget).spec_remaining().spec_leq(self.spec_remaining()),
            self.consumed.spec_leq(self.spec_try_consume(budget).consumed),
    {
    }

    /// A finite budget that is no more than what is left is granted, and
    /// what is left afterwards is less by exactly that budget.
    pub proof fn lemma_consume_deducts(self, budget: PureDPBudget)
        requires
            self.wf(),
            budget is Epsilon,
            budget.spec_leq(self.spec_remaining()),
        ensures
            self.spec_status(budget) == FilterStatus::Continue,
            self.spec_try_consume(budget).spec_remaining() == self.spec_remaining().spec_minus(
                budget,
            ),
    {
    }

    /// Asking and consuming agree: a request is answered with `Continue`
    /// exactly when the filter admits the budget, and consuming changes the
    /// filter exactly then.
    pub proof fn lemma_asking_agrees_with_consuming(self, budget: PureDPBudget)
        ensures
            self.spec_status(budget) == FilterStatus::Continue <==> self.spec_admits(budget),
            self.spec_status(budget) == FilterStatus::Continue ==> self.spec_try_consume(budget)
                == self.spec_after(budget),
            self.spec_status(budget) == FilterStatus::OutOfBudget ==> self.spec_try_consume(budget)
                == self,
    {
    }

    /// The infinite budget is granted by the filters of infinite capacity,
    /// and by no other.
    pub proof fn lemma_infinite_budget(self)
        ensures
            self.spec_admits(PureDPBudget::Infinite) <==> self.capacity is Infinite,
    {
    }

    /// Asking for nothing leaves a filter as it is.
    pub proof fn lemma_zero_budget(self)
        ensures
            self.spec_try_consume(PureDPBudget::Epsilon(0)) == self,
    {
    }
}

impl Filter<PureDPBudget> for PureDPBudgetFilter {
    type Error = PdsError;

    open spec fn remaining(&self) -> PureDPBudget {
        self.spec_remaining()
    }

    open spec fn admits(&self, budget: PureDPBudget) -> bool {
        self.spec_admits(budget)
    }

    open spec fn after(&self, budget: PureDPBudget) -> PureDPBudgetFilter {
        self.spec_after(budget)
    }

    fn new(capacity: PureDPBudget) -> (r: Result<Self, PdsError>)
        ensures
            r == Ok::<Self, PdsError>(Self::fresh(capacity)),
    {
        let filter = PureDPBudgetFilter { consumed: PureDPBudget::Epsilon(0), capacity };
        assert(filter.spec_remaining() == capacity);
        assert(filter.remaining() == filter.spec_remaining());
        Ok(filter)
    }

    fn can_consume(&self, budget: &PureDPBudget) -> (r: Result<FilterStatus, PdsError>)
        ensures
            r == Ok::<FilterStatus, PdsError>(self.spec_status(*budget)),
    {
        let fits = match self.capacity {
            PureDPBudget::Infinite => true,
            PureDPBudget::Epsilon(capacity) => match (self.consumed, *budget) {
                (PureDPBudget::Epsilon(consumed), PureDPBudget::Epsilon(b)) => b <= capacity
                    && consumed <= capacity - b,
                _ => false,
            },
        };
        if fits {
            Ok(FilterStatus::Continue)
        } else {
            Ok(FilterStatus::OutOfBudget)
        }
    }

    fn try_consume(&mut self, budget: &PureDPBudget) -> (r: Result<FilterStatus, PdsError>)
        ensures
            r == Ok::<FilterStatus, PdsError>(old(self).spec_status(*budget)),
            *final(self) == old(self).spec_try_consume(*budget),
            old(self).wf() ==> final(self).wf(),
    {
        let status = self.can_consume(budget)?;
        if status == FilterStatus::Continue {
            self.consumed = self.consumed.plus(budget);
        }
        Ok(status)
    }

    fn remaining_budget(&self) -> (r: Result<PureDPBudget, PdsError>)
        ensures
            r == Ok::<PureDPBudget, PdsError>(self.spec_remaining()),
    {
        Ok(self.capacity.minus(&self.consumed))
    }
}

} // verus!
