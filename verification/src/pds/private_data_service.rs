use vstd::prelude::*;

use crate::budget::pure_dp_filter::{PureDPBudget, PureDPBudgetFilter};
use crate::budget::traits::{FilterCapacities, FilterStorage};
use crate::error::PdsError;
use crate::events::relevant_events::{relevant_in, RelevantEvents};
use crate::events::traits::{events_in, Event, EventStorage};
use crate::pds::pds_core::{
    charged, filter_keys, filter_losses, out_of_budget_keys, report_outcome,
    PrivateDataServiceCore,
};
use crate::pds::quotas::{FilterId, FilterKey, PdsFilterStatus};
use crate::queries::traits::{
    EpochReportRequest, PassivePrivacyLossRequest, Report, ReportRequestUrisView,
};
use crate::vec_map::VecMap;

verus! {

/// A report as the service returns it. Only `filtered_report` is meant to
/// leave the device; the rest is there to explain it.
#[derive(Debug)]
pub struct PdsReport<R: Report> {
    /// The report over the epochs that had the budget for it.
    pub filtered_report: R,
    /// The report over all epochs, which the accounting goes by.
    pub unfiltered_report: R,
    /// The filters that lacked the budget asked of them, for each epoch that
    /// was left out.
    pub oob_filters: Vec<FilterId>,
}

/// A report of the service, as contracts see it.
pub struct PdsReportView<RV> {
    pub filtered_report: RV,
    pub unfiltered_report: RV,
    pub oob_filters: Seq<FilterKey>,
}

impl<R: Report> View for PdsReport<R> {
    type V = PdsReportView<R::V>;

    open spec fn view(&self) -> PdsReportView<R::V> {
        PdsReportView {
            filtered_report: self.filtered_report@,
            unfiltered_report: self.unfiltered_report@,
            oob_filters: self.oob_filters.deep_view(),
        }
    }
}

/// What accounting for a passive loss of `budget` in each of `epochs` leaves
/// of `filters`, and the filters that lacked the budget. The epochs are
/// taken in turn: an epoch whose filters all have the budget is charged, and
/// the first epoch with a filter that lacks it ends the accounting, with no
/// filter of that epoch charged. The epochs before it stay charged.
pub open spec fn passive_loss<C: FilterCapacities>(
    filters: Map<FilterKey, PureDPBudgetFilter>,
    capacities: C,
    epochs: Seq<u64>,
    budget: PureDPBudget,
    uris: ReportRequestUrisView,
) -> (Map<FilterKey, PureDPBudgetFilter>, Seq<FilterKey>)
    decreases epochs.len(),
{
    if epochs.len() == 0 {
        (filters, Seq::empty())
    } else {
        let keys = filter_keys(epochs[0], uris.querier_uris, uris.trigger_uri, Seq::empty());
        let losses = filter_losses(keys, budget, Map::empty());
        let oob = out_of_budget_keys(filters, capacities, keys, losses);
        if oob.len() > 0 {
            (filters, oob)
        } else {
            passive_loss(
                charged(filters, capacities, keys, losses),
                capacities,
                epochs.skip(1),
                budget,
                uris,
            )
        }
    }
}

/// The filters of an accounting that has gone through the first `i` of
/// `epochs` and has handled the first `n` filters of the next one.
pub open spec fn passive_loss_interrupted_at<C: FilterCapacities>(
    filters: Map<FilterKey, PureDPBudgetFilter>,
    capacities: C,
    epochs: Seq<u64>,
    budget: PureDPBudget,
    uris: ReportRequestUrisView,
    i: int,
    n: int,
) -> Map<FilterKey, PureDPBudgetFilter> {
    let keys = filter_keys(epochs[i], uris.querier_uris, uris.trigger_uri, Seq::empty());
    charged(
        passive_loss(filters, capacities, epochs.take(i), budget, uris).0,
        capacities,
        keys.take(n),
        filter_losses(keys, budget, Map::empty()).take(n),
    )
}

/// An accounting that has found every filter of the first `i` epochs with
/// its budget goes on with the next epoch from the filters that it has
/// reached.
pub proof fn lemma_passive_loss_next<C: FilterCapacities>(
    filters: Map<FilterKey, PureDPBudgetFilter>,
    capacities: C,
    epochs: Seq<u64>,
    budget: PureDPBudget,
    uris: ReportRequestUrisView,
    i: int,
)
    requires
        0 <= i < epochs.len(),
        passive_loss(filters, capacities, epochs.take(i), budget, uris).1.len() == 0,
    ensures
        passive_loss(filters, capacities, epochs.take(i + 1), budget, uris) == passive_loss(
            passive_loss(filters, capacities, epochs.take(i), budget, uris).0,
            capacities,
            seq![epochs[i]],
            budget,
            uris,
        ),
    decreases i,
{
    if i == 0 {
        assert(epochs.take(1) =~= seq![epochs[0]]);
        assert(epochs.take(0) =~= Seq::<u64>::empty());
    } else {
        let keys = filter_keys(epochs[0], uris.querier_uris, uris.trigger_uri, Seq::empty());
        let losses = filter_losses(keys, budget, Map::empty());
        let next = charged(filters, capacities, keys, losses);
        let rest = epochs.skip(1);
        assert(epochs.take(i)[0] == epochs[0]);
        assert(epochs.take(i + 1)[0] == epochs[0]);
        assert(epochs.take(i).skip(1) =~= rest.take(i - 1));
        assert(epochs.take(i + 1).skip(1) =~= rest.take(i));
        assert(rest[i - 1] == epochs[i]);
        lemma_passive_loss_next(next, capacities, rest, budget, uris, i - 1);
    }
}

/// The private data service of a device: the core with its filters, and
/// the events of the device.
pub struct PrivateDataService<FS: FilterStorage, ES: EventStorage> {
    pub core: PrivateDataServiceCore<FS>,
    /// The events of the device.
    pub event_storage: ES,
}

impl<FS: FilterStorage, ES: EventStorage> PrivateDataService<FS, ES> {
    pub fn new(filter_storage: FS, event_storage: ES) -> (pds: Self)
        ensures
            pds.core.filter_storage == filter_storage,
            pds.event_storage == event_storage,
    {
        PrivateDataService { core: PrivateDataServiceCore::new(filter_storage), event_storage }
    }

    /// Stores `event` as the last of its epoch.
    pub fn register_event(&mut self, event: ES::Event) -> (r: Result<(), PdsError>)
        ensures
            final(self).core == old(self).core,
            final(self).event_storage.never_fails() == old(self).event_storage.never_fails(),
            old(self).event_storage.never_fails() ==> r is Ok,
            r matches Err(e) ==> e == PdsError::EventStorage,
            r is Ok ==> final(self).event_storage.events() == old(
                self,
            ).event_storage.events().insert(
                ES::Event::spec_epoch_id(event@),
                events_in(old(self).event_storage.events(), ES::Event::spec_epoch_id(event@)).push(
                    event@,
                ),
            ),
            r is Err ==> final(self).event_storage.events() == old(self).event_storage.events(),
    {
        match self.event_storage.add_event(event) {
            Ok(()) => Ok(()),
            Err(_) => Err(PdsError::EventStorage),
        }
    }

    /// Computes the report for `request` over the stored events that are
    /// relevant to it, and deducts its privacy loss from the filters. The
    /// events stay as they are.
    pub fn compute_report<Q>(&mut self, request: &Q) -> (r: Result<
        VecMap<String, PdsReport<Q::Report>>,
        PdsError,
    >) where Q: EpochReportRequest<Event = ES::Event>
        ensures
            final(self).event_storage.events() == old(self).event_storage.events(),
            final(self).event_storage.never_fails() == old(self).event_storage.never_fails(),
            final(self).core.filter_storage.spec_capacities() == old(
                self,
            ).core.filter_storage.spec_capacities(),
            final(self).core.filter_storage.never_fails() == old(
                self,
            ).core.filter_storage.never_fails(),
            (r matches Err(PdsError::EventStorage) && !old(self).event_storage.never_fails()
                && final(self).core.filter_storage.filters() == old(
                self,
            ).core.filter_storage.filters()) || report_outcome(
                *request,
                old(self).core.filter_storage.spec_capacities(),
                old(self).core.filter_storage.never_fails(),
                old(self).core.filter_storage.filters(),
                relevant_in(
                    old(self).event_storage.events(),
                    request.spec_epoch_ids(),
                    request.spec_relevant_event_selector(),
                ),
                final(self).core.filter_storage.filters(),
                r,
            ),
    {
        let relevant_event_selector = request.relevant_event_selector();
        let epoch_ids = request.epoch_ids();
        let relevant_events = match RelevantEvents::from_event_storage(
            &mut self.event_storage,
            epoch_ids.as_slice(),
            relevant_event_selector,
        ) {
            Ok(relevant_events) => relevant_events,
            Err(_) => {
                return Err(PdsError::EventStorage);
            },
        };
        self.core.compute_report(request, relevant_events)
    }

    /// Accounts for a privacy loss that no report goes with: the budget of
    /// `request` is deducted from the filters of each of its epochs.
    ///
    /// The epochs are taken in turn. Where a filter of an epoch lacks the
    /// budget, no filter of that epoch is charged, the accounting ends, and
    /// the filters that lacked it are returned. The epochs before it stay
    /// charged. Where the storage fails, the accounting ends there: the
    /// epochs before stay charged, and of the epoch at hand the filters that
    /// were handled.
    pub fn account_for_passive_privacy_loss(&mut self, request: PassivePrivacyLossRequest) -> (r:
        Result<PdsFilterStatus<FilterId>, PdsError>)
        ensures
            final(self).event_storage == old(self).event_storage,
            final(self).core.filter_storage.spec_capacities() == old(
                self,
            ).core.filter_storage.spec_capacities(),
            final(self).core.filter_storage.never_fails() == old(
                self,
            ).core.filter_storage.never_fails(),
            old(self).core.filter_storage.never_fails() ==> r is Ok,
            r matches Err(e) ==> e == PdsError::FilterStorage && exists|i: int, n: int|
                0 <= i < request.epoch_ids@.len() && 0 <= n <= filter_keys(
                    request.epoch_ids@[i],
                    request.uris@.querier_uris,
                    request.uris@.trigger_uri,
                    Seq::empty(),
                ).len() && passive_loss(
                    old(self).core.filter_storage.filters(),
                    old(self).core.filter_storage.spec_capacities(),
                    request.epoch_ids@.take(i),
                    request.privacy_budget,
                    request.uris@,
                ).1.len() == 0 && final(self).core.filter_storage.filters()
                    == #[trigger] passive_loss_interrupted_at(
                    old(self).core.filter_storage.filters(),
                    old(self).core.filter_storage.spec_capacities(),
                    request.epoch_ids@,
                    request.privacy_budget,
                    request.uris@,
                    i,
                    n,
                ),
            r matches Ok(status) ==> {
                let (filters, oob) = passive_loss(
                    old(self).core.filter_storage.filters(),
                    old(self).core.filter_storage.spec_capacities(),
                    request.epoch_ids@,
                    request.privacy_budget,
                    request.uris@,
                );
                &&& final(self).core.filter_storage.filters() == filters
                &&& oob.len() == 0 ==> status is Continue
                &&& oob.len() > 0 ==> (status matches PdsFilterStatus::OutOfBudget(ids)
                    && ids.deep_view() == oob)
            },
    {
        let source_losses: VecMap<String, PureDPBudget> = VecMap::new();
        let ghost capacities = self.core.filter_storage.spec_capacities();
        let ghost epochs = request.epoch_ids@;
        let ghost uris = request.uris@;
        let ghost budget = request.privacy_budget;
        let ghost outcome = passive_loss(
            self.core.filter_storage.filters(),
            capacities,
            epochs,
            budget,
            uris,
        );
        let ghost given = self.core.filter_storage.filters();
        let mut i: usize = 0;
        proof {
            assert(epochs.skip(0) =~= epochs);
            assert(epochs.take(0) =~= Seq::<u64>::empty());
        }
        while i < request.epoch_ids.len()
            invariant
                i <= request.epoch_ids.len(),
                given == old(self).core.filter_storage.filters(),
                passive_loss(given, capacities, epochs.take(i as int), budget, uris) == (
                    self.core.filter_storage.filters(),
                    Seq::<FilterKey>::empty(),
                ),
                epochs == request.epoch_ids@,
                uris == request.uris@,
                budget == request.privacy_budget,
                source_losses.keys() == Seq::<Seq<char>>::empty(),
                source_losses@ == Map::<Seq<char>, PureDPBudget>::empty(),
                self.event_storage == old(self).event_storage,
                capacities == old(self).core.filter_storage.spec_capacities(),
                self.core.filter_storage.spec_capacities() == capacities,
                self.core.filter_storage.never_fails() == old(
                    self,
                ).core.filter_storage.never_fails(),
                outcome == passive_loss(
                    old(self).core.filter_storage.filters(),
                    capacities,
                    epochs,
                    budget,
                    uris,
                ),
                outcome == passive_loss(
                    self.core.filter_storage.filters(),
                    capacities,
                    epochs.skip(i as int),
                    budget,
                    uris,
                ),
            decreases request.epoch_ids.len() - i,
        {
            let epoch_id = request.epoch_ids[i];
            proof {
                assert(epochs.skip(i as int)[0] == epoch_id);
                assert(epochs.skip(i as int).skip(1) =~= epochs.skip(i + 1));
            }
            let filters_to_consume = self.core.filters_to_consume(
                epoch_id,
                &request.privacy_budget,
                &source_losses,
                &request.uris,
            );

            let ghost current = self.core.filter_storage.filters();
            proof {
                lemma_passive_loss_next(given, capacities, epochs, budget, uris, i as int);
                assert(seq![epoch_id].skip(1) =~= Seq::<u64>::empty());
            }

            // Ask first, and charge only where every filter has the budget.
            let check_status = match self.core.deduct_budget(&filters_to_consume, true) {
                Ok(status) => status,
                Err(e) => {
                    proof {
                        assert(self.core.filter_storage.filters() == passive_loss_interrupted_at(
                            given,
                            capacities,
                            epochs,
                            budget,
                            uris,
                            i as int,
                            0,
                        ));
                    }
                    return Err(e);
                },
            };
            match check_status {
                PdsFilterStatus::Continue => {},
                PdsFilterStatus::OutOfBudget(ids) => {
                    return Ok(PdsFilterStatus::OutOfBudget(ids));
                },
            }
            let consume_status = match self.core.deduct_budget(&filters_to_consume, false) {
                Ok(status) => status,
                Err(e) => {
                    proof {
                        let n = choose|n: int|
                            0 <= n <= filters_to_consume.keys().len()
                                && self.core.filter_storage.filters() == #[trigger] charged(
                                current,
                                capacities,
                                filters_to_consume.keys().take(n),
                                filters_to_consume.values().take(n),
                            );
                        assert(self.core.filter_storage.filters() == passive_loss_interrupted_at(
                            given,
                            capacities,
                            epochs,
                            budget,
                            uris,
                            i as int,
                            n,
                        ));
                    }
                    return Err(e);
                },
            };
            match consume_status {
                PdsFilterStatus::Continue => {},
                PdsFilterStatus::OutOfBudget(_) => {
                    return Err(PdsError::CommitRefused);
                },
            }
            proof {
                assert(seq![epoch_id][0] == epoch_id);
                assert(passive_loss(current, capacities, seq![epoch_id], budget, uris)
                    == passive_loss(
                    self.core.filter_storage.filters(),
                    capacities,
                    Seq::<u64>::empty(),
                    budget,
                    uris,
                ));
            }
            i += 1;
        }
        Ok(PdsFilterStatus::Continue)
    }
}

} // verus!
