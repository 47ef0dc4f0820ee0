use vstd::prelude::*;

use crate::budget::pure_dp_filter::{PureDPBudget, PureDPBudgetFilter};
use crate::budget::traits::{filter_of, FilterCapacities, FilterStatus, FilterStorage};
use crate::error::PdsError;
use crate::events::relevant_events::{sources_of, RelevantEvents};
use crate::events::traits::{events_in, Event};
use crate::pds::accounting::{
    compute_epoch_loss, compute_epoch_source_losses, epoch_loss, epoch_source_losses,
};
use crate::pds::private_data_service::{PdsReport, PdsReportView};
use crate::pds::quotas::{FilterId, FilterKey, PdsFilterStatus};
use crate::queries::traits::{
    EpochReportRequest, QueryComputeResult, QueryComputeResultView, Report, ReportRequestUris,
    ReportRequestUrisView,
};
use crate::vec_map::{distinct, views, MapKey, VecMap};

verus! {

/// The ids of the filters that one epoch of a request draws on, in the order
/// in which they are checked: the non-collusion filter of each querier, the
/// quota filter of the trigger site, the collusion filter, and the quota
/// filter of each source site that has a loss.
pub open spec fn filter_keys(
    epoch: u64,
    queriers: Seq<Seq<char>>,
    trigger: Seq<char>,
    sources: Seq<Seq<char>>,
) -> Seq<FilterKey> {
    distinct(queriers.map_values(|q: Seq<char>| FilterId::Nc(epoch, q)))
        + seq![FilterId::QTrigger(epoch, trigger), FilterId::C(epoch)]
        + sources.map_values(|s: Seq<char>| FilterId::QSource(epoch, s))
}

/// The loss that a filter is charged: a source quota filter the loss of its
/// source, every other filter the loss of the epoch.
pub open spec fn loss_for(
    id: FilterKey,
    loss: PureDPBudget,
    source_losses: Map<Seq<char>, PureDPBudget>,
) -> PureDPBudget {
    match id {
        FilterId::QSource(_, source) => source_losses[source],
        _ => loss,
    }
}

/// The filters that one epoch of a request draws on, each with the loss
/// asked of it: the non-collusion filter of each querier, the quota filter of
/// the trigger site and the collusion filter with the loss of the epoch, and
/// the quota filter of each source that has a loss with that loss.
pub open spec fn filter_set(
    epoch: u64,
    loss: PureDPBudget,
    source_losses: Map<Seq<char>, PureDPBudget>,
    queriers: Seq<Seq<char>>,
    trigger: Seq<char>,
) -> Map<FilterKey, PureDPBudget> {
    Map::new(
        |id: FilterKey|
            match id {
                FilterId::Nc(e, querier) => e == epoch && queriers.contains(querier),
                FilterId::C(e) => e == epoch,
                FilterId::QTrigger(e, site) => e == epoch && site == trigger,
                FilterId::QSource(e, source) => e == epoch && source_losses.contains_key(source),
            },
        |id: FilterKey| loss_for(id, loss, source_losses),
    )
}

/// The loss that each of `keys` is charged.
pub open spec fn filter_losses(
    keys: Seq<FilterKey>,
    loss: PureDPBudget,
    source_losses: Map<Seq<char>, PureDPBudget>,
) -> Seq<PureDPBudget> {
    keys.map_values(|id: FilterKey| loss_for(id, loss, source_losses))
}

/// The ids among `keys` whose filters lack the loss asked of them, in the
/// order of `keys`.
pub open spec fn out_of_budget_keys<C: FilterCapacities>(
    filters: Map<FilterKey, PureDPBudgetFilter>,
    capacities: C,
    keys: Seq<FilterKey>,
    losses: Seq<PureDPBudget>,
) -> Seq<FilterKey>
    decreases keys.len(),
{
    if keys.len() == 0 || losses.len() != keys.len() {
        Seq::empty()
    } else {
        let before = out_of_budget_keys(filters, capacities, keys.drop_last(), losses.drop_last());
        if filter_of(filters, capacities, keys.last()).spec_admits(losses.last()) {
            before
        } else {
            before.push(keys.last())
        }
    }
}

/// The filters after each of `keys` was charged its loss where its filter
/// had that much left. Every filter that was asked is stored afterwards,
/// changed or not.
pub open spec fn charged<C: FilterCapacities>(
    filters: Map<FilterKey, PureDPBudgetFilter>,
    capacities: C,
    keys: Seq<FilterKey>,
    losses: Seq<PureDPBudget>,
) -> Map<FilterKey, PureDPBudgetFilter>
    decreases keys.len(),
{
    if keys.len() == 0 || losses.len() != keys.len() {
        filters
    } else {
        let before = charged(filters, capacities, keys.drop_last(), losses.drop_last());
        before.insert(
            keys.last(),
            filter_of(before, capacities, keys.last()).spec_try_consume(losses.last()),
        )
    }
}

/// How far a pass over the epochs of a request has come: the filters, the
/// relevant events of the epochs that are still in, and the filters that
/// lacked budget in the epochs that were left out.
pub struct EpochPass<EV> {
    pub filters: Map<FilterKey, PureDPBudgetFilter>,
    pub events: Map<u64, Seq<EV>>,
    pub oob_filters: Seq<FilterKey>,
}

/// The ids of the filters that `request` draws on in `epoch`.
pub open spec fn epoch_keys<Q: EpochReportRequest>(request: Q, epoch: u64) -> Seq<FilterKey> {
    let uris = request.spec_report_uris();
    filter_keys(epoch, uris.querier_uris, uris.trigger_uri, distinct(uris.source_uris))
}

/// The loss that `request` asks of each of its filters in `epoch`, of which
/// `events` are the relevant events.
pub open spec fn epoch_losses<Q: EpochReportRequest>(
    request: Q,
    epoch: u64,
    events: Seq<<Q::Event as View>::V>,
    report: <Q::Report as View>::V,
    num_epochs: nat,
) -> Seq<PureDPBudget> {
    filter_losses(
        epoch_keys(request, epoch),
        epoch_loss(request, events.len() > 0, report, num_epochs),
        epoch_source_losses(request, sources_of::<Q::Event>(events), report, num_epochs),
    )
}

/// The pass after `epoch`: where every filter of the epoch has the loss
/// asked of it, all of them are charged; otherwise none is, the epoch loses
/// its events, and the filters that lacked budget are noted.
pub open spec fn after_epoch<Q: EpochReportRequest, C: FilterCapacities>(
    request: Q,
    capacities: C,
    report: <Q::Report as View>::V,
    num_epochs: nat,
    pass: EpochPass<<Q::Event as View>::V>,
    epoch: u64,
) -> EpochPass<<Q::Event as View>::V> {
    let keys = epoch_keys(request, epoch);
    let losses = epoch_losses(request, epoch, events_in(pass.events, epoch), report, num_epochs);
    let oob = out_of_budget_keys(pass.filters, capacities, keys, losses);
    if oob.len() == 0 {
        EpochPass {
            filters: charged(pass.filters, capacities, keys, losses),
            events: pass.events,
            oob_filters: pass.oob_filters,
        }
    } else {
        EpochPass {
            filters: pass.filters,
            events: pass.events.remove(epoch),
            oob_filters: pass.oob_filters + oob,
        }
    }
}

/// The pass after each of `epochs` in turn.
pub open spec fn after_epochs<Q: EpochReportRequest, C: FilterCapacities>(
    request: Q,
    capacities: C,
    report: <Q::Report as View>::V,
    num_epochs: nat,
    pass: EpochPass<<Q::Event as View>::V>,
    epochs: Seq<u64>,
) -> EpochPass<<Q::Event as View>::V>
    decreases epochs.len(),
{
    if epochs.len() == 0 {
        pass
    } else {
        after_epoch(
            request,
            capacities,
            report,
            num_epochs,
            after_epochs(request, capacities, report, num_epochs, pass, epochs.drop_last()),
            epochs.last(),
        )
    }
}

/// The filters of a pass that has gone through the first `i` of `epochs` and
/// has handled the first `n` filters of the next one.
pub open spec fn interrupted_at<Q: EpochReportRequest, C: FilterCapacities>(
    request: Q,
    capacities: C,
    report: <Q::Report as View>::V,
    num_epochs: nat,
    pass: EpochPass<<Q::Event as View>::V>,
    epochs: Seq<u64>,
    i: int,
    n: int,
) -> Map<FilterKey, PureDPBudgetFilter> {
    let before = after_epochs(request, capacities, report, num_epochs, pass, epochs.take(i));
    charged(
        before.filters,
        capacities,
        epoch_keys(request, epochs[i]).take(n),
        epoch_losses(
            request,
            epochs[i],
            events_in(before.events, epochs[i]),
            report,
            num_epochs,
        ).take(n),
    )
}

/// The reports for the intermediaries among `intermediaries` that both
/// results hold a report for.
pub open spec fn fan_out<RV>(
    intermediaries: Seq<Seq<char>>,
    unfiltered: Map<Seq<char>, RV>,
    filtered: Map<Seq<char>, RV>,
    oob_filters: Seq<FilterKey>,
) -> Map<Seq<char>, PdsReportView<RV>> {
    Map::new(
        |uri: Seq<char>|
            intermediaries.contains(uri) && unfiltered.contains_key(uri) && filtered.contains_key(
                uri,
            ),
        |uri: Seq<char>|
            PdsReportView {
                filtered_report: filtered[uri],
                unfiltered_report: unfiltered[uri],
                oob_filters,
            },
    )
}

/// The reports that the service returns. Where the filtered result holds
/// three reports or more, they are those of the intermediaries: one for each
/// intermediary that the query has a report for, whether a bucket belongs to
/// it or not. Otherwise it is the one report of the querier.
pub open spec fn pds_reports<RV>(
    uris: ReportRequestUrisView,
    unfiltered: QueryComputeResultView<RV>,
    filtered: QueryComputeResultView<RV>,
    oob_filters: Seq<FilterKey>,
) -> Map<Seq<char>, PdsReportView<RV>> {
    let querier = uris.querier_uris[0];
    if filtered.uri_report_map.len() >= 3 {
        fan_out(
            uris.intermediary_uris,
            unfiltered.uri_report_map,
            filtered.uri_report_map,
            oob_filters,
        )
    } else {
        Map::<Seq<char>, PdsReportView<RV>>::empty().insert(
            querier,
            PdsReportView {
                filtered_report: filtered.uri_report_map[querier],
                unfiltered_report: unfiltered.uri_report_map[querier],
                oob_filters,
            },
        )
    }
}

/// What `compute_report` does: `r` is its result for `request` over
/// `relevant_events`, and `filters_after` are the filters that it leaves of
/// `filters_before`.
pub open spec fn report_outcome<Q: EpochReportRequest, C: FilterCapacities>(
    request: Q,
    capacities: C,
    never_fails: bool,
    filters_before: Map<FilterKey, PureDPBudgetFilter>,
    relevant_events: Map<u64, Seq<<Q::Event as View>::V>>,
    filters_after: Map<FilterKey, PureDPBudgetFilter>,
    r: Result<VecMap<String, PdsReport<Q::Report>>, PdsError>,
) -> bool {
    let uris = request.spec_report_uris();
    let querier = uris.querier_uris[0];
    let unfiltered = request.spec_compute_report(relevant_events);
    let end = after_epochs(
        request,
        capacities,
        unfiltered.uri_report_map[querier],
        request.spec_epoch_ids().len(),
        EpochPass { filters: filters_before, events: relevant_events, oob_filters: Seq::empty() },
        request.spec_epoch_ids(),
    );
    let filtered = request.spec_compute_report(end.events);
    if uris.querier_uris.len() > 1 {
        (r matches Err(PdsError::MultipleQueriers)) && filters_after == filters_before
    } else if uris.querier_uris.len() == 0 || !unfiltered.uri_report_map.contains_key(querier) {
        (r matches Err(PdsError::MissingQuerier)) && filters_after == filters_before
    } else {
        &&& r matches Ok(reports) ==> {
            &&& filters_after == end.filters
            &&& filtered.uri_report_map.contains_key(querier)
            &&& report_views(reports@) == pds_reports(uris, unfiltered, filtered, end.oob_filters)
        }
        &&& r matches Err(e) ==> (e == PdsError::FilterStorage && !never_fails && exists|
            i: int,
            n: int,
        |
            0 <= i < request.spec_epoch_ids().len() && 0 <= n <= epoch_keys(
                request,
                request.spec_epoch_ids()[i],
            ).len() && filters_after == #[trigger] interrupted_at(
                request,
                capacities,
                unfiltered.uri_report_map[querier],
                request.spec_epoch_ids().len(),
                EpochPass {
                    filters: filters_before,
                    events: relevant_events,
                    oob_filters: Seq::empty(),
                },
                request.spec_epoch_ids(),
                i,
                n,
            )) || (e == PdsError::MissingQuerier && !filtered.uri_report_map.contains_key(querier)
            && filters_after == end.filters)
        &&& never_fails ==> (r is Ok <==> filtered.uri_report_map.contains_key(querier))
    }
}

/// The reports of a map, as contracts see them.
pub open spec fn report_views<R: Report>(reports: Map<Seq<char>, PdsReport<R>>) -> Map<
    Seq<char>,
    PdsReportView<R::V>,
> {
    reports.map_values(|report: PdsReport<R>| report@)
}

/// A copy of a list of filter ids.
pub fn clone_filter_ids(ids: &Vec<FilterId>) -> (r: Vec<FilterId>)
    ensures
        r.deep_view() == ids.deep_view(),
{
    let mut r: Vec<FilterId> = Vec::new();
    let mut i: usize = 0;
    while i < ids.len()
        invariant
            i <= ids.len(),
            r.deep_view() == ids.deep_view().take(i as int),
        decreases ids.len() - i,
    {
        let ghost before = r.deep_view();
        r.push(ids[i].copy_key());
        proof {
            assert(r.deep_view() =~= before.push(ids[i as int]@));
            assert(ids.deep_view().take(i + 1) =~= ids.deep_view().take(i as int).push(
                ids[i as int]@,
            ));
        }
        i += 1;
    }
    proof {
        assert(ids.deep_view().take(i as int) =~= ids.deep_view());
    }
    r
}

/// Charging `keys` leaves the filter of every other id as it was.
pub proof fn lemma_charged_elsewhere<C: FilterCapacities>(
    filters: Map<FilterKey, PureDPBudgetFilter>,
    capacities: C,
    keys: Seq<FilterKey>,
    losses: Seq<PureDPBudget>,
    id: FilterKey,
)
    requires
        !keys.contains(id),
    ensures
        charged(filters, capacities, keys, losses).get(id) == filters.get(id),
        filter_of(charged(filters, capacities, keys, losses), capacities, id) == filter_of(
            filters,
            capacities,
            id,
        ),
    decreases keys.len(),
{
    if keys.len() == 0 || losses.len() != keys.len() {
    } else {
        assert(keys.last() != id) by {
            assert(keys[keys.len() - 1] == keys.last());
        }
        assert forall|j: int| 0 <= j < keys.drop_last().len() implies keys.drop_last()[j] != id by {
            assert(keys[j] == keys.drop_last()[j]);
        }
        lemma_charged_elsewhere(filters, capacities, keys.drop_last(), losses.drop_last(), id);
    }
}

/// What may pass from one thread to another, but may not be shared between
/// threads. Nothing implements it: it marks the core.
pub trait SingleThread: Send {

}

/// The core of the service: it holds the filters and deducts from them.
///
/// A core serves one thread. It cannot be shared between threads.
pub struct PrivateDataServiceCore<FS: FilterStorage> {
    /// The filters of the device.
    pub filter_storage: FS,
    /// Keeps the core from being shared between threads.
    pub single_thread: core::marker::PhantomData<Box<dyn SingleThread>>,
}

impl<FS: FilterStorage> PrivateDataServiceCore<FS> {
    pub fn new(filter_storage: FS) -> (r: Self)
        ensures
            r.filter_storage == filter_storage,
    {
        PrivateDataServiceCore { filter_storage, single_thread: core::marker::PhantomData }
    }

    /// The filters to deduct from for one epoch, each with the loss to
    /// deduct: `loss` for the non-collusion filter of each querier, for the
    /// quota filter of the trigger site and for the collusion filter, and for
    /// each source in `source_losses` its own loss for its quota filter.
    pub fn filters_to_consume(
        &self,
        epoch_id: u64,
        loss: &PureDPBudget,
        source_losses: &VecMap<String, PureDPBudget>,
        uris: &ReportRequestUris,
    ) -> (r: VecMap<FilterId, PureDPBudget>)
        ensures
            r.wf(),
            r.keys() == filter_keys(
                epoch_id,
                uris.querier_uris.deep_view(),
                uris.trigger_uri@,
                source_losses.keys(),
            ),
            r.values() == filter_losses(r.keys(), *loss, source_losses@),
            r@ == filter_set(
                epoch_id,
                *loss,
                source_losses@,
                uris.querier_uris.deep_view(),
                uris.trigger_uri@,
            ),
    {
        let ghost queriers = uris.querier_uris.deep_view();
        let ghost nc_ids = queriers.map_values(|q: Seq<char>| FilterId::Nc(epoch_id, q));
        let mut r: VecMap<FilterId, PureDPBudget> = VecMap::new();
        let mut i: usize = 0;
        assert(nc_ids.take(0) =~= Seq::<FilterKey>::empty());
        while i < uris.querier_uris.len()
            invariant
                i <= uris.querier_uris.len(),
                queriers == uris.querier_uris.deep_view(),
                nc_ids == queriers.map_values(|q: Seq<char>| FilterId::Nc(epoch_id, q)),
                r.wf(),
                r.keys() == distinct(nc_ids.take(i as int)),
                r.keys().len() == r.values().len(),
                forall|j: int| 0 <= j < r.keys().len() ==> #[trigger] r.values()[j] == *loss,
                forall|j: int| 0 <= j < r.keys().len() ==> #[trigger] r.keys()[j] is Nc,
            decreases uris.querier_uris.len() - i,
        {
            let id = FilterId::Nc(epoch_id, uris.querier_uris[i].clone());
            proof {
                assert(uris.querier_uris.deep_view()[i as int] == uris.querier_uris[i as int]@);
                assert(id@ == nc_ids[i as int]);
                assert(nc_ids.take(i + 1).drop_last() =~= nc_ids.take(i as int));
                assert(nc_ids.take(i + 1).last() == nc_ids[i as int]);
            }
            r.insert(id, *loss);
            i += 1;
        }
        proof {
            assert(nc_ids.take(i as int) =~= nc_ids);
        }
        let ghost nc_keys = r.keys();
        assert(nc_keys == distinct(nc_ids));
        r.insert(FilterId::QTrigger(epoch_id, uris.trigger_uri.clone()), *loss);
        r.insert(FilterId::C(epoch_id), *loss);
        let ghost fixed = r.keys();
        proof {
            assert(fixed =~= nc_keys + seq![
                FilterId::QTrigger(epoch_id, uris.trigger_uri@),
                FilterId::C(epoch_id),
            ]);
            use_type_invariant(source_losses);
            source_losses.lemma_view();
        }
        let ghost sources = source_losses.keys();
        let ghost source_ids = sources.map_values(|s: Seq<char>| FilterId::QSource(epoch_id, s));
        let mut k: usize = 0;
        while k < source_losses.len()
            invariant
                k <= sources.len(),
                source_losses.wf(),
                sources == source_losses.keys(),
                source_ids == sources.map_values(|s: Seq<char>| FilterId::QSource(epoch_id, s)),
                r.wf(),
                r.keys() == fixed + source_ids.take(k as int),
                r.keys().len() == r.values().len(),
                forall|j: int| 0 <= j < fixed.len() ==> !(#[trigger] fixed[j] is QSource),
                forall|j: int|
                    0 <= j < r.keys().len() ==> #[trigger] r.values()[j] == loss_for(
                        r.keys()[j],
                        *loss,
                        source_losses@,
                    ),
            decreases sources.len() - k,
        {
            let source = source_losses.key_at(k);
            let source_loss = *source_losses.value_at(k);
            let id = FilterId::QSource(epoch_id, source.copy_key());
            proof {
                assert(id@ == source_ids[k as int]);
                assert(source_ids.take(k + 1) =~= source_ids.take(k as int).push(id@));
                assert forall|j: int| 0 <= j < r.keys().len() implies r.keys()[j] != id@ by {
                    if j < fixed.len() {
                        assert(r.keys()[j] == fixed[j]);
                    } else {
                        let m = j - fixed.len();
                        assert(r.keys()[j] == source_ids[m]);
                        assert(sources[m] != sources[k as int]);
                    }
                }
                assert(!r.keys().contains(id@));
                source_losses.lemma_view();
                assert(source_losses@[sources[k as int]] == source_loss);
            }
            r.insert(id, source_loss);
            k += 1;
        }
        proof {
            assert(source_ids.take(k as int) =~= source_ids);
            assert(r.values() =~= filter_losses(r.keys(), *loss, source_losses@));
            let set = filter_set(epoch_id, *loss, source_losses@, queriers, uris.trigger_uri@);
            let keys = r.keys();
            r.lemma_view();
            crate::vec_map::lemma_distinct_contains(nc_ids);
            assert forall|id: FilterKey| keys.contains(id) <==> set.contains_key(id) by {
                if keys.contains(id) {
                    let j = keys.index_of(id);
                    if j < nc_keys.len() {
                        assert(nc_keys[j] == id);
                        assert(nc_keys.contains(id));
                        let m = nc_ids.index_of(id);
                        assert(nc_ids[m] == id);
                        assert(queriers[m] == id->Nc_1);
                    } else if j >= fixed.len() {
                        let m = j - fixed.len();
                        assert(source_ids[m] == id);
                        assert(sources[m] == id->QSource_1);
                    }
                }
                if set.contains_key(id) {
                    match id {
                        FilterId::Nc(e, querier) => {
                            let m = queriers.index_of(querier);
                            assert(queriers[m] == querier);
                            assert(nc_ids[m] == id);
                            assert(nc_ids.contains(id));
                            assert(nc_keys.contains(id));
                            let j = nc_keys.index_of(id);
                            assert(nc_keys[j] == id);
                            assert(fixed[j] == id);
                            assert(keys[j] == id);
                        },
                        FilterId::C(e) => {
                            assert(keys[nc_keys.len() as int + 1] == id);
                        },
                        FilterId::QTrigger(e, site) => {
                            assert(keys[nc_keys.len() as int] == id);
                        },
                        FilterId::QSource(e, source) => {
                            let m = sources.index_of(source);
                            assert(sources[m] == source);
                            assert(source_ids[m] == id);
                            assert(keys[fixed.len() + m] == id);
                        },
                    }
                }
            }
            assert(r@ =~= set);
        }
        r
    }

    /// Checks the filters of `filters_to_consume` against their losses, and
    /// deducts the losses unless `dry_run` is set.
    ///
    /// A dry run changes no filter. Otherwise each filter that has its loss
    /// left is charged, the others are left as they are, and all of them are
    /// stored. Either way the result names the filters that lacked their
    /// loss, in the order of `filters_to_consume`. Where the storage fails,
    /// the filters up to the failing one have been handled.
    pub fn deduct_budget(
        &mut self,
        filters_to_consume: &VecMap<FilterId, PureDPBudget>,
        dry_run: bool,
    ) -> (r: Result<PdsFilterStatus<FilterId>, PdsError>)
        ensures
            final(self).filter_storage.spec_capacities() == old(
                self,
            ).filter_storage.spec_capacities(),
            final(self).filter_storage.never_fails() == old(self).filter_storage.never_fails(),
            old(self).filter_storage.never_fails() ==> r is Ok,
            dry_run ==> final(self).filter_storage.filters() == old(self).filter_storage.filters(),
            r matches Ok(status) ==> {
                let oob = out_of_budget_keys(
                    old(self).filter_storage.filters(),
                    old(self).filter_storage.spec_capacities(),
                    filters_to_consume.keys(),
                    filters_to_consume.values(),
                );
                &&& oob.len() == 0 ==> status is Continue
                &&& oob.len() > 0 ==> (status matches PdsFilterStatus::OutOfBudget(ids)
                    && ids.deep_view() == oob)
                &&& !dry_run ==> final(self).filter_storage.filters() == charged(
                    old(self).filter_storage.filters(),
                    old(self).filter_storage.spec_capacities(),
                    filters_to_consume.keys(),
                    filters_to_consume.values(),
                )
            },
            r matches Err(e) ==> (e == PdsError::FilterStorage && exists|n: int|
                0 <= n <= filters_to_consume.keys().len() && final(self).filter_storage.filters()
                    == #[trigger] charged(
                    old(self).filter_storage.filters(),
                    old(self).filter_storage.spec_capacities(),
                    filters_to_consume.keys().take(n),
                    filters_to_consume.values().take(n),
                )),
    {
        let ghost filters = self.filter_storage.filters();
        let ghost capacities = self.filter_storage.spec_capacities();
        let ghost keys = filters_to_consume.keys();
        let ghost losses = filters_to_consume.values();
        proof {
            use_type_invariant(filters_to_consume);
            assert(keys.take(0) =~= Seq::<FilterKey>::empty());
        }
        let mut oob_filters: Vec<FilterId> = Vec::new();
        let mut i: usize = 0;
        while i < filters_to_consume.len()
            invariant
                i <= keys.len(),
                filters_to_consume.wf(),
                keys == filters_to_consume.keys(),
                losses == filters_to_consume.values(),
                keys.len() == losses.len(),
                filters == old(self).filter_storage.filters(),
                capacities == old(self).filter_storage.spec_capacities(),
                self.filter_storage.spec_capacities() == capacities,
                self.filter_storage.never_fails() == old(self).filter_storage.never_fails(),
                dry_run ==> self.filter_storage.filters() == filters,
                !dry_run ==> self.filter_storage.filters() == charged(
                    filters,
                    capacities,
                    keys.take(i as int),
                    losses.take(i as int),
                ),
                oob_filters.deep_view() == out_of_budget_keys(
                    filters,
                    capacities,
                    keys.take(i as int),
                    losses.take(i as int),
                ),
            decreases keys.len() - i,
        {
            let fid = filters_to_consume.key_at(i);
            let loss = filters_to_consume.value_at(i);
            let ghost current = self.filter_storage.filters();
            proof {
                assert(keys.take(i + 1).drop_last() =~= keys.take(i as int));
                assert(losses.take(i + 1).drop_last() =~= losses.take(i as int));
                assert(keys.take(i + 1).last() == keys[i as int]);
                assert(losses.take(i + 1).last() == losses[i as int]);
                if !dry_run {
                    assert(!keys.take(i as int).contains(keys[i as int]));
                    lemma_charged_elsewhere(
                        filters,
                        capacities,
                        keys.take(i as int),
                        losses.take(i as int),
                        keys[i as int],
                    );
                }
            }
            let outcome = if dry_run {
                self.filter_storage.can_consume(fid, loss)
            } else {
                self.filter_storage.try_consume(fid, loss)
            };
            match outcome {
                Err(_) => {
                    proof {
                        let n: int = if dry_run {
                            0
                        } else {
                            i as int
                        };
                        assert(self.filter_storage.filters() == charged(
                            filters,
                            capacities,
                            keys.take(n),
                            losses.take(n),
                        ));
                    }
                    return Err(PdsError::FilterStorage);
                },
                Ok(status) => {
                    if status == FilterStatus::OutOfBudget {
                        let ghost before = oob_filters.deep_view();
                        oob_filters.push(fid.copy_key());
                        proof {
                            assert(oob_filters.deep_view() =~= before.push(fid@));
                        }
                    }
                },
            }
            i += 1;
        }
        proof {
            assert(keys.take(i as int) =~= keys);
            assert(losses.take(i as int) =~= losses);
        }
        if oob_filters.len() > 0 {
            return Ok(PdsFilterStatus::OutOfBudget(oob_filters));
        }
        Ok(PdsFilterStatus::Continue)
    }

    /// Computes the report for `request` over `relevant_events`, and deducts
    /// its privacy loss from the filters.
    ///
    /// The epochs of the request are taken in its order. For each the loss
    /// of the epoch and of each of its sources is computed from the report
    /// over all the events, and asked of the filters of the epoch. Where all
    /// of them have it, all are charged; otherwise none is, and the events of
    /// the epoch are left out of the report. The report is then computed anew
    /// over the events that are left. The budget is deducted once, whatever
    /// the number of intermediaries that receive a report.
    ///
    /// A request with more than one querier is refused, and so is one without
    /// a querier, or whose query yields no report for its querier. Where the
    /// storage fails, the pass ends there: the epochs before stay as they
    /// are, and of the epoch at hand the filters that were handled.
    pub fn compute_report<Q: EpochReportRequest>(
        &mut self,
        request: &Q,
        relevant_events: RelevantEvents<Q::Event>,
    ) -> (r: Result<VecMap<String, PdsReport<Q::Report>>, PdsError>)
        ensures
            final(self).filter_storage.spec_capacities() == old(
                self,
            ).filter_storage.spec_capacities(),
            final(self).filter_storage.never_fails() == old(self).filter_storage.never_fails(),
            report_outcome(
                *request,
                old(self).filter_storage.spec_capacities(),
                old(self).filter_storage.never_fails(),
                old(self).filter_storage.filters(),
                relevant_events@,
                final(self).filter_storage.filters(),
                r,
            ),
    {
        let ghost given = relevant_events@;
        let mut remaining = relevant_events;
        let uris = request.report_uris();
        if uris.querier_uris.len() > 1 {
            return Err(PdsError::MultipleQueriers);
        }
        if uris.querier_uris.len() == 0 {
            return Err(PdsError::MissingQuerier);
        }
        let querier_uri = &uris.querier_uris[0];
        let epochs = request.epoch_ids();
        let num_epochs = epochs.len();

        // The report over all events, which the accounting goes by.
        let unfiltered_result = request.compute_report(&remaining);
        let unfiltered_report = match unfiltered_result.uri_report_map.get(querier_uri) {
            Some(report) => report,
            None => {
                return Err(PdsError::MissingQuerier);
            },
        };
        let ghost querier = request.spec_report_uris().querier_uris[0];
        let ghost unfiltered = request.spec_compute_report(given);
        let ghost capacities = self.filter_storage.spec_capacities();
        let ghost start = EpochPass {
            filters: self.filter_storage.filters(),
            events: given,
            oob_filters: Seq::<FilterKey>::empty(),
        };
        let ghost report = unfiltered.uri_report_map[querier];
        proof {
            assert(uris.querier_uris.deep_view()[0] == querier_uri@);
            assert(unfiltered_report@ == report);
            assert(epochs@.take(0) =~= Seq::<u64>::empty());
        }

        let mut oob_filters: Vec<FilterId> = Vec::new();
        let mut i: usize = 0;
        proof {
            assert(oob_filters.deep_view() =~= Seq::<FilterKey>::empty());
            assert(after_epochs(
                *request,
                capacities,
                report,
                num_epochs as nat,
                start,
                epochs@.take(0),
            ) == start);
        }
        while i < epochs.len()
            invariant
                i <= epochs.len(),
                num_epochs == epochs.len(),
                request.spec_report_uris().querier_uris.len() == 1,
                querier == request.spec_report_uris().querier_uris[0],
                given == relevant_events@,
                unfiltered == request.spec_compute_report(given),
                unfiltered_result@ == unfiltered,
                unfiltered.uri_report_map.contains_key(querier),
                report == unfiltered.uri_report_map[querier],
                start == (EpochPass {
                    filters: old(self).filter_storage.filters(),
                    events: given,
                    oob_filters: Seq::<FilterKey>::empty(),
                }),
                epochs@ == request.spec_epoch_ids(),
                uris@ == request.spec_report_uris(),
                unfiltered_report@ == report,
                capacities == old(self).filter_storage.spec_capacities(),
                self.filter_storage.spec_capacities() == capacities,
                self.filter_storage.never_fails() == old(self).filter_storage.never_fails(),
                (EpochPass {
                    filters: self.filter_storage.filters(),
                    events: remaining@,
                    oob_filters: oob_filters.deep_view(),
                }) == after_epochs(
                    *request,
                    capacities,
                    report,
                    num_epochs as nat,
                    start,
                    epochs@.take(i as int),
                ),
            decreases epochs.len() - i,
        {
            let epoch_id = epochs[i];
            let ghost pass = EpochPass {
                filters: self.filter_storage.filters(),
                events: remaining@,
                oob_filters: oob_filters.deep_view(),
            };
            proof {
                assert(epochs@.take(i + 1).drop_last() =~= epochs@.take(i as int));
                assert(epochs@.take(i + 1).last() == epoch_id);
            }

            // The loss of the epoch, and of each source in it.
            let epoch_relevant_events = remaining.for_epoch(&epoch_id);
            let individual_privacy_loss = compute_epoch_loss(
                request,
                epoch_relevant_events,
                unfiltered_report,
                num_epochs,
            );
            let sources = remaining.sources_for_epoch(&epoch_id);
            let source_losses = compute_epoch_source_losses(
                request,
                &sources,
                unfiltered_report,
                num_epochs,
            );

            // Ask every filter of the epoch first, and charge them only
            // where all of them have the budget.
            let filters_to_consume = self.filters_to_consume(
                epoch_id,
                &individual_privacy_loss,
                &source_losses,
                uris,
            );
            proof {
                assert(views(epoch_relevant_events@).len() == epoch_relevant_events@.len());
                assert(filters_to_consume.keys() == epoch_keys(*request, epoch_id));
                assert(filters_to_consume.values() == epoch_losses(
                    *request,
                    epoch_id,
                    events_in(pass.events, epoch_id),
                    report,
                    num_epochs as nat,
                ));
            }
            let check_status = match self.deduct_budget(&filters_to_consume, true) {
                Ok(status) => status,
                Err(e) => {
                    proof {
                        assert(self.filter_storage.filters() == interrupted_at(
                            *request,
                            capacities,
                            report,
                            num_epochs as nat,
                            start,
                            epochs@,
                            i as int,
                            0,
                        ));
                    }
                    return Err(e);
                },
            };
            match check_status {
                PdsFilterStatus::Continue => {
                    let consume_status = match self.deduct_budget(&filters_to_consume, false) {
                        Ok(status) => status,
                        Err(e) => {
                            proof {
                                let n = choose|n: int|
                                    0 <= n <= filters_to_consume.keys().len()
                                        && self.filter_storage.filters() == #[trigger] charged(
                                        pass.filters,
                                        capacities,
                                        filters_to_consume.keys().take(n),
                                        filters_to_consume.values().take(n),
                                    );
                                assert(self.filter_storage.filters() == interrupted_at(
                                    *request,
                                    capacities,
                                    report,
                                    num_epochs as nat,
                                    start,
                                    epochs@,
                                    i as int,
                                    n,
                                ));
                            }
                            return Err(e);
                        },
                    };
                    match consume_status {
                        PdsFilterStatus::Continue => {},
                        PdsFilterStatus::OutOfBudget(_) => {
                            return Err(PdsError::CommitRefused);
                        },
                    }
                },
                PdsFilterStatus::OutOfBudget(filters) => {
                    let mut filters = filters;
                    remaining.drop_epoch(&epoch_id);
                    let ghost before = oob_filters.deep_view();
                    let ghost added = filters.deep_view();
                    oob_filters.append(&mut filters);
                    proof {
                        assert(oob_filters.deep_view() =~= before + added);
                    }
                },
            }
            i += 1;
        }
        proof {
            assert(epochs@.take(i as int) =~= epochs@);
        }

        // The report over the events of the epochs that are left.
        let filtered_result = request.compute_report(&remaining);
        let filtered_report = match filtered_result.uri_report_map.get(querier_uri) {
            Some(report) => report,
            None => {
                return Err(PdsError::MissingQuerier);
            },
        };
        proof {
            assert(filtered_result@.uri_report_map.dom() =~= filtered_result.uri_report_map@.dom());
        }
        if self.is_optimization_query(&filtered_result.uri_report_map) {
            let reports = self.calculate_optimization_query(
                request,
                &unfiltered_result,
                &filtered_result,
                &oob_filters,
            );
            return Ok(reports);
        }
        let main_report = PdsReport {
            filtered_report: filtered_report.clone_report(),
            unfiltered_report: unfiltered_report.clone_report(),
            oob_filters,
        };
        let mut reports: VecMap<String, PdsReport<Q::Report>> = VecMap::new();
        reports.insert(querier_uri.clone(), main_report);
        proof {
            assert(report_views(reports@) =~= pds_reports(
                request.spec_report_uris(),
                unfiltered,
                filtered_result@,
                main_report@.oob_filters,
            ));
        }
        Ok(reports)
    }

    /// Whether the reports go to the intermediaries: they do where the query
    /// computed three reports or more, that of the querier among them.
    fn is_optimization_query<R: Report>(&self, site_to_report_mapping: &VecMap<String, R>) -> (b:
        bool)
        ensures
            b == (site_to_report_mapping@.len() >= 3),
    {
        site_to_report_mapping.len() >= 3
    }

    /// The report of each intermediary of `request`, from the two results of
    /// the query.
    fn calculate_optimization_query<Q: EpochReportRequest>(
        &self,
        request: &Q,
        unfiltered_result: &QueryComputeResult<Q::Report>,
        filtered_result: &QueryComputeResult<Q::Report>,
        oob_filters: &Vec<FilterId>,
    ) -> (reports: VecMap<String, PdsReport<Q::Report>>)
        ensures
            report_views(reports@) == fan_out(
                request.spec_report_uris().intermediary_uris,
                unfiltered_result@.uri_report_map,
                filtered_result@.uri_report_map,
                oob_filters.deep_view(),
            ),
    {
        let mut intermediary_reports: VecMap<String, PdsReport<Q::Report>> = VecMap::new();
        let intermediary_uris = &request.report_uris().intermediary_uris;
        let ghost intermediaries = request.spec_report_uris().intermediary_uris;
        let ghost unfiltered = unfiltered_result@.uri_report_map;
        let ghost filtered = filtered_result@.uri_report_map;
        let ghost oob = oob_filters.deep_view();
        let mut i: usize = 0;
        proof {
            assert(report_views(intermediary_reports@) =~= fan_out(
                intermediaries.take(0),
                unfiltered,
                filtered,
                oob,
            ));
        }
        while i < intermediary_uris.len()
            invariant
                i <= intermediary_uris.len(),
                intermediaries == intermediary_uris.deep_view(),
                unfiltered == unfiltered_result@.uri_report_map,
                filtered == filtered_result@.uri_report_map,
                oob == oob_filters.deep_view(),
                report_views(intermediary_reports@) == fan_out(
                    intermediaries.take(i as int),
                    unfiltered,
                    filtered,
                    oob,
                ),
            decreases intermediary_uris.len() - i,
        {
            let intermediary_uri = &intermediary_uris[i];
            let ghost uri = intermediary_uri@;
            let ghost earlier = intermediaries.take(i as int);
            let ghost before = intermediary_reports@;
            proof {
                assert(intermediaries.take(i + 1) =~= earlier.push(uri));
                broadcast use vstd::seq_lib::lemma_seq_contains_after_push;
            }
            match filtered_result.uri_report_map.get(intermediary_uri) {
                None => {},
                Some(filtered_report) => {
                    match unfiltered_result.uri_report_map.get(intermediary_uri) {
                        None => {},
                        Some(unfiltered_report) => {
                            let intermediary_pds_report = PdsReport {
                                filtered_report: filtered_report.clone_report(),
                                unfiltered_report: unfiltered_report.clone_report(),
                                oob_filters: clone_filter_ids(oob_filters),
                            };
                            intermediary_reports.insert(
                                intermediary_uri.clone(),
                                intermediary_pds_report,
                            );
                        },
                    }
                },
            }
            proof {
                let lhs = report_views(intermediary_reports@);
                let rhs = fan_out(earlier.push(uri), unfiltered, filtered, oob);
                let prev = report_views(before);
                assert forall|u: Seq<char>| lhs.contains_key(u) == rhs.contains_key(u) by {
                    assert(prev.contains_key(u) == (earlier.contains(u)
                        && unfiltered.contains_key(u) && filtered.contains_key(u)));
                }
                assert forall|u: Seq<char>| lhs.contains_key(u) implies lhs[u] == rhs[u] by {
                    if u != uri {
                        assert(prev.contains_key(u));
                        assert(prev[u] == lhs[u]);
                    }
                }
                assert(lhs =~= rhs);
            }
            i += 1;
        }
        proof {
            assert(intermediaries.take(i as int) =~= intermediaries);
        }
        intermediary_reports
    }
}

} // verus!
