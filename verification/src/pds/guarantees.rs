//! What holds of the filters across the operations of the service.

use vstd::prelude::*;

use crate::budget::pure_dp_filter::{PureDPBudget, PureDPBudgetFilter};
use crate::budget::traits::{filter_of, FilterCapacities};
use crate::error::PdsError;
use crate::events::traits::events_in;
use crate::events::relevant_events::sources_of;
use crate::pds::accounting::{epoch_loss, epoch_source_losses, privacy_loss, scale_of};
use crate::pds::pds_core::{
    after_epoch, after_epochs, charged, epoch_keys, epoch_losses, filter_keys, filter_losses,
    out_of_budget_keys, report_outcome, report_views, EpochPass,
};
use crate::pds::private_data_service::{passive_loss, PdsReport};
use crate::pds::quotas::{FilterId, FilterKey};
use crate::events::traits::Predicate;
use crate::pds::pds_core::fan_out;
use crate::queries::histogram::{histogram_result, HistogramRequest};
use crate::queries::ppa_histogram::PpaHistogramRequest;
use crate::queries::traits::{EpochReportRequest, ReportRequestUrisView};
use crate::vec_map::{lemma_distinct_contains, VecMap};

verus! {

/// Every filter has consumed no more than its capacity.
pub open spec fn all_wf(filters: Map<FilterKey, PureDPBudgetFilter>) -> bool {
    forall|id: FilterKey| filters.contains_key(id) ==> (#[trigger] filters[id]).wf()
}

/// Every filter has at most as much left as it had before, under the
/// capacity that it had before.
pub open spec fn none_gained<C: FilterCapacities>(
    before: Map<FilterKey, PureDPBudgetFilter>,
    after: Map<FilterKey, PureDPBudgetFilter>,
    capacities: C,
) -> bool {
    forall|id: FilterKey|
        {
            let was = filter_of(before, capacities, id);
            let is = #[trigger] filter_of(after, capacities, id);
            &&& is.capacity == was.capacity
            &&& was.consumed.spec_leq(is.consumed)
            &&& is.spec_remaining().spec_leq(was.spec_remaining())
        }
}

/// The epoch of a filter.
pub open spec fn epoch_of(id: FilterKey) -> u64 {
    match id {
        FilterId::Nc(epoch, _) => epoch,
        FilterId::C(epoch) => epoch,
        FilterId::QTrigger(epoch, _) => epoch,
        FilterId::QSource(epoch, _) => epoch,
    }
}

/// Charging filters keeps every filter within its capacity.
pub proof fn lemma_charged_wf<C: FilterCapacities>(
    filters: Map<FilterKey, PureDPBudgetFilter>,
    capacities: C,
    keys: Seq<FilterKey>,
    losses: Seq<PureDPBudget>,
)
    requires
        all_wf(filters),
    ensures
        all_wf(charged(filters, capacities, keys, losses)),
    decreases keys.len(),
{
    if keys.len() == 0 || losses.len() != keys.len() {
    } else {
        lemma_charged_wf(filters, capacities, keys.drop_last(), losses.drop_last());
        let before = charged(filters, capacities, keys.drop_last(), losses.drop_last());
        filter_of(before, capacities, keys.last()).lemma_try_consume_wf(losses.last());
    }
}

/// Charging filters gives no filter more than it had left.
pub proof fn lemma_charged_none_gained<C: FilterCapacities>(
    filters: Map<FilterKey, PureDPBudgetFilter>,
    capacities: C,
    keys: Seq<FilterKey>,
    losses: Seq<PureDPBudget>,
)
    ensures
        none_gained(filters, charged(filters, capacities, keys, losses), capacities),
    decreases keys.len(),
{
    if keys.len() == 0 || losses.len() != keys.len() {
    } else {
        lemma_charged_none_gained(filters, capacities, keys.drop_last(), losses.drop_last());
        let before = charged(filters, capacities, keys.drop_last(), losses.drop_last());
        let after = charged(filters, capacities, keys, losses);
        filter_of(before, capacities, keys.last()).lemma_remaining_never_grows(losses.last());
        assert forall|id: FilterKey|
            {
                let was = filter_of(filters, capacities, id);
                let is = #[trigger] filter_of(after, capacities, id);
                &&& is.capacity == was.capacity
                &&& was.consumed.spec_leq(is.consumed)
                &&& is.spec_remaining().spec_leq(was.spec_remaining())
            } by {
            let mid = filter_of(before, capacities, id);
            assert(mid.capacity == filter_of(filters, capacities, id).capacity);
        }
    }
}

/// Each filter that an epoch draws on belongs to that epoch.
pub proof fn lemma_filter_keys_epoch(
    epoch: u64,
    queriers: Seq<Seq<char>>,
    trigger: Seq<char>,
    sources: Seq<Seq<char>>,
)
    ensures
        forall|i: int|
            0 <= i < filter_keys(epoch, queriers, trigger, sources).len() ==> epoch_of(
                #[trigger] filter_keys(epoch, queriers, trigger, sources)[i],
            ) == epoch,
{
    let nc = queriers.map_values(|q: Seq<char>| FilterId::<u64, Seq<char>>::Nc(epoch, q));
    lemma_distinct_contains(nc);
    let keys = filter_keys(epoch, queriers, trigger, sources);
    assert forall|i: int| 0 <= i < keys.len() implies epoch_of(#[trigger] keys[i]) == epoch by {
        let d = crate::vec_map::distinct(nc);
        if i < d.len() {
            assert(d.contains(d[i]));
            assert(nc.contains(d[i]));
            let j = nc.index_of(d[i]);
            assert(nc[j] == d[i]);
        }
    }
}

/// A pass over epochs keeps every filter within its capacity.
pub proof fn lemma_after_epochs_wf<Q: EpochReportRequest, C: FilterCapacities>(
    request: Q,
    capacities: C,
    report: <Q::Report as View>::V,
    num_epochs: nat,
    pass: EpochPass<<Q::Event as View>::V>,
    epochs: Seq<u64>,
)
    requires
        all_wf(pass.filters),
    ensures
        all_wf(after_epochs(request, capacities, report, num_epochs, pass, epochs).filters),
    decreases epochs.len(),
{
    if epochs.len() > 0 {
        lemma_after_epochs_wf(request, capacities, report, num_epochs, pass, epochs.drop_last());
        let before = after_epochs(
            request,
            capacities,
            report,
            num_epochs,
            pass,
            epochs.drop_last(),
        );
        let epoch = epochs.last();
        lemma_charged_wf(
            before.filters,
            capacities,
            epoch_keys(request, epoch),
            epoch_losses(request, epoch, events_in(before.events, epoch), report, num_epochs),
        );
    }
}

/// A pass over epochs gives no filter more than it had left: what a filter
/// has left never grows from one report to the next.
pub proof fn lemma_after_epochs_none_gained<Q: EpochReportRequest, C: FilterCapacities>(
    request: Q,
    capacities: C,
    report: <Q::Report as View>::V,
    num_epochs: nat,
    pass: EpochPass<<Q::Event as View>::V>,
    epochs: Seq<u64>,
)
    ensures
        none_gained(
            pass.filters,
            after_epochs(request, capacities, report, num_epochs, pass, epochs).filters,
            capacities,
        ),
    decreases epochs.len(),
{
    if epochs.len() > 0 {
        lemma_after_epochs_none_gained(
            request,
            capacities,
            report,
            num_epochs,
            pass,
            epochs.drop_last(),
        );
        let before = after_epochs(
            request,
            capacities,
            report,
            num_epochs,
            pass,
            epochs.drop_last(),
        );
        let after = after_epochs(request, capacities, report, num_epochs, pass, epochs);
        let epoch = epochs.last();
        lemma_charged_none_gained(
            before.filters,
            capacities,
            epoch_keys(request, epoch),
            epoch_losses(request, epoch, events_in(before.events, epoch), report, num_epochs),
        );
        assert forall|id: FilterKey|
            {
                let was = filter_of(pass.filters, capacities, id);
                let is = #[trigger] filter_of(after.filters, capacities, id);
                &&& is.capacity == was.capacity
                &&& was.consumed.spec_leq(is.consumed)
                &&& is.spec_remaining().spec_leq(was.spec_remaining())
            } by {
            let mid = filter_of(before.filters, capacities, id);
            assert(mid.capacity == filter_of(pass.filters, capacities, id).capacity);
        }
    }
}

/// A pass over epochs leaves the filters of every other epoch as they were.
pub proof fn lemma_after_epochs_elsewhere<Q: EpochReportRequest, C: FilterCapacities>(
    request: Q,
    capacities: C,
    report: <Q::Report as View>::V,
    num_epochs: nat,
    pass: EpochPass<<Q::Event as View>::V>,
    epochs: Seq<u64>,
    id: FilterKey,
)
    requires
        !epochs.contains(epoch_of(id)),
    ensures
        after_epochs(request, capacities, report, num_epochs, pass, epochs).filters.get(id)
            == pass.filters.get(id),
    decreases epochs.len(),
{
    if epochs.len() > 0 {
        assert(epochs[epochs.len() - 1] != epoch_of(id));
        assert forall|j: int| 0 <= j < epochs.drop_last().len() implies epochs.drop_last()[j]
            != epoch_of(id) by {
            assert(epochs[j] == epochs.drop_last()[j]);
        }
        lemma_after_epochs_elsewhere(
            request,
            capacities,
            report,
            num_epochs,
            pass,
            epochs.drop_last(),
            id,
        );
        let before = after_epochs(
            request,
            capacities,
            report,
            num_epochs,
            pass,
            epochs.drop_last(),
        );
        let epoch = epochs.last();
        let keys = epoch_keys(request, epoch);
        let uris = request.spec_report_uris();
        lemma_filter_keys_epoch(
            epoch,
            uris.querier_uris,
            uris.trigger_uri,
            crate::vec_map::distinct(uris.source_uris),
        );
        if keys.contains(id) {
            let j = keys.index_of(id);
            assert(epoch_of(keys[j]) == epoch);
        }
        crate::pds::pds_core::lemma_charged_elsewhere(
            before.filters,
            capacities,
            keys,
            epoch_losses(request, epoch, events_in(before.events, epoch), report, num_epochs),
            id,
        );
    }
}

/// The deduction of an epoch is all or nothing: where a filter of the epoch
/// lacks the loss asked of it, the pass leaves every filter of that epoch as
/// it was before the pass. The epochs of the pass differ from one another.
pub proof fn lemma_epoch_out_of_budget_untouched<Q: EpochReportRequest, C: FilterCapacities>(
    request: Q,
    capacities: C,
    report: <Q::Report as View>::V,
    num_epochs: nat,
    pass: EpochPass<<Q::Event as View>::V>,
    epochs: Seq<u64>,
    i: int,
    id: FilterKey,
)
    requires
        epochs.no_duplicates(),
        0 <= i < epochs.len(),
        epoch_of(id) == epochs[i],
        ({
            let before = after_epochs(
                request,
                capacities,
                report,
                num_epochs,
                pass,
                epochs.take(i),
            );
            out_of_budget_keys(
                before.filters,
                capacities,
                epoch_keys(request, epochs[i]),
                epoch_losses(
                    request,
                    epochs[i],
                    events_in(before.events, epochs[i]),
                    report,
                    num_epochs,
                ),
            ).len() > 0
        }),
    ensures
        after_epochs(request, capacities, report, num_epochs, pass, epochs).filters.get(id)
            == pass.filters.get(id),
    decreases epochs.len() - i,
{
    let n = epochs.len() as int;
    // Up to the epoch, and in it, the filter is as it was.
    assert(!epochs.take(i).contains(epochs[i])) by {
        if epochs.take(i).contains(epochs[i]) {
            let j = epochs.take(i).index_of(epochs[i]);
            assert(epochs[j] == epochs[i]);
        }
    }
    lemma_after_epochs_elsewhere(request, capacities, report, num_epochs, pass, epochs.take(i), id);
    assert(epochs.take(i + 1).drop_last() =~= epochs.take(i));
    assert(epochs.take(i + 1).last() == epochs[i]);
    let at = after_epochs(request, capacities, report, num_epochs, pass, epochs.take(i + 1));
    assert(at.filters.get(id) == pass.filters.get(id));
    // After it, the other epochs leave it alone.
    lemma_after_epochs_split(request, capacities, report, num_epochs, pass, epochs, i + 1);
    assert(!epochs.skip(i + 1).contains(epochs[i])) by {
        if epochs.skip(i + 1).contains(epochs[i]) {
            let j = epochs.skip(i + 1).index_of(epochs[i]);
            assert(epochs[j + i + 1] == epochs[i]);
        }
    }
    lemma_after_epochs_elsewhere(
        request,
        capacities,
        report,
        num_epochs,
        at,
        epochs.skip(i + 1),
        id,
    );
}

/// A pass over epochs is a pass over the first of them, and from there a
/// pass over the rest.
pub proof fn lemma_after_epochs_split<Q: EpochReportRequest, C: FilterCapacities>(
    request: Q,
    capacities: C,
    report: <Q::Report as View>::V,
    num_epochs: nat,
    pass: EpochPass<<Q::Event as View>::V>,
    epochs: Seq<u64>,
    n: int,
)
    requires
        0 <= n <= epochs.len(),
    ensures
        after_epochs(request, capacities, report, num_epochs, pass, epochs) == after_epochs(
            request,
            capacities,
            report,
            num_epochs,
            after_epochs(request, capacities, report, num_epochs, pass, epochs.take(n)),
            epochs.skip(n),
        ),
    decreases epochs.len(),
{
    if n == epochs.len() {
        assert(epochs.take(n) =~= epochs);
        assert(epochs.skip(n) =~= Seq::<u64>::empty());
    } else {
        lemma_after_epochs_split(
            request,
            capacities,
            report,
            num_epochs,
            pass,
            epochs.drop_last(),
            n,
        );
        assert(epochs.drop_last().take(n) =~= epochs.take(n));
        assert(epochs.drop_last().skip(n) =~= epochs.skip(n).drop_last());
        assert(epochs.skip(n).last() == epochs.last());
    }
}

/// The filters that lack budget are among the filters that were asked.
pub proof fn lemma_out_of_budget_among_keys<C: FilterCapacities>(
    filters: Map<FilterKey, PureDPBudgetFilter>,
    capacities: C,
    keys: Seq<FilterKey>,
    losses: Seq<PureDPBudget>,
)
    ensures
        forall|j: int|
            0 <= j < out_of_budget_keys(filters, capacities, keys, losses).len() ==> keys.contains(
                #[trigger] out_of_budget_keys(filters, capacities, keys, losses)[j],
            ),
    decreases keys.len(),
{
    if keys.len() == 0 || losses.len() != keys.len() {
    } else {
        lemma_out_of_budget_among_keys(filters, capacities, keys.drop_last(), losses.drop_last());
        let before = out_of_budget_keys(filters, capacities, keys.drop_last(), losses.drop_last());
        let all = out_of_budget_keys(filters, capacities, keys, losses);
        assert forall|j: int| 0 <= j < all.len() implies keys.contains(#[trigger] all[j]) by {
            if j < before.len() {
                assert(keys.drop_last().contains(before[j]));
                let n = keys.drop_last().index_of(before[j]);
                assert(keys[n] == before[j]);
            } else {
                assert(keys[keys.len() - 1] == all[j]);
            }
        }
    }
}

/// Charging nothing leaves every filter with what it had.
pub proof fn lemma_charged_nothing<C: FilterCapacities>(
    filters: Map<FilterKey, PureDPBudgetFilter>,
    capacities: C,
    keys: Seq<FilterKey>,
    losses: Seq<PureDPBudget>,
)
    requires
        forall|i: int| 0 <= i < losses.len() ==> losses[i] == PureDPBudget::Epsilon(0),
    ensures
        forall|id: FilterKey|
            (#[trigger] filter_of(charged(filters, capacities, keys, losses), capacities, id))
                == filter_of(filters, capacities, id),
    decreases keys.len(),
{
    if keys.len() == 0 || losses.len() != keys.len() {
    } else {
        lemma_charged_nothing(filters, capacities, keys.drop_last(), losses.drop_last());
        let before = charged(filters, capacities, keys.drop_last(), losses.drop_last());
        let after = charged(filters, capacities, keys, losses);
        assert(losses.last() == PureDPBudget::Epsilon(0));
        filter_of(before, capacities, keys.last()).lemma_zero_budget();
        assert forall|id: FilterKey|
            (#[trigger] filter_of(after, capacities, id)) == filter_of(
                filters,
                capacities,
                id,
            ) by {
            assert(filter_of(before, capacities, id) == filter_of(filters, capacities, id));
        }
    }
}

/// An epoch without relevant events costs nothing: under noise of a scale
/// above zero, the pass leaves every filter with what it had.
pub proof fn lemma_empty_epoch_costs_nothing<Q: EpochReportRequest, C: FilterCapacities>(
    request: Q,
    capacities: C,
    report: <Q::Report as View>::V,
    num_epochs: nat,
    pass: EpochPass<<Q::Event as View>::V>,
    epoch: u64,
)
    requires
        events_in(pass.events, epoch).len() == 0,
        scale_of(request.spec_noise_scale()) != 0,
    ensures
        epoch_loss(request, false, report, num_epochs) == PureDPBudget::Epsilon(0),
        forall|id: FilterKey|
            (#[trigger] filter_of(
                after_epoch(request, capacities, report, num_epochs, pass, epoch).filters,
                capacities,
                id,
            )) == filter_of(pass.filters, capacities, id),
{
    let keys = epoch_keys(request, epoch);
    let events = events_in(pass.events, epoch);
    let losses = epoch_losses(request, epoch, events, report, num_epochs);
    let uris = request.spec_report_uris();
    let sources = sources_of::<Q::Event>(events);
    assert(sources =~= Seq::<Seq<char>>::empty());
    let source_losses = epoch_source_losses(request, sources, report, num_epochs);
    let zero = PureDPBudget::Epsilon(0);
    assert(privacy_loss(0, scale_of(request.spec_noise_scale())) == zero) by {
        let n = scale_of(request.spec_noise_scale()) as int;
        assert((0 + n - 1) / n == 0) by (nonlinear_arith)
            requires
                n > 0,
        ;
    }
    lemma_distinct_contains(uris.source_uris);
    let nc = uris.querier_uris.map_values(
        |q: Seq<char>| FilterId::<u64, Seq<char>>::Nc(epoch, q),
    );
    let d = crate::vec_map::distinct(nc);
    let src = crate::vec_map::distinct(uris.source_uris);
    assert forall|i: int| 0 <= i < losses.len() implies losses[i] == zero by {
        if i >= d.len() + 2 {
            let s = src[i - d.len() - 2];
            assert(keys[i] == FilterId::<u64, Seq<char>>::QSource(epoch, s));
            assert(src.contains(s));
            assert(source_losses.contains_key(s));
            assert(!sources.contains(s));
        } else if i < d.len() {
            lemma_distinct_contains(nc);
            assert(d.contains(d[i]));
            let j = nc.index_of(d[i]);
            assert(nc[j] == d[i]);
        }
    }
    lemma_charged_nothing(pass.filters, capacities, keys, losses);
}

/// The deductions of a request do not depend on its intermediaries: two
/// requests that differ in nothing else are charged the same, however many
/// intermediaries receive a report.
pub proof fn lemma_deduction_ignores_intermediaries<Q: EpochReportRequest, C: FilterCapacities>(
    request: Q,
    other: Q,
    capacities: C,
    report: <Q::Report as View>::V,
    num_epochs: nat,
    pass: EpochPass<<Q::Event as View>::V>,
    epochs: Seq<u64>,
)
    requires
        request.spec_report_uris().querier_uris == other.spec_report_uris().querier_uris,
        request.spec_report_uris().trigger_uri == other.spec_report_uris().trigger_uri,
        request.spec_report_uris().source_uris == other.spec_report_uris().source_uris,
        request.spec_noise_scale() == other.spec_noise_scale(),
        request.spec_report_global_sensitivity() == other.spec_report_global_sensitivity(),
        request.spec_single_epoch_individual_sensitivity(report, crate::mechanisms::NormType::L1)
            == other.spec_single_epoch_individual_sensitivity(
            report,
            crate::mechanisms::NormType::L1,
        ),
        request.spec_single_epoch_source_individual_sensitivity(
            report,
            crate::mechanisms::NormType::L1,
        ) == other.spec_single_epoch_source_individual_sensitivity(
            report,
            crate::mechanisms::NormType::L1,
        ),
    ensures
        after_epochs(request, capacities, report, num_epochs, pass, epochs) == after_epochs(
            other,
            capacities,
            report,
            num_epochs,
            pass,
            epochs,
        ),
    decreases epochs.len(),
{
    if epochs.len() > 0 {
        lemma_deduction_ignores_intermediaries(
            request,
            other,
            capacities,
            report,
            num_epochs,
            pass,
            epochs.drop_last(),
        );
        let before = after_epochs(
            request,
            capacities,
            report,
            num_epochs,
            pass,
            epochs.drop_last(),
        );
        let epoch = epochs.last();
        let events = events_in(before.events, epoch);
        let sources = sources_of::<Q::Event>(events);
        assert(epoch_source_losses(request, sources, report, num_epochs) =~= epoch_source_losses(
            other,
            sources,
            report,
            num_epochs,
        ));
    }
}

/// Two histogram requests that differ in nothing but their intermediaries
/// and the buckets of those are charged the same.
pub proof fn lemma_histogram_deduction_ignores_intermediaries<
    M: Predicate<u64>,
    C: FilterCapacities,
>(
    request: PpaHistogramRequest<M>,
    other: PpaHistogramRequest<M>,
    capacities: C,
    report: Map<u64, u64>,
    num_epochs: nat,
    pass: EpochPass<crate::events::ppa_event::PpaEventView>,
    epochs: Seq<u64>,
)
    requires
        request.attributable_value == other.attributable_value,
        request.laplace_noise_scale == other.laplace_noise_scale,
        request.relevant_event_selector.report_request_uris@.querier_uris
            == other.relevant_event_selector.report_request_uris@.querier_uris,
        request.relevant_event_selector.report_request_uris@.trigger_uri
            == other.relevant_event_selector.report_request_uris@.trigger_uri,
        request.relevant_event_selector.report_request_uris@.source_uris
            == other.relevant_event_selector.report_request_uris@.source_uris,
    ensures
        after_epochs(request, capacities, report, num_epochs, pass, epochs) == after_epochs(
            other,
            capacities,
            report,
            num_epochs,
            pass,
            epochs,
        ),
{
    lemma_deduction_ignores_intermediaries(
        request,
        other,
        capacities,
        report,
        num_epochs,
        pass,
        epochs,
    );
}

/// With a storage that does not fail, the outcome of a report is a
/// function of the request, the filters and the relevant events: two runs
/// from the same state leave the same filters and return the same reports.
pub proof fn lemma_report_is_deterministic<Q: EpochReportRequest, C: FilterCapacities>(
    request: Q,
    capacities: C,
    filters_before: Map<FilterKey, PureDPBudgetFilter>,
    relevant_events: Map<u64, Seq<<Q::Event as View>::V>>,
    filters_after: Map<FilterKey, PureDPBudgetFilter>,
    r: Result<VecMap<String, PdsReport<Q::Report>>, PdsError>,
    filters_again: Map<FilterKey, PureDPBudgetFilter>,
    r_again: Result<VecMap<String, PdsReport<Q::Report>>, PdsError>,
)
    requires
        report_outcome(
            request,
            capacities,
            true,
            filters_before,
            relevant_events,
            filters_after,
            r,
        ),
        report_outcome(
            request,
            capacities,
            true,
            filters_before,
            relevant_events,
            filters_again,
            r_again,
        ),
    ensures
        filters_after == filters_again,
        match (r, r_again) {
            (Ok(reports), Ok(again)) => report_views(reports@) == report_views(again@),
            (Err(e), Err(again)) => e == again,
            _ => false,
        },
{
}

/// Accounting for a passive loss keeps every filter within its capacity,
/// and gives no filter more than it had left.
pub proof fn lemma_passive_loss_sound<C: FilterCapacities>(
    filters: Map<FilterKey, PureDPBudgetFilter>,
    capacities: C,
    epochs: Seq<u64>,
    budget: PureDPBudget,
    uris: ReportRequestUrisView,
)
    ensures
        all_wf(filters) ==> all_wf(passive_loss(filters, capacities, epochs, budget, uris).0),
        none_gained(
            filters,
            passive_loss(filters, capacities, epochs, budget, uris).0,
            capacities,
        ),
    decreases epochs.len(),
{
    if epochs.len() > 0 {
        let keys = filter_keys(epochs[0], uris.querier_uris, uris.trigger_uri, Seq::empty());
        let losses = filter_losses(keys, budget, Map::empty());
        let oob = out_of_budget_keys(filters, capacities, keys, losses);
        if oob.len() == 0 {
            let next = charged(filters, capacities, keys, losses);
            if all_wf(filters) {
                lemma_charged_wf(filters, capacities, keys, losses);
            }
            lemma_charged_none_gained(filters, capacities, keys, losses);
            lemma_passive_loss_sound(next, capacities, epochs.skip(1), budget, uris);
            let end = passive_loss(filters, capacities, epochs, budget, uris).0;
            assert forall|id: FilterKey|
                {
                    let was = filter_of(filters, capacities, id);
                    let is = #[trigger] filter_of(end, capacities, id);
                    &&& is.capacity == was.capacity
                    &&& was.consumed.spec_leq(is.consumed)
                    &&& is.spec_remaining().spec_leq(was.spec_remaining())
                } by {
                let mid = filter_of(next, capacities, id);
                assert(mid.capacity == filter_of(filters, capacities, id).capacity);
            }
        }
    }
}

/// The accounting for a passive loss is all or nothing in each epoch: the
/// filters that it returns as lacking budget all belong to one of the
/// epochs, and every filter of that epoch is left as it was. The epochs
/// differ from one another.
pub proof fn lemma_passive_loss_atomic<C: FilterCapacities>(
    filters: Map<FilterKey, PureDPBudgetFilter>,
    capacities: C,
    epochs: Seq<u64>,
    budget: PureDPBudget,
    uris: ReportRequestUrisView,
    id: FilterKey,
)
    requires
        epochs.no_duplicates(),
        passive_loss(filters, capacities, epochs, budget, uris).1.len() > 0,
        epoch_of(id) == epoch_of(passive_loss(filters, capacities, epochs, budget, uris).1[0]),
    ensures
        epochs.contains(epoch_of(id)),
        forall|j: int|
            0 <= j < passive_loss(filters, capacities, epochs, budget, uris).1.len() ==> epoch_of(
                #[trigger] passive_loss(filters, capacities, epochs, budget, uris).1[j],
            ) == epoch_of(id),
        passive_loss(filters, capacities, epochs, budget, uris).0.get(id) == filters.get(id),
    decreases epochs.len(),
{
    if epochs.len() > 0 {
        let keys = filter_keys(epochs[0], uris.querier_uris, uris.trigger_uri, Seq::empty());
        let losses = filter_losses(keys, budget, Map::empty());
        let oob = out_of_budget_keys(filters, capacities, keys, losses);
        lemma_filter_keys_epoch(epochs[0], uris.querier_uris, uris.trigger_uri, Seq::empty());
        if oob.len() > 0 {
            lemma_out_of_budget_among_keys(filters, capacities, keys, losses);
            assert forall|j: int| 0 <= j < oob.len() implies epoch_of(#[trigger] oob[j])
                == epochs[0] by {
                let n = keys.index_of(oob[j]);
                assert(keys[n] == oob[j]);
            }
        } else {
            let next = charged(filters, capacities, keys, losses);
            assert(epochs.skip(1).no_duplicates());
            lemma_passive_loss_atomic(next, capacities, epochs.skip(1), budget, uris, id);
            let n = epochs.skip(1).index_of(epoch_of(id));
            assert(epochs[n + 1] == epoch_of(id));
            assert(epoch_of(id) != epochs[0]);
            if keys.contains(id) {
                let m = keys.index_of(id);
                assert(epoch_of(keys[m]) == epochs[0]);
            }
            crate::pds::pds_core::lemma_charged_elsewhere(filters, capacities, keys, losses, id);
        }
    }
}

/// The filters that an epoch draws on differ from one another, where the
/// sources do.
pub proof fn lemma_filter_keys_distinct(
    epoch: u64,
    queriers: Seq<Seq<char>>,
    trigger: Seq<char>,
    sources: Seq<Seq<char>>,
)
    requires
        sources.no_duplicates(),
    ensures
        filter_keys(epoch, queriers, trigger, sources).no_duplicates(),
{
    let nc = queriers.map_values(|q: Seq<char>| FilterId::<u64, Seq<char>>::Nc(epoch, q));
    lemma_distinct_contains(nc);
    let d = crate::vec_map::distinct(nc);
    let keys = filter_keys(epoch, queriers, trigger, sources);
    assert forall|i: int, j: int|
        0 <= i < keys.len() && 0 <= j < keys.len() && i != j implies keys[i] != keys[j] by {
        if i < d.len() {
            assert(d.contains(d[i]));
            let m = nc.index_of(d[i]);
            assert(nc[m] == d[i]);
            assert(keys[i] is Nc);
        }
        if j < d.len() {
            assert(d.contains(d[j]));
            let m = nc.index_of(d[j]);
            assert(nc[m] == d[j]);
            assert(keys[j] is Nc);
        }
        if i >= d.len() + 2 && j >= d.len() + 2 {
            assert(sources[i - d.len() - 2] != sources[j - d.len() - 2]);
        }
    }
}

/// A deduction that finds every filter with its loss charges every filter
/// with exactly its loss. The filters differ from one another.
pub proof fn lemma_charged_in_full<C: FilterCapacities>(
    filters: Map<FilterKey, PureDPBudgetFilter>,
    capacities: C,
    keys: Seq<FilterKey>,
    losses: Seq<PureDPBudget>,
    i: int,
)
    requires
        keys.no_duplicates(),
        keys.len() == losses.len(),
        out_of_budget_keys(filters, capacities, keys, losses).len() == 0,
        0 <= i < keys.len(),
    ensures
        filter_of(filters, capacities, keys[i]).spec_admits(losses[i]),
        filter_of(charged(filters, capacities, keys, losses), capacities, keys[i]) == filter_of(
            filters,
            capacities,
            keys[i],
        ).spec_after(losses[i]),
    decreases keys.len(),
{
    let n = keys.len() as int;
    let before = charged(filters, capacities, keys.drop_last(), losses.drop_last());
    assert(keys.drop_last().no_duplicates());
    assert(!keys.drop_last().contains(keys.last())) by {
        if keys.drop_last().contains(keys.last()) {
            let j = keys.drop_last().index_of(keys.last());
            assert(keys[j] == keys[n - 1]);
        }
    }
    crate::pds::pds_core::lemma_charged_elsewhere(
        filters,
        capacities,
        keys.drop_last(),
        losses.drop_last(),
        keys.last(),
    );
    if i < n - 1 {
        lemma_charged_in_full(filters, capacities, keys.drop_last(), losses.drop_last(), i);
        assert(keys.drop_last()[i] == keys[i]);
        assert(losses.drop_last()[i] == losses[i]);
    }
}

/// The heart of the accounting: in each epoch either every filter has the
/// loss asked of it, and then each is charged exactly that loss; or at least
/// one lacks it, and then no filter at all is charged.
pub proof fn lemma_epoch_is_all_or_nothing<Q: EpochReportRequest, C: FilterCapacities>(
    request: Q,
    capacities: C,
    report: <Q::Report as View>::V,
    num_epochs: nat,
    pass: EpochPass<<Q::Event as View>::V>,
    epoch: u64,
    i: int,
)
    requires
        0 <= i < epoch_keys(request, epoch).len(),
    ensures
        ({
            let keys = epoch_keys(request, epoch);
            let losses = epoch_losses(
                request,
                epoch,
                events_in(pass.events, epoch),
                report,
                num_epochs,
            );
            let after = after_epoch(request, capacities, report, num_epochs, pass, epoch);
            let was = filter_of(pass.filters, capacities, keys[i]);
            if out_of_budget_keys(pass.filters, capacities, keys, losses).len() == 0 {
                was.spec_admits(losses[i]) && filter_of(after.filters, capacities, keys[i])
                    == was.spec_after(losses[i])
            } else {
                after.filters == pass.filters
            }
        }),
{
    let keys = epoch_keys(request, epoch);
    let losses = epoch_losses(request, epoch, events_in(pass.events, epoch), report, num_epochs);
    let uris = request.spec_report_uris();
    lemma_distinct_contains(uris.source_uris);
    lemma_filter_keys_distinct(
        epoch,
        uris.querier_uris,
        uris.trigger_uri,
        crate::vec_map::distinct(uris.source_uris),
    );
    if out_of_budget_keys(pass.filters, capacities, keys, losses).len() == 0 {
        lemma_charged_in_full(pass.filters, capacities, keys, losses, i);
    }
}

/// A histogram request has a report for each of its intermediaries, whether
/// a bucket belongs to the intermediary or not: the reports that go to the
/// intermediaries are as many as the intermediaries, and each is the part of
/// the histogram over the events that are left.
pub proof fn lemma_every_intermediary_has_a_report<H: HistogramRequest>(
    request: H,
    all_events: Map<u64, Seq<<H::HistogramEvent as View>::V>>,
    events_left: Map<u64, Seq<<H::HistogramEvent as View>::V>>,
    oob_filters: Seq<FilterKey>,
    intermediary: Seq<char>,
)
    ensures
        ({
            let uris = request.spec_histogram_report_uris();
            let unfiltered = histogram_result(request, all_events).uri_report_map;
            let filtered = histogram_result(request, events_left).uri_report_map;
            let reports = fan_out(uris.intermediary_uris, unfiltered, filtered, oob_filters);
            &&& reports.contains_key(intermediary) <==> uris.intermediary_uris.contains(
                intermediary,
            )
            &&& reports.contains_key(intermediary) ==> reports[intermediary].filtered_report
                == filtered[intermediary] && reports[intermediary].oob_filters == oob_filters
        }),
{
    let uris = request.spec_histogram_report_uris();
    let intermediaries = uris.intermediary_uris;
    assert(intermediaries.take(intermediaries.len() as int) =~= intermediaries);
}

} // verus!
