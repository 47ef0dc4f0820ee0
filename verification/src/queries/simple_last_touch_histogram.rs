use std::collections::HashMap;
use vstd::prelude::*;

use crate::budget::pure_dp_filter::UNITS_PER_ONE;
use crate::events::relevant_events::RelevantEvents;
use crate::events::simple_event::{SimpleEvent, SimpleEventView};
use crate::events::traits::{events_in, Predicate, RelevantEventSelector};
use crate::mechanisms::{NoiseScale, NormType};
use crate::queries::traits::{
    epochs_down, epochs_down_to, EpochReportRequest, QueryComputeResult, QueryComputeResultView,
    Report, ReportRequestUris, ReportRequestUrisView,
};
use crate::vec_map::{views, VecMap};

verus! {

/// A request for a histogram with a single bucket: the whole value goes to
/// the most recent relevant event.
#[derive(Debug)]
pub struct SimpleLastTouchHistogramRequest<P: Predicate<SimpleEvent>> {
    pub epoch_start: u64,
    /// The last epoch of the window, which is part of it.
    pub epoch_end: u64,
    /// The value of the report, in billionths.
    pub report_global_sensitivity: u64,
    /// The greatest value of a report in the batch, in billionths.
    pub query_global_sensitivity: u64,
    /// The budget spent on the batch, in billionths.
    pub requested_epsilon: u64,
    pub is_relevant_event: SimpleRelevantEventSelector<P>,
    pub report_uris: ReportRequestUris,
}

/// The selector of the events that meet a condition.
#[derive(Clone, Copy, Debug)]
pub struct SimpleRelevantEventSelector<P: Predicate<SimpleEvent>> {
    pub lambda: P,
}

impl<P: Predicate<SimpleEvent>> RelevantEventSelector for SimpleRelevantEventSelector<P> {
    type Event = SimpleEvent;

    open spec fn spec_is_relevant(&self, event: SimpleEventView) -> bool {
        self.lambda.spec_holds(event)
    }

    fn is_relevant_event(&self, event: &SimpleEvent) -> (b: bool) {
        self.lambda.holds(event)
    }
}

/// A histogram with at most one bucket: the bucket and its value, or `None`
/// where nothing was attributed.
#[derive(Clone, Copy, Debug)]
pub struct SimpleLastTouchHistogramReport {
    pub bin_value: Option<(u64, u64)>,
}

impl View for SimpleLastTouchHistogramReport {
    type V = Option<(u64, u64)>;

    open spec fn view(&self) -> Option<(u64, u64)> {
        self.bin_value
    }
}

impl Default for SimpleLastTouchHistogramReport {
    /// The null report.
    fn default() -> (r: Self)
        ensures
            r@ is None,
    {
        SimpleLastTouchHistogramReport { bin_value: None }
    }
}

impl Report for SimpleLastTouchHistogramReport {
    fn clone_report(&self) -> (r: Self) {
        SimpleLastTouchHistogramReport { bin_value: self.bin_value }
    }
}

/// The last event of the first of `epochs` that has a relevant event.
pub open spec fn last_impression(
    relevant_events: Map<u64, Seq<SimpleEventView>>,
    epochs: Seq<u64>,
) -> Option<SimpleEventView>
    decreases epochs.len(),
{
    if epochs.len() == 0 {
        None
    } else {
        let events = events_in(relevant_events, epochs[0]);
        if events.len() > 0 {
            Some(events.last())
        } else {
            last_impression(relevant_events, epochs.skip(1))
        }
    }
}

/// The noise scale of a batch: the greatest value of its reports over its
/// epsilon, rounded down to a billionth, and no more than the top of the
/// range. A batch without epsilon has none.
pub open spec fn batch_noise_scale(query_global_sensitivity: u64, requested_epsilon: u64) -> u64 {
    if requested_epsilon == 0 {
        0
    } else {
        let scale = (query_global_sensitivity * UNITS_PER_ONE) / (requested_epsilon as int);
        if scale <= u64::MAX {
            scale as u64
        } else {
            u64::MAX
        }
    }
}

/// The reports of a map, as contracts see them.
pub open spec fn simple_views(reports: Map<Seq<char>, SimpleLastTouchHistogramReport>) -> Map<
    Seq<char>,
    Option<(u64, u64)>,
> {
    reports.map_values(|report: SimpleLastTouchHistogramReport| report@)
}

impl<P: Predicate<SimpleEvent>> EpochReportRequest for SimpleLastTouchHistogramRequest<P> {
    type Event = SimpleEvent;

    type RelevantEventSelector = SimpleRelevantEventSelector<P>;

    type Report = SimpleLastTouchHistogramReport;

    open spec fn spec_report_uris(&self) -> ReportRequestUrisView {
        self.report_uris@
    }

    open spec fn spec_epoch_ids(&self) -> Seq<u64> {
        epochs_down(self.epoch_start, self.epoch_end)
    }

    open spec fn spec_relevant_event_selector(&self) -> SimpleRelevantEventSelector<P> {
        self.is_relevant_event
    }

    /// The first querier receives the one report: the key of the last
    /// impression with the whole value, or nothing.
    open spec fn spec_compute_report(
        &self,
        relevant_events: Map<u64, Seq<SimpleEventView>>,
    ) -> QueryComputeResultView<Option<(u64, u64)>> {
        let report = match last_impression(relevant_events, self.spec_epoch_ids()) {
            Some(event) => Some((event.event_key, self.report_global_sensitivity)),
            None => None,
        };
        QueryComputeResultView {
            bucket_uri_map: Map::empty(),
            uri_report_map: if self.report_uris@.querier_uris.len() > 0 {
                Map::<Seq<char>, Option<(u64, u64)>>::empty().insert(
                    self.report_uris@.querier_uris[0],
                    report,
                )
            } else {
                Map::empty()
            },
        }
    }

    open spec fn spec_single_epoch_individual_sensitivity(
        &self,
        report: Option<(u64, u64)>,
        norm_type: NormType,
    ) -> u128 {
        match report {
            Some((_, value)) => value as u128,
            None => 0,
        }
    }

    open spec fn spec_single_epoch_source_individual_sensitivity(
        &self,
        report: Option<(u64, u64)>,
        norm_type: NormType,
    ) -> u128 {
        self.spec_single_epoch_individual_sensitivity(report, norm_type)
    }

    open spec fn spec_report_global_sensitivity(&self) -> u128 {
        self.report_global_sensitivity as u128
    }

    open spec fn spec_noise_scale(&self) -> NoiseScale {
        NoiseScale::Laplace(
            batch_noise_scale(self.query_global_sensitivity, self.requested_epsilon),
        )
    }

    fn report_uris(&self) -> (uris: &ReportRequestUris) {
        &self.report_uris
    }

    fn epoch_ids(&self) -> (epochs: Vec<u64>) {
        epochs_down_to(self.epoch_start, self.epoch_end)
    }

    fn relevant_event_selector(&self) -> (selector: &SimpleRelevantEventSelector<P>) {
        &self.is_relevant_event
    }

    fn compute_report(&self, relevant_events: &RelevantEvents<SimpleEvent>) -> (r:
        QueryComputeResult<SimpleLastTouchHistogramReport>) {
        // The epochs come most recent first, and within an epoch the events
        // are in the order in which they happened.
        let epoch_ids = self.epoch_ids();
        let ghost relevant = relevant_events@;
        let mut bin_value: Option<(u64, u64)> = None;
        let mut i: usize = 0;
        proof {
            assert(epoch_ids@.skip(0) =~= epoch_ids@);
        }
        while i < epoch_ids.len() && bin_value.is_none()
            invariant
                i <= epoch_ids.len(),
                relevant == relevant_events@,
                epoch_ids@ == self.spec_epoch_ids(),
                bin_value is None ==> last_impression(relevant, epoch_ids@) == last_impression(
                    relevant,
                    epoch_ids@.skip(i as int),
                ),
                bin_value matches Some(bin) ==> (last_impression(relevant, epoch_ids@) matches Some(
                    event,
                ) && bin == (event.event_key, self.report_global_sensitivity)),
            decreases
                epoch_ids.len() - i + (if bin_value is None {
                    1int
                } else {
                    0int
                }),
        {
            let epoch_id = epoch_ids[i];
            let events = relevant_events.for_epoch(&epoch_id);
            proof {
                assert(epoch_ids@.skip(i as int)[0] == epoch_id);
                assert(epoch_ids@.skip(i as int).skip(1) =~= epoch_ids@.skip(i + 1));
                assert(views(events@).len() == events@.len());
            }
            if events.len() > 0 {
                let last_impression = &events[events.len() - 1];
                proof {
                    assert(views(events@).last() == last_impression@);
                }
                bin_value = Some((last_impression.event_key, self.report_global_sensitivity));
            } else {
                i += 1;
            }
        }
        let report = SimpleLastTouchHistogramReport { bin_value };
        let mut uri_report_map: VecMap<String, SimpleLastTouchHistogramReport> = VecMap::new();
        if self.report_uris.querier_uris.len() > 0 {
            proof {
                assert(self.report_uris.querier_uris.deep_view()[0]
                    == self.report_uris.querier_uris[0]@);
            }
            uri_report_map.insert(self.report_uris.querier_uris[0].clone(), report);
        }
        let result = QueryComputeResult::new(HashMap::new(), uri_report_map);
        proof {
            assert(result@.bucket_uri_map =~= Map::<u64, Seq<char>>::empty());
            assert(result@.uri_report_map =~= self.spec_compute_report(relevant).uri_report_map);
        }
        result
    }

    fn single_epoch_individual_sensitivity(
        &self,
        report: &SimpleLastTouchHistogramReport,
        norm_type: NormType,
    ) -> (s: u128) {
        // The report has one bucket at most, so that the norms agree.
        match report.bin_value {
            Some((_, value)) => value as u128,
            None => 0,
        }
    }

    fn single_epoch_source_individual_sensitivity(
        &self,
        report: &SimpleLastTouchHistogramReport,
        norm_type: NormType,
    ) -> (s: u128) {
        self.single_epoch_individual_sensitivity(report, norm_type)
    }

    fn report_global_sensitivity(&self) -> (s: u128) {
        self.report_global_sensitivity as u128
    }

    fn noise_scale(&self) -> (scale: NoiseScale) {
        if self.requested_epsilon == 0 {
            return NoiseScale::Laplace(0);
        }
        assert((self.query_global_sensitivity as u128) * (UNITS_PER_ONE as u128) <= u128::MAX)
            by (nonlinear_arith)
            requires
                self.query_global_sensitivity <= 0xffff_ffff_ffff_ffff,
                UNITS_PER_ONE == 1_000_000_000,
        ;
        let scale = ((self.query_global_sensitivity as u128) * (UNITS_PER_ONE as u128)) / (
        self.requested_epsilon as u128);
        if scale <= u64::MAX as u128 {
            NoiseScale::Laplace(scale as u64)
        } else {
            NoiseScale::Laplace(u64::MAX)
        }
    }
}

} // verus!
