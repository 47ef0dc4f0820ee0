use std::collections::{HashMap, HashSet};
use vstd::prelude::*;
use vstd::std_specs::hash::spec_hash_map_iter;
use vstd::std_specs::iter::IteratorSpec;

use crate::budget::pure_dp_filter::UNITS_PER_ONE;
use crate::error::PdsError;
use crate::events::ppa_event::{PpaEvent, PpaEventView};
use crate::events::relevant_events::RelevantEvents;
use crate::events::traits::{contains_uri, events_in, Predicate, RelevantEventSelector};
use crate::mechanisms::{NoiseScale, NormType};
use crate::queries::histogram::{
    bucket_views, compute_histogram_report, event_value_views, first_bins, histogram_result,
    lemma_first_bins, lemma_first_bins_start, norm_of, HistogramReport, HistogramRequest,
};
use crate::queries::traits::{
    epochs_down, epochs_down_to, EpochReportRequest, QueryComputeResult, QueryComputeResultView,
    ReportRequestUris, ReportRequestUrisView,
};
use crate::vec_map::views;

verus! {

/// The condition on filter data that one value meets.
#[derive(Clone, Copy, Debug)]
pub struct FilterDataEquals(pub u64);

impl Predicate<u64> for FilterDataEquals {
    open spec fn spec_holds(&self, filter_data: u64) -> bool {
        filter_data == self.0
    }

    fn holds(&self, filter_data: &u64) -> (b: bool) {
        *filter_data == self.0
    }
}

/// The selector of the events that are relevant to a request: by the sites
/// of the request and by a condition on the filter data.
#[derive(Debug)]
pub struct PpaRelevantEventSelector<M: Predicate<u64>> {
    pub report_request_uris: ReportRequestUris,
    pub is_matching_event: M,
    /// The intermediary of each bucket that has one.
    pub bucket_intermediary_mapping: HashMap<u64, String>,
}

/// Whether every one of `wanted` is among `given`.
pub open spec fn all_among(wanted: Seq<Seq<char>>, given: Seq<Seq<char>>) -> bool {
    forall|i: int| 0 <= i < wanted.len() ==> given.contains(#[trigger] wanted[i])
}

/// Whether every one of `wanted` is among `given`.
pub fn all_uris_among(wanted: &Vec<String>, given: &Vec<String>) -> (b: bool)
    ensures
        b == all_among(wanted.deep_view(), given.deep_view()),
{
    let mut i: usize = 0;
    while i < wanted.len()
        invariant
            i <= wanted.len(),
            forall|j: int|
                0 <= j < i ==> given.deep_view().contains(#[trigger] wanted.deep_view()[j]),
        decreases wanted.len() - i,
    {
        if !contains_uri(given, &wanted[i]) {
            proof {
                assert(wanted.deep_view()[i as int] == wanted[i as int]@);
            }
            return false;
        }
        proof {
            assert(wanted.deep_view()[i as int] == wanted[i as int]@);
        }
        i += 1;
    }
    true
}

impl<M: Predicate<u64>> RelevantEventSelector for PpaRelevantEventSelector<M> {
    type Event = PpaEvent;

    /// An event is relevant when its source is one of the sources of the
    /// request, every querier of the request is one of its queriers, the
    /// trigger site of the request is one of its trigger sites, and its
    /// filter data meets the condition.
    open spec fn spec_is_relevant(&self, event: PpaEventView) -> bool {
        &&& self.report_request_uris@.source_uris.contains(event.uris.source_uri)
        &&& all_among(self.report_request_uris@.querier_uris, event.uris.querier_uris)
        &&& event.uris.trigger_uris.contains(self.report_request_uris@.trigger_uri)
        &&& self.is_matching_event.spec_holds(event.filter_data)
    }

    fn is_relevant_event(&self, event: &PpaEvent) -> (b: bool) {
        let source_match = contains_uri(
            &self.report_request_uris.source_uris,
            &event.uris.source_uri,
        );
        let querier_match = all_uris_among(
            &self.report_request_uris.querier_uris,
            &event.uris.querier_uris,
        );
        let trigger_match = contains_uri(
            &event.uris.trigger_uris,
            &self.report_request_uris.trigger_uri,
        );
        source_match && querier_match && trigger_match && self.is_matching_event.holds(
            &event.filter_data,
        )
    }
}

/// The parameters of a request, with the epsilon of the batch and the
/// greatest value of a report in the batch in place of the noise scale.
#[derive(Clone, Copy, Debug)]
pub struct PpaHistogramConfig {
    pub start_epoch: u64,
    /// The last epoch of the window, which is part of it.
    pub end_epoch: u64,
    /// The value that is spread over the events of this report, in
    /// billionths.
    pub attributable_value: u64,
    /// The greatest value of a report in the batch, in billionths.
    pub max_attributable_value: u64,
    /// The budget spent on the batch, in billionths.
    pub requested_epsilon: u64,
    pub histogram_size: u64,
}

/// The parameters of a request, with the noise scale itself.
#[derive(Clone, Copy, Debug)]
pub struct DirectPpaHistogramConfig {
    pub start_epoch: u64,
    /// The last epoch of the window, which is part of it.
    pub end_epoch: u64,
    /// The value that is spread over the events of this report, in
    /// billionths.
    pub attributable_value: u64,
    /// The scale of the Laplace noise, in billionths.
    pub laplace_noise_scale: u64,
    pub histogram_size: u64,
}

/// How the value of a report is spread over the relevant events.
#[derive(Clone, Copy, Debug, PartialEq, Eq, Structural)]
pub enum AttributionLogic {
    /// All of it goes to the most recent relevant event.
    LastTouch,
}

/// The noise scale for a batch of the given epsilon, whose reports are worth
/// `max_attributable_value` at most: the sensitivity of a histogram with
/// several buckets, which is twice that value, over the epsilon. It is
/// rounded down to a billionth and stops at the top of the range.
pub open spec fn noise_scale_for(max_attributable_value: u64, requested_epsilon: u64) -> u64 {
    let scale = (2 * max_attributable_value * UNITS_PER_ONE) / (requested_epsilon as int);
    if scale <= u64::MAX {
        scale as u64
    } else {
        u64::MAX
    }
}

/// A request for a histogram over a window of epochs.
#[derive(Debug)]
pub struct PpaHistogramRequest<M: Predicate<u64>> {
    pub start_epoch: u64,
    pub end_epoch: u64,
    pub attributable_value: u64,
    pub laplace_noise_scale: u64,
    pub histogram_size: u64,
    pub relevant_event_selector: PpaRelevantEventSelector<M>,
    pub logic: AttributionLogic,
}

/// The last of `events` whose bucket is below `histogram_size`.
pub open spec fn last_valid(events: Seq<PpaEventView>, histogram_size: u64) -> Option<
    PpaEventView,
>
    decreases events.len(),
{
    if events.len() == 0 {
        None
    } else if events.last().histogram_index < histogram_size {
        Some(events.last())
    } else {
        last_valid(events.drop_last(), histogram_size)
    }
}

/// The event that the last touch falls on: in the first of `epochs` that
/// has one, the last relevant event whose bucket is below `histogram_size`.
pub open spec fn last_touch(
    relevant_events: Map<u64, Seq<PpaEventView>>,
    epochs: Seq<u64>,
    histogram_size: u64,
) -> Option<PpaEventView>
    decreases epochs.len(),
{
    if epochs.len() == 0 {
        None
    } else {
        match last_valid(events_in(relevant_events, epochs[0]), histogram_size) {
            Some(event) => Some(event),
            None => last_touch(relevant_events, epochs.skip(1), histogram_size),
        }
    }
}

/// An event whose bucket is not below the size of the histogram is passed
/// over, and the search goes on: among the events before it, and from an
/// epoch without a valid event to the epochs after it.
pub proof fn lemma_invalid_bucket_is_passed_over(
    relevant_events: Map<u64, Seq<PpaEventView>>,
    epochs: Seq<u64>,
    events: Seq<PpaEventView>,
    event: PpaEventView,
    histogram_size: u64,
)
    requires
        event.histogram_index >= histogram_size,
    ensures
        last_valid(events.push(event), histogram_size) == last_valid(events, histogram_size),
        epochs.len() > 0 && last_valid(events_in(relevant_events, epochs[0]), histogram_size)
            is None ==> last_touch(relevant_events, epochs, histogram_size) == last_touch(
            relevant_events,
            epochs.skip(1),
            histogram_size,
        ),
{
    assert(events.push(event).drop_last() =~= events);
}

/// The buckets of `mapping` that belong to `intermediary`.
pub open spec fn buckets_of(mapping: Map<u64, Seq<char>>, intermediary: Seq<char>) -> Set<u64> {
    Set::new(|bucket: u64| mapping.contains_key(bucket) && mapping[bucket] == intermediary)
}

/// Whether one of the first `n` of `pairs` gives `bucket` to `intermediary`.
pub open spec fn given_among(
    pairs: Seq<(&u64, &String)>,
    n: int,
    bucket: u64,
    intermediary: Seq<char>,
) -> bool {
    exists|i: int|
        0 <= i < n && *(#[trigger] pairs[i]).0 == bucket && (*pairs[i].1)@ == intermediary
}

/// The entries of `full_histogram` whose buckets are among
/// `intermediary_buckets`.
pub fn filter_histogram_for_intermediary(
    full_histogram: &HashMap<u64, u64>,
    intermediary_buckets: &HashSet<u64>,
) -> (r: HashMap<u64, u64>)
    ensures
        r@ == full_histogram@.restrict(intermediary_buckets@),
{
    let ghost buckets = intermediary_buckets@;
    let ghost pairs = spec_hash_map_iter(full_histogram).remaining();
    let mut r: HashMap<u64, u64> = HashMap::new();
    proof {
        lemma_first_bins_start(full_histogram);
        assert(r@ =~= first_bins(full_histogram@, pairs, 0).restrict(buckets));
    }
    for pair in it: full_histogram.iter()
        invariant
            it.seq() == pairs,
            pairs.no_duplicates(),
            buckets == intermediary_buckets@,
            r@ == first_bins(full_histogram@, pairs, it.index()).restrict(buckets),
    {
        proof {
            lemma_first_bins(full_histogram, it.index());
        }
        if intermediary_buckets.contains(pair.0) {
            r.insert(*pair.0, *pair.1);
        }
        proof {
            assert(r@ =~= first_bins(full_histogram@, pairs, it.index() + 1).restrict(buckets));
        }
    }
    proof {
        lemma_first_bins(full_histogram, pairs.len() as int);
    }
    r
}

impl<M: Predicate<u64>> PpaHistogramRequest<M> {
    /// A request from the parameters of a batch. The epsilon, both values
    /// and the size of the histogram must not be zero.
    pub fn new(
        config: PpaHistogramConfig,
        relevant_event_selector: PpaRelevantEventSelector<M>,
    ) -> (r: Result<Self, PdsError>)
        ensures
            match r {
                Ok(request) => {
                    &&& config.requested_epsilon > 0
                    &&& config.attributable_value > 0
                    &&& config.max_attributable_value > 0
                    &&& config.histogram_size > 0
                    &&& request.start_epoch == config.start_epoch
                    &&& request.end_epoch == config.end_epoch
                    &&& request.attributable_value == config.attributable_value
                    &&& request.laplace_noise_scale == noise_scale_for(
                        config.max_attributable_value,
                        config.requested_epsilon,
                    )
                    &&& request.histogram_size == config.histogram_size
                    &&& request.relevant_event_selector == relevant_event_selector
                    &&& request.logic == AttributionLogic::LastTouch
                },
                Err(e) => e == if config.requested_epsilon == 0 {
                    PdsError::EpsilonNotPositive
                } else if config.attributable_value == 0 || config.max_attributable_value == 0 {
                    PdsError::ValueNotPositive
                } else {
                    PdsError::EmptyHistogram
                } && (config.requested_epsilon == 0 || config.attributable_value == 0
                    || config.max_attributable_value == 0 || config.histogram_size == 0),
            },
    {
        if config.requested_epsilon == 0 {
            return Err(PdsError::EpsilonNotPositive);
        }
        if config.attributable_value == 0 || config.max_attributable_value == 0 {
            return Err(PdsError::ValueNotPositive);
        }
        if config.histogram_size == 0 {
            return Err(PdsError::EmptyHistogram);
        }
        // The sensitivity of a histogram with several buckets.
        let query_global_sensitivity: u128 = 2 * (config.max_attributable_value as u128);
        assert(query_global_sensitivity * (UNITS_PER_ONE as u128) <= u128::MAX) by (nonlinear_arith)
            requires
                query_global_sensitivity <= 2 * 0xffff_ffff_ffff_ffff,
                UNITS_PER_ONE == 1_000_000_000,
        ;
        let scale = (query_global_sensitivity * (UNITS_PER_ONE as u128)) / (
        config.requested_epsilon as u128);
        let laplace_noise_scale = if scale <= u64::MAX as u128 {
            scale as u64
        } else {
            u64::MAX
        };
        Ok(
            PpaHistogramRequest {
                start_epoch: config.start_epoch,
                end_epoch: config.end_epoch,
                attributable_value: config.attributable_value,
                laplace_noise_scale,
                histogram_size: config.histogram_size,
                relevant_event_selector,
                logic: AttributionLogic::LastTouch,
            },
        )
    }

    /// A request from its noise scale. The value, the noise scale and the
    /// size of the histogram must not be zero.
    pub fn new_direct(
        config: DirectPpaHistogramConfig,
        relevant_event_selector: PpaRelevantEventSelector<M>,
    ) -> (r: Result<Self, PdsError>)
        ensures
            match r {
                Ok(request) => {
                    &&& config.attributable_value > 0
                    &&& config.laplace_noise_scale > 0
                    &&& config.histogram_size > 0
                    &&& request.start_epoch == config.start_epoch
                    &&& request.end_epoch == config.end_epoch
                    &&& request.attributable_value == config.attributable_value
                    &&& request.laplace_noise_scale == config.laplace_noise_scale
                    &&& request.histogram_size == config.histogram_size
                    &&& request.relevant_event_selector == relevant_event_selector
                    &&& request.logic == AttributionLogic::LastTouch
                },
                Err(e) => e == if config.attributable_value == 0 {
                    PdsError::ValueNotPositive
                } else if config.laplace_noise_scale == 0 {
                    PdsError::NoiseScaleNotPositive
                } else {
                    PdsError::EmptyHistogram
                } && (config.attributable_value == 0 || config.laplace_noise_scale == 0
                    || config.histogram_size == 0),
            },
    {
        if config.attributable_value == 0 {
            return Err(PdsError::ValueNotPositive);
        }
        if config.laplace_noise_scale == 0 {
            return Err(PdsError::NoiseScaleNotPositive);
        }
        if config.histogram_size == 0 {
            return Err(PdsError::EmptyHistogram);
        }
        Ok(
            PpaHistogramRequest {
                start_epoch: config.start_epoch,
                end_epoch: config.end_epoch,
                attributable_value: config.attributable_value,
                laplace_noise_scale: config.laplace_noise_scale,
                histogram_size: config.histogram_size,
                relevant_event_selector,
                logic: AttributionLogic::LastTouch,
            },
        )
    }

    /// The intermediary of each bucket that has one.
    pub fn get_bucket_intermediary_mapping(&self) -> (mapping: &HashMap<u64, String>)
        ensures
            *mapping == self.relevant_event_selector.bucket_intermediary_mapping,
    {
        &self.relevant_event_selector.bucket_intermediary_mapping
    }

    /// Whether `bucket_key` belongs to `intermediary_uri`.
    pub fn is_bucket_for_intermediary(&self, bucket_key: u64, intermediary_uri: &String) -> (b:
        bool)
        ensures
            b == buckets_of(
                bucket_views(self.relevant_event_selector.bucket_intermediary_mapping@),
                intermediary_uri@,
            ).contains(bucket_key),
    {
        match self.relevant_event_selector.bucket_intermediary_mapping.get(&bucket_key) {
            Some(intermediary) => *intermediary == *intermediary_uri,
            None => false,
        }
    }
}

impl<M: Predicate<u64>> HistogramRequest for PpaHistogramRequest<M> {
    type HistogramEvent = PpaEvent;

    open spec fn spec_attributable_value(&self) -> u64 {
        self.attributable_value
    }

    open spec fn spec_bucket_key(&self, event: PpaEventView) -> u64 {
        event.histogram_index
    }

    /// The whole attributable value goes to the event of the last touch.
    open spec fn spec_event_values(&self, relevant_events: Map<u64, Seq<PpaEventView>>) -> Seq<
        (PpaEventView, u64),
    > {
        match last_touch(
            relevant_events,
            epochs_down(self.start_epoch, self.end_epoch),
            self.histogram_size,
        ) {
            Some(event) => seq![(event, self.attributable_value)],
            None => Seq::empty(),
        }
    }

    open spec fn spec_histogram_report_uris(&self) -> ReportRequestUrisView {
        self.relevant_event_selector.report_request_uris@
    }

    open spec fn spec_bucket_intermediary_mapping(&self) -> Option<Map<u64, Seq<char>>> {
        Some(bucket_views(self.relevant_event_selector.bucket_intermediary_mapping@))
    }

    /// An intermediary receives the buckets that belong to it, and nothing
    /// where no bucket does.
    open spec fn spec_filter_report_for_intermediary(
        &self,
        report: Map<u64, u64>,
        intermediary_uri: Seq<char>,
    ) -> Option<Map<u64, u64>> {
        let buckets = buckets_of(
            bucket_views(self.relevant_event_selector.bucket_intermediary_mapping@),
            intermediary_uri,
        );
        if buckets == Set::<u64>::empty() {
            None
        } else {
            Some(report.restrict(buckets))
        }
    }

    fn attributable_value(&self) -> (value: u64) {
        self.attributable_value
    }

    fn bucket_key(&self, event: &PpaEvent) -> (key: u64) {
        event.histogram_index
    }

    fn event_values<'a>(&self, relevant_events: &'a RelevantEvents<PpaEvent>) -> (r: Vec<
        (&'a PpaEvent, u64),
    >) {
        let mut r: Vec<(&'a PpaEvent, u64)> = Vec::new();
        let ghost relevant = relevant_events@;
        let ghost size = self.histogram_size;
        match self.logic {
            AttributionLogic::LastTouch => {
                // The epochs come most recent first, and within an epoch
                // the most recent event is the last one.
                let epoch_ids = self.epoch_ids();
                let mut i: usize = 0;
                proof {
                    assert(epoch_ids@.skip(0) =~= epoch_ids@);
                }
                while i < epoch_ids.len()
                    invariant
                        i <= epoch_ids.len(),
                        relevant == relevant_events@,
                        size == self.histogram_size,
                        r@.len() == 0,
                        epoch_ids@ == epochs_down(self.start_epoch, self.end_epoch),
                        last_touch(relevant, epoch_ids@, size) == last_touch(
                            relevant,
                            epoch_ids@.skip(i as int),
                            size,
                        ),
                    decreases epoch_ids.len() - i,
                {
                    let epoch_id = epoch_ids[i];
                    let relevant_events_in_epoch = relevant_events.for_epoch(&epoch_id);
                    let ghost events = views(relevant_events_in_epoch@);
                    let mut j: usize = relevant_events_in_epoch.len();
                    proof {
                        assert(epoch_ids@.skip(i as int)[0] == epoch_id);
                        assert(epoch_ids@.skip(i as int).skip(1) =~= epoch_ids@.skip(i + 1));
                        assert(events.take(j as int) =~= events);
                    }
                    while j > 0
                        invariant
                            j <= relevant_events_in_epoch.len(),
                            i < epoch_ids.len(),
                            r@.len() == 0,
                            relevant == relevant_events@,
                            events == views(relevant_events_in_epoch@),
                            events == events_in(relevant, epoch_id),
                            size == self.histogram_size,
                            epoch_ids@ == epochs_down(self.start_epoch, self.end_epoch),
                            epoch_ids@.skip(i as int)[0] == epoch_id,
                            last_touch(relevant, epoch_ids@, size) == last_touch(
                                relevant,
                                epoch_ids@.skip(i as int),
                                size,
                            ),
                            last_valid(events, size) == last_valid(events.take(j as int), size),
                        decreases j,
                    {
                        let event = &relevant_events_in_epoch[j - 1];
                        proof {
                            assert(events.take(j as int).last() == event@);
                            assert(events.take(j as int).drop_last() =~= events.take(j - 1));
                        }
                        if event.histogram_index < self.histogram_size {
                            r.push((event, self.attributable_value));
                            proof {
                                assert(r@.len() == 1);
                                assert(r@[0] == (event, self.attributable_value));
                                assert(event_value_views(r@).len() == 1);
                                assert(event_value_views(r@)[0] == (
                                    event@,
                                    self.attributable_value,
                                ));
                                assert(event_value_views(r@) =~= seq![
                                    (event@, self.attributable_value),
                                ]);
                            }
                            return r;
                        }
                        j -= 1;
                    }
                    i += 1;
                }
            },
        }
        proof {
            assert(event_value_views(r@) =~= Seq::<(PpaEventView, u64)>::empty());
        }
        r
    }

    fn histogram_report_uris(&self) -> (uris: ReportRequestUris) {
        self.relevant_event_selector.report_request_uris.clone()
    }

    fn get_bucket_intermediary_mapping(&self) -> (mapping: Option<&HashMap<u64, String>>) {
        Some(&self.relevant_event_selector.bucket_intermediary_mapping)
    }

    fn filter_report_for_intermediary(
        &self,
        report: &HistogramReport,
        intermediary_uri: &String,
        relevant_events: &RelevantEvents<PpaEvent>,
    ) -> (r: Option<HistogramReport>) {
        let mapping = &self.relevant_event_selector.bucket_intermediary_mapping;
        let ghost wanted = buckets_of(bucket_views(mapping@), intermediary_uri@);
        let ghost pairs = spec_hash_map_iter(mapping).remaining();
        // The buckets that belong to the intermediary.
        let mut intermediary_buckets: HashSet<u64> = HashSet::new();
        for pair in it: mapping.iter()
            invariant
                it.seq() == pairs,
                forall|bucket: u64|
                    intermediary_buckets@.contains(bucket) <==> given_among(
                        pairs,
                        it.index(),
                        bucket,
                        intermediary_uri@,
                    ),
        {
            if *pair.1 == *intermediary_uri {
                intermediary_buckets.insert(*pair.0);
            }
        }
        proof {
            assert forall|bucket: u64| intermediary_buckets@.contains(bucket) == wanted.contains(
                bucket,
            ) by {
                if intermediary_buckets@.contains(bucket) {
                    let i = choose|i: int|
                        0 <= i < pairs.len() && *(#[trigger] pairs[i]).0 == bucket
                            && (*pairs[i].1)@ == intermediary_uri@;
                    assert(mapping@.contains_key(*pairs[i].0));
                    assert(mapping@[*pairs[i].0] == *pairs[i].1);
                }
                if wanted.contains(bucket) {
                    assert(mapping@.contains_key(bucket));
                    assert(pairs.contains((&bucket, &mapping@[bucket])));
                    let i = pairs.index_of((&bucket, &mapping@[bucket]));
                    assert(*pairs[i].0 == bucket);
                    assert(given_among(pairs, pairs.len() as int, bucket, intermediary_uri@));
                }
            }
            assert(intermediary_buckets@ =~= wanted);
        }
        if intermediary_buckets.is_empty() {
            None
        } else {
            let filtered_bins = filter_histogram_for_intermediary(
                &report.bin_values,
                &intermediary_buckets,
            );
            let filtered = HistogramReport { bin_values: filtered_bins };
            proof {
                assert(filtered@ == report@.restrict(wanted));
                assert(wanted != Set::<u64>::empty());
            }
            Some(filtered)
        }
    }
}

impl<M: Predicate<u64>> EpochReportRequest for PpaHistogramRequest<M> {
    type Event = PpaEvent;

    type RelevantEventSelector = PpaRelevantEventSelector<M>;

    type Report = HistogramReport;

    open spec fn spec_report_uris(&self) -> ReportRequestUrisView {
        self.relevant_event_selector.report_request_uris@
    }

    open spec fn spec_epoch_ids(&self) -> Seq<u64> {
        epochs_down(self.start_epoch, self.end_epoch)
    }

    open spec fn spec_relevant_event_selector(&self) -> PpaRelevantEventSelector<M> {
        self.relevant_event_selector
    }

    open spec fn spec_compute_report(
        &self,
        relevant_events: Map<u64, Seq<PpaEventView>>,
    ) -> QueryComputeResultView<Map<u64, u64>> {
        histogram_result(*self, relevant_events)
    }

    open spec fn spec_single_epoch_individual_sensitivity(
        &self,
        report: Map<u64, u64>,
        norm_type: NormType,
    ) -> u128 {
        norm_of(report, norm_type)
    }

    open spec fn spec_single_epoch_source_individual_sensitivity(
        &self,
        report: Map<u64, u64>,
        norm_type: NormType,
    ) -> u128 {
        norm_of(report, norm_type)
    }

    open spec fn spec_report_global_sensitivity(&self) -> u128 {
        (2 * self.attributable_value) as u128
    }

    open spec fn spec_noise_scale(&self) -> NoiseScale {
        NoiseScale::Laplace(self.laplace_noise_scale)
    }

    fn report_uris(&self) -> (uris: &ReportRequestUris) {
        &self.relevant_event_selector.report_request_uris
    }

    fn epoch_ids(&self) -> (epochs: Vec<u64>) {
        epochs_down_to(self.start_epoch, self.end_epoch)
    }

    fn relevant_event_selector(&self) -> (selector: &PpaRelevantEventSelector<M>) {
        &self.relevant_event_selector
    }

    fn compute_report(&self, relevant_events: &RelevantEvents<PpaEvent>) -> (r: QueryComputeResult<
        HistogramReport,
    >) {
        compute_histogram_report(self, relevant_events)
    }

    fn single_epoch_individual_sensitivity(
        &self,
        report: &HistogramReport,
        norm_type: NormType,
    ) -> (s: u128) {
        self.histogram_single_epoch_individual_sensitivity(report, norm_type)
    }

    fn single_epoch_source_individual_sensitivity(
        &self,
        report: &HistogramReport,
        norm_type: NormType,
    ) -> (s: u128) {
        self.histogram_single_epoch_source_individual_sensitivity(report, norm_type)
    }

    fn report_global_sensitivity(&self) -> (s: u128) {
        self.histogram_report_global_sensitivity()
    }

    fn noise_scale(&self) -> (scale: NoiseScale) {
        NoiseScale::Laplace(self.laplace_noise_scale)
    }
}

} // verus!
