use std::collections::{HashMap, HashSet};

use pdslib::budget::pure_dp_filter::{PureDPBudget, UNITS_PER_ONE};
use pdslib::error::PdsError;
use pdslib::events::hashmap_event_storage::HashMapEventStorage;
use pdslib::events::ppa_event::{PpaEvent, PpaEventView};
use pdslib::events::relevant_events::RelevantEvents;
use pdslib::events::simple_event::SimpleEvent;
use pdslib::events::traits::{
    Always, Event, EventStorage, EventUris, EventsByEpoch, Predicate,
    RelevantEventSelector, UriView,
};
use pdslib::mechanisms::{NoiseScale, NormType};
use pdslib::pds::accounting::{
    compute_epoch_loss, compute_epoch_source_losses, compute_privacy_loss,
};
use pdslib::queries::histogram::{
    compute_histogram_report, Bins, BucketUris, EventValues, HistogramReport, HistogramRequest,
};
use pdslib::queries::ppa_histogram::{
    filter_histogram_for_intermediary, AttributionLogic, DirectPpaHistogramConfig,
    FilterDataEquals, PpaHistogramConfig, PpaHistogramRequest, PpaRelevantEventSelector,
};
use pdslib::queries::simple_last_touch_histogram::{
    SimpleLastTouchHistogramReport, SimpleLastTouchHistogramRequest, SimpleRelevantEventSelector,
};
use pdslib::queries::traits::{
    EpochReportRequest, QueryComputeResult, Report, ReportRequestUris, ReportRequestUrisView,
};
use pdslib::vec_map::VecMap;

/// The number of units of `x`.
fn units(x: f64) -> u64 {
    (x * UNITS_PER_ONE as f64).round() as u64
}

/// The budget of `x`, in the units of the library.
fn eps(x: f64) -> PureDPBudget {
    PureDPBudget::Epsilon(units(x))
}

fn uris(intermediaries: &[&str]) -> ReportRequestUris {
    ReportRequestUris {
        trigger_uri: "shoes.com".to_string(),
        source_uris: vec!["blog.com".to_string()],
        intermediary_uris: intermediaries.iter().map(|s| s.to_string()).collect(),
        querier_uris: vec!["adtech.com".to_string()],
    }
}

fn event(id: u64, epoch: u64, index: u64) -> PpaEvent {
    PpaEvent {
        id,
        timestamp: id * 100,
        epoch_number: epoch,
        histogram_index: index,
        uris: EventUris::mock(),
        filter_data: 1,
    }
}

fn ppa_request(
    start: u64,
    end: u64,
    value: f64,
    size: u64,
    intermediaries: &[&str],
    mapping: &[(u64, &str)],
) -> PpaHistogramRequest<Always> {
    let mut bucket_intermediary_mapping = HashMap::new();
    for (bucket, uri) in mapping {
        bucket_intermediary_mapping.insert(*bucket, uri.to_string());
    }
    PpaHistogramRequest::new(
        PpaHistogramConfig {
            start_epoch: start,
            end_epoch: end,
            attributable_value: units(value),
            max_attributable_value: units(200.0),
            requested_epsilon: units(1.0),
            histogram_size: size,
        },
        PpaRelevantEventSelector {
            report_request_uris: uris(intermediaries),
            is_matching_event: Always,
            bucket_intermediary_mapping,
        },
    )
    .unwrap()
}

fn relevant(events: Vec<PpaEvent>) -> RelevantEvents<PpaEvent> {
    let mut per_epoch: HashMap<u64, Vec<PpaEvent>> = HashMap::new();
    for event in events {
        let epoch = event.epoch_number;
        let mut list = per_epoch.remove(&epoch).unwrap_or_default();
        list.push(event);
        per_epoch.insert(epoch, list);
    }
    RelevantEvents::from_mapping(per_epoch)
}

/// A histogram request that gives every event of epoch 1 a value, so that
/// the cap on the sum can be met.
struct EveryEvent {
    value: fn(&PpaEvent) -> u64,
    cap: u64,
    uris: ReportRequestUris,
}

impl HistogramRequest for EveryEvent {
    type HistogramEvent = PpaEvent;

    fn spec_attributable_value(&self) -> u64 {
        self.cap
    }

    fn spec_bucket_key(&self, event: PpaEventView) -> u64 {
        event.histogram_index
    }

    fn spec_event_values(
        &self,
        _relevant_events: EventsByEpoch<PpaEventView>,
    ) -> EventValues<PpaEventView> {
        unreachable!("only contracts speak of this")
    }

    fn spec_histogram_report_uris(&self) -> ReportRequestUrisView {
        unreachable!("only contracts speak of this")
    }

    fn spec_bucket_intermediary_mapping(&self) -> Option<BucketUris> {
        None
    }

    fn spec_filter_report_for_intermediary(
        &self,
        _report: Bins,
        _intermediary_uri: UriView,
    ) -> Option<Bins> {
        None
    }

    fn attributable_value(&self) -> u64 {
        self.cap
    }

    fn bucket_key(&self, event: &PpaEvent) -> u64 {
        event.histogram_index
    }

    fn event_values<'a>(
        &self,
        relevant_events: &'a RelevantEvents<PpaEvent>,
    ) -> Vec<(&'a PpaEvent, u64)> {
        relevant_events
            .for_epoch(&1)
            .iter()
            .map(|event| (event, (self.value)(event)))
            .collect()
    }

    fn histogram_report_uris(&self) -> ReportRequestUris {
        self.uris.clone()
    }

    fn get_bucket_intermediary_mapping(&self) -> Option<&HashMap<u64, String>> {
        None
    }

    fn filter_report_for_intermediary(
        &self,
        _report: &HistogramReport,
        _intermediary_uri: &String,
        _relevant_events: &RelevantEvents<PpaEvent>,
    ) -> Option<HistogramReport> {
        None
    }
}

/// The buckets of a report with their values, by bucket.
fn bins(report: &HistogramReport) -> Vec<(u64, u64)> {
    let mut bins: Vec<(u64, u64)> =
        report.bin_values.iter().map(|(bucket, value)| (*bucket, *value)).collect();
    bins.sort();
    bins
}

fn querier_bins(result: &QueryComputeResult<HistogramReport>) -> Vec<(u64, u64)> {
    bins(result.uri_report_map.get(&"adtech.com".to_string()).unwrap())
}

#[test]
fn values_within_the_cap_are_summed_by_bucket() {
    let request = EveryEvent { value: |_| 30, cap: 100, uris: uris(&[]) };
    let events = relevant(vec![event(1, 1, 7), event(2, 1, 9), event(3, 1, 7)]);
    let result = compute_histogram_report(&request, &events);
    assert_eq!(querier_bins(&result), vec![(7, 60), (9, 30)]);
    assert_eq!(result.uri_report_map.len(), 1);
    assert!(result.bucket_uri_map.is_empty());
}

#[test]
fn value_beyond_the_cap_ends_the_histogram() {
    // Two events worth 80 each under a cap of 100: the second would take
    // the sum to 160, so that only the bucket of the first is there.
    let request = EveryEvent { value: |_| units(80.0), cap: units(100.0), uris: uris(&[]) };
    let events = relevant(vec![event(1, 1, 1), event(2, 1, 2)]);
    let result = compute_histogram_report(&request, &events);
    assert_eq!(querier_bins(&result), vec![(1, units(80.0))]);

    // The events after the one that did not fit are left out as well, even
    // where they would fit.
    let request = EveryEvent { value: |_| 60, cap: 100, uris: uris(&[]) };
    let events = relevant(vec![event(1, 1, 1), event(2, 1, 2), event(3, 1, 3)]);
    let result = compute_histogram_report(&request, &events);
    assert_eq!(querier_bins(&result), vec![(1, 60)]);
}

#[test]
fn values_that_fill_the_cap_exactly_are_all_counted() {
    // 60 and 40 under a cap of 100: the second takes the sum to the cap,
    // and both are in the histogram.
    let request = EveryEvent { value: |event| event.filter_data, cap: 100, uris: uris(&[]) };
    let mut first = event(1, 1, 1);
    first.filter_data = 60;
    let mut second = event(2, 1, 2);
    second.filter_data = 40;
    let mut third = event(3, 1, 3);
    third.filter_data = 1;
    let events = relevant(vec![first, second, third]);
    let result = compute_histogram_report(&request, &events);
    assert_eq!(querier_bins(&result), vec![(1, 60), (2, 40)]);
}

#[test]
fn sum_equal_to_the_cap_is_accepted() {
    let request = EveryEvent { value: |_| 50, cap: 100, uris: uris(&[]) };
    let events = relevant(vec![event(1, 1, 1), event(2, 1, 2), event(3, 1, 3)]);
    let result = compute_histogram_report(&request, &events);
    assert_eq!(querier_bins(&result), vec![(1, 50), (2, 50)]);

    let request = EveryEvent { value: |_| 100, cap: 100, uris: uris(&[]) };
    let events = relevant(vec![event(1, 1, 5)]);
    let result = compute_histogram_report(&request, &events);
    assert_eq!(querier_bins(&result), vec![(5, 100)]);

    let request = EveryEvent { value: |_| 101, cap: 100, uris: uris(&[]) };
    let events = relevant(vec![event(1, 1, 5)]);
    let result = compute_histogram_report(&request, &events);
    assert_eq!(querier_bins(&result), vec![]);
}

#[test]
fn cap_holds_at_the_top_of_the_range() {
    let request = EveryEvent { value: |_| u64::MAX, cap: u64::MAX, uris: uris(&[]) };
    let events = relevant(vec![event(1, 1, 5), event(2, 1, 5)]);
    let result = compute_histogram_report(&request, &events);
    assert_eq!(querier_bins(&result), vec![(5, u64::MAX)]);
}

#[test]
fn intermediaries_without_a_part_get_an_empty_report() {
    let request = EveryEvent { value: |_| 10, cap: 100, uris: uris(&["r1.ex", "r2.ex"]) };
    let events = relevant(vec![event(1, 1, 5)]);
    let result = compute_histogram_report(&request, &events);
    assert_eq!(result.uri_report_map.len(), 3);
    assert_eq!(querier_bins(&result), vec![(5, 10)]);
    assert!(result.uri_report_map.get(&"r1.ex".to_string()).unwrap().bin_values.is_empty());
    assert!(result.uri_report_map.get(&"r2.ex".to_string()).unwrap().bin_values.is_empty());
}

#[test]
fn request_without_querier_has_no_main_report() {
    let mut sites = uris(&["r1.ex"]);
    sites.querier_uris = vec![];
    let request = EveryEvent { value: |_| 10, cap: 100, uris: sites };
    let events = relevant(vec![event(1, 1, 5)]);
    let result = compute_histogram_report(&request, &events);
    assert_eq!(result.uri_report_map.len(), 1);
    assert!(result.uri_report_map.contains_key(&"r1.ex".to_string()));
}

#[test]
fn last_touch_takes_the_last_event_of_the_latest_epoch() {
    let request = ppa_request(1, 3, 100.0, 4, &[], &[]);
    let events = relevant(vec![
        event(1, 1, 0),
        event(2, 2, 1),
        event(3, 2, 2),
        event(4, 1, 3),
    ]);
    let values = request.event_values(&events);
    assert_eq!(values.len(), 1);
    assert_eq!(values[0].0.id, 3);
    assert_eq!(values[0].1, units(100.0));
    let result = request.compute_report(&events);
    assert_eq!(querier_bins(&result), vec![(2, units(100.0))]);
}

#[test]
fn event_with_bucket_out_of_range_is_passed_over() {
    let request = ppa_request(1, 3, 100.0, 4, &[], &[]);
    // The last event of the latest epoch has a bucket beyond the histogram,
    // and so has the one before: the event before them is taken.
    let events = relevant(vec![event(1, 3, 1), event(2, 3, 4), event(3, 3, 900)]);
    let result = request.compute_report(&events);
    assert_eq!(querier_bins(&result), vec![(1, units(100.0))]);

    // An epoch without a valid event sends the search on to earlier epochs.
    let events = relevant(vec![event(1, 2, 3), event(2, 3, 4), event(3, 3, 5)]);
    let values = request.event_values(&events);
    assert_eq!(values[0].0.id, 1);
    let result = request.compute_report(&events);
    assert_eq!(querier_bins(&result), vec![(3, units(100.0))]);

    // No valid event at all.
    let events = relevant(vec![event(1, 2, 4), event(2, 3, 4)]);
    assert!(request.event_values(&events).is_empty());
    let result = request.compute_report(&events);
    assert_eq!(querier_bins(&result), vec![]);
}

#[test]
fn events_outside_the_window_are_not_attributed() {
    let request = ppa_request(2, 3, 100.0, 4, &[], &[]);
    let events = relevant(vec![event(1, 1, 1), event(2, 4, 2)]);
    assert!(request.event_values(&events).is_empty());
    let empty = relevant(vec![]);
    assert!(request.event_values(&empty).is_empty());
}

#[test]
fn epochs_come_most_recent_first() {
    assert_eq!(ppa_request(1, 4, 1.0, 4, &[], &[]).epoch_ids(), vec![4, 3, 2, 1]);
    assert_eq!(ppa_request(7, 7, 1.0, 4, &[], &[]).epoch_ids(), vec![7]);
    assert_eq!(ppa_request(0, 2, 1.0, 4, &[], &[]).epoch_ids(), vec![2, 1, 0]);
    assert_eq!(ppa_request(5, 4, 1.0, 4, &[], &[]).epoch_ids(), Vec::<u64>::new());
    assert_eq!(
        ppa_request(u64::MAX - 1, u64::MAX, 1.0, 4, &[], &[]).epoch_ids(),
        vec![u64::MAX, u64::MAX - 1]
    );
}

#[test]
fn intermediaries_receive_their_buckets() {
    let request = ppa_request(
        1,
        1,
        100.0,
        8,
        &["r1.ex", "r2.ex", "r3.ex"],
        &[(1, "r1.ex"), (2, "r2.ex"), (5, "r2.ex")],
    );
    assert!(request.is_bucket_for_intermediary(1, &"r1.ex".to_string()));
    assert!(!request.is_bucket_for_intermediary(1, &"r2.ex".to_string()));
    assert!(request.is_bucket_for_intermediary(5, &"r2.ex".to_string()));
    assert!(!request.is_bucket_for_intermediary(3, &"r1.ex".to_string()));
    assert_eq!(request.get_bucket_intermediary_mapping().len(), 3);

    let mut report = HistogramReport::default();
    report.bin_values.insert(1, 10);
    report.bin_values.insert(2, 20);
    report.bin_values.insert(3, 30);
    report.bin_values.insert(5, 50);
    let none = relevant(vec![]);
    let r1 = request
        .filter_report_for_intermediary(&report, &"r1.ex".to_string(), &none)
        .unwrap();
    assert_eq!(bins(&r1), vec![(1, 10)]);
    let r2 = request
        .filter_report_for_intermediary(&report, &"r2.ex".to_string(), &none)
        .unwrap();
    assert_eq!(bins(&r2), vec![(2, 20), (5, 50)]);
    // An intermediary without a bucket receives nothing.
    assert!(request
        .filter_report_for_intermediary(&report, &"r3.ex".to_string(), &none)
        .is_none());

    let events = relevant(vec![event(1, 1, 2)]);
    let result = request.compute_report(&events);
    assert_eq!(result.uri_report_map.len(), 4);
    assert_eq!(result.bucket_uri_map.len(), 3);
    assert_eq!(result.bucket_uri_map.get(&5), Some(&"r2.ex".to_string()));
    assert_eq!(querier_bins(&result), vec![(2, units(100.0))]);
    assert_eq!(
        bins(result.uri_report_map.get(&"r2.ex".to_string()).unwrap()),
        vec![(2, units(100.0))]
    );
    assert!(result.uri_report_map.get(&"r1.ex".to_string()).unwrap().bin_values.is_empty());
    assert!(result.uri_report_map.get(&"r3.ex".to_string()).unwrap().bin_values.is_empty());
}

#[test]
fn histogram_is_filtered_by_buckets() {
    let mut full: HashMap<u64, u64> = HashMap::new();
    for (bucket, value) in [(4, 40), (1, 10), (3, 30), (2, 20)] {
        full.insert(bucket, value);
    }
    let filtered = filter_histogram_for_intermediary(&full, &HashSet::from([3, 9, 4]));
    assert_eq!(filtered.len(), 2);
    assert_eq!(filtered.get(&4), Some(&40));
    assert_eq!(filtered.get(&3), Some(&30));
    assert_eq!(filtered.get(&1), None);
    assert!(filter_histogram_for_intermediary(&full, &HashSet::new()).is_empty());
    assert_eq!(filter_histogram_for_intermediary(&full, &HashSet::from([1, 2, 3, 4])).len(), 4);
}

#[test]
fn sensitivities_of_a_histogram() {
    let request = ppa_request(1, 1, 100.0, 8, &[], &[]);
    let mut report = HistogramReport::default();
    assert_eq!(request.single_epoch_individual_sensitivity(&report, NormType::L1), 0);
    assert_eq!(request.single_epoch_individual_sensitivity(&report, NormType::L2), 0);
    report.bin_values.insert(1, 3);
    report.bin_values.insert(2, 4);
    assert_eq!(request.single_epoch_individual_sensitivity(&report, NormType::L1), 7);
    assert_eq!(request.single_epoch_individual_sensitivity(&report, NormType::L2), 5);
    assert_eq!(request.single_epoch_source_individual_sensitivity(&report, NormType::L1), 7);
    assert_eq!(request.single_epoch_source_individual_sensitivity(&report, NormType::L2), 5);
    report.bin_values.insert(3, 1);
    // The root of 26 is rounded up.
    assert_eq!(request.single_epoch_individual_sensitivity(&report, NormType::L2), 6);
    assert_eq!(
        request.histogram_single_epoch_individual_sensitivity(&report, NormType::L1),
        8
    );
    assert_eq!(
        request.histogram_single_epoch_source_individual_sensitivity(&report, NormType::L2),
        6
    );
    assert_eq!(request.report_global_sensitivity(), 2 * units(100.0) as u128);
    assert_eq!(request.histogram_report_global_sensitivity(), 2 * units(100.0) as u128);
    assert_eq!(request.attributable_value(), units(100.0));

    // Where the squares do not fit, the sum of the values stands in.
    let mut huge = HistogramReport::default();
    huge.bin_values.insert(1, u64::MAX);
    huge.bin_values.insert(2, u64::MAX);
    assert_eq!(
        request.single_epoch_individual_sensitivity(&huge, NormType::L2),
        2 * (u64::MAX as u128)
    );
}

#[test]
fn noise_scale_is_twice_the_greatest_value_over_epsilon() {
    let request = ppa_request(1, 1, 100.0, 8, &[], &[]);
    assert_eq!(request.noise_scale(), NoiseScale::Laplace(units(400.0)));
    assert_eq!(request.laplace_noise_scale, units(400.0));
    assert_eq!(request.logic, AttributionLogic::LastTouch);

    let selector = || PpaRelevantEventSelector {
        report_request_uris: uris(&[]),
        is_matching_event: Always,
        bucket_intermediary_mapping: HashMap::new(),
    };
    let config = PpaHistogramConfig {
        start_epoch: 1,
        end_epoch: 2,
        attributable_value: 1,
        max_attributable_value: units(1.0),
        requested_epsilon: units(3.0),
        histogram_size: 1,
    };
    // Two thirds, rounded down.
    let request = PpaHistogramRequest::new(config, selector()).unwrap();
    assert_eq!(request.noise_scale(), NoiseScale::Laplace(666_666_666));

    // A scale beyond the range stops at its top.
    let config = PpaHistogramConfig {
        max_attributable_value: u64::MAX,
        requested_epsilon: 1,
        ..config
    };
    let request = PpaHistogramRequest::new(config, selector()).unwrap();
    assert_eq!(request.noise_scale(), NoiseScale::Laplace(u64::MAX));
}

#[test]
fn zero_parameters_are_rejected() {
    let selector = || PpaRelevantEventSelector {
        report_request_uris: uris(&[]),
        is_matching_event: Always,
        bucket_intermediary_mapping: HashMap::new(),
    };
    let good = PpaHistogramConfig {
        start_epoch: 1,
        end_epoch: 2,
        attributable_value: units(100.0),
        max_attributable_value: units(200.0),
        requested_epsilon: units(1.0),
        histogram_size: 4,
    };
    assert!(PpaHistogramRequest::new(good, selector()).is_ok());
    let error = |config: PpaHistogramConfig| PpaHistogramRequest::new(config, selector()).err();
    assert_eq!(
        error(PpaHistogramConfig { requested_epsilon: 0, ..good }),
        Some(PdsError::EpsilonNotPositive)
    );
    assert_eq!(
        error(PpaHistogramConfig { attributable_value: 0, ..good }),
        Some(PdsError::ValueNotPositive)
    );
    assert_eq!(
        error(PpaHistogramConfig { max_attributable_value: 0, ..good }),
        Some(PdsError::ValueNotPositive)
    );
    assert_eq!(
        error(PpaHistogramConfig { histogram_size: 0, ..good }),
        Some(PdsError::EmptyHistogram)
    );
    // The epsilon is looked at first, the size of the histogram last.
    assert_eq!(
        error(PpaHistogramConfig { requested_epsilon: 0, attributable_value: 0, histogram_size: 0, ..good }),
        Some(PdsError::EpsilonNotPositive)
    );
    assert_eq!(
        error(PpaHistogramConfig { max_attributable_value: 0, histogram_size: 0, ..good }),
        Some(PdsError::ValueNotPositive)
    );

    let direct = DirectPpaHistogramConfig {
        start_epoch: 1,
        end_epoch: 2,
        attributable_value: units(100.0),
        laplace_noise_scale: units(50.0),
        histogram_size: 4,
    };
    let request = PpaHistogramRequest::new_direct(direct, selector()).unwrap();
    assert_eq!(request.noise_scale(), NoiseScale::Laplace(units(50.0)));
    assert_eq!(request.attributable_value(), units(100.0));
    assert_eq!(request.epoch_ids(), vec![2, 1]);
    let error =
        |config: DirectPpaHistogramConfig| PpaHistogramRequest::new_direct(config, selector()).err();
    assert_eq!(
        error(DirectPpaHistogramConfig { attributable_value: 0, ..direct }),
        Some(PdsError::ValueNotPositive)
    );
    assert_eq!(
        error(DirectPpaHistogramConfig { laplace_noise_scale: 0, ..direct }),
        Some(PdsError::NoiseScaleNotPositive)
    );
    assert_eq!(
        error(DirectPpaHistogramConfig { histogram_size: 0, ..direct }),
        Some(PdsError::EmptyHistogram)
    );
    assert_eq!(
        error(DirectPpaHistogramConfig { attributable_value: 0, laplace_noise_scale: 0, ..direct }),
        Some(PdsError::ValueNotPositive)
    );
}

#[test]
fn relevance_goes_by_sites_and_filter_data() {
    let selector = PpaRelevantEventSelector {
        report_request_uris: ReportRequestUris {
            trigger_uri: "shoes.com".to_string(),
            source_uris: vec!["blog.com".to_string(), "news.com".to_string()],
            intermediary_uris: vec![],
            querier_uris: vec!["adtech.com".to_string(), "shoes.com".to_string()],
        },
        is_matching_event: FilterDataEquals(1),
        bucket_intermediary_mapping: HashMap::new(),
    };
    let relevant = event(1, 1, 0);
    assert!(selector.is_relevant_event(&relevant));

    let mut other_source = event(1, 1, 0);
    other_source.uris.source_uri = "news.com".to_string();
    assert!(selector.is_relevant_event(&other_source));
    other_source.uris.source_uri = "elsewhere.com".to_string();
    assert!(!selector.is_relevant_event(&other_source));

    // Every querier of the request must be a querier of the event.
    let mut one_querier = event(1, 1, 0);
    one_querier.uris.querier_uris = vec!["adtech.com".to_string()];
    assert!(!selector.is_relevant_event(&one_querier));
    one_querier.uris.querier_uris =
        vec!["x.com".to_string(), "shoes.com".to_string(), "adtech.com".to_string()];
    assert!(selector.is_relevant_event(&one_querier));

    let mut other_trigger = event(1, 1, 0);
    other_trigger.uris.trigger_uris = vec!["hats.com".to_string()];
    assert!(!selector.is_relevant_event(&other_trigger));
    other_trigger.uris.trigger_uris = vec![];
    assert!(!selector.is_relevant_event(&other_trigger));

    let mut other_data = event(1, 1, 0);
    other_data.filter_data = 2;
    assert!(!selector.is_relevant_event(&other_data));

    assert!(FilterDataEquals(7).holds(&7));
    assert!(!FilterDataEquals(7).holds(&8));
    assert!(Predicate::<u64>::holds(&Always, &8));
}

#[test]
fn event_storage_keeps_events_by_epoch_in_order() {
    let mut storage: HashMapEventStorage<PpaEvent> = HashMapEventStorage::new();
    assert!(storage.events_for_epoch(&1).unwrap().is_empty());
    storage.add_event(event(1, 1, 0)).unwrap();
    storage.add_event(event(2, 2, 0)).unwrap();
    storage.add_event(event(3, 1, 0)).unwrap();
    storage.add_event(event(4, 1, 0)).unwrap();
    let ids = |events: Vec<PpaEvent>| events.iter().map(|e| e.id).collect::<Vec<u64>>();
    assert_eq!(ids(storage.events_for_epoch(&1).unwrap()), vec![1, 3, 4]);
    assert_eq!(ids(storage.events_for_epoch(&2).unwrap()), vec![2]);
    assert!(storage.events_for_epoch(&3).unwrap().is_empty());
    // Reading changes nothing.
    assert_eq!(ids(storage.events_for_epoch(&1).unwrap()), vec![1, 3, 4]);
    assert_eq!(event(5, 9, 0).epoch_id(), 9);
    assert_eq!(event(5, 9, 0).event_uris().source_uri, "blog.com");
    assert_eq!(event(5, 9, 3).clone_event().histogram_index, 3);
}

#[test]
fn relevant_events_are_selected_from_storage() {
    let mut storage: HashMapEventStorage<PpaEvent> = HashMapEventStorage::new();
    let mut irrelevant = event(2, 1, 0);
    irrelevant.filter_data = 5;
    let mut elsewhere = event(4, 2, 0);
    elsewhere.uris.source_uri = "other.com".to_string();
    storage.add_event(event(1, 1, 0)).unwrap();
    storage.add_event(irrelevant).unwrap();
    storage.add_event(event(3, 1, 0)).unwrap();
    storage.add_event(elsewhere).unwrap();
    storage.add_event(event(5, 4, 0)).unwrap();

    let selector = PpaRelevantEventSelector {
        report_request_uris: uris(&[]),
        is_matching_event: FilterDataEquals(1),
        bucket_intermediary_mapping: HashMap::new(),
    };
    let mut relevant =
        RelevantEvents::from_event_storage(&mut storage, &[3, 2, 1], &selector).unwrap();
    let ids = |events: &[PpaEvent]| events.iter().map(|e| e.id).collect::<Vec<u64>>();
    assert_eq!(ids(relevant.for_epoch(&1)), vec![1, 3]);
    assert!(relevant.for_epoch(&2).is_empty());
    assert!(relevant.for_epoch(&3).is_empty());
    // Epoch 4 was not asked for.
    assert!(relevant.for_epoch(&4).is_empty());
    // Every epoch asked for has its entry.
    assert_eq!(relevant.events_per_epoch.len(), 3);
    assert_eq!(relevant.sources_for_epoch(&1), vec!["blog.com".to_string()]);
    assert!(relevant.sources_for_epoch(&2).is_empty());

    relevant.drop_epoch(&1);
    assert!(relevant.for_epoch(&1).is_empty());
    assert!(relevant.sources_for_epoch(&1).is_empty());
    assert_eq!(relevant.events_per_epoch.len(), 2);
    relevant.drop_epoch(&9);
    assert_eq!(relevant.events_per_epoch.len(), 2);
    // The storage still has its events.
    assert_eq!(storage.events_for_epoch(&1).unwrap().len(), 3);
}

#[test]
fn sources_are_listed_once() {
    let mut a = event(1, 1, 0);
    a.uris.source_uri = "a.com".to_string();
    let mut b = event(2, 1, 0);
    b.uris.source_uri = "b.com".to_string();
    let mut a_again = event(3, 1, 0);
    a_again.uris.source_uri = "a.com".to_string();
    let events = relevant(vec![a, b, a_again]);
    assert_eq!(
        events.sources_for_epoch(&1),
        vec!["a.com".to_string(), "b.com".to_string()]
    );
}

#[test]
fn privacy_loss_is_sensitivity_over_noise_scale() {
    assert_eq!(compute_privacy_loss(units(100.0) as u128, units(200.0)), eps(0.5));
    assert_eq!(compute_privacy_loss(units(70.0) as u128, units(100.0)), eps(0.7));
    assert_eq!(compute_privacy_loss(0, units(100.0)), eps(0.0));
    assert_eq!(compute_privacy_loss(0, 1), eps(0.0));
    // Rounded up to the next unit.
    assert_eq!(
        compute_privacy_loss(units(1.0) as u128, units(3.0)),
        PureDPBudget::Epsilon(333_333_334)
    );
    assert_eq!(
        compute_privacy_loss(units(2.0) as u128, units(3.0)),
        PureDPBudget::Epsilon(666_666_667)
    );
    assert_eq!(
        compute_privacy_loss(units(3.0) as u128, units(3.0)),
        PureDPBudget::Epsilon(1_000_000_000)
    );
    assert_eq!(compute_privacy_loss(1, units(3.0)), PureDPBudget::Epsilon(1));
    assert_eq!(compute_privacy_loss(1, u64::MAX), PureDPBudget::Epsilon(1));
}

#[test]
fn privacy_loss_without_noise_is_infinite() {
    assert_eq!(compute_privacy_loss(units(1.0) as u128, 0), PureDPBudget::Infinite);
    assert_eq!(compute_privacy_loss(0, 0), PureDPBudget::Infinite);
    // A loss beyond the range is infinite as well.
    assert_eq!(compute_privacy_loss(u64::MAX as u128, 1), PureDPBudget::Infinite);
    assert_eq!(compute_privacy_loss(u128::MAX, u64::MAX), PureDPBudget::Infinite);
    assert_eq!(
        compute_privacy_loss(u64::MAX as u128, UNITS_PER_ONE),
        PureDPBudget::Epsilon(u64::MAX)
    );
    assert_eq!(
        compute_privacy_loss(u64::MAX as u128 + 1, UNITS_PER_ONE),
        PureDPBudget::Infinite
    );
}

#[test]
fn epoch_loss_goes_by_the_number_of_epochs() {
    let request = ppa_request(1, 1, 100.0, 8, &[], &[]);
    let mut report = HistogramReport::default();
    report.bin_values.insert(1, units(60.0));
    let some = vec![event(1, 1, 1)];
    let none: Vec<PpaEvent> = vec![];
    // An epoch without relevant events costs nothing.
    assert_eq!(compute_epoch_loss(&request, &none, &report, 1), eps(0.0));
    assert_eq!(compute_epoch_loss(&request, &none, &report, 3), eps(0.0));
    // A single epoch costs the sensitivity of the report: 60 / 400.
    assert_eq!(compute_epoch_loss(&request, &some, &report, 1), eps(0.15));
    // Several epochs cost the global sensitivity: 200 / 400.
    assert_eq!(compute_epoch_loss(&request, &some, &report, 2), eps(0.5));
    assert_eq!(compute_epoch_loss(&request, &some, &report, 0), eps(0.5));
}

#[test]
fn source_losses_go_by_epochs_and_sources() {
    let mut report = HistogramReport::default();
    report.bin_values.insert(1, units(60.0));
    let blog = vec!["blog.com".to_string()];
    let nobody: Vec<String> = vec![];

    let one_source = ppa_request(1, 1, 100.0, 8, &[], &[]);
    let losses = compute_epoch_source_losses(&one_source, &blog, &report, 1);
    assert_eq!(losses.len(), 1);
    assert_eq!(losses.get(&"blog.com".to_string()), Some(&eps(0.15)));
    let losses = compute_epoch_source_losses(&one_source, &blog, &report, 2);
    assert_eq!(losses.get(&"blog.com".to_string()), Some(&eps(0.5)));
    let losses = compute_epoch_source_losses(&one_source, &nobody, &report, 1);
    assert_eq!(losses.get(&"blog.com".to_string()), Some(&eps(0.0)));

    let mut two_sources = ppa_request(1, 1, 100.0, 8, &[], &[]);
    two_sources.relevant_event_selector.report_request_uris.source_uris =
        vec!["blog.com".to_string(), "news.com".to_string(), "blog.com".to_string()];
    let losses = compute_epoch_source_losses(&two_sources, &blog, &report, 1);
    assert_eq!(losses.len(), 2);
    // With more than one source the global sensitivity is used.
    assert_eq!(losses.get(&"blog.com".to_string()), Some(&eps(0.5)));
    assert_eq!(losses.get(&"news.com".to_string()), Some(&eps(0.0)));
}

#[test]
fn source_losses_without_noise_are_infinite() {
    let mut request = ppa_request(1, 1, 100.0, 8, &[], &[]);
    request.laplace_noise_scale = 0;
    let report = HistogramReport::default();
    let nobody: Vec<String> = vec![];
    let losses = compute_epoch_source_losses(&request, &nobody, &report, 1);
    assert_eq!(losses.get(&"blog.com".to_string()), Some(&PureDPBudget::Infinite));
    // The loss of an epoch without events is still nothing.
    let none: Vec<PpaEvent> = vec![];
    assert_eq!(compute_epoch_loss(&request, &none, &report, 1), eps(0.0));
    assert_eq!(
        compute_epoch_loss(&request, &vec![event(1, 1, 1)], &report, 1),
        PureDPBudget::Infinite
    );
}

fn simple_event(id: u64, epoch: u64, key: u64) -> SimpleEvent {
    SimpleEvent { id, epoch_number: epoch, event_key: key, uris: EventUris::mock() }
}

fn simple_request(start: u64, end: u64) -> SimpleLastTouchHistogramRequest<Always> {
    SimpleLastTouchHistogramRequest {
        epoch_start: start,
        epoch_end: end,
        report_global_sensitivity: units(70.0),
        query_global_sensitivity: units(100.0),
        requested_epsilon: units(2.0),
        is_relevant_event: SimpleRelevantEventSelector { lambda: Always },
        report_uris: uris(&[]),
    }
}

#[test]
fn simple_request_attributes_to_the_last_impression() {
    let request = simple_request(1, 3);
    assert_eq!(request.epoch_ids(), vec![3, 2, 1]);
    assert_eq!(request.noise_scale(), NoiseScale::Laplace(units(50.0)));
    assert_eq!(request.report_global_sensitivity(), units(70.0) as u128);
    assert_eq!(request.report_uris().querier_uris, vec!["adtech.com".to_string()]);
    assert!(request.relevant_event_selector().is_relevant_event(&simple_event(1, 1, 1)));

    let mut per_epoch: HashMap<u64, Vec<SimpleEvent>> = HashMap::new();
    per_epoch.insert(1, vec![simple_event(1, 1, 11)]);
    per_epoch.insert(2, vec![simple_event(2, 2, 21), simple_event(3, 2, 22)]);
    per_epoch.insert(3, vec![]);
    per_epoch.insert(4, vec![simple_event(4, 4, 41)]);
    let events = RelevantEvents::from_mapping(per_epoch);
    let result = request.compute_report(&events);
    assert!(result.bucket_uri_map.is_empty());
    assert_eq!(result.uri_report_map.len(), 1);
    let report = result.uri_report_map.get(&"adtech.com".to_string()).unwrap();
    assert_eq!(report.bin_value, Some((22, units(70.0))));
    assert_eq!(report.clone_report().bin_value, Some((22, units(70.0))));
    assert_eq!(
        request.single_epoch_individual_sensitivity(report, NormType::L1),
        units(70.0) as u128
    );
    assert_eq!(
        request.single_epoch_source_individual_sensitivity(report, NormType::L2),
        units(70.0) as u128
    );

    let nothing = RelevantEvents::from_mapping(HashMap::new());
    let result = request.compute_report(&nothing);
    let report = result.uri_report_map.get(&"adtech.com".to_string()).unwrap();
    assert_eq!(report.bin_value, None);
    assert_eq!(request.single_epoch_individual_sensitivity(report, NormType::L1), 0);
    assert_eq!(SimpleLastTouchHistogramReport::default().bin_value, None);
}

#[test]
fn simple_request_without_epsilon_has_no_noise() {
    let mut request = simple_request(1, 3);
    request.requested_epsilon = 0;
    assert_eq!(request.noise_scale(), NoiseScale::Laplace(0));
    request.requested_epsilon = 1;
    request.query_global_sensitivity = u64::MAX;
    assert_eq!(request.noise_scale(), NoiseScale::Laplace(u64::MAX));
    request.requested_epsilon = units(3.0);
    request.query_global_sensitivity = 1;
    assert_eq!(request.noise_scale(), NoiseScale::Laplace(0));
    request.query_global_sensitivity = 4;
    assert_eq!(request.noise_scale(), NoiseScale::Laplace(1));
}

#[test]
fn sample_sites() {
    let request = ReportRequestUris::mock();
    assert_eq!(request.trigger_uri, "shoes.com");
    assert_eq!(request.source_uris, vec!["blog.com".to_string()]);
    assert_eq!(
        request.intermediary_uris,
        vec!["search.engine".to_string(), "social.media".to_string()]
    );
    assert_eq!(request.querier_uris, vec!["adtech.com".to_string()]);
    let copy = request.clone();
    assert_eq!(copy.trigger_uri, request.trigger_uri);
    assert_eq!(copy.querier_uris, request.querier_uris);

    let event = EventUris::mock();
    assert_eq!(event.source_uri, "blog.com");
    assert_eq!(event.trigger_uris, vec!["shoes.com".to_string()]);
    assert_eq!(
        event.intermediary_uris,
        vec!["search.engine".to_string(), "social.media".to_string()]
    );
    assert_eq!(
        event.querier_uris,
        vec!["shoes.com".to_string(), "adtech.com".to_string()]
    );
    let copy = event.clone();
    assert_eq!(copy.trigger_uris, event.trigger_uris);
    let _: QueryComputeResult<HistogramReport> =
        QueryComputeResult::new(HashMap::new(), VecMap::new());
}

#[test]
fn events_are_grouped_by_epoch() {
    let events = vec![event(1, 3, 0), event(2, 1, 0), event(3, 3, 0), event(4, 2, 0), event(5, 3, 0)];
    let grouped = RelevantEvents::from_events(&events);
    let ids = |events: &[PpaEvent]| events.iter().map(|e| e.id).collect::<Vec<u64>>();
    assert_eq!(grouped.events_per_epoch.len(), 3);
    assert_eq!(ids(grouped.for_epoch(&3)), vec![1, 3, 5]);
    assert_eq!(ids(grouped.for_epoch(&1)), vec![2]);
    assert_eq!(ids(grouped.for_epoch(&2)), vec![4]);
    assert!(grouped.for_epoch(&4).is_empty());
    assert_eq!(RelevantEvents::<PpaEvent>::from_events(&vec![]).events_per_epoch.len(), 0);
}

#[test]
fn histogram_with_a_place_for_every_bucket() {
    let mut report = HistogramReport::default();
    report.bin_values.insert(2, 20);
    report.bin_values.insert(0, 5);
    report.bin_values.insert(7, 70);
    assert_eq!(report.dense(4), vec![5, 0, 20, 0]);
    assert_eq!(report.dense(8), vec![5, 0, 20, 0, 0, 0, 0, 70]);
    assert_eq!(report.dense(0), Vec::<u64>::new());
    assert_eq!(HistogramReport::default().dense(3), vec![0, 0, 0]);
    assert_eq!(report.clone().dense(1), vec![5]);
}
