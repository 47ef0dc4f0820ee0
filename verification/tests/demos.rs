use std::collections::HashMap;

use pdslib::budget::hashmap_filter_storage::HashMapFilterStorage;
use pdslib::budget::pure_dp_filter::{PureDPBudget, UNITS_PER_ONE};
use pdslib::budget::traits::FilterStorage;
use pdslib::events::hashmap_event_storage::HashMapEventStorage;
use pdslib::events::ppa_event::PpaEvent;
use pdslib::events::simple_event::{SimpleEvent, SimpleEventView};
use pdslib::events::traits::{Always, EventUris, Predicate};
use pdslib::pds::private_data_service::PrivateDataService;
use pdslib::pds::quotas::StaticCapacities;
use pdslib::queries::ppa_histogram::{
    FilterDataEquals, PpaHistogramConfig, PpaHistogramRequest, PpaRelevantEventSelector,
};
use pdslib::queries::simple_last_touch_histogram::{
    SimpleLastTouchHistogramRequest, SimpleRelevantEventSelector,
};
use pdslib::queries::traits::{EpochReportRequest, ReportRequestUris};

/// The number of units of `x`.
fn units(x: f64) -> u64 {
    (x * UNITS_PER_ONE as f64).round() as u64
}

/// The budget of `x`, in the units of the library.
fn eps(x: f64) -> PureDPBudget {
    PureDPBudget::Epsilon(units(x))
}

/// Holds of the filter data that differ from the given one.
#[derive(Clone, Copy)]
struct FilterDataDiffers(u64);

impl Predicate<u64> for FilterDataDiffers {
    fn spec_holds(&self, value: u64) -> bool {
        value != self.0
    }

    fn holds(&self, value: &u64) -> bool {
        *value != self.0
    }
}

/// Holds of the events whose key is above the given one.
#[derive(Clone, Copy)]
struct KeyAbove(u64);

impl Predicate<SimpleEvent> for KeyAbove {
    fn spec_holds(&self, event: SimpleEventView) -> bool {
        event.event_key > self.0
    }

    fn holds(&self, event: &SimpleEvent) -> bool {
        event.event_key > self.0
    }
}

/// Holds of the events with the given key.
#[derive(Clone, Copy)]
struct KeyEquals(u64);

impl Predicate<SimpleEvent> for KeyEquals {
    fn spec_holds(&self, event: SimpleEventView) -> bool {
        event.event_key == self.0
    }

    fn holds(&self, event: &SimpleEvent) -> bool {
        event.event_key == self.0
    }
}

#[test]
fn ara_demo_main() {
    let events = HashMapEventStorage::<PpaEvent>::new();
    let capacities = StaticCapacities::mock();
    let filters: HashMapFilterStorage<StaticCapacities> =
        HashMapFilterStorage::new(capacities).unwrap();

    let mut pds = PrivateDataService::new(filters, events);

    let sample_event_uris = EventUris::mock();
    let event_uris_irrelevant_due_to_source = EventUris {
        source_uri: "blog_off_brand.com".to_string(),
        ..EventUris::mock()
    };
    let event_uris_irrelevant_due_to_trigger = EventUris {
        trigger_uris: vec!["shoes_off_brand.com".to_string()],
        ..EventUris::mock()
    };
    let event_uris_irrelevant_due_to_querier = EventUris {
        querier_uris: vec!["adtech_off_brand.com".to_string()],
        ..EventUris::mock()
    };

    let sample_report_request_uris = ReportRequestUris {
        trigger_uri: "shoes.com".to_string(),
        source_uris: vec!["blog.com".to_string()],
        intermediary_uris: vec!["search.engine.com".to_string()],
        querier_uris: vec!["adtech.com".to_string()],
    };

    let event1 = PpaEvent {
        id: 1,
        timestamp: 0,
        epoch_number: 1,
        histogram_index: 0x559,
        uris: sample_event_uris.clone(),
        filter_data: 1,
    };

    let event_irr_1 = PpaEvent {
        id: 1,
        timestamp: 0,
        epoch_number: 1,
        histogram_index: 0x559,
        uris: event_uris_irrelevant_due_to_source.clone(),
        filter_data: 1,
    };

    let event_irr_2 = PpaEvent {
        id: 1,
        timestamp: 0,
        epoch_number: 1,
        histogram_index: 0x559,
        uris: event_uris_irrelevant_due_to_trigger.clone(),
        filter_data: 1,
    };

    let event_irr_3 = PpaEvent {
        id: 1,
        timestamp: 0,
        epoch_number: 1,
        histogram_index: 0x559,
        uris: event_uris_irrelevant_due_to_querier.clone(),
        filter_data: 1,
    };

    pds.register_event(event1.clone()).unwrap();
    pds.register_event(event_irr_1.clone()).unwrap();
    pds.register_event(event_irr_2.clone()).unwrap();
    pds.register_event(event_irr_3.clone()).unwrap();

    // Test basic attribution
    let request1 = PpaHistogramRequest::new(
        PpaHistogramConfig {
            start_epoch: 1,
            end_epoch: 2,
            attributable_value: units(32768.0),
            max_attributable_value: units(65536.0),
            requested_epsilon: units(1.0),
            histogram_size: 2048,
        },
        PpaRelevantEventSelector {
            report_request_uris: sample_report_request_uris.clone(),
            is_matching_event: FilterDataEquals(1),
            bucket_intermediary_mapping: HashMap::new(),
        },
    )
    .unwrap();

    let report1 = pds.compute_report(&request1).unwrap();
    let bin_values1 = &report1
        .get(&request1.report_uris().querier_uris[0])
        .unwrap()
        .filtered_report
        .bin_values;

    // One event attributed to its bucket
    assert!(bin_values1.contains_key(&0x559));
    println!("Report1: {:?}", bin_values1.len());
    assert_eq!(bin_values1.get(&0x559), Some(&units(32768.0)));

    // Test error case when requested_epsilon is 0.
    let request2 = PpaHistogramRequest::new(
        PpaHistogramConfig {
            start_epoch: 1,
            end_epoch: 2,
            attributable_value: units(32768.0),
            max_attributable_value: units(65536.0),
            requested_epsilon: units(0.0), // This should fail.
            histogram_size: 2048,
        },
        PpaRelevantEventSelector {
            report_request_uris: sample_report_request_uris.clone(),
            is_matching_event: FilterDataEquals(1),
            bucket_intermediary_mapping: HashMap::new(),
        },
    );
    assert!(request2.is_err());

    let request3 = PpaHistogramRequest::new(
        PpaHistogramConfig {
            start_epoch: 1,
            end_epoch: 2,
            attributable_value: units(32768.0),
            max_attributable_value: units(65536.0),
            requested_epsilon: units(1.0),
            histogram_size: 2048,
        },
        PpaRelevantEventSelector {
            report_request_uris: sample_report_request_uris.clone(),
            is_matching_event: FilterDataDiffers(1),
            bucket_intermediary_mapping: HashMap::new(),
        },
    )
    .unwrap();

    let report3 = pds.compute_report(&request3).unwrap();

    // No event attributed because the condition leaves out the only
    // qualified event.
    assert_eq!(
        report3
            .get(&request3.report_uris().querier_uris[0])
            .unwrap()
            .filtered_report
            .bin_values
            .len(),
        0
    );
}

#[test]
fn ppa_workflow_main() {
    // What happens on a single device, for the budget of a single querier.

    // Set up storage and Private Data Service.
    let events = HashMapEventStorage::new();
    let capacities = StaticCapacities::mock();
    let filters: HashMapFilterStorage<StaticCapacities> =
        HashMapFilterStorage::new(capacities).unwrap();

    let mut pds = PrivateDataService::new(filters, events);

    let sample_event_uris = EventUris::mock();
    let sample_report_uris = ReportRequestUris {
        trigger_uri: "shoes.com".to_string(),
        source_uris: vec!["blog.com".to_string()],
        intermediary_uris: vec!["search.engine.com".to_string()],
        querier_uris: vec!["adtech.com".to_string()],
    };

    // Create an impression (event, with very basic metadata).
    let event = SimpleEvent {
        id: 1,
        epoch_number: 1,
        event_key: 3,
        uris: sample_event_uris.clone(),
    };

    // Save impression.
    pds.register_event(event.clone()).unwrap();

    // Next, a conversion happens and the querier prepares request parameters.
    let query_global_sensitivity = units(100.0);
    let requested_epsilon = units(1.0);

    // Can depend on information available to the querier about this
    // particular conversion.
    let report_global_sensitivity = units(70.0);

    // Relevant event filter
    let is_relevant_event = SimpleRelevantEventSelector { lambda: KeyAbove(1) };

    // Create a request to measure a conversion (report request).
    let report_request = SimpleLastTouchHistogramRequest {
        epoch_start: 1,
        epoch_end: 4,
        report_global_sensitivity,
        query_global_sensitivity,
        requested_epsilon,
        is_relevant_event,
        report_uris: sample_report_uris.clone(),
    };

    // Measure conversion.
    let report = pds.compute_report(&report_request).unwrap();

    // Look at the histogram stored in the report (unencrypted here).
    assert_eq!(
        report
            .get(&report_request.report_uris.querier_uris[0].clone())
            .unwrap()
            .filtered_report
            .bin_value,
        Some((event.event_key, units(70.0)))
    );
}

#[test]
fn simple_events_demo_main() {
    let events = HashMapEventStorage::new();

    let capacities = StaticCapacities::new(eps(3.0), eps(20.0), eps(3.5), eps(8.0));
    let filters: HashMapFilterStorage<StaticCapacities> =
        HashMapFilterStorage::new(capacities).unwrap();

    let mut pds = PrivateDataService::new(filters, events);

    let sample_event_uris = EventUris::mock();
    let sample_report_uris = ReportRequestUris {
        trigger_uri: "shoes.com".to_string(),
        source_uris: vec!["blog.com".to_string()],
        intermediary_uris: vec!["search.engine.com".to_string()],
        querier_uris: vec!["adtech.com".to_string()],
    };

    let event = SimpleEvent {
        id: 1,
        epoch_number: 1,
        event_key: 3,
        uris: sample_event_uris.clone(),
    };
    let event2 = SimpleEvent {
        id: 1,
        epoch_number: 2,
        event_key: 3,
        uris: sample_event_uris.clone(),
    };
    let event3 = SimpleEvent {
        id: 2,
        epoch_number: 2,
        event_key: 3,
        uris: sample_event_uris.clone(),
    };
    let event4 = SimpleEvent {
        id: 1,
        epoch_number: 3,
        event_key: 3,
        uris: sample_event_uris.clone(),
    };

    let always_relevant_event_selector = SimpleRelevantEventSelector { lambda: Always };

    pds.register_event(event.clone()).unwrap();
    let report_request = SimpleLastTouchHistogramRequest {
        epoch_start: 1,
        epoch_end: 1,
        report_global_sensitivity: units(3.0),
        query_global_sensitivity: units(5.0),
        requested_epsilon: units(5.0),
        is_relevant_event: always_relevant_event_selector,
        report_uris: sample_report_uris.clone(),
    };
    let report = pds.compute_report(&report_request).unwrap();
    let bucket = Some((event.event_key, units(3.0)));
    assert_eq!(
        report
            .get(&report_request.report_uris.querier_uris[0])
            .unwrap()
            .filtered_report
            .bin_value,
        bucket
    );

    // Test having multiple events in one epoch
    pds.register_event(event2.clone()).unwrap();

    let report_request2 = SimpleLastTouchHistogramRequest {
        epoch_start: 1,
        epoch_end: 1, // test restricting the end epoch
        // Even 0.1 should be enough to go over the limit, as the budget
        // left for epoch 1 is 0.
        report_global_sensitivity: units(0.1),
        query_global_sensitivity: units(5.0),
        requested_epsilon: units(5.0),
        is_relevant_event: always_relevant_event_selector,
        report_uris: sample_report_uris.clone(),
    };
    let report2 = pds.compute_report(&report_request2).unwrap();
    // The budget of epoch 1 is 3.0, but 3.0 has already been consumed by
    // the last request, so the budget is depleted. Now, the null report
    // should be returned for this additional query.
    assert_eq!(
        report2
            .get(&report_request2.report_uris.querier_uris[0])
            .unwrap()
            .filtered_report
            .bin_value,
        None
    );

    let report_request2 = SimpleLastTouchHistogramRequest {
        epoch_start: 1,
        epoch_end: 2,
        report_global_sensitivity: units(3.0),
        query_global_sensitivity: units(5.0),
        requested_epsilon: units(5.0),
        is_relevant_event: always_relevant_event_selector,
        report_uris: sample_report_uris.clone(),
    };
    let report2 = pds.compute_report(&report_request2).unwrap();
    let bucket2 = Some((event2.event_key, units(3.0)));
    assert_eq!(
        report2
            .get(&report_request2.report_uris.querier_uris[0])
            .unwrap()
            .filtered_report
            .bin_value,
        bucket2
    );

    // Test request for epoch empty yet.
    let report_request3_empty = SimpleLastTouchHistogramRequest {
        epoch_start: 3, // Epoch 3 not created yet.
        epoch_end: 3,   // Epoch 3 not created yet.
        report_global_sensitivity: units(0.0),
        query_global_sensitivity: units(5.0),
        requested_epsilon: units(5.0),
        is_relevant_event: always_relevant_event_selector,
        report_uris: sample_report_uris.clone(),
    };
    let report3_empty = pds.compute_report(&report_request3_empty).unwrap();
    assert_eq!(
        report3_empty
            .get(&report_request3_empty.report_uris.querier_uris[0])
            .unwrap()
            .filtered_report
            .bin_value,
        None
    );

    // Test restricting report_global_sensitivity
    pds.register_event(event4.clone()).unwrap();
    let report_request3_over_budget = SimpleLastTouchHistogramRequest {
        epoch_start: 1,
        epoch_end: 3,
        report_global_sensitivity: units(4.0),
        query_global_sensitivity: units(5.0),
        requested_epsilon: units(5.0),
        is_relevant_event: always_relevant_event_selector,
        report_uris: sample_report_uris.clone(),
    };
    let report3_over_budget = pds.compute_report(&report_request3_over_budget).unwrap();
    assert_eq!(
        report3_over_budget
            .get(&report_request3_over_budget.report_uris.querier_uris[0])
            .unwrap()
            .filtered_report
            .bin_value,
        None
    );

    // This tests the case where we meet the first event in epoch 3, below
    // the budget not used.
    let report_request3 = SimpleLastTouchHistogramRequest {
        epoch_start: 1,
        epoch_end: 3,
        report_global_sensitivity: units(3.0),
        query_global_sensitivity: units(5.0),
        requested_epsilon: units(5.0),
        is_relevant_event: always_relevant_event_selector,
        report_uris: sample_report_uris.clone(),
    };
    let report3 = pds.compute_report(&report_request3).unwrap();
    let bucket3 = Some((event3.event_key, units(3.0)));
    assert_eq!(
        report3
            .get(&report_request3.report_uris.querier_uris[0])
            .unwrap()
            .filtered_report
            .bin_value,
        bucket3
    );

    // Check that irrelevant events are ignored
    let report_request4 = SimpleLastTouchHistogramRequest {
        epoch_start: 1,
        epoch_end: 3,
        report_global_sensitivity: units(3.0),
        query_global_sensitivity: units(5.0),
        requested_epsilon: units(5.0),
        is_relevant_event: SimpleRelevantEventSelector { lambda: KeyEquals(1) },
        report_uris: sample_report_uris.clone(),
    };
    let report4 = pds.compute_report(&report_request4).unwrap();
    let bucket4: Option<(u64, u64)> = None;
    assert_eq!(
        report4
            .get(&report_request4.report_uris.querier_uris[0])
            .unwrap()
            .filtered_report
            .bin_value,
        bucket4
    );

    // The first request used up the budget of epoch 1 for its querier.
    assert_eq!(
        pds.core
            .filter_storage
            .remaining_budget(&pdslib::pds::quotas::FilterId::Nc(1, "adtech.com".to_string()))
            .unwrap(),
        eps(0.0)
    );
}
