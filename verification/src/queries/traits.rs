use std::collections::HashMap;
use vstd::prelude::*;

use crate::budget::pure_dp_filter::PureDPBudget;
use crate::events::relevant_events::RelevantEvents;
use crate::events::traits::{clone_uris, Event, EventsByEpoch, RelevantEventSelector};
use crate::mechanisms::{NoiseScale, NormType};
use crate::vec_map::VecMap;

verus! {

/// What a query computes: the intermediary of each bucket, and the report
/// of each site that receives one.
#[derive(Debug)]
pub struct QueryComputeResult<R> {
    pub bucket_uri_map: HashMap<u64, String>,
    pub uri_report_map: VecMap<String, R>,
}

/// What a query computes, as contracts see it.
pub struct QueryComputeResultView<RV> {
    pub bucket_uri_map: Map<u64, Seq<char>>,
    pub uri_report_map: Map<Seq<char>, RV>,
}

impl<R: View> View for QueryComputeResult<R> {
    type V = QueryComputeResultView<R::V>;

    open spec fn view(&self) -> QueryComputeResultView<R::V> {
        QueryComputeResultView {
            bucket_uri_map: self.bucket_uri_map@.map_values(|uri: String| uri@),
            uri_report_map: self.uri_report_map@.map_values(|report: R| report@),
        }
    }
}

impl<R> QueryComputeResult<R> {
    pub fn new(bucket_uri_map: HashMap<u64, String>, uri_report_map: VecMap<String, R>) -> (r:
        Self)
        ensures
            r.bucket_uri_map == bucket_uri_map,
            r.uri_report_map == uri_report_map,
    {
        QueryComputeResult { bucket_uri_map, uri_report_map }
    }
}

/// The sites of a report request.
#[derive(Debug)]
pub struct ReportRequestUris {
    /// The site that triggered the report.
    pub trigger_uri: String,
    /// The source sites whose events may enter the report.
    pub source_uris: Vec<String>,
    /// The sites embedded in the source and trigger sites, each of which
    /// receives its part of the report.
    pub intermediary_uris: Vec<String>,
    /// The queriers that receive the report.
    pub querier_uris: Vec<String>,
}

/// The sites of a report request, as contracts see them.
pub struct ReportRequestUrisView {
    pub trigger_uri: Seq<char>,
    pub source_uris: Seq<Seq<char>>,
    pub intermediary_uris: Seq<Seq<char>>,
    pub querier_uris: Seq<Seq<char>>,
}

impl View for ReportRequestUris {
    type V = ReportRequestUrisView;

    open spec fn view(&self) -> ReportRequestUrisView {
        ReportRequestUrisView {
            trigger_uri: self.trigger_uri@,
            source_uris: self.source_uris.deep_view(),
            intermediary_uris: self.intermediary_uris.deep_view(),
            querier_uris: self.querier_uris.deep_view(),
        }
    }
}

impl Clone for ReportRequestUris {
    fn clone(&self) -> (r: Self)
        ensures
            r@ == self@,
    {
        ReportRequestUris {
            trigger_uri: self.trigger_uri.clone(),
            source_uris: clone_uris(&self.source_uris),
            intermediary_uris: clone_uris(&self.intermediary_uris),
            querier_uris: clone_uris(&self.querier_uris),
        }
    }
}

/// Epochs in the order of a request, as contracts see them.
pub type EpochSeq = Seq<u64>;

/// The epochs from `end` down to `start`: none where `end` is before
/// `start`.
pub open spec fn epochs_down(start: u64, end: u64) -> Seq<u64> {
    if start <= end {
        Seq::new((end - start + 1) as nat, |i: int| (end - i) as u64)
    } else {
        Seq::empty()
    }
}

/// The epochs of a window differ from one another.
pub proof fn lemma_epochs_down_distinct(start: u64, end: u64)
    ensures
        epochs_down(start, end).no_duplicates(),
{
}

/// The epochs from `end` down to `start`.
pub fn epochs_down_to(start: u64, end: u64) -> (epochs: Vec<u64>)
    ensures
        epochs@ == epochs_down(start, end),
{
    let mut epochs: Vec<u64> = Vec::new();
    if start > end {
        proof {
            assert(epochs@ =~= epochs_down(start, end));
        }
        return epochs;
    }
    let ghost all = epochs_down(start, end);
    let mut epoch = end;
    let mut done = false;
    while !done
        invariant
            start <= epoch <= end,
            all == epochs_down(start, end),
            !done ==> epochs@ == all.take(end - epoch),
            done ==> epochs@ == all,
        decreases
            epoch - start + (if done {
                0int
            } else {
                1int
            }),
    {
        let ghost before = epochs@;
        epochs.push(epoch);
        proof {
            let n = end - epoch;
            assert(all[n] == epoch);
            assert(all.take(n + 1) =~= before.push(epoch));
        }
        if epoch == start {
            done = true;
            proof {
                assert(all.take(all.len() as int) =~= all);
            }
        } else {
            epoch = epoch - 1;
        }
    }
    epochs
}

/// A report as a device produces it, before any noise.
pub trait Report: View + Sized {
    /// A copy of the report.
    fn clone_report(&self) -> (r: Self)
        ensures
            r@ == self@,
    ;
}

/// A query over a window of epochs. What its methods return depends on the
/// request and their arguments alone.
pub trait EpochReportRequest: Sized {
    type Event: Event;

    type RelevantEventSelector: RelevantEventSelector<Event = Self::Event>;

    type Report: Report;

    spec fn spec_report_uris(&self) -> ReportRequestUrisView;

    spec fn spec_epoch_ids(&self) -> EpochSeq;

    spec fn spec_relevant_event_selector(&self) -> Self::RelevantEventSelector;

    spec fn spec_compute_report(
        &self,
        relevant_events: EventsByEpoch<<Self::Event as View>::V>,
    ) -> QueryComputeResultView<<Self::Report as View>::V>;

    spec fn spec_single_epoch_individual_sensitivity(
        &self,
        report: <Self::Report as View>::V,
        norm_type: NormType,
    ) -> u128;

    spec fn spec_single_epoch_source_individual_sensitivity(
        &self,
        report: <Self::Report as View>::V,
        norm_type: NormType,
    ) -> u128;

    spec fn spec_report_global_sensitivity(&self) -> u128;

    spec fn spec_noise_scale(&self) -> NoiseScale;

    /// The sites of the request.
    fn report_uris(&self) -> (uris: &ReportRequestUris)
        ensures
            uris@ == self.spec_report_uris(),
    ;

    /// The epochs of the request, in the order in which the attribution goes
    /// through them: the most recent first.
    fn epoch_ids(&self) -> (epochs: Vec<u64>)
        ensures
            epochs@ == self.spec_epoch_ids(),
    ;

    /// The selector of the events that are relevant to the request.
    fn relevant_event_selector(&self) -> (selector: &Self::RelevantEventSelector)
        ensures
            *selector == self.spec_relevant_event_selector(),
    ;

    /// The report over the given events, for each site that receives one.
    fn compute_report(&self, relevant_events: &RelevantEvents<Self::Event>) -> (r:
        QueryComputeResult<Self::Report>)
        ensures
            r@ == self.spec_compute_report(relevant_events@),
    ;

    /// How much one device can change `report`, where the report is computed
    /// over a single epoch.
    fn single_epoch_individual_sensitivity(
        &self,
        report: &Self::Report,
        norm_type: NormType,
    ) -> (s: u128)
        ensures
            s == self.spec_single_epoch_individual_sensitivity(report@, norm_type),
    ;

    /// How much one device can change `report`, where the report is computed
    /// over a single epoch and a single source.
    fn single_epoch_source_individual_sensitivity(
        &self,
        report: &Self::Report,
        norm_type: NormType,
    ) -> (s: u128)
        ensures
            s == self.spec_single_epoch_source_individual_sensitivity(report@, norm_type),
    ;

    /// How much one device can change a report of this request at most.
    fn report_global_sensitivity(&self) -> (s: u128)
        ensures
            s == self.spec_report_global_sensitivity(),
    ;

    /// The scale of the noise that the aggregator will add.
    fn noise_scale(&self) -> (scale: NoiseScale)
        ensures
            scale == self.spec_noise_scale(),
    ;
}

/// A request to account for a privacy loss that no report goes with: the
/// same budget for each of the epochs.
#[derive(Debug)]
pub struct PassivePrivacyLossRequest {
    pub epoch_ids: Vec<u64>,
    pub privacy_budget: PureDPBudget,
    pub uris: ReportRequestUris,
}

} // verus!
