use std::collections::HashMap;
use vstd::prelude::*;
use vstd::std_specs::hash::spec_hash_map_iter;
use vstd::std_specs::iter::IteratorSpec;

use crate::events::relevant_events::RelevantEvents;
use crate::events::traits::{Event, EventsByEpoch, UriView};
use crate::mechanisms::{
    ceil_sqrt, ceil_sqrt_u128, lemma_total_insert, lemma_total_remove, plain, squared, total,
    total_squares, NormType,
};
use crate::queries::traits::{
    QueryComputeResult, QueryComputeResultView, Report, ReportRequestUris, ReportRequestUrisView,
};
use crate::vec_map::VecMap;

verus! {

/// The value of each bucket, as contracts see it.
pub type Bins = Map<u64, u64>;

/// Events with their values, as contracts see them.
pub type EventValues<EV> = Seq<(EV, u64)>;

/// The intermediary of each bucket, as contracts see it.
pub type BucketUris = Map<u64, UriView>;

/// A histogram: the value attributed to each bucket that has one. As a
/// contract sees it, it is the map from bucket to value.
#[derive(Debug)]
pub struct HistogramReport {
    pub bin_values: HashMap<u64, u64>,
}

impl View for HistogramReport {
    type V = Map<u64, u64>;

    open spec fn view(&self) -> Map<u64, u64> {
        self.bin_values@
    }
}

impl HistogramReport {
    /// The values of the first `histogram_size` buckets, with zero for a
    /// bucket that has none.
    pub fn dense(&self, histogram_size: usize) -> (histogram: Vec<u64>)
        ensures
            histogram@.len() == histogram_size,
            forall|bucket: int|
                0 <= bucket < histogram_size ==> #[trigger] histogram@[bucket] == (
                if self@.contains_key(bucket as u64) {
                    self@[bucket as u64]
                } else {
                    0
                }),
    {
        let mut histogram: Vec<u64> = Vec::new();
        let mut bucket: usize = 0;
        while bucket < histogram_size
            invariant
                bucket <= histogram_size,
                histogram@.len() == bucket,
                forall|b: int|
                    0 <= b < bucket ==> #[trigger] histogram@[b] == (if self@.contains_key(
                        b as u64,
                    ) {
                        self@[b as u64]
                    } else {
                        0
                    }),
            decreases histogram_size - bucket,
        {
            let value = match self.bin_values.get(&(bucket as u64)) {
                Some(value) => *value,
                None => 0,
            };
            histogram.push(value);
            bucket += 1;
        }
        histogram
    }
}

impl Default for HistogramReport {
    /// The null report: a histogram without buckets.
    fn default() -> (r: Self)
        ensures
            r@ == Map::<u64, u64>::empty(),
    {
        HistogramReport { bin_values: HashMap::new() }
    }
}

impl Clone for HistogramReport {
    fn clone(&self) -> (r: Self)
        ensures
            r@ == self@,
    {
        HistogramReport { bin_values: self.bin_values.clone() }
    }
}

impl Report for HistogramReport {
    fn clone_report(&self) -> (r: Self) {
        self.clone()
    }
}

/// The part of `bins` that the first `n` of `pairs` name.
pub open spec fn first_bins(bins: Map<u64, u64>, pairs: Seq<(&u64, &u64)>, n: int) -> Map<
    u64,
    u64,
> {
    Map::new(
        |bucket: u64| exists|i: int| 0 <= i < n && *(#[trigger] pairs[i]).0 == bucket,
        |bucket: u64| bins[bucket],
    )
}

/// Before a walk through a histogram no bucket has been seen.
pub proof fn lemma_first_bins_start(bins: &HashMap<u64, u64>)
    ensures
        first_bins(bins@, spec_hash_map_iter(bins).remaining(), 0) == Map::<u64, u64>::empty(),
        spec_hash_map_iter(bins).remaining().len() == bins@.len(),
{
    assert(first_bins(bins@, spec_hash_map_iter(bins).remaining(), 0) =~= Map::<
        u64,
        u64,
    >::empty());
}

/// Walking a histogram goes through its buckets one by one, each once, from
/// no bucket to all of them.
pub proof fn lemma_first_bins(bins: &HashMap<u64, u64>, n: int)
    requires
        0 <= n <= spec_hash_map_iter(bins).remaining().len(),
        spec_hash_map_iter(bins).remaining().no_duplicates(),
    ensures
        ({
            let pairs = spec_hash_map_iter(bins).remaining();
            &&& first_bins(bins@, pairs, n).dom().finite()
            &&& first_bins(bins@, pairs, 0) == Map::<u64, u64>::empty()
            &&& first_bins(bins@, pairs, pairs.len() as int) == bins@
            &&& n < pairs.len() ==> !first_bins(bins@, pairs, n).contains_key(*pairs[n].0)
                && first_bins(bins@, pairs, n + 1) == first_bins(bins@, pairs, n).insert(
                *pairs[n].0,
                *pairs[n].1,
            )
        }),
{
    let pairs = spec_hash_map_iter(bins).remaining();
    assert(forall|i: int|
        0 <= i < pairs.len() ==> bins@.contains_key(*(#[trigger] pairs[i]).0) && bins@[*pairs[i].0]
            == *pairs[i].1);
    assert(first_bins(bins@, pairs, n).dom().subset_of(bins@.dom()));
    vstd::set_lib::lemma_set_subset_finite(bins@.dom(), first_bins(bins@, pairs, n).dom());
    assert(first_bins(bins@, pairs, 0) =~= Map::<u64, u64>::empty());
    assert forall|bucket: u64| bins@.contains_key(bucket) implies first_bins(
        bins@,
        pairs,
        pairs.len() as int,
    ).contains_key(bucket) by {
        assert(pairs.contains((&bucket, &bins@[bucket])));
        let i = pairs.index_of((&bucket, &bins@[bucket]));
        assert(*pairs[i].0 == bucket);
    }
    assert(first_bins(bins@, pairs, pairs.len() as int) =~= bins@);
    if n < pairs.len() {
        if first_bins(bins@, pairs, n).contains_key(*pairs[n].0) {
            let i = choose|i: int| 0 <= i < n && *(#[trigger] pairs[i]).0 == *pairs[n].0;
            assert(pairs[i] == pairs[n]);
        }
        assert forall|bucket: u64|
            first_bins(bins@, pairs, n + 1).contains_key(bucket) == first_bins(
                bins@,
                pairs,
                n,
            ).insert(*pairs[n].0, *pairs[n].1).contains_key(bucket) by {
            if first_bins(bins@, pairs, n + 1).contains_key(bucket) {
                let i = choose|i: int| 0 <= i < n + 1 && *(#[trigger] pairs[i]).0 == bucket;
                if i < n {
                    assert(first_bins(bins@, pairs, n).contains_key(bucket));
                }
            }
            if first_bins(bins@, pairs, n).contains_key(bucket) {
                let i = choose|i: int| 0 <= i < n && *(#[trigger] pairs[i]).0 == bucket;
                assert(first_bins(bins@, pairs, n + 1).contains_key(bucket));
            }
        }
        assert(first_bins(bins@, pairs, n + 1) =~= first_bins(bins@, pairs, n).insert(
            *pairs[n].0,
            *pairs[n].1,
        ));
    }
}

/// The sum of the values of a histogram.
pub fn sum_values(bins: &HashMap<u64, u64>) -> (sum: u128)
    ensures
        sum == total(bins@),
{
    let ghost pairs = spec_hash_map_iter(bins).remaining();
    let buckets = bins.len();
    let mut sum: u128 = 0;
    proof {
        lemma_first_bins_start(bins);
        assert(pairs.len() == buckets);
    }
    for pair in it: bins.iter()
        invariant
            it.seq() == pairs,
            pairs.no_duplicates(),
            pairs.len() <= usize::MAX,
            sum <= it.index() * u64::MAX,
            sum == total(first_bins(bins@, pairs, it.index())),
    {
        proof {
            let n = it.index();
            lemma_first_bins(bins, n);
            lemma_total_insert(first_bins(bins@, pairs, n), plain(), *pairs[n].0, *pairs[n].1);
            assert((n + 1) * u64::MAX == n * u64::MAX + u64::MAX) by (nonlinear_arith);
            assert(n * u64::MAX <= usize::MAX * u64::MAX) by (nonlinear_arith)
                requires
                    0 <= n <= usize::MAX,
            ;
        }
        sum = sum + *pair.1 as u128;
    }
    proof {
        lemma_first_bins(bins, pairs.len() as int);
    }
    sum
}

/// The sum of the squares of the values of a histogram, or `None` where it
/// is beyond the range.
pub fn sum_squares(bins: &HashMap<u64, u64>) -> (sum: Option<u128>)
    ensures
        match sum {
            Some(sum) => sum == total_squares(bins@),
            None => total_squares(bins@) > u128::MAX,
        },
{
    let ghost pairs = spec_hash_map_iter(bins).remaining();
    let mut sum: Option<u128> = Some(0);
    proof {
        lemma_first_bins_start(bins);
    }
    for pair in it: bins.iter()
        invariant
            it.seq() == pairs,
            pairs.no_duplicates(),
            match sum {
                Some(sum) => sum == total_squares(first_bins(bins@, pairs, it.index())),
                None => total_squares(first_bins(bins@, pairs, it.index())) > u128::MAX,
            },
    {
        let value = *pair.1 as u128;
        proof {
            let n = it.index();
            lemma_first_bins(bins, n);
            lemma_total_insert(first_bins(bins@, pairs, n), squared(), *pairs[n].0, *pairs[n].1);
            assert(value * value <= 0xffff_ffff_ffff_ffff * 0xffff_ffff_ffff_ffff)
                by (nonlinear_arith)
                requires
                    0 <= value <= 0xffff_ffff_ffff_ffff,
            ;
        }
        let square = value * value;
        sum = match sum {
            Some(so_far) => so_far.checked_add(square),
            None => None,
        };
    }
    proof {
        lemma_first_bins(bins, pairs.len() as int);
    }
    sum
}

/// The histogram `bins` with `value` added to the bucket `key`.
pub open spec fn accumulate<K>(bins: Map<K, u64>, key: K, value: u64) -> Map<K, u64> {
    bins.insert(
        key,
        ((if bins.contains_key(key) {
            bins[key]
        } else {
            0
        }) + value) as u64,
    )
}

/// The views of events with their values.
pub open spec fn event_value_views<E: Event>(event_values: Seq<(&E, u64)>) -> Seq<(E::V, u64)> {
    event_values.map_values(|pair: (&E, u64)| (pair.0@, pair.1))
}

/// The histogram of `event_values` on top of `bins`, which hold `total`
/// already. The values are added bucket by bucket in their order, up to the
/// first one that would take the sum over the attributable value of
/// `request`; that one and all after it are left out.
pub open spec fn capped_histogram_from<H: HistogramRequest>(
    request: H,
    event_values: Seq<(<H::HistogramEvent as View>::V, u64)>,
    bins: Map<u64, u64>,
    total: nat,
) -> Map<u64, u64>
    decreases event_values.len(),
{
    if event_values.len() == 0 {
        bins
    } else {
        let (event, value) = event_values[0];
        if total + value > request.spec_attributable_value() {
            bins
        } else {
            capped_histogram_from(
                request,
                event_values.skip(1),
                accumulate(bins, request.spec_bucket_key(event), value),
                total + value as nat,
            )
        }
    }
}

/// The histogram of `event_values` under the cap of `request`.
pub open spec fn capped_histogram<H: HistogramRequest>(
    request: H,
    event_values: Seq<(<H::HistogramEvent as View>::V, u64)>,
) -> Map<u64, u64> {
    capped_histogram_from(request, event_values, Map::empty(), 0)
}

/// The values of a capped histogram sum to no more than the attributable
/// value of the request.
pub proof fn lemma_capped_histogram_within_cap<H: HistogramRequest>(
    request: H,
    event_values: Seq<(<H::HistogramEvent as View>::V, u64)>,
    bins: Map<u64, u64>,
    total_so_far: nat,
)
    requires
        bins.dom().finite(),
        total(bins) == total_so_far,
        total_so_far <= request.spec_attributable_value(),
    ensures
        capped_histogram_from(request, event_values, bins, total_so_far).dom().finite(),
        total(capped_histogram_from(request, event_values, bins, total_so_far))
            <= request.spec_attributable_value(),
    decreases event_values.len(),
{
    if event_values.len() > 0 {
        let (event, value) = event_values[0];
        if total_so_far + value <= request.spec_attributable_value() {
            let key = request.spec_bucket_key(event);
            let next = accumulate(bins, key, value);
            if bins.contains_key(key) {
                lemma_total_remove(bins, plain(), key);
            }
            lemma_total_insert(bins, plain(), key, next[key]);
            lemma_capped_histogram_within_cap(
                request,
                event_values.skip(1),
                next,
                total_so_far + value as nat,
            );
        }
    }
}

/// The histogram of a request sums to no more than its attributable value.
pub proof fn lemma_histogram_within_cap<H: HistogramRequest>(
    request: H,
    event_values: Seq<(<H::HistogramEvent as View>::V, u64)>,
)
    ensures
        total(capped_histogram(request, event_values)) <= request.spec_attributable_value(),
{
    assert(Map::<u64, u64>::empty().dom() =~= Set::<u64>::empty());
    lemma_capped_histogram_within_cap(request, event_values, Map::empty(), 0);
}

/// The cap counts as within: a value that takes the sum exactly to the
/// attributable value enters the histogram, and the first value that takes the
/// sum beyond it ends the histogram as it stands.
pub proof fn lemma_cap_is_inclusive<H: HistogramRequest>(
    request: H,
    event_values: Seq<(<H::HistogramEvent as View>::V, u64)>,
    bins: Map<u64, u64>,
    total: nat,
)
    requires
        event_values.len() > 0,
    ensures
        total + event_values[0].1 == request.spec_attributable_value() ==> capped_histogram_from(
            request,
            event_values,
            bins,
            total,
        ) == capped_histogram_from(
            request,
            event_values.skip(1),
            accumulate(bins, request.spec_bucket_key(event_values[0].0), event_values[0].1),
            request.spec_attributable_value() as nat,
        ),
        total + event_values[0].1 > request.spec_attributable_value() ==> capped_histogram_from(
            request,
            event_values,
            bins,
            total,
        ) == bins,
{
}

/// The part of `report` that `intermediary` receives: empty where it has
/// none.
pub open spec fn intermediary_report<H: HistogramRequest>(
    request: H,
    report: Map<u64, u64>,
    intermediary: Seq<char>,
) -> Map<u64, u64> {
    match request.spec_filter_report_for_intermediary(report, intermediary) {
        Some(filtered) => filtered,
        None => Map::empty(),
    }
}

/// The reports of a histogram request: the whole of `report` for its first
/// querier, and for each of the first `n` intermediaries its part.
pub open spec fn histogram_reports<H: HistogramRequest>(
    request: H,
    report: Map<u64, u64>,
    n: int,
) -> Map<Seq<char>, Map<u64, u64>> {
    let uris = request.spec_histogram_report_uris();
    Map::new(
        |uri: Seq<char>|
            (uris.querier_uris.len() > 0 && uri == uris.querier_uris[0])
                || uris.intermediary_uris.take(n).contains(uri),
        |uri: Seq<char>|
            if uris.intermediary_uris.take(n).contains(uri) {
                intermediary_report(request, report, uri)
            } else {
                report
            },
    )
}

/// What a histogram request computes over `relevant_events`: the capped
/// histogram of the values of its events, for the querier and in parts for
/// the intermediaries, and the intermediary of each bucket.
pub open spec fn histogram_result<H: HistogramRequest>(
    request: H,
    relevant_events: Map<u64, Seq<<H::HistogramEvent as View>::V>>,
) -> QueryComputeResultView<Map<u64, u64>> {
    let report = capped_histogram(request, request.spec_event_values(relevant_events));
    QueryComputeResultView {
        bucket_uri_map: match request.spec_bucket_intermediary_mapping() {
            Some(mapping) => mapping,
            None => Map::empty(),
        },
        uri_report_map: histogram_reports(
            request,
            report,
            request.spec_histogram_report_uris().intermediary_uris.len() as int,
        ),
    }
}

/// The norm of a histogram. The root of the sum of the squares is rounded up
/// to a billionth; where the sum of the squares is beyond the range
/// of the numbers, the sum of the values stands in for its root, which is no
/// less.
pub open spec fn norm_of<K>(report: Map<K, u64>, norm_type: NormType) -> u128 {
    match norm_type {
        NormType::L1 => total(report) as u128,
        NormType::L2 => if total_squares(report) <= u128::MAX {
            ceil_sqrt(total_squares(report)) as u128
        } else {
            total(report) as u128
        },
    }
}

/// The buckets of a map with their intermediaries, as contracts see them.
pub open spec fn bucket_views(mapping: Map<u64, String>) -> Map<u64, Seq<char>> {
    mapping.map_values(|uri: String| uri@)
}

/// The reports of a map, as contracts see them.
pub open spec fn histogram_views(reports: Map<Seq<char>, HistogramReport>) -> Map<
    Seq<char>,
    Map<u64, u64>,
> {
    reports.map_values(|report: HistogramReport| report@)
}

/// A histogram query: it gives each relevant event a value and a bucket,
/// and caps the sum of the values of one report.
pub trait HistogramRequest: Sized {
    type HistogramEvent: Event;

    spec fn spec_attributable_value(&self) -> u64;

    spec fn spec_bucket_key(&self, event: <Self::HistogramEvent as View>::V) -> u64;

    spec fn spec_event_values(
        &self,
        relevant_events: EventsByEpoch<<Self::HistogramEvent as View>::V>,
    ) -> EventValues<<Self::HistogramEvent as View>::V>;

    spec fn spec_histogram_report_uris(&self) -> ReportRequestUrisView;

    spec fn spec_bucket_intermediary_mapping(&self) -> Option<BucketUris>;

    spec fn spec_filter_report_for_intermediary(
        &self,
        report: Bins,
        intermediary_uri: UriView,
    ) -> Option<Bins>;

    /// The most that the events of one report may be worth together.
    fn attributable_value(&self) -> (value: u64)
        ensures
            value == self.spec_attributable_value(),
    ;

    /// The bucket that `event` is counted in.
    fn bucket_key(&self, event: &Self::HistogramEvent) -> (key: u64)
        ensures
            key == self.spec_bucket_key(event@),
    ;

    /// The events that get a value, each with its value, in the order in
    /// which the values enter the histogram. Events without a value are left
    /// out.
    fn event_values<'a>(&self, relevant_events: &'a RelevantEvents<Self::HistogramEvent>) -> (r:
        Vec<(&'a Self::HistogramEvent, u64)>)
        ensures
            event_value_views(r@) == self.spec_event_values(relevant_events@),
    ;

    /// The sites of the request.
    fn histogram_report_uris(&self) -> (uris: ReportRequestUris)
        ensures
            uris@ == self.spec_histogram_report_uris(),
    ;

    /// The intermediary of each bucket that has one.
    fn get_bucket_intermediary_mapping(&self) -> (mapping: Option<&HashMap<u64, String>>)
        ensures
            match mapping {
                Some(mapping) => self.spec_bucket_intermediary_mapping() == Some(
                    bucket_views(mapping@),
                ),
                None => self.spec_bucket_intermediary_mapping() is None,
            },
    ;

    /// The part of `report` that `intermediary_uri` receives, or `None`
    /// where it receives none.
    fn filter_report_for_intermediary(
        &self,
        report: &HistogramReport,
        intermediary_uri: &String,
        relevant_events: &RelevantEvents<Self::HistogramEvent>,
    ) -> (r: Option<HistogramReport>)
        ensures
            match r {
                Some(filtered) => self.spec_filter_report_for_intermediary(
                    report@,
                    intermediary_uri@,
                ) == Some(filtered@),
                None => self.spec_filter_report_for_intermediary(report@, intermediary_uri@)
                    is None,
            },
    ;

    /// How much one device can change `report`, where the report is computed
    /// over a single epoch: the norm of the report.
    fn histogram_single_epoch_individual_sensitivity(
        &self,
        report: &HistogramReport,
        norm_type: NormType,
    ) -> (s: u128)
        ensures
            s == norm_of(report@, norm_type),
    {
        match norm_type {
            NormType::L1 => sum_values(&report.bin_values),
            NormType::L2 => match sum_squares(&report.bin_values) {
                Some(sum_squares) => ceil_sqrt_u128(sum_squares),
                None => sum_values(&report.bin_values),
            },
        }
    }

    /// How much one device can change `report`, where the report is computed
    /// over a single epoch and a single source: the norm of the report.
    fn histogram_single_epoch_source_individual_sensitivity(
        &self,
        report: &HistogramReport,
        norm_type: NormType,
    ) -> (s: u128)
        ensures
            s == norm_of(report@, norm_type),
    {
        self.histogram_single_epoch_individual_sensitivity(report, norm_type)
    }

    /// How much one device can change a report at most: twice the
    /// attributable value, since the histogram has more than one bucket.
    fn histogram_report_global_sensitivity(&self) -> (s: u128)
        ensures
            s == 2 * self.spec_attributable_value(),
    {
        2 * (self.attributable_value() as u128)
    }
}

/// Computes the report: the values of the events are summed by bucket,
/// in their order, as long as their sum stays within the attributable
/// value. The first querier receives the histogram, and each
/// intermediary its part of it.
pub fn compute_histogram_report<H: HistogramRequest>(
    request: &H,
    relevant_events: &RelevantEvents<H::HistogramEvent>,
) -> (r: QueryComputeResult<HistogramReport>)
    ensures
        r@ == histogram_result(*request, relevant_events@),
{
    let mut bin_values: HashMap<u64, u64> = HashMap::new();
    let mut total_value: u64 = 0;
    let event_values = request.event_values(relevant_events);
    let cap = request.attributable_value();
    let ghost values = event_value_views(event_values@);
    let mut early_stop = false;
    let mut i: usize = 0;
    proof {
        assert(values.skip(0) =~= values);
    }
    while i < event_values.len() && !early_stop
        invariant
            i <= event_values.len(),
            cap == request.spec_attributable_value(),
            values == event_value_views(event_values@),
            total_value <= cap,
            forall|key: u64| #[trigger]
                bin_values@.contains_key(key) ==> bin_values@[key] <= total_value,
            !early_stop ==> capped_histogram(*request, values) == capped_histogram_from(
                *request,
                values.skip(i as int),
                bin_values@,
                total_value as nat,
            ),
            early_stop ==> capped_histogram(*request, values) == bin_values@,
        decreases
            event_values.len() - i + (if early_stop {
                0int
            } else {
                1int
            }),
    {
        let event = event_values[i].0;
        let value = event_values[i].1;
        proof {
            assert(values.skip(i as int)[0] == (event@, value));
            assert(values.skip(i as int).skip(1) =~= values.skip(i + 1));
        }
        let within = match total_value.checked_add(value) {
            Some(sum) => sum <= cap,
            None => false,
        };
        if !within {
            // One more value would exceed the cap: the histogram is
            // returned as it stands.
            early_stop = true;
        } else {
            let bin = request.bucket_key(event);
            let current = match bin_values.get(&bin) {
                Some(current) => *current,
                None => 0,
            };
            bin_values.insert(bin, current + value);
            total_value = total_value + value;
            i += 1;
        }
    }
    let report = HistogramReport { bin_values };
    proof {
        assert(report@ == capped_histogram(*request, values));
    }
    let uris = request.histogram_report_uris();
    let mut site_to_report_mapping: VecMap<String, HistogramReport> = VecMap::new();
    if uris.querier_uris.len() > 0 {
        proof {
            assert(uris.querier_uris.deep_view()[0] == uris.querier_uris[0]@);
        }
        site_to_report_mapping.insert(uris.querier_uris[0].clone(), report.clone());
    }
    let ghost intermediaries = uris@.intermediary_uris;
    let mut n: usize = 0;
    proof {
        assert(intermediaries.take(0) =~= Seq::<Seq<char>>::empty());
        assert(histogram_views(site_to_report_mapping@) =~= histogram_reports(
            *request,
            report@,
            0,
        ));
    }
    while n < uris.intermediary_uris.len()
        invariant
            n <= uris.intermediary_uris.len(),
            uris@ == request.spec_histogram_report_uris(),
            intermediaries == uris@.intermediary_uris,
            histogram_views(site_to_report_mapping@) == histogram_reports(
                *request,
                report@,
                n as int,
            ),
        decreases uris.intermediary_uris.len() - n,
    {
        let intermediary_uri = &uris.intermediary_uris[n];
        let filtered_report = match request.filter_report_for_intermediary(
            &report,
            intermediary_uri,
            relevant_events,
        ) {
            Some(filtered_report) => filtered_report,
            None => HistogramReport { bin_values: HashMap::new() },
        };
        let ghost before = site_to_report_mapping@;
        let ghost uri = intermediary_uri@;
        let ghost earlier = intermediaries.take(n as int);
        proof {
            assert(filtered_report@ == intermediary_report(*request, report@, uri));
            assert(intermediaries.take(n + 1) =~= earlier.push(uri));
            broadcast use vstd::seq_lib::lemma_seq_contains_after_push;
        }
        site_to_report_mapping.insert(intermediary_uri.clone(), filtered_report);
        proof {
            let lhs = histogram_views(site_to_report_mapping@);
            let rhs = histogram_reports(*request, report@, n + 1);
            let prev = histogram_views(before);
            assert forall|u: Seq<char>| lhs.contains_key(u) == rhs.contains_key(u) by {
                assert(prev.contains_key(u) == histogram_reports(
                    *request,
                    report@,
                    n as int,
                ).contains_key(u));
            }
            assert forall|u: Seq<char>| lhs.contains_key(u) implies lhs[u] == rhs[u] by {
                if u != uri {
                    assert(prev.contains_key(u));
                    assert(prev[u] == lhs[u]);
                }
            }
            assert(lhs =~= rhs);
        }
        n += 1;
    }
    let bucket_uri_map = match request.get_bucket_intermediary_mapping() {
        Some(intermediary_mapping) => intermediary_mapping.clone(),
        None => HashMap::new(),
    };
    let result = QueryComputeResult::new(bucket_uri_map, site_to_report_mapping);
    proof {
        assert(result@.bucket_uri_map =~= histogram_result(
            *request,
            relevant_events@,
        ).bucket_uri_map);
        assert(result@.uri_report_map =~= histogram_views(site_to_report_mapping@));
    }
    result
}

} // verus!
