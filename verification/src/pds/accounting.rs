use vstd::prelude::*;

use crate::budget::pure_dp_filter::{PureDPBudget, UNITS_PER_ONE};
use crate::events::traits::contains_uri;
use crate::mechanisms::{NoiseScale, NormType};
use crate::queries::traits::EpochReportRequest;
use crate::vec_map::{distinct, VecMap};

verus! {

/// The privacy loss of a query of the given sensitivity under Laplace noise
/// of the given scale: their quotient, rounded up to the next billionth.
/// Without noise the loss is infinite, and so is a loss beyond the finite
/// range.
pub open spec fn privacy_loss(sensitivity: u128, noise_scale: u64) -> PureDPBudget {
    if noise_scale == 0 {
        PureDPBudget::Infinite
    } else {
        let loss = (sensitivity * UNITS_PER_ONE + noise_scale - 1) / (noise_scale as int);
        if loss <= u64::MAX {
            PureDPBudget::Epsilon(loss as u64)
        } else {
            PureDPBudget::Infinite
        }
    }
}

/// The scale of the noise, whatever its distribution.
pub open spec fn scale_of(noise: NoiseScale) -> u64 {
    match noise {
        NoiseScale::Laplace(scale) => scale,
    }
}

/// The loss that `request` incurs in one of its `num_epochs` epochs: none
/// where the epoch has no relevant event; for a single epoch, the loss of the
/// sensitivity of `report`; for several, that of the global sensitivity.
pub open spec fn epoch_loss<Q: EpochReportRequest>(
    request: Q,
    has_events: bool,
    report: <Q::Report as View>::V,
    num_epochs: nat,
) -> PureDPBudget {
    if !has_events {
        PureDPBudget::Epsilon(0)
    } else {
        let sensitivity = if num_epochs == 1 {
            request.spec_single_epoch_individual_sensitivity(report, NormType::L1)
        } else {
            request.spec_report_global_sensitivity()
        };
        privacy_loss(sensitivity, scale_of(request.spec_noise_scale()))
    }
}

/// The loss that `request` incurs at one source in one epoch. The
/// sensitivity is zero where the source has no relevant event in the epoch;
/// that of `report` where the request has a single epoch and a single
/// source; and the global sensitivity otherwise.
pub open spec fn source_loss<Q: EpochReportRequest>(
    request: Q,
    has_events: bool,
    report: <Q::Report as View>::V,
    num_epochs: nat,
) -> PureDPBudget {
    let sensitivity = if !has_events {
        0u128
    } else if num_epochs == 1 && request.spec_report_uris().source_uris.len() == 1 {
        request.spec_single_epoch_source_individual_sensitivity(report, NormType::L1)
    } else {
        request.spec_report_global_sensitivity()
    };
    privacy_loss(sensitivity, scale_of(request.spec_noise_scale()))
}

/// The loss of each source of `request` in one epoch, of which
/// `epoch_event_sources` are the sources with a relevant event.
pub open spec fn epoch_source_losses<Q: EpochReportRequest>(
    request: Q,
    epoch_event_sources: Seq<Seq<char>>,
    report: <Q::Report as View>::V,
    num_epochs: nat,
) -> Map<Seq<char>, PureDPBudget> {
    Map::new(
        |source: Seq<char>| request.spec_report_uris().source_uris.contains(source),
        |source: Seq<char>|
            source_loss(request, epoch_event_sources.contains(source), report, num_epochs),
    )
}

/// The privacy loss of a query of the given sensitivity under noise of the
/// given scale.
pub fn compute_privacy_loss(sensitivity: u128, noise_scale: u64) -> (loss: PureDPBudget)
    ensures
        loss == privacy_loss(sensitivity, noise_scale),
{
    if noise_scale == 0 {
        return PureDPBudget::Infinite;
    }
    let scale = noise_scale as u128;
    match sensitivity.checked_mul(UNITS_PER_ONE as u128) {
        None => {
            proof {
                let p = sensitivity * UNITS_PER_ONE;
                assert(p > u128::MAX);
                assert((p + noise_scale - 1) / (noise_scale as int) > u64::MAX) by (nonlinear_arith)
                    requires
                        p > u128::MAX,
                        0 < noise_scale <= u64::MAX,
                ;
            }
            PureDPBudget::Infinite
        },
        Some(scaled) => {
            let whole = scaled / scale;
            let loss = if scaled % scale == 0 {
                whole
            } else {
                whole + 1
            };
            proof {
                let p = scaled as int;
                let n = noise_scale as int;
                assert((p + n - 1) / n == if p % n == 0 {
                    p / n
                } else {
                    p / n + 1
                }) by (nonlinear_arith)
                    requires
                        p >= 0,
                        n > 0,
                ;
            }
            if loss <= u64::MAX as u128 {
                PureDPBudget::Epsilon(loss as u64)
            } else {
                PureDPBudget::Infinite
            }
        },
    }
}

/// The privacy loss of `request` in one epoch, of which
/// `epoch_relevant_events` are the relevant events and `computed_attribution`
/// is the report over all epochs.
pub fn compute_epoch_loss<Q: EpochReportRequest>(
    request: &Q,
    epoch_relevant_events: &[Q::Event],
    computed_attribution: &Q::Report,
    num_epochs: usize,
) -> (loss: PureDPBudget)
    ensures
        loss == epoch_loss(
            *request,
            epoch_relevant_events@.len() > 0,
            computed_attribution@,
            num_epochs as nat,
        ),
{
    if epoch_relevant_events.len() == 0 {
        return PureDPBudget::Epsilon(0);
    }
    let individual_sensitivity = if num_epochs == 1 {
        request.single_epoch_individual_sensitivity(computed_attribution, NormType::L1)
    } else {
        request.report_global_sensitivity()
    };
    match request.noise_scale() {
        NoiseScale::Laplace(noise_scale) => compute_privacy_loss(
            individual_sensitivity,
            noise_scale,
        ),
    }
}

/// The privacy loss of `request` at each of its sources in one epoch, of
/// which `epoch_event_sources` are the sources with a relevant event.
pub fn compute_epoch_source_losses<Q: EpochReportRequest>(
    request: &Q,
    epoch_event_sources: &Vec<String>,
    computed_attribution: &Q::Report,
    num_epochs: usize,
) -> (losses: VecMap<String, PureDPBudget>)
    ensures
        losses.wf(),
        losses.keys() == distinct(request.spec_report_uris().source_uris),
        losses@ == epoch_source_losses(
            *request,
            epoch_event_sources.deep_view(),
            computed_attribution@,
            num_epochs as nat,
        ),
{
    let mut per_source_losses: VecMap<String, PureDPBudget> = VecMap::new();
    let requested_sources = &request.report_uris().source_uris;
    let noise_scale = match request.noise_scale() {
        NoiseScale::Laplace(noise_scale) => noise_scale,
    };
    let num_requested_sources = requested_sources.len();
    let ghost requested = request.spec_report_uris().source_uris;
    let ghost present = epoch_event_sources.deep_view();
    let ghost report = computed_attribution@;
    let mut i: usize = 0;
    proof {
        assert(requested.take(0) =~= Seq::<Seq<char>>::empty());
    }
    while i < requested_sources.len()
        invariant
            i <= requested_sources.len(),
            requested == request.spec_report_uris().source_uris,
            requested == requested_sources.deep_view(),
            num_requested_sources == requested.len(),
            present == epoch_event_sources.deep_view(),
            report == computed_attribution@,
            scale_of(request.spec_noise_scale()) == noise_scale,
            per_source_losses.wf(),
            per_source_losses.keys() == distinct(requested.take(i as int)),
            forall|source: Seq<char>| #[trigger]
                per_source_losses@.contains_key(source) ==> per_source_losses@[source]
                    == source_loss(*request, present.contains(source), report, num_epochs as nat),
        decreases requested_sources.len() - i,
    {
        let source = &requested_sources[i];
        let has_relevant_events = contains_uri(epoch_event_sources, source);
        let individual_sensitivity = if !has_relevant_events {
            0u128
        } else if num_epochs == 1 && num_requested_sources == 1 {
            request.single_epoch_source_individual_sensitivity(computed_attribution, NormType::L1)
        } else {
            request.report_global_sensitivity()
        };
        let loss = compute_privacy_loss(individual_sensitivity, noise_scale);
        proof {
            assert(requested.take(i + 1).drop_last() =~= requested.take(i as int));
            assert(requested.take(i + 1).last() == source@);
        }
        per_source_losses.insert(source.clone(), loss);
        i += 1;
    }
    proof {
        assert(requested.take(i as int) =~= requested);
        per_source_losses.lemma_view();
        crate::vec_map::lemma_distinct_contains(requested);
        assert(per_source_losses@ =~= epoch_source_losses(
            *request,
            present,
            report,
            num_epochs as nat,
        ));
    }
    per_source_losses
}

} // verus!
