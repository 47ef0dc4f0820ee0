use vstd::prelude::*;

use crate::budget::pure_dp_filter::PureDPBudget;
use crate::events::traits::EventUris;
use crate::pds::quotas::StaticCapacities;
use crate::queries::traits::ReportRequestUris;

verus! {

impl StaticCapacities {
    /// Sample capacities: one for the non-collusion filters, twenty for the
    /// collusion filter, one and a half for the trigger quota and four for
    /// the source quota.
    pub fn mock() -> (caps: Self)
        ensures
            caps == (StaticCapacities {
                nc: PureDPBudget::Epsilon(1_000_000_000),
                c: PureDPBudget::Epsilon(20_000_000_000),
                qtrigger: PureDPBudget::Epsilon(1_500_000_000),
                qsource: PureDPBudget::Epsilon(4_000_000_000),
            }),
    {
        StaticCapacities::new(
            PureDPBudget::Epsilon(1_000_000_000),
            PureDPBudget::Epsilon(20_000_000_000),
            PureDPBudget::Epsilon(1_500_000_000),
            PureDPBudget::Epsilon(4_000_000_000),
        )
    }
}

impl EventUris {
    /// Sample sites of an event.
    pub fn mock() -> (uris: Self)
        ensures
            uris@.source_uri == "blog.com"@,
            uris@.trigger_uris == seq!["shoes.com"@],
            uris@.intermediary_uris == seq!["search.engine"@, "social.media"@],
            uris@.querier_uris == seq!["shoes.com"@, "adtech.com"@],
    {
        let mut trigger_uris: Vec<String> = Vec::new();
        trigger_uris.push("shoes.com".to_owned());
        let mut intermediary_uris: Vec<String> = Vec::new();
        intermediary_uris.push("search.engine".to_owned());
        intermediary_uris.push("social.media".to_owned());
        let mut querier_uris: Vec<String> = Vec::new();
        querier_uris.push("shoes.com".to_owned());
        querier_uris.push("adtech.com".to_owned());
        let uris = EventUris {
            source_uri: "blog.com".to_owned(),
            trigger_uris,
            intermediary_uris,
            querier_uris,
        };
        proof {
            assert(uris@.trigger_uris =~= seq!["shoes.com"@]);
            assert(uris@.intermediary_uris =~= seq!["search.engine"@, "social.media"@]);
            assert(uris@.querier_uris =~= seq!["shoes.com"@, "adtech.com"@]);
        }
        uris
    }
}

impl ReportRequestUris {
    /// Sample sites of a request.
    pub fn mock() -> (uris: Self)
        ensures
            uris@.trigger_uri == "shoes.com"@,
            uris@.source_uris == seq!["blog.com"@],
            uris@.intermediary_uris == seq!["search.engine"@, "social.media"@],
            uris@.querier_uris == seq!["adtech.com"@],
    {
        let mut source_uris: Vec<String> = Vec::new();
        source_uris.push("blog.com".to_owned());
        let mut intermediary_uris: Vec<String> = Vec::new();
        intermediary_uris.push("search.engine".to_owned());
        intermediary_uris.push("social.media".to_owned());
        let mut querier_uris: Vec<String> = Vec::new();
        querier_uris.push("adtech.com".to_owned());
        let uris = ReportRequestUris {
            trigger_uri: "shoes.com".to_owned(),
            source_uris,
            intermediary_uris,
            querier_uris,
        };
        proof {
            assert(uris@.source_uris =~= seq!["blog.com"@]);
            assert(uris@.intermediary_uris =~= seq!["search.engine"@, "social.media"@]);
            assert(uris@.querier_uris =~= seq!["adtech.com"@]);
        }
        uris
    }
}

} // verus!
