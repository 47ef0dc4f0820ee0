use vstd::prelude::*;

verus! {

/// The one error type of the service. Storage failures carry no payload, so
/// that a failing backend cannot reveal the state of any filter.
#[derive(Clone, Copy, Debug, PartialEq, Eq, Structural)]
pub enum PdsError {
    /// The filter storage backend failed.
    FilterStorage,
    /// The event storage backend failed.
    EventStorage,
    /// The request names more than one querier.
    MultipleQueriers,
    /// The request names no querier, or the query produced no report for it.
    MissingQuerier,
    /// A filter refused a deduction that the dry run had accepted.
    CommitRefused,
    /// The requested epsilon is zero.
    EpsilonNotPositive,
    /// An attributable value is zero.
    ValueNotPositive,
    /// The noise scale is zero.
    NoiseScaleNotPositive,
    /// The histogram has no bins.
    EmptyHistogram,
}

} // verus!
