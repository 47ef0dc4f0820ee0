//! The filter data of an event: the hash of its ad or campaign in the upper
//! half, and its histogram index in the lower half.

use vstd::prelude::*;

verus! {

/// The filter data for the given hash and index. An index that needs more
/// than the lower half shares bits with the hash.
pub fn filter_data(ad_hash: u32, index: u64) -> (data: u64)
    ensures
        data == ((ad_hash as u64) << 32) | index,
{
    ((ad_hash as u64) << 32) | index
}

} // verus!
