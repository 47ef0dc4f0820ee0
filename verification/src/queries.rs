//! Report requests and the reports computed for them.

pub mod histogram;
pub mod ppa_histogram;
pub mod simple_last_touch_histogram;
pub mod traits;
