use std::collections::HashMap;

use pdslib::epoch::{days_ago_to_epoch, timestamp_to_epoch, DAY_IN_MILLI, EPOCH_DURATION_MILLI};
use pdslib::filter_data::filter_data;
use pdslib::pds::quotas::{FilterId, PdsFilterStatus};
use pdslib::queries::histogram::{sum_squares, sum_values};
use pdslib::mechanisms::ceil_sqrt_u128;
use pdslib::vec_map::{MapKey, VecMap};

#[test]
fn vec_map_starts_empty() {
    let map: VecMap<u64, u64> = VecMap::new();
    assert_eq!(map.len(), 0);
    assert!(map.is_empty());
    assert_eq!(map.get(&1), None);
    assert!(!map.contains_key(&1));
    assert_eq!(map.position(&1), None);
}

#[test]
fn vec_map_insert_adds_or_replaces() {
    let mut map: VecMap<String, u64> = VecMap::new();
    map.insert("a".to_string(), 1);
    map.insert("b".to_string(), 2);
    map.insert("c".to_string(), 3);
    assert_eq!(map.len(), 3);
    assert!(!map.is_empty());

    // A key that is there keeps its place and gets the new value.
    map.insert("b".to_string(), 20);
    assert_eq!(map.len(), 3);
    assert_eq!(map.get(&"a".to_string()), Some(&1));
    assert_eq!(map.get(&"b".to_string()), Some(&20));
    assert_eq!(map.get(&"c".to_string()), Some(&3));
    assert_eq!(map.get(&"d".to_string()), None);
    assert_eq!(map.position(&"b".to_string()), Some(1));
    assert_eq!(map.key_at(0), "a");
    assert_eq!(map.key_at(1), "b");
    assert_eq!(map.key_at(2), "c");
    assert_eq!(*map.value_at(1), 20);
}

#[test]
fn vec_map_remove_keeps_the_order_of_the_rest() {
    let mut map: VecMap<u64, u64> = VecMap::new();
    for key in [5, 3, 9, 7] {
        map.insert(key, key * 10);
    }
    assert_eq!(map.remove(&3), Some(30));
    assert_eq!(map.remove(&3), None);
    assert_eq!(map.len(), 3);
    assert_eq!(*map.key_at(0), 5);
    assert_eq!(*map.key_at(1), 9);
    assert_eq!(*map.key_at(2), 7);
    assert!(!map.contains_key(&3));
    assert!(map.contains_key(&9));
    assert_eq!(map.get(&7), Some(&70));
}

#[test]
fn histogram_sums() {
    let mut bins: HashMap<u64, u64> = HashMap::new();
    bins.insert(1, 3);
    bins.insert(2, 4);
    bins.insert(3, 12);
    assert_eq!(sum_values(&bins), 19);
    assert_eq!(sum_squares(&bins), Some(169));
    bins.insert(1, 100);
    assert_eq!(sum_values(&bins), 116);

    let empty: HashMap<u64, u64> = HashMap::new();
    assert_eq!(sum_values(&empty), 0);
    assert_eq!(sum_squares(&empty), Some(0));
}

#[test]
fn histogram_sums_beyond_u64() {
    let mut bins: HashMap<u64, u64> = HashMap::new();
    bins.insert(1, u64::MAX);
    bins.insert(2, u64::MAX);
    assert_eq!(sum_values(&bins), 2 * (u64::MAX as u128));
    // Two squares of the greatest value are beyond the range.
    assert_eq!(sum_squares(&bins), None);
    let mut one: HashMap<u64, u64> = HashMap::new();
    one.insert(1, u64::MAX);
    assert_eq!(sum_squares(&one), Some((u64::MAX as u128) * (u64::MAX as u128)));
}

#[test]
fn square_roots_are_rounded_up() {
    assert_eq!(ceil_sqrt_u128(0), 0);
    assert_eq!(ceil_sqrt_u128(1), 1);
    assert_eq!(ceil_sqrt_u128(2), 2);
    assert_eq!(ceil_sqrt_u128(4), 2);
    assert_eq!(ceil_sqrt_u128(5), 3);
    assert_eq!(ceil_sqrt_u128(169), 13);
    assert_eq!(ceil_sqrt_u128(170), 14);
    assert_eq!(ceil_sqrt_u128(1u128 << 64), 1u128 << 32);
    assert_eq!(ceil_sqrt_u128((1u128 << 64) + 1), (1u128 << 32) + 1);
    let top = u64::MAX as u128;
    assert_eq!(ceil_sqrt_u128(top * top), top);
    assert_eq!(ceil_sqrt_u128(top * top + 1), top + 1);
    assert_eq!(ceil_sqrt_u128(u128::MAX), 1u128 << 64);
}

#[test]
fn filter_ids_are_keys() {
    let nc: FilterId = FilterId::Nc(1, "a".to_string());
    assert!(nc.same_key(&FilterId::Nc(1, "a".to_string())));
    assert!(!nc.same_key(&FilterId::Nc(2, "a".to_string())));
    assert!(!nc.same_key(&FilterId::Nc(1, "b".to_string())));
    assert!(!nc.same_key(&FilterId::QTrigger(1, "a".to_string())));
    assert!(!nc.same_key(&FilterId::QSource(1, "a".to_string())));
    assert!(!nc.same_key(&FilterId::C(1)));
    let c: FilterId = FilterId::C(4);
    assert!(c.same_key(&FilterId::C(4)));
    assert!(!c.same_key(&FilterId::C(5)));
    let qsource: FilterId = FilterId::QSource(4, "s".to_string());
    assert!(qsource.same_key(&qsource.copy_key()));
    assert_eq!(qsource.copy_key(), qsource);
    let qtrigger: FilterId = FilterId::QTrigger(4, "s".to_string());
    assert!(qtrigger.same_key(&qtrigger.copy_key()));
    assert!(!qtrigger.same_key(&qsource));
    assert_eq!(c.copy_key(), FilterId::C(4));
}

#[test]
fn default_status_is_out_of_budget_without_filters() {
    let status: PdsFilterStatus<FilterId> = PdsFilterStatus::default();
    assert_eq!(status, PdsFilterStatus::OutOfBudget(vec![]));
}

#[test]
fn epochs_are_weeks() {
    assert_eq!(DAY_IN_MILLI, 1000 * 60 * 60 * 24);
    assert_eq!(EPOCH_DURATION_MILLI, 7 * DAY_IN_MILLI);
    assert_eq!(timestamp_to_epoch(0), 0);
    assert_eq!(timestamp_to_epoch(EPOCH_DURATION_MILLI - 1), 0);
    assert_eq!(timestamp_to_epoch(EPOCH_DURATION_MILLI), 1);
    assert_eq!(timestamp_to_epoch(1_700_000_000_000), 2810);
    assert_eq!(days_ago_to_epoch(1_700_000_000_000, 0), 2810);
    assert_eq!(days_ago_to_epoch(1_700_000_000_000, 7), 2809);
    assert_eq!(days_ago_to_epoch(10 * DAY_IN_MILLI, 10), 0);
}

#[test]
fn filter_data_holds_hash_and_index() {
    assert_eq!(filter_data(0, 0), 0);
    assert_eq!(filter_data(1, 2), (1u64 << 32) | 2);
    assert_eq!(filter_data(0xdead_beef, 0x559), 0xdead_beef_0000_0559);
    assert_eq!(filter_data(u32::MAX, u32::MAX as u64), u64::MAX);
}

#[test]
fn filter_ids_by_the_name_of_their_kind() {
    let uri = || "a.example".to_string();
    let kind = |name: &str| FilterId::from_kind(&name.to_string(), 3, uri());
    assert_eq!(kind("Nc"), Some(FilterId::Nc(3, uri())));
    assert_eq!(kind("C"), Some(FilterId::C(3)));
    assert_eq!(kind("QTrigger"), Some(FilterId::QTrigger(3, uri())));
    assert_eq!(kind("QSource"), Some(FilterId::QSource(3, uri())));
    assert_eq!(kind("nc"), None);
    assert_eq!(kind(""), None);
    assert_eq!(kind("QSources"), None);
}
