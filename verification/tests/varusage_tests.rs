use sourceror::frontendvar::VarLocId;
use sourceror::varusage::{
    clone_varusages, from_modified, from_used, merge_parallel, merge_series,
    split_off_address_taken_vars, wrap_closure, Usage, UsageMap,
};

fn loc(depth: usize, index: usize) -> VarLocId {
    VarLocId { depth, index }
}

fn map(entries: &[(VarLocId, Usage)]) -> UsageMap {
    UsageMap { entries: entries.to_vec() }
}

#[test]
fn join_is_the_graver_usage() {
    assert_eq!(Usage::Used.join(Usage::Used), Usage::Used);
    assert_eq!(Usage::Used.join(Usage::UsedAndModified), Usage::UsedAndModified);
    assert_eq!(Usage::UsedAndModified.join(Usage::Used), Usage::UsedAndModified);
    assert_eq!(Usage::UsedAndModified.join(Usage::AddressTaken), Usage::AddressTaken);
    assert_eq!(Usage::AddressTaken.join(Usage::Used), Usage::AddressTaken);
}

#[test]
fn locations_are_ordered_by_depth_and_index() {
    assert!(loc(0, 9).lt(loc(1, 0)));
    assert!(loc(1, 0).lt(loc(1, 1)));
    assert!(!loc(1, 1).lt(loc(1, 1)));
    assert!(!loc(2, 0).lt(loc(1, 5)));
}

#[test]
fn single_usages() {
    assert_eq!(from_used(loc(1, 2)).entries, vec![(loc(1, 2), Usage::Used)]);
    assert_eq!(from_modified(loc(1, 2)).entries, vec![(loc(1, 2), Usage::UsedAndModified)]);
}

#[test]
fn merge_keeps_the_order_and_joins_what_both_use() {
    let a = map(&[(loc(1, 0), Usage::Used), (loc(1, 2), Usage::UsedAndModified), (loc(2, 0), Usage::Used)]);
    let b = map(&[(loc(1, 1), Usage::Used), (loc(1, 2), Usage::Used), (loc(2, 0), Usage::AddressTaken)]);
    let merged = merge_series(a, b);
    assert_eq!(
        merged.entries,
        vec![
            (loc(1, 0), Usage::Used),
            (loc(1, 1), Usage::Used),
            (loc(1, 2), Usage::UsedAndModified),
            (loc(2, 0), Usage::AddressTaken),
        ]
    );
    assert_eq!(merged.get(loc(1, 2)), Some(Usage::UsedAndModified));
    assert_eq!(merged.get(loc(3, 0)), None);
}

#[test]
fn use_after_modification_stays_a_modification() {
    let merged = merge_series(from_modified(loc(1, 0)), from_used(loc(1, 0)));
    assert_eq!(merged.entries, vec![(loc(1, 0), Usage::UsedAndModified)]);
    let merged = merge_parallel(from_used(loc(1, 0)), from_modified(loc(1, 0)));
    assert_eq!(merged.entries, vec![(loc(1, 0), Usage::UsedAndModified)]);
}

#[test]
fn merge_with_nothing_changes_nothing() {
    let a = map(&[(loc(1, 0), Usage::Used)]);
    assert_eq!(merge_series(a, UsageMap::new()).entries, vec![(loc(1, 0), Usage::Used)]);
    let b = map(&[(loc(1, 0), Usage::Used)]);
    assert_eq!(merge_series(UsageMap::new(), b).entries, vec![(loc(1, 0), Usage::Used)]);
    assert!(merge_series(UsageMap::new(), UsageMap::new()).is_empty());
}

#[test]
fn closure_takes_the_address_of_all_it_uses() {
    let wrapped = wrap_closure(map(&[(loc(1, 0), Usage::Used), (loc(1, 3), Usage::UsedAndModified)]));
    assert_eq!(wrapped.entries, vec![(loc(1, 0), Usage::AddressTaken), (loc(1, 3), Usage::AddressTaken)]);
}

#[test]
fn split_off_takes_out_the_scope_and_reports_what_lives_in_the_heap() {
    let mut usages = map(&[
        (loc(1, 0), Usage::AddressTaken),
        (loc(1, 1), Usage::Used),
        (loc(2, 0), Usage::Used),
        (loc(2, 1), Usage::AddressTaken),
        (loc(2, 4), Usage::AddressTaken),
    ]);
    let taken = split_off_address_taken_vars(&mut usages, 2);
    assert_eq!(taken, vec![1, 4]);
    assert_eq!(usages.entries, vec![(loc(1, 0), Usage::AddressTaken), (loc(1, 1), Usage::Used)]);
    assert_eq!(clone_varusages(&usages), vec![loc(1, 0), loc(1, 1)]);
    assert_eq!(usages.len(), 2);
}

#[test]
fn split_off_of_an_unused_scope_reports_nothing() {
    let mut usages = map(&[(loc(1, 0), Usage::Used)]);
    assert!(split_off_address_taken_vars(&mut usages, 2).is_empty());
    assert_eq!(usages.entries, vec![(loc(1, 0), Usage::Used)]);
}
