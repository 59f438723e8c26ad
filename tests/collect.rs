use async_iter_ext::{Collector, SyncIter};

fn drain<T>(hint: (usize, Option<usize>), source: Vec<T>) -> (Vec<T>, usize) {
    let mut upstream = source.into_iter();
    let mut pulls = 0;
    let mut collector = Collector::new(hint);
    while collector.wants_more() {
        pulls += 1;
        collector.push_pulled(upstream.next());
    }
    (collector.into_items(), pulls)
}

fn sync_to_vec<T>(mut s: SyncIter<T>) -> Vec<T> {
    let mut out = Vec::new();
    while let Some(x) = s.next() {
        out.push(x);
    }
    out
}

#[test]
fn collect_with_exact_bound_keeps_everything() {
    let (items, pulls) = drain((3, Some(3)), vec![1, 2, 3]);
    assert_eq!(items, vec![1, 2, 3]);
    assert_eq!(pulls, 3);
}

#[test]
fn collect_without_bound_pulls_until_exhaustion() {
    let (items, pulls) = drain((0, None), vec![7, 8, 9, 10]);
    assert_eq!(items, vec![7, 8, 9, 10]);
    assert_eq!(pulls, 5);
}

#[test]
fn collect_with_loose_bound_stops_at_exhaustion() {
    let (items, pulls) = drain((0, Some(10)), vec![1, 2]);
    assert_eq!(items, vec![1, 2]);
    assert_eq!(pulls, 3);
}

#[test]
fn collect_truncates_at_declared_upper_bound() {
    let (items, pulls) = drain((0, Some(2)), vec![1, 2, 3, 4, 5]);
    assert_eq!(items, vec![1, 2]);
    assert_eq!(pulls, 2);
}

#[test]
fn collect_with_zero_bound_pulls_nothing() {
    let (items, pulls) = drain((0, Some(0)), vec![1, 2, 3]);
    assert!(items.is_empty());
    assert_eq!(pulls, 0);
}

#[test]
fn collect_of_empty_source() {
    let (items, pulls) = drain::<u8>((0, None), vec![]);
    assert!(items.is_empty());
    assert_eq!(pulls, 1);
}

#[test]
fn sync_iter_yields_what_collection_gives() {
    let mut a = Collector::new((0, None));
    let mut b = Collector::new((0, None));
    for x in [5, 1, 4] {
        a.push_pulled(Some(x));
        b.push_pulled(Some(x));
    }
    a.push_pulled(None);
    b.push_pulled(None);
    assert!(!a.wants_more());
    assert_eq!(sync_to_vec(a.into_sync_iter()), b.into_items());
}

#[test]
fn sync_iter_is_forward_only() {
    let mut s = SyncIter::new(vec!["a", "b"]);
    assert_eq!(s.next(), Some("a"));
    assert_eq!(s.next(), Some("b"));
    assert_eq!(s.next(), None);
    assert_eq!(s.next(), None);
}
