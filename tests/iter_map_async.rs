use async_iter_ext::combinator::map::{map_pulled, MapStep};
use async_iter_ext::{AsyncMap, Collector, SyncIter};

fn next_mapped<T, B>(upstream: &mut dyn FnMut() -> Option<T>, f: &dyn Fn(T) -> B) -> Option<B> {
    match map_pulled(upstream()) {
        MapStep::Apply(x) => Some(f(x)),
        MapStep::Exhausted => None,
    }
}

fn collect<T>(hint: (usize, Option<usize>), next: &mut dyn FnMut() -> Option<T>) -> Collector<T> {
    let mut collector = Collector::new(hint);
    while collector.wants_more() {
        collector.push_pulled(next());
    }
    collector
}

fn multiply_item(value: &i32) -> i32 {
    value * 2
}

fn doubled(value: i32) -> i32 {
    value * 2
}

#[test]
fn test_single_multiply() {
    let items = [1, 2, 3, 4];
    let mut upstream = items.iter();
    let hint = upstream.size_hint();
    let mut up = || upstream.next();
    let mut mapped = || next_mapped(&mut up, &multiply_item);
    let mapped_items_vec = collect(hint, &mut mapped).into_items();

    assert_eq!(mapped_items_vec.len(), items.len());
    assert_eq!(mapped_items_vec, vec![2, 4, 6, 8]);
}

#[test]
fn test_multiple_multiply() {
    let items = [1, 2, 3, 4];
    let mut upstream = items.iter();
    let hint = upstream.size_hint();
    let mut up = || upstream.next();
    let mut first = || next_mapped(&mut up, &multiply_item);
    let mut second = || next_mapped(&mut first, &doubled);
    let mut third = || next_mapped(&mut second, &doubled);
    let mapped_items_vec = collect(hint, &mut third).into_items();

    assert_eq!(mapped_items_vec.len(), items.len());
    assert_eq!(mapped_items_vec, vec![8, 16, 24, 32]);
}

#[test]
fn test_async_map_then_sync_map() {
    let items = [1, 2, 3, 4];
    let mut upstream = items.iter();
    let hint = upstream.size_hint();
    let mut up = || upstream.next();
    let mut mapped = || next_mapped(&mut up, &multiply_item);
    let mut drained: SyncIter<i32> = collect(hint, &mut mapped).into_sync_iter();
    let mut async_and_then_sync = Vec::new();
    while let Some(item) = drained.next() {
        async_and_then_sync.push(item * 2);
    }

    assert_eq!(async_and_then_sync.len(), items.len());
    assert_eq!(async_and_then_sync, vec![4, 8, 12, 16]);
}

#[test]
fn awaited_map_iterates_as_collected_map() {
    let items = vec![3, 1, 2];
    let mut a = items.clone().into_iter();
    let mut up_a = || a.next();
    let mut map_a = || next_mapped(&mut up_a, &doubled);
    let collected = collect((3, Some(3)), &mut map_a).into_items();

    let mut b = items.into_iter();
    let mut up_b = || b.next();
    let mut map_b = || next_mapped(&mut up_b, &doubled);
    let mut awaited = collect((3, Some(3)), &mut map_b).into_sync_iter();
    let mut iterated = Vec::new();
    while let Some(x) = awaited.next() {
        iterated.push(x);
    }
    assert_eq!(iterated, collected);
    assert_eq!(collected, vec![6, 2, 4]);
}

#[test]
fn map_steps() {
    assert!(matches!(map_pulled(Some(4)), MapStep::Apply(4)));
    assert!(matches!(map_pulled::<u8>(None), MapStep::Exhausted));
}

#[test]
fn map_holds_its_parts() {
    let m = AsyncMap::new(vec![1u8, 2], 7u32);
    assert_eq!(m.iter, vec![1, 2]);
    assert_eq!(m.f, 7);
}
