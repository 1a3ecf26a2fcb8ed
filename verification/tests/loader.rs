use skid_steer::{Job, Loader, NextTask, Source};
use std::cell::Cell;
use std::pin::Pin;
use tokio::sync::futures::OwnedNotified;

#[derive(Hash, Eq, PartialEq, Copy, Clone)]
struct Trivial;

impl Source for Trivial {
    type Output = ();
    type Context = ();

    fn load(self, _: &()) -> Option<()> {
        Some(())
    }
}

struct Failed;

impl Source for Failed {
    type Output = ();
    type Context = ();

    fn load(self, _: &()) -> Option<()> {
        None
    }
}

struct MustFree;

#[derive(Default)]
struct NumAliveCounter(Cell<u32>);

impl Source for MustFree {
    type Output = ();
    type Context = NumAliveCounter;

    fn load(self, context: &NumAliveCounter) -> Option<()> {
        context.0.set(context.0.get() + 1);
        Some(())
    }

    fn free(_output: (), context: &NumAliveCounter) {
        context.0.set(context.0.get() - 1);
    }
}

/// A loader whose sources and outputs are plain numbers, driven by hand.
type Numbers = Loader<u64, u64, u64>;

#[test]
fn smoke() {
    let mut loader = Loader::<Trivial, Trivial, ()>::new();
    let asset = loader.load(Trivial);
    assert!(asset.try_get(&loader).is_none());

    let load_task = loader.try_next_task().unwrap();
    assert!(loader.try_next_task().is_none());
    load_task.run(&mut loader, &());
    assert!(asset.try_get(&loader).is_some());
    assert_eq!(asset.get(&loader).unwrap(), Some(&()));
    asset.release(&mut loader);

    let free_task = loader.try_next_task().unwrap();
    assert!(loader.try_next_task().is_none());
    free_task.run(&mut loader, &());

    loader.close();
    assert!(loader.is_closed());
    assert!(matches!(loader.next_task(), NextTask::Closed));
}

#[test]
fn abandoned_by_dropped_loader() {
    let mut loader = Loader::<Trivial, Trivial, ()>::new();
    let asset = loader.load(Trivial);
    assert!(!asset.is_abandoned(&loader));
    loader.shut_down();
    assert!(asset.is_abandoned(&loader));
}

#[test]
fn abandoned_by_failed_load() {
    let mut loader = Loader::<u64, Failed, ()>::new();
    let asset = loader.load(Failed);
    assert!(!asset.is_abandoned(&loader));
    let load_task = loader.try_next_task().unwrap();
    load_task.run(&mut loader, &());
    assert!(asset.is_abandoned(&loader));
}

#[test]
fn cache() {
    let mut loader = Loader::<Trivial, Trivial, ()>::new();
    let asset = loader.load_cached(Trivial);
    let asset2 = loader.load_cached(Trivial);
    assert!(asset.ptr_eq(&asset2))
}

#[test]
fn must_free() {
    let mut loader = Loader::<u64, MustFree, ()>::new();
    let context = NumAliveCounter::default();
    let asset = loader.load(MustFree);

    assert!(!loader.is_drained());
    assert!(loader.all_assets_freed());

    let load_task = loader.try_next_task().unwrap();
    assert!(loader.try_next_task().is_none());
    load_task.run(&mut loader, &context);
    assert!(asset.try_get(&loader).is_some());
    assert_eq!(context.0.get(), 1);

    assert!(loader.drain().is_none());
    assert!(loader.is_drained());
    assert!(!loader.all_assets_freed());

    asset.release(&mut loader);
    assert!(!loader.is_drained());
    assert!(!loader.all_assets_freed());

    let free_task = loader.try_next_task().unwrap();
    assert!(loader.try_next_task().is_none());
    free_task.run(&mut loader, &context);
    assert!(loader.is_drained());
    assert!(loader.all_assets_freed());
    assert_eq!(context.0.get(), 0);
}

#[test]
fn a_new_loader_has_nothing_to_do() {
    let mut loader = Numbers::default();
    assert!(loader.is_drained());
    assert!(loader.all_assets_freed());
    assert!(!loader.is_closed());
    assert!(loader.drain().is_none());
    assert!(loader.try_next_task().is_none());
    assert!(matches!(loader.next_task(), NextTask::Pending(_)));
}

#[test]
fn tasks_come_in_the_order_of_submission() {
    let mut loader = Numbers::new();
    let assets: Vec<_> = (10..15).map(|n| loader.load(n)).collect();
    for (i, asset) in assets.iter().enumerate() {
        let (guard, job) = loader.try_next_task().unwrap().start();
        let Job::Load(source) = job else {
            panic!("expected a load")
        };
        assert_eq!(source, 10 + i as u64);
        guard.settle(&mut loader, Some(source * 2));
        assert_eq!(asset.try_get(&loader), Some(&(source * 2)));
    }
    assert!(loader.try_next_task().is_none());
}

#[test]
fn a_settled_asset_keeps_its_state() {
    let mut loader = Numbers::new();
    let good = loader.load(1);
    let bad = loader.load(2);
    assert!(good.get(&loader).is_err());
    assert!(bad.get(&loader).is_err());

    let (guard, _) = loader.try_next_task().unwrap().start();
    guard.settle(&mut loader, Some(7));
    let (guard, _) = loader.try_next_task().unwrap().start();
    guard.settle(&mut loader, None);

    for _ in 0..3 {
        assert_eq!(good.get(&loader).unwrap(), Some(&7));
        assert!(!good.is_abandoned(&loader));
        assert_eq!(bad.get(&loader).unwrap(), None);
        assert_eq!(bad.try_get(&loader), None);
        assert!(bad.is_abandoned(&loader));
        loader.clear_cache();
        loader.close();
    }
}

#[test]
fn the_last_handle_frees() {
    let mut loader = Numbers::new();
    let first = loader.load(1);
    let second = first.clone(&mut loader);
    assert!(first.ptr_eq(&second));
    let (guard, _) = loader.try_next_task().unwrap().start();
    guard.settle(&mut loader, Some(5));

    first.release(&mut loader);
    assert!(loader.try_next_task().is_none());
    assert_eq!(second.try_get(&loader), Some(&5));
    second.release(&mut loader);
    let (guard, job) = loader.try_next_task().unwrap().start();
    assert!(matches!(job, Job::Free(5)));
    assert!(!loader.all_assets_freed());
    guard.freed(&mut loader);
    assert!(loader.all_assets_freed());
    assert!(loader.try_next_task().is_none());
}

#[test]
fn an_abandoned_asset_is_not_freed() {
    let mut loader = Numbers::new();
    let asset = loader.load(1);
    let (guard, _) = loader.try_next_task().unwrap().start();
    guard.settle(&mut loader, None);
    asset.release(&mut loader);
    assert!(loader.try_next_task().is_none());
    assert!(loader.is_drained());
    assert!(loader.all_assets_freed());
}

#[test]
fn no_gap_between_load_and_free() {
    let mut loader = Numbers::new();
    let asset = loader.load(1);
    asset.release(&mut loader);
    let (guard, _) = loader.try_next_task().unwrap().start();
    let mut waiting = Box::pin(loader.drain().unwrap());
    assert!(!waiting.as_mut().enable());

    guard.settle(&mut loader, Some(9));
    assert!(!loader.is_drained());
    assert!(!waiting.as_mut().enable());
    let (guard, job) = loader.try_next_task().unwrap().start();
    assert!(matches!(job, Job::Free(9)));
    guard.freed(&mut loader);
    assert!(loader.is_drained());
    assert!(waiting.as_mut().enable());
}

#[test]
fn draining_wakes_whoever_waits() {
    let mut loader = Numbers::new();
    let _one = loader.load(1);
    let _two = loader.load(2);
    let wait = loader.drain().unwrap();

    let (guard, _) = loader.try_next_task().unwrap().start();
    guard.settle(&mut loader, Some(1));
    assert!(loader.drain().is_some());
    let (guard, _) = loader.try_next_task().unwrap().start();
    guard.settle(&mut loader, None);
    assert!(loader.drain().is_none());
    let _three = loader.load(3);
    assert!(!loader.is_drained());
    pollster::block_on(wait);
}

#[test]
fn a_wait_that_begins_later_needs_another_draining() {
    let mut loader = Numbers::new();
    let _one = loader.load(1);
    let early = loader.drain().unwrap();
    let (guard, _) = loader.try_next_task().unwrap().start();
    guard.settle(&mut loader, Some(1));
    let _two = loader.load(2);
    let mut late = Box::pin(loader.drain().unwrap());
    pollster::block_on(early);
    assert!(!late.as_mut().enable());
    let (guard, _) = loader.try_next_task().unwrap().start();
    guard.settle(&mut loader, None);
    assert!(late.as_mut().enable());
}

fn task_wait(loader: &mut Numbers) -> Pin<Box<OwnedNotified>> {
    let NextTask::Pending(wait) = loader.next_task() else {
        panic!("expected to wait")
    };
    let mut wait = Box::pin(wait);
    assert!(!wait.as_mut().enable());
    wait
}

#[test]
fn a_new_task_wakes_whoever_waits_for_one() {
    let mut loader = Numbers::new();
    let mut wait = task_wait(&mut loader);
    let asset = loader.load(1);
    assert!(wait.as_mut().enable());
    let (guard, _) = loader.try_next_task().unwrap().start();
    guard.settle(&mut loader, Some(1));
    let mut wait = task_wait(&mut loader);
    asset.release(&mut loader);
    assert!(wait.as_mut().enable());
    assert!(matches!(loader.next_task(), NextTask::Task(_)));
}

#[test]
fn clearing_the_cache_wakes_whoever_waits_for_a_task() {
    let mut loader = Numbers::new();
    let asset = loader.load_cached(1);
    let (guard, _) = loader.try_next_task().unwrap().start();
    guard.settle(&mut loader, Some(1));
    asset.release(&mut loader);
    let mut wait = task_wait(&mut loader);
    loader.clear_cache();
    assert!(wait.as_mut().enable());
    assert!(matches!(loader.next_task(), NextTask::Task(_)));
}

#[test]
fn closing_wakes_whoever_waits_for_a_task() {
    let mut loader = Numbers::new();
    let mut wait = task_wait(&mut loader);
    loader.close();
    assert!(wait.as_mut().enable());
    assert!(matches!(loader.next_task(), NextTask::Closed));
}

#[test]
fn closing_again_wakes_nobody() {
    let mut loader = Numbers::new();
    let asset = loader.load(1);
    loader.close();
    let mut wait = Box::pin(asset.get(&loader).unwrap_err());
    loader.close();
    assert!(!wait.as_mut().enable());
    loader.shut_down();
    assert!(wait.as_mut().enable());
}

#[test]
fn settling_wakes_whoever_waits_for_an_asset() {
    let mut loader = Numbers::new();
    let loaded = loader.load(1);
    let failed = loader.load(2);
    let cancelled = loader.load(3);
    let queued = loader.load(4);
    for (asset, outcome) in [(&loaded, Some(7)), (&failed, None)] {
        let (guard, _) = loader.try_next_task().unwrap().start();
        let mut wait = Box::pin(asset.get(&loader).unwrap_err());
        assert!(!wait.as_mut().enable());
        guard.settle(&mut loader, outcome);
        assert!(wait.as_mut().enable());
        assert_eq!(asset.get(&loader).unwrap(), outcome.as_ref());
    }
    let (guard, _) = loader.try_next_task().unwrap().start();
    let wait = cancelled.get(&loader).unwrap_err();
    guard.cancel(&mut loader);
    pollster::block_on(wait);
    assert_eq!(cancelled.get(&loader).unwrap(), None);
    let wait = queued.get(&loader).unwrap_err();
    loader.shut_down();
    pollster::block_on(wait);
    assert_eq!(queued.get(&loader).unwrap(), None);
}

#[test]
fn a_dropped_load_abandons_its_asset() {
    let mut loader = Numbers::new();
    let asset = loader.load(1);
    let (guard, _) = loader.try_next_task().unwrap().start();
    guard.cancel(&mut loader);
    assert!(asset.is_abandoned(&loader));
    assert!(loader.is_drained());
}

#[test]
fn a_dropped_disposal_is_over_but_frees_nothing() {
    let mut loader = Numbers::new();
    let asset = loader.load(1);
    let (guard, _) = loader.try_next_task().unwrap().start();
    guard.settle(&mut loader, Some(1));
    asset.release(&mut loader);
    let (guard, _) = loader.try_next_task().unwrap().start();
    let wait = loader.drain().unwrap();
    guard.cancel(&mut loader);
    pollster::block_on(wait);
    assert!(loader.is_drained());
    assert!(!loader.all_assets_freed());
    assert!(loader.try_next_task().is_none());
}

#[test]
fn a_closed_loader_abandons_loads() {
    let mut loader = Numbers::new();
    loader.close();
    let asset = loader.load(1);
    assert!(asset.is_abandoned(&loader));
    assert!(loader.is_drained());
    assert!(loader.try_next_task().is_none());
}

#[test]
fn a_closed_loader_tells_callers_to_shut_down() {
    let mut loader = Numbers::new();
    let one = loader.load(1);
    assert!(!loader.is_closed());
    loader.close();
    loader.close();
    for _ in 0..2 {
        assert!(matches!(loader.next_task(), NextTask::Closed));
    }
    assert!(!loader.is_drained());
    assert!(!one.is_abandoned(&loader));
    loader.shut_down();
    assert!(one.is_abandoned(&loader));
}

#[test]
fn a_closed_loader_runs_dry() {
    let mut loader = Numbers::new();
    let one = loader.load(1);
    let two = loader.load(2);
    loader.close();
    let late = loader.load(3);
    assert!(late.is_abandoned(&loader));

    for asset in [&one, &two] {
        assert!(matches!(loader.next_task(), NextTask::Closed));
        let (guard, _) = loader.try_next_task().unwrap().start();
        guard.settle(&mut loader, Some(4));
        assert_eq!(asset.try_get(&loader), Some(&4));
    }
    assert!(loader.try_next_task().is_none());
    assert!(matches!(loader.next_task(), NextTask::Closed));
    assert!(loader.is_drained());
}

#[test]
fn a_closed_loader_loses_disposals() {
    let mut loader = Numbers::new();
    let asset = loader.load(1);
    let (guard, _) = loader.try_next_task().unwrap().start();
    guard.settle(&mut loader, Some(1));
    assert!(loader.is_drained());
    loader.close();
    asset.release(&mut loader);
    assert!(loader.try_next_task().is_none());
    assert!(loader.is_drained());
    assert!(loader.drain().is_none());
    assert!(!loader.all_assets_freed());
}

#[test]
fn a_lost_disposal_does_not_hide_running_tasks() {
    let mut loader = Numbers::new();
    let asset = loader.load(1);
    let other = loader.load_cached(2);
    let last = loader.load(3);
    for n in [1, 2] {
        let (guard, _) = loader.try_next_task().unwrap().start();
        guard.settle(&mut loader, Some(n));
    }
    other.release(&mut loader);
    let (guard, _) = loader.try_next_task().unwrap().start();
    loader.close();
    asset.release(&mut loader);
    loader.clear_cache();
    assert!(!loader.is_drained());
    last.release(&mut loader);
    guard.settle(&mut loader, Some(3));
    assert!(loader.is_drained());
    assert!(!loader.all_assets_freed());
}

#[test]
fn closing_is_safe_once_all_is_freed() {
    let mut loader = Numbers::new();
    let asset = loader.load(1);
    let (guard, _) = loader.try_next_task().unwrap().start();
    guard.settle(&mut loader, Some(1));
    asset.release(&mut loader);
    let (guard, _) = loader.try_next_task().unwrap().start();
    guard.freed(&mut loader);
    assert!(loader.is_drained() && loader.all_assets_freed());
    loader.close();
    loader.load(2).release(&mut loader);
    loader.clear_cache();
    assert!(loader.is_drained() && loader.all_assets_freed());
}

#[test]
fn each_key_has_an_asset_of_its_own() {
    let mut loader = Numbers::new();
    let one = loader.load_cached(1);
    let two = loader.load_cached(2);
    assert!(!one.ptr_eq(&two));
    let (guard, job) = loader.try_next_task().unwrap().start();
    assert!(matches!(job, Job::Load(1)));
    guard.settle(&mut loader, Some(11));
    let again = loader.load_cached(1);
    assert!(again.ptr_eq(&one));
    assert_eq!(again.try_get(&loader), Some(&11));
    let (_, job) = loader.try_next_task().unwrap().start();
    assert!(matches!(job, Job::Load(2)));
    assert!(loader.try_next_task().is_none());
}

#[test]
fn what_is_cached_can_be_had_without_a_source() {
    let mut loader = Numbers::new();
    assert!(loader.get_cached(&1).is_none());
    let one = loader.load_cached(1);
    let again = loader.get_cached(&1).unwrap();
    assert!(again.ptr_eq(&one));
    assert!(loader.get_cached(&2).is_none());
    assert!(loader.try_next_task().is_some());
    assert!(loader.try_next_task().is_none());
}

#[test]
fn a_key_can_stand_for_another_source() {
    let mut loader = Loader::<(u64, u64), u64, u64>::new();
    let one = loader.load_cached_inner((1, 2), 30);
    let two = loader.load_cached_inner((1, 2), 40);
    assert!(one.ptr_eq(&two));
    let (_, job) = loader.try_next_task().unwrap().start();
    assert!(matches!(job, Job::Load(30)));
    assert!(loader.try_next_task().is_none());
}

#[test]
fn the_cache_keeps_an_asset_until_cleared() {
    let mut loader = Numbers::new();
    let one = loader.load_cached(1);
    let two = loader.load_cached(2);
    let three = loader.load_cached(3);
    for n in 1..4 {
        let (guard, _) = loader.try_next_task().unwrap().start();
        guard.settle(&mut loader, Some(n * 10));
    }
    one.release(&mut loader);
    three.release(&mut loader);
    assert!(loader.try_next_task().is_none());

    loader.clear_cache();
    for n in [1, 3] {
        let (guard, job) = loader.try_next_task().unwrap().start();
        let Job::Free(data) = job else {
            panic!("expected a disposal")
        };
        assert_eq!(data, n * 10);
        guard.freed(&mut loader);
    }
    assert!(loader.try_next_task().is_none());
    assert_eq!(two.try_get(&loader), Some(&20));

    let anew = loader.load_cached(2);
    assert!(!anew.ptr_eq(&two));
    let (_, job) = loader.try_next_task().unwrap().start();
    assert!(matches!(job, Job::Load(2)));
}

#[test]
fn assets_outlive_the_loader() {
    let mut loader = Numbers::new();
    let loaded = loader.load(1);
    let cached = loader.load_cached(2);
    for n in [5, 6] {
        let (guard, _) = loader.try_next_task().unwrap().start();
        guard.settle(&mut loader, Some(n));
    }
    let freed = loader.load(3);
    let (guard, _) = loader.try_next_task().unwrap().start();
    guard.settle(&mut loader, Some(7));
    freed.release(&mut loader);
    let queued = loader.load(4);
    loader.load(5).release(&mut loader);

    loader.shut_down();
    assert!(loader.is_closed());
    assert_eq!(loaded.try_get(&loader), Some(&5));
    assert_eq!(cached.try_get(&loader), Some(&6));
    assert!(queued.is_abandoned(&loader));
    let copy = loaded.clone(&mut loader);
    loaded.release(&mut loader);
    assert_eq!(copy.try_get(&loader), Some(&5));
    copy.release(&mut loader);
    cached.release(&mut loader);
    queued.release(&mut loader);
}

#[test]
fn tasks_that_were_taken_outlive_the_loader() {
    let mut loader = Numbers::new();
    let old = loader.load(0);
    let (guard, _) = loader.try_next_task().unwrap().start();
    guard.settle(&mut loader, Some(4));
    old.release(&mut loader);
    let assets: Vec<_> = (1..5).map(|n| loader.load(n)).collect();
    let (disposal, job) = loader.try_next_task().unwrap().start();
    assert!(matches!(job, Job::Free(4)));
    let (loading, _) = loader.try_next_task().unwrap().start();
    let (failing, _) = loader.try_next_task().unwrap().start();
    let (dropped, _) = loader.try_next_task().unwrap().start();

    loader.shut_down();
    let wait = assets[0].get(&loader).unwrap_err();
    assert!(!assets[1].is_abandoned(&loader));
    assert!(!assets[2].is_abandoned(&loader));
    assert!(assets[3].is_abandoned(&loader));

    loading.settle(&mut loader, Some(5));
    failing.settle(&mut loader, None);
    dropped.cancel(&mut loader);
    disposal.freed(&mut loader);
    pollster::block_on(wait);
    assert_eq!(assets[0].try_get(&loader), Some(&5));
    assert!(assets[1].is_abandoned(&loader));
    assert!(assets[2].is_abandoned(&loader));
    for asset in assets {
        asset.release(&mut loader);
    }
}

fn assert_send<T: Send>(_: &T) {}

#[test]
fn a_loader_can_move_between_threads() {
    let mut loader = Numbers::new();
    assert_send(&loader);
    let asset = loader.load(1);
    assert_send(&asset);
    assert_send(&loader.try_next_task().unwrap());
}

#[test]
fn a_young_loader_has_room() {
    let mut loader = Numbers::new();
    assert!(loader.has_room());
    assert!(loader.can_load_cached(&1));
    let asset = loader.load_cached(1);
    assert!(loader.has_room());
    assert!(loader.can_load_cached(&1));
    assert!(asset.can_clone(&loader));
}
