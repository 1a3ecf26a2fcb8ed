//! The loader: dispatches work to populate asset handles with data.
use crate::asset::{Asset, AssetShared};
use crate::cache::{cache_get, cache_insert};
use crate::channel::WorkQueue;
use crate::model::{AssetModel, LoaderModel};
use crate::notify::{notified_since, Bell};
use crate::task::{Job, Task};
use std::collections::HashMap;
use std::hash::Hash;
use tokio::sync::futures::OwnedNotified;
use vstd::prelude::*;
use vstd::std_specs::hash::obeys_key_model;

verus! {

broadcast use vstd::std_specs::hash::group_hash_axioms;

/// Dispatches work to populate [`Asset`] handles with data.
///
/// A loader constructs handles that refer to data while it's [loaded](Self::load) in the
/// background. For any work to happen, [`next_task`](Self::next_task) must be called regularly,
/// and the [`Task`]s it yields must be [run](Task::run), or [started](Task::start) and told the
/// loader how they ended.
///
/// Loads of sources `S` yield outputs `T`. Cached assets are found by keys `K`.
///
/// The loader keeps the assets themselves. A handle is a token that is of use only together with
/// the loader that gave it out, and is given back by [`Asset::release`].
pub struct Loader<K, S, T> {
    work: WorkQueue,
    /// What each queued task has to do.
    jobs: HashMap<u64, Job<S, T>>,
    /// The assets that something still refers to.
    assets: HashMap<u64, AssetShared<T>>,
    cache: foldhash::HashMap<K, u64>,
    /// The assets that the cache refers to, in the order in which they entered it.
    cached: Vec<u64>,
    active_task_count: u64,
    /// Rung whenever the last active task finishes.
    drained: Bell,
    /// Rung whenever a task is submitted, a load that was taken is settled, or the loader is closed
    /// or dropped.
    changed: Bell,
    live_asset_count: u64,
    next_id: u64,
    /// Whether the loader has not been dropped. The assets that are still held, and the tasks that
    /// were taken, outlive it.
    alive: bool,
    taken: Ghost<Set<u64>>,
    lost: Ghost<Set<u64>>,
    live: Ghost<Set<u64>>,
}

impl<K, S, T> View for Loader<K, S, T> {
    type V = LoaderModel<K, S, T>;

    closed spec fn view(&self) -> LoaderModel<K, S, T> {
        LoaderModel {
            assets: self.assets@.map_values(|asset: AssetShared<T>| asset@),
            queue: self.work.tickets(),
            jobs: self.jobs@,
            taken: self.taken@,
            lost: self.lost@,
            live: self.live@,
            cache: self.cache@,
            cached: self.cached@,
            closed: self.work.closed(),
            alive: self.alive,
            wakes: self.drained.rings(),
            changes: self.changed.rings(),
            next_id: self.next_id as nat,
        }
    }
}

impl<K, S, T> Loader<K, S, T> {
    /// The parts are sound.
    spec fn rep(&self) -> bool {
        &&& self.work.wf()
        &&& forall|id: u64| #[trigger] self.assets@.contains_key(id) ==> self.assets@[id].wf()
    }

    /// The counters count what they should, as long as there is anyone to ask.
    spec fn counts(&self) -> bool {
        self.alive ==> {
            &&& self.active_task_count == self@.active()
            &&& self.live_asset_count == self@.live.len()
        }
    }

    /// A loader as every public operation leaves it.
    pub closed spec fn wf(&self) -> bool {
        &&& self.rep()
        &&& self@.inv()
        &&& self.counts()
    }

    /// What is promised of the state of a loader holds between any two operations on it.
    pub proof fn law_invariant(&self)
        requires
            self.wf(),
        ensures
            self@.inv(),
    {
    }

    /// A loader with nothing to do.
    pub fn new() -> (loader: Self)
        ensures
            loader.wf(),
            loader@ == LoaderModel::<K, S, T>::init(),
    {
        let loader = Loader {
            work: WorkQueue::new(),
            jobs: HashMap::new(),
            assets: HashMap::new(),
            cache: foldhash::HashMap::default(),
            cached: Vec::new(),
            active_task_count: 0,
            drained: Bell::new(),
            changed: Bell::new(),
            live_asset_count: 0,
            next_id: 0,
            alive: true,
            taken: Ghost(Set::empty()),
            lost: Ghost(Set::empty()),
            live: Ghost(Set::empty()),
        };
        proof {
            LoaderModel::<K, S, T>::lemma_init();
        }
        loader
    }

    /// Whether one more asset can be numbered.
    pub fn has_room(&self) -> (room: bool)
        ensures
            room == self@.has_room(),
    {
        self.next_id < u64::MAX - 1
    }

    /// One active task more.
    fn increment_active_task_count(&mut self)
        requires
            old(self).active_task_count < u64::MAX,
        ensures
            *final(self) == (Loader {
                active_task_count: (old(self).active_task_count + 1) as u64,
                ..*old(self)
            }),
    {
        self.active_task_count = self.active_task_count + 1;
    }

    /// One active task less. Wakes whoever waits for the loader to drain if it was the last.
    fn decrement_active_task_count(&mut self)
        requires
            old(self).active_task_count > 0,
        ensures
            final(self).drained == old(self).drained || old(self).active_task_count == 1,
            *final(self) == (Loader {
                active_task_count: (old(self).active_task_count - 1) as u64,
                drained: final(self).drained,
                ..*old(self)
            }),
            final(self).drained.rings() == old(self).drained.rings() + if old(
                self,
            ).active_task_count == 1 {
                1int
            } else {
                0
            },
    {
        let old_count: u64 = self.active_task_count;
        self.active_task_count = old_count - 1;
        if old_count == 1 {
            self.drained.ring();
        }
    }

    /// A new asset, which has a handle and a task that is to load it.
    fn create_asset(&mut self) -> (id: u64)
        requires
            old(self).rep(),
            old(self).next_id < u64::MAX,
        ensures
            final(self).rep(),
            id == old(self).next_id,
            final(self).active_task_count == old(self).active_task_count,
            final(self).live_asset_count == old(self).live_asset_count,
            final(self)@ == (LoaderModel {
                assets: old(self)@.assets.insert(id, AssetModel { refs: 2, data: None }),
                next_id: old(self)@.next_id + 1,
                ..old(self)@
            }),
    {
        let id: u64 = self.next_id;
        self.next_id = id + 1;
        self.assets.insert(id, AssetShared::new());
        id
    }

    /// Submits a task that disposes of the output of asset `id`. If the loader is closed, the task
    /// is dropped, and is no longer active.
    fn free(&mut self, id: u64, data: T)
        requires
            old(self).rep(),
            old(self).active_task_count < u64::MAX,
            old(self).active_task_count == old(self)@.active(),
        ensures
            final(self).rep(),
            final(self).active_task_count == old(self).active_task_count + if old(self)@.closed {
                0int
            } else {
                1
            },
            final(self).live_asset_count == old(self).live_asset_count,
            final(self)@ == old(self)@.free(id, data),
    {
        self.increment_active_task_count();
        if self.work.submit(id) {
            self.jobs.insert(id, Job::Free(data));
            self.changed.ring();
        } else {
            self.lost = Ghost(self.lost@.insert(id));
            self.decrement_active_task_count();
        }
    }

    /// Settles the load of asset `id`.
    fn set(&mut self, id: u64, data: Option<T>)
        requires
            old(self).rep(),
            old(self)@.assets.contains_key(id),
            old(self)@.assets[id].data is None,
        ensures
            final(self).rep(),
            final(self).active_task_count == old(self).active_task_count,
            final(self).live_asset_count == old(self).live_asset_count,
            final(self)@ == old(self)@.settled(id, data),
    {
        let mut asset = self.assets.remove(&id).unwrap();
        asset.set(data);
        self.assets.insert(id, asset);
    }

    /// One reference to asset `id` less. With the last one, the output is sent back to the loader
    /// to be disposed of; an asset that was never loaded has none.
    fn unref(&mut self, id: u64)
        requires
            old(self).rep(),
            old(self)@.assets.contains_key(id),
            old(self)@.assets[id].refs > 0,
            old(self)@.last_of_output(id) ==> old(self).active_task_count < u64::MAX,
            old(self)@.last_of_output(id) ==> old(self).active_task_count == old(self)@.active(),
        ensures
            final(self).rep(),
            final(self).active_task_count == old(self).active_task_count + if old(
                self,
            )@.last_of_output(id) && !old(self)@.closed {
                1int
            } else {
                0
            },
            final(self).live_asset_count == old(self).live_asset_count,
            final(self)@ == old(self)@.unref(id),
    {
        let mut asset = self.assets.remove(&id).unwrap();
        if asset.unref() {
            let Some(data) = asset.into_output() else {
                return ;
            };
            if self.alive {
                self.free(id, data);
            }
        } else {
            self.assets.insert(id, asset);
        }
    }

    /// The task that was to load asset `id` is dropped before it loaded anything: whoever waits
    /// for the asset learns that it will never be loaded, and the task is no longer active.
    fn drop_guard(&mut self, id: u64)
        requires
            old(self).rep(),
            old(self)@.assets.contains_key(id),
            old(self)@.assets[id].refs > 0,
            old(self)@.assets[id].data is None,
            old(self).alive ==> old(self).active_task_count > 0,
        ensures
            final(self).rep(),
            final(self).active_task_count == old(self).active_task_count - if old(self).alive {
                1int
            } else {
                0
            },
            final(self).live_asset_count == old(self).live_asset_count,
            final(self)@ == (LoaderModel {
                wakes: if old(self).alive && old(self).active_task_count == 1 {
                    old(self)@.wakes + 1
                } else {
                    old(self)@.wakes
                },
                ..old(self)@.settled(id, None).unref(id)
            }),
    {
        self.set(id, None);
        if self.alive {
            self.decrement_active_task_count();
        }
        self.unref(id);
    }

    /// Begins to load `source`, immediately returning the asset that will contain it.
    ///
    /// A closed loader drops the task, so that the asset is abandoned from the start.
    pub fn load(&mut self, source: S) -> (asset: Asset<T>)
        requires
            old(self).wf(),
            old(self)@.alive,
            old(self)@.has_room(),
        ensures
            final(self).wf(),
            asset.id() == old(self)@.next_id,
            final(self)@ == old(self)@.load(source),
            final(self)@.handles(asset.id()) == 1,
            forall|id: u64|
                id != asset.id() ==> #[trigger] final(self)@.handles(id) == old(self)@.handles(id),
    {
        proof {
            self@.lemma_active_bound();
            self@.lemma_load(source);
        }
        let id: u64 = self.create_asset();
        self.increment_active_task_count();
        if self.work.submit(id) {
            self.jobs.insert(id, Job::Load(source));
            self.changed.ring();
        } else {
            self.drop_guard(id);
        }
        Asset::new(id)
    }

    /// Takes the task that has waited longest, or `None` immediately if no tasks are currently
    /// queued. What was queued before the loader was closed can still be taken this way.
    pub fn try_next_task(&mut self) -> (task: Option<Task<S, T>>)
        requires
            old(self).wf(),
            old(self)@.alive,
        ensures
            final(self).wf(),
            forall|id: u64| #[trigger] final(self)@.handles(id) == old(self)@.handles(id),
            match task {
                Some(task) => {
                    &&& old(self)@.queue.len() > 0
                    &&& task.id() == old(self)@.queue[0]
                    &&& task.job() == old(self)@.jobs[task.id()]
                    &&& final(self)@ == old(self)@.take()
                    &&& task.job() is Load <==> final(self)@.loading(task.id())
                    &&& task.job() is Free <==> final(self)@.freeing(task.id())
                },
                None => old(self)@.queue.len() == 0 && final(self)@ == old(self)@,
            },
    {
        proof {
            if self@.queue.len() > 0 {
                self@.lemma_take();
            }
        }
        match self.work.take() {
            Some(id) => {
                let job = self.jobs.remove(&id).unwrap();
                self.taken = Ghost(self.taken@.insert(id));
                Some(Task::new(id, job))
            },
            None => None,
        }
    }

    /// Finishes a load that succeeded.
    pub(crate) fn complete(&mut self, id: u64, data: T)
        requires
            old(self).wf(),
            old(self)@.loading(id),
        ensures
            final(self).wf(),
            final(self)@ == old(self)@.complete(id, data),
            forall|x: u64| #[trigger] final(self)@.handles(x) == old(self)@.handles(x),
    {
        proof {
            self@.lemma_active_bound();
            self@.lemma_settle(id, Some(data));
        }
        self.set(id, Some(data));
        self.changed.ring();
        if self.alive {
            self.live_asset_count = self.live_asset_count + 1;
        }
        self.live = Ghost(self.live@.insert(id));
        // The reference goes before the task count decreases. If it is the last, the task that
        // frees the asset counts before this one ceases to, and the count does not reach zero.
        self.unref(id);
        if self.alive {
            self.decrement_active_task_count();
        }
        self.taken = Ghost(self.taken@.remove(id));
    }

    /// Finishes a load that came to nothing.
    pub(crate) fn abandon(&mut self, id: u64)
        requires
            old(self).wf(),
            old(self)@.loading(id),
        ensures
            final(self).wf(),
            final(self)@ == old(self)@.abandon(id),
            forall|x: u64| #[trigger] final(self)@.handles(x) == old(self)@.handles(x),
    {
        proof {
            self@.lemma_settle(id, None);
        }
        self.drop_guard(id);
        self.changed.ring();
        self.taken = Ghost(self.taken@.remove(id));
    }

    /// Finishes a disposal.
    pub(crate) fn freed(&mut self, id: u64)
        requires
            old(self).wf(),
            old(self)@.freeing(id),
        ensures
            final(self).wf(),
            final(self)@ == old(self)@.freed(id),
            forall|x: u64| #[trigger] final(self)@.handles(x) == old(self)@.handles(x),
    {
        proof {
            self@.lemma_freed(id);
        }
        self.live = Ghost(self.live@.remove(id));
        if self.alive {
            self.live_asset_count = self.live_asset_count - 1;
            self.decrement_active_task_count();
        }
        self.taken = Ghost(self.taken@.remove(id));
    }

    /// Gives up a disposal that was taken and will not be run.
    pub(crate) fn lose(&mut self, id: u64)
        requires
            old(self).wf(),
            old(self)@.freeing(id),
        ensures
            final(self).wf(),
            final(self)@ == old(self)@.lose(id),
            forall|x: u64| #[trigger] final(self)@.handles(x) == old(self)@.handles(x),
    {
        proof {
            self@.lemma_lose(id);
        }
        self.lost = Ghost(self.lost@.insert(id));
        if self.alive {
            self.decrement_active_task_count();
        }
        self.taken = Ghost(self.taken@.remove(id));
    }

    /// Whether the task `id` that was taken is a load.
    pub(crate) fn is_loading(&self, id: u64) -> (loading: bool)
        requires
            self@.taken.contains(id),
        ensures
            loading == self@.loading(id),
    {
        self.assets.contains_key(&id)
    }

    /// What the load of asset `id` yielded, once it is settled.
    pub(crate) fn data(&self, id: u64) -> (data: Option<Option<&T>>)
        requires
            self.wf(),
            self@.handles(id) > 0,
        ensures
            match data {
                Some(Some(output)) => self@.assets[id].data == Some(Some(*output)),
                Some(None) => self@.assets[id].data == Some(None::<T>),
                None => self@.assets[id].data is None,
            },
    {
        self.assets.get(&id).unwrap().get()
    }

    /// Begins to wait for a task to be submitted or an asset to be settled.
    pub(crate) fn wait_for_change(&self) -> (wait: OwnedNotified)
        ensures
            notified_since(wait) == self@.changes,
    {
        self.changed.wait()
    }

    /// Whether one more reference to asset `id` can be counted.
    pub(crate) fn can_refer(&self, id: u64) -> (can: bool)
        requires
            self.wf(),
            self@.assets.contains_key(id),
        ensures
            can == self@.can_refer(id),
    {
        self.assets.get(&id).unwrap().can_refer()
    }

    /// One more handle to asset `id`.
    pub(crate) fn refer(&mut self, id: u64)
        requires
            old(self).wf(),
            old(self)@.can_refer(id),
        ensures
            final(self).wf(),
            final(self)@ == old(self)@.refer(id),
            final(self)@.handles(id) == old(self)@.handles(id) + 1,
            forall|x: u64|
                x != id ==> #[trigger] final(self)@.handles(x) == old(self)@.handles(x),
    {
        proof {
            self@.lemma_refer(id);
        }
        let mut asset = self.assets.remove(&id).unwrap();
        asset.refer();
        self.assets.insert(id, asset);
    }

    /// One handle to asset `id` less.
    pub(crate) fn release(&mut self, id: u64)
        requires
            old(self).wf(),
            old(self)@.handles(id) > 0,
        ensures
            final(self).wf(),
            final(self)@ == old(self)@.unref(id),
            final(self)@.handles(id) == old(self)@.handles(id) - 1,
            forall|x: u64|
                x != id ==> #[trigger] final(self)@.handles(x) == old(self)@.handles(x),
    {
        proof {
            self@.lemma_active_bound();
            self@.lemma_unref(id);
        }
        self.unref(id);
    }

    /// Gives the references of the cache back.
    fn release_cache(&mut self)
        requires
            old(self).rep(),
            old(self)@.inv_core(),
            old(self).counts(),
            old(self)@.alive ==> old(self)@.inv(),
        ensures
            final(self).rep(),
            final(self).counts(),
            final(self)@ == old(self)@.clear_cache(),
    {
        let ghost forgotten = self@.forget_cache();
        proof {
            self@.lemma_forget_cache();
            self@.lemma_clear_is_unref();
            forgotten.lemma_unref_step(Seq::empty());
        }
        let mut cached: Vec<u64> = Vec::new();
        std::mem::swap(&mut cached, &mut self.cached);
        self.cache.clear();
        let mut i: usize = 0;
        while i < cached.len()
            invariant
                i <= cached.len(),
                cached@ == old(self)@.cached,
                forgotten == old(self)@.forget_cache(),
                cached@.no_duplicates(),
                forgotten.inv_core(),
                forgotten.alive ==> forgotten.inv_live(),
                forall|x: u64| #[trigger] cached@.contains(x) ==> forgotten.handles(x) > 0,
                self.rep(),
                self.counts(),
                self@ == forgotten.unref_all(cached@.take(i as int)),
            decreases cached.len() - i,
        {
            let ghost done = cached@.take(i as int);
            let ghost more = cached@.take(i + 1);
            proof {
                assert(more.drop_last() =~= done);
                assert forall|x: u64| #[trigger] more.contains(x) implies forgotten.handles(x)
                    > 0 by {
                    let j = choose|j: int| 0 <= j < more.len() && more[j] == x;
                    assert(cached@.contains(x));
                }
                forgotten.lemma_unref_step(more);
                assert forall|x: u64| #[trigger] done.contains(x) implies forgotten.handles(x)
                    > 0 by {
                    assert(more.contains(x));
                }
                forgotten.lemma_unref_all(done);
                assert(more.contains(cached@[i as int]));
                self@.lemma_unref(cached@[i as int]);
                if self.alive {
                    self@.lemma_active_bound();
                }
            }
            self.unref(cached[i]);
            i = i + 1;
        }
        assert(cached@.take(i as int) =~= cached@);
    }

    /// Forgets all cached assets. Those that nothing else refers to are disposed of.
    pub fn clear_cache(&mut self)
        requires
            old(self).wf(),
            old(self)@.alive,
        ensures
            final(self).wf(),
            final(self)@ == old(self)@.clear_cache(),
            forall|id: u64| #[trigger] final(self)@.handles(id) == old(self)@.handles(id),
    {
        proof {
            self@.lemma_clear_cache();
        }
        self.release_cache();
    }

    /// Drops the loader: assets whose load is queued get gracefully abandoned. Tasks that were taken
    /// can still be run.
    pub fn shut_down(&mut self)
        requires
            old(self).wf(),
            old(self)@.alive,
        ensures
            final(self).wf(),
            final(self)@ == old(self)@.shut_down(),
            forall|id: u64| #[trigger] final(self)@.handles(id) == old(self)@.handles(id),
    {
        proof {
            self@.lemma_shut_down();
            self@.lemma_dying();
        }
        self.alive = false;
        let _ = self.work.close();
        loop
            invariant
                self.rep(),
                !self.alive,
                self@.inv_core(),
                self@.closed,
                self@.shut_down() == old(self)@.shut_down(),
            ensures
                self.rep(),
                !self.alive,
                self@.inv_core(),
                self@.closed,
                self@.shut_down() == old(self)@.shut_down(),
                self@.queue.len() == 0,
            decreases self@.queue.len(),
        {
            let ghost before = self@;
            proof {
                if before.queue.len() > 0 {
                    before.lemma_drop_front();
                    before.lemma_shut_down_step();
                }
            }
            match self.work.take() {
                Some(id) => {
                    match self.jobs.remove(&id).unwrap() {
                        Job::Load(_) => {
                            self.drop_guard(id);
                        },
                        Job::Free(_) => {},
                    }
                },
                None => {
                    break;
                },
            }
        }
        proof {
            self@.lemma_shut_down_last();
        }
        self.release_cache();
        self.changed.ring();
    }

    /// Takes the task that has waited longest, or tells what to do instead: to wait for one, or to
    /// shut down. The latter iff [`close`](Self::close) has been called, whatever is queued.
    pub fn next_task(&mut self) -> (next: NextTask<S, T>)
        requires
            old(self).wf(),
            old(self)@.alive,
        ensures
            final(self).wf(),
            forall|id: u64| #[trigger] final(self)@.handles(id) == old(self)@.handles(id),
            next is Closed <==> old(self)@.told_to_stop(),
            match next {
                NextTask::Task(task) => {
                    &&& !old(self)@.closed
                    &&& old(self)@.queue.len() > 0
                    &&& task.id() == old(self)@.queue[0]
                    &&& task.job() == old(self)@.jobs[task.id()]
                    &&& final(self)@ == old(self)@.take()
                    &&& task.job() is Load <==> final(self)@.loading(task.id())
                    &&& task.job() is Free <==> final(self)@.freeing(task.id())
                },
                NextTask::Closed => final(self)@ == old(self)@,
                NextTask::Pending(wait) => {
                    &&& notified_since(wait) == old(self)@.changes
                    &&& old(self)@.queue.len() == 0
                    &&& !old(self)@.closed
                    &&& final(self)@ == old(self)@
                },
            },
    {
        if self.is_closed() {
            return NextTask::Closed;
        }
        match self.try_next_task() {
            Some(task) => NextTask::Task(task),
            None => NextTask::Pending(self.wait_for_change()),
        }
    }

    /// `None` if there are currently no active tasks, and otherwise what wakes the caller when
    /// there were none at some point since. Note that there may still be some assets that need
    /// to be freed before it is safe to close the loader.
    ///
    /// A caller that is woken need not look again: even if there are active tasks by then, the
    /// loader was drained at some point since the call.
    pub fn drain(&self) -> (wait: Option<OwnedNotified>)
        requires
            self.wf(),
            self@.alive,
        ensures
            wait is None <==> self@.active() == 0,
            wait matches Some(wait) ==> notified_since(wait) == self@.wakes,
    {
        if self.active_task_count == 0 {
            None
        } else {
            Some(self.drained.wait())
        }
    }

    /// Whether there are currently no active tasks running.
    pub fn is_drained(&self) -> (drained: bool)
        requires
            self.wf(),
            self@.alive,
        ensures
            drained == (self@.active() == 0),
    {
        self.active_task_count == 0
    }

    /// Whether all assets loaded by this loader have been freed. Ask after the loader is drained:
    /// otherwise new assets that also need freeing could be loaded after this method returned
    /// `true`.
    pub fn all_assets_freed(&self) -> (freed: bool)
        requires
            self.wf(),
            self@.alive,
        ensures
            freed == (self@.live =~= Set::<u64>::empty()),
    {
        proof {
            if self@.live.len() == 0 {
                self@.live.lemma_len0_is_empty();
            }
        }
        self.live_asset_count == 0
    }

    /// Disables submission of new work, signaling callers of [`next_task`](Self::next_task) to
    /// shut down.
    pub fn close(&mut self)
        requires
            old(self).wf(),
            old(self)@.alive,
        ensures
            final(self).wf(),
            final(self)@ == old(self)@.close(),
            forall|x: u64| #[trigger] final(self)@.handles(x) == old(self)@.handles(x),
    {
        proof {
            self@.lemma_close();
        }
        if self.work.close() {
            self.changed.ring();
        }
    }

    /// Whether [`close`](Self::close) has been called.
    pub fn is_closed(&self) -> (closed: bool)
        requires
            self.wf(),
        ensures
            closed == self@.closed,
    {
        self.work.is_closed()
    }
}

/// What [`Loader::next_task`] has for its caller.
pub enum NextTask<S, T> {
    /// A task that should be run.
    Task(Task<S, T>),
    /// The loader is closed: it is time to shut down.
    Closed,
    /// No task is queued at the moment. What wakes the caller when there may be one, or when the
    /// loader is closed.
    Pending(OwnedNotified),
}

impl<K: Hash + Eq, S, T> Loader<K, S, T> {
    /// Whether a request for `key` can be served: one more handle to the asset that it stands for
    /// can be counted, or if there is none, one more asset can be numbered.
    pub fn can_load_cached(&self, key: &K) -> (can: bool)
        requires
            obeys_key_model::<K>(),
            self.wf(),
        ensures
            can == self@.can_load_cached(*key),
    {
        match cache_get(&self.cache, key) {
            Some(id) => {
                assert(self@.cache.contains_key(*key));
                self.can_refer(id)
            },
            None => self.has_room(),
        }
    }

    /// One more handle to the asset that `key` stands for, if there is one.
    pub fn get_cached(&mut self, key: &K) -> (asset: Option<Asset<T>>)
        requires
            obeys_key_model::<K>(),
            old(self).wf(),
            old(self)@.cache.contains_key(*key) ==> old(self)@.can_load_cached(*key),
        ensures
            final(self).wf(),
            match asset {
                Some(asset) => {
                    &&& old(self)@.cache.contains_key(*key)
                    &&& asset.id() == old(self)@.cache[*key]
                    &&& final(self)@ == old(self)@.refer(asset.id())
                    &&& final(self)@.handles(asset.id()) == old(self)@.handles(asset.id()) + 1
                    &&& forall|id: u64|
                        id != asset.id() ==> #[trigger] final(self)@.handles(id) == old(
                            self,
                        )@.handles(id)
                },
                None => !old(self)@.cache.contains_key(*key) && *final(self) == *old(self),
            },
    {
        match cache_get(&self.cache, key) {
            Some(id) => {
                self.refer(id);
                Some(Asset::new(id))
            },
            None => None,
        }
    }

    /// The asset that `key` stands for. If there is none yet, begins to load it from `source`.
    pub fn load_cached_inner(&mut self, key: K, source: S) -> (asset: Asset<T>)
        requires
            obeys_key_model::<K>(),
            old(self).wf(),
            old(self)@.alive,
            old(self)@.can_load_cached(key),
        ensures
            final(self).wf(),
            asset.id() == old(self)@.cached_id(key),
            final(self)@ == old(self)@.load_cached(key, source),
            final(self)@.handles(asset.id()) == old(self)@.handles(asset.id()) + 1,
            forall|id: u64|
                id != asset.id() ==> #[trigger] final(self)@.handles(id) == old(self)@.handles(id),
    {
        if let Some(asset) = self.get_cached(&key) {
            return asset;
        }
        proof {
            self@.lemma_load(source);
            self@.lemma_load_into_cache(key, source);
        }
        let asset = self.load(source);
        let id: u64 = asset.id_number();
        self.refer(id);
        cache_insert(&mut self.cache, key, id);
        self.cached.push(id);
        asset
    }
}

impl<S: Hash + Eq + Clone, T> Loader<S, S, T> {
    /// The asset that `key` describes: the one that the cache has, or else a new one, which the
    /// cache keeps from now on.
    pub fn load_cached(&mut self, key: S) -> (asset: Asset<T>)
        requires
            obeys_key_model::<S>(),
            old(self).wf(),
            old(self)@.alive,
            old(self)@.can_load_cached(key),
            forall|copy: S| #[trigger]
                cloned(key, copy) && !old(self)@.cache.contains_key(key) ==> old(
                    self,
                )@.can_load_cached(copy),
        ensures
            final(self).wf(),
            old(self)@.cache.contains_key(key) ==> {
                &&& asset.id() == old(self)@.cache[key]
                &&& final(self)@ == old(self)@.refer(asset.id())
            },
            !old(self)@.cache.contains_key(key) ==> exists|copy: S| #[trigger]
                cloned(key, copy) && asset.id() == old(self)@.cached_id(copy) && final(self)@
                    == old(self)@.load_cached(copy, key),
            final(self)@.handles(asset.id()) == old(self)@.handles(asset.id()) + 1,
            forall|id: u64|
                id != asset.id() ==> #[trigger] final(self)@.handles(id) == old(self)@.handles(id),
    {
        if let Some(asset) = self.get_cached(&key) {
            return asset;
        }
        let copy = key.clone();
        assert(cloned(key, copy));
        self.load_cached_inner(copy, key)
    }
}

impl<K, S, T> Default for Loader<K, S, T> {
    fn default() -> (loader: Self)
        ensures
            loader.wf(),
            loader@ == LoaderModel::<K, S, T>::init(),
    {
        Self::new()
    }
}

} // verus!
