//! What each operation does to the state of a loader, part by part: what is there afterwards, and
//! what stays as it was.
use crate::laws::Event;
use crate::model::LoaderModel;
use crate::task::Job;
use vstd::prelude::*;

verus! {

impl<K, S, T> LoaderModel<K, S, T> {
    // ---- What is seen of a state ----

    /// A new loader has no assets, no tasks and an empty cache, is open, and has woken nobody.
    pub proof fn law_new_is_empty()
        ensures
            ({
                let new = Self::init();
                &&& forall|id: u64| !#[trigger] new.assets.contains_key(id)
                &&& forall|id: u64| !#[trigger] new.jobs.contains_key(id)
                &&& forall|id: u64| !#[trigger] new.taken.contains(id)
                &&& forall|id: u64| !#[trigger] new.lost.contains(id)
                &&& forall|id: u64| !#[trigger] new.live.contains(id)
                &&& forall|key: K| !#[trigger] new.cache.contains_key(key)
                &&& new.queue.len() == 0
                &&& new.cached.len() == 0
                &&& new.next_id == 0
                &&& new.wakes == 0
                &&& new.changes == 0
                &&& new.alive
                &&& !new.closed
                &&& new.inv()
            }),
    {
    }

    /// An asset has a value iff its load yielded one, is abandoned iff its load came to nothing, and
    /// is pending iff its load is queued or running.
    pub proof fn law_asset_seen(self, id: u64, value: T)
        requires
            self.inv(),
            self.assets.contains_key(id),
        ensures
            self.value(id) == Some(value) <==> self.assets[id].data == Some(Some(value)),
            self.value(id) is None <==> self.assets[id].data is None || self.assets[id].data == Some(
                None::<T>,
            ),
            self.abandoned(id) <==> self.assets[id].data == Some(None::<T>),
            self.pending(id) <==> self.assets[id].data is None,
            self.pending(id) <==> self.queue.contains(id) || self.taken.contains(id),
    {
    }

    /// A task that was taken is a load while its asset exists, and a disposal otherwise. A queued task
    /// is a load exactly while its asset exists, and no task is in two places.
    pub proof fn law_task_seen(self, id: u64)
        requires
            self.inv(),
        ensures
            self.loading(id) <==> self.taken.contains(id) && self.assets.contains_key(id),
            self.freeing(id) <==> self.taken.contains(id) && !self.assets.contains_key(id),
            self.jobs.contains_key(id) <==> self.queue.contains(id),
            self.queue.contains(id) ==> (self.jobs[id] is Load <==> self.assets.contains_key(id)),
            self.queue.contains(id) ==> !self.taken.contains(id) && !self.lost.contains(id),
            self.taken.contains(id) ==> !self.lost.contains(id),
            forall|i: int, j: int|
                0 <= i < j < self.queue.len() ==> #[trigger] self.queue[i]
                    != #[trigger] self.queue[j],
    {
    }

    /// The active tasks are those that wait and those that were taken, whoever asks for a task is told
    /// to stop iff the loader is closed, and numbers and counts run out at the last moment only.
    pub proof fn law_counts_seen(self, id: u64, key: K)
        requires
            self.inv(),
        ensures
            self.active() == self.queue.len() + self.taken.len(),
            self.active() == 0 <==> self.queue =~= Seq::empty() && self.taken =~= Set::empty(),
            self.told_to_stop() == self.closed,
            self.has_room() <==> self.next_id < u64::MAX - 1,
            self.can_refer(id) <==> self.assets.contains_key(id) && self.assets[id].refs < u64::MAX,
            self.cache.contains_key(key) ==> (self.can_load_cached(key) <==> self.assets[
                self.cache[key]
            ].refs < u64::MAX),
            !self.cache.contains_key(key) ==> (self.can_load_cached(key) <==> self.next_id
                < u64::MAX - 1),
    {
    }

    /// The references to an asset are the handles that are out, one of its load while that is queued
    /// or running, and one of the cache iff some key stands for the asset. Nothing else refers to
    /// it, and it exists exactly while something does.
    pub proof fn law_references_accounted(self, id: u64)
        requires
            self.inv(),
        ensures
            self.handles(id) >= 0,
            !self.assets.contains_key(id) ==> self.handles(id) == 0,
            self.assets.contains_key(id) ==> {
                &&& self.assets[id].refs > 0
                &&& self.assets[id].refs == self.handles(id) + (if self.queue.contains(id)
                    || self.taken.contains(id) {
                    1int
                } else {
                    0
                }) + (if exists|key: K| #[trigger]
                    self.cache.contains_key(key) && self.cache[key] == id {
                    1int
                } else {
                    0
                })
            },
            self.cached.contains(id) <==> exists|key: K| #[trigger]
                self.cache.contains_key(key) && self.cache[key] == id,
    {
    }

    /// Each key stands for an asset of its own that exists, and the cache refers to each of these once.
    pub proof fn law_keys_apart(self, k1: K, k2: K)
        requires
            self.inv(),
            self.cache.contains_key(k1),
            self.cache.contains_key(k2),
        ensures
            self.assets.contains_key(self.cache[k1]),
            self.cache[k1] == self.cache[k2] ==> k1 == k2,
            self.cached.contains(self.cache[k1]),
            self.cached.no_duplicates(),
    {
    }

    // ---- Loading ----

    /// Beginning to load makes an asset with a number that nothing had before. On an open loader it is
    /// unsettled, has a handle and a reference of its load, and the load is queued last; whoever
    /// waits for a task is woken once. On a closed loader it is abandoned, has a handle only, and
    /// nothing is queued; whoever waits for the loader to drain is woken once if it is drained.
    /// All else stays.
    pub proof fn law_load_effect(self, source: S)
        requires
            self.inv(),
            self.alive,
            self.next_id < u64::MAX - 1,
        ensures
            ({
                let id = self.next_id as u64;
                let next = self.load(source);
                &&& next.inv()
                &&& next == (LoaderModel {
                    assets: next.assets,
                    queue: next.queue,
                    jobs: next.jobs,
                    wakes: next.wakes,
                    changes: next.changes,
                    next_id: self.next_id + 1,
                    ..self
                })
                &&& !self.assets.contains_key(id) && !self.queue.contains(id)
                    && !self.taken.contains(id) && !self.lost.contains(id) && !self.live.contains(id)
                &&& next.assets.contains_key(id)
                &&& next.handles(id) == 1
                &&& forall|x: u64|
                    x != id ==> (#[trigger] next.assets.contains_key(x)
                        <==> self.assets.contains_key(x))
                &&& forall|x: u64| #[trigger]
                    self.assets.contains_key(x) ==> next.assets[x] == self.assets[x]
                &&& !self.closed ==> {
                    &&& next.assets[id].data is None
                    &&& next.assets[id].refs == 2
                    &&& next.queue == self.queue.push(id)
                    &&& next.jobs.contains_key(id)
                    &&& next.jobs[id] == Job::<S, T>::Load(source)
                    &&& next.jobs.remove(id) =~= self.jobs
                    &&& next.changes == self.changes + 1
                    &&& next.wakes == self.wakes
                }
                &&& self.closed ==> {
                    &&& next.assets[id].data == Some(None::<T>)
                    &&& next.assets[id].refs == 1
                    &&& next.queue == self.queue
                    &&& next.jobs == self.jobs
                    &&& next.changes == self.changes
                    &&& self.queue.len() + self.taken.len() > 0 ==> next.wakes == self.wakes
                    &&& self.queue.len() + self.taken.len() == 0 ==> next.wakes == self.wakes + 1
                }
            }),
    {
        self.lemma_load(source);
    }

    /// A request for a key that stands for an asset gives another handle to it and changes nothing
    /// else.
    pub proof fn law_cached_hit_effect(self, key: K, source: S)
        requires
            self.inv(),
            self.alive,
            self.cache.contains_key(key),
            self.assets[self.cache[key]].refs < u64::MAX,
        ensures
            ({
                let id = self.cached_id(key);
                let next = self.load_cached(key, source);
                &&& next.inv()
                &&& id == self.cache[key]
                &&& next == (LoaderModel { assets: next.assets, ..self })
                &&& next.assets.dom() =~= self.assets.dom()
                &&& next.assets[id].refs == self.assets[id].refs + 1
                &&& next.assets[id].data == self.assets[id].data
                &&& next.handles(id) == self.handles(id) + 1
                &&& forall|x: u64| #[trigger]
                    self.assets.contains_key(x) && x != id ==> next.assets[x] == self.assets[x]
            }),
    {
    }

    /// A request for a key that stands for nothing does what beginning to load does, except that the
    /// key stands for the new asset from then on, and the cache has a reference to it besides the
    /// handle. No other key changes.
    pub proof fn law_cached_miss_effect(self, key: K, source: S)
        requires
            self.inv(),
            self.alive,
            !self.cache.contains_key(key),
            self.next_id < u64::MAX - 1,
        ensures
            ({
                let id = self.next_id as u64;
                let load = self.load(source);
                let next = self.load_cached(key, source);
                &&& next.inv()
                &&& self.cached_id(key) == id
                &&& next == (LoaderModel {
                    assets: next.assets,
                    cache: next.cache,
                    cached: next.cached,
                    ..load
                })
                &&& next.assets.dom() =~= load.assets.dom()
                &&& next.assets[id].refs == load.assets[id].refs + 1
                &&& next.assets[id].data == load.assets[id].data
                &&& next.handles(id) == 1
                &&& forall|x: u64| #[trigger]
                    load.assets.contains_key(x) && x != id ==> next.assets[x] == load.assets[x]
                &&& next.cache.contains_key(key)
                &&& next.cache[key] == id
                &&& next.cache.remove(key) =~= self.cache
                &&& next.cached == self.cached.push(id)
            }),
    {
        self.lemma_load_into_cache(key, source);
    }

    // ---- Handles ----

    /// Cloning a handle adds one reference to its asset, and nothing else anywhere: none is left with
    /// the cache or with a task.
    pub proof fn law_clone_effect(self, id: u64)
        requires
            self.inv(),
            self.assets.contains_key(id),
        ensures
            ({
                let next = self.refer(id);
                &&& next.inv()
                &&& next == (LoaderModel { assets: next.assets, ..self })
                &&& next.assets.dom() =~= self.assets.dom()
                &&& next.assets[id].refs == self.assets[id].refs + 1
                &&& next.assets[id].data == self.assets[id].data
                &&& next.handles(id) == self.handles(id) + 1
                &&& forall|x: u64| #[trigger]
                    self.assets.contains_key(x) && x != id ==> next.assets[x] == self.assets[x]
            }),
    {
    }

    /// Dropping a handle that was cloned leaves everything as it was before the cloning.
    pub proof fn law_clone_undone(self, id: u64)
        requires
            self.inv(),
            self.handles(id) > 0,
        ensures
            self.refer(id).unref(id) =~= self,
    {
    }

    /// Dropping a handle takes one reference from its asset. With the last one the asset goes. If it
    /// had an output and the loader exists, then the disposal of just that output is queued last,
    /// or is lost if the loader is closed; an asset without output leaves nothing to do. All else
    /// stays.
    pub proof fn law_release_effect(self, id: u64)
        requires
            self.inv(),
            self.handles(id) > 0,
        ensures
            ({
                let asset = self.assets[id];
                let next = self.unref(id);
                let handed_back = self.alive && asset.refs == 1 && asset.data matches Some(Some(_));
                &&& next.inv()
                &&& self.assets.contains_key(id)
                &&& next == (LoaderModel {
                    assets: next.assets,
                    queue: next.queue,
                    jobs: next.jobs,
                    lost: next.lost,
                    wakes: next.wakes,
                    changes: next.changes,
                    ..self
                })
                &&& forall|x: u64|
                    x != id ==> (#[trigger] next.assets.contains_key(x)
                        <==> self.assets.contains_key(x))
                &&& forall|x: u64| #[trigger]
                    next.assets.contains_key(x) && x != id ==> next.assets[x] == self.assets[x]
                &&& next.assets.contains_key(id) <==> asset.refs > 1
                &&& asset.refs > 1 ==> next.assets[id].refs == asset.refs - 1
                    && next.assets[id].data == asset.data
                &&& next.handles(id) == self.handles(id) - 1
                &&& if handed_back && !self.closed {
                    &&& next.queue == self.queue.push(id)
                    &&& next.jobs.contains_key(id)
                    &&& next.jobs[id] == Job::<S, T>::Free(asset.data->0->0)
                    &&& next.jobs.remove(id) =~= self.jobs
                    &&& next.changes == self.changes + 1
                } else {
                    &&& next.queue == self.queue
                    &&& next.jobs == self.jobs
                    &&& next.changes == self.changes
                }
                &&& if handed_back && self.closed {
                    &&& next.lost == self.lost.insert(id)
                    &&& self.queue.len() + self.taken.len() > 0 ==> next.wakes == self.wakes
                    &&& self.queue.len() + self.taken.len() == 0 ==> next.wakes == self.wakes + 1
                } else {
                    &&& next.lost == self.lost
                    &&& next.wakes == self.wakes
                }
            }),
    {
        self.lemma_unref(id);
    }

    // ---- Tasks ----

    /// Taking a task takes the first of those that wait, and leaves the others in order. The assets do
    /// not change, and nobody is woken.
    pub proof fn law_take_effect(self)
        requires
            self.inv(),
            self.alive,
            self.queue.len() > 0,
        ensures
            ({
                let id = self.queue[0];
                let next = self.take();
                &&& next.inv()
                &&& next == (LoaderModel {
                    queue: next.queue,
                    jobs: next.jobs,
                    taken: next.taken,
                    ..self
                })
                &&& self.queue =~= seq![id] + next.queue
                &&& forall|x: u64| #[trigger]
                    next.jobs.contains_key(x) <==> self.jobs.contains_key(x) && x != id
                &&& forall|x: u64| #[trigger]
                    next.jobs.contains_key(x) ==> next.jobs[x] == self.jobs[x]
                &&& !self.taken.contains(id)
                &&& forall|x: u64| #[trigger]
                    next.taken.contains(x) <==> self.taken.contains(x) || x == id
                &&& next.handles(id) == self.handles(id)
            }),
    {
        self.lemma_take();
    }

    /// A load that returns settles its own asset, with just what it returned, and no other: if the
    /// asset is held, it has that value from then on, or is abandoned. The task is over, its
    /// reference is given back, whoever waits for the asset is woken, and whoever waits for the
    /// loader to drain is woken iff no task is left. The asset counts as live iff there is an
    /// output; if nothing else refers to it, the disposal of that output is queued last, or lost if
    /// the loader is closed. All else stays.
    pub proof fn law_settle_effect(self, id: u64, outcome: Option<T>)
        requires
            self.inv(),
            self.taken.contains(id),
            self.assets.contains_key(id),
        ensures
            ({
                let refs = self.assets[id].refs;
                let next = self.settle(id, outcome);
                let handed_back = self.alive && refs == 1 && outcome is Some;
                &&& next.inv()
                &&& next == (LoaderModel {
                    assets: next.assets,
                    queue: next.queue,
                    jobs: next.jobs,
                    taken: next.taken,
                    lost: next.lost,
                    live: next.live,
                    wakes: next.wakes,
                    changes: next.changes,
                    ..self
                })
                &&& forall|x: u64|
                    x != id ==> (#[trigger] next.assets.contains_key(x)
                        <==> self.assets.contains_key(x))
                &&& forall|x: u64| #[trigger]
                    next.assets.contains_key(x) && x != id ==> next.assets[x] == self.assets[x]
                &&& next.assets.contains_key(id) <==> refs > 1
                &&& refs > 1 ==> next.assets[id].refs == refs - 1 && next.assets[id].data == Some(
                    outcome,
                )
                &&& next.handles(id) == self.handles(id)
                &&& self.handles(id) > 0 ==> {
                    &&& next.value(id) == outcome
                    &&& next.abandoned(id) <==> outcome is None
                    &&& !next.pending(id)
                }
                &&& forall|x: u64| #[trigger]
                    next.taken.contains(x) <==> self.taken.contains(x) && x != id
                &&& forall|x: u64| #[trigger]
                    next.live.contains(x) <==> self.live.contains(x) || (x == id && outcome is Some)
                &&& if handed_back && !self.closed {
                    &&& next.queue == self.queue.push(id)
                    &&& next.jobs.contains_key(id)
                    &&& next.jobs[id] == Job::<S, T>::Free(outcome->0)
                    &&& next.jobs.remove(id) =~= self.jobs
                    &&& next.changes == self.changes + 2
                } else {
                    &&& next.queue == self.queue
                    &&& next.jobs == self.jobs
                    &&& next.changes == self.changes + 1
                }
                &&& next.lost == if handed_back && self.closed {
                    self.lost.insert(id)
                } else {
                    self.lost
                }
                &&& next.wakes == self.wakes + if self.alive && next.queue.len() + next.taken.len()
                    == 0 {
                    1nat
                } else {
                    0
                }
            }),
    {
        self.lemma_settle(id, outcome);
    }

    /// A disposal that is done ends its own task and takes its own asset off those that are live. No
    /// asset changes, and whoever waits for the loader to drain is woken iff no task is left.
    pub proof fn law_freed_effect(self, id: u64)
        requires
            self.inv(),
            self.taken.contains(id),
            !self.assets.contains_key(id),
        ensures
            ({
                let next = self.freed(id);
                &&& next.inv()
                &&& next == (LoaderModel {
                    taken: next.taken,
                    live: next.live,
                    wakes: next.wakes,
                    ..self
                })
                &&& self.alive ==> self.live.contains(id)
                &&& forall|x: u64| #[trigger]
                    next.taken.contains(x) <==> self.taken.contains(x) && x != id
                &&& forall|x: u64| #[trigger]
                    next.live.contains(x) <==> self.live.contains(x) && x != id
                &&& next.wakes == self.wakes + if self.alive && self.queue.len() == 0
                    && next.taken.len() == 0 {
                    1nat
                } else {
                    0
                }
            }),
    {
    }

    /// A disposal that is dropped ends its own task, but its asset stays live for good: it is lost. All
    /// else is as when the disposal is done.
    pub proof fn law_lose_effect(self, id: u64)
        requires
            self.inv(),
            self.taken.contains(id),
            !self.assets.contains_key(id),
        ensures
            ({
                let next = self.lose(id);
                &&& next.inv()
                &&& next == (LoaderModel {
                    taken: next.taken,
                    lost: next.lost,
                    wakes: next.wakes,
                    ..self
                })
                &&& self.alive ==> next.live.contains(id)
                &&& forall|x: u64| #[trigger]
                    next.taken.contains(x) <==> self.taken.contains(x) && x != id
                &&& forall|x: u64| #[trigger]
                    next.lost.contains(x) <==> self.lost.contains(x) || x == id
                &&& next.wakes == self.wakes + if self.alive && self.queue.len() == 0
                    && next.taken.len() == 0 {
                    1nat
                } else {
                    0
                }
            }),
    {
    }

    /// Dropping a task that was taken is the same as a load that returns nothing, or a disposal that is
    /// lost. Besides this one task, and the asset that it was to load, it leaves the loader alone:
    /// it does not close or end it, and neither other assets nor other tasks change.
    pub proof fn law_cancel_effect(self, id: u64)
        requires
            self.inv(),
            self.taken.contains(id),
        ensures
            ({
                let next = self.cancel(id);
                &&& next.inv()
                &&& self.assets.contains_key(id) ==> next == self.apply(Event::Settle(id, None))
                &&& !self.assets.contains_key(id) ==> next == self.apply(Event::Lose(id))
                &&& next.closed == self.closed
                &&& next.alive == self.alive
                &&& next.queue == self.queue
                &&& next.jobs == self.jobs
                &&& next.live == self.live
                &&& next.cache == self.cache
                &&& next.cached == self.cached
                &&& next.next_id == self.next_id
                &&& forall|x: u64| #[trigger]
                    next.taken.contains(x) <==> self.taken.contains(x) && x != id
                &&& forall|x: u64|
                    x != id ==> (#[trigger] next.assets.contains_key(x)
                        <==> self.assets.contains_key(x))
                &&& forall|x: u64| #[trigger]
                    next.assets.contains_key(x) && x != id ==> next.assets[x] == self.assets[x]
                &&& self.handles(id) > 0 ==> next.handles(id) == self.handles(id)
                    && next.assets[id].data == Some(None::<T>)
            }),
    {
    }

    // ---- The whole loader ----

    /// Clearing the cache empties it and takes back its reference to every asset that was in it, so that
    /// handles and loads are all that assets are kept by. The assets that only the cache kept go,
    /// and the disposals of their outputs are queued last, each once, or lost if the loader is
    /// closed. All else stays.
    pub proof fn law_clear_cache_effect(self)
        requires
            self.inv(),
            self.alive,
        ensures
            ({
                let next = self.clear_cache();
                let only_cached = |x: u64|
                    self.cached.contains(x) && self.assets[x].refs == 1
                        && self.assets[x].data matches Some(Some(_));
                let added = next.queue.skip(self.queue.len() as int);
                &&& next.inv()
                &&& next == (LoaderModel {
                    assets: next.assets,
                    queue: next.queue,
                    jobs: next.jobs,
                    lost: next.lost,
                    cache: Map::empty(),
                    cached: Seq::empty(),
                    wakes: next.wakes,
                    changes: next.changes,
                    ..self
                })
                &&& forall|x: u64| #[trigger]
                    next.assets.contains_key(x) <==> self.assets.contains_key(x)
                        && !(self.cached.contains(x) && self.assets[x].refs == 1)
                &&& forall|x: u64| #[trigger]
                    next.assets.contains_key(x) ==> {
                        &&& next.assets[x].data == self.assets[x].data
                        &&& next.assets[x].refs == self.assets[x].refs - if self.cached.contains(
                            x,
                        ) {
                            1int
                        } else {
                            0
                        }
                        &&& next.assets[x].refs == self.handles(x) + if self.queue.contains(x)
                            || self.taken.contains(x) {
                            1int
                        } else {
                            0
                        }
                    }
                &&& forall|x: u64| #[trigger] next.handles(x) == self.handles(x)
                &&& self.queue.is_prefix_of(next.queue)
                &&& added.no_duplicates()
                &&& if self.closed {
                    &&& next.queue == self.queue
                    &&& next.jobs == self.jobs
                    &&& next.changes == self.changes
                    &&& forall|x: u64| #[trigger]
                        next.lost.contains(x) <==> self.lost.contains(x) || only_cached(x)
                    &&& next.wakes == self.wakes + if self.queue.len() + self.taken.len() == 0 {
                        next.lost.difference(self.lost).len()
                    } else {
                        0
                    }
                } else {
                    &&& forall|x: u64| #[trigger] added.contains(x) <==> only_cached(x)
                    &&& forall|x: u64| #[trigger]
                        next.jobs.contains_key(x) <==> self.jobs.contains_key(x) || only_cached(x)
                    &&& forall|x: u64| #[trigger]
                        next.jobs.contains_key(x) ==> next.jobs[x] == if only_cached(x) {
                            Job::<S, T>::Free(self.assets[x].data->0->0)
                        } else {
                            self.jobs[x]
                        }
                    &&& next.changes == self.changes + added.len()
                    &&& next.lost == self.lost
                    &&& next.wakes == self.wakes
                }
            }),
    {
        let next = self.clear_cache();
        let last = |x: u64| self.last_of_output(x);
        let dropped = self.cached.filter(last);
        let added = next.queue.skip(self.queue.len() as int);
        self.lemma_clear_cache();
        crate::laws::lemma_filter_distinct(self.cached, last);
        assert forall|x: u64| #[trigger] dropped.contains(x) <==> self.cached.contains(x) && last(
            x,
        ) by {
            if dropped.contains(x) {
                crate::laws::lemma_filter_subset(self.cached, last, x);
            }
        }
        if self.closed {
            dropped.unique_seq_to_set();
            assert(next.lost.difference(self.lost) =~= dropped.to_set());
        } else {
            assert(added =~= dropped);
        }
    }

    /// Closing closes, wakes whoever waits for a task, the first time, and does nothing else. The loader
    /// goes on to exist, and counts the tasks that are left.
    pub proof fn law_close_effect(self)
        requires
            self.inv(),
        ensures
            ({
                let next = self.close();
                &&& next.inv()
                &&& next == (LoaderModel { closed: true, changes: next.changes, ..self })
                &&& self.closed ==> next.changes == self.changes
                &&& !self.closed ==> next.changes == self.changes + 1
            }),
    {
    }

    /// Dropping the loader takes away the queue and the cache. Assets lose the references of these, and
    /// go if there are no others. A load that was queued leaves its asset abandoned; every other
    /// asset keeps what it has. Tasks that were taken stay, and whoever waits is woken once.
    pub proof fn law_shut_down_effect(self)
        requires
            self.inv(),
            self.alive,
        ensures
            ({
                let next = self.shut_down();
                let refs_left = |x: u64|
                    self.assets[x].refs - (if self.queue.contains(x) {
                        1int
                    } else {
                        0
                    }) - (if self.cached.contains(x) {
                        1int
                    } else {
                        0
                    });
                &&& next.inv()
                &&& next == (LoaderModel {
                    assets: next.assets,
                    queue: Seq::empty(),
                    jobs: Map::empty(),
                    cache: Map::empty(),
                    cached: Seq::empty(),
                    closed: true,
                    alive: false,
                    changes: self.changes + 1,
                    ..self
                })
                &&& forall|x: u64| #[trigger]
                    next.assets.contains_key(x) <==> self.assets.contains_key(x) && refs_left(x) > 0
                &&& forall|x: u64| #[trigger]
                    next.assets.contains_key(x) ==> {
                        &&& next.assets[x].refs == refs_left(x)
                        &&& self.queue.contains(x) ==> next.assets[x].data == Some(None::<T>)
                        &&& !self.queue.contains(x) ==> next.assets[x].data == self.assets[x].data
                    }
                &&& forall|x: u64| #[trigger] next.handles(x) == self.handles(x)
            }),
    {
    }

    // ---- Any event ----

    /// Only dropping ends a loader, only closing or dropping closes it, and neither is ever undone.
    pub proof fn law_only_drop_ends(self, event: Event<K, S, T>)
        requires
            self.inv(),
            self.enabled(event),
        ensures
            self.apply(event).alive == (self.alive && event !is ShutDown),
            self.apply(event).closed == (self.closed || event is Close || event is ShutDown),
    {
    }

    /// The references of the cache come from requests for new keys only, and go only when the cache is
    /// cleared or the loader dropped.
    pub proof fn law_only_requests_fill_the_cache(self, event: Event<K, S, T>)
        requires
            self.inv(),
            self.enabled(event),
        ensures
            match event {
                Event::LoadCached(key, _) if !self.cache.contains_key(key) => {
                    &&& self.apply(event).cached == self.cached.push(self.next_id as u64)
                    &&& self.apply(event).cache == self.cache.insert(key, self.next_id as u64)
                },
                Event::ClearCache => self.apply(event).cached.len() == 0
                    && self.apply(event).cache =~= Map::empty(),
                Event::ShutDown => self.apply(event).cached.len() == 0
                    && self.apply(event).cache =~= Map::empty(),
                _ => self.apply(event).cached == self.cached && self.apply(event).cache
                    == self.cache,
            },
    {
    }

    /// An asset that no key stands for, that has no handles, and whose load is over does not exist.
    pub proof fn law_unreferenced_is_gone(self, id: u64)
        requires
            self.inv(),
            self.handles(id) == 0,
            !self.queue.contains(id),
            !self.taken.contains(id),
            forall|key: K| #[trigger] self.cache.contains_key(key) ==> self.cache[key] != id,
        ensures
            !self.assets.contains_key(id),
    {
    }

    /// A load that is begun reaches whoever takes tasks, and what it returns is what the handle gives:
    /// with nothing queued before it, the task taken next is to load the source, and settling it
    /// fills the handle, or abandons it.
    pub proof fn law_load_round_trip(self, source: S, outcome: Option<T>)
        requires
            self.inv(),
            self.alive,
            !self.closed,
            self.queue.len() == 0,
            self.next_id < u64::MAX - 1,
        ensures
            ({
                let id = self.next_id as u64;
                let loaded = self.load(source);
                let taken = loaded.take();
                let settled = taken.settle(id, outcome);
                &&& loaded.queue[0] == id
                &&& loaded.jobs[id] == Job::<S, T>::Load(source)
                &&& taken.assets[id].data is None
                &&& settled.assets[id].data == Some(outcome)
                &&& settled.handles(id) == 1
                &&& settled.taken =~= self.taken
                &&& settled.queue.len() == 0
                &&& settled.unref(id).jobs.contains_key(id) <==> outcome is Some
                &&& outcome is Some ==> settled.unref(id).jobs[id] == Job::<S, T>::Free(outcome->0)
                &&& outcome is Some ==> settled.unref(id).take().freed(id).live =~= self.live
            }),
    {
    }

    /// A loader exists exactly as long as it has not been dropped.
    pub proof fn law_alive_until_dropped(events: Seq<Event<K, S, T>>)
        requires
            Self::init().can_run(events),
        ensures
            Self::init().run(events).alive <==> forall|i: int|
                0 <= i < events.len() ==> #[trigger] events[i] !is ShutDown,
        decreases events.len(),
    {
        if events.len() > 0 {
            let init = events.drop_last();
            Self::init().law_invariant_kept(init);
            Self::law_alive_until_dropped(init);
            Self::init().run(init).law_only_drop_ends(events.last());
            assert forall|i: int| 0 <= i < init.len() implies init[i] == #[trigger] events[i] by {}
        }
    }
}

} // verus!
