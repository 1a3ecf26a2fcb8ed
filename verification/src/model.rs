//! What a loader is, as mathematics: its state, and what each event does to it.
use crate::task::Job;
use vstd::prelude::*;

verus! {

/// One asset as its references see it.
pub struct AssetModel<T> {
    /// How many references keep the asset: handles, the cache, and the task that loads it.
    pub refs: nat,
    /// `None` until the load is settled, then for good `Some(Some(output))` if it succeeded and
    /// `Some(None)` if the asset is abandoned.
    pub data: Option<Option<T>>,
}

/// The state of a loader. An asset and the one task that may be outstanding for it (its load, or
/// later its disposal) go by the same number, which is never used again.
#[verifier::ext_equal]
#[verifier::reject_recursive_types(K)]
pub struct LoaderModel<K, S, T> {
    /// The assets that something still refers to.
    pub assets: Map<u64, AssetModel<T>>,
    /// The submitted tasks that nobody has taken, in the order of submission.
    pub queue: Seq<u64>,
    /// What each queued task has to do.
    pub jobs: Map<u64, Job<S, T>>,
    /// The tasks that were taken and have not finished.
    pub taken: Set<u64>,
    /// The assets whose disposal was dropped without being run.
    pub lost: Set<u64>,
    /// The assets that were loaded and have not been freed.
    pub live: Set<u64>,
    /// Which asset each key stands for.
    pub cache: Map<K, u64>,
    /// The assets that the cache refers to, in the order in which they entered it.
    pub cached: Seq<u64>,
    /// Whether submission of work is disabled.
    pub closed: bool,
    /// Whether the loader still exists. Assets, and tasks that were taken, may outlive it.
    pub alive: bool,
    /// How often those who wait for the loader to drain have been woken.
    pub wakes: nat,
    /// How often those who wait for a task or for an asset have been woken.
    pub changes: nat,
    /// The number of the next asset.
    pub next_id: nat,
}

impl<K, S, T> LoaderModel<K, S, T> {
    /// A new loader.
    pub open spec fn init() -> Self {
        LoaderModel {
            assets: Map::empty(),
            queue: Seq::empty(),
            jobs: Map::empty(),
            taken: Set::empty(),
            lost: Set::empty(),
            live: Set::empty(),
            cache: Map::empty(),
            cached: Seq::empty(),
            closed: false,
            alive: true,
            wakes: 0,
            changes: 0,
            next_id: 0,
        }
    }

    /// How many tasks are active, that is waiting or running.
    pub open spec fn active(self) -> nat {
        self.queue.len() + self.taken.len()
    }

    /// Whether a task for asset `id` is waiting or running. While the asset exists, that task is
    /// its load.
    pub open spec fn pending(self, id: u64) -> bool {
        self.queue.contains(id) || self.taken.contains(id)
    }

    /// How many handles to asset `id` are out: the references that neither its load task nor the
    /// cache accounts for.
    pub open spec fn handles(self, id: u64) -> int {
        if self.assets.contains_key(id) {
            self.assets[id].refs - (if self.pending(id) {
                1int
            } else {
                0
            }) - (if self.cached.contains(id) {
                1int
            } else {
                0
            })
        } else {
            0
        }
    }

    /// The value of asset `id`, if it is loaded.
    pub open spec fn value(self, id: u64) -> Option<T> {
        match self.assets[id].data {
            Some(data) => data,
            None => None,
        }
    }

    /// Whether asset `id` is abandoned.
    pub open spec fn abandoned(self, id: u64) -> bool {
        self.assets[id].data == Some(None::<T>)
    }

    /// Whether the task `id` that was taken is a load.
    pub open spec fn loading(self, id: u64) -> bool {
        self.taken.contains(id) && self.assets.contains_key(id)
    }

    /// Whether the task `id` that was taken is a disposal.
    pub open spec fn freeing(self, id: u64) -> bool {
        self.taken.contains(id) && !self.assets.contains_key(id)
    }

    /// Whether whoever asks for the next task is told to shut down.
    pub open spec fn told_to_stop(self) -> bool {
        self.closed
    }

    /// The tasks that wait, in order, each with the number of its asset and what it has to do.
    pub open spec fn tasks(self) -> Seq<(u64, Job<S, T>)> {
        self.queue.map_values(|id: u64| (id, self.jobs[id]))
    }

    /// Whether one more asset can be numbered.
    pub open spec fn has_room(self) -> bool {
        self.next_id + 1 < u64::MAX
    }

    /// Whether one more reference to asset `id` can be counted.
    pub open spec fn can_refer(self, id: u64) -> bool {
        self.assets.contains_key(id) && self.assets[id].refs < u64::MAX
    }

    /// Whether a request for `key` can be served: one more handle to the asset that it stands for
    /// can be counted, or if there is none, one more asset can be numbered.
    pub open spec fn can_load_cached(self, key: K) -> bool {
        if self.cache.contains_key(key) {
            self.can_refer(self.cache[key])
        } else {
            self.has_room()
        }
    }

    // ---- Invariant ----

    /// Every number in use was given out before.
    pub open spec fn inv_numbers(self) -> bool {
        &&& self.next_id < u64::MAX
        &&& forall|id: u64| #[trigger] self.assets.contains_key(id) ==> id < self.next_id
        &&& forall|id: u64| #[trigger] self.queue.contains(id) ==> id < self.next_id
        &&& forall|id: u64| #[trigger] self.taken.contains(id) ==> id < self.next_id
        &&& forall|id: u64| #[trigger] self.lost.contains(id) ==> id < self.next_id
        &&& forall|id: u64| #[trigger] self.live.contains(id) ==> id < self.next_id
    }

    /// A task is in one place only, and each queued task has something to do.
    pub open spec fn inv_tasks(self) -> bool {
        &&& self.taken.finite()
        &&& self.lost.finite()
        &&& self.live.finite()
        &&& self.queue.no_duplicates()
        &&& forall|id: u64| #[trigger]
            self.queue.contains(id) ==> !self.taken.contains(id) && !self.lost.contains(id)
        &&& forall|id: u64| #[trigger] self.taken.contains(id) ==> !self.lost.contains(id)
        &&& forall|id: u64| #[trigger] self.jobs.contains_key(id) <==> self.queue.contains(id)
        &&& forall|id: u64| #[trigger]
            self.jobs.contains_key(id) ==> (self.jobs[id] is Load <==> self.assets.contains_key(id))
    }

    /// An asset is there as long as something refers to it, and is settled exactly when no load
    /// task for it is outstanding.
    pub open spec fn inv_assets(self) -> bool {
        forall|id: u64| #[trigger]
            self.assets.contains_key(id) ==> {
                &&& self.assets[id].refs > 0
                &&& self.handles(id) >= 0
                &&& self.assets[id].data is None <==> self.pending(id)
                &&& !self.lost.contains(id)
            }
    }

    /// The assets loaded and not freed are the assets with an output, and those whose disposal is
    /// outstanding or lost.
    pub open spec fn inv_live(self) -> bool {
        forall|id: u64| #[trigger]
            self.live.contains(id) <==> {
                if self.assets.contains_key(id) {
                    self.assets[id].data matches Some(Some(_))
                } else {
                    self.pending(id) || self.lost.contains(id)
                }
            }
    }

    /// Each key stands for an asset of its own, which the cache refers to, and it refers to no others.
    pub open spec fn inv_cache(self) -> bool {
        &&& self.cached.no_duplicates()
        &&& forall|id: u64| #[trigger] self.cached.contains(id) ==> self.assets.contains_key(id)
        &&& forall|key: K| #[trigger]
            self.cache.contains_key(key) ==> self.cached.contains(self.cache[key])
        &&& forall|id: u64| #[trigger] self.cached.contains(id) ==> self.cache.contains_value(id)
        &&& forall|k1: K, k2: K|
            #![trigger self.cache[k1], self.cache[k2]]
            self.cache.contains_key(k1) && self.cache.contains_key(k2) && self.cache[k1]
                == self.cache[k2] ==> k1 == k2
    }

    /// What holds of a loader even while it is being dropped.
    pub open spec fn inv_core(self) -> bool {
        &&& self.inv_numbers()
        &&& self.inv_tasks()
        &&& self.inv_assets()
        &&& self.inv_cache()
    }

    /// What holds of a loader at all times.
    pub open spec fn inv(self) -> bool {
        &&& self.inv_core()
        &&& if self.alive {
            self.inv_live()
        } else {
            &&& self.queue.len() == 0
            &&& self.cached.len() == 0
            &&& self.closed
        }
    }

    // ---- Tasks ----

    /// One active task less. Whoever waits for the loader to drain is woken when it was the last; a
    /// loader that was dropped has nobody who waits for that.
    pub open spec fn finished(self, id: u64) -> Self {
        let rest = LoaderModel { taken: self.taken.remove(id), ..self };
        LoaderModel {
            wakes: if self.alive && rest.active() == 0 {
                self.wakes + 1
            } else {
                self.wakes
            },
            ..rest
        }
    }

    /// The output of asset `id` is handed back to be disposed of, and whoever waits for a task is
    /// woken. A closed loader drops the task at once, and the output is lost: an active task comes and
    /// goes.
    pub open spec fn free(self, id: u64, data: T) -> Self {
        if self.closed {
            LoaderModel {
                lost: self.lost.insert(id),
                wakes: if self.active() == 0 {
                    self.wakes + 1
                } else {
                    self.wakes
                },
                ..self
            }
        } else {
            LoaderModel {
                queue: self.queue.push(id),
                jobs: self.jobs.insert(id, Job::Free(data)),
                changes: self.changes + 1,
                ..self
            }
        }
    }

    /// The load of asset `id` is settled.
    pub open spec fn settled(self, id: u64, data: Option<T>) -> Self {
        LoaderModel {
            assets: self.assets.insert(
                id,
                AssetModel { data: Some(data), ..self.assets[id] },
            ),
            ..self
        }
    }

    /// Whether giving up one reference to asset `id` hands its output back to be disposed of.
    pub open spec fn last_of_output(self, id: u64) -> bool {
        &&& self.alive
        &&& self.assets[id].refs <= 1
        &&& self.assets[id].data matches Some(Some(_))
    }

    /// One reference to asset `id` less. With the last one the asset goes; its output, if it has
    /// one, is handed to the loader if there still is one.
    pub open spec fn unref(self, id: u64) -> Self {
        let asset = self.assets[id];
        if asset.refs > 1 {
            LoaderModel {
                assets: self.assets.insert(
                    id,
                    AssetModel { refs: (asset.refs - 1) as nat, ..asset },
                ),
                ..self
            }
        } else {
            let rest = LoaderModel { assets: self.assets.remove(id), ..self };
            match asset.data {
                Some(Some(data)) => if self.alive {
                    rest.free(id, data)
                } else {
                    rest
                },
                _ => rest,
            }
        }
    }

    /// One reference less to each of `ids`, which are distinct. The assets that this was the last
    /// reference to go, and those of them that have an output are handed to the loader in turn.
    pub open spec fn unref_all(self, ids: Seq<u64>) -> Self {
        let dropped = ids.filter(|id: u64| self.last_of_output(id));
        LoaderModel {
            assets: Map::new(
                |id: u64|
                    self.assets.contains_key(id) && !(ids.contains(id) && self.assets[id].refs
                        <= 1),
                |id: u64|
                    if ids.contains(id) {
                        AssetModel {
                            refs: (self.assets[id].refs - 1) as nat,
                            ..self.assets[id]
                        }
                    } else {
                        self.assets[id]
                    },
            ),
            queue: if self.closed {
                self.queue
            } else {
                self.queue + dropped
            },
            jobs: if self.closed {
                self.jobs
            } else {
                self.jobs.union_prefer_right(
                    Map::new(
                        |id: u64| dropped.contains(id),
                        |id: u64| Job::Free(self.assets[id].data->0->0),
                    ),
                )
            },
            lost: if self.closed {
                self.lost.union(dropped.to_set())
            } else {
                self.lost
            },
            wakes: if self.closed && self.active() == 0 {
                self.wakes + dropped.len()
            } else {
                self.wakes
            },
            changes: if self.closed {
                self.changes
            } else {
                self.changes + dropped.len()
            },
            ..self
        }
    }

    // ---- Events ----

    /// Begins to load `source`, as asset number `next_id`, and wakes whoever waits for a task. The new
    /// asset has one handle. A closed loader drops the task at once, which abandons the asset: an
    /// active task comes and goes.
    pub open spec fn load(self, source: S) -> Self {
        let id = self.next_id as u64;
        let asset = |refs: nat, data: Option<Option<T>>|
            self.assets.insert(id, AssetModel { refs, data });
        if self.closed {
            LoaderModel {
                assets: asset(1, Some(None)),
                next_id: self.next_id + 1,
                wakes: if self.active() == 0 {
                    self.wakes + 1
                } else {
                    self.wakes
                },
                ..self
            }
        } else {
            LoaderModel {
                assets: asset(2, None),
                queue: self.queue.push(id),
                jobs: self.jobs.insert(id, Job::Load(source)),
                changes: self.changes + 1,
                next_id: self.next_id + 1,
                ..self
            }
        }
    }

    /// One more reference to asset `id`.
    pub open spec fn refer(self, id: u64) -> Self {
        let asset = self.assets[id];
        LoaderModel {
            assets: self.assets.insert(id, AssetModel { refs: asset.refs + 1, ..asset }),
            ..self
        }
    }

    /// Begins to load `source` and keeps a reference to the asset under `key`.
    pub open spec fn load_into_cache(self, key: K, source: S) -> Self {
        let id = self.next_id as u64;
        LoaderModel {
            cache: self.cache.insert(key, id),
            cached: self.cached.push(id),
            ..self.load(source).refer(id)
        }
    }

    /// The asset that a request for `key` gets.
    pub open spec fn cached_id(self, key: K) -> u64 {
        if self.cache.contains_key(key) {
            self.cache[key]
        } else {
            self.next_id as u64
        }
    }

    /// A request for `key`: one more handle to the asset it stands for, which is loaded from
    /// `source` if there is none.
    pub open spec fn load_cached(self, key: K, source: S) -> Self {
        if self.cache.contains_key(key) {
            self.refer(self.cache[key])
        } else {
            self.load_into_cache(key, source)
        }
    }

    /// The cache forgets everything and gives its references back.
    pub open spec fn clear_cache(self) -> Self {
        LoaderModel {
            cache: Map::empty(),
            cached: Seq::empty(),
            ..self.unref_all(self.cached)
        }
    }

    /// The task that has waited longest is taken.
    pub open spec fn take(self) -> Self {
        let id = self.queue[0];
        LoaderModel {
            queue: self.queue.drop_first(),
            jobs: self.jobs.remove(id),
            taken: self.taken.insert(id),
            ..self
        }
    }

    /// The load of asset `id` succeeded, and whoever waits for the asset is woken. The task gives its
    /// reference back before it counts as finished.
    pub open spec fn complete(self, id: u64, data: T) -> Self {
        LoaderModel {
            live: self.live.insert(id),
            changes: self.changes + 1,
            ..self.settled(id, Some(data))
        }.unref(id).finished(id)
    }

    /// The load of asset `id` came to nothing: it failed, or its task was dropped. Whoever waits for
    /// the asset is woken.
    pub open spec fn abandon(self, id: u64) -> Self {
        LoaderModel { changes: self.changes + 1, ..self.settled(id, None) }.unref(id).finished(id)
    }

    /// The load of asset `id` returned `outcome`.
    pub open spec fn settle(self, id: u64, outcome: Option<T>) -> Self {
        match outcome {
            Some(data) => self.complete(id, data),
            None => self.abandon(id),
        }
    }

    /// The output of asset `id` has been disposed of.
    pub open spec fn freed(self, id: u64) -> Self {
        LoaderModel { live: self.live.remove(id), ..self }.finished(id)
    }

    /// The disposal of asset `id` was dropped after it had been taken. The task is over, but the
    /// output was not freed.
    pub open spec fn lose(self, id: u64) -> Self {
        LoaderModel { lost: self.lost.insert(id), ..self }.finished(id)
    }

    /// The task `id` was dropped after it had been taken.
    pub open spec fn cancel(self, id: u64) -> Self {
        if self.loading(id) {
            self.abandon(id)
        } else {
            self.lose(id)
        }
    }

    /// Submission of work is disabled. Whoever waits for a task is woken, the first time.
    pub open spec fn close(self) -> Self {
        LoaderModel {
            closed: true,
            changes: if self.closed {
                self.changes
            } else {
                self.changes + 1
            },
            ..self
        }
    }

    /// The loader is dropped, and with it the queued tasks and the cache. What remains are the tasks
    /// that were taken, and the assets that these load or that handles are out for. Assets whose
    /// load was queued are abandoned. Whoever waits for a task or for an asset is woken.
    pub open spec fn shut_down(self) -> Self {
        LoaderModel {
            assets: Map::new(
                |id: u64| self.handles(id) > 0 || self.loading(id),
                |id: u64|
                    AssetModel {
                        refs: (self.handles(id) + if self.loading(id) {
                            1int
                        } else {
                            0
                        }) as nat,
                        data: if self.queue.contains(id) {
                            Some(None)
                        } else {
                            self.assets[id].data
                        },
                    },
            ),
            queue: Seq::empty(),
            jobs: Map::empty(),
            cache: Map::empty(),
            cached: Seq::empty(),
            closed: true,
            alive: false,
            changes: self.changes + 1,
            ..self
        }
    }
}

} // verus!
