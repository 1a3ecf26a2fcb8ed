//! Every event keeps the invariant of the loader.
use crate::model::LoaderModel;
use crate::task::Job;
use vstd::prelude::*;

verus! {

/// Pushing onto a sequence adds one element to what it contains.
pub(crate) proof fn lemma_push_contains(s: Seq<u64>, id: u64)
    ensures
        forall|x: u64| #[trigger] s.push(id).contains(x) <==> s.contains(x) || x == id,
{
    assert forall|x: u64| #[trigger] s.push(id).contains(x) <==> s.contains(x) || x == id by {
        if s.contains(x) {
            let i = s.index_of(x);
            assert(s.push(id)[i] == x);
        }
        assert(s.push(id)[s.len() as int] == id);
    }
}

/// Without its first element, a sequence without duplicates contains one element less.
pub(crate) proof fn lemma_drop_first_contains(s: Seq<u64>)
    requires
        s.len() > 0,
        s.no_duplicates(),
    ensures
        s.drop_first().no_duplicates(),
        forall|x: u64| #[trigger] s.drop_first().contains(x) <==> s.contains(x) && x != s[0],
{
    let t = s.drop_first();
    assert forall|x: u64| #[trigger] t.contains(x) <==> s.contains(x) && x != s[0] by {
        if s.contains(x) && x != s[0] {
            let i = choose|i: int| 0 <= i < s.len() && s[i] == x;
            assert(t[i - 1] == x);
        }
    }
}

/// A set of numbers below `n` has at most `n` elements.
pub(crate) proof fn lemma_below(s: Set<u64>, n: nat)
    requires
        s.finite(),
        forall|id: u64| #[trigger] s.contains(id) ==> id < n,
    ensures
        s.len() <= n,
    decreases n,
{
    if n == 0 {
        assert(s =~= Set::empty());
    } else {
        let m = (n - 1) as nat;
        if m <= u64::MAX {
            lemma_below(s.remove(m as u64), m);
        } else {
            lemma_below(s, m);
        }
    }
}

impl<K, S, T> LoaderModel<K, S, T> {
    pub(crate) proof fn lemma_init()
        ensures
            Self::init().inv(),
            Self::init().active() == 0,
    {
    }

    /// There are never more active tasks than assets were numbered, and as few live assets.
    pub(crate) proof fn lemma_active_bound(self)
        requires
            self.inv(),
        ensures
            self.active() <= self.next_id,
            self.live.len() <= self.next_id,
    {
        let q = self.queue.to_set();
        self.queue.unique_seq_to_set();
        vstd::set_lib::lemma_set_disjoint_lens(q, self.taken);
        lemma_below(q.union(self.taken), self.next_id);
        lemma_below(self.live, self.next_id);
    }

    pub(crate) proof fn lemma_load(self, source: S)
        requires
            self.inv(),
            self.alive,
            self.has_room(),
        ensures
            self.load(source).inv(),
            self.load(source).active() == self.active() + if self.closed { 0int } else { 1 },
            self.load(source).handles(self.next_id as u64) == 1,
            !self.assets.contains_key(self.next_id as u64),
            !self.pending(self.next_id as u64),
            !self.cached.contains(self.next_id as u64),
            forall|x: u64|
                x != self.next_id ==> #[trigger] self.load(source).handles(x) == self.handles(x),
    {
        let id = self.next_id as u64;
        lemma_push_contains(self.queue, id);
        assert(!self.queue.contains(id));
    }

    pub(crate) proof fn lemma_load_into_cache(self, key: K, source: S)
        requires
            self.inv(),
            self.alive,
            self.has_room(),
            !self.cache.contains_key(key),
        ensures
            self.load_into_cache(key, source).inv(),
            self.load_into_cache(key, source).active() == self.load(source).active(),
            self.load_into_cache(key, source).handles(self.next_id as u64) == 1,
            forall|x: u64|
                x != self.next_id ==> #[trigger] self.load_into_cache(key, source).handles(x)
                    == self.handles(x),
    {
        let id = self.next_id as u64;
        self.lemma_load(source);
        self.load(source).lemma_refer(id);
        lemma_push_contains(self.cached, id);
        let cache = self.cache.insert(key, id);
        assert(cache.contains_key(key) && cache[key] == id);
        assert forall|x: u64| #[trigger] self.cached.contains(x) implies cache.contains_value(x) by {
            let k = choose|k: K| #[trigger] self.cache.contains_key(k) && self.cache[k] == x;
            assert(cache.contains_key(k) && cache[k] == x);
        }
    }

    pub(crate) proof fn lemma_unref(self, id: u64)
        requires
            self.inv_core(),
            self.alive ==> self.inv_live(),
            self.handles(id) > 0,
        ensures
            self.unref(id).inv_core(),
            self.alive ==> self.unref(id).inv_live(),
            self.unref(id).handles(id) == self.handles(id) - 1,
            forall|x: u64| x != id ==> #[trigger] self.unref(id).handles(x) == self.handles(x),
            self.unref(id).active() == self.active() + if self.last_of_output(id) && !self.closed {
                1int
            } else {
                0
            },
    {
        lemma_push_contains(self.queue, id);
    }

    pub(crate) proof fn lemma_refer(self, id: u64)
        requires
            self.inv(),
            self.assets.contains_key(id),
        ensures
            self.refer(id).inv(),
            self.refer(id).active() == self.active(),
            self.refer(id).handles(id) == self.handles(id) + 1,
            forall|x: u64| x != id ==> #[trigger] self.refer(id).handles(x) == self.handles(x),
    {
    }

    pub(crate) proof fn lemma_take(self)
        requires
            self.inv(),
            self.alive,
            self.queue.len() > 0,
        ensures
            self.take().inv(),
            self.take().active() == self.active(),
            self.jobs.contains_key(self.queue[0]),
            self.jobs[self.queue[0]] is Load <==> self.take().loading(self.queue[0]),
            self.jobs[self.queue[0]] is Free <==> self.take().freeing(self.queue[0]),
            forall|x: u64| #[trigger] self.take().handles(x) == self.handles(x),
    {
        let id = self.queue[0];
        lemma_drop_first_contains(self.queue);
        assert(self.queue.contains(id));
        assert(self.jobs.contains_key(id));
    }

    /// The loader right after load task `id` has settled its asset with `data`, when all that is
    /// left of the task is its reference.
    pub open spec fn after_load(self, id: u64, data: Option<T>) -> Self {
        LoaderModel {
            taken: self.taken.remove(id),
            live: if data is Some {
                self.live.insert(id)
            } else {
                self.live
            },
            changes: self.changes + 1,
            ..self.settled(id, data)
        }
    }

    proof fn lemma_after_load(self, id: u64, data: Option<T>)
        requires
            self.inv(),
            self.loading(id),
        ensures
            self.after_load(id, data).inv(),
            self.after_load(id, data).active() == self.active() - 1,
            self.after_load(id, data).handles(id) == self.handles(id) + 1,
            forall|x: u64|
                x != id ==> #[trigger] self.after_load(id, data).handles(x) == self.handles(x),
    {
    }

    pub(crate) proof fn lemma_settle(self, id: u64, outcome: Option<T>)
        requires
            self.inv(),
            self.loading(id),
        ensures
            self.settle(id, outcome).inv(),
            self.settle(id, outcome).active() == self.active() - 1 + if outcome is Some
                && self.assets[id].refs <= 1 && !self.closed {
                1int
            } else {
                0
            },
            forall|x: u64| #[trigger] self.settle(id, outcome).handles(x) == self.handles(x),
    {
        self.lemma_after_load(id, outcome);
        self.after_load(id, outcome).lemma_unref(id);
    }

    pub(crate) proof fn lemma_freed(self, id: u64)
        requires
            self.inv(),
            self.freeing(id),
        ensures
            self.freed(id).inv(),
            self.freed(id).active() == self.active() - 1,
            self.alive ==> self.freed(id).live.len() == self.live.len() - 1,
            forall|x: u64| #[trigger] self.freed(id).handles(x) == self.handles(x),
    {
    }

    pub(crate) proof fn lemma_lose(self, id: u64)
        requires
            self.inv(),
            self.freeing(id),
        ensures
            self.lose(id).inv(),
            self.lose(id).active() == self.active() - 1,
            forall|x: u64| #[trigger] self.lose(id).handles(x) == self.handles(x),
    {
    }

    pub(crate) proof fn lemma_close(self)
        requires
            self.inv(),
        ensures
            self.close().inv(),
            self.close().active() == self.active(),
            forall|x: u64| #[trigger] self.close().handles(x) == self.handles(x),
    {
    }

    /// Giving references back one by one.
    pub(crate) proof fn lemma_unref_step(self, ids: Seq<u64>)
        requires
            ids.no_duplicates(),
            forall|id: u64| #[trigger] ids.contains(id) ==> self.assets.contains_key(id),
        ensures
            ids.len() == 0 ==> self.unref_all(ids) == self,
            ids.len() > 0 ==> self.unref_all(ids) == self.unref_all(ids.drop_last()).unref(
                ids.last(),
            ),
            ids.len() > 0 ==> !ids.drop_last().contains(ids.last()),
            ids.len() > 0 ==> forall|x: u64| #[trigger]
                ids.contains(x) <==> ids.drop_last().contains(x) || x == ids.last(),
    {
        let last = |id: u64| self.last_of_output(id);
        reveal(Seq::filter);
        if ids.len() > 0 {
            let init = ids.drop_last();
            let id = ids.last();
            assert forall|x: u64| #[trigger] ids.contains(x) <==> init.contains(x) || x == id by {
                assert(init.push(id) =~= ids);
                lemma_push_contains(init, id);
            }
            lemma_push_contains(init.filter(last), id);
            assert(ids.contains(id));
        }
    }

    pub(crate) proof fn lemma_unref_all(self, ids: Seq<u64>)
        requires
            self.inv_core(),
            self.alive ==> self.inv_live(),
            ids.no_duplicates(),
            forall|id: u64| #[trigger] ids.contains(id) ==> self.handles(id) > 0,
        ensures
            self.unref_all(ids).inv_core(),
            self.alive ==> self.unref_all(ids).inv_live(),
            forall|x: u64| #[trigger]
                self.unref_all(ids).handles(x) == self.handles(x) - if ids.contains(x) {
                    1int
                } else {
                    0
                },
        decreases ids.len(),
    {
        self.lemma_unref_step(ids);
        if ids.len() > 0 {
            let init = ids.drop_last();
            let id = ids.last();
            assert forall|x: u64| #[trigger] init.contains(x) implies self.handles(x) > 0 by {
                assert(ids.contains(x));
            }
            self.lemma_unref_all(init);
            assert(ids.contains(id));
            self.unref_all(init).lemma_unref(id);
        }
    }

    /// The loader with an empty cache, whose references have not been given back.
    pub open spec fn forget_cache(self) -> Self {
        LoaderModel { cache: Map::empty(), cached: Seq::empty(), ..self }
    }

    pub(crate) proof fn lemma_forget_cache(self)
        requires
            self.inv_core(),
            self.alive ==> self.inv_live(),
        ensures
            self.forget_cache().inv_core(),
            self.alive ==> self.forget_cache().inv_live(),
            forall|x: u64| #[trigger]
                self.forget_cache().handles(x) == self.handles(x) + if self.cached.contains(x) {
                    1int
                } else {
                    0
                },
            forall|x: u64| #[trigger]
                self.cached.contains(x) ==> self.forget_cache().handles(x) > 0,
    {
    }

    /// Clearing the cache is forgetting it and giving its references back.
    pub(crate) proof fn lemma_clear_is_unref(self)
        ensures
            self.clear_cache() == self.forget_cache().unref_all(self.cached),
    {
        let forgotten = self.forget_cache();
        assert((|id: u64| self.last_of_output(id)) =~= (|id: u64| forgotten.last_of_output(id)));
    }

    pub(crate) proof fn lemma_clear_cache(self)
        requires
            self.inv(),
        ensures
            self.clear_cache().inv(),
            forall|x: u64| #[trigger] self.clear_cache().handles(x) == self.handles(x),
    {
        self.lemma_forget_cache();
        self.forget_cache().lemma_unref_all(self.cached);
        self.lemma_clear_is_unref();
    }

    /// The queued task at the front is dropped together with the loader.
    pub open spec fn drop_front(self) -> Self {
        let id = self.queue[0];
        let rest = LoaderModel {
            queue: self.queue.drop_first(),
            jobs: self.jobs.remove(id),
            ..self
        };
        match self.jobs[id] {
            Job::Load(_) => rest.settled(id, None).unref(id),
            Job::Free(_) => rest,
        }
    }

    pub(crate) proof fn lemma_drop_front(self)
        requires
            self.inv_core(),
            !self.alive,
            self.queue.len() > 0,
        ensures
            self.drop_front().inv_core(),
            forall|x: u64| #[trigger] self.drop_front().handles(x) == self.handles(x),
            self.jobs.contains_key(self.queue[0]),
            self.jobs[self.queue[0]] is Load ==> self.assets.contains_key(self.queue[0])
                && self.assets[self.queue[0]].data is None,
    {
        let id = self.queue[0];
        lemma_drop_first_contains(self.queue);
        assert(self.jobs.contains_key(id));
        let rest = LoaderModel {
            queue: self.queue.drop_first(),
            jobs: self.jobs.remove(id),
            ..self
        };
        if self.jobs[id] is Load {
            rest.settled(id, None).lemma_unref(id);
        }
    }

    /// A loader whose drop has begun.
    pub open spec fn dying(self) -> Self {
        LoaderModel { alive: false, closed: true, ..self }
    }

    pub(crate) proof fn lemma_dying(self)
        requires
            self.inv(),
        ensures
            self.dying().inv_core(),
            self.dying().shut_down() == self.shut_down(),
    {
    }

    /// Dropping one queued task more does not change what will be left.
    pub(crate) proof fn lemma_shut_down_step(self)
        requires
            self.inv_core(),
            !self.alive,
            self.queue.len() > 0,
        ensures
            self.drop_front().shut_down() == self.shut_down(),
    {
        self.lemma_drop_front();
    }

    /// With nothing queued, all that is left to drop is the cache.
    pub(crate) proof fn lemma_shut_down_last(self)
        requires
            self.inv_core(),
            !self.alive,
            self.closed,
            self.queue.len() == 0,
        ensures
            self.shut_down() == (LoaderModel {
                changes: self.changes + 1,
                ..self.clear_cache()
            }),
    {
        let last = |id: u64| self.last_of_output(id);
        if self.cached.filter(last).len() > 0 {
            self.cached.lemma_filter_pred(last, 0);
        }
    }

    pub(crate) proof fn lemma_shut_down(self)
        requires
            self.inv(),
        ensures
            self.shut_down().inv(),
            forall|x: u64| #[trigger] self.shut_down().handles(x) == self.handles(x),
    {
    }
}

} // verus!
