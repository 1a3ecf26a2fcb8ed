//! What holds of a loader over any number of events.
use crate::model::LoaderModel;
use crate::task::Job;
use vstd::prelude::*;

verus! {

/// What can happen to a loader.
pub enum Event<K, S, T> {
    /// A load is begun.
    Load(S),
    /// An asset is requested by its key.
    LoadCached(K, S),
    /// The cache is cleared.
    ClearCache,
    /// A task is taken.
    Take,
    /// A load returns.
    Settle(u64, Option<T>),
    /// A disposal is done.
    Freed(u64),
    /// A disposal is dropped.
    Lose(u64),
    /// Submission of work is disabled.
    Close,
    /// A handle is cloned.
    Clone(u64),
    /// A handle is dropped.
    Release(u64),
    /// The loader is dropped.
    ShutDown,
}

/// What a filter keeps was there before.
pub(crate) proof fn lemma_filter_subset(s: Seq<u64>, pred: spec_fn(u64) -> bool, x: u64)
    requires
        s.filter(pred).contains(x),
    ensures
        s.contains(x),
    decreases s.len(),
{
    reveal(Seq::filter);
    if s.len() > 0 {
        let init = s.drop_last();
        let kept = init.filter(pred);
        crate::upkeep::lemma_push_contains(kept, s.last());
        if kept.contains(x) {
            lemma_filter_subset(init, pred, x);
        }
    }
}

/// What a filter keeps of distinct elements is distinct.
pub(crate) proof fn lemma_filter_distinct(s: Seq<u64>, pred: spec_fn(u64) -> bool)
    requires
        s.no_duplicates(),
    ensures
        s.filter(pred).no_duplicates(),
    decreases s.len(),
{
    reveal(Seq::filter);
    if s.len() > 0 {
        let init = s.drop_last();
        let kept = init.filter(pred);
        lemma_filter_distinct(init, pred);
        assert(!kept.contains(s.last())) by {
            if kept.contains(s.last()) {
                lemma_filter_subset(init, pred, s.last());
            }
        }
    }
}

impl<K, S, T> LoaderModel<K, S, T> {
    /// Whether `event` can happen now.
    pub open spec fn enabled(self, event: Event<K, S, T>) -> bool {
        match event {
            Event::Load(_) => self.alive && self.has_room(),
            Event::LoadCached(key, _) => self.alive && self.can_load_cached(key),
            Event::ClearCache => self.alive,
            Event::Take => self.alive && self.queue.len() > 0,
            Event::Settle(id, _) => self.loading(id),
            Event::Freed(id) => self.freeing(id),
            Event::Lose(id) => self.freeing(id),
            Event::Close => self.alive,
            Event::Clone(id) => self.handles(id) > 0 && self.can_refer(id),
            Event::Release(id) => self.handles(id) > 0,
            Event::ShutDown => self.alive,
        }
    }

    /// The loader after `event`.
    pub open spec fn apply(self, event: Event<K, S, T>) -> Self {
        match event {
            Event::Load(source) => self.load(source),
            Event::LoadCached(key, source) => self.load_cached(key, source),
            Event::ClearCache => self.clear_cache(),
            Event::Take => self.take(),
            Event::Settle(id, outcome) => self.settle(id, outcome),
            Event::Freed(id) => self.freed(id),
            Event::Lose(id) => self.lose(id),
            Event::Close => self.close(),
            Event::Clone(id) => self.refer(id),
            Event::Release(id) => self.unref(id),
            Event::ShutDown => self.shut_down(),
        }
    }

    /// The loader after `events`, from first to last.
    pub open spec fn run(self, events: Seq<Event<K, S, T>>) -> Self
        decreases events.len(),
    {
        if events.len() == 0 {
            self
        } else {
            self.run(events.drop_last()).apply(events.last())
        }
    }

    /// Whether `events` can happen one after the other.
    pub open spec fn can_run(self, events: Seq<Event<K, S, T>>) -> bool
        decreases events.len(),
    {
        events.len() > 0 ==> {
            &&& self.can_run(events.drop_last())
            &&& self.run(events.drop_last()).enabled(events.last())
        }
    }

    /// How many handles to asset `id` an event adds.
    pub open spec fn handles_added(self, event: Event<K, S, T>, id: u64) -> int {
        match event {
            Event::Load(_) => if id == self.next_id {
                1
            } else {
                0
            },
            Event::LoadCached(key, _) => if id == self.cached_id(key) {
                1
            } else {
                0
            },
            Event::Clone(x) => if id == x {
                1
            } else {
                0
            },
            Event::Release(x) => if id == x {
                -1
            } else {
                0
            },
            _ => 0,
        }
    }

    proof fn lemma_apply(self, event: Event<K, S, T>)
        requires
            self.inv(),
            self.enabled(event),
        ensures
            self.apply(event).inv(),
            self.next_id <= self.apply(event).next_id,
            self.apply(event).alive ==> self.alive,
            forall|id: u64| #[trigger]
                self.apply(event).handles(id) == self.handles(id) + self.handles_added(event, id),
    {
        match event {
            Event::Load(source) => self.lemma_load(source),
            Event::LoadCached(key, source) => {
                if self.cache.contains_key(key) {
                    self.lemma_refer(self.cache[key]);
                } else {
                    self.lemma_load(source);
                    self.lemma_load_into_cache(key, source);
                }
            },
            Event::ClearCache => self.lemma_clear_cache(),
            Event::Take => self.lemma_take(),
            Event::Settle(id, outcome) => self.lemma_settle(id, outcome),
            Event::Freed(id) => self.lemma_freed(id),
            Event::Lose(id) => self.lemma_lose(id),
            Event::Close => self.lemma_close(),
            Event::Clone(id) => self.lemma_refer(id),
            Event::Release(id) => self.lemma_unref(id),
            Event::ShutDown => self.lemma_shut_down(),
        }
    }

    /// The invariant of a loader survives whatever happens to it.
    pub proof fn law_invariant_kept(self, events: Seq<Event<K, S, T>>)
        requires
            self.inv(),
            self.can_run(events),
        ensures
            self.run(events).inv(),
            self.next_id <= self.run(events).next_id,
            self.run(events).alive ==> self.alive,
        decreases events.len(),
    {
        if events.len() > 0 {
            self.law_invariant_kept(events.drop_last());
            self.run(events.drop_last()).lemma_apply(events.last());
        }
    }

    // ---- Assets ----

    /// An asset that is held is in exactly one of three states: its load is outstanding, it has a
    /// value, or it is abandoned.
    pub proof fn law_one_of_three(self, id: u64)
        requires
            self.inv(),
            self.handles(id) > 0,
        ensures
            self.pending(id) <==> !self.abandoned(id) && self.value(id) is None,
            self.abandoned(id) ==> self.value(id) is None,
    {
    }

    proof fn lemma_apply_settled(self, event: Event<K, S, T>, id: u64)
        requires
            self.inv(),
            self.enabled(event),
            id < self.next_id,
            self.apply(event).assets.contains_key(id),
        ensures
            self.assets.contains_key(id),
            self.assets[id].data is Some ==> self.apply(event).assets[id].data
                == self.assets[id].data,
    {
    }

    /// A settled asset never changes again: an abandoned asset is abandoned for good, so that it
    /// has no value forever, and a value, once there, stays the same.
    pub proof fn law_settled_for_good(self, events: Seq<Event<K, S, T>>, id: u64)
        requires
            self.inv(),
            self.can_run(events),
            id < self.next_id,
            self.run(events).assets.contains_key(id),
        ensures
            self.assets.contains_key(id),
            self.abandoned(id) ==> self.run(events).abandoned(id) && self.run(events).value(id)
                is None,
            self.value(id) is Some ==> self.run(events).value(id) == self.value(id),
        decreases events.len(),
    {
        if events.len() > 0 {
            let before = self.run(events.drop_last());
            self.law_invariant_kept(events.drop_last());
            before.lemma_apply_settled(events.last(), id);
            self.law_settled_for_good(events.drop_last(), id);
        }
    }

    /// A load that is begun on an open loader adds one task behind those that wait, which is to load
    /// the source, and until that task is settled the asset is neither loaded nor abandoned.
    pub proof fn law_load_queues(self, source: S)
        requires
            self.inv(),
            self.enabled(Event::Load(source)),
            !self.closed,
        ensures
            ({
                let id = self.next_id as u64;
                let next = self.load(source);
                &&& next.tasks() == self.tasks().push((id, Job::Load(source)))
                &&& next.handles(id) == 1
                &&& next.pending(id)
                &&& next.value(id) is None
                &&& !next.abandoned(id)
            }),
    {
        self.lemma_load(source);
        self.lemma_apply_tasks(Event::Load(source));
        crate::upkeep::lemma_push_contains(self.queue, self.next_id as u64);
    }

    /// Beginning to load leaves everything else as it was: whether the loader is closed, which
    /// assets are live, the other assets, the tasks that wait or run, and the cache.
    pub proof fn law_load_changes_nothing_else(self, source: S)
        requires
            self.inv(),
            self.enabled(Event::Load(source)),
        ensures
            ({
                let next = self.load(source);
                &&& next.closed == self.closed
                &&& next.live == self.live
                &&& next.lost == self.lost
                &&& next.taken == self.taken
                &&& next.cache == self.cache
                &&& next.cached == self.cached
                &&& self.tasks().is_prefix_of(next.tasks())
                &&& forall|id: u64| #[trigger]
                    self.assets.contains_key(id) ==> next.assets.contains_key(id)
                        && next.assets[id] == self.assets[id]
                &&& forall|id: u64| #[trigger] next.assets.contains_key(id) && id != self.next_id
                    ==> self.assets.contains_key(id)
            }),
    {
        self.lemma_apply_tasks(Event::Load(source));
    }

    /// Handles come from loading and cloning, and go by being dropped. Nothing else that happens
    /// to a loader, not even its end, takes an asset from those who hold it.
    pub proof fn law_handles_counted(self, event: Event<K, S, T>, id: u64)
        requires
            self.inv(),
            self.enabled(event),
        ensures
            self.apply(event).handles(id) == self.handles(id) + self.handles_added(event, id),
    {
        self.lemma_apply(event);
    }

    // ---- Tasks ----

    /// What a task has to do is fixed when it is submitted.
    pub proof fn law_job_fixed(self, event: Event<K, S, T>, id: u64)
        requires
            self.inv(),
            self.enabled(event),
            self.jobs.contains_key(id),
            self.apply(event).jobs.contains_key(id),
        ensures
            self.apply(event).jobs[id] == self.jobs[id],
    {
        let last = |x: u64| self.last_of_output(x);
        let dropped = self.cached.filter(last);
        if event is ClearCache && dropped.contains(id) {
            let i = choose|i: int| 0 <= i < dropped.len() && dropped[i] == id;
            self.cached.lemma_filter_pred(last, i);
            self.lemma_filter_cached(id);
        }
    }

    /// What is dropped when the cache is cleared was in the cache.
    proof fn lemma_filter_cached(self, id: u64)
        requires
            self.cached.filter(|x: u64| self.last_of_output(x)).contains(id),
        ensures
            self.cached.contains(id),
    {
        lemma_filter_subset(self.cached, |x: u64| self.last_of_output(x), id);
    }

    /// The tasks that an event submits, in order: a load, or the disposal of each output that it
    /// takes the last reference from. A closed loader accepts none.
    pub open spec fn submitted_by(self, event: Event<K, S, T>) -> Seq<(u64, Job<S, T>)> {
        if self.closed {
            Seq::empty()
        } else {
            match event {
                Event::Load(source) => seq![(self.next_id as u64, Job::Load(source))],
                Event::LoadCached(key, source) => if self.cache.contains_key(key) {
                    Seq::empty()
                } else {
                    seq![(self.next_id as u64, Job::Load(source))]
                },
                Event::Settle(id, Some(data)) => if self.assets[id].refs <= 1 {
                    seq![(id, Job::Free(data))]
                } else {
                    Seq::empty()
                },
                Event::Release(id) => if self.last_of_output(id) {
                    seq![(id, Job::Free(self.value(id)->0))]
                } else {
                    Seq::empty()
                },
                Event::ClearCache => self.cached.filter(
                    |id: u64| self.last_of_output(id),
                ).map_values(|id: u64| (id, Job::Free(self.value(id)->0))),
                _ => Seq::empty(),
            }
        }
    }

    proof fn lemma_apply_tasks(self, event: Event<K, S, T>)
        requires
            self.inv(),
            self.enabled(event),
            self.apply(event).alive,
        ensures
            event is Take ==> self.tasks() == seq![self.tasks()[0]] + self.apply(event).tasks(),
            event !is Take ==> self.apply(event).tasks() == self.tasks() + self.submitted_by(event),
    {
        let next = self.apply(event);
        self.lemma_apply(event);
        if event !is Take {
            assert forall|i: int| 0 <= i < self.queue.len() implies #[trigger] next.tasks()[i]
                == self.tasks()[i] by {
                self.law_job_fixed(event, self.queue[i]);
            }
        }
    }

    /// The tasks that were submitted in the course of `events`, in order.
    pub open spec fn submitted_in(self, events: Seq<Event<K, S, T>>) -> Seq<(u64, Job<S, T>)>
        decreases events.len(),
    {
        if events.len() == 0 {
            Seq::empty()
        } else {
            self.submitted_in(events.drop_last()) + self.run(events.drop_last()).submitted_by(
                events.last(),
            )
        }
    }

    /// The tasks that were taken in the course of `events`, in order.
    pub open spec fn taken_in(self, events: Seq<Event<K, S, T>>) -> Seq<(u64, Job<S, T>)>
        decreases events.len(),
    {
        if events.len() == 0 {
            Seq::empty()
        } else if events.last() is Take {
            self.taken_in(events.drop_last()).push(self.run(events.drop_last()).tasks()[0])
        } else {
            self.taken_in(events.drop_last())
        }
    }

    /// Whatever happens, no task is lost, made up, repeated or overtaken: those that waited and
    /// those submitted since are, in this order, those taken since and those that still wait.
    pub proof fn law_first_in_first_out(self, events: Seq<Event<K, S, T>>)
        requires
            self.inv(),
            self.can_run(events),
            self.run(events).alive,
        ensures
            self.tasks() + self.submitted_in(events) == self.taken_in(events) + self.run(
                events,
            ).tasks(),
        decreases events.len(),
    {
        if events.len() > 0 {
            let init = events.drop_last();
            let before = self.run(init);
            self.law_invariant_kept(init);
            before.lemma_apply(events.last());
            self.law_first_in_first_out(init);
            before.lemma_apply_tasks(events.last());
            let all = self.tasks() + self.submitted_in(init);
            assert(self.tasks() + self.submitted_in(events) =~= all + before.submitted_by(
                events.last(),
            ));
        }
    }

    /// Whether two tasks are the same: both load the same asset, or both dispose of its output.
    pub open spec fn same_task(a: (u64, Job<S, T>), b: (u64, Job<S, T>)) -> bool {
        a.0 == b.0 && (a.1 is Load <==> b.1 is Load)
    }

    proof fn lemma_submitted_by(self, event: Event<K, S, T>)
        requires
            self.inv(),
            self.enabled(event),
        ensures
            forall|i: int, j: int|
                0 <= i < j < self.submitted_by(event).len() ==> !Self::same_task(
                    #[trigger] self.submitted_by(event)[i],
                    #[trigger] self.submitted_by(event)[j],
                ),
            forall|i: int|
                0 <= i < self.submitted_by(event).len() ==> {
                    let task = #[trigger] self.submitted_by(event)[i];
                    &&& task.0 < self.apply(event).next_id
                    &&& task.1 is Load ==> task.0 == self.next_id
                    &&& task.1 is Free ==> task.0 < self.next_id && self.assets.contains_key(task.0)
                        && !self.apply(event).assets.contains_key(task.0)
                },
    {
        if event is ClearCache {
            let last = |id: u64| self.last_of_output(id);
            let dropped = self.cached.filter(last);
            lemma_filter_distinct(self.cached, last);
            assert forall|i: int| 0 <= i < dropped.len() implies self.cached.contains(
                #[trigger] dropped[i],
            ) && self.last_of_output(dropped[i]) by {
                self.lemma_filter_cached(dropped[i]);
                self.cached.lemma_filter_pred(last, i);
            }
        }
    }

    /// Each task is submitted once only: an asset is loaded by one task, and its output disposed of
    /// by one.
    pub proof fn law_submitted_once(events: Seq<Event<K, S, T>>, i: int, j: int)
        requires
            Self::init().can_run(events),
            0 <= i < j < Self::init().submitted_in(events).len(),
        ensures
            !Self::same_task(
                Self::init().submitted_in(events)[i],
                Self::init().submitted_in(events)[j],
            ),
    {
        Self::lemma_submitted(events);
    }

    proof fn lemma_submitted(events: Seq<Event<K, S, T>>)
        requires
            Self::init().can_run(events),
        ensures
            forall|i: int, j: int|
                0 <= i < j < Self::init().submitted_in(events).len() ==> !Self::same_task(
                    #[trigger] Self::init().submitted_in(events)[i],
                    #[trigger] Self::init().submitted_in(events)[j],
                ),
            forall|i: int|
                0 <= i < Self::init().submitted_in(events).len() ==> {
                    let task = #[trigger] Self::init().submitted_in(events)[i];
                    &&& task.0 < Self::init().run(events).next_id
                    &&& task.1 is Free ==> !Self::init().run(events).assets.contains_key(task.0)
                },
        decreases events.len(),
    {
        if events.len() > 0 {
            let init = events.drop_last();
            let event = events.last();
            let before = Self::init().run(init);
            Self::lemma_init();
            Self::init().law_invariant_kept(init);
            Self::lemma_submitted(init);
            before.lemma_apply(event);
            before.lemma_submitted_by(event);
        }
    }

    /// Whether nothing is left of asset `id`, nor of its output.
    pub open spec fn gone(self, id: u64) -> bool {
        &&& id < self.next_id
        &&& !self.assets.contains_key(id)
        &&& !self.pending(id)
        &&& !self.lost.contains(id)
        &&& !self.live.contains(id)
    }

    proof fn lemma_apply_gone(self, event: Event<K, S, T>, id: u64)
        requires
            self.inv(),
            self.enabled(event),
            self.gone(id),
        ensures
            self.apply(event).gone(id),
    {
        self.lemma_apply_nothing(event, id);
        if self.apply(event).assets.contains_key(id) {
            self.lemma_apply_settled(event, id);
        }
    }

    /// An output is disposed of at most once: after its disposal there is no other, queued,
    /// running or lost, ever.
    pub proof fn law_freed_once(self, id: u64, events: Seq<Event<K, S, T>>)
        requires
            self.inv(),
            self.enabled(Event::Freed(id)),
            self.freed(id).can_run(events),
        ensures
            self.freed(id).run(events).gone(id),
        decreases events.len(),
    {
        self.lemma_freed(id);
        if events.len() > 0 {
            self.law_freed_once(id, events.drop_last());
            self.freed(id).law_invariant_kept(events.drop_last());
            self.freed(id).run(events.drop_last()).lemma_apply_gone(events.last(), id);
        }
    }

    /// No disposal is queued or running while a handle or the cache refers to the asset.
    pub proof fn law_no_disposal_while_held(self, id: u64)
        requires
            self.inv(),
            self.handles(id) > 0 || self.cached.contains(id),
        ensures
            !(self.jobs.contains_key(id) && self.jobs[id] is Free),
            !self.freeing(id),
            !self.lost.contains(id),
    {
    }

    /// Whether asset `id` came to nothing, so that there is no output to dispose of.
    pub open spec fn came_to_nothing(self, id: u64) -> bool {
        &&& id < self.next_id
        &&& self.assets.contains_key(id) ==> self.abandoned(id)
        &&& !self.pending(id)
        &&& !self.lost.contains(id)
        &&& !self.live.contains(id)
    }

    proof fn lemma_apply_nothing(self, event: Event<K, S, T>, id: u64)
        requires
            self.inv(),
            self.enabled(event),
            self.came_to_nothing(id),
        ensures
            self.apply(event).came_to_nothing(id),
    {
        match event {
            Event::Load(source) => {
                crate::upkeep::lemma_push_contains(self.queue, self.next_id as u64);
            },
            Event::LoadCached(key, source) => {
                crate::upkeep::lemma_push_contains(self.queue, self.next_id as u64);
            },
            Event::ClearCache => {
                let last = |x: u64| self.last_of_output(x);
                let dropped = self.cached.filter(last);
                if dropped.contains(id) {
                    let i = choose|i: int| 0 <= i < dropped.len() && dropped[i] == id;
                    self.cached.lemma_filter_pred(last, i);
                    self.lemma_filter_cached(id);
                }
            },
            Event::Take => {
                crate::upkeep::lemma_drop_first_contains(self.queue);
            },
            Event::Settle(x, outcome) => {
                crate::upkeep::lemma_push_contains(self.queue, x);
            },
            Event::Release(x) => {
                crate::upkeep::lemma_push_contains(self.queue, x);
            },
            _ => {},
        }
    }

    /// For an abandoned asset there is never a disposal: none is queued, running or lost, now or
    /// later.
    pub proof fn law_abandoned_not_freed(self, id: u64, events: Seq<Event<K, S, T>>)
        requires
            self.inv(),
            self.alive,
            self.assets.contains_key(id),
            self.abandoned(id),
            self.can_run(events),
        ensures
            self.run(events).came_to_nothing(id),
            !(self.run(events).jobs.contains_key(id) && self.run(events).jobs[id] is Free),
            !self.run(events).freeing(id),
        decreases events.len(),
    {
        self.law_invariant_kept(events);
        if events.len() > 0 {
            self.law_abandoned_not_freed(id, events.drop_last());
            self.law_invariant_kept(events.drop_last());
            self.run(events.drop_last()).lemma_apply_nothing(events.last(), id);
        }
    }

    /// How often asset `id` was loaded in the course of `events`.
    pub open spec fn times_loaded(events: Seq<Event<K, S, T>>, id: u64) -> nat
        decreases events.len(),
    {
        if events.len() == 0 {
            0
        } else {
            let before = Self::times_loaded(events.drop_last(), id);
            match events.last() {
                Event::Settle(x, Some(_)) => if x == id {
                    before + 1
                } else {
                    before
                },
                _ => before,
            }
        }
    }

    /// How often the output of asset `id` was disposed of in the course of `events`.
    pub open spec fn times_freed(events: Seq<Event<K, S, T>>, id: u64) -> nat
        decreases events.len(),
    {
        if events.len() == 0 {
            0
        } else {
            let before = Self::times_freed(events.drop_last(), id);
            match events.last() {
                Event::Freed(x) => if x == id {
                    before + 1
                } else {
                    before
                },
                _ => before,
            }
        }
    }

    /// An asset is loaded at most once, and its output is disposed of exactly once if it was
    /// loaded and is no longer live, and otherwise not at all.
    pub proof fn law_freed_exactly_once(events: Seq<Event<K, S, T>>, id: u64)
        requires
            Self::init().can_run(events),
            Self::init().run(events).alive,
        ensures
            Self::times_loaded(events, id) <= 1,
            Self::times_loaded(events, id) == Self::times_freed(events, id) + if Self::init().run(
                events,
            ).live.contains(id) {
                1nat
            } else {
                0
            },
    {
        Self::lemma_times(events, id);
    }

    proof fn lemma_times(events: Seq<Event<K, S, T>>, id: u64)
        requires
            Self::init().can_run(events),
            Self::init().run(events).alive,
        ensures
            Self::times_loaded(events, id) <= 1,
            Self::times_loaded(events, id) == Self::times_freed(events, id) + if Self::init().run(
                events,
            ).live.contains(id) {
                1nat
            } else {
                0
            },
            Self::times_loaded(events, id) > 0 ==> id < Self::init().run(events).next_id
                && !Self::init().run(events).loading(id),
            Self::times_loaded(events, id) > 0 && Self::init().run(events).assets.contains_key(id)
                ==> Self::init().run(events).assets[id].data is Some,
        decreases events.len(),
    {
        Self::lemma_init();
        if events.len() > 0 {
            let event = events.last();
            let before = Self::init().run(events.drop_last());
            let after = Self::init().run(events);
            Self::init().law_invariant_kept(events.drop_last());
            before.lemma_apply(event);
            Self::lemma_times(events.drop_last(), id);
            if id < before.next_id && after.assets.contains_key(id) {
                before.lemma_apply_settled(event, id);
            }
        }
    }

    /// Once nothing refers to any asset and no task is active, all that was loaded has been freed,
    /// except for disposals that were lost.
    pub proof fn law_all_freed_in_the_end(self)
        requires
            self.inv(),
            self.alive,
            forall|id: u64| #[trigger] self.handles(id) == 0,
            self.cached.len() == 0,
            self.active() == 0,
        ensures
            self.live =~= self.lost,
            self.lost =~= Set::empty() ==> self.live =~= Set::empty(),
    {
        self.law_drained();
    }

    /// As long as a loader is open and every disposal that is taken is carried out, no disposal is
    /// lost.
    pub proof fn law_nothing_lost(events: Seq<Event<K, S, T>>)
        requires
            Self::init().can_run(events),
            Self::init().run(events).alive,
            !Self::init().run(events).closed,
            forall|i: int| 0 <= i < events.len() ==> #[trigger] events[i] !is Lose,
        ensures
            Self::init().run(events).lost =~= Set::empty(),
        decreases events.len(),
    {
        Self::lemma_init();
        if events.len() > 0 {
            let init = events.drop_last();
            Self::init().law_invariant_kept(init);
            Self::init().run(init).lemma_apply(events.last());
            if Self::init().run(init).closed {
                Self::init().run(init).lemma_apply_closed(events.last());
            }
            Self::law_nothing_lost(init);
        }
    }

    /// No output gets out of sight: as long as the loader exists, an asset that was loaded and not
    /// freed still has its output, or its disposal is queued, running, or lost.
    pub proof fn law_live_accounted(self, id: u64)
        requires
            self.inv(),
            self.alive,
        ensures
            self.live.contains(id) ==> {
                ||| self.assets.contains_key(id) && self.value(id) is Some
                ||| self.jobs.contains_key(id) && self.jobs[id] is Free
                ||| self.freeing(id)
                ||| self.lost.contains(id)
            },
    {
    }

    /// How many assets were loaded in the course of `events`.
    pub open spec fn loaded_in(events: Seq<Event<K, S, T>>) -> nat
        decreases events.len(),
    {
        if events.len() == 0 {
            0
        } else {
            let before = Self::loaded_in(events.drop_last());
            match events.last() {
                Event::Settle(_, Some(_)) => before + 1,
                _ => before,
            }
        }
    }

    /// How many assets were freed in the course of `events`.
    pub open spec fn freed_in(events: Seq<Event<K, S, T>>) -> nat
        decreases events.len(),
    {
        if events.len() == 0 {
            0
        } else {
            let before = Self::freed_in(events.drop_last());
            if events.last() is Freed {
                before + 1
            } else {
                before
            }
        }
    }

    /// All assets are freed exactly when as many have been freed as were loaded.
    pub proof fn law_loaded_and_freed(events: Seq<Event<K, S, T>>)
        requires
            Self::init().can_run(events),
            Self::init().run(events).alive,
        ensures
            Self::loaded_in(events) == Self::freed_in(events) + Self::init().run(events).live.len(),
        decreases events.len(),
    {
        Self::lemma_init();
        if events.len() > 0 {
            let before = Self::init().run(events.drop_last());
            Self::init().law_invariant_kept(events.drop_last());
            before.lemma_apply(events.last());
            Self::law_loaded_and_freed(events.drop_last());
        }
    }

    // ---- Draining ----

    /// Finishing a load whose asset nobody refers to any more does not drain an open loader,
    /// because the task that frees the asset counts before the load ceases to.
    pub proof fn law_no_gap_before_free(self, id: u64, data: T)
        requires
            self.inv(),
            self.enabled(Event::Settle(id, Some(data))),
            self.assets[id].refs == 1,
            !self.closed,
        ensures
            self.complete(id, data).active() == self.active(),
            self.complete(id, data).active() > 0,
            self.complete(id, data).wakes == self.wakes,
    {
        self.lemma_settle(id, Some(data));
    }

    /// A task that finishes takes one off the count, and wakes those who wait for the loader to
    /// drain, once, iff it was the last.
    pub proof fn law_finish_counts(self, id: u64)
        requires
            self.inv(),
            self.alive,
            self.taken.contains(id),
        ensures
            self.finished(id).active() == self.active() - 1,
            self.finished(id).wakes == self.wakes + if self.active() == 1 {
                1nat
            } else {
                0
            },
    {
    }

    /// A task that a closed loader drops at once, be it a load or a disposal, leaves the count as it
    /// was, and wakes those who wait for the loader to drain iff no other task is active.
    pub proof fn law_come_and_go(self, source: S, id: u64)
        requires
            self.inv(),
            self.alive,
            self.closed,
        ensures
            self.has_room() ==> {
                &&& self.load(source).active() == self.active()
                &&& self.load(source).wakes == self.wakes + if self.active() == 0 {
                    1nat
                } else {
                    0
                }
            },
            self.handles(id) > 0 && self.last_of_output(id) ==> {
                &&& self.unref(id).active() == self.active()
                &&& self.unref(id).wakes == self.wakes + if self.active() == 0 {
                    1nat
                } else {
                    0
                }
            },
    {
    }

    /// There are no active tasks exactly when none is queued and none is running.
    pub proof fn law_drained(self)
        requires
            self.inv(),
        ensures
            self.active() == 0 <==> {
                &&& self.jobs =~= Map::empty()
                &&& self.taken =~= Set::empty()
            },
    {
        if self.active() == 0 {
            self.taken.lemma_len0_is_empty();
        } else if self.queue.len() > 0 {
            assert(self.queue.contains(self.queue[0]));
        }
    }

    proof fn lemma_apply_wakes(self, event: Event<K, S, T>)
        requires
            self.inv(),
            self.enabled(event),
            self.apply(event).alive,
        ensures
            self.apply(event).wakes >= self.wakes,
            self.active() > 0 && self.apply(event).active() == 0 ==> self.apply(event).wakes
                > self.wakes,
            self.apply(event).wakes > self.wakes ==> self.apply(event).active() == 0,
    {
        match event {
            Event::Load(source) => self.lemma_load(source),
            Event::LoadCached(key, source) => {
                if !self.cache.contains_key(key) {
                    self.lemma_load(source);
                }
            },
            Event::ClearCache => {
                self.lemma_clear_cache();
                vstd::set_lib::lemma_len_subset(self.lost, self.clear_cache().lost);
            },
            Event::Take => self.lemma_take(),
            Event::Settle(id, outcome) => self.lemma_settle(id, outcome),
            Event::Release(id) => self.lemma_unref(id),
            Event::Lose(id) => self.lemma_lose(id),
            _ => {},
        }
    }

    /// Whoever begins to wait while there are active tasks has been woken by the time there are
    /// none, whatever happened in between.
    pub proof fn law_drain_is_woken(self, events: Seq<Event<K, S, T>>)
        requires
            self.inv(),
            self.can_run(events),
            self.active() > 0,
            self.run(events).alive,
            self.run(events).active() == 0,
        ensures
            self.run(events).wakes > self.wakes,
        decreases events.len(),
    {
        let before = self.run(events.drop_last());
        self.law_invariant_kept(events.drop_last());
        before.lemma_apply(events.last());
        before.lemma_apply_wakes(events.last());
        if before.active() == 0 {
            self.law_drain_is_woken(events.drop_last());
        } else {
            self.lemma_wakes_grow(events.drop_last());
        }
    }

    proof fn lemma_wakes_grow(self, events: Seq<Event<K, S, T>>)
        requires
            self.inv(),
            self.can_run(events),
            self.run(events).alive,
        ensures
            self.run(events).wakes >= self.wakes,
        decreases events.len(),
    {
        if events.len() > 0 {
            let before = self.run(events.drop_last());
            self.law_invariant_kept(events.drop_last());
            before.lemma_apply(events.last());
            before.lemma_apply_wakes(events.last());
            self.lemma_wakes_grow(events.drop_last());
        }
    }

    /// Whoever is woken knows that there were no active tasks at some point since the wait began.
    pub proof fn law_woken_was_drained(self, events: Seq<Event<K, S, T>>)
        requires
            self.inv(),
            self.can_run(events),
            self.run(events).alive,
            self.run(events).wakes > self.wakes,
        ensures
            exists|n: int|
                0 < n <= events.len() && #[trigger] self.run(events.take(n)).active() == 0,
        decreases events.len(),
    {
        let before = self.run(events.drop_last());
        self.law_invariant_kept(events.drop_last());
        before.lemma_apply(events.last());
        before.lemma_apply_wakes(events.last());
        let len = events.len() as int;
        if before.wakes == self.run(events).wakes {
            self.law_woken_was_drained(events.drop_last());
            let n = choose|n: int|
                0 < n <= events.drop_last().len() && #[trigger] self.run(
                    events.drop_last().take(n),
                ).active() == 0;
            assert(events.drop_last().take(n) =~= events.take(n));
        } else {
            assert(events.take(len) =~= events);
        }
    }

    // ---- Waiting for tasks and assets ----

    proof fn lemma_apply_changes(self, event: Event<K, S, T>, id: u64)
        requires
            self.inv(),
            self.enabled(event),
        ensures
            self.apply(event).changes >= self.changes,
            self.must_wait_for_task() && !self.apply(event).must_wait_for_task()
                ==> self.apply(event).changes > self.changes,
            self.must_wait_for_asset(id) && self.apply(event).assets.contains_key(id)
                && !self.apply(event).must_wait_for_asset(id) ==> self.apply(event).changes
                > self.changes,
    {
        self.lemma_apply(event);
    }

    /// Whether whoever asks for the next task is told to wait.
    pub open spec fn must_wait_for_task(self) -> bool {
        !self.told_to_stop() && self.queue.len() == 0
    }

    /// Whether whoever asks for asset `id` is told to wait.
    pub open spec fn must_wait_for_asset(self, id: u64) -> bool {
        self.assets.contains_key(id) && self.pending(id)
    }

    proof fn lemma_changes_grow(self, events: Seq<Event<K, S, T>>)
        requires
            self.inv(),
            self.can_run(events),
        ensures
            self.run(events).changes >= self.changes,
        decreases events.len(),
    {
        if events.len() > 0 {
            self.law_invariant_kept(events.drop_last());
            self.run(events.drop_last()).lemma_apply_changes(events.last(), 0);
            self.lemma_changes_grow(events.drop_last());
        }
    }

    /// Whoever waits for a task has been woken by the time there is one or the loader is closed or
    /// dropped, whatever happened in between.
    pub proof fn law_next_task_is_woken(self, events: Seq<Event<K, S, T>>)
        requires
            self.inv(),
            self.can_run(events),
            self.must_wait_for_task(),
            !self.run(events).must_wait_for_task(),
        ensures
            self.run(events).changes > self.changes,
        decreases events.len(),
    {
        let before = self.run(events.drop_last());
        self.law_invariant_kept(events.drop_last());
        before.lemma_apply_changes(events.last(), 0);
        if before.must_wait_for_task() {
            self.lemma_changes_grow(events.drop_last());
        } else {
            self.law_next_task_is_woken(events.drop_last());
        }
    }

    /// Whoever waits for an asset that is held has been woken by the time it is loaded or abandoned,
    /// whatever happened in between.
    pub proof fn law_get_is_woken(self, events: Seq<Event<K, S, T>>, id: u64)
        requires
            self.inv(),
            self.can_run(events),
            self.must_wait_for_asset(id),
            self.run(events).handles(id) > 0,
            self.run(events).value(id) is Some || self.run(events).abandoned(id),
        ensures
            self.run(events).changes > self.changes,
    {
        self.law_invariant_kept(events);
        self.lemma_get_is_woken(events, id);
    }

    proof fn lemma_get_is_woken(self, events: Seq<Event<K, S, T>>, id: u64)
        requires
            self.inv(),
            self.can_run(events),
            self.must_wait_for_asset(id),
            self.run(events).assets.contains_key(id),
            !self.run(events).must_wait_for_asset(id),
        ensures
            self.run(events).changes > self.changes,
        decreases events.len(),
    {
        let before = self.run(events.drop_last());
        self.law_invariant_kept(events.drop_last());
        before.lemma_apply_changes(events.last(), id);
        before.lemma_apply_settled(events.last(), id);
        if before.must_wait_for_asset(id) {
            self.lemma_changes_grow(events.drop_last());
        } else {
            self.lemma_get_is_woken(events.drop_last(), id);
        }
    }

    // ---- Closing ----

    proof fn lemma_apply_closed(self, event: Event<K, S, T>)
        requires
            self.inv(),
            self.enabled(event),
            self.closed,
        ensures
            self.apply(event).closed,
            self.apply(event).alive ==> self.apply(event).queue == if event is Take {
                self.queue.drop_first()
            } else {
                self.queue
            },
    {
    }

    /// A loader is closed exactly when it has been closed at some point.
    pub proof fn law_closed_when_called(events: Seq<Event<K, S, T>>)
        requires
            Self::init().can_run(events),
            Self::init().run(events).alive,
        ensures
            Self::init().run(events).closed <==> exists|i: int|
                0 <= i < events.len() && #[trigger] events[i] is Close,
        decreases events.len(),
    {
        Self::lemma_init();
        if events.len() > 0 {
            let init = events.drop_last();
            let before = Self::init().run(init);
            Self::init().law_invariant_kept(init);
            before.lemma_apply(events.last());
            Self::law_closed_when_called(init);
            if exists|i: int| 0 <= i < events.len() && #[trigger] events[i] is Close {
                let i = choose|i: int| 0 <= i < events.len() && #[trigger] events[i] is Close;
                assert(i < init.len() ==> init[i] is Close);
            }
        }
    }

    /// Whoever asks for the next task is told to shut down exactly when the loader has been closed
    /// at some point.
    pub proof fn law_no_task_iff_closed(events: Seq<Event<K, S, T>>)
        requires
            Self::init().can_run(events),
            Self::init().run(events).alive,
        ensures
            Self::init().run(events).told_to_stop() <==> exists|i: int|
                0 <= i < events.len() && #[trigger] events[i] is Close,
    {
        Self::law_closed_when_called(events);
    }

    /// A closed loader stays closed and takes no more work: all that can still be taken is what was
    /// queued.
    pub proof fn law_closed_runs_dry(self, events: Seq<Event<K, S, T>>)
        requires
            self.inv(),
            self.closed,
            self.can_run(events),
        ensures
            self.run(events).closed,
            self.submitted_in(events) =~= Seq::empty(),
            self.run(events).alive ==> self.tasks() == self.taken_in(events) + self.run(
                events,
            ).tasks(),
        decreases events.len(),
    {
        if events.len() > 0 {
            self.law_invariant_kept(events.drop_last());
            self.law_closed_runs_dry(events.drop_last());
            self.run(events.drop_last()).lemma_apply_closed(events.last());
        }
        if self.run(events).alive {
            self.law_first_in_first_out(events);
        }
    }

    /// A load that is begun on a closed loader is abandoned at once and leaves no task behind.
    pub proof fn law_closed_load_is_abandoned(self, source: S)
        requires
            self.inv(),
            self.enabled(Event::Load(source)),
            self.closed,
        ensures
            self.load(source).abandoned(self.next_id as u64),
            self.load(source).handles(self.next_id as u64) == 1,
            self.load(source).active() == self.active(),
            self.load(source).tasks() == self.tasks(),
            self.load(source).live == self.live,
    {
        self.lemma_load(source);
        self.lemma_apply_tasks(Event::Load(source));
    }

    /// Closing wakes whoever waits for a task, tells whoever asks for one to shut down, now and later,
    /// abandons every load that is begun from then on, and touches neither the assets nor the tasks
    /// that there are. Closing again changes nothing.
    pub proof fn law_close(self, events: Seq<Event<K, S, T>>, source: S)
        requires
            self.inv(),
            self.enabled(Event::Close),
            self.close().can_run(events),
        ensures
            self.close().close() == self.close(),
            !self.closed ==> self.close().changes == self.changes + 1,
            self.close().assets == self.assets,
            self.close().tasks() == self.tasks(),
            self.close().taken == self.taken,
            self.close().run(events).told_to_stop(),
            self.close().run(events).enabled(Event::Load(source)) ==> self.close().run(events).load(
                source,
            ).abandoned(self.close().run(events).next_id as u64),
    {
        self.lemma_close();
        self.close().law_closed_runs_dry(events);
    }

    proof fn lemma_stays_freed(self, events: Seq<Event<K, S, T>>)
        requires
            self.inv(),
            self.alive,
            self.closed,
            self.active() == 0,
            self.live =~= Set::empty(),
            self.can_run(events),
        ensures
            self.run(events).closed,
            self.run(events).live =~= Set::empty(),
            self.run(events).taken =~= Set::empty(),
            self.run(events).lost =~= Set::empty(),
            self.run(events).queue.len() == 0,
            self.run(events).alive ==> forall|id: u64| #[trigger]
                self.run(events).assets.contains_key(id) ==> self.run(events).abandoned(id),
        decreases events.len(),
    {
        self.law_invariant_kept(events);
        if events.len() == 0 {
            self.law_drained();
        } else {
            let before = self.run(events.drop_last());
            let event = events.last();
            self.lemma_stays_freed(events.drop_last());
            self.law_invariant_kept(events.drop_last());
            before.lemma_apply_closed(event);
            let last = |x: u64| before.last_of_output(x);
            let dropped = before.cached.filter(last);
            if event is ClearCache && dropped.len() > 0 {
                before.cached.lemma_filter_pred(last, 0);
                before.lemma_filter_cached(dropped[0]);
            }
        }
    }

    /// It is safe to close a loader that is drained and whose assets have all been freed: no
    /// disposal will ever be lost, and no output is left.
    pub proof fn law_safe_to_close(self, events: Seq<Event<K, S, T>>)
        requires
            self.inv(),
            self.enabled(Event::Close),
            self.active() == 0,
            self.live =~= Set::empty(),
            self.close().can_run(events),
        ensures
            self.close().run(events).lost =~= Set::empty(),
            self.close().run(events).live =~= Set::empty(),
            self.close().run(events).active() == 0,
    {
        self.lemma_close();
        self.close().lemma_stays_freed(events);
    }

    /// When the loader is dropped, every asset that is held and whose load is queued is abandoned, the
    /// others keep what they have, and whoever waits for one is woken. It makes no difference
    /// whether tasks that were taken are still running.
    pub proof fn law_drop_abandons(self, id: u64)
        requires
            self.inv(),
            self.enabled(Event::ShutDown),
            self.handles(id) > 0,
        ensures
            self.shut_down().handles(id) == self.handles(id),
            self.queue.contains(id) ==> self.shut_down().abandoned(id),
            !self.queue.contains(id) ==> self.shut_down().assets[id].data == self.assets[id].data,
            self.shut_down().changes == self.changes + 1,
    {
        self.lemma_shut_down();
    }

    /// What was queued when the loader was dropped never runs: nothing is begun or taken any more, and
    /// only the tasks that had been taken can end.
    pub proof fn law_dropped_never_runs(self, events: Seq<Event<K, S, T>>)
        requires
            self.inv(),
            self.enabled(Event::ShutDown),
            self.shut_down().can_run(events),
        ensures
            !self.shut_down().run(events).alive,
            self.shut_down().run(events).tasks() =~= Seq::empty(),
            self.shut_down().run(events).taken.subset_of(self.taken),
            forall|i: int|
                0 <= i < events.len() ==> match #[trigger] events[i] {
                    Event::Settle(id, _) => self.taken.contains(id),
                    Event::Freed(id) => self.taken.contains(id),
                    Event::Lose(id) => self.taken.contains(id),
                    Event::Clone(_) => true,
                    Event::Release(_) => true,
                    _ => false,
                },
        decreases events.len(),
    {
        self.lemma_shut_down();
        self.shut_down().law_invariant_kept(events);
        if events.len() > 0 {
            let init = events.drop_last();
            self.law_dropped_never_runs(init);
            assert forall|i: int| 0 <= i < init.len() implies init[i] == #[trigger] events[i] by {}
        }
    }

    // ---- The cache ----

    /// Requests for the same key get the same asset, and only the first begins to load it.
    pub proof fn law_cached_once(self, key: K, first: S, second: S)
        requires
            self.inv(),
            self.enabled(Event::LoadCached(key, first)),
        ensures
            self.load_cached(key, first).cached_id(key) == self.cached_id(key),
            self.load_cached(key, first).load_cached(key, second) == self.load_cached(
                key,
                first,
            ).refer(self.cached_id(key)),
    {
    }

    proof fn lemma_cache_kept(self, key: K, events: Seq<Event<K, S, T>>)
        requires
            self.inv(),
            self.cache.contains_key(key),
            self.can_run(events),
            forall|i: int|
                0 <= i < events.len() ==> #[trigger] events[i] !is ClearCache && events[i]
                    !is ShutDown,
        ensures
            self.run(events).cache.contains_key(key),
            self.run(events).cache[key] == self.cache[key],
        decreases events.len(),
    {
        if events.len() > 0 {
            let init = events.drop_last();
            self.lemma_cache_kept(key, init);
            self.law_invariant_kept(init);
        }
    }

    /// Two requests get the same asset iff they are for the same key, whatever happened in between,
    /// as long as the cache was not cleared and the loader not dropped.
    pub proof fn law_cached_by_key(self, k1: K, source: S, events: Seq<Event<K, S, T>>, k2: K)
        requires
            self.inv(),
            self.enabled(Event::LoadCached(k1, source)),
            self.load_cached(k1, source).can_run(events),
            forall|i: int|
                0 <= i < events.len() ==> #[trigger] events[i] !is ClearCache && events[i]
                    !is ShutDown,
        ensures
            self.load_cached(k1, source).run(events).cached_id(k2) == self.cached_id(k1) <==> k1
                == k2,
    {
        let next = self.load_cached(k1, source);
        self.lemma_apply(Event::LoadCached(k1, source));
        next.law_invariant_kept(events);
        next.lemma_cache_kept(k1, events);
    }

    /// After the cache was cleared, a request begins to load a new asset.
    pub proof fn law_cleared_loads_anew(self, key: K, source: S)
        requires
            self.inv(),
            self.enabled(Event::ClearCache),
        ensures
            self.clear_cache().cached_id(key) == self.next_id,
            self.clear_cache().load_cached(key, source) == self.clear_cache().load_into_cache(
                key,
                source,
            ),
            !self.assets.contains_key(self.next_id as u64),
    {
    }
}

} // verus!
