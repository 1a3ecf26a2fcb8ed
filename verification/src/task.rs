//! Work items, and where assets come from.
use crate::loader::Loader;
use vstd::prelude::*;

verus! {

/// Description of an asset from which it can be loaded.
pub trait Source: Sized + Send + 'static {
    /// Type of data available after the asset has been loaded.
    type Output: Send + Sync + 'static;

    /// What loading and disposing may draw on, such as shared caches or devices.
    type Context;

    /// Loads the asset described by `self`, returning `None` on failure.
    ///
    /// Reasonable implementations might:
    /// - Read data from disk
    /// - Fetch data from a remote server
    /// - Decode or transform data for more efficient access
    /// - Procedurally generate data
    /// - Upload data to a GPU
    fn load(self, context: &Self::Context) -> Option<Self::Output>;

    /// Disposes of the output after all [`Asset`](crate::Asset) references have been dropped.
    ///
    /// Most implementations won't need to implement this. Useful if [`Self::Output`] refers to
    /// resources stored elsewhere without RAII, e.g. in unsafely managed GPU memory.
    fn free(_output: Self::Output, _context: &Self::Context) {
    }
}

/// What a task has to do.
pub enum Job<S, T> {
    /// Load an asset from its source.
    Load(S),
    /// Dispose of an output that nothing refers to any more.
    Free(T),
}

/// A work item from [`Loader::next_task`].
pub struct Task<S, T> {
    id: u64,
    job: Job<S, T>,
}

impl<S, T> Task<S, T> {
    /// The number of the asset that the task is about.
    pub closed spec fn id(&self) -> u64 {
        self.id
    }

    /// What the task has to do.
    pub closed spec fn job(&self) -> Job<S, T> {
        self.job
    }

    pub(crate) fn new(id: u64, job: Job<S, T>) -> (task: Task<S, T>)
        ensures
            task.id() == id,
            task.job() == job,
    {
        Task { id, job }
    }

    /// Begins the work: what there is to do, and the guard that tells the loader how it ended.
    pub fn start(self) -> (started: (CancelGuard, Job<S, T>))
        ensures
            started.0.id() == self.id(),
            started.1 == self.job(),
    {
        (CancelGuard { id: self.id }, self.job)
    }
}

impl<S: Source> Task<S, S::Output> {
    /// Executes the work item.
    ///
    /// If [`Source::load`] or [`Source::free`] panics, the loader does not learn how the task ended:
    /// the task stays active, and an asset that was to be loaded stays pending. A caller who
    /// has to reckon with panics [starts](Self::start) the task instead, and
    /// [cancels](CancelGuard::cancel) it when it unwinds.
    pub fn run<K>(self, loader: &mut Loader<K, S, S::Output>, context: &S::Context)
        requires
            old(loader).wf(),
            self.job() is Load ==> old(loader)@.loading(self.id()),
            self.job() is Free ==> old(loader)@.freeing(self.id()),
        ensures
            final(loader).wf(),
            forall|id: u64| #[trigger] final(loader)@.handles(id) == old(loader)@.handles(id),
            match self.job() {
                Job::Load(source) => exists|outcome: Option<S::Output>| #[trigger]
                    call_ensures(S::load, (source, context), outcome) && final(loader)@ == old(
                        loader,
                    )@.settle(self.id(), outcome),
                Job::Free(data) => call_ensures(S::free, (data, context), ()) && final(loader)@
                    == old(loader)@.freed(self.id()),
            },
    {
        let (guard, job) = self.start();
        match job {
            Job::Load(source) => {
                let outcome = source.load(context);
                assert(call_ensures(S::load, (source, context), outcome));
                guard.settle(loader, outcome);
            },
            Job::Free(data) => {
                S::free(data, context);
                guard.freed(loader);
            },
        }
    }
}

/// Stands for a task that was started and has not ended. Whoever holds it owes the loader an
/// ending.
pub struct CancelGuard {
    id: u64,
}

impl CancelGuard {
    /// The number of the asset that the task is about.
    pub closed spec fn id(&self) -> u64 {
        self.id
    }

    /// Ends a load that returned `outcome`.
    pub fn settle<K, S, T>(self, loader: &mut Loader<K, S, T>, outcome: Option<T>)
        requires
            old(loader).wf(),
            old(loader)@.loading(self.id()),
        ensures
            final(loader).wf(),
            final(loader)@ == old(loader)@.settle(self.id(), outcome),
            forall|id: u64| #[trigger] final(loader)@.handles(id) == old(loader)@.handles(id),
    {
        proof {
            loader.law_invariant();
            loader@.lemma_settle(self.id(), outcome);
        }
        match outcome {
            Some(data) => loader.complete(self.id, data),
            None => loader.abandon(self.id),
        }
    }

    /// Ends a disposal that has been carried out.
    pub fn freed<K, S, T>(self, loader: &mut Loader<K, S, T>)
        requires
            old(loader).wf(),
            old(loader)@.freeing(self.id()),
        ensures
            final(loader).wf(),
            final(loader)@ == old(loader)@.freed(self.id()),
            forall|id: u64| #[trigger] final(loader)@.handles(id) == old(loader)@.handles(id),
    {
        loader.freed(self.id);
    }

    /// Ends a task that will not be carried out. An asset that was to be loaded is abandoned. An
    /// output that was to be disposed of is lost, and never counts as freed.
    pub fn cancel<K, S, T>(self, loader: &mut Loader<K, S, T>)
        requires
            old(loader).wf(),
            old(loader)@.taken.contains(self.id()),
        ensures
            final(loader).wf(),
            final(loader)@ == old(loader)@.cancel(self.id()),
            forall|id: u64| #[trigger] final(loader)@.handles(id) == old(loader)@.handles(id),
    {
        if loader.is_loading(self.id) {
            loader.abandon(self.id);
        } else {
            loader.lose(self.id);
        }
    }
}

} // verus!
