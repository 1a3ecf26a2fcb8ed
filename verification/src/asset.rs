//! What the references to one asset share.
use crate::loader::Loader;
use crate::model::AssetModel;
use crate::notify::notified_since;
use crate::once::{
    set_once_contents, set_once_get, set_once_into_inner, set_once_new, set_once_set,
};
use std::marker::PhantomData;
use tokio::sync::futures::OwnedNotified;
use tokio::sync::SetOnce;
use vstd::prelude::*;

verus! {

/// One asset: whether its load is settled, what it yielded, and how many references there are.
pub struct AssetShared<T> {
    data: SetOnce<bool>,
    output: Option<T>,
    refs: u64,
}

impl<T> View for AssetShared<T> {
    type V = AssetModel<T>;

    closed spec fn view(&self) -> AssetModel<T> {
        AssetModel {
            refs: self.refs as nat,
            data: if set_once_contents(self.data) is Some {
                Some(self.output)
            } else {
                None
            },
        }
    }
}

impl<T> AssetShared<T> {
    /// There is an output exactly when the verdict says so.
    pub closed spec fn wf(&self) -> bool {
        self.output is Some <==> set_once_contents(self.data) == Some(true)
    }

    /// An asset whose load is ahead, with two references: a handle, and the load task.
    pub fn new() -> (asset: AssetShared<T>)
        ensures
            asset.wf(),
            asset@ == (AssetModel::<T> { refs: 2, data: None }),
    {
        AssetShared { data: set_once_new(), output: None, refs: 2 }
    }

    /// Settles the load, which can happen once only: there are no other callers that set the
    /// verdict of an asset, so setting it does not fail.
    pub fn set(&mut self, data: Option<T>)
        requires
            old(self).wf(),
            old(self)@.data is None,
        ensures
            final(self).wf(),
            final(self)@ == (AssetModel { refs: old(self)@.refs, data: Some(data) }),
    {
        let verdict = set_once_set(&mut self.data, data.is_some());
        assert(verdict is Ok);
        self.output = data;
    }

    /// What the load yielded, once it is settled.
    pub fn get(&self) -> (data: Option<Option<&T>>)
        requires
            self.wf(),
        ensures
            match data {
                Some(Some(output)) => self@.data == Some(Some(*output)),
                Some(None) => self@.data == Some(None::<T>),
                None => self@.data is None,
            },
    {
        match set_once_get(&self.data) {
            Some(_) => Some(self.output.as_ref()),
            None => None,
        }
    }

    /// Whether one more reference can be counted.
    pub fn can_refer(&self) -> (can: bool)
        ensures
            can == (self@.refs < u64::MAX),
    {
        self.refs < u64::MAX
    }

    /// One more reference.
    pub fn refer(&mut self)
        requires
            old(self).wf(),
            old(self)@.refs < u64::MAX,
        ensures
            final(self).wf(),
            final(self)@ == (AssetModel { refs: old(self)@.refs + 1, ..old(self)@ }),
    {
        self.refs = self.refs + 1;
    }

    /// One reference less. Tells whether it was the last.
    pub fn unref(&mut self) -> (last: bool)
        requires
            old(self).wf(),
            old(self)@.refs > 0,
        ensures
            final(self).wf(),
            final(self)@ == (AssetModel { refs: (old(self)@.refs - 1) as nat, ..old(self)@ }),
            last == (old(self)@.refs == 1),
    {
        self.refs = self.refs - 1;
        self.refs == 0
    }

    /// The output, if the asset was ever loaded.
    pub fn into_output(self) -> (output: Option<T>)
        requires
            self.wf(),
        ensures
            output == match self@.data {
                Some(data) => data,
                None => None,
            },
    {
        match set_once_into_inner(self.data) {
            Some(_) => self.output,
            None => None,
        }
    }
}

/// Handle to data that might not be available yet.
pub struct Asset<T> {
    id: u64,
    output: PhantomData<T>,
}

impl<T> Asset<T> {
    /// The number under which the loader knows the asset.
    pub closed spec fn id(&self) -> u64 {
        self.id
    }

    pub(crate) fn new(id: u64) -> (asset: Asset<T>)
        ensures
            asset.id() == id,
    {
        Asset { id, output: PhantomData }
    }

    pub(crate) fn id_number(&self) -> (id: u64)
        ensures
            id == self.id(),
    {
        self.id
    }

    /// Gets the current value, if it's loaded.
    pub fn try_get<'a, K, S>(&self, loader: &'a Loader<K, S, T>) -> (value: Option<&'a T>)
        requires
            loader.wf(),
            loader@.handles(self.id()) > 0,
        ensures
            match value {
                Some(output) => loader@.value(self.id()) == Some(*output),
                None => loader@.value(self.id()) is None,
            },
    {
        match loader.data(self.id) {
            Some(data) => data,
            None => None,
        }
    }

    /// Gets the current value once it's loaded, or `None` if it's
    /// [abandoned](Self::is_abandoned). Until it is known which, the caller gets what wakes it when
    /// it may be.
    pub fn get<'a, K, S>(&self, loader: &'a Loader<K, S, T>) -> (value: Result<
        Option<&'a T>,
        OwnedNotified,
    >)
        requires
            loader.wf(),
            loader@.handles(self.id()) > 0,
        ensures
            match value {
                Ok(Some(output)) => loader@.value(self.id()) == Some(*output),
                Ok(None) => loader@.abandoned(self.id()),
                Err(wait) => {
                    &&& loader@.pending(self.id())
                    &&& notified_since(wait) == loader@.changes
                },
            },
    {
        proof {
            loader.law_invariant();
            assert(loader@.assets.contains_key(self.id()));
        }
        match loader.data(self.id) {
            Some(data) => Ok(data),
            None => Err(loader.wait_for_change()),
        }
    }

    /// Whether `try_get` is guaranteed to return `None` forever.
    ///
    /// Indicates that either the [`Source::load`](crate::Source::load) operation returned
    /// `None`, or its task or the loader was dropped before the operation ran. The task of a load
    /// that is begun on a closed loader is dropped at once.
    pub fn is_abandoned<K, S>(&self, loader: &Loader<K, S, T>) -> (abandoned: bool)
        requires
            loader.wf(),
            loader@.handles(self.id()) > 0,
        ensures
            abandoned == loader@.abandoned(self.id()),
    {
        match loader.data(self.id) {
            Some(data) => data.is_none(),
            None => false,
        }
    }

    /// Whether one more handle can be counted.
    pub fn can_clone<K, S>(&self, loader: &Loader<K, S, T>) -> (can: bool)
        requires
            loader.wf(),
            loader@.handles(self.id()) > 0,
        ensures
            can == loader@.can_refer(self.id()),
    {
        loader.can_refer(self.id)
    }

    /// Another handle to the same asset.
    pub fn clone<K, S>(&self, loader: &mut Loader<K, S, T>) -> (asset: Asset<T>)
        requires
            old(loader).wf(),
            old(loader)@.can_refer(self.id()),
        ensures
            final(loader).wf(),
            asset.id() == self.id(),
            final(loader)@ == old(loader)@.refer(self.id()),
            final(loader)@.handles(self.id()) == old(loader)@.handles(self.id()) + 1,
            forall|id: u64|
                id != self.id() ==> #[trigger] final(loader)@.handles(id) == old(loader)@.handles(id),
    {
        loader.refer(self.id);
        Asset { id: self.id, output: PhantomData }
    }

    /// Drops the handle. With the last reference to a loaded asset, its output is sent back to
    /// the loader to be disposed of, if the loader still exists.
    pub fn release<K, S>(self, loader: &mut Loader<K, S, T>)
        requires
            old(loader).wf(),
            old(loader)@.handles(self.id()) > 0,
        ensures
            final(loader).wf(),
            final(loader)@ == old(loader)@.unref(self.id()),
            final(loader)@.handles(self.id()) == old(loader)@.handles(self.id()) - 1,
            forall|id: u64|
                id != self.id() ==> #[trigger] final(loader)@.handles(id) == old(loader)@.handles(id),
    {
        loader.release(self.id);
    }

    /// Whether both handles, which are handles of one loader, refer to the same asset.
    pub fn ptr_eq(&self, other: &Asset<T>) -> (same: bool)
        ensures
            same == (self.id() == other.id()),
    {
        self.id == other.id
    }
}

} // verus!
