//! Loading assets in the background.
//!
//! A [`Loader`] hands out [`Asset`] handles at once and queues the work of filling them as
//! [`Task`]s. When the last handle to a loaded asset goes, the loader queues the disposal of its
//! output. It counts the tasks that are active and the assets that are live, and so knows when it
//! is drained and when it is safe to close.
//!
//! [`model`] says what each operation does to the state of a loader, [`effects`] what that comes to
//! part by part, and [`laws`] what follows for any course of events.
mod asset;
mod cache;
mod channel;
pub mod effects;
pub mod laws;
mod loader;
pub mod model;
mod notify;
mod once;
mod task;
mod upkeep;

pub use asset::Asset;
pub use loader::{Loader, NextTask};
pub use notify::notified_since;
pub use task::{CancelGuard, Job, Source, Task};
