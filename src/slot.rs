//! The process-wide slot that holds the current runtime.
//!
//! The slot itself is plain data; the caller keeps it behind a
//! readers/writer lock, so that installing is one write under the lock and a
//! snapshot is a read.
use vstd::prelude::*;
use crate::error::FfiError;

verus! {

/// Holds zero or one runtime.
pub struct RuntimeSlot<T> {
    current: Option<T>,
}

impl<T> View for RuntimeSlot<T> {
    type V = Option<T>;

    closed spec fn view(&self) -> Option<T> {
        self.current
    }
}

impl<T> RuntimeSlot<T> {
    /// An empty slot: nothing is loaded.
    pub fn new() -> (r: RuntimeSlot<T>)
        ensures
            r@ is None,
    {
        RuntimeSlot { current: None }
    }

    /// Whether a runtime is installed.
    pub fn is_loaded(&self) -> (r: bool)
        ensures
            r == self@ is Some,
    {
        self.current.is_some()
    }

    /// Replaces the current value with `runtime` as a whole and hands back
    /// the one it supersedes, for the caller to release.
    pub fn install(&mut self, runtime: T) -> (prev: Option<T>)
        ensures
            final(self)@ == Some(runtime),
            prev == old(self)@,
    {
        let prev = self.current.take();
        self.current = Some(runtime);
        prev
    }

    /// The current runtime, or `NotLoaded` when there is none.
    pub fn snapshot(&self) -> (r: Result<&T, FfiError>)
        ensures
            self@ is None ==> r == Err::<&T, FfiError>(FfiError::NotLoaded),
            self@ is Some ==> r is Ok && Some(*r->Ok_0) == self@,
    {
        match &self.current {
            Some(runtime) => Ok(runtime),
            None => Err(FfiError::NotLoaded),
        }
    }
}

} // verus!
