use vstd::prelude::*;

verus! {

/// The application state owned by the runtime. The only capability the
/// runtime itself needs from the state is the ability to produce a
/// snapshot: an independent copy that can be handed to read-only
/// consumers on other threads.
pub trait Model: Sized {
    type Snapshot;

    /// What a snapshot of this state is.
    spec fn snapshot_spec(&self) -> Self::Snapshot;

    /// Produce the snapshot of the current state. The result is an
    /// owned value, so later mutations of the state leave it untouched.
    fn into_snapshot(&self) -> (s: Self::Snapshot)
        ensures
            s == self.snapshot_spec(),
    ;
}

} // verus!
