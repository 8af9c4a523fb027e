use vstd::prelude::*;

verus! {

/// A mistake in how a machine was configured, reported when it is built.
#[derive(Debug, Clone, Copy, PartialEq, Eq, Structural)]
pub enum ConfigurationError {
    /// `goto` was called while no event was in scope (it must follow `on` or `on_mut`).
    NoEventInScope,
    /// A second destination was given for a (state, event) pair that already had one.
    DuplicateTransition,
}

/// A runtime call that does not fit the machine's lifecycle.
#[derive(Debug, Clone, Copy, PartialEq, Eq, Structural)]
pub enum LifecycleError {
    /// `fire` was called before `start`.
    NotStarted,
    /// `start` was called on a machine that is already running.
    AlreadyStarted,
}

} // verus!
