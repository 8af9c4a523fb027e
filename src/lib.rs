//! An embeddable finite-state-machine framework.
//!
//! A machine is configured with the fluent [`builder::StateMachineBuilder`]:
//! handlers run on entering or leaving a state and on events fired in a state,
//! and a transition table maps (state, event) to a destination state. The
//! result is a [`passive::PassiveStateMachine`], driven by its owner through
//! `start` and `fire`; [`active`] holds the decisions of a worker that drives
//! a machine from a command queue and a tick function.
//!
//! Contracts speak of the machine's abstract view ([`dispatch::MachineView`]):
//! its lifecycle flag, current state, the role and effect of each registered
//! handler, the transition table, the positions of the handlers run so far, in
//! order, and the last lifecycle error a worker met. Each dispatch states that
//! the model went from its old value to its new one through the effects of
//! exactly the handlers it ran ([`dispatch::MachineView::runs`]).
//!
//! What depends on finding a state or an event holds when their `==` is plain
//! equality ([`dispatch::keys_lawful`]). That is provable for the integer
//! types; for an enum with a derived `PartialEq` it is not, so for such keys
//! those clauses say nothing. Give a key type of your own a hand-written
//! `PartialEq` with `vstd::std_specs::cmp::PartialEqSpecImpl` to have them.

pub mod active;
pub mod builder;
pub mod dispatch;
pub mod error;
pub mod handler;
pub mod passive;
