use vstd::prelude::*;

use crate::dispatch::{keys_lawful, transition_of, MachineView, Role, Transition};
use crate::error::ConfigurationError;
use crate::handler::{model_effect, plain_effect};
use crate::passive::PassiveStateMachine;

verus! {

/// The abstract state of a builder: the state and event in focus, the
/// machine built so far, and the first configuration error met, if any.
#[verifier::reject_recursive_types(M)]
pub struct BuilderView<S, E, M> {
    pub focus_state: S,
    pub focus_event: Option<E>,
    pub machine: MachineView<S, E, M>,
    pub error: Option<ConfigurationError>,
}

/// The error kept after meeting `new`: the first one met wins.
pub open spec fn first_error(kept: Option<ConfigurationError>, new: ConfigurationError) -> Option<
    ConfigurationError,
> {
    match kept {
        Some(e) => Some(e),
        None => Some(new),
    }
}

impl<S, E, M> BuilderView<S, E, M> {
    /// The builder after registering a handler with `effect` under `role`.
    pub open spec fn registered(self, role: Role<S, E>, effect: spec_fn(M, M) -> bool) -> BuilderView<
        S,
        E,
        M,
    > {
        BuilderView { machine: self.machine.registered(role, effect), ..self }
    }

    /// The builder after `goto(to)`.
    pub open spec fn after_goto(self, to: S) -> BuilderView<S, E, M> {
        match self.focus_event {
            None => BuilderView {
                error: first_error(self.error, ConfigurationError::NoEventInScope),
                ..self
            },
            Some(e) => if transition_of(self.machine.table, self.focus_state, e) is Some {
                BuilderView {
                    focus_event: None,
                    error: first_error(self.error, ConfigurationError::DuplicateTransition),
                    ..self
                }
            } else {
                BuilderView {
                    focus_event: None,
                    machine: MachineView {
                        table: self.machine.table.push(
                            Transition { from: self.focus_state, on: e, to },
                        ),
                        ..self.machine
                    },
                    ..self
                }
            },
        }
    }
}

/// A fluent, consuming builder of state machines. Each configuration call
/// acts on the state in focus (and, for `goto`, the event in focus).
/// Configuration errors are kept and reported by `build_passive`.
#[verifier::reject_recursive_types(M)]
pub struct StateMachineBuilder<S, M = (), E = ()> {
    working_on_state: S,
    working_on_event: Option<E>,
    current_state_machine: PassiveStateMachine<S, M, E>,
    error: Option<ConfigurationError>,
}

impl<S, M, E> View for StateMachineBuilder<S, M, E> {
    type V = BuilderView<S, E, M>;

    closed spec fn view(&self) -> BuilderView<S, E, M> {
        BuilderView {
            focus_state: self.working_on_state,
            focus_event: self.working_on_event,
            machine: self.current_state_machine@,
            error: self.error,
        }
    }
}

impl<S: Eq + Copy, M: Send + Sync + 'static, E: Eq + Copy> StateMachineBuilder<S, M, E> {
    /// The model the machine will own.
    pub closed spec fn spec_model(&self) -> M {
        self.current_state_machine.spec_model()
    }

    /// A builder of a machine that starts in `initial_state` and owns
    /// `initial_model`, focused on `initial_state`.
    pub fn create(initial_state: S, initial_model: M) -> (r: Self)
        ensures
            r@ == (BuilderView::<S, E, M> {
                focus_state: initial_state,
                focus_event: None,
                machine: MachineView {
                    running: false,
                    state: initial_state,
                    roles: Seq::empty(),
                    effects: Seq::empty(),
                    table: Seq::empty(),
                    history: Seq::empty(),
                    last_error: None,
                },
                error: None,
            }),
            r.spec_model() == initial_model,
    {
        StateMachineBuilder {
            working_on_state: initial_state,
            working_on_event: None,
            current_state_machine: PassiveStateMachine::new(initial_state, initial_model),
            error: None,
        }
    }

    /// Moves the focus to `state`, with no event in focus.
    pub fn in_state(self, state: S) -> (r: Self)
        ensures
            r@ == (BuilderView { focus_state: state, focus_event: None, ..self@ }),
            r.spec_model() == self.spec_model(),
    {
        StateMachineBuilder { working_on_state: state, working_on_event: None, ..self }
    }

    /// Runs `func` each time the state in focus is entered.
    pub fn on_enter<F: Fn() + Send + Sync + 'static>(self, func: F) -> (r: Self)
        requires
            call_requires(func, ()),
        ensures
            r@ == self@.registered(Role::Enter(self@.focus_state), |before: M, after: M| plain_effect(func, before, after)),
            r.spec_model() == self.spec_model(),
    {
        let state = self.working_on_state;
        let mut builder = self;
        builder.current_state_machine.add_plain_handler(Role::Enter(state), func);
        builder
    }

    /// Runs `func` on the model each time the state in focus is entered.
    pub fn on_enter_mut<F: Fn(&mut M) + Send + Sync + 'static>(self, func: F) -> (r: Self)
        requires
            forall|m: &mut M| call_requires(func, (m,)),
        ensures
            r@ == self@.registered(Role::Enter(self@.focus_state), |before: M, after: M| model_effect(func, before, after)),
            r.spec_model() == self.spec_model(),
    {
        let state = self.working_on_state;
        let mut builder = self;
        builder.current_state_machine.add_enter_handler(state, func);
        builder
    }

    /// Runs `func` each time the state in focus is left.
    pub fn on_leave<F: Fn() + Send + Sync + 'static>(self, func: F) -> (r: Self)
        requires
            call_requires(func, ()),
        ensures
            r@ == self@.registered(Role::Leave(self@.focus_state), |before: M, after: M| plain_effect(func, before, after)),
            r.spec_model() == self.spec_model(),
    {
        let state = self.working_on_state;
        let mut builder = self;
        builder.current_state_machine.add_plain_handler(Role::Leave(state), func);
        builder
    }

    /// Runs `func` on the model each time the state in focus is left.
    pub fn on_leave_mut<F: Fn(&mut M) + Send + Sync + 'static>(self, func: F) -> (r: Self)
        requires
            forall|m: &mut M| call_requires(func, (m,)),
        ensures
            r@ == self@.registered(Role::Leave(self@.focus_state), |before: M, after: M| model_effect(func, before, after)),
            r.spec_model() == self.spec_model(),
    {
        let state = self.working_on_state;
        let mut builder = self;
        builder.current_state_machine.add_leave_handler(state, func);
        builder
    }

    /// Runs `func` each time `event` is fired in the state in focus, and
    /// puts `event` in focus.
    pub fn on<F: Fn() + Send + Sync + 'static>(self, event: E, func: F) -> (r: Self)
        requires
            call_requires(func, ()),
        ensures
            r@ == (BuilderView {
                focus_event: Some(event),
                ..self@.registered(Role::Event(self@.focus_state, event), |before: M, after: M| plain_effect(func, before, after))
            }),
            r.spec_model() == self.spec_model(),
    {
        let state = self.working_on_state;
        let mut builder = self;
        builder.current_state_machine.add_plain_handler(Role::Event(state, event), func);
        builder.working_on_event = Some(event);
        builder
    }

    /// Runs `func` on the model each time `event` is fired in the state in
    /// focus, and puts `event` in focus.
    pub fn on_mut<F: Fn(&mut M) + Send + Sync + 'static>(self, event: E, func: F) -> (r: Self)
        requires
            forall|m: &mut M| call_requires(func, (m,)),
        ensures
            r@ == (BuilderView {
                focus_event: Some(event),
                ..self@.registered(Role::Event(self@.focus_state, event), |before: M, after: M| model_effect(func, before, after))
            }),
            r.spec_model() == self.spec_model(),
    {
        let state = self.working_on_state;
        let mut builder = self;
        builder.current_state_machine.add_event_handler(state, event, func);
        builder.working_on_event = Some(event);
        builder
    }

    /// Registers the transition (state in focus, event in focus) --> `state`
    /// and clears the event in focus. With no event in focus, or when the pair
    /// already has a destination, the builder keeps a configuration error
    /// instead (the first one met) and the table is unchanged.
    pub fn goto(self, state: S) -> (r: Self)
        ensures
            r.spec_model() == self.spec_model(),
            r@.focus_event is None,
            r@.focus_state == self@.focus_state,
            r@.machine.roles == self@.machine.roles,
            self@.focus_event is None ==> r@ == self@.after_goto(state),
            keys_lawful::<S, E>() ==> r@ == self@.after_goto(state),
    {
        let mut builder = self;
        match builder.working_on_event {
            Some(e) => {
                let from = builder.working_on_state;
                let added = builder.current_state_machine.add_transition(e, from, state);
                if added.is_err() && builder.error.is_none() {
                    builder.error = Some(ConfigurationError::DuplicateTransition);
                }
                builder.working_on_event = None;
            },
            None => {
                if builder.error.is_none() {
                    builder.error = Some(ConfigurationError::NoEventInScope);
                }
            },
        }
        builder
    }

    /// Finalizes the builder into a passive machine, or reports the first
    /// configuration error met.
    pub fn build_passive(self) -> (r: Result<PassiveStateMachine<S, M, E>, ConfigurationError>)
        ensures
            match self@.error {
                Some(err) => r == Err::<PassiveStateMachine<S, M, E>, ConfigurationError>(err),
                None => r matches Ok(m) && m@ == self@.machine && m.spec_model() == self.spec_model(),
            },
    {
        match self.error {
            Some(err) => Err(err),
            None => Ok(self.current_state_machine),
        }
    }

    /// The same as `build_passive`.
    pub fn build(self) -> (r: Result<PassiveStateMachine<S, M, E>, ConfigurationError>)
        ensures
            match self@.error {
                Some(err) => r == Err::<PassiveStateMachine<S, M, E>, ConfigurationError>(err),
                None => r matches Ok(m) && m@ == self@.machine && m.spec_model() == self.spec_model(),
            },
    {
        self.build_passive()
    }
}

} // verus!
