use vstd::prelude::*;

use crate::dispatch::{
    handlers_for, keys_lawful, lemma_runs_concat, lemma_runs_push, transition_of, MachineAction,
    MachineView, Role, Transition,
};
use crate::error::{ConfigurationError, LifecycleError};
use crate::handler::{model_effect, plain_effect, Handler, Nullary, WithModel};

verus! {

/// A registered handler together with the role it was registered under.
struct Entry<S, E, R> {
    role: Role<S, E>,
    run: R,
}

/// Pairs `run` with `role`.
fn new_entry<S, E, R>(role: Role<S, E>, run: R) -> (r: Entry<S, E, R>)
    ensures
        r.role == role,
        r.run == run,
{
    Entry { role, run }
}

/// Compares two roles with the `==` of states and events.
fn same_role<S: Eq + Copy, E: Eq + Copy>(a: &Role<S, E>, b: &Role<S, E>) -> (r: bool)
    ensures
        keys_lawful::<S, E>() ==> r == (*a == *b),
{
    match (a, b) {
        (Role::Enter(x), Role::Enter(y)) => *x == *y,
        (Role::Leave(x), Role::Leave(y)) => *x == *y,
        (Role::Event(x, e), Role::Event(y, f)) => *x == *y && *e == *f,
        _ => false,
    }
}

/// A single-threaded state machine driven by the caller's `start` and `fire`.
#[verifier::reject_recursive_types(M)]
pub struct PassiveStateMachine<S, M = (), E = ()> {
    running: bool,
    current_state: S,
    model: M,
    /// Handlers in registration order, which is the order dispatch follows;
    /// lookups compare roles with the states' and events' own `==`.
    handlers: Vec<Entry<S, E, Box<dyn Handler<M>>>>,
    transitions: Vec<Transition<S, E>>,
    /// The positions in `handlers` of the handlers run so far, in the order
    /// they ran.
    history: Ghost<Seq<nat>>,
    last_error: Option<LifecycleError>,
}

impl<S, M, E> View for PassiveStateMachine<S, M, E> {
    type V = MachineView<S, E, M>;

    closed spec fn view(&self) -> MachineView<S, E, M> {
        MachineView {
            running: self.running,
            state: self.current_state,
            roles: self.handlers@.map_values(|h: Entry<S, E, Box<dyn Handler<M>>>| h.role),
            effects: self.handlers@.map_values(
                |h: Entry<S, E, Box<dyn Handler<M>>>| (|before: M, after: M| h.run.effect(before, after)),
            ),
            table: self.transitions@,
            history: self.history@,
            last_error: self.last_error,
        }
    }
}

impl<S: Eq + Copy, M, E: Eq + Copy> PassiveStateMachine<S, M, E> {
    /// The model the machine owns.
    pub closed spec fn spec_model(&self) -> M {
        self.model
    }

    /// A machine that is not started, in `initial_state`, with no handlers
    /// and no transitions.
    pub(crate) fn new(initial_state: S, model: M) -> (r: Self)
        ensures
            r@ == (MachineView::<S, E, M> {
                running: false,
                state: initial_state,
                roles: Seq::empty(),
                effects: Seq::empty(),
                table: Seq::empty(),
                history: Seq::empty(),
                last_error: None,
            }),
            r.spec_model() == model,
    {
        let r = PassiveStateMachine {
            running: false,
            current_state: initial_state,
            model,
            handlers: Vec::new(),
            transitions: Vec::new(),
            history: Ghost(Seq::empty()),
            last_error: None,
        };
        assert(r@.roles =~= Seq::<Role<S, E>>::empty());
        assert(r@.effects =~= Seq::<spec_fn(M, M) -> bool>::empty());
        r
    }

    /// The destination registered for firing `event` in `state`.
    pub(crate) fn find_transition(&self, state: S, event: E) -> (r: Option<S>)
        ensures
            keys_lawful::<S, E>() ==> r == transition_of(self@.table, state, event),
    {
        let n = self.transitions.len();
        let mut i: usize = 0;
        proof {
            assert(self@.table.subrange(0, n as int) =~= self@.table);
        }
        while i < n
            invariant
                n == self.transitions@.len(),
                0 <= i <= n,
                keys_lawful::<S, E>() ==> transition_of(self@.table, state, event)
                    == transition_of(self@.table.subrange(i as int, n as int), state, event),
            decreases n - i,
        {
            let t = self.transitions[i];
            proof {
                let rest = self@.table.subrange(i as int, n as int);
                assert(rest.len() == n - i);
                assert(rest.drop_first() =~= self@.table.subrange(i + 1, n as int));
                assert(rest[0] == t);
            }
            if t.from == state && t.on == event {
                return Some(t.to);
            }
            i = i + 1;
        }
        None
    }

    /// Adds the transition `from` --`on`--> `to`, unless one is already
    /// registered for (`from`, `on`).
    pub(crate) fn add_transition(&mut self, on: E, from: S, to: S) -> (r: Result<(), ConfigurationError>)
        ensures
            final(self).spec_model() == old(self).spec_model(),
            r is Ok ==> final(self)@ == (MachineView {
                table: old(self)@.table.push(Transition { from, on, to }),
                ..old(self)@
            }),
            r is Err ==> r == Err::<(), ConfigurationError>(ConfigurationError::DuplicateTransition)
                && final(self)@ == old(self)@,
            keys_lawful::<S, E>() ==> (r is Err <==> transition_of(old(self)@.table, from, on) is Some),
    {
        if self.find_transition(from, on).is_some() {
            return Err(ConfigurationError::DuplicateTransition);
        }
        self.transitions.push(Transition { from, on, to });
        Ok(())
    }

    /// The state the machine is in.
    pub fn current_state(&self) -> (r: &S)
        ensures
            *r == self@.state,
    {
        &self.current_state
    }

    /// Shared access to the model.
    pub fn model(&self) -> (r: &M)
        ensures
            *r == self.spec_model(),
    {
        &self.model
    }

    /// Exclusive access to the model; nothing else of the machine changes.
    pub fn model_mut(&mut self) -> (r: &mut M)
        ensures
            *r == old(self).spec_model(),
            final(self)@ == old(self)@,
            final(self).spec_model() == *final(r),
    {
        &mut self.model
    }

    /// Runs, in registration order, every handler registered under `role`.
    fn run_role(&mut self, role: Role<S, E>)
        ensures
            final(self)@ == (MachineView { history: final(self)@.history, ..old(self)@ }),
            final(self)@.history == old(self)@.history + final(self)@.ran_since(old(self)@),
            old(self)@.runs(final(self)@.ran_since(old(self)@), old(self).spec_model(), final(self).spec_model()),
            keys_lawful::<S, E>() ==> final(self)@.ran_since(old(self)@) == handlers_for(old(self)@.roles, role),
    {
        let n = self.handlers.len();
        let mut i: usize = 0;
        proof {
            assert(self@.ran_since(old(self)@) =~= Seq::<nat>::empty());
            assert(self@.history =~= old(self)@.history + self@.ran_since(old(self)@));
        }
        while i < n
            invariant
                n == self.handlers@.len(),
                0 <= i <= n,
                self@ == (MachineView { history: self@.history, ..old(self)@ }),
                self@.history == old(self)@.history + self@.ran_since(old(self)@),
                old(self)@.runs(self@.ran_since(old(self)@), old(self).model, self.model),
                keys_lawful::<S, E>() ==> self@.ran_since(old(self)@)
                    == handlers_for(self@.roles.take(i as int), role),
            decreases n - i,
        {
            let hit = same_role(&self.handlers[i].role, &role);
            proof {
                let roles = self@.roles;
                assert(roles.take(i + 1).drop_last() =~= roles.take(i as int));
                assert(roles.take(i + 1).last() == self.handlers@[i as int].role);
            }
            if hit {
                let ghost before = self.model;
                let ghost ran = self@.ran_since(old(self)@);
                self.handlers[i].run.invoke(&mut self.model);
                self.history = Ghost(self.history@.push(i as nat));
                proof {
                    assert((self@.effects[i as int])(before, self.model));
                    lemma_runs_push(old(self)@.effects, ran, i as nat, old(self).model, before, self.model);
                    assert(self@.ran_since(old(self)@) =~= ran.push(i as nat));
                    assert(self@.history =~= old(self)@.history + self@.ran_since(old(self)@));
                }
            }
            i = i + 1;
        }
        proof {
            assert(self@.roles.take(n as int) =~= self@.roles);
        }
    }

    /// Starts the machine: runs, in registration order, the enter handlers of
    /// the current state. A machine runs its enter handlers on start once:
    /// starting it again fails and changes nothing.
    pub fn start(&mut self) -> (r: Result<MachineAction<S, E>, LifecycleError>)
        ensures
            old(self)@.running ==> r == Err::<MachineAction<S, E>, LifecycleError>(
                LifecycleError::AlreadyStarted,
            ) && final(self)@ == old(self)@ && final(self).spec_model() == old(self).spec_model(),
            !old(self)@.running ==> r == Ok::<MachineAction<S, E>, LifecycleError>(
                MachineAction::Started { initial_state: old(self)@.state },
            ) && final(self)@ == (MachineView {
                running: true,
                history: final(self)@.history,
                ..old(self)@
            }),
            final(self)@.history == old(self)@.history + final(self)@.ran_since(old(self)@),
            old(self)@.runs(final(self)@.ran_since(old(self)@), old(self).spec_model(), final(self).spec_model()),
            keys_lawful::<S, E>() ==> final(self)@ == old(self)@.started(),
            keys_lawful::<S, E>() && !old(self)@.running ==> old(self)@.runs(
                old(self)@.enter_plan(old(self)@.state),
                old(self).spec_model(),
                final(self).spec_model(),
            ),
    {
        if self.running {
            proof {
                assert(self@.ran_since(old(self)@) =~= Seq::<nat>::empty());
                assert(self@.history =~= old(self)@.history + self@.ran_since(old(self)@));
            }
            return Err(LifecycleError::AlreadyStarted);
        }
        self.running = true;
        let initial_state = self.current_state;
        let ghost mid = *self;
        self.run_role(Role::Enter(initial_state));
        proof {
            assert(self@.ran_since(old(self)@) =~= self@.ran_since(mid@));
        }
        Ok(MachineAction::Started { initial_state })
    }

    /// Fires `event`: runs the handlers of (current state, `event`) in
    /// registration order; then, if a transition is registered for the pair,
    /// runs the leave handlers of the current state, moves to the destination
    /// and runs its enter handlers. Fails, changing nothing, before `start`.
    pub fn fire(&mut self, event: E) -> (r: Result<MachineAction<S, E>, LifecycleError>)
        ensures
            !old(self)@.running ==> r == Err::<MachineAction<S, E>, LifecycleError>(
                LifecycleError::NotStarted,
            ) && final(self)@ == old(self)@ && final(self).spec_model() == old(self).spec_model(),
            old(self)@.running ==> r is Ok && final(self)@.running
                && final(self)@.roles == old(self)@.roles && final(self)@.effects == old(self)@.effects
                && final(self)@.table == old(self)@.table
                && final(self)@.last_error == old(self)@.last_error,
            final(self)@.history == old(self)@.history + final(self)@.ran_since(old(self)@),
            old(self)@.runs(final(self)@.ran_since(old(self)@), old(self).spec_model(), final(self).spec_model()),
            keys_lawful::<S, E>() ==> final(self)@ == old(self)@.fired(event),
            keys_lawful::<S, E>() && old(self)@.running ==> r == Ok::<MachineAction<S, E>, LifecycleError>(
                old(self)@.fire_outcome(event),
            ) && old(self)@.runs(old(self)@.fire_plan(event), old(self).spec_model(), final(self).spec_model()),
    {
        if !self.running {
            proof {
                assert(self@.ran_since(old(self)@) =~= Seq::<nat>::empty());
                assert(self@.history =~= old(self)@.history + self@.ran_since(old(self)@));
            }
            return Err(LifecycleError::NotStarted);
        }
        let from = self.current_state;
        self.run_role(Role::Event(from, event));
        let ghost mid = *self;
        match self.find_transition(from, event) {
            Some(to) => {
                self.goto(to);
                proof {
                    let first = mid@.ran_since(old(self)@);
                    let second = self@.ran_since(mid@);
                    lemma_runs_concat(old(self)@.effects, first, second, old(self).model, mid.model, self.model);
                    assert(self@.ran_since(old(self)@) =~= first + second);
                    assert(self@.history =~= old(self)@.history + self@.ran_since(old(self)@));
                    if keys_lawful::<S, E>() {
                        assert(self@.history =~= old(self)@.history + old(self)@.fire_plan(event));
                        assert(self@.ran_since(old(self)@) =~= old(self)@.fire_plan(event));
                    }
                }
                Ok(MachineAction::Entered { from, to, because: event })
            },
            None => {
                proof {
                    if keys_lawful::<S, E>() {
                        assert(self@.ran_since(old(self)@) =~= old(self)@.fire_plan(event));
                    }
                }
                Ok(MachineAction::HandledEvent { state: from, event })
            },
        }
    }

    /// Moves to `state` without an event: runs the leave handlers of the
    /// current state, sets the state, then runs the enter handlers of `state`.
    pub(crate) fn goto(&mut self, state: S)
        ensures
            final(self)@ == (MachineView { state, history: final(self)@.history, ..old(self)@ }),
            final(self)@.history == old(self)@.history + final(self)@.ran_since(old(self)@),
            old(self)@.runs(final(self)@.ran_since(old(self)@), old(self).spec_model(), final(self).spec_model()),
            keys_lawful::<S, E>() ==> final(self)@ == old(self)@.moved_to(state),
            keys_lawful::<S, E>() ==> old(self)@.runs(
                old(self)@.goto_plan(state),
                old(self).spec_model(),
                final(self).spec_model(),
            ),
    {
        let from = self.current_state;
        self.run_role(Role::Leave(from));
        self.current_state = state;
        let ghost mid = *self;
        self.run_role(Role::Enter(state));
        proof {
            let first = mid@.ran_since(old(self)@);
            let second = self@.ran_since(mid@);
            lemma_runs_concat(old(self)@.effects, first, second, old(self).model, mid.model, self.model);
            assert(self@.ran_since(old(self)@) =~= first + second);
            assert(self@.history =~= old(self)@.history + self@.ran_since(old(self)@));
            if keys_lawful::<S, E>() {
                assert(self@.history =~= old(self)@.history + old(self)@.goto_plan(state));
            }
        }
    }

    /// The last lifecycle error that a worker met while applying a command.
    pub fn last_error(&self) -> (r: Option<LifecycleError>)
        ensures
            r == self@.last_error,
    {
        self.last_error
    }

    /// Keeps `err` as the last lifecycle error; nothing else changes.
    pub(crate) fn note_error(&mut self, err: LifecycleError)
        ensures
            final(self)@ == (MachineView { last_error: Some(err), ..old(self)@ }),
            final(self).spec_model() == old(self).spec_model(),
    {
        self.last_error = Some(err);
    }
}

impl<S: Eq + Copy, M: Send + Sync + 'static, E: Eq + Copy> PassiveStateMachine<S, M, E> {
    /// Registers `func`, which is given the model, under `role`, after every
    /// handler registered so far.
    fn add_model_handler<F: Fn(&mut M) + Send + Sync + 'static>(&mut self, role: Role<S, E>, func: F)
        requires
            forall|m: &mut M| call_requires(func, (m,)),
        ensures
            final(self)@ == old(self)@.registered(role, |before: M, after: M| model_effect(func, before, after)),
            final(self).spec_model() == old(self).spec_model(),
    {
        let run: Box<dyn Handler<M>> = Box::new(WithModel::new(func));
        let entry = new_entry(role, run);
        self.handlers.push(entry);
        assert(self@.roles =~= old(self)@.roles.push(role));
        assert(self@.effects.last() =~~= (|before: M, after: M| model_effect(func, before, after)));
        assert(self@.effects =~= old(self)@.effects.push(
            |before: M, after: M| model_effect(func, before, after),
        ));
    }

    /// Registers `func`, which ignores the model, under `role`, after every
    /// handler registered so far.
    pub(crate) fn add_plain_handler<F: Fn() + Send + Sync + 'static>(&mut self, role: Role<S, E>, func: F)
        requires
            call_requires(func, ()),
        ensures
            final(self)@ == old(self)@.registered(role, |before: M, after: M| plain_effect(func, before, after)),
            final(self).spec_model() == old(self).spec_model(),
    {
        let run: Box<dyn Handler<M>> = Box::new(Nullary::new(func));
        let entry = new_entry(role, run);
        self.handlers.push(entry);
        assert(self@.roles =~= old(self)@.roles.push(role));
        assert(self@.effects.last() =~~= (|before: M, after: M| plain_effect(func, before, after)));
        assert(self@.effects =~= old(self)@.effects.push(
            |before: M, after: M| plain_effect(func, before, after),
        ));
    }

    /// Adds `func` to the handlers of `event` in `state`.
    pub(crate) fn add_event_handler<F: Fn(&mut M) + Send + Sync + 'static>(&mut self, state: S, event: E, func: F)
        requires
            forall|m: &mut M| call_requires(func, (m,)),
        ensures
            final(self)@ == old(self)@.registered(
                Role::Event(state, event),
                |before: M, after: M| model_effect(func, before, after),
            ),
            final(self).spec_model() == old(self).spec_model(),
    {
        self.add_model_handler(Role::Event(state, event), func);
    }

    /// Adds `func` to the enter handlers of `state`.
    pub(crate) fn add_enter_handler<F: Fn(&mut M) + Send + Sync + 'static>(&mut self, state: S, func: F)
        requires
            forall|m: &mut M| call_requires(func, (m,)),
        ensures
            final(self)@ == old(self)@.registered(
                Role::Enter(state),
                |before: M, after: M| model_effect(func, before, after),
            ),
            final(self).spec_model() == old(self).spec_model(),
    {
        self.add_model_handler(Role::Enter(state), func);
    }

    /// Adds `func` to the leave handlers of `state`.
    pub(crate) fn add_leave_handler<F: Fn(&mut M) + Send + Sync + 'static>(&mut self, state: S, func: F)
        requires
            forall|m: &mut M| call_requires(func, (m,)),
        ensures
            final(self)@ == old(self)@.registered(
                Role::Leave(state),
                |before: M, after: M| model_effect(func, before, after),
            ),
            final(self).spec_model() == old(self).spec_model(),
    {
        self.add_model_handler(Role::Leave(state), func);
    }
}

} // verus!
