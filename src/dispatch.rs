use vstd::prelude::*;
use vstd::std_specs::cmp::PartialEqSpec;

use crate::error::LifecycleError;

verus! {

/// Whether `==` on `T` is plain equality of values.
///
/// States and events are compared with their own `==`; what the machine
/// promises about lookups holds when that comparison is lawful. This holds of
/// the integer types. For a type of your own, write `PartialEq` by hand
/// together with `vstd::std_specs::cmp::PartialEqSpecImpl` and prove it; a
/// derived `PartialEq` is not read by the verifier, so for such a type the
/// clauses that rest on this say nothing.
pub open spec fn lawful_eq<T: PartialEq>() -> bool {
    &&& T::obeys_eq_spec()
    &&& forall|x: T, y: T| x.eq_spec(&y) <==> (x == y)
}

/// Whether states and events both compare lawfully.
pub open spec fn keys_lawful<S: PartialEq, E: PartialEq>() -> bool {
    lawful_eq::<S>() && lawful_eq::<E>()
}

/// The slot a handler is registered under.
#[derive(Clone, Copy)]
pub enum Role<S, E> {
    /// Run when the state is entered.
    Enter(S),
    /// Run when the state is left.
    Leave(S),
    /// Run when the event is fired in the state.
    Event(S, E),
}

/// A transition of the table: firing `on` in `from` moves the machine to `to`.
#[derive(Clone, Copy)]
pub struct Transition<S, E> {
    pub from: S,
    pub on: E,
    pub to: S,
}

/// The positions, in increasing order, of the handlers registered under `role`.
pub open spec fn handlers_for<S, E>(roles: Seq<Role<S, E>>, role: Role<S, E>) -> Seq<nat>
    decreases roles.len(),
{
    if roles.len() == 0 {
        Seq::empty()
    } else {
        let earlier = handlers_for(roles.drop_last(), role);
        if roles.last() == role {
            earlier.push((roles.len() - 1) as nat)
        } else {
            earlier
        }
    }
}

/// The handlers selected for `role` are exactly those registered under it,
/// listed in increasing order of registration.
pub proof fn lemma_handlers_for<S, E>(roles: Seq<Role<S, E>>, role: Role<S, E>)
    ensures
        forall|k: int|
            0 <= k < handlers_for(roles, role).len() ==> {
                &&& handlers_for(roles, role)[k] < roles.len()
                &&& roles[handlers_for(roles, role)[k] as int] == role
            },
        forall|k1: int, k2: int|
            0 <= k1 < k2 < handlers_for(roles, role).len() ==> handlers_for(roles, role)[k1]
                < handlers_for(roles, role)[k2],
        forall|i: int|
            0 <= i < roles.len() && roles[i] == role ==> handlers_for(roles, role).contains(
                i as nat,
            ),
    decreases roles.len(),
{
    if roles.len() > 0 {
        let earlier = roles.drop_last();
        lemma_handlers_for(earlier, role);
        let ids = handlers_for(roles, role);
        let before = handlers_for(earlier, role);
        assert forall|i: int| 0 <= i < roles.len() && roles[i] == role implies ids.contains(
            i as nat,
        ) by {
            if i < roles.len() - 1 {
                assert(earlier[i] == roles[i]);
                let k = choose|k: int| 0 <= k < before.len() && before[k] == i as nat;
                assert(ids[k] == i as nat);
            } else {
                assert(ids[ids.len() - 1] == i as nat);
            }
        }
    }
}

/// The destination of the first transition of `table` for (`s`, `e`), if any.
pub open spec fn transition_of<S, E>(table: Seq<Transition<S, E>>, s: S, e: E) -> Option<S>
    decreases table.len(),
{
    if table.len() == 0 {
        None
    } else if table[0].from == s && table[0].on == e {
        Some(table[0].to)
    } else {
        transition_of(table.drop_first(), s, e)
    }
}

/// What a successful `start` or `fire` did.
#[derive(Debug, Clone, Copy, PartialEq, Eq)]
pub enum MachineAction<S, E> {
    /// The machine started in `initial_state` and ran its enter handlers.
    Started { initial_state: S },
    /// The event was handled in `state`; no transition was registered for it.
    HandledEvent { state: S, event: E },
    /// The event moved the machine from `from` to `to`.
    Entered { from: S, to: S, because: E },
}

/// Running the handlers whose effects are listed in `effects`, at the
/// positions of `plan` and in that order, can take the model from `before` to
/// `after`.
pub open spec fn runs_through<M>(
    effects: Seq<spec_fn(M, M) -> bool>,
    plan: Seq<nat>,
    before: M,
    after: M,
) -> bool
    decreases plan.len(),
{
    if plan.len() == 0 {
        after == before
    } else {
        exists|mid: M|
            runs_through(effects, plan.drop_last(), before, mid) && #[trigger] (effects[plan.last() as int])(
                mid,
                after,
            )
    }
}

/// The abstract state of a machine: its lifecycle flag, current state, the
/// role and the effect of each registered handler (in registration order), the
/// transition table, the positions of the handlers run so far (in the order
/// they ran), and the last lifecycle error met by a worker.
#[verifier::reject_recursive_types(M)]
pub struct MachineView<S, E, M> {
    pub running: bool,
    pub state: S,
    pub roles: Seq<Role<S, E>>,
    pub effects: Seq<spec_fn(M, M) -> bool>,
    pub table: Seq<Transition<S, E>>,
    pub history: Seq<nat>,
    pub last_error: Option<LifecycleError>,
}

impl<S, E, M> MachineView<S, E, M> {
    /// Running the handlers at the positions of `plan`, in order, can take the
    /// model from `before` to `after`.
    pub open spec fn runs(self, plan: Seq<nat>, before: M, after: M) -> bool {
        runs_through(self.effects, plan, before, after)
    }

    /// The positions of the handlers run since `earlier`, in the order they ran.
    pub open spec fn ran_since(self, earlier: MachineView<S, E, M>) -> Seq<nat> {
        self.history.subrange(earlier.history.len() as int, self.history.len() as int)
    }

    /// The view after registering a handler with `effect` under `role`.
    pub open spec fn registered(self, role: Role<S, E>, effect: spec_fn(M, M) -> bool) -> MachineView<
        S,
        E,
        M,
    > {
        MachineView { roles: self.roles.push(role), effects: self.effects.push(effect), ..self }
    }

    /// The destination registered for firing `e` in the current state.
    pub open spec fn target(self, e: E) -> Option<S> {
        transition_of(self.table, self.state, e)
    }

    /// The handlers that entering `s` runs.
    pub open spec fn enter_plan(self, s: S) -> Seq<nat> {
        handlers_for(self.roles, Role::Enter(s))
    }

    /// The handlers that moving from the current state to `t` runs: the leave
    /// handlers of the current state, then the enter handlers of `t`.
    pub open spec fn goto_plan(self, t: S) -> Seq<nat> {
        handlers_for(self.roles, Role::Leave(self.state)) + handlers_for(self.roles, Role::Enter(t))
    }

    /// The handlers that firing `e` runs: those of (current state, `e`), then,
    /// when a transition is registered, those of leaving and entering.
    pub open spec fn fire_plan(self, e: E) -> Seq<nat> {
        let on_event = handlers_for(self.roles, Role::Event(self.state, e));
        match self.target(e) {
            Some(t) => on_event + self.goto_plan(t),
            None => on_event,
        }
    }

    /// What `fire(e)` reports on a running machine.
    pub open spec fn fire_outcome(self, e: E) -> MachineAction<S, E> {
        match self.target(e) {
            Some(t) => MachineAction::Entered { from: self.state, to: t, because: e },
            None => MachineAction::HandledEvent { state: self.state, event: e },
        }
    }

    /// The machine after moving to `t` without an event.
    pub open spec fn moved_to(self, t: S) -> MachineView<S, E, M> {
        MachineView { state: t, history: self.history + self.goto_plan(t), ..self }
    }

    /// The machine after `start`.
    pub open spec fn started(self) -> MachineView<S, E, M> {
        if self.running {
            self
        } else {
            MachineView {
                running: true,
                history: self.history + self.enter_plan(self.state),
                ..self
            }
        }
    }

    /// The machine after `fire(e)`.
    pub open spec fn fired(self, e: E) -> MachineView<S, E, M> {
        if !self.running {
            self
        } else {
            match self.target(e) {
                Some(t) => MachineView {
                    state: t,
                    history: self.history + self.fire_plan(e),
                    ..self
                },
                None => MachineView { history: self.history + self.fire_plan(e), ..self },
            }
        }
    }
}


/// Firing an event for which the current state has no transition keeps the
/// state, and runs only the handlers of (state, event): no leave or enter
/// handler runs.
pub proof fn lemma_fire_without_transition<S, E, M>(v: MachineView<S, E, M>, e: E)
    requires
        v.running,
        v.target(e) is None,
    ensures
        v.fired(e).state == v.state,
        v.fired(e).history == v.history + handlers_for(v.roles, Role::Event(v.state, e)),
        forall|k: int|
            v.history.len() <= k < v.fired(e).history.len() ==> v.roles[v.fired(e).history[k] as int]
                == Role::Event(v.state, e),
{
    let added = handlers_for(v.roles, Role::Event(v.state, e));
    lemma_handlers_for(v.roles, Role::Event(v.state, e));
    assert forall|k: int| v.history.len() <= k < v.fired(e).history.len() implies v.roles[v.fired(
        e,
    ).history[k] as int] == Role::Event(v.state, e) by {
        assert(v.fired(e).history[k] == added[k - v.history.len()]);
    }
}

/// Firing an event with a registered transition to `t` runs the handlers of
/// (state, event), then the leave handlers of the state, then the enter
/// handlers of `t`, and leaves the machine in `t`.
pub proof fn lemma_fire_with_transition<S, E, M>(v: MachineView<S, E, M>, e: E, t: S)
    requires
        v.running,
        v.target(e) == Some(t),
    ensures
        v.fired(e).state == t,
        v.fired(e).history == v.history + handlers_for(v.roles, Role::Event(v.state, e))
            + handlers_for(v.roles, Role::Leave(v.state)) + handlers_for(v.roles, Role::Enter(t)),
{
    assert(v.fired(e).history =~= v.history + handlers_for(v.roles, Role::Event(v.state, e))
        + handlers_for(v.roles, Role::Leave(v.state)) + handlers_for(v.roles, Role::Enter(t)));
}

/// Starting runs the enter handlers of the initial state once: a second
/// start changes nothing.
pub proof fn lemma_start_once<S, E, M>(v: MachineView<S, E, M>)
    requires
        !v.running,
    ensures
        v.started().running,
        v.started().state == v.state,
        v.started().history == v.history + handlers_for(v.roles, Role::Enter(v.state)),
        v.started().started() == v.started(),
{
}

/// Of two handlers registered for the same (state, event), the one
/// registered first runs first whenever the event is fired in that state.
pub proof fn lemma_handler_order<S, E, M>(v: MachineView<S, E, M>, e: E, i: nat, j: nat)
    requires
        i < j < v.roles.len(),
        v.roles[i as int] == Role::Event(v.state, e),
        v.roles[j as int] == Role::Event(v.state, e),
    ensures
        exists|p: int, q: int|
            0 <= p < q < v.fire_plan(e).len() && v.fire_plan(e)[p] == i && v.fire_plan(e)[q] == j,
{
    let ids = handlers_for(v.roles, Role::Event(v.state, e));
    lemma_handlers_for(v.roles, Role::Event(v.state, e));
    assert(ids.contains(i));
    assert(ids.contains(j));
    let p = choose|p: int| 0 <= p < ids.len() && ids[p] == i;
    let q = choose|q: int| 0 <= q < ids.len() && ids[q] == j;
    if q <= p {
        if q < p {
            assert(ids[q] < ids[p]);
        }
        assert(false);
    }
    assert(v.fire_plan(e)[p] == i && v.fire_plan(e)[q] == j);
}

/// A run of `p` followed by a run of `q` is a run of `p + q`.
pub proof fn lemma_runs_concat<M>(
    effects: Seq<spec_fn(M, M) -> bool>,
    p: Seq<nat>,
    q: Seq<nat>,
    a: M,
    b: M,
    c: M,
)
    requires
        runs_through(effects, p, a, b),
        runs_through(effects, q, b, c),
    ensures
        runs_through(effects, p + q, a, c),
    decreases q.len(),
{
    if q.len() == 0 {
        assert(p + q =~= p);
    } else {
        let mid = choose|mid: M|
            runs_through(effects, q.drop_last(), b, mid) && #[trigger] (effects[q.last() as int])(mid, c);
        lemma_runs_concat(effects, p, q.drop_last(), a, b, mid);
        assert((p + q).drop_last() =~= p + q.drop_last());
        assert((p + q).last() == q.last());
        assert(runs_through(effects, (p + q).drop_last(), a, mid));
    }
}

/// A run of `p` followed by a run of the handler at `x` is a run of `p.push(x)`.
pub proof fn lemma_runs_push<M>(effects: Seq<spec_fn(M, M) -> bool>, p: Seq<nat>, x: nat, a: M, b: M, c: M)
    requires
        runs_through(effects, p, a, b),
        (effects[x as int])(b, c),
    ensures
        runs_through(effects, p.push(x), a, c),
{
    assert(p.push(x).drop_last() =~= p);
    assert(p.push(x).last() == x);
    assert(runs_through(effects, p.push(x).drop_last(), a, b));
}

} // verus!
