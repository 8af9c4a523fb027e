use vstd::prelude::*;

use crate::dispatch::{keys_lawful, MachineView};
use crate::error::LifecycleError;
use crate::passive::PassiveStateMachine;

verus! {

/// A request sent to the worker of an active machine.
#[derive(Debug, Clone, Copy, PartialEq, Eq)]
pub enum Command<E> {
    Start,
    Fire(E),
    Stop,
}

/// What the worker found when it looked at its command queue.
#[derive(Debug, Clone, Copy, PartialEq, Eq)]
pub enum Polled<E> {
    /// The next command, in the order the queue received them.
    Received(Command<E>),
    /// No command is waiting.
    Empty,
    /// No command can arrive any more.
    Closed,
}

/// Whether the worker goes on after a pass.
#[derive(Debug, Clone, Copy, PartialEq, Eq, Structural)]
pub enum Flow {
    Continue,
    Exit,
}

impl<S, E, M> MachineView<S, E, M> {
    /// The machine after a tick that asked for `target`.
    pub open spec fn ticked(self, target: Option<S>) -> MachineView<S, E, M> {
        match target {
            Some(t) => self.moved_to(t),
            None => self,
        }
    }

    /// The machine after a worker applied `Start`: started, or, when it was
    /// already running, unchanged but for the error kept.
    pub open spec fn worker_started(self) -> MachineView<S, E, M> {
        if self.running {
            MachineView { last_error: Some(LifecycleError::AlreadyStarted), ..self }
        } else {
            self.started()
        }
    }

    /// The machine after a worker applied `Fire(e)`: fired, or, when it was
    /// not started, unchanged but for the error kept.
    pub open spec fn worker_fired(self, e: E) -> MachineView<S, E, M> {
        if self.running {
            self.fired(e)
        } else {
            MachineView { last_error: Some(LifecycleError::NotStarted), ..self }
        }
    }
}

impl<S: Eq + Copy, M, E: Eq + Copy> PassiveStateMachine<S, M, E> {
    /// One pass of an active machine's worker over what it polled: `Start`
    /// and `Fire` are applied once each, `Stop` or a closed queue ends the
    /// worker, and only when the queue is empty is `tick` asked for a state
    /// to move to (without an event). A lifecycle error of a command leaves
    /// the machine unchanged and is kept, to be read with `last_error`.
    pub fn worker_step<T: Fn(&S, &M) -> Option<S>>(&mut self, polled: Polled<E>, tick: &T) -> (r: Flow)
        requires
            forall|s: S, m: M| call_requires(*tick, (&s, &m)),
        ensures
            r == Flow::Exit <==> (polled == Polled::<E>::Closed
                || polled == Polled::Received(Command::<E>::Stop)),
            r == Flow::Exit ==> final(self)@ == old(self)@
                && final(self).spec_model() == old(self).spec_model(),
            final(self)@.history == old(self)@.history + final(self)@.ran_since(old(self)@),
            old(self)@.runs(final(self)@.ran_since(old(self)@), old(self).spec_model(), final(self).spec_model()),
            polled == Polled::Received(Command::<E>::Start) && old(self)@.running ==> final(self)@
                == old(self)@.worker_started() && final(self).spec_model() == old(self).spec_model(),
            polled == Polled::Received(Command::<E>::Start) && keys_lawful::<S, E>()
                ==> final(self)@ == old(self)@.worker_started(),
            forall|e: E|
                polled == Polled::Received(Command::Fire(e)) && !old(self)@.running ==> final(self)@
                    == old(self)@.worker_fired(e) && final(self).spec_model() == old(self).spec_model(),
            forall|e: E|
                polled == Polled::Received(Command::Fire(e)) && keys_lawful::<S, E>()
                    ==> final(self)@ == old(self)@.worker_fired(e),
            polled == Polled::<E>::Empty ==> exists|t: Option<S>|
                #[trigger] call_ensures(*tick, (&old(self)@.state, &old(self).spec_model()), t) && {
                    &&& t is None ==> final(self)@ == old(self)@
                        && final(self).spec_model() == old(self).spec_model()
                    &&& t is Some ==> final(self)@.state == t->0
                    &&& keys_lawful::<S, E>() ==> final(self)@ == old(self)@.ticked(t)
                    &&& keys_lawful::<S, E>() && t is Some ==> old(self)@.runs(
                        old(self)@.goto_plan(t->0),
                        old(self).spec_model(),
                        final(self).spec_model(),
                    )
                },
    {
        let ghost start_view = self@;
        proof {
            assert(self@.ran_since(start_view) =~= Seq::<nat>::empty());
            assert(self@.history =~= start_view.history + self@.ran_since(start_view));
        }
        match polled {
            Polled::Received(Command::Start) => {
                if let Err(err) = self.start() {
                    self.note_error(err);
                }
                Flow::Continue
            },
            Polled::Received(Command::Fire(e)) => {
                if let Err(err) = self.fire(e) {
                    self.note_error(err);
                }
                Flow::Continue
            },
            Polled::Received(Command::Stop) => Flow::Exit,
            Polled::Closed => Flow::Exit,
            Polled::Empty => {
                let target = tick(self.current_state(), self.model());
                match target {
                    Some(t) => self.goto(t),
                    None => {},
                }
                Flow::Continue
            },
        }
    }
}

} // verus!
