use vstd::prelude::*;

use core::marker::PhantomData;

verus! {

/// A unit of behaviour attached to a state or an event: it is run with
/// exclusive access to the machine's model.
pub trait Handler<M>: Send + Sync {
    /// What a run of the handler may do: `after` is a model that a run
    /// starting from `before` can leave.
    spec fn effect(&self, before: M, after: M) -> bool;

    fn invoke(&self, model: &mut M)
        ensures
            self.effect(*old(model), *final(model)),
    ;
}

/// What running `func` on a model may do: it was called on a model equal to
/// `before`. (What it leaves behind is stated by the closure's own contract,
/// which speaks of the `&mut` it is given; `after` is free here.)
pub open spec fn model_effect<M, F: Fn(&mut M)>(func: F, before: M, after: M) -> bool {
    exists|m: &mut M| *m == before && call_ensures(func, (m,), ())
}

/// What running a handler that ignores the model may do: `func` was called,
/// and the model is unchanged.
pub open spec fn plain_effect<M, F: Fn()>(func: F, before: M, after: M) -> bool {
    after == before && call_ensures(func, (), ())
}

/// A handler that receives the model.
#[verifier::reject_recursive_types(M)]
pub struct WithModel<M, F: Fn(&mut M)> {
    func: F,
    model: PhantomData<M>,
}

impl<M, F: Fn(&mut M)> WithModel<M, F> {
    #[verifier::type_invariant]
    spec fn accepts_any_model(self) -> bool {
        forall|m: &mut M| call_requires(self.func, (m,))
    }

    pub fn new(func: F) -> (r: Self)
        requires
            forall|m: &mut M| call_requires(func, (m,)),
        ensures
            r.func() == func,
    {
        WithModel { func, model: PhantomData }
    }
}

impl<M, F: Fn(&mut M)> WithModel<M, F> {
    /// The closure this handler runs.
    pub closed spec fn func(&self) -> F {
        self.func
    }
}

impl<M: Send + Sync, F: Fn(&mut M) + Send + Sync> Handler<M> for WithModel<M, F> {
    open spec fn effect(&self, before: M, after: M) -> bool {
        model_effect(self.func(), before, after)
    }

    fn invoke(&self, model: &mut M) {
        proof {
            use_type_invariant(self);
        }
        (self.func)(model);
    }
}

/// A handler that ignores the model.
pub struct Nullary<F: Fn()> {
    func: F,
}

impl<F: Fn()> Nullary<F> {
    #[verifier::type_invariant]
    spec fn accepts_call(self) -> bool {
        call_requires(self.func, ())
    }

    pub fn new(func: F) -> (r: Self)
        requires
            call_requires(func, ()),
        ensures
            r.func() == func,
    {
        Nullary { func }
    }
}

impl<F: Fn()> Nullary<F> {
    /// The closure this handler runs.
    pub closed spec fn func(&self) -> F {
        self.func
    }
}

impl<M, F: Fn() + Send + Sync> Handler<M> for Nullary<F> {
    open spec fn effect(&self, before: M, after: M) -> bool {
        plain_effect(self.func(), before, after)
    }

    fn invoke(&self, model: &mut M) {
        proof {
            use_type_invariant(self);
        }
        (self.func)();
    }
}

} // verus!
