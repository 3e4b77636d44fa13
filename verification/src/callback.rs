//! User callbacks: closures that a node keeps and calls with what happened.

use crate::peer::Role;
use std::marker::PhantomData;
use vstd::prelude::*;

verus! {

/// Something that can be called with a value of type `A`, whatever the
/// value is.
pub trait Callback<A> {
    /// What the callback promises of a call with `arg` that has returned.
    spec fn returned(&self, arg: A) -> bool;

    /// Calls the callback with `arg`.
    fn call(&self, arg: A)
        ensures
            self.returned(arg),
    ;
}

/// A closure kept as a callback. It can be called with every value of `A`.
pub struct FnCallback<A, F: Fn(A)> {
    func: F,
    marker: PhantomData<A>,
}

impl<A, F: Fn(A)> FnCallback<A, F> {
    #[verifier::type_invariant]
    spec fn takes_every_value(self) -> bool {
        forall|arg: A| call_requires(self.func, (arg,))
    }

    /// The closure that is kept.
    pub closed spec fn func(self) -> F {
        self.func
    }

    /// Keeps `func`, which must accept every value of `A`.
    pub fn new(func: F) -> (callback: Self)
        requires
            forall|arg: A| call_requires(func, (arg,)),
        ensures
            callback.func() == func,
    {
        FnCallback { func, marker: PhantomData }
    }
}

impl<A, F: Fn(A)> Callback<A> for FnCallback<A, F> {
    open spec fn returned(&self, arg: A) -> bool {
        call_ensures(self.func(), (arg,), ())
    }

    fn call(&self, arg: A) {
        proof {
            use_type_invariant(self);
        }
        (self.func)(arg)
    }
}

/// The callbacks that the user of a node registered.
#[verifier::reject_recursive_types(T)]
pub struct Callbacks<T> {
    on_received: Option<Box<dyn Callback<T>>>,
    on_role_change: Option<Box<dyn Callback<Role>>>,
}

impl<T> Callbacks<T> {
    /// Whether a callback for application values is registered.
    pub closed spec fn has_on_received(&self) -> bool {
        self.on_received is Some
    }

    /// Whether a callback for role changes is registered.
    pub closed spec fn has_on_role_change(&self) -> bool {
        self.on_role_change is Some
    }

    /// What the callback for application values promises of a call with
    /// `payload` that has returned; nothing, where none is registered.
    pub closed spec fn received(&self, payload: T) -> bool {
        match self.on_received {
            Some(callback) => callback.returned(payload),
            None => true,
        }
    }

    /// What the callback for role changes promises of a call with `role`
    /// that has returned; nothing, where none is registered.
    pub closed spec fn role_changed(&self, role: Role) -> bool {
        match self.on_role_change {
            Some(callback) => callback.returned(role),
            None => true,
        }
    }

    /// No callback at all.
    pub fn none() -> (callbacks: Self)
        ensures
            !callbacks.has_on_received(),
            !callbacks.has_on_role_change(),
    {
        Callbacks { on_received: None, on_role_change: None }
    }

    /// These callbacks, with `callback` for application values.
    pub fn with_on_received<F>(self, callback: F) -> (callbacks: Self) where
        F: Fn(T) + 'static,
        T: 'static,

        requires
            forall|payload: T| call_requires(callback, (payload,)),
        ensures
            callbacks.has_on_received(),
            callbacks.has_on_role_change() == self.has_on_role_change(),
            forall|payload: T|
                #[trigger] callbacks.received(payload) == call_ensures(callback, (payload,), ()),
            forall|role: Role| #[trigger] callbacks.role_changed(role) == self.role_changed(role),
    {
        let boxed: Box<dyn Callback<T>> = Box::new(FnCallback::new(callback));
        let ghost kept = boxed;
        let on_received = Some(boxed);
        let callbacks = Callbacks { on_received, on_role_change: self.on_role_change };
        proof {
            assert forall|payload: T| #[trigger]
                callbacks.received(payload) == call_ensures(callback, (payload,), ()) by {
                assert(callbacks.on_received == Some(kept));
            }
            assert forall|role: Role| #[trigger]
                callbacks.role_changed(role) == self.role_changed(role) by {}
        }
        callbacks
    }

    /// These callbacks, with `callback` for role changes.
    pub fn with_on_role_change<F>(self, callback: F) -> (callbacks: Self) where
        F: Fn(Role) + 'static,

        requires
            forall|role: Role| call_requires(callback, (role,)),
        ensures
            callbacks.has_on_role_change(),
            callbacks.has_on_received() == self.has_on_received(),
            forall|role: Role|
                #[trigger] callbacks.role_changed(role) == call_ensures(callback, (role,), ()),
            forall|payload: T| #[trigger] callbacks.received(payload) == self.received(payload),
    {
        let boxed: Box<dyn Callback<Role>> = Box::new(FnCallback::new(callback));
        let ghost kept = boxed;
        let on_role_change = Some(boxed);
        let callbacks = Callbacks { on_received: self.on_received, on_role_change };
        proof {
            assert forall|role: Role| #[trigger]
                callbacks.role_changed(role) == call_ensures(callback, (role,), ()) by {
                assert(callbacks.on_role_change == Some(kept));
            }
            assert forall|payload: T| #[trigger]
                callbacks.received(payload) == self.received(payload) by {}
        }
        callbacks
    }

    /// Hands an application value to the callback of the user, if there is
    /// one.
    pub fn call_on_received(&self, data: T)
        ensures
            self.received(data),
    {
        if let Some(ref callback) = self.on_received {
            callback.call(data)
        }
    }

    /// Tells the callback of the user the new role, if there is one.
    pub fn call_on_role_change(&self, role: Role)
        ensures
            self.role_changed(role),
    {
        if let Some(ref callback) = self.on_role_change {
            callback.call(role)
        }
    }
}

} // verus!
