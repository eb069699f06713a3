//! Callbacks that the caller hands to the library. They are kept and handed back, and run
//! by the caller's side.
use vstd::prelude::*;

verus! {

/// What runs when a device disconnects. `S` is the type of a plain callback, `A` that of a
/// callback that returns a future.
#[derive(Debug)]
pub enum OnDisconnectHandler<S, A> {
    /// Nothing runs.
    Unset,
    Sync(S),
    Async(A),
}

impl<S, A> OnDisconnectHandler<S, A> {
    /// Takes the callback out and leaves nothing to run.
    #[must_use]
    pub fn take(&mut self) -> (r: Self)
        ensures
            r == *old(self),
            *final(self) == OnDisconnectHandler::<S, A>::Unset,
    {
        let mut out = OnDisconnectHandler::Unset;
        core::mem::swap(self, &mut out);
        out
    }

    /// A callback that returns a future.
    pub fn from_async(func: A) -> (r: Self)
        ensures
            r == OnDisconnectHandler::<S, A>::Async(func),
    {
        OnDisconnectHandler::Async(func)
    }

    /// A plain callback.
    pub fn from_sync(func: S) -> (r: Self)
        ensures
            r == OnDisconnectHandler::<S, A>::Sync(func),
    {
        OnDisconnectHandler::Sync(func)
    }
}

/// What runs on each notification of a characteristic.
#[derive(Debug)]
pub enum SubscriptionHandler<S, A> {
    Sync(S),
    Async(A),
}

impl<S, A> SubscriptionHandler<S, A> {
    /// A callback that returns a future.
    pub fn from_async(func: A) -> (r: Self)
        ensures
            r == SubscriptionHandler::<S, A>::Async(func),
    {
        SubscriptionHandler::Async(func)
    }
}

impl<S, A> From<S> for SubscriptionHandler<S, A> {
    fn from(func: S) -> (r: Self) {
        SubscriptionHandler::Sync(func)
    }
}

impl<S, A> vstd::std_specs::convert::FromSpecImpl<S> for SubscriptionHandler<S, A> {
    open spec fn obeys_from_spec() -> bool {
        true
    }

    open spec fn from_spec(func: S) -> Self {
        SubscriptionHandler::Sync(func)
    }
}

} // verus!
