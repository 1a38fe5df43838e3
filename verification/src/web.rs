//! The framework-independent core of the request-extraction adapter: a
//! wrapper marking a value as resolved from a container, and the trait that
//! names the key a given service is registered under.

use vstd::prelude::*;
use core::marker::PhantomData;

verus! {

/// Names the container key under which the service `T` is registered, so
/// that request handlers can ask for `Injected<T, K>` without repeating the
/// key.
pub trait ContainerKey<T> {
    /// The key to resolve.
    fn key() -> &'static str;
}

/// A value resolved from a container on behalf of a request handler,
/// together with the key marker it was resolved under.
pub struct Injected<T, K>(pub T, pub PhantomData<K>);

impl<T, K> Injected<T, K> {
    /// Wrap a resolved value.
    pub fn new(injected: T) -> (r: Self)
        ensures
            r.0 == injected,
    {
        Injected(injected, PhantomData)
    }
}

} // verus!
