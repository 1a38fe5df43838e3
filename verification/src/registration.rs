//! Lifetime kinds and the registration pair stored for each key.

use vstd::prelude::*;

verus! {

/// Controls when a [`crate::Container`] calls [`crate::Provide::provide`]
/// for a registered key.
#[derive(Copy, Clone, Debug)]
pub enum RegistrationKind {
    /// The container constructs a single instance and reuses it throughout
    /// all scopes.
    Singleton,
    /// The container constructs a new instance for each scope opened through
    /// [`crate::Container::scoped`].
    Scoped,
    /// The container constructs a new instance for every resolve call.
    Transient,
}

/// An immutable pair of a lifetime kind and a provider.  Once built into a
/// container, a registration never changes kind or provider.
#[derive(Clone, Debug)]
pub struct Registration<P> {
    pub kind: RegistrationKind,
    pub provider: P,
}

impl<P> Registration<P> {
    /// Pair `provider` with the lifetime `kind` under which it will be
    /// registered.
    pub fn new(kind: RegistrationKind, provider: P) -> (r: Self)
        ensures
            r.kind == kind,
            r.provider == provider,
    {
        Registration { kind, provider }
    }

    /// The lifetime kind of this registration.
    pub fn kind(&self) -> (k: RegistrationKind)
        ensures
            k == self.kind,
    {
        self.kind
    }
}

} // verus!
