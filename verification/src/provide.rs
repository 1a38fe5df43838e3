//! The capabilities a registered provider presents to the container.

use vstd::prelude::*;
use crate::container::Container;
use crate::Error;

verus! {

/// A marker for values that may be managed by a [`Container`].
pub trait Inject: Sized {

}

/// The construction capability of a registered provider.
///
/// Implementations are supplied by the library's users: the container only
/// consumes this contract.  `provide` is handed the container and the scope
/// the resolution is running in, so that the implementation may resolve its
/// own dependencies on the same container.  Whatever the implementation does,
/// it must leave the container well formed and may only evolve it the way the
/// container's own operations do: the registry stays fixed, published
/// instances stay published, and in-flight constructions stay in flight.
pub trait Provide<T>: Sized {
    /// A second reference to this provider.  The container duplicates a
    /// provider before invoking it, so that the provider may in turn borrow
    /// the container to resolve its own dependencies.
    fn dup(&self) -> Self;

    /// Construct one value, resolving any dependencies through `c`.
    fn provide(&self, c: &mut Container<Self, T>, scope: usize) -> (r: Result<T, Error>)
        requires
            old(c).wf(),
            scope < old(c)@.scopes.len(),
        ensures
            final(c).wf(),
            old(c)@.evolves_to(final(c)@),
    ;
}

/// The declared dependencies of a provider, used only by the optional
/// dependency-tracking surface of [`crate::ContainerBuilder`].
pub trait Dependencies {
    /// The keys this provider resolves when constructing its output.
    fn dependencies(&self) -> Vec<String>;
}

} // verus!
