//! The resolve-once slot and the shared handles it hands out.

use vstd::prelude::*;
use std::sync::Arc;

verus! {

/// A shared handle to one constructed instance.
///
/// `tag` is the type token the instance was registered under, `id` is a
/// number that is unique to this construction within its container family,
/// and `value` is the constructed value itself, shared by reference count.
/// Two handles refer to the same construction exactly when their ids are
/// equal.
#[derive(Debug)]
pub struct Handle<T> {
    pub(crate) tag: u64,
    pub(crate) id: u64,
    pub(crate) value: Arc<T>,
}

/// Relies on `std::sync::Arc::clone`: the clone is a second reference to the
/// same allocation, so it carries the same value.
#[verifier::external_body]
fn arc_share<T>(a: &Arc<T>) -> (r: Arc<T>)
    ensures
        r == *a,
{
    Arc::clone(a)
}

/// Relies on `std::sync::Arc`'s `Deref`: dereferencing yields the shared
/// value.
#[verifier::external_body]
fn arc_value<T>(a: &Arc<T>) -> (r: &T)
    ensures
        *r == **a,
{
    &**a
}

impl<T> Handle<T> {
    /// The type token this handle was resolved under.
    pub closed spec fn spec_tag(&self) -> u64 {
        self.tag
    }

    /// The identity of the underlying construction.
    pub closed spec fn spec_id(&self) -> u64 {
        self.id
    }

    /// The constructed value this handle shares.
    pub closed spec fn spec_value(&self) -> T {
        *self.value
    }

    /// Wrap a freshly constructed value.
    pub(crate) fn new(tag: u64, id: u64, value: T) -> (h: Self)
        ensures
            h.spec_tag() == tag,
            h.spec_id() == id,
            h.spec_value() == value,
    {
        Handle { tag, id, value: Arc::new(value) }
    }

    /// The type token this handle was resolved under.
    pub fn tag(&self) -> (t: u64)
        ensures
            t == self.spec_tag(),
    {
        self.tag
    }

    /// The identity of the underlying construction: equal ids mean the very
    /// same constructed instance, distinct ids mean distinct constructions.
    pub fn id(&self) -> (i: u64)
        ensures
            i == self.spec_id(),
    {
        self.id
    }

    /// A reference to the constructed value.
    pub fn value(&self) -> (v: &T)
        ensures
            *v == self.spec_value(),
    {
        arc_value(&self.value)
    }

    /// A second handle to the same constructed instance.
    pub fn share(&self) -> (h: Self)
        ensures
            h == *self,
    {
        Handle { tag: self.tag, id: self.id, value: arc_share(&self.value) }
    }
}

/// The per-key resolve-once cell for scoped and singleton registrations.
///
/// A slot starts `Unresolved`; the first resolve call moves it to `Building`
/// while the provider runs, then publishes the constructed handle as
/// `Resolved`.  `Resolved` is permanent: the stored handle never changes.  A
/// failed construction moves the slot back to `Unresolved` so that a later
/// call may retry.
#[derive(Debug)]
pub enum Slot<T> {
    /// No construction has been published.
    Unresolved,
    /// A construction for this key is in flight.
    Building,
    /// The key's instance, shared with every later resolve call.
    Resolved(Handle<T>),
}

} // verus!
