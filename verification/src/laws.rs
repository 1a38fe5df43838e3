//! The identity laws of the container, stated over the spec relations that
//! the contracts of [`crate::Container::resolve`] and
//! [`crate::Container::scoped`] are written in, and proved once and for all.
//!
//! Each law quantifies over container states `c0 evolves_to c1 ...` so that
//! it covers any sequence of container operations between the two resolve
//! calls it speaks about: every operation of the container, and every
//! provider invocation, ensures `evolves_to`, and the relation is
//! transitive.

use vstd::prelude::*;

use crate::container::ContainerV;
use crate::registration::RegistrationKind;
use crate::resolvable::Handle;
use crate::resolvable::Slot;

verus! {

/// Evolution is reflexive: a container at rest evolves to itself.
pub proof fn lemma_evolves_refl<T>(c: ContainerV<T>)
    ensures
        c.evolves_to(c),
{
}

/// Evolution is transitive, so any chain of container operations and
/// provider invocations is itself one evolution step.
pub proof fn lemma_evolves_trans<T>(a: ContainerV<T>, b: ContainerV<T>, c: ContainerV<T>)
    requires
        a.evolves_to(b),
        b.evolves_to(c),
    ensures
        a.evolves_to(c),
{
    assert forall|j: int| 0 <= j < a.entries.len() implies crate::container::slot_evolves(
        #[trigger] a.singletons[j],
        c.singletons[j],
    ) by {
        assert(crate::container::slot_evolves(a.singletons[j], b.singletons[j]));
        assert(crate::container::slot_evolves(b.singletons[j], c.singletons[j]));
    }
    assert forall|i: int| 0 <= i < a.scopes.len() implies (#[trigger] c.scopes[i]).parent
        == a.scopes[i].parent by {
        assert(b.scopes[i].parent == a.scopes[i].parent);
        assert(c.scopes[i].parent == b.scopes[i].parent);
    }
    assert forall|i: int, j: int|
        0 <= i < a.scopes.len() && 0 <= j < a.entries.len() implies crate::container::slot_evolves(
        #[trigger] a.scopes[i].slots[j],
        c.scopes[i].slots[j],
    ) by {
        assert(crate::container::slot_evolves(a.scopes[i].slots[j], b.scopes[i].slots[j]));
        assert(crate::container::slot_evolves(b.scopes[i].slots[j], c.scopes[i].slots[j]));
    }
}

/// A key registered somewhere has a valid registry index.
proof fn lemma_key_index_valid<T>(c: ContainerV<T>, k: Seq<char>)
    requires
        c.has_key(k),
    ensures
        0 <= c.key_index(k) < c.entries.len(),
        c.entry_of(k).key == k,
{
}

/// Transient distinctness: two resolve calls for a `Transient` key — in any
/// scopes, with any container activity in between — return handles to
/// distinct constructions.
pub proof fn lemma_transient_distinct<T>(
    c0: ContainerV<T>,
    c1: ContainerV<T>,
    c2: ContainerV<T>,
    c3: ContainerV<T>,
    s1: int,
    s2: int,
    k: Seq<char>,
    tag: u64,
    h1: Handle<T>,
    h2: Handle<T>,
)
    requires
        c0.entry_of(k).kind == RegistrationKind::Transient,
        c0.resolve_ok(c1, s1, k, tag, h1),
        c0.evolves_to(c1),
        c1.evolves_to(c2),
        c2.resolve_ok(c3, s2, k, tag, h2),
    ensures
        h1.spec_id() != h2.spec_id(),
{
    assert(c2.entries == c0.entries);
    assert(c2.entry_of(k).kind == RegistrationKind::Transient);
    assert(h1.spec_id() < c1.next_id);
    assert(c2.next_id <= h2.spec_id());
}

/// Singleton identity: once a `Singleton` key's instance is published, every
/// later resolve of that key — on any scope of the family, after any
/// container activity — returns a handle to that very instance.
pub proof fn lemma_singleton_identity<T>(
    c1: ContainerV<T>,
    c2: ContainerV<T>,
    c3: ContainerV<T>,
    s2: int,
    k: Seq<char>,
    tag: u64,
    h1: Handle<T>,
    h2: Handle<T>,
)
    requires
        c1.has_key(k),
        c1.entry_of(k).kind == RegistrationKind::Singleton,
        c1.singleton_slot(k) == Slot::Resolved(h1),
        c1.evolves_to(c2),
        c2.resolve_ok(c3, s2, k, tag, h2),
    ensures
        h2 == h1,
        c2.singleton_slot(k) == Slot::Resolved(h1),
{
    lemma_key_index_valid(c1, k);
    let j = c1.key_index(k);
    assert(crate::container::slot_evolves(c1.singletons[j], c2.singletons[j]));
    assert(c2.entries == c1.entries);
}

/// Scoped identity within a scope: once a `Scoped` key's instance is
/// published in a scope, every later resolve of that key on the same scope
/// returns a handle to that very instance.
pub proof fn lemma_scoped_identity_within_scope<T>(
    c1: ContainerV<T>,
    c2: ContainerV<T>,
    c3: ContainerV<T>,
    s: int,
    k: Seq<char>,
    tag: u64,
    h1: Handle<T>,
    h2: Handle<T>,
)
    requires
        c1.has_key(k),
        c1.entry_of(k).kind == RegistrationKind::Scoped,
        0 <= s < c1.scopes.len(),
        c1.scoped_slot(s, k) == Slot::Resolved(h1),
        c1.evolves_to(c2),
        c2.resolve_ok(c3, s, k, tag, h2),
    ensures
        h2 == h1,
        c2.scoped_slot(s, k) == Slot::Resolved(h1),
{
    lemma_key_index_valid(c1, k);
    let j = c1.key_index(k);
    assert(crate::container::slot_evolves(c1.scopes[s].slots[j], c2.scopes[s].slots[j]));
    assert(c2.entries == c1.entries);
}

/// Singleton identity, end to end: whenever two resolve calls for a
/// `Singleton` key both succeed — on any scopes of the family, with any
/// container activity in between — they return handles to the identical
/// instance.
pub proof fn lemma_singleton_resolve_twice<T>(
    c0: ContainerV<T>,
    c1: ContainerV<T>,
    c2: ContainerV<T>,
    c3: ContainerV<T>,
    s1: int,
    s2: int,
    k: Seq<char>,
    tag: u64,
    h1: Handle<T>,
    h2: Handle<T>,
)
    requires
        c0.entry_of(k).kind == RegistrationKind::Singleton,
        c0.resolve_ok(c1, s1, k, tag, h1),
        c0.evolves_to(c1),
        c1.evolves_to(c2),
        c2.resolve_ok(c3, s2, k, tag, h2),
    ensures
        h2 == h1,
{
    lemma_key_index_valid(c0, k);
    assert(c1.entries == c0.entries);
    assert(c1.singleton_slot(k) == Slot::Resolved(h1));
    lemma_singleton_identity(c1, c2, c3, s2, k, tag, h1, h2);
}

/// Scoped identity within one scope, end to end: whenever two resolve calls
/// for a `Scoped` key on the same scope both succeed — with any container
/// activity in between — they return handles to the identical instance.  In
/// particular, two different resolution paths that both reach the same
/// scoped dependency within one scope observe one instance, not two.
pub proof fn lemma_scoped_resolve_twice_same_scope<T>(
    c0: ContainerV<T>,
    c1: ContainerV<T>,
    c2: ContainerV<T>,
    c3: ContainerV<T>,
    s: int,
    k: Seq<char>,
    tag: u64,
    h1: Handle<T>,
    h2: Handle<T>,
)
    requires
        c0.entry_of(k).kind == RegistrationKind::Scoped,
        0 <= s < c0.scopes.len(),
        c0.resolve_ok(c1, s, k, tag, h1),
        c0.evolves_to(c1),
        c1.evolves_to(c2),
        c2.resolve_ok(c3, s, k, tag, h2),
    ensures
        h2 == h1,
{
    lemma_key_index_valid(c0, k);
    assert(c1.entries == c0.entries);
    assert(c1.scoped_slot(s, k) == Slot::Resolved(h1));
    lemma_scoped_identity_within_scope(c1, c2, c3, s, k, tag, h1, h2);
}

/// Scoped freshness: a `Scoped` key resolved through a slot that is still
/// empty — as every slot of a freshly opened scope is — yields an instance
/// distinct from any instance already published anywhere in the family, in
/// particular from the parent scope's or a sibling scope's instance of the
/// same key.
pub proof fn lemma_fresh_scope_distinct<T>(
    c1: ContainerV<T>,
    c2: ContainerV<T>,
    c3: ContainerV<T>,
    s1: int,
    s2: int,
    k: Seq<char>,
    tag: u64,
    h1: Handle<T>,
    h2: Handle<T>,
)
    requires
        c1.wf(),
        c1.has_key(k),
        c1.entry_of(k).kind == RegistrationKind::Scoped,
        0 <= s1 < c1.scopes.len(),
        c1.scoped_slot(s1, k) == Slot::Resolved(h1),
        c1.evolves_to(c2),
        c2.scoped_slot(s2, k) is Unresolved,
        c2.resolve_ok(c3, s2, k, tag, h2),
    ensures
        h1.spec_id() != h2.spec_id(),
{
    lemma_key_index_valid(c1, k);
    let j = c1.key_index(k);
    assert(crate::container::slot_wf(c1.scopes[s1].slots[j], c1.entries[j].tag, c1.next_id));
    assert(h1.spec_id() < c1.next_id);
    assert(c2.entries == c1.entries);
    assert(c2.next_id <= h2.spec_id());
}

/// Construction happens at most once: a resolve that finds a `Scoped` or
/// `Singleton` key's instance already published returns that very instance
/// and leaves the container exactly as it was — no provider runs, nothing is
/// constructed a second time.
pub proof fn lemma_resolve_once<T>(
    c1: ContainerV<T>,
    c2: ContainerV<T>,
    s: int,
    k: Seq<char>,
    tag: u64,
    h1: Handle<T>,
    h2: Handle<T>,
)
    requires
        c1.has_key(k),
        match c1.entry_of(k).kind {
            RegistrationKind::Scoped => c1.scoped_slot(s, k) == Slot::Resolved(h1),
            RegistrationKind::Singleton => c1.singleton_slot(k) == Slot::Resolved(h1),
            RegistrationKind::Transient => false,
        },
        c1.resolve_ok(c2, s, k, tag, h2),
    ensures
        h2 == h1,
        c2 == c1,
{
}

} // verus!
