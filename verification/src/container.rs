//! The container: registry, scopes, and the resolution engine.

use vstd::prelude::*;

use crate::provide::Dependencies;
use crate::provide::Provide;
use crate::registration::Registration;
use crate::registration::RegistrationKind;
use crate::resolvable::Handle;
use crate::resolvable::Slot;
use crate::Error;

verus! {

/// One registered key as the contracts see it: its name, the type token of
/// its output, and its lifetime kind.
pub struct EntryV {
    pub key: Seq<char>,
    pub tag: u64,
    pub kind: RegistrationKind,
}

/// One scope as the contracts see it: the scope it was derived from, if any,
/// and its own resolve-once slots, one per registered key.
pub struct ScopeV<T> {
    pub parent: Option<usize>,
    pub slots: Seq<Slot<T>>,
}

/// A container family as the contracts see it.
///
/// `entries` is the immutable registry, shared by every scope.  `singletons`
/// holds one slot per key, shared by the whole family; `scopes[s].slots`
/// holds one slot per key, private to scope `s`.  `next_id` is the first
/// instance id that has not been handed out yet.
pub struct ContainerV<T> {
    pub entries: Seq<EntryV>,
    pub singletons: Seq<Slot<T>>,
    pub scopes: Seq<ScopeV<T>>,
    pub next_id: u64,
    pub deps: Seq<(Seq<char>, Seq<Seq<char>>)>,
}

/// No two registered keys are equal.
pub open spec fn keys_unique(es: Seq<EntryV>) -> bool {
    forall|i: int, j: int|
        0 <= i < es.len() && 0 <= j < es.len() && i != j ==> (#[trigger] es[i]).key != (
        #[trigger] es[j]).key
}

/// Some entry is registered under `k`.
pub open spec fn has_entry(es: Seq<EntryV>, k: Seq<char>) -> bool {
    exists|i: int| 0 <= i < es.len() && (#[trigger] es[i]).key == k
}

/// The index of the entry registered under `k`; meaningful only when
/// `has_entry(es, k)` holds.
pub open spec fn entry_index(es: Seq<EntryV>, k: Seq<char>) -> int {
    choose|i: int| 0 <= i < es.len() && (#[trigger] es[i]).key == k
}

/// With unique keys, an entry whose key is `k` sits exactly at
/// `entry_index(es, k)`.
pub proof fn lemma_entry_index(es: Seq<EntryV>, k: Seq<char>, j: int)
    requires
        keys_unique(es),
        0 <= j < es.len(),
        es[j].key == k,
    ensures
        has_entry(es, k),
        entry_index(es, k) == j,
{
    assert(has_entry(es, k));
    let i = entry_index(es, k);
    assert(0 <= i < es.len() && es[i].key == k);
    if i != j {
        assert(es[i].key != es[j].key);
    }
}

/// A resolved slot stores a handle whose token matches the registration and
/// whose id was minted before `next_id`.
pub open spec fn slot_wf<T>(s: Slot<T>, tag: u64, next_id: u64) -> bool {
    s matches Slot::Resolved(h) ==> h.spec_tag() == tag && h.spec_id() < next_id
}

/// How one slot may change between two observations of a container at rest:
/// a published instance stays published unchanged, an in-flight construction
/// stays in flight, and an empty slot may be filled but can never be left in
/// flight.
pub open spec fn slot_evolves<T>(a: Slot<T>, b: Slot<T>) -> bool {
    match a {
        Slot::Unresolved => !(b is Building),
        Slot::Building => b is Building,
        Slot::Resolved(h) => b == Slot::Resolved(h),
    }
}

impl<T> ContainerV<T> {
    /// Well-formedness of a container family.
    pub open spec fn wf(self) -> bool {
        &&& keys_unique(self.entries)
        &&& self.singletons.len() == self.entries.len()
        &&& self.scopes.len() >= 1
        &&& self.scopes[0].parent is None
        &&& forall|i: int|
            0 <= i < self.scopes.len() ==> (#[trigger] self.scopes[i]).slots.len()
                == self.entries.len()
        &&& forall|i: int|
            0 <= i < self.scopes.len() ==> ((#[trigger] self.scopes[i]).parent matches Some(p)
                ==> p < i)
        &&& forall|j: int|
            0 <= j < self.entries.len() ==> slot_wf(
                #[trigger] self.singletons[j],
                self.entries[j].tag,
                self.next_id,
            )
        &&& forall|i: int, j: int|
            0 <= i < self.scopes.len() && 0 <= j < self.entries.len() ==> slot_wf(
                #[trigger] self.scopes[i].slots[j],
                self.entries[j].tag,
                self.next_id,
            )
    }

    /// How a container may change across any of its own operations, or across
    /// a provider invocation: the registry is immutable, ids are never handed
    /// out twice, scopes are never dropped and keep their parents, and every
    /// slot follows [`slot_evolves`].
    pub open spec fn evolves_to(self, post: Self) -> bool {
        &&& post.entries == self.entries
        &&& post.deps == self.deps
        &&& self.next_id <= post.next_id
        &&& self.scopes.len() <= post.scopes.len()
        &&& forall|j: int|
            0 <= j < self.entries.len() ==> slot_evolves(
                #[trigger] self.singletons[j],
                post.singletons[j],
            )
        &&& forall|i: int|
            0 <= i < self.scopes.len() ==> (#[trigger] post.scopes[i]).parent
                == self.scopes[i].parent
        &&& forall|i: int, j: int|
            0 <= i < self.scopes.len() && 0 <= j < self.entries.len() ==> slot_evolves(
                #[trigger] self.scopes[i].slots[j],
                post.scopes[i].slots[j],
            )
    }

    /// Some entry is registered under `k`.
    pub open spec fn has_key(self, k: Seq<char>) -> bool {
        has_entry(self.entries, k)
    }

    /// The index of the entry registered under `k`.
    pub open spec fn key_index(self, k: Seq<char>) -> int {
        entry_index(self.entries, k)
    }

    /// The entry registered under `k`.
    pub open spec fn entry_of(self, k: Seq<char>) -> EntryV {
        self.entries[self.key_index(k)]
    }

    /// Scope `s`'s own slot for the key `k`.
    pub open spec fn scoped_slot(self, s: int, k: Seq<char>) -> Slot<T> {
        self.scopes[s].slots[self.key_index(k)]
    }

    /// The family-wide slot for the key `k`.
    pub open spec fn singleton_slot(self, k: Seq<char>) -> Slot<T> {
        self.singletons[self.key_index(k)]
    }

    /// Whether a resolve of `k` in scope `s` would find its slot in flight.
    /// Within one thread of execution this means the resolve re-entered its
    /// own construction: with concurrent callers such a resolve would block
    /// until the in-flight construction finishes, and a construction that
    /// waits on itself never does — the accepted deadlock of a cyclic
    /// dependency graph.  `resolve` therefore rules it out up front.
    pub open spec fn key_building(self, s: int, k: Seq<char>) -> bool {
        self.has_key(k) && match self.entry_of(k).kind {
            RegistrationKind::Singleton => self.singleton_slot(k) is Building,
            RegistrationKind::Scoped => self.scoped_slot(s, k) is Building,
            RegistrationKind::Transient => false,
        }
    }

    /// The handle `h` was minted by the step from `self` to `post`.
    pub open spec fn minted(self, post: Self, h: Handle<T>) -> bool {
        self.next_id <= h.spec_id() && h.spec_id() < post.next_id
    }

    /// What a successful resolve of key `k` with token `tag` in scope `s`
    /// guarantees about the returned handle and the step from `self` to
    /// `post`.
    pub open spec fn resolve_ok(
        self,
        post: Self,
        s: int,
        k: Seq<char>,
        tag: u64,
        h: Handle<T>,
    ) -> bool {
        &&& self.has_key(k)
        &&& self.entry_of(k).tag == tag
        &&& h.spec_tag() == tag
        &&& match self.entry_of(k).kind {
            RegistrationKind::Transient => self.minted(post, h),
            RegistrationKind::Scoped => {
                &&& post.scoped_slot(s, k) == Slot::Resolved(h)
                &&& (self.scoped_slot(s, k) matches Slot::Resolved(h0) ==> h == h0 && post == self)
                &&& (self.scoped_slot(s, k) is Unresolved ==> self.minted(post, h))
            },
            RegistrationKind::Singleton => {
                &&& post.singleton_slot(k) == Slot::Resolved(h)
                &&& (self.singleton_slot(k) matches Slot::Resolved(h0) ==> h == h0 && post == self)
                &&& (self.singleton_slot(k) is Unresolved ==> self.minted(post, h))
            },
        }
    }

    /// What a failed resolve of key `k` with token `tag` in scope `s`
    /// guarantees: an unknown key or a wrong token is reported exactly, with
    /// the container untouched, and a failed construction leaves the key's
    /// slot empty again so that a later call may retry.
    pub open spec fn resolve_err(
        self,
        post: Self,
        s: int,
        k: Seq<char>,
        tag: u64,
        e: Error,
    ) -> bool {
        &&& (!self.has_key(k) ==> {
            &&& e matches Error::KeyNotFound(k2) && k2@ == k
            &&& post == self
        })
        &&& (self.has_key(k) && self.entry_of(k).tag != tag ==> {
            &&& e matches Error::TypeMismatch(k2) && k2@ == k
            &&& post == self
        })
        &&& (self.has_key(k) && self.entry_of(k).tag == tag ==> match self.entry_of(k).kind {
            RegistrationKind::Transient => true,
            RegistrationKind::Scoped => self.scoped_slot(s, k) is Unresolved && post.scoped_slot(
                s,
                k,
            ) is Unresolved,
            RegistrationKind::Singleton => self.singleton_slot(k) is Unresolved
                && post.singleton_slot(k) is Unresolved,
        })
    }
}

/// One registered key as stored: its name, its output's type token, and the
/// registration pair itself.
#[derive(Clone, Debug)]
struct Entry<P> {
    key: String,
    tag: u64,
    reg: Registration<P>,
}

/// One scope as stored: the scope it was derived from, and its own slots.
#[derive(Debug)]
struct Scope<T> {
    parent: Option<usize>,
    slots: Vec<Slot<T>>,
}

/// The abstraction of one stored entry.
spec fn entry_view<P>(e: Entry<P>) -> EntryV {
    EntryV { key: e.key@, tag: e.tag, kind: e.reg.kind }
}

/// The abstraction of a stored dependency listing.
spec fn deps_view(ds: Seq<(String, Vec<String>)>) -> Seq<(Seq<char>, Seq<Seq<char>>)> {
    ds.map(|i: int, p: (String, Vec<String>)| (p.0@, p.1@.map(|m: int, d: String| d@)))
}

/// A name in double quotes, as the dependency listing prints it.
pub open spec fn quoted(s: Seq<char>) -> Seq<char> {
    seq!['"'] + s + seq!['"']
}

/// A comma-separated list of quoted names, as the dependency listing prints
/// it.
pub open spec fn dep_list_repr(ds: Seq<Seq<char>>) -> Seq<char>
    decreases ds.len(),
{
    if ds.len() == 0 {
        Seq::empty()
    } else {
        dep_list_repr(ds.drop_last()) + (if ds.len() == 1 {
            Seq::<char>::empty()
        } else {
            seq![',', ' ']
        }) + quoted(ds.last())
    }
}

/// One key with its declared dependencies, as the dependency listing prints
/// it.
pub open spec fn dep_entry_repr(e: (Seq<char>, Seq<Seq<char>>)) -> Seq<char> {
    quoted(e.0) + seq![':', ' ', '['] + dep_list_repr(e.1) + seq![']']
}

/// The body of the dependency listing.
pub open spec fn deps_repr(ds: Seq<(Seq<char>, Seq<Seq<char>>)>) -> Seq<char>
    decreases ds.len(),
{
    if ds.len() == 0 {
        Seq::empty()
    } else {
        deps_repr(ds.drop_last()) + (if ds.len() == 1 {
            Seq::<char>::empty()
        } else {
            seq![',', ' ']
        }) + dep_entry_repr(ds.last())
    }
}

/// The whole dependency listing: each tracked key with the keys its provider
/// declared, in the order they were tracked.
pub open spec fn report_repr(ds: Seq<(Seq<char>, Seq<Seq<char>>)>) -> Seq<char> {
    seq!['{'] + deps_repr(ds) + seq!['}']
}

/// The abstraction of a stored registry.
spec fn entries_view<P>(es: Seq<Entry<P>>) -> Seq<EntryV> {
    es.map(|i: int, e: Entry<P>| entry_view(e))
}

/// A container family: the immutable registry, the family-wide singleton
/// slots, and one slot generation per scope.
///
/// A container is created by [`ContainerBuilder::build`]; that root is scope
/// `0`.  Further scopes are opened with [`Container::scoped`] and addressed
/// by the index it returns.  A derived scope inherits the whole registry and
/// records the scope it was derived from; since the registry is inherited
/// wholesale, a key unknown to a scope is unknown to every ancestor too, and
/// lookup falls back to [`Error::KeyNotFound`] only at the root.  `P` is the provider type registered in the
/// builder and `T` the type all provided values are erased to; the type
/// tokens recorded at registration distinguish the outputs of different
/// providers the way static types would.
#[derive(Debug)]
pub struct Container<P, T> {
    entries: Vec<Entry<P>>,
    singletons: Vec<Slot<T>>,
    scopes: Vec<Scope<T>>,
    next_id: u64,
    dependency_map: Vec<(String, Vec<String>)>,
}

impl<P, T> View for Container<P, T> {
    type V = ContainerV<T>;

    closed spec fn view(&self) -> ContainerV<T> {
        ContainerV {
            entries: entries_view(self.entries@),
            singletons: self.singletons@,
            scopes: self.scopes@.map(
                |i: int, s: Scope<T>| ScopeV { parent: s.parent, slots: s.slots@ },
            ),
            next_id: self.next_id,
            deps: deps_view(self.dependency_map@),
        }
    }
}

/// Relies on `str`'s `PartialEq`: two string slices are equal exactly when
/// their character sequences are equal.
#[verifier::external_body]
fn str_eq(a: &str, b: &str) -> (r: bool)
    ensures
        r == (a@ == b@),
{
    a == b
}

/// The index of the entry stored under `key`, if any.
fn find_in<P>(entries: &Vec<Entry<P>>, key: &str) -> (r: Option<usize>)
    ensures
        match r {
            Some(j) => 0 <= j < entries@.len() && entries_view(entries@)[j as int].key == key@,
            None => !has_entry(entries_view(entries@), key@),
        },
{
    let n = entries.len();
    let mut i: usize = 0;
    while i < n
        invariant
            n == entries@.len(),
            i <= n,
            forall|m: int| 0 <= m < i ==> (#[trigger] entries_view(entries@)[m]).key != key@,
        decreases n - i,
    {
        if str_eq(entries[i].key.as_str(), key) {
            return Some(i);
        }
        i += 1;
    }
    None
}

/// `c` with scope `s`'s slot for entry `j` replaced by `x`.
spec fn scoped_updated<T>(c: ContainerV<T>, s: int, j: int, x: Slot<T>) -> ContainerV<T> {
    ContainerV {
        scopes: c.scopes.update(
            s,
            ScopeV { parent: c.scopes[s].parent, slots: c.scopes[s].slots.update(j, x) },
        ),
        ..c
    }
}

/// `c` with the family-wide slot for entry `j` replaced by `x`.
spec fn singleton_updated<T>(c: ContainerV<T>, j: int, x: Slot<T>) -> ContainerV<T> {
    ContainerV { singletons: c.singletons.update(j, x), ..c }
}

/// Replacing one scoped slot by a well-formed one, while handing out ids
/// only forward, preserves well-formedness.
proof fn lemma_scoped_update_wf<T>(post: ContainerV<T>, fin: ContainerV<T>, s: int, j: int, x: Slot<
    T,
>)
    requires
        post.wf(),
        0 <= s < post.scopes.len(),
        0 <= j < post.entries.len(),
        post.next_id <= fin.next_id,
        fin == scoped_updated(ContainerV { next_id: fin.next_id, ..post }, s, j, x),
        slot_wf(x, post.entries[j].tag, fin.next_id),
    ensures
        fin.wf(),
{
    assert forall|i2: int, j2: int|
        0 <= i2 < fin.scopes.len() && 0 <= j2 < fin.entries.len() implies slot_wf(
        #[trigger] fin.scopes[i2].slots[j2],
        fin.entries[j2].tag,
        fin.next_id,
    ) by {
        if i2 == s && j2 == j {
        } else {
            assert(fin.scopes[i2].slots[j2] == post.scopes[i2].slots[j2]);
            assert(slot_wf(post.scopes[i2].slots[j2], post.entries[j2].tag, post.next_id));
        }
    }
    assert forall|j2: int| 0 <= j2 < fin.entries.len() implies slot_wf(
        #[trigger] fin.singletons[j2],
        fin.entries[j2].tag,
        fin.next_id,
    ) by {
        assert(slot_wf(post.singletons[j2], post.entries[j2].tag, post.next_id));
    }
}

/// Replacing one family-wide slot by a well-formed one, while handing out
/// ids only forward, preserves well-formedness.
proof fn lemma_singleton_update_wf<T>(post: ContainerV<T>, fin: ContainerV<T>, j: int, x: Slot<T>)
    requires
        post.wf(),
        0 <= j < post.entries.len(),
        post.next_id <= fin.next_id,
        fin == singleton_updated(ContainerV { next_id: fin.next_id, ..post }, j, x),
        slot_wf(x, post.entries[j].tag, fin.next_id),
    ensures
        fin.wf(),
{
    assert forall|i2: int, j2: int|
        0 <= i2 < fin.scopes.len() && 0 <= j2 < fin.entries.len() implies slot_wf(
        #[trigger] fin.scopes[i2].slots[j2],
        fin.entries[j2].tag,
        fin.next_id,
    ) by {
        assert(slot_wf(post.scopes[i2].slots[j2], post.entries[j2].tag, post.next_id));
    }
    assert forall|j2: int| 0 <= j2 < fin.entries.len() implies slot_wf(
        #[trigger] fin.singletons[j2],
        fin.entries[j2].tag,
        fin.next_id,
    ) by {
        if j2 != j {
            assert(slot_wf(post.singletons[j2], post.entries[j2].tag, post.next_id));
        }
    }
}

/// The whole round trip of building one scoped slot — marking it in flight,
/// letting the provider evolve the container, then publishing or clearing
/// the slot — is one legal evolution step.
proof fn lemma_scoped_roundtrip_evolves<T>(
    pre: ContainerV<T>,
    mid: ContainerV<T>,
    post: ContainerV<T>,
    fin: ContainerV<T>,
    s: int,
    j: int,
    x: Slot<T>,
)
    requires
        pre.wf(),
        post.wf(),
        0 <= s < pre.scopes.len(),
        0 <= j < pre.entries.len(),
        pre.scopes[s].slots[j] is Unresolved,
        mid == scoped_updated(pre, s, j, Slot::<T>::Building),
        mid.evolves_to(post),
        fin == scoped_updated(ContainerV { next_id: fin.next_id, ..post }, s, j, x),
        post.next_id <= fin.next_id,
        !(x is Building),
    ensures
        pre.evolves_to(fin),
{
    assert(fin.entries == pre.entries);
    assert(pre.scopes.len() == mid.scopes.len());
    assert forall|j2: int| 0 <= j2 < pre.entries.len() implies slot_evolves(
        #[trigger] pre.singletons[j2],
        fin.singletons[j2],
    ) by {
        assert(slot_evolves(mid.singletons[j2], post.singletons[j2]));
    }
    assert forall|i2: int| 0 <= i2 < pre.scopes.len() implies (#[trigger] fin.scopes[i2]).parent
        == pre.scopes[i2].parent by {
        assert(post.scopes[i2].parent == mid.scopes[i2].parent);
    }
    assert forall|i2: int, j2: int|
        0 <= i2 < pre.scopes.len() && 0 <= j2 < pre.entries.len() implies slot_evolves(
        #[trigger] pre.scopes[i2].slots[j2],
        fin.scopes[i2].slots[j2],
    ) by {
        if i2 == s && j2 == j {
            assert(fin.scopes[i2].slots[j2] == x);
        } else {
            assert(pre.scopes[i2].slots[j2] == mid.scopes[i2].slots[j2]);
            assert(slot_evolves(mid.scopes[i2].slots[j2], post.scopes[i2].slots[j2]));
            assert(fin.scopes[i2].slots[j2] == post.scopes[i2].slots[j2]);
        }
    }
}

/// The same round trip for a singleton slot.
proof fn lemma_singleton_roundtrip_evolves<T>(
    pre: ContainerV<T>,
    mid: ContainerV<T>,
    post: ContainerV<T>,
    fin: ContainerV<T>,
    j: int,
    x: Slot<T>,
)
    requires
        pre.wf(),
        post.wf(),
        0 <= j < pre.entries.len(),
        pre.singletons[j] is Unresolved,
        mid == singleton_updated(pre, j, Slot::<T>::Building),
        mid.evolves_to(post),
        fin == singleton_updated(ContainerV { next_id: fin.next_id, ..post }, j, x),
        post.next_id <= fin.next_id,
        !(x is Building),
    ensures
        pre.evolves_to(fin),
{
    assert(fin.entries == pre.entries);
    assert forall|j2: int| 0 <= j2 < pre.entries.len() implies slot_evolves(
        #[trigger] pre.singletons[j2],
        fin.singletons[j2],
    ) by {
        if j2 == j {
            assert(fin.singletons[j2] == x);
        } else {
            assert(pre.singletons[j2] == mid.singletons[j2]);
            assert(slot_evolves(mid.singletons[j2], post.singletons[j2]));
            assert(fin.singletons[j2] == post.singletons[j2]);
        }
    }
    assert forall|i2: int| 0 <= i2 < pre.scopes.len() implies (#[trigger] fin.scopes[i2]).parent
        == pre.scopes[i2].parent by {
        assert(post.scopes[i2].parent == mid.scopes[i2].parent);
    }
    assert forall|i2: int, j2: int|
        0 <= i2 < pre.scopes.len() && 0 <= j2 < pre.entries.len() implies slot_evolves(
        #[trigger] pre.scopes[i2].slots[j2],
        fin.scopes[i2].slots[j2],
    ) by {
        assert(pre.scopes[i2].slots[j2] == mid.scopes[i2].slots[j2]);
        assert(slot_evolves(mid.scopes[i2].slots[j2], post.scopes[i2].slots[j2]));
        assert(fin.scopes[i2].slots[j2] == post.scopes[i2].slots[j2]);
    }
}

impl<P, T> Container<P, T> {
    /// Well-formedness; established by [`ContainerBuilder::build`] and
    /// preserved by every operation.
    pub open spec fn wf(&self) -> bool {
        self@.wf()
    }

    /// The index of the entry registered under `key`, if any.
    fn find_entry(&self, key: &str) -> (r: Option<usize>)
        ensures
            match r {
                Some(j) => 0 <= j < self@.entries.len() && self@.entries[j as int].key == key@,
                None => !self@.has_key(key@),
            },
    {
        find_in(&self.entries, key)
    }

    /// Replace scope `s`'s slot for entry `j`.
    fn set_scoped_slot(&mut self, s: usize, j: usize, x: Slot<T>)
        requires
            s < old(self)@.scopes.len(),
            j < old(self)@.scopes[s as int].slots.len(),
        ensures
            final(self)@ == (ContainerV {
                scopes: old(self)@.scopes.update(
                    s as int,
                    ScopeV {
                        parent: old(self)@.scopes[s as int].parent,
                        slots: old(self)@.scopes[s as int].slots.update(j as int, x),
                    },
                ),
                ..old(self)@
            }),
    {
        let ghost pre = self@;
        self.scopes[s].slots[j] = x;
        proof {
            assert(self@.scopes =~= pre.scopes.update(
                s as int,
                ScopeV {
                    parent: pre.scopes[s as int].parent,
                    slots: pre.scopes[s as int].slots.update(j as int, x),
                },
            ));
            assert(self@ == (ContainerV {
                scopes: pre.scopes.update(
                    s as int,
                    ScopeV {
                        parent: pre.scopes[s as int].parent,
                        slots: pre.scopes[s as int].slots.update(j as int, x),
                    },
                ),
                ..pre
            }));
        }
    }

    /// Replace the family-wide slot for entry `j`.
    fn set_singleton_slot(&mut self, j: usize, x: Slot<T>)
        requires
            j < old(self)@.singletons.len(),
        ensures
            final(self)@ == (ContainerV { singletons: old(self)@.singletons.update(j as int, x),
                ..old(self)@ }),
    {
        let ghost pre = self@;
        self.singletons[j] = x;
        proof {
            assert(self@.singletons =~= pre.singletons.update(j as int, x));
            assert(self@ == (ContainerV { singletons: pre.singletons.update(j as int, x), ..pre }));
        }
    }

    /// The dependency listing of this container: each key whose dependencies
    /// were tracked at build time, with the keys its provider declared, in
    /// the order they were tracked.
    pub fn dependency_report(&self) -> (r: String)
        ensures
            r@ == report_repr(self@.deps),
    {
        let ghost dv = self@.deps;
        let mut out = "{".to_owned();
        proof {
            reveal_strlit("{");
            assert(out@ =~= seq!['{'] + deps_repr(dv.take(0)));
        }
        let n = self.dependency_map.len();
        let mut i: usize = 0;
        while i < n
            invariant
                n == self.dependency_map@.len(),
                dv == self@.deps,
                dv.len() == n,
                i <= n,
                out@ == seq!['{'] + deps_repr(dv.take(i as int)),
            decreases n - i,
        {
            if i > 0 {
                out.append(", ");
                proof {
                    reveal_strlit(", ");
                }
            }
            out.append("\"");
            out.append(self.dependency_map[i].0.as_str());
            out.append("\": [");
            let ghost base = out@;
            let m_total = self.dependency_map[i].1.len();
            let mut m: usize = 0;
            proof {
                reveal_strlit("\"");
                reveal_strlit("\": [");
                assert(dv[i as int].1 =~= self.dependency_map@[i as int].1@.map(
                    |q: int, d: String| d@,
                ));
            }
            while m < m_total
                invariant
                    0 <= i < n,
                    n == self.dependency_map@.len(),
                    dv == self@.deps,
                    dv.len() == n,
                    m_total == self.dependency_map@[i as int].1@.len(),
                    dv[i as int].1.len() == m_total,
                    m <= m_total,
                    out@ == base + dep_list_repr(dv[i as int].1.take(m as int)),
                decreases m_total - m,
            {
                if m > 0 {
                    out.append(", ");
                    proof {
                        reveal_strlit(", ");
                    }
                }
                out.append("\"");
                out.append(self.dependency_map[i].1[m].as_str());
                out.append("\"");
                proof {
                    reveal_strlit("\"");
                    let ds = dv[i as int].1;
                    assert(ds[m as int] == self.dependency_map@[i as int].1@[m as int]@);
                    assert(ds.take(m + 1 as int).drop_last() =~= ds.take(m as int));
                    assert(ds.take(m + 1 as int).last() == ds[m as int]);
                    assert(out@ =~= base + dep_list_repr(ds.take(m + 1 as int)));
                }
                m += 1;
            }
            out.append("]");
            proof {
                reveal_strlit("]");
                let ds = dv[i as int].1;
                assert(ds.take(m as int) =~= ds);
                assert(dv[i as int] == (dv[i as int].0, dv[i as int].1));
                assert(dv[i as int].0 == self.dependency_map@[i as int].0@);
                assert(dv.take(i + 1 as int).drop_last() =~= dv.take(i as int));
                assert(dv.take(i + 1 as int).last() == dv[i as int]);
                assert(out@ =~= seq!['{'] + deps_repr(dv.take(i + 1 as int)));
            }
            i += 1;
        }
        out.append("}");
        proof {
            reveal_strlit("}");
            assert(dv.take(n as int) =~= dv);
            assert(out@ =~= report_repr(dv));
        }
        out
    }

    /// Open a new scope derived from scope `parent` and return its index.
    ///
    /// The new scope shares the registry and the singleton slots with the
    /// whole family, starts with a fresh, empty slot for every key, and
    /// records `parent` as the scope it was derived from.  No existing scope
    /// is disturbed: `parent` remains independently usable.
    pub fn scoped(&mut self, parent: usize) -> (s: usize)
        requires
            old(self).wf(),
            parent < old(self)@.scopes.len(),
        ensures
            final(self).wf(),
            old(self)@.evolves_to(final(self)@),
            s == old(self)@.scopes.len(),
            final(self)@.scopes.len() == s + 1,
            final(self)@.entries == old(self)@.entries,
            final(self)@.singletons == old(self)@.singletons,
            final(self)@.next_id == old(self)@.next_id,
            forall|i: int| 0 <= i < s ==> final(self)@.scopes[i] == old(self)@.scopes[i],
            final(self)@.scopes[s as int].parent == Some(parent),
            forall|j: int|
                0 <= j < final(self)@.entries.len() ==> final(self)@.scopes[s as int].slots[j]
                    is Unresolved,
    {
        let ghost pre = self@;
        let n = self.entries.len();
        let slots = fresh_slots(n);
        let s = self.scopes.len();
        self.scopes.push(Scope { parent: Some(parent), slots });
        proof {
            assert(self@.scopes =~= pre.scopes.push(
                ScopeV { parent: Some(parent), slots: Seq::new(n as nat, |j: int| Slot::Unresolved) },
            ));
            assert(pre.evolves_to(self@));
        }
        s
    }
}

/// Handing out ids only forward preserves well-formedness.
proof fn lemma_bump_wf<T>(post: ContainerV<T>, fin: ContainerV<T>)
    requires
        post.wf(),
        fin == (ContainerV { next_id: fin.next_id, ..post }),
        post.next_id <= fin.next_id,
    ensures
        fin.wf(),
{
    assert forall|i2: int, j2: int|
        0 <= i2 < fin.scopes.len() && 0 <= j2 < fin.entries.len() implies slot_wf(
        #[trigger] fin.scopes[i2].slots[j2],
        fin.entries[j2].tag,
        fin.next_id,
    ) by {
        assert(slot_wf(post.scopes[i2].slots[j2], post.entries[j2].tag, post.next_id));
    }
    assert forall|j2: int| 0 <= j2 < fin.entries.len() implies slot_wf(
        #[trigger] fin.singletons[j2],
        fin.entries[j2].tag,
        fin.next_id,
    ) by {
        assert(slot_wf(post.singletons[j2], post.entries[j2].tag, post.next_id));
    }
}

impl<P: Provide<T>, T> Container<P, T> {
    /// Resolve the key `key` with the type token `tag` in scope `scope`.
    ///
    /// An unregistered key is answered with [`Error::KeyNotFound`] and a key
    /// registered under a different token with [`Error::TypeMismatch`], both
    /// with the container untouched.  Otherwise the key's lifetime kind
    /// decides: a transient key's provider runs on every call and the result
    /// is a freshly minted instance; a scoped or singleton key is first
    /// looked up in its slot — scope-private for scoped keys, family-wide
    /// for singletons — and a published instance is returned as is, with the
    /// container untouched.  Only an empty slot makes the provider run, and
    /// the constructed instance is published in that slot before it is
    /// returned; if the provider fails, its error is returned verbatim and
    /// the slot is left empty so that a later call may retry.  A
    /// construction is also refused, with the slot left empty, in the one
    /// case the container itself cannot proceed: when every instance id has
    /// been handed out, minting one more would break instance identity.
    ///
    /// The caller must not resolve a key whose construction is already in
    /// flight: within one thread of execution that construction can never
    /// finish.  This is the accepted fate of a cyclic dependency graph — a
    /// caller that blocks on its own in-flight construction waits forever —
    /// and cycle detection is deliberately left to static analysis rather
    /// than guarded against at resolve time.
    pub fn resolve(&mut self, scope: usize, key: &str, tag: u64) -> (r: Result<Handle<T>, Error>)
        requires
            old(self).wf(),
            scope < old(self)@.scopes.len(),
            !old(self)@.key_building(scope as int, key@),
        ensures
            final(self).wf(),
            old(self)@.evolves_to(final(self)@),
            scope < final(self)@.scopes.len(),
            match r {
                Ok(h) => old(self)@.resolve_ok(final(self)@, scope as int, key@, tag, h),
                Err(e) => old(self)@.resolve_err(final(self)@, scope as int, key@, tag, e),
            },
    {
        let ghost pre = self@;
        let j = match self.find_entry(key) {
            Some(j) => j,
            None => {
                proof {
                    assert(pre.evolves_to(pre));
                }
                return Err(Error::KeyNotFound(key.to_owned()));
            },
        };
        proof {
            lemma_entry_index(pre.entries, key@, j as int);
        }
        let entry_tag = self.entries[j].tag;
        if entry_tag != tag {
            proof {
                assert(pre.evolves_to(pre));
            }
            return Err(Error::TypeMismatch(key.to_owned()));
        }
        let kind = self.entries[j].reg.kind;
        match kind {
            RegistrationKind::Transient => {
                let p = self.entries[j].reg.provider.dup();
                let res = p.provide(self, scope);
                let ghost post = self@;
                match res {
                    Err(e) => Err(e),
                    Ok(v) => {
                        if self.next_id == u64::MAX {
                            return Err(Error::Inner("instance id space exhausted".to_owned()));
                        }
                        let id = self.next_id;
                        self.next_id = id + 1;
                        let h = Handle::new(tag, id, v);
                        proof {
                            lemma_bump_wf(post, self@);
                            assert(pre.evolves_to(self@));
                        }
                        Ok(h)
                    },
                }
            },
            RegistrationKind::Scoped => {
                match &self.scopes[scope].slots[j] {
                    Slot::Resolved(h) => {
                        let out = h.share();
                        proof {
                            assert(slot_wf(
                                pre.scopes[scope as int].slots[j as int],
                                pre.entries[j as int].tag,
                                pre.next_id,
                            ));
                            assert(pre.evolves_to(pre));
                        }
                        return Ok(out);
                    },
                    Slot::Building => {
                        // A construction for this key is already in flight in
                        // this scope; the caller promised not to re-enter it.
                        proof {
                            assert(pre.key_building(scope as int, key@));
                        }
                        return unreached();
                    },
                    Slot::Unresolved => {},
                }
                self.set_scoped_slot(scope, j, Slot::Building);
                let ghost mid = self@;
                proof {
                    lemma_scoped_update_wf(pre, mid, scope as int, j as int, Slot::Building);
                }
                let p = self.entries[j].reg.provider.dup();
                let res = p.provide(self, scope);
                let ghost post = self@;
                proof {
                    assert(slot_evolves(
                        mid.scopes[scope as int].slots[j as int],
                        post.scopes[scope as int].slots[j as int],
                    ));
                }
                match res {
                    Err(e) => {
                        self.set_scoped_slot(scope, j, Slot::Unresolved);
                        proof {
                            lemma_scoped_update_wf(
                                post,
                                self@,
                                scope as int,
                                j as int,
                                Slot::Unresolved,
                            );
                            lemma_scoped_roundtrip_evolves(
                                pre,
                                mid,
                                post,
                                self@,
                                scope as int,
                                j as int,
                                Slot::Unresolved,
                            );
                        }
                        Err(e)
                    },
                    Ok(v) => {
                        if self.next_id == u64::MAX {
                            self.set_scoped_slot(scope, j, Slot::Unresolved);
                            proof {
                                lemma_scoped_update_wf(
                                    post,
                                    self@,
                                    scope as int,
                                    j as int,
                                    Slot::Unresolved,
                                );
                                lemma_scoped_roundtrip_evolves(
                                    pre,
                                    mid,
                                    post,
                                    self@,
                                    scope as int,
                                    j as int,
                                    Slot::Unresolved,
                                );
                            }
                            return Err(Error::Inner("instance id space exhausted".to_owned()));
                        }
                        let id = self.next_id;
                        self.next_id = id + 1;
                        let h = Handle::new(tag, id, v);
                        let out = h.share();
                        self.set_scoped_slot(scope, j, Slot::Resolved(h));
                        proof {
                            lemma_scoped_update_wf(
                                post,
                                self@,
                                scope as int,
                                j as int,
                                Slot::Resolved(h),
                            );
                            lemma_scoped_roundtrip_evolves(
                                pre,
                                mid,
                                post,
                                self@,
                                scope as int,
                                j as int,
                                Slot::Resolved(h),
                            );
                        }
                        Ok(out)
                    },
                }
            },
            RegistrationKind::Singleton => {
                match &self.singletons[j] {
                    Slot::Resolved(h) => {
                        let out = h.share();
                        proof {
                            assert(slot_wf(
                                pre.singletons[j as int],
                                pre.entries[j as int].tag,
                                pre.next_id,
                            ));
                            assert(pre.evolves_to(pre));
                        }
                        return Ok(out);
                    },
                    Slot::Building => {
                        // A construction for this key is already in flight in
                        // the family; the caller promised not to re-enter it.
                        proof {
                            assert(pre.key_building(scope as int, key@));
                        }
                        return unreached();
                    },
                    Slot::Unresolved => {},
                }
                self.set_singleton_slot(j, Slot::Building);
                let ghost mid = self@;
                proof {
                    lemma_singleton_update_wf(pre, mid, j as int, Slot::Building);
                }
                let p = self.entries[j].reg.provider.dup();
                let res = p.provide(self, scope);
                let ghost post = self@;
                proof {
                    assert(slot_evolves(mid.singletons[j as int], post.singletons[j as int]));
                }
                match res {
                    Err(e) => {
                        self.set_singleton_slot(j, Slot::Unresolved);
                        proof {
                            lemma_singleton_update_wf(post, self@, j as int, Slot::Unresolved);
                            lemma_singleton_roundtrip_evolves(
                                pre,
                                mid,
                                post,
                                self@,
                                j as int,
                                Slot::Unresolved,
                            );
                        }
                        Err(e)
                    },
                    Ok(v) => {
                        if self.next_id == u64::MAX {
                            self.set_singleton_slot(j, Slot::Unresolved);
                            proof {
                                lemma_singleton_update_wf(post, self@, j as int, Slot::Unresolved);
                                lemma_singleton_roundtrip_evolves(
                                    pre,
                                    mid,
                                    post,
                                    self@,
                                    j as int,
                                    Slot::Unresolved,
                                );
                            }
                            return Err(Error::Inner("instance id space exhausted".to_owned()));
                        }
                        let id = self.next_id;
                        self.next_id = id + 1;
                        let h = Handle::new(tag, id, v);
                        let out = h.share();
                        self.set_singleton_slot(j, Slot::Resolved(h));
                        proof {
                            lemma_singleton_update_wf(post, self@, j as int, Slot::Resolved(h));
                            lemma_singleton_roundtrip_evolves(
                                pre,
                                mid,
                                post,
                                self@,
                                j as int,
                                Slot::Resolved(h),
                            );
                        }
                        Ok(out)
                    },
                }
            },
        }
    }
}

/// A vector of `n` empty slots.
fn fresh_slots<T>(n: usize) -> (v: Vec<Slot<T>>)
    ensures
        v@ == Seq::new(n as nat, |j: int| Slot::<T>::Unresolved),
{
    let mut v: Vec<Slot<T>> = Vec::new();
    let mut i: usize = 0;
    while i < n
        invariant
            i <= n,
            v@.len() == i,
            forall|j: int| 0 <= j < i ==> v@[j] is Unresolved,
        decreases n - i,
    {
        v.push(Slot::Unresolved);
        i += 1;
    }
    proof {
        assert(v@ =~= Seq::new(n as nat, |j: int| Slot::<T>::Unresolved));
    }
    v
}

/// An append-only accumulator of registrations that
/// [`ContainerBuilder::build`] turns into an immutable [`Container`].
///
/// Registering a key that is already present replaces the earlier
/// registration: the later one wins, as in a map insertion.
#[derive(Clone)]
pub struct ContainerBuilder<P> {
    entries: Vec<Entry<P>>,
    dependency_map: Vec<(String, Vec<String>)>,
}

impl<P> View for ContainerBuilder<P> {
    type V = Seq<EntryV>;

    closed spec fn view(&self) -> Seq<EntryV> {
        entries_view(self.entries@)
    }
}

impl<P> ContainerBuilder<P> {
    /// The builder's invariant: no key is registered twice.
    pub open spec fn wf(&self) -> bool {
        keys_unique(self@)
    }

    /// The dependency listing accumulated so far, as key and declared
    /// dependency keys.
    pub closed spec fn deps_spec(&self) -> Seq<(Seq<char>, Seq<Seq<char>>)> {
        deps_view(self.dependency_map@)
    }

    /// An empty builder.
    pub fn new() -> (b: Self)
        ensures
            b.wf(),
            b@ == Seq::<EntryV>::empty(),
            b.deps_spec() == Seq::<(Seq<char>, Seq<Seq<char>>)>::empty(),
    {
        let b = ContainerBuilder { entries: Vec::new(), dependency_map: Vec::new() };
        proof {
            assert(b@ =~= Seq::<EntryV>::empty());
            assert(b.deps_spec() =~= Seq::<(Seq<char>, Seq<Seq<char>>)>::empty());
        }
        b
    }

    /// Record that the provider registered under `key` declares the
    /// dependencies it reports, for the container's dependency listing.
    /// Which keys the provider reports is the provider's own business; the
    /// listing records them under `key`, after everything recorded so far.
    pub fn track_dependencies<D: Dependencies>(self, key: &str, provider: &D) -> (b: Self)
        ensures
            b@ == self@,
            b.deps_spec().len() == self.deps_spec().len() + 1,
            b.deps_spec()[self.deps_spec().len() as int].0 == key@,
            forall|i: int|
                0 <= i < self.deps_spec().len() ==> b.deps_spec()[i] == self.deps_spec()[i],
    {
        let ghost pre = self.deps_spec();
        let mut this = self;
        let ds = provider.dependencies();
        let ghost dsv = ds@.map(|m: int, d: String| d@);
        this.dependency_map.push((key.to_owned(), ds));
        proof {
            assert(this.deps_spec() =~= pre.push((key@, dsv)));
        }
        this
    }

    /// Register `provider` under `key` with lifetime `kind`.  `tag` is the
    /// type token of the provider's output; every resolve call for `key`
    /// must present the same token.
    ///
    /// Re-registering a key that is already present replaces the earlier
    /// registration: the later one wins.
    pub fn register_as(self, key: &str, tag: u64, provider: P, kind: RegistrationKind) -> (b: Self)
        requires
            self.wf(),
        ensures
            b.wf(),
            b.deps_spec() == self.deps_spec(),
            b@ == (if has_entry(self@, key@) {
                self@.update(entry_index(self@, key@), EntryV { key: key@, tag, kind })
            } else {
                self@.push(EntryV { key: key@, tag, kind })
            }),
    {
        let ghost pre = self@;
        let mut this = self;
        let found = find_in(&this.entries, key);
        let entry = Entry { key: key.to_owned(), tag, reg: Registration::new(kind, provider) };
        match found {
            Some(i) => {
                proof {
                    lemma_entry_index(pre, key@, i as int);
                }
                this.entries[i] = entry;
                proof {
                    let e = EntryV { key: key@, tag, kind };
                    assert(this@ =~= pre.update(i as int, e));
                    assert forall|m1: int, m2: int|
                        0 <= m1 < this@.len() && 0 <= m2 < this@.len() && m1 != m2 implies (
                    #[trigger] this@[m1]).key != (#[trigger] this@[m2]).key by {
                        assert(pre[m1].key != pre[m2].key);
                    }
                }
            },
            None => {
                this.entries.push(entry);
                proof {
                    let e = EntryV { key: key@, tag, kind };
                    assert(this@ =~= pre.push(e));
                    assert forall|m1: int, m2: int|
                        0 <= m1 < this@.len() && 0 <= m2 < this@.len() && m1 != m2 implies (
                    #[trigger] this@[m1]).key != (#[trigger] this@[m2]).key by {
                        if m1 < pre.len() && m2 < pre.len() {
                            assert(pre[m1].key != pre[m2].key);
                        } else if m1 < pre.len() {
                            assert(pre[m1].key != key@);
                        } else {
                            assert(pre[m2].key != key@);
                        }
                    }
                }
            },
        }
        this
    }

    /// Register `provider` under `key` as a transient registration, with
    /// `tag` as the type token of its output.
    pub fn register(self, key: &str, tag: u64, provider: P) -> (b: Self)
        requires
            self.wf(),
        ensures
            b.wf(),
            b.deps_spec() == self.deps_spec(),
            b@ == (if has_entry(self@, key@) {
                self@.update(
                    entry_index(self@, key@),
                    EntryV { key: key@, tag, kind: RegistrationKind::Transient },
                )
            } else {
                self@.push(EntryV { key: key@, tag, kind: RegistrationKind::Transient })
            }),
    {
        self.register_as(key, tag, provider, RegistrationKind::Transient)
    }

    /// Consume this builder to produce a root [`Container`].
    ///
    /// The container starts with scope `0`, has an empty slot for every key,
    /// and has handed out no instance ids.
    pub fn build<T>(self) -> (c: Container<P, T>)
        requires
            self.wf(),
        ensures
            c.wf(),
            c@.entries == self@,
            c@.next_id == 0,
            c@.scopes.len() == 1,
            c@.scopes[0].parent is None,
            c@.deps == self.deps_spec(),
            forall|j: int| 0 <= j < self@.len() ==> c@.singletons[j] is Unresolved,
            forall|j: int| 0 <= j < self@.len() ==> c@.scopes[0].slots[j] is Unresolved,
    {
        let ghost pre = self@;
        let n = self.entries.len();
        let singletons = fresh_slots(n);
        let slots = fresh_slots(n);
        let mut scopes: Vec<Scope<T>> = Vec::new();
        scopes.push(Scope { parent: None, slots });
        let c = Container {
            entries: self.entries,
            singletons,
            scopes,
            next_id: 0,
            dependency_map: self.dependency_map,
        };
        proof {
            assert(c@.entries == pre);
            assert(c@.scopes =~= seq![
                ScopeV::<T> {
                    parent: None,
                    slots: Seq::new(n as nat, |j: int| Slot::<T>::Unresolved),
                },
            ]);
            assert(c@.wf());
        }
        c
    }
}

impl<P> Default for ContainerBuilder<P> {
    /// Same as [`ContainerBuilder::new`].
    fn default() -> (b: Self)
        ensures
            b.wf(),
            b@ == Seq::<EntryV>::empty(),
            b.deps_spec() == Seq::<(Seq<char>, Seq<Seq<char>>)>::empty(),
    {
        ContainerBuilder::new()
    }
}

} // verus!
