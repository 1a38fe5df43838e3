//! A dependency-injection container.
//!
//! A [`Container`] maps string keys to lazily constructed service values.
//! Each key is registered with a [`Provide`] implementation that knows how to
//! construct the value, together with a [`RegistrationKind`] that controls how
//! long a constructed value is cached:
//!
//! - `Transient` keys are rebuilt on every [`Container::resolve`] call;
//! - `Scoped` keys are built at most once per scope, and every
//!   [`Container::scoped`] call opens a fresh scope with empty caches;
//! - `Singleton` keys are built at most once for the whole container family,
//!   no matter how deeply scopes are nested.
//!
//! Values are stored type-erased: each registration carries a numeric type
//! token, and a resolve call that requests the wrong token is answered with
//! [`Error::TypeMismatch`] instead of a value.  Every constructed instance is
//! identified by a fresh numeric id, so distinctness and sharing of instances
//! are part of the verified contracts.

use vstd::prelude::*;

mod container;
mod data;
mod debug;
mod laws;
mod provide;
mod registration;
mod resolvable;
mod services;
mod web;

pub use container::Container;
pub use container::ContainerBuilder;
pub use container::ContainerV;
pub use container::entry_index;
pub use container::EntryV;
pub use container::has_entry;
pub use container::keys_unique;
pub use container::lemma_entry_index;
pub use container::ScopeV;
pub use container::slot_evolves;
pub use container::slot_wf;
pub use data::Data;
pub use data::DataDto;
pub use data::DbData;
pub use data::IRepository;
pub use debug::AnalysisError;
pub use laws::lemma_evolves_refl;
pub use laws::lemma_evolves_trans;
pub use laws::lemma_fresh_scope_distinct;
pub use laws::lemma_resolve_once;
pub use laws::lemma_scoped_identity_within_scope;
pub use laws::lemma_scoped_resolve_twice_same_scope;
pub use laws::lemma_singleton_identity;
pub use laws::lemma_singleton_resolve_twice;
pub use laws::lemma_transient_distinct;
pub use provide::Dependencies;
pub use provide::Inject;
pub use provide::Provide;
pub use registration::Registration;
pub use registration::RegistrationKind;
pub use resolvable::Handle;
pub use resolvable::Slot;
pub use services::JustAStruct;
pub use services::Trait1;
pub use services::Trait2;
pub use web::ContainerKey;
pub use web::Injected;

verus! {

/// Errors produced when resolving a key on a [`Container`].
#[derive(Debug)]
pub enum Error {
    /// The key was not found in the container.  Either the requested resource
    /// was never registered, or there is a typo in the register or resolve
    /// calls.
    KeyNotFound(String),
    /// The key was found in the container, but the type token it was
    /// registered with does not match the requested one.
    TypeMismatch(String),
    /// A provider's own construction logic failed; the provider's message is
    /// carried verbatim.
    Inner(String),
}

impl Error {
    /// The human-readable description of this error.
    pub fn message(&self) -> (r: String)
        ensures
            self matches Error::KeyNotFound(k) ==> r@ == "Key not found: "@ + k@,
            self matches Error::TypeMismatch(k) ==> r@ == "Type mismatch for key: "@ + k@,
            self matches Error::Inner(m) ==> r@ == "Inner error: "@ + m@,
    {
        match self {
            Error::KeyNotFound(k) => "Key not found: ".to_owned().concat(k.as_str()),
            Error::TypeMismatch(k) => "Type mismatch for key: ".to_owned().concat(k.as_str()),
            Error::Inner(m) => "Inner error: ".to_owned().concat(m.as_str()),
        }
    }
}

} // verus!
