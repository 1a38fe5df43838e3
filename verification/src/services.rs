//! Small example services used throughout the test suite.

use vstd::prelude::*;

verus! {

/// An example service: something that can describe itself.
pub trait Trait1 {
    /// A short, static description.
    fn describe(&self) -> &'static str;
}

/// An example service built on top of [`Trait1`].
pub trait Trait2 {
    /// A description that includes the description of a dependency.
    fn deep_describe(&self) -> String;
}

/// An example of a plain struct managed by a container.
#[derive(Clone, Debug)]
pub struct JustAStruct;

} // verus!
