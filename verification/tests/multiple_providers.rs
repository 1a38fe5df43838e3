use coi::Container;
use coi::ContainerBuilder;
use coi::Error;
use coi::Provide;

const TAG_TRAIT1: u64 = 1;
const TAG_TRAIT2: u64 = 2;

trait Trait1 {
    fn a(&self) -> &'static str;
}

trait Trait2 {
    fn b(&self) -> &'static str;
}

#[derive(Clone, Debug)]
struct Impl;

impl Trait1 for Impl {
    fn a(&self) -> &'static str {
        "a"
    }
}

impl Trait2 for Impl {
    fn b(&self) -> &'static str {
        "b"
    }
}

#[derive(Clone, Debug)]
enum Prov {
    ImplTrait1Provider,
    ImplTrait2Provider,
}

impl Provide<Impl> for Prov {
    fn dup(&self) -> Self {
        self.clone()
    }

    fn provide(&self, _c: &mut Container<Self, Impl>, _scope: usize) -> Result<Impl, Error> {
        Ok(Impl)
    }
}

#[test]
fn multiple_providers_run() {
    let mut container = ContainerBuilder::new()
        .register("trait1", TAG_TRAIT1, Prov::ImplTrait1Provider)
        .register("trait2", TAG_TRAIT2, Prov::ImplTrait2Provider)
        .build::<Impl>();
    let trait1 = container
        .resolve(0, "trait1", TAG_TRAIT1)
        .expect("Trait1 should exist");
    assert_eq!(trait1.value().a(), "a");
    let trait2 = container
        .resolve(0, "trait2", TAG_TRAIT2)
        .expect("Trait2 should exist");
    assert_eq!(trait2.value().b(), "b");
}
