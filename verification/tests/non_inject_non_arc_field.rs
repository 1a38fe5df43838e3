use coi::Container;
use coi::ContainerBuilder;
use coi::Error;
use coi::Provide;

const TAG_IMPL1: u64 = 1;

#[derive(Clone, Debug)]
struct Impl1 {
    num: usize,
}

impl Impl1 {
    fn new() -> Self {
        Self { num: 0 }
    }
}

#[derive(Clone, Debug)]
struct Impl1Provider;

impl Provide<Impl1> for Impl1Provider {
    fn dup(&self) -> Self {
        self.clone()
    }

    fn provide(&self, _c: &mut Container<Self, Impl1>, _scope: usize) -> Result<Impl1, Error> {
        Ok(Impl1::new())
    }
}

#[test]
fn can_inject_struct_with_non_inject_non_arc_field() {
    let mut container = ContainerBuilder::new()
        .register("impl1", TAG_IMPL1, Impl1Provider)
        .build::<Impl1>();
    let impl1 = container
        .resolve(0, "impl1", TAG_IMPL1)
        .expect("Should exist");
    let _ = impl1.value().num;
}
