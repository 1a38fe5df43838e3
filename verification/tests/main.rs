use coi::Container;
use coi::ContainerBuilder;
use coi::Error;
use coi::JustAStruct;
use coi::Provide;
use coi::Trait1;
use coi::Trait2;

const TAG_TRAIT1: u64 = 1;
const TAG_TRAIT2: u64 = 2;
const TAG_STRUCT: u64 = 3;

#[derive(Clone, Debug)]
enum Svc {
    Impl1,
    Impl2 { trait1: Box<Svc> },
    AStruct(JustAStruct),
}

impl Trait1 for Svc {
    fn describe(&self) -> &'static str {
        match self {
            Svc::Impl1 => "I'm impl1!",
            _ => "not impl1",
        }
    }
}

impl Trait2 for Svc {
    fn deep_describe(&self) -> String {
        match self {
            Svc::Impl2 { trait1 } => format!("I'm impl2! and I have {}", trait1.describe()),
            _ => String::from("not impl2"),
        }
    }
}

#[derive(Clone, Debug)]
enum Prov {
    Impl1Provider,
    Impl2Provider,
    JustAStructProvider,
}

impl Provide<Svc> for Prov {
    fn dup(&self) -> Self {
        self.clone()
    }

    fn provide(&self, c: &mut Container<Self, Svc>, scope: usize) -> Result<Svc, Error> {
        match self {
            Prov::Impl1Provider => Ok(Svc::Impl1),
            Prov::Impl2Provider => {
                let trait1 = c.resolve(scope, "trait1", TAG_TRAIT1)?;
                Ok(Svc::Impl2 {
                    trait1: Box::new(trait1.value().clone()),
                })
            }
            Prov::JustAStructProvider => Ok(Svc::AStruct(JustAStruct)),
        }
    }
}

#[test]
fn main_test() {
    let mut container = ContainerBuilder::new()
        .register("trait1", TAG_TRAIT1, Prov::Impl1Provider)
        .register("trait2", TAG_TRAIT2, Prov::Impl2Provider)
        .register("a_struct", TAG_STRUCT, Prov::JustAStructProvider)
        .build::<Svc>();
    let trait2 = container
        .resolve(0, "trait2", TAG_TRAIT2)
        .expect("Should exist");
    println!("Deep description: {}", trait2.value().deep_describe());
    assert_eq!(
        trait2.value().deep_describe(),
        "I'm impl2! and I have I'm impl1!"
    );
    let a_struct = container
        .resolve(0, "a_struct", TAG_STRUCT)
        .expect("Should exist");
    println!("Got struct! {:?}", a_struct.value());
}

#[test]
fn main_main() {
    let mut container = ContainerBuilder::new()
        .register("trait1", TAG_TRAIT1, Prov::Impl1Provider)
        .register("trait2", TAG_TRAIT2, Prov::Impl2Provider)
        .build::<Svc>();
    let trait2 = container
        .resolve(0, "trait2", TAG_TRAIT2)
        .expect("Should exist");
    println!("Deep description: {}", trait2.value().deep_describe());
}
