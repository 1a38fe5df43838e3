use coi::Container;
use coi::ContainerBuilder;
use coi::Error;
use coi::Provide;
use coi::RegistrationKind;

const TAG_IMPL0: u64 = 1;
const TAG_DEP1: u64 = 2;
const TAG_DEP2: u64 = 3;
const TAG_ID: u64 = 4;
const TAG_HOLD: u64 = 5;
const TAG_DEP3: u64 = 6;

#[derive(Clone, Debug)]
enum Svc {
    Impl0,
    Impl1,
    Impl2 { dep1: Box<Svc> },
    Unique,
    Holder { id: u64 },
    Impl3 { id1: u64, id2: u64 },
}

#[derive(Clone, Debug)]
enum Prov {
    Impl0Provider,
    Impl1Provider,
    Impl2Provider,
    UniqueProvider,
    HolderProvider,
    Impl3Provider,
}

impl Provide<Svc> for Prov {
    fn dup(&self) -> Self {
        self.clone()
    }

    fn provide(&self, c: &mut Container<Self, Svc>, scope: usize) -> Result<Svc, Error> {
        match self {
            Prov::Impl0Provider => Ok(Svc::Impl0),
            Prov::Impl1Provider => Ok(Svc::Impl1),
            Prov::Impl2Provider => {
                let dep1 = c.resolve(scope, "dep1", TAG_DEP1)?;
                Ok(Svc::Impl2 {
                    dep1: Box::new(dep1.value().clone()),
                })
            }
            Prov::UniqueProvider => Ok(Svc::Unique),
            Prov::HolderProvider => {
                let id = c.resolve(scope, "id", TAG_ID)?;
                Ok(Svc::Holder { id: id.id() })
            }
            Prov::Impl3Provider => {
                let id = c.resolve(scope, "id", TAG_ID)?;
                let hold = c.resolve(scope, "hold", TAG_HOLD)?;
                let id2 = match hold.value() {
                    Svc::Holder { id } => *id,
                    other => panic!("unexpected service: {:?}", other),
                };
                Ok(Svc::Impl3 { id1: id.id(), id2 })
            }
        }
    }
}

#[test]
fn transient_registration_always_returns_new_instance() {
    let mut container = ContainerBuilder::new()
        .register_as("dep0", TAG_IMPL0, Prov::Impl0Provider, RegistrationKind::Transient)
        .build::<Svc>();

    let dep0_0 = container.resolve(0, "dep0", TAG_IMPL0).unwrap();
    let dep0_1 = container.resolve(0, "dep0", TAG_IMPL0).unwrap();
    assert_ne!(dep0_0.id(), dep0_1.id());
}

#[test]
fn normal_registration_always_returns_new_instance() {
    let mut container = ContainerBuilder::new()
        .register("dep0", TAG_IMPL0, Prov::Impl0Provider)
        .build::<Svc>();

    let dep0_0 = container.resolve(0, "dep0", TAG_IMPL0).unwrap();
    let dep0_1 = container.resolve(0, "dep0", TAG_IMPL0).unwrap();
    assert_ne!(dep0_0.id(), dep0_1.id());
}

#[test]
fn scoped_singleton_registration_always_returns_same_instance_even_when_scoped() {
    let mut container = ContainerBuilder::new()
        .register_as("dep1", TAG_DEP1, Prov::Impl1Provider, RegistrationKind::Singleton)
        .build::<Svc>();

    let dep1_0 = container.resolve(0, "dep1", TAG_DEP1).unwrap();
    let dep1_1 = container.resolve(0, "dep1", TAG_DEP1).unwrap();
    assert_eq!(dep1_0.id(), dep1_1.id());
    {
        let scope = container.scoped(0);
        let dep1_2 = container.resolve(scope, "dep1", TAG_DEP1).unwrap();
        assert_eq!(dep1_0.id(), dep1_1.id());
        assert_eq!(dep1_1.id(), dep1_2.id());
    }
}

#[test]
fn scoped_scoped_registration_always_returns_same_instance_within_same_scope() {
    let mut container = ContainerBuilder::new()
        .register_as("dep1", TAG_DEP1, Prov::Impl1Provider, RegistrationKind::Singleton)
        .register_as("dep2", TAG_DEP2, Prov::Impl2Provider, RegistrationKind::Scoped)
        .build::<Svc>();

    let dep2_0 = container.resolve(0, "dep2", TAG_DEP2).unwrap();
    let dep2_1 = container.resolve(0, "dep2", TAG_DEP2).unwrap();
    assert_eq!(dep2_0.id(), dep2_1.id());
    {
        let scope = container.scoped(0);
        let dep2_2 = container.resolve(scope, "dep2", TAG_DEP2).unwrap();
        let dep2_3 = container.resolve(scope, "dep2", TAG_DEP2).unwrap();
        assert_ne!(dep2_0.id(), dep2_2.id());
        assert_ne!(dep2_1.id(), dep2_2.id());
        assert_ne!(dep2_0.id(), dep2_3.id());
        assert_ne!(dep2_1.id(), dep2_3.id());
        assert_eq!(dep2_2.id(), dep2_3.id());
    }
}

#[test]
fn scoped_registration_provides_same_instance_regardless_of_nesting_order() {
    let mut container = ContainerBuilder::new()
        .register_as("id", TAG_ID, Prov::UniqueProvider, RegistrationKind::Scoped)
        .register_as("hold", TAG_HOLD, Prov::HolderProvider, RegistrationKind::Transient)
        .register_as("dep3", TAG_DEP3, Prov::Impl3Provider, RegistrationKind::Scoped)
        .build::<Svc>();

    let scope = container.scoped(0);
    let dep3 = container.resolve(scope, "dep3", TAG_DEP3).unwrap();
    let (id1, id2) = match dep3.value() {
        Svc::Impl3 { id1, id2 } => (*id1, *id2),
        other => panic!("unexpected service: {:?}", other),
    };
    assert_eq!(
        id1, id2,
        "If the ids are different, they were resolved in different scopes!"
    );
}
