use coi::Container;
use coi::ContainerBuilder;
use coi::Dependencies;
use coi::Error;
use coi::Provide;
use coi::RegistrationKind;

const TAG_TRAIT1: u64 = 1;
const TAG_TRAIT2: u64 = 2;
const TAG_TRAIT3: u64 = 3;
const TAG_TRAIT4: u64 = 4;
const TAG_TRAIT5: u64 = 5;

#[derive(Clone, Debug)]
enum Svc {
    Impl1,
    Impl2,
    Impl3,
    Impl4,
    Impl5,
}

#[derive(Clone, Debug)]
enum Prov {
    Impl1Provider,
    Impl2Provider,
    Impl3Provider,
    Impl4Provider,
    Impl5Provider,
}

impl Provide<Svc> for Prov {
    fn dup(&self) -> Self {
        self.clone()
    }

    fn provide(&self, c: &mut Container<Self, Svc>, scope: usize) -> Result<Svc, Error> {
        match self {
            Prov::Impl1Provider => Ok(Svc::Impl1),
            Prov::Impl2Provider => Ok(Svc::Impl2),
            Prov::Impl3Provider => Ok(Svc::Impl3),
            Prov::Impl4Provider => Ok(Svc::Impl4),
            Prov::Impl5Provider => {
                let _trait1 = c.resolve(scope, "trait1", TAG_TRAIT1)?;
                let _trait2 = c.resolve(scope, "trait2", TAG_TRAIT2)?;
                let _trait3 = c.resolve(scope, "trait3", TAG_TRAIT3)?;
                let _trait4 = c.resolve(scope, "trait4", TAG_TRAIT4)?;
                Ok(Svc::Impl5)
            }
        }
    }
}

impl Dependencies for Prov {
    fn dependencies(&self) -> Vec<String> {
        match self {
            Prov::Impl5Provider => vec![
                String::from("trait1"),
                String::from("trait2"),
                String::from("trait3"),
                String::from("trait4"),
            ],
            _ => Vec::new(),
        }
    }
}

#[test]
fn debug_run() {
    let container = ContainerBuilder::new()
        .register_as("trait1", TAG_TRAIT1, Prov::Impl1Provider, RegistrationKind::Transient)
        .track_dependencies("trait1", &Prov::Impl1Provider)
        .register_as("trait2", TAG_TRAIT2, Prov::Impl2Provider, RegistrationKind::Scoped)
        .track_dependencies("trait2", &Prov::Impl2Provider)
        .register_as("trait3", TAG_TRAIT3, Prov::Impl3Provider, RegistrationKind::Transient)
        .track_dependencies("trait3", &Prov::Impl3Provider)
        .register_as("trait4", TAG_TRAIT4, Prov::Impl4Provider, RegistrationKind::Singleton)
        .track_dependencies("trait4", &Prov::Impl4Provider)
        .register_as("trait5", TAG_TRAIT5, Prov::Impl5Provider, RegistrationKind::Transient)
        .track_dependencies("trait5", &Prov::Impl5Provider)
        .build::<Svc>();
    let debugged = container.dependency_report();
    assert!(debugged.contains(r#""trait1": []"#));
    assert!(debugged.contains(r#""trait2": []"#));
    assert!(debugged.contains(r#""trait3": []"#));
    assert!(debugged.contains(r#""trait4": []"#));
    assert!(debugged.contains(r#""trait5": ["trait1", "trait2", "trait3", "trait4"]"#));
}
