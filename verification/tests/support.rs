use coi::Container;
use coi::ContainerBuilder;
use coi::ContainerKey;
use coi::Data;
use coi::DataDto;
use coi::DbData;
use coi::Error;
use coi::Injected;
use coi::Provide;
use coi::Registration;
use coi::RegistrationKind;

const TAG_SVC: u64 = 1;

#[derive(Clone, Debug)]
struct Svc;

#[derive(Clone, Debug)]
struct SvcProvider;

impl Provide<Svc> for SvcProvider {
    fn dup(&self) -> Self {
        self.clone()
    }

    fn provide(&self, _c: &mut Container<Self, Svc>, _scope: usize) -> Result<Svc, Error> {
        Ok(Svc)
    }
}

#[test]
fn data_conversions_preserve_fields() {
    let db = DbData {
        id: 42,
        name: String::from("answer"),
    };
    let data = Data::from(db);
    assert_eq!(data.id, 42);
    assert_eq!(data.name, "answer");
    let dto = DataDto::from(data);
    assert_eq!(dto.id, 42);
    assert_eq!(dto.name, "answer");
}

struct SvcKey;

impl ContainerKey<Svc> for SvcKey {
    fn key() -> &'static str {
        "svc"
    }
}

#[test]
fn injected_wraps_the_resolved_value() {
    let mut container = ContainerBuilder::new()
        .register_as("svc", TAG_SVC, SvcProvider, RegistrationKind::Singleton)
        .build::<Svc>();
    let handle = container
        .resolve(0, <SvcKey as ContainerKey<Svc>>::key(), TAG_SVC)
        .unwrap();
    let injected: Injected<u64, SvcKey> = Injected::new(handle.id());
    assert_eq!(injected.0, handle.id());
}

#[test]
fn registration_keeps_kind_and_provider() {
    let registration = Registration::new(RegistrationKind::Scoped, SvcProvider);
    assert!(matches!(registration.kind(), RegistrationKind::Scoped));
    let _provider_again = registration.provider.dup();
}

#[test]
fn singleton_identity_survives_deep_nesting() {
    let mut container = ContainerBuilder::new()
        .register_as("svc", TAG_SVC, SvcProvider, RegistrationKind::Singleton)
        .build::<Svc>();
    let root_handle = container.resolve(0, "svc", TAG_SVC).unwrap();
    let mut scope = 0;
    for _ in 0..5 {
        scope = container.scoped(scope);
        let nested = container.resolve(scope, "svc", TAG_SVC).unwrap();
        assert_eq!(nested.id(), root_handle.id());
    }
}

#[test]
fn scoped_identity_is_fresh_at_every_nesting_level() {
    let mut container = ContainerBuilder::new()
        .register_as("svc", TAG_SVC, SvcProvider, RegistrationKind::Scoped)
        .build::<Svc>();
    let mut seen = vec![container.resolve(0, "svc", TAG_SVC).unwrap().id()];
    let mut scope = 0;
    for _ in 0..5 {
        scope = container.scoped(scope);
        let id = container.resolve(scope, "svc", TAG_SVC).unwrap().id();
        assert!(!seen.contains(&id));
        seen.push(id);
    }
}
