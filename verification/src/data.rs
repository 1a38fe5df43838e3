//! The data model of the bundled sample service: a row as read from
//! storage, the domain value, and the transfer object handed to callers.

use vstd::prelude::*;

verus! {

/// A record as the sample's domain logic sees it.
#[derive(Clone, Debug)]
pub struct Data {
    pub id: i64,
    pub name: String,
}

/// A record as read from the sample's storage backend.
#[derive(Clone, Debug)]
pub struct DbData {
    pub id: i64,
    pub name: String,
}

/// A record as serialised for the sample's callers.
#[derive(Clone, Debug)]
pub struct DataDto {
    pub id: i64,
    pub name: String,
}

impl From<DbData> for Data {
    /// A stored record carries exactly the domain record's fields.
    fn from(db: DbData) -> (r: Self) {
        Data { id: db.id, name: db.name }
    }
}

impl vstd::std_specs::convert::FromSpecImpl<DbData> for Data {
    open spec fn obeys_from_spec() -> bool {
        true
    }

    open spec fn from_spec(db: DbData) -> Self {
        Data { id: db.id, name: db.name }
    }
}

impl From<Data> for DataDto {
    /// The transfer object carries exactly the domain record's fields.
    fn from(data: Data) -> (r: Self) {
        DataDto { id: data.id, name: data.name }
    }
}

impl vstd::std_specs::convert::FromSpecImpl<Data> for DataDto {
    open spec fn obeys_from_spec() -> bool {
        true
    }

    open spec fn from_spec(data: Data) -> Self {
        DataDto { id: data.id, name: data.name }
    }
}

/// The storage interface of the bundled sample service.  Implementations
/// live with the sample's storage backend; the container only carries them.
pub trait IRepository {
    /// Fetch the record with the given id.
    fn get(&self, id: i64) -> Result<DbData, String>;

    /// Fetch every record.
    fn get_all(&self) -> Result<Vec<DbData>, String>;
}

} // verus!
