//! The capabilities of a DNS zone.

use vstd::prelude::*;
use crate::error::{CreateRecordError, DeleteRecordError, RetrieveRecordError};
use crate::record::{Record, RecordData};

verus! {

/// A DNS zone.
///
/// Zones are handed out by a provider and manage records. Every zone can
/// retrieve records; creating and deleting them are the further
/// capabilities [`CreateRecord`] and [`DeleteRecord`].
pub trait Zone {
    /// The provider-specific payload of [`RetrieveRecordError::Custom`].
    type CustomRetrieveError;

    /// The provider-specific ID of the zone.
    fn id(&self) -> &str;

    /// The domain that the zone manages.
    fn domain(&self) -> &str;

    /// Retrieves all available records. Where there is none, the result is
    /// an empty list, not [`RetrieveRecordError::NotFound`].
    fn list_records(&self) -> Result<Vec<Record>, RetrieveRecordError<Self::CustomRetrieveError>>;

    /// Retrieves a record by its provider-specific ID.
    fn get_record(&self, record_id: &str) -> Result<
        Record,
        RetrieveRecordError<Self::CustomRetrieveError>,
    >;
}

/// A [`Zone`] that supports record creation.
pub trait CreateRecord: Zone {
    /// The provider-specific payload of [`CreateRecordError::Custom`].
    type CustomCreateError;

    /// Creates a new record. A record type that the provider does not
    /// support is refused with [`CreateRecordError::UnsupportedType`]
    /// before anything is sent.
    fn create_record(&self, host: &str, data: &RecordData, ttl: u64) -> Result<
        Record,
        CreateRecordError<Self::CustomCreateError>,
    >;
}

/// A [`Zone`] that supports record deletion.
pub trait DeleteRecord: Zone {
    /// The provider-specific payload of [`DeleteRecordError::Custom`].
    type CustomDeleteError;

    /// Deletes a record by its ID.
    fn delete_record(&self, record_id: &str) -> Result<
        (),
        DeleteRecordError<Self::CustomDeleteError>,
    >;
}

} // verus!
