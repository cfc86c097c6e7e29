//! The capabilities of a DNS zone provider.

use vstd::prelude::*;
use crate::error::{CreateZoneError, DeleteZoneError, RetrieveZoneError};
use crate::zone::Zone;

verus! {

/// A DNS zone provider.
///
/// Providers manage zones, which in turn manage records. Every provider
/// can retrieve zones; creating and deleting them are the further
/// capabilities [`CreateZone`] and [`DeleteZone`].
pub trait Provider {
    /// The provider-specific zone type.
    type Zone: Zone;

    /// The provider-specific payload of [`RetrieveZoneError::Custom`].
    type CustomRetrieveError;

    /// Retrieves all available zones. Where there is none, the result is an
    /// empty list, not [`RetrieveZoneError::NotFound`].
    fn list_zones(&self) -> Result<Vec<Self::Zone>, RetrieveZoneError<Self::CustomRetrieveError>>;

    /// Retrieves a zone by its provider-specific ID.
    fn get_zone(&self, zone_id: &str) -> Result<
        Self::Zone,
        RetrieveZoneError<Self::CustomRetrieveError>,
    >;
}

/// A [`Provider`] that supports zone creation.
pub trait CreateZone: Provider {
    /// The provider-specific payload of [`CreateZoneError::Custom`].
    type CustomCreateError;

    /// Creates a new DNS zone with the given domain.
    fn create_zone(&self, domain: &str) -> Result<
        Self::Zone,
        CreateZoneError<Self::CustomCreateError>,
    >;
}

/// A [`Provider`] that supports zone deletion.
pub trait DeleteZone: Provider {
    /// The provider-specific payload of [`DeleteZoneError::Custom`].
    type CustomDeleteError;

    /// Deletes a zone by its provider-specific ID.
    fn delete_zone(&self, zone_id: &str) -> Result<(), DeleteZoneError<Self::CustomDeleteError>>;
}

} // verus!
