//! Provider-agnostic management of DNS zones and records.
//!
//! The crate is free of I/O: every remote operation is described as a
//! request to perform and a verified function that interprets what the
//! remote answered.

pub mod error;
pub mod hetzner;
pub mod ipv4;
pub mod ipv6;
pub mod numeral;
pub mod pagination;
pub mod provider;
pub mod record;
pub mod text;
pub mod zone;

pub use error::{
    CreateRecordError, CreateZoneError, DeleteRecordError, DeleteZoneError, Failure,
    RetrieveRecordError, RetrieveZoneError,
};
pub use provider::{CreateZone, DeleteZone, Provider};
pub use record::{Record, RecordData};
pub use zone::{CreateRecord, DeleteRecord, Zone};
