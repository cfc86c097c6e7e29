//! The error taxonomy: one closed set of well-known kinds per capability,
//! each with a `Custom` slot for what a binding cannot classify.

use vstd::prelude::*;

verus! {

/// A remote call that did not succeed: the HTTP status the remote answered
/// with, if it answered at all, and the underlying transport error.
#[derive(Debug, PartialEq, Eq, Clone, Copy, Hash)]
pub struct Failure<T> {
    pub status: Option<u16>,
    pub cause: T,
}

/// The remote answered that the addressed object does not exist.
pub open spec fn is_not_found(status: Option<u16>) -> bool {
    status == Some(404u16)
}

/// The remote refused the credentials or the permission.
pub open spec fn is_unauthorized(status: Option<u16>) -> bool {
    status == Some(401u16) || status == Some(403u16)
}

/// The remote rejected the submitted object as malformed.
pub open spec fn is_unprocessable(status: Option<u16>) -> bool {
    status == Some(422u16)
}

/// An error that occurred when retrieving DNS zones.
#[derive(Debug, PartialEq, Eq, Clone, Copy, Hash)]
pub enum RetrieveZoneError<T> {
    /// The DNS provider is not authorized to execute this action.
    Unauthorized,
    /// There is no zone with the given ID.
    NotFound,
    /// A provider-specific error.
    Custom(T),
}

impl<T> RetrieveZoneError<T> {
    /// The error that a failed remote call stands for: a missing object,
    /// refused credentials, or else the cause itself.
    pub open spec fn of(failure: Failure<T>) -> Self {
        if is_not_found(failure.status) {
            RetrieveZoneError::NotFound
        } else if is_unauthorized(failure.status) {
            RetrieveZoneError::Unauthorized
        } else {
            RetrieveZoneError::Custom(failure.cause)
        }
    }

    /// Classifies a failed remote call.
    pub fn from_failure(failure: Failure<T>) -> (e: Self)
        ensures
            e == Self::of(failure),
    {
        match failure.status {
            Some(404) => RetrieveZoneError::NotFound,
            Some(401) | Some(403) => RetrieveZoneError::Unauthorized,
            _ => RetrieveZoneError::Custom(failure.cause),
        }
    }
}

/// An error that occurred when creating a DNS zone.
#[derive(Debug, PartialEq, Eq, Clone, Copy, Hash)]
pub enum CreateZoneError<T> {
    /// The DNS provider is not authorized to execute this action.
    Unauthorized,
    /// The specified domain name was not accepted.
    InvalidDomainName,
    /// A provider-specific error.
    Custom(T),
}

impl<T> CreateZoneError<T> {
    /// The error that a failed remote call stands for: refused credentials,
    /// a rejected submission, or else the cause itself.
    pub open spec fn of(failure: Failure<T>) -> Self {
        if is_unauthorized(failure.status) {
            CreateZoneError::Unauthorized
        } else if is_unprocessable(failure.status) {
            CreateZoneError::InvalidDomainName
        } else {
            CreateZoneError::Custom(failure.cause)
        }
    }

    /// Classifies a failed remote call.
    pub fn from_failure(failure: Failure<T>) -> (e: Self)
        ensures
            e == Self::of(failure),
    {
        match failure.status {
            Some(401) | Some(403) => CreateZoneError::Unauthorized,
            Some(422) => CreateZoneError::InvalidDomainName,
            _ => CreateZoneError::Custom(failure.cause),
        }
    }
}

/// An error that occurred when deleting a DNS zone.
#[derive(Debug, PartialEq, Eq, Clone, Copy, Hash)]
pub enum DeleteZoneError<T> {
    /// The DNS provider is not authorized to execute this action.
    Unauthorized,
    /// There is no zone with the given ID.
    NotFound,
    /// A provider-specific error.
    Custom(T),
}

impl<T> DeleteZoneError<T> {
    /// The error that a failed remote call stands for: a missing object,
    /// refused credentials, or else the cause itself.
    pub open spec fn of(failure: Failure<T>) -> Self {
        if is_not_found(failure.status) {
            DeleteZoneError::NotFound
        } else if is_unauthorized(failure.status) {
            DeleteZoneError::Unauthorized
        } else {
            DeleteZoneError::Custom(failure.cause)
        }
    }

    /// Classifies a failed remote call.
    pub fn from_failure(failure: Failure<T>) -> (e: Self)
        ensures
            e == Self::of(failure),
    {
        match failure.status {
            Some(404) => DeleteZoneError::NotFound,
            Some(401) | Some(403) => DeleteZoneError::Unauthorized,
            _ => DeleteZoneError::Custom(failure.cause),
        }
    }
}

/// An error that occurred when retrieving DNS records.
#[derive(Debug, PartialEq, Eq, Clone, Copy, Hash)]
pub enum RetrieveRecordError<T> {
    /// The DNS provider is not authorized to execute this action.
    Unauthorized,
    /// There is no record with the given ID.
    NotFound,
    /// A provider-specific error.
    Custom(T),
}

impl<T> RetrieveRecordError<T> {
    /// The error that a failed remote call stands for: a missing object,
    /// refused credentials, or else the cause itself.
    pub open spec fn of(failure: Failure<T>) -> Self {
        if is_not_found(failure.status) {
            RetrieveRecordError::NotFound
        } else if is_unauthorized(failure.status) {
            RetrieveRecordError::Unauthorized
        } else {
            RetrieveRecordError::Custom(failure.cause)
        }
    }

    /// Classifies a failed remote call.
    pub fn from_failure(failure: Failure<T>) -> (e: Self)
        ensures
            e == Self::of(failure),
    {
        match failure.status {
            Some(404) => RetrieveRecordError::NotFound,
            Some(401) | Some(403) => RetrieveRecordError::Unauthorized,
            _ => RetrieveRecordError::Custom(failure.cause),
        }
    }
}

/// An error that occurred when creating a DNS record.
#[derive(Debug, PartialEq, Eq, Clone, Copy, Hash)]
pub enum CreateRecordError<T> {
    /// The DNS provider is not authorized to execute this action.
    Unauthorized,
    /// The DNS provider does not support the specified record type.
    UnsupportedType,
    /// The record value is invalid.
    InvalidRecord,
    /// A provider-specific error.
    Custom(T),
}

impl<T> CreateRecordError<T> {
    /// The error that a failed remote call stands for: refused credentials,
    /// a rejected submission, or else the cause itself.
    pub open spec fn of(failure: Failure<T>) -> Self {
        if is_unauthorized(failure.status) {
            CreateRecordError::Unauthorized
        } else if is_unprocessable(failure.status) {
            CreateRecordError::InvalidRecord
        } else {
            CreateRecordError::Custom(failure.cause)
        }
    }

    /// Classifies a failed remote call.
    pub fn from_failure(failure: Failure<T>) -> (e: Self)
        ensures
            e == Self::of(failure),
    {
        match failure.status {
            Some(401) | Some(403) => CreateRecordError::Unauthorized,
            Some(422) => CreateRecordError::InvalidRecord,
            _ => CreateRecordError::Custom(failure.cause),
        }
    }
}

/// An error that occurred when deleting a DNS record.
#[derive(Debug, PartialEq, Eq, Clone, Copy, Hash)]
pub enum DeleteRecordError<T> {
    /// The DNS provider is not authorized to execute this action.
    Unauthorized,
    /// There is no record with the given ID.
    NotFound,
    /// A provider-specific error.
    Custom(T),
}

impl<T> DeleteRecordError<T> {
    /// The error that a failed remote call stands for: a missing object,
    /// refused credentials, or else the cause itself.
    pub open spec fn of(failure: Failure<T>) -> Self {
        if is_not_found(failure.status) {
            DeleteRecordError::NotFound
        } else if is_unauthorized(failure.status) {
            DeleteRecordError::Unauthorized
        } else {
            DeleteRecordError::Custom(failure.cause)
        }
    }

    /// Classifies a failed remote call.
    pub fn from_failure(failure: Failure<T>) -> (e: Self)
        ensures
            e == Self::of(failure),
    {
        match failure.status {
            Some(404) => DeleteRecordError::NotFound,
            Some(401) | Some(403) => DeleteRecordError::Unauthorized,
            _ => DeleteRecordError::Custom(failure.cause),
        }
    }
}

impl<T> DeleteRecordError<T> {
    /// The deletion error that a failed lookup of the record stands for.
    pub open spec fn of_lookup(error: RetrieveRecordError<T>) -> Self {
        match error {
            RetrieveRecordError::Unauthorized => DeleteRecordError::Unauthorized,
            RetrieveRecordError::NotFound => DeleteRecordError::NotFound,
            RetrieveRecordError::Custom(cause) => DeleteRecordError::Custom(cause),
        }
    }

    /// Carries the error of the lookup that precedes a deletion over to
    /// the deletion.
    pub fn from_lookup(error: RetrieveRecordError<T>) -> (e: Self)
        ensures
            e == Self::of_lookup(error),
    {
        match error {
            RetrieveRecordError::Unauthorized => DeleteRecordError::Unauthorized,
            RetrieveRecordError::NotFound => DeleteRecordError::NotFound,
            RetrieveRecordError::Custom(cause) => DeleteRecordError::Custom(cause),
        }
    }
}

/// Refused credentials are `Unauthorized` for every capability: a failure
/// with the status 401 or 403 stands for no other error.
pub proof fn lemma_unauthorized_everywhere<T>(failure: Failure<T>)
    requires
        failure.status == Some(401u16) || failure.status == Some(403u16),
    ensures
        RetrieveZoneError::of(failure) == RetrieveZoneError::<T>::Unauthorized,
        CreateZoneError::of(failure) == CreateZoneError::<T>::Unauthorized,
        DeleteZoneError::of(failure) == DeleteZoneError::<T>::Unauthorized,
        RetrieveRecordError::of(failure) == RetrieveRecordError::<T>::Unauthorized,
        CreateRecordError::of(failure) == CreateRecordError::<T>::Unauthorized,
        DeleteRecordError::of(failure) == DeleteRecordError::<T>::Unauthorized,
{
}

/// A missing object is `NotFound` for every capability that addresses an
/// object: a failure with the status 404 stands for no other error on
/// retrieval and on deletion.
pub proof fn lemma_not_found_on_lookup<T>(failure: Failure<T>)
    requires
        failure.status == Some(404u16),
    ensures
        RetrieveZoneError::of(failure) == RetrieveZoneError::<T>::NotFound,
        DeleteZoneError::of(failure) == DeleteZoneError::<T>::NotFound,
        RetrieveRecordError::of(failure) == RetrieveRecordError::<T>::NotFound,
        DeleteRecordError::of(failure) == DeleteRecordError::<T>::NotFound,
{
}

/// A rejected submission is the `Invalid` kind of the creation: a failure
/// with the status 422 stands for no other error on creation.
pub proof fn lemma_unprocessable_on_creation<T>(failure: Failure<T>)
    requires
        failure.status == Some(422u16),
    ensures
        CreateZoneError::of(failure) == CreateZoneError::<T>::InvalidDomainName,
        CreateRecordError::of(failure) == CreateRecordError::<T>::InvalidRecord,
{
}

/// Whatever the taxonomy does not know is `Custom` and wraps its cause: a
/// failure without a status, or with a status other than 401, 403, 404 and
/// 422, stands for no well-known kind, for any capability.
pub proof fn lemma_unmapped_is_custom<T>(failure: Failure<T>)
    requires
        !is_not_found(failure.status),
        !is_unauthorized(failure.status),
        !is_unprocessable(failure.status),
    ensures
        RetrieveZoneError::of(failure) == RetrieveZoneError::Custom(failure.cause),
        CreateZoneError::of(failure) == CreateZoneError::Custom(failure.cause),
        DeleteZoneError::of(failure) == DeleteZoneError::Custom(failure.cause),
        RetrieveRecordError::of(failure) == RetrieveRecordError::Custom(failure.cause),
        CreateRecordError::of(failure) == CreateRecordError::Custom(failure.cause),
        DeleteRecordError::of(failure) == DeleteRecordError::Custom(failure.cause),
{
}

} // verus!
