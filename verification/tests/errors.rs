use libdns::{
    CreateRecordError, CreateZoneError, DeleteRecordError, DeleteZoneError, Failure,
    RetrieveRecordError, RetrieveZoneError,
};

fn failed(status: Option<u16>) -> Failure<&'static str> {
    Failure { status, cause: "cause" }
}

#[test]
fn unauthorized_statuses_map_to_unauthorized() {
    for status in [401u16, 403] {
        let s = Some(status);
        assert_eq!(RetrieveZoneError::from_failure(failed(s)), RetrieveZoneError::Unauthorized);
        assert_eq!(CreateZoneError::from_failure(failed(s)), CreateZoneError::Unauthorized);
        assert_eq!(DeleteZoneError::from_failure(failed(s)), DeleteZoneError::Unauthorized);
        assert_eq!(RetrieveRecordError::from_failure(failed(s)), RetrieveRecordError::Unauthorized);
        assert_eq!(CreateRecordError::from_failure(failed(s)), CreateRecordError::Unauthorized);
        assert_eq!(DeleteRecordError::from_failure(failed(s)), DeleteRecordError::Unauthorized);
    }
}

#[test]
fn not_found_maps_to_not_found_where_the_capability_knows_it() {
    let s = Some(404);
    assert_eq!(RetrieveZoneError::from_failure(failed(s)), RetrieveZoneError::NotFound);
    assert_eq!(DeleteZoneError::from_failure(failed(s)), DeleteZoneError::NotFound);
    assert_eq!(RetrieveRecordError::from_failure(failed(s)), RetrieveRecordError::NotFound);
    assert_eq!(DeleteRecordError::from_failure(failed(s)), DeleteRecordError::NotFound);
    assert_eq!(CreateZoneError::from_failure(failed(s)), CreateZoneError::Custom("cause"));
    assert_eq!(CreateRecordError::from_failure(failed(s)), CreateRecordError::Custom("cause"));
}

#[test]
fn unprocessable_maps_to_invalid_on_creation_only() {
    let s = Some(422);
    assert_eq!(CreateZoneError::from_failure(failed(s)), CreateZoneError::InvalidDomainName);
    assert_eq!(CreateRecordError::from_failure(failed(s)), CreateRecordError::InvalidRecord);
    assert_eq!(RetrieveZoneError::from_failure(failed(s)), RetrieveZoneError::Custom("cause"));
    assert_eq!(DeleteZoneError::from_failure(failed(s)), DeleteZoneError::Custom("cause"));
    assert_eq!(RetrieveRecordError::from_failure(failed(s)), RetrieveRecordError::Custom("cause"));
    assert_eq!(DeleteRecordError::from_failure(failed(s)), DeleteRecordError::Custom("cause"));
}

#[test]
fn anything_else_is_custom_with_the_cause() {
    for status in [None, Some(500u16), Some(400), Some(200), Some(402), Some(405), Some(0), Some(999)] {
        assert_eq!(RetrieveZoneError::from_failure(failed(status)), RetrieveZoneError::Custom("cause"));
        assert_eq!(CreateZoneError::from_failure(failed(status)), CreateZoneError::Custom("cause"));
        assert_eq!(DeleteZoneError::from_failure(failed(status)), DeleteZoneError::Custom("cause"));
        assert_eq!(
            RetrieveRecordError::from_failure(failed(status)),
            RetrieveRecordError::Custom("cause")
        );
        assert_eq!(CreateRecordError::from_failure(failed(status)), CreateRecordError::Custom("cause"));
        assert_eq!(DeleteRecordError::from_failure(failed(status)), DeleteRecordError::Custom("cause"));
    }
}

#[test]
fn lookup_errors_carry_over_to_deletion() {
    assert_eq!(
        DeleteRecordError::<u8>::from_lookup(RetrieveRecordError::Unauthorized),
        DeleteRecordError::Unauthorized
    );
    assert_eq!(
        DeleteRecordError::<u8>::from_lookup(RetrieveRecordError::NotFound),
        DeleteRecordError::NotFound
    );
    assert_eq!(DeleteRecordError::from_lookup(RetrieveRecordError::Custom(7u8)), DeleteRecordError::Custom(7));
}
