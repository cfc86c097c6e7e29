//! The binding to the Hetzner DNS API.
//!
//! The binding decides and the caller performs: for every capability there
//! is a function that says which [`Request`] to send, and a function that
//! turns what came back into the result of the capability. A transport
//! failure reaches the binding as a [`Failure`], and leaves it as one of the
//! well-known error kinds or as the `Custom` kind that wraps its cause.

pub mod api;

use vstd::prelude::*;
use vstd::string::*;
use crate::error::{
    is_not_found, CreateRecordError, CreateZoneError, DeleteRecordError, DeleteZoneError, Failure,
    RetrieveRecordError, RetrieveZoneError,
};
use crate::hetzner::api::{
    create_record_request, delete_record_request, header_bytes, header_sensitive,
    is_header_value, retrieve_records_request,
    retrieve_zones_request, Client, InvalidApiKey, RecordResponse, RecordsResponse, Request,
    WireRecordView, ZoneResponse, ZonesResponse,
};
use crate::pagination::{initial, Collector, Event, Fetched, Page};
use crate::record::{decode, type_of, value_of, Record, RecordData, RecordView};
use crate::text::same_text;

verus! {

/// The number of items that the binding asks for per page of a listing.
pub const PER_PAGE: u32 = 100;

/// `reqwest::Error`: the error of a request that `reqwest` performed,
/// carried through as it is.
#[verifier::external_type_specification]
#[verifier::external_body]
pub struct ExTransportError(reqwest::Error);

/// The HTTP status that a transport error carries: the number of the
/// status that `reqwest::Error::status` hands out, if it hands one out.
pub uninterp spec fn carried_status(error: reqwest::Error) -> Option<u16>;

/// `reqwest::Error::status`, with the code taken out by
/// `StatusCode::as_u16`: the HTTP status that the error was made from, if
/// it was made from a response. A status code lies between 100 and 999.
#[verifier::external_body]
fn status_of(error: &reqwest::Error) -> (status: Option<u16>)
    ensures
        status == carried_status(*error),
        status matches Some(code) ==> 100 <= code <= 999,
{
    match error.status() {
        Some(code) => Some(code.as_u16()),
        None => None,
    }
}

/// The failure that a transport error stands for: the error itself as the
/// cause, beside the HTTP status that it carries.
pub fn failure(error: reqwest::Error) -> (failure: Failure<reqwest::Error>)
    ensures
        failure.cause == error,
        failure.status == carried_status(error),
        failure.status matches Some(code) ==> 100 <= code <= 999,
{
    let status = status_of(&error);
    Failure { status, cause: error }
}

/// The record types that the remote accepts.
pub open spec fn is_supported_type(typ: Seq<char>) -> bool {
    ||| typ == "A"@
    ||| typ == "AAAA"@
    ||| typ == "NS"@
    ||| typ == "MX"@
    ||| typ == "CNAME"@
    ||| typ == "RP"@
    ||| typ == "TXT"@
    ||| typ == "SOA"@
    ||| typ == "HINFO"@
    ||| typ == "SRV"@
    ||| typ == "DANE"@
    ||| typ == "TLSA"@
    ||| typ == "DS"@
    ||| typ == "CAA"@
}

/// Tells whether the remote accepts records of the type `typ`.
pub fn supports(typ: &str) -> (supported: bool)
    ensures
        supported == is_supported_type(typ@),
{
    same_text(typ, "A") || same_text(typ, "AAAA") || same_text(typ, "NS") || same_text(typ, "MX")
        || same_text(typ, "CNAME") || same_text(typ, "RP") || same_text(typ, "TXT") || same_text(
        typ,
        "SOA",
    ) || same_text(typ, "HINFO") || same_text(typ, "SRV") || same_text(typ, "DANE") || same_text(
        typ,
        "TLSA",
    ) || same_text(typ, "DS") || same_text(typ, "CAA")
}

/// The generic record that a record of the wire stands for: its value is
/// decoded by its type, and it takes the default TTL of its zone where it
/// carries none of its own.
pub open spec fn generic(wire: WireRecordView, default_ttl: u64) -> RecordView {
    RecordView {
        id: wire.id,
        host: wire.name,
        data: decode(wire.typ, wire.value),
        ttl: match wire.ttl {
            Some(ttl) => ttl,
            None => default_ttl,
        },
    }
}

impl api::Record {
    /// Turns the record of the wire into a generic record of a zone whose
    /// default TTL is `default_ttl`.
    pub fn into_generic(self, default_ttl: u64) -> (record: Record)
        ensures
            record@ == generic(self@, default_ttl),
    {
        let data = RecordData::from_raw(self.typ.as_str(), self.value.as_str());
        let ttl = match self.ttl {
            Some(ttl) => ttl,
            None => default_ttl,
        };
        Record { id: self.id, host: self.name, data, ttl }
    }
}

/// The Hetzner DNS provider.
#[derive(Debug)]
pub struct HetznerProvider {
    api_client: Client,
}

/// A zone of the Hetzner DNS provider.
#[derive(Debug, PartialEq, Eq, Clone, Hash)]
pub struct HetznerZone {
    /// The zone as the remote described it when it was retrieved.
    pub repr: api::Zone,
}

/// The zones that the remote described, each as a zone of the provider.
pub open spec fn zones_of(described: Seq<api::Zone>) -> Seq<HetznerZone> {
    Seq::new(described.len(), |i: int| HetznerZone { repr: described[i] })
}

/// What a fetch of one page of zones came to: the zones of the page
/// with the reported total, the end of the listing where the remote knows
/// no such page, and else the failure as a retrieval error.
pub open spec fn zones_event<E>(reply: Result<ZonesResponse, Failure<E>>) -> Event<
    HetznerZone,
    RetrieveZoneError<E>,
> {
    match reply {
        Ok(response) => Event::Page {
            items: zones_of(response.zones@),
            total_entries: response.meta.pagination.total_entries as nat,
        },
        Err(failure) => if is_not_found(failure.status) {
            Event::NotFound
        } else {
            Event::Failed(RetrieveZoneError::of(failure))
        },
    }
}

/// The views of the records.
pub open spec fn record_views(records: Seq<Record>) -> Seq<RecordView> {
    Seq::new(records.len(), |i: int| records[i]@)
}

/// The generic records that the records of the wire stand for.
pub open spec fn generic_records(wire: Seq<api::Record>, default_ttl: u64) -> Seq<RecordView> {
    Seq::new(wire.len(), |i: int| generic(wire[i]@, default_ttl))
}

impl HetznerProvider {
    /// A provider that authenticates with `api_key`. The key is refused if
    /// it cannot stand in an HTTP header. Otherwise the client of the
    /// provider holds it, byte for byte, as a header value that is marked
    /// as sensitive.
    pub fn new(api_key: &str) -> (provider: Result<Self, InvalidApiKey>)
        ensures
            provider is Ok <==> is_header_value(api_key.spec_bytes()),
            provider matches Ok(made) ==> header_bytes(made.client().auth())
                == api_key.spec_bytes() && header_sensitive(made.client().auth()),
    {
        match Client::new(api_key) {
            Ok(api_client) => Ok(HetznerProvider { api_client }),
            Err(error) => Err(error),
        }
    }

    /// The access to the remote API that the provider holds.
    pub closed spec fn client(&self) -> Client {
        self.api_client
    }

    /// The access to the remote API, with the credentials to send.
    pub fn api_client(&self) -> (client: &Client)
        ensures
            *client == self.client(),
    {
        &self.api_client
    }

    /// Starts listing all zones: the first page is due.
    pub fn list_zones(&self) -> (collector: Collector<HetznerZone>)
        ensures
            collector@ == initial::<HetznerZone>(PER_PAGE as nat),
    {
        Collector::new(PER_PAGE)
    }

    /// The request for the page of zones that is due.
    pub fn list_zones_request(&self, collector: &Collector<HetznerZone>) -> (request: Request)
        requires
            collector@.page <= u32::MAX,
        ensures
            request@ == retrieve_zones_request(collector@.page, collector@.per_page),
    {
        Client::retrieve_zones(collector.page(), collector.per_page())
    }

    /// Takes in what the fetch of one page of zones came to, ready for
    /// [`Collector::step`].
    pub fn fetched_zones<E>(&self, reply: Result<ZonesResponse, Failure<E>>) -> (fetched: Fetched<
        HetznerZone,
        RetrieveZoneError<E>,
    >)
        ensures
            fetched@ == zones_event(reply),
    {
        match reply {
            Ok(response) => {
                let ghost described = response.zones@;
                let mut items: Vec<HetznerZone> = Vec::new();
                for zone in it: response.zones
                    invariant
                        it.seq() == described,
                        items@ == zones_of(described.take(it.index() as int)),
                {
                    items.push(HetznerZone { repr: zone });
                    assert(items@ =~= zones_of(described.take(it.index() + 1)));
                }
                assert(described.take(described.len() as int) =~= described);
                Fetched::Page(Page { items, total_entries: response.meta.pagination.total_entries })
            },
            Err(failure) => match RetrieveZoneError::from_failure(failure) {
                RetrieveZoneError::NotFound => Fetched::NotFound,
                error => Fetched::Failed(error),
            },
        }
    }

    /// The request that fetches the zone `zone_id`.
    pub fn get_zone_request(&self, zone_id: &str) -> (request: Request)
        ensures
            request@ == api::retrieve_zone_request(zone_id@),
    {
        Client::retrieve_zone(zone_id)
    }

    /// The zone that the remote answered with, or the retrieval error that
    /// the failure stands for.
    pub fn get_zone<E>(&self, reply: Result<ZoneResponse, Failure<E>>) -> (result: Result<
        HetznerZone,
        RetrieveZoneError<E>,
    >)
        ensures
            match reply {
                Ok(response) => result == Ok::<HetznerZone, RetrieveZoneError<E>>(
                    HetznerZone { repr: response.zone },
                ),
                Err(failure) => result == Err::<HetznerZone, RetrieveZoneError<E>>(
                    RetrieveZoneError::of(failure),
                ),
            },
    {
        match reply {
            Ok(response) => Ok(HetznerZone { repr: response.zone }),
            Err(failure) => Err(RetrieveZoneError::from_failure(failure)),
        }
    }

    /// The request that creates a zone for `domain`.
    pub fn create_zone_request(&self, domain: &str) -> (request: Request)
        ensures
            request@ == api::create_zone_request(domain@),
    {
        Client::create_zone(domain)
    }

    /// The zone that the remote created, or the creation error that the
    /// failure stands for.
    pub fn create_zone<E>(&self, reply: Result<ZoneResponse, Failure<E>>) -> (result: Result<
        HetznerZone,
        CreateZoneError<E>,
    >)
        ensures
            match reply {
                Ok(response) => result == Ok::<HetznerZone, CreateZoneError<E>>(
                    HetznerZone { repr: response.zone },
                ),
                Err(failure) => result == Err::<HetznerZone, CreateZoneError<E>>(
                    CreateZoneError::of(failure),
                ),
            },
    {
        match reply {
            Ok(response) => Ok(HetznerZone { repr: response.zone }),
            Err(failure) => Err(CreateZoneError::from_failure(failure)),
        }
    }

    /// The request that deletes the zone `zone_id`.
    pub fn delete_zone_request(&self, zone_id: &str) -> (request: Request)
        ensures
            request@ == api::delete_zone_request(zone_id@),
    {
        Client::delete_zone(zone_id)
    }

    /// Success if the remote deleted the zone, or the deletion error that
    /// the failure stands for.
    pub fn delete_zone<E>(&self, reply: Result<(), Failure<E>>) -> (result: Result<
        (),
        DeleteZoneError<E>,
    >)
        ensures
            match reply {
                Ok(_) => result is Ok,
                Err(failure) => result == Err::<(), DeleteZoneError<E>>(
                    DeleteZoneError::of(failure),
                ),
            },
    {
        match reply {
            Ok(_) => Ok(()),
            Err(failure) => Err(DeleteZoneError::from_failure(failure)),
        }
    }
}

impl HetznerZone {
    /// The provider-specific ID of the zone.
    pub fn id(&self) -> (id: &str)
        ensures
            id@ == self.repr.id@,
    {
        self.repr.id.as_str()
    }

    /// The domain that the zone manages.
    pub fn domain(&self) -> (domain: &str)
        ensures
            domain@ == self.repr.name@,
    {
        self.repr.name.as_str()
    }

    /// The record that the remote answered with belongs to this zone.
    pub open spec fn owns(&self, response: RecordResponse) -> bool {
        response.record.zone_id@ == self.repr.id@
    }

    /// Starts listing all records of the zone: the first page is due.
    pub fn list_records(&self) -> (collector: Collector<Record>)
        ensures
            collector@ == initial::<Record>(PER_PAGE as nat),
    {
        Collector::new(PER_PAGE)
    }

    /// The request for the page of records that is due.
    pub fn list_records_request(&self, collector: &Collector<Record>) -> (request: Request)
        requires
            collector@.page <= u32::MAX,
        ensures
            request@ == retrieve_records_request(
                self.repr.id@,
                collector@.page,
                collector@.per_page,
            ),
    {
        Client::retrieve_records(self.repr.id.as_str(), collector.page(), collector.per_page())
    }

    /// Takes in what the fetch of one page of records came to, ready for
    /// [`Collector::step`]: the generic records of the page with the
    /// reported total, the end of the listing where the remote knows no
    /// such page, and else the failure as a retrieval error.
    pub fn fetched_records<E>(&self, reply: Result<RecordsResponse, Failure<E>>) -> (fetched:
        Fetched<Record, RetrieveRecordError<E>>)
        ensures
            match reply {
                Ok(response) => fetched@ matches Event::Page { items, total_entries }
                    && total_entries == response.meta.pagination.total_entries
                    && record_views(items) == generic_records(response.records@, self.repr.ttl),
                Err(failure) => fetched@ == if is_not_found(failure.status) {
                    Event::<Record, RetrieveRecordError<E>>::NotFound
                } else {
                    Event::<Record, RetrieveRecordError<E>>::Failed(
                        RetrieveRecordError::of(failure),
                    )
                },
            },
    {
        match reply {
            Ok(response) => {
                let ghost wire = response.records@;
                let mut items: Vec<Record> = Vec::new();
                for record in it: response.records
                    invariant
                        it.seq() == wire,
                        record_views(items@) == generic_records(
                            wire.take(it.index() as int),
                            self.repr.ttl,
                        ),
                {
                    let ghost before = items@;
                    let ghost seen = it.index() as int;
                    items.push(record.into_generic(self.repr.ttl));
                    proof {
                        let now = generic_records(wire.take(seen + 1), self.repr.ttl);
                        assert(record_views(before).len() == seen);
                        assert forall|i: int| 0 <= i < seen + 1 implies record_views(items@)[i]
                            == now[i] by {
                            if i < seen {
                                assert(items@[i] == before[i]);
                                assert(record_views(before)[i] == generic_records(
                                    wire.take(seen),
                                    self.repr.ttl,
                                )[i]);
                            }
                        }
                        assert(record_views(items@) =~= now);
                    }
                }
                assert(wire.take(wire.len() as int) =~= wire);
                Fetched::Page(Page { items, total_entries: response.meta.pagination.total_entries })
            },
            Err(failure) => match RetrieveRecordError::from_failure(failure) {
                RetrieveRecordError::NotFound => Fetched::NotFound,
                error => Fetched::Failed(error),
            },
        }
    }

    /// The request that fetches the record `record_id`.
    pub fn get_record_request(&self, record_id: &str) -> (request: Request)
        ensures
            request@ == api::retrieve_record_request(record_id@),
    {
        Client::retrieve_record(record_id)
    }

    /// The record that the remote answered with, if it belongs to this
    /// zone; `NotFound` if it belongs to another one; or the retrieval
    /// error that the failure stands for.
    pub fn get_record<E>(&self, reply: Result<RecordResponse, Failure<E>>) -> (result:
        Result<Record, RetrieveRecordError<E>>)
        ensures
            match reply {
                Ok(response) => if self.owns(response) {
                    result matches Ok(record) && record@ == generic(
                        response.record@,
                        self.repr.ttl,
                    )
                } else {
                    result == Err::<Record, RetrieveRecordError<E>>(RetrieveRecordError::NotFound)
                },
                Err(failure) => result == Err::<Record, RetrieveRecordError<E>>(
                    RetrieveRecordError::of(failure),
                ),
            },
    {
        match reply {
            Ok(response) => {
                if !same_text(response.record.zone_id.as_str(), self.repr.id.as_str()) {
                    return Err(RetrieveRecordError::NotFound);
                }
                Ok(response.record.into_generic(self.repr.ttl))
            },
            Err(failure) => Err(RetrieveRecordError::from_failure(failure)),
        }
    }

    /// The TTL to name in a request that creates a record: none where the
    /// record is to have the default TTL of the zone.
    pub open spec fn ttl_to_send(&self, ttl: u64) -> Option<u64> {
        if ttl == self.repr.ttl {
            None
        } else {
            Some(ttl)
        }
    }

    /// The request that creates a record in this zone. A record type that
    /// the remote does not accept is refused here, and there is no request
    /// to send.
    pub fn create_record_request<E>(&self, host: &str, data: &RecordData, ttl: u64) -> (result:
        Result<Request, CreateRecordError<E>>)
        ensures
            if is_supported_type(type_of(data@)) {
                result matches Ok(request) && request@ == create_record_request(
                    self.repr.id@,
                    host@,
                    type_of(data@),
                    value_of(data@),
                    self.ttl_to_send(ttl),
                )
            } else {
                result == Err::<Request, CreateRecordError<E>>(CreateRecordError::UnsupportedType)
            },
    {
        let typ = data.get_type();
        if !supports(typ) {
            return Err(CreateRecordError::UnsupportedType);
        }
        let opt_ttl = if ttl != self.repr.ttl {
            Some(ttl)
        } else {
            None
        };
        let value = data.get_value();
        Ok(Client::create_record(self.repr.id.as_str(), host, typ, value.as_str(), opt_ttl))
    }

    /// The record that the remote created, or the creation error that the
    /// failure stands for.
    pub fn create_record<E>(&self, reply: Result<RecordResponse, Failure<E>>) -> (result:
        Result<Record, CreateRecordError<E>>)
        ensures
            match reply {
                Ok(response) => result matches Ok(record) && record@ == generic(
                    response.record@,
                    self.repr.ttl,
                ),
                Err(failure) => result == Err::<Record, CreateRecordError<E>>(
                    CreateRecordError::of(failure),
                ),
            },
    {
        match reply {
            Ok(response) => Ok(response.record.into_generic(self.repr.ttl)),
            Err(failure) => Err(CreateRecordError::from_failure(failure)),
        }
    }

    /// The request that looks the record `record_id` up before it is
    /// deleted.
    pub fn delete_record_lookup(&self, record_id: &str) -> (request: Request)
        ensures
            request@ == api::retrieve_record_request(record_id@),
    {
        Client::retrieve_record(record_id)
    }

    /// The request that deletes the record `record_id`, once the lookup has
    /// shown that the record belongs to this zone. Where it belongs to
    /// another zone the deletion ends with `NotFound`, and where the lookup
    /// failed, with the error of the lookup: there is no request to send.
    pub fn delete_record_request<E>(
        &self,
        record_id: &str,
        looked_up: Result<RecordResponse, Failure<E>>,
    ) -> (result: Result<Request, DeleteRecordError<E>>)
        ensures
            match looked_up {
                Ok(response) => if self.owns(response) {
                    result matches Ok(request) && request@ == delete_record_request(record_id@)
                } else {
                    result == Err::<Request, DeleteRecordError<E>>(DeleteRecordError::NotFound)
                },
                Err(failure) => result == Err::<Request, DeleteRecordError<E>>(
                    DeleteRecordError::of_lookup(RetrieveRecordError::of(failure)),
                ),
            },
    {
        match self.get_record(looked_up) {
            Ok(_) => Ok(Client::delete_record(record_id)),
            Err(error) => Err(DeleteRecordError::from_lookup(error)),
        }
    }

    /// Success if the remote deleted the record, or the deletion error
    /// that the failure stands for.
    pub fn delete_record<E>(&self, reply: Result<(), Failure<E>>) -> (result: Result<
        (),
        DeleteRecordError<E>,
    >)
        ensures
            match reply {
                Ok(_) => result is Ok,
                Err(failure) => result == Err::<(), DeleteRecordError<E>>(
                    DeleteRecordError::of(failure),
                ),
            },
    {
        match reply {
            Ok(_) => Ok(()),
            Err(failure) => Err(DeleteRecordError::from_failure(failure)),
        }
    }
}

} // verus!
