//! The wire surface of the Hetzner DNS API: the requests that the binding
//! sends and the objects that the remote answers with.
//!
//! Nothing here performs a request. A [`Request`] says what to send; the
//! caller sends it with the header that [`Client::auth_header`] holds and
//! hands the decoded answer back to the binding.

use vstd::prelude::*;
use vstd::string::*;
use reqwest::header::{HeaderValue, InvalidHeaderValue};
use crate::numeral::{decimal_string, numeral, push_numeral};

verus! {

/// The root of the remote API.
pub const HETZNER_API_URL: &'static str = "https://dns.hetzner.com/api/v1";

/// The name of the header that carries the API token.
pub const AUTH_HEADER: &'static str = "Auth-API-Token";

/// `HeaderValue` of the `http` crate, as `reqwest` hands it on: the value
/// of an HTTP header, carried through as it is.
#[verifier::external_type_specification]
#[verifier::external_body]
pub struct ExHeaderValue(HeaderValue);

/// `InvalidHeaderValue` of the `http` crate: the error of
/// `HeaderValue::from_str`.
#[verifier::external_type_specification]
#[verifier::external_body]
pub struct ExInvalidHeaderValue(InvalidHeaderValue);

/// A byte that may stand in the value of an HTTP header: a tab, or any
/// byte from 32 on but 127.
pub open spec fn is_header_byte(b: u8) -> bool {
    b >= 32 && b != 127 || b == 9
}

/// Every byte of `bytes` may stand in the value of an HTTP header.
pub open spec fn is_header_value(bytes: Seq<u8>) -> bool {
    forall|i: int| 0 <= i < bytes.len() ==> is_header_byte(#[trigger] bytes[i])
}

/// The bytes that a header value holds: what `HeaderValue::as_bytes` of
/// the `http` crate hands out.
pub uninterp spec fn header_bytes(value: HeaderValue) -> Seq<u8>;

/// Whether a header value is marked as sensitive, as one that must not be
/// logged: what `HeaderValue::is_sensitive` of the `http` crate tells.
pub uninterp spec fn header_sensitive(value: HeaderValue) -> bool;

/// `HeaderValue::from_str` of the `http` crate, as `reqwest` hands it on:
/// it accepts a string if and only if every byte of its UTF-8 encoding may
/// stand in a header value. The value that it makes holds a copy of those
/// bytes and is not marked as sensitive.
pub assume_specification[ HeaderValue::from_str ](src: &str) -> (value: Result<
    HeaderValue,
    InvalidHeaderValue,
>)
    ensures
        value is Ok <==> is_header_value(src.spec_bytes()),
        value matches Ok(made) ==> header_bytes(made) == src.spec_bytes() && !header_sensitive(
            made,
        ),
;

/// `HeaderValue::set_sensitive` of the `http` crate: it sets the mark that
/// tells whether the value is sensitive, and leaves the bytes as they are.
pub assume_specification[ HeaderValue::set_sensitive ](value: &mut HeaderValue, val: bool)
    ensures
        header_bytes(*final(value)) == header_bytes(*old(value)),
        header_sensitive(*final(value)) == val,
;

/// The API token is not a legal header value.
#[derive(Debug, PartialEq, Eq, Clone, Copy, Hash)]
pub struct InvalidApiKey;

/// The HTTP method of a request.
#[derive(Debug, PartialEq, Eq, Clone, Copy, Hash)]
pub enum Method {
    Get,
    Post,
    Delete,
}

/// A request to the remote API.
#[derive(Debug, PartialEq, Eq, Clone, Hash)]
pub struct Request {
    pub method: Method,
    pub url: String,
    /// The members of the JSON object to send as the body, each a name and
    /// a string value, if the request has a body.
    pub body: Option<Vec<(String, String)>>,
}

/// The mathematical content of a [`Request`].
pub ghost struct RequestView {
    pub method: Method,
    pub url: Seq<char>,
    pub body: Option<Seq<(Seq<char>, Seq<char>)>>,
}

/// The names and values of the members of a JSON object.
pub open spec fn members(body: Seq<(String, String)>) -> Seq<(Seq<char>, Seq<char>)> {
    Seq::new(body.len(), |i: int| (body[i].0@, body[i].1@))
}

impl View for Request {
    type V = RequestView;

    open spec fn view(&self) -> RequestView {
        RequestView {
            method: self.method,
            url: self.url@,
            body: match self.body {
                Some(body) => Some(members(body@)),
                None => None,
            },
        }
    }
}

/// A request without a body.
pub open spec fn bare(method: Method, url: Seq<char>) -> RequestView {
    RequestView { method, url, body: None }
}

/// The query that selects page `page` of `per_page` items.
pub open spec fn paging(page: nat, per_page: nat) -> Seq<char> {
    "page="@ + numeral(page, 10) + "&per_page="@ + numeral(per_page, 10)
}

/// The request that lists one page of zones.
pub open spec fn retrieve_zones_request(page: nat, per_page: nat) -> RequestView {
    bare(Method::Get, HETZNER_API_URL@ + "/zones?"@ + paging(page, per_page))
}

/// The request that fetches one zone.
pub open spec fn retrieve_zone_request(zone_id: Seq<char>) -> RequestView {
    bare(Method::Get, HETZNER_API_URL@ + "/zones/"@ + zone_id)
}

/// The request that creates a zone for `domain`.
pub open spec fn create_zone_request(domain: Seq<char>) -> RequestView {
    RequestView {
        method: Method::Post,
        url: HETZNER_API_URL@ + "/zones"@,
        body: Some(seq![("name"@, domain)]),
    }
}

/// The request that deletes one zone.
pub open spec fn delete_zone_request(zone_id: Seq<char>) -> RequestView {
    bare(Method::Delete, HETZNER_API_URL@ + "/zones/"@ + zone_id)
}

/// The request that lists one page of the records of a zone.
pub open spec fn retrieve_records_request(
    zone_id: Seq<char>,
    page: nat,
    per_page: nat,
) -> RequestView {
    bare(
        Method::Get,
        HETZNER_API_URL@ + "/records?zone_id="@ + zone_id + "&"@ + paging(page, per_page),
    )
}

/// The request that fetches one record.
pub open spec fn retrieve_record_request(record_id: Seq<char>) -> RequestView {
    bare(Method::Get, HETZNER_API_URL@ + "/records/"@ + record_id)
}

/// The members of the body that creates a record: the owning zone, the
/// host, the type tag and the value, and then the TTL in decimal if one is
/// given.
pub open spec fn record_members(
    zone_id: Seq<char>,
    host: Seq<char>,
    typ: Seq<char>,
    value: Seq<char>,
    ttl: Option<u64>,
) -> Seq<(Seq<char>, Seq<char>)> {
    let fixed = seq![("zone_id"@, zone_id), ("name"@, host), ("type"@, typ), ("value"@, value)];
    match ttl {
        Some(seconds) => fixed.push(("ttl"@, numeral(seconds as nat, 10))),
        None => fixed,
    }
}

/// The request that creates a record.
pub open spec fn create_record_request(
    zone_id: Seq<char>,
    host: Seq<char>,
    typ: Seq<char>,
    value: Seq<char>,
    ttl: Option<u64>,
) -> RequestView {
    RequestView {
        method: Method::Post,
        url: HETZNER_API_URL@ + "/records"@,
        body: Some(record_members(zone_id, host, typ, value, ttl)),
    }
}

/// The request that deletes one record.
pub open spec fn delete_record_request(record_id: Seq<char>) -> RequestView {
    bare(Method::Delete, HETZNER_API_URL@ + "/records/"@ + record_id)
}

/// Appends the query that selects a page to `url`.
fn push_paging(url: &mut String, page: u32, per_page: u32)
    ensures
        final(url)@ == old(url)@ + paging(page as nat, per_page as nat),
{
    url.append("page=");
    push_numeral(url, page as u64, 10);
    url.append("&per_page=");
    push_numeral(url, per_page as u64, 10);
    assert(url@ =~= old(url)@ + paging(page as nat, per_page as nat));
}

/// The URL below the root of the API that `path` and `id` make up.
fn url_of(path: &str, id: &str) -> (url: String)
    ensures
        url@ == HETZNER_API_URL@ + path@ + id@,
{
    let mut url = HETZNER_API_URL.to_owned();
    url.append(path);
    url.append(id);
    url
}

/// The access to the remote API: it holds the credentials and knows the
/// shape of every request.
#[derive(Debug)]
pub struct Client {
    auth: HeaderValue,
}

impl Client {
    /// A client that authenticates with `api_key`. The key is refused if
    /// it cannot stand in an HTTP header. Otherwise the client holds it,
    /// byte for byte, as a header value that is marked as sensitive.
    pub fn new(api_key: &str) -> (client: Result<Self, InvalidApiKey>)
        ensures
            client is Ok <==> is_header_value(api_key.spec_bytes()),
            client matches Ok(made) ==> header_bytes(made.auth()) == api_key.spec_bytes()
                && header_sensitive(made.auth()),
    {
        match HeaderValue::from_str(api_key) {
            Ok(value) => {
                let mut auth = value;
                auth.set_sensitive(true);
                Ok(Client { auth })
            },
            Err(_) => Err(InvalidApiKey),
        }
    }

    /// The header value that the client was made with: the API token,
    /// marked as sensitive.
    pub closed spec fn auth(&self) -> HeaderValue {
        self.auth
    }

    /// The value of the header [`AUTH_HEADER`] that every request carries:
    /// the one that the client holds.
    pub fn auth_header(&self) -> (header: &HeaderValue)
        ensures
            *header == self.auth(),
    {
        &self.auth
    }

    /// The request that lists page `page` of the zones, `per_page` to a
    /// page.
    pub fn retrieve_zones(page: u32, per_page: u32) -> (request: Request)
        ensures
            request@ == retrieve_zones_request(page as nat, per_page as nat),
    {
        let mut url = url_of("/zones?", "");
        push_paging(&mut url, page, per_page);
        assert(url@ =~= HETZNER_API_URL@ + "/zones?"@ + paging(page as nat, per_page as nat)) by {
            reveal_strlit("");
        }
        Request { method: Method::Get, url, body: None }
    }

    /// The request that fetches the zone `zone_id`.
    pub fn retrieve_zone(zone_id: &str) -> (request: Request)
        ensures
            request@ == retrieve_zone_request(zone_id@),
    {
        Request { method: Method::Get, url: url_of("/zones/", zone_id), body: None }
    }

    /// The request that creates a zone for `domain`.
    pub fn create_zone(domain: &str) -> (request: Request)
        ensures
            request@ == create_zone_request(domain@),
    {
        let mut body: Vec<(String, String)> = Vec::new();
        body.push(("name".to_owned(), domain.to_owned()));
        let url = url_of("/zones", "");
        proof {
            reveal_strlit("");
            assert(url@ =~= HETZNER_API_URL@ + "/zones"@);
            assert(members(body@) =~= seq![("name"@, domain@)]);
        }
        Request { method: Method::Post, url, body: Some(body) }
    }

    /// The request that deletes the zone `zone_id`.
    pub fn delete_zone(zone_id: &str) -> (request: Request)
        ensures
            request@ == delete_zone_request(zone_id@),
    {
        Request { method: Method::Delete, url: url_of("/zones/", zone_id), body: None }
    }

    /// The request that lists page `page` of the records of the zone
    /// `zone_id`, `per_page` to a page.
    pub fn retrieve_records(zone_id: &str, page: u32, per_page: u32) -> (request: Request)
        ensures
            request@ == retrieve_records_request(zone_id@, page as nat, per_page as nat),
    {
        let mut url = url_of("/records?zone_id=", zone_id);
        url.append("&");
        push_paging(&mut url, page, per_page);
        assert(url@ =~= HETZNER_API_URL@ + "/records?zone_id="@ + zone_id@ + "&"@ + paging(
            page as nat,
            per_page as nat,
        ));
        Request { method: Method::Get, url, body: None }
    }

    /// The request that fetches the record `record_id`.
    pub fn retrieve_record(record_id: &str) -> (request: Request)
        ensures
            request@ == retrieve_record_request(record_id@),
    {
        Request { method: Method::Get, url: url_of("/records/", record_id), body: None }
    }

    /// The request that creates a record in the zone `zone_id`. Without a
    /// TTL the body has no such member, and the remote applies the default
    /// of the zone.
    pub fn create_record(zone_id: &str, host: &str, typ: &str, value: &str, ttl: Option<u64>) -> (request:
        Request)
        ensures
            request@ == create_record_request(zone_id@, host@, typ@, value@, ttl),
    {
        let mut body: Vec<(String, String)> = Vec::new();
        body.push(("zone_id".to_owned(), zone_id.to_owned()));
        body.push(("name".to_owned(), host.to_owned()));
        body.push(("type".to_owned(), typ.to_owned()));
        body.push(("value".to_owned(), value.to_owned()));
        match ttl {
            Some(seconds) => {
                body.push(("ttl".to_owned(), decimal_string(seconds)));
            },
            None => {},
        }
        let url = url_of("/records", "");
        proof {
            reveal_strlit("");
            assert(url@ =~= HETZNER_API_URL@ + "/records"@);
            assert(members(body@) =~= record_members(zone_id@, host@, typ@, value@, ttl));
        }
        Request { method: Method::Post, url, body: Some(body) }
    }

    /// The request that deletes the record `record_id`.
    pub fn delete_record(record_id: &str) -> (request: Request)
        ensures
            request@ == delete_record_request(record_id@),
    {
        Request { method: Method::Delete, url: url_of("/records/", record_id), body: None }
    }
}

/// How far the remote has verified a zone.
#[derive(Debug, PartialEq, Eq, Clone, Copy, Hash)]
pub enum ZoneStatus {
    Verified,
    Failed,
    Pending,
}

/// A zone as the remote describes it.
#[derive(Debug, PartialEq, Eq, Clone, Hash)]
pub struct Zone {
    pub id: String,
    pub name: String,
    pub status: ZoneStatus,
    /// The TTL of the records of the zone that carry none of their own.
    pub ttl: u64,
}

/// The answer that holds one zone.
#[derive(Debug, PartialEq, Eq, Clone, Hash)]
pub struct ZoneResponse {
    pub zone: Zone,
}

/// The answer that holds one page of zones.
#[derive(Debug, PartialEq, Eq, Clone, Hash)]
pub struct ZonesResponse {
    pub meta: Meta,
    pub zones: Vec<Zone>,
}

/// A record as the remote describes it.
#[derive(Debug, PartialEq, Eq, Clone, Hash)]
pub struct Record {
    pub id: String,
    pub name: String,
    pub ttl: Option<u64>,
    pub typ: String,
    pub value: String,
    pub zone_id: String,
}

/// The mathematical content of a [`Record`] of the wire.
pub ghost struct WireRecordView {
    pub id: Seq<char>,
    pub name: Seq<char>,
    pub ttl: Option<u64>,
    pub typ: Seq<char>,
    pub value: Seq<char>,
    pub zone_id: Seq<char>,
}

impl View for Record {
    type V = WireRecordView;

    open spec fn view(&self) -> WireRecordView {
        WireRecordView {
            id: self.id@,
            name: self.name@,
            ttl: self.ttl,
            typ: self.typ@,
            value: self.value@,
            zone_id: self.zone_id@,
        }
    }
}

/// The answer that holds one record.
#[derive(Debug, PartialEq, Eq, Clone, Hash)]
pub struct RecordResponse {
    pub record: Record,
}

/// The answer that holds one page of records.
#[derive(Debug, PartialEq, Eq, Clone, Hash)]
pub struct RecordsResponse {
    pub meta: Meta,
    pub records: Vec<Record>,
}

/// What the remote says about a listing as a whole.
#[derive(Debug, PartialEq, Eq, Clone, Hash)]
pub struct Meta {
    pub pagination: Pagination,
}

/// Where a page stands in its listing.
#[derive(Debug, PartialEq, Eq, Clone, Hash)]
pub struct Pagination {
    pub last_page: u32,
    pub page: u32,
    pub per_page: u32,
    pub total_entries: u32,
}

} // verus!
