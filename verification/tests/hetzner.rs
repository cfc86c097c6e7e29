use libdns::hetzner::api::{
    Client, InvalidApiKey, Meta, Method, Pagination, Record as WireRecord, RecordResponse,
    RecordsResponse, Request, Zone as WireZone, ZoneResponse, ZoneStatus, ZonesResponse,
    AUTH_HEADER, HETZNER_API_URL,
};
use libdns::hetzner::{failure, supports, HetznerProvider, HetznerZone, PER_PAGE};
use libdns::ipv4::Ipv4Addr;
use libdns::ipv6::Ipv6Addr;
use libdns::pagination::{Fetched, Page, Step};
use libdns::{
    CreateRecordError, CreateZoneError, DeleteRecordError, DeleteZoneError, Failure, Record,
    RecordData, RetrieveRecordError, RetrieveZoneError,
};

fn provider() -> HetznerProvider {
    HetznerProvider::new("SECRET-REDACTED").unwrap()
}

fn wire_zone(id: &str, name: &str, ttl: u64) -> WireZone {
    WireZone { id: id.to_string(), name: name.to_string(), status: ZoneStatus::Verified, ttl }
}

fn zone() -> HetznerZone {
    HetznerZone { repr: wire_zone("zone-1", "example.com", 3600) }
}

fn wire_record(id: &str, zone_id: &str, typ: &str, value: &str, ttl: Option<u64>) -> WireRecord {
    WireRecord {
        id: id.to_string(),
        name: "www".to_string(),
        ttl,
        typ: typ.to_string(),
        value: value.to_string(),
        zone_id: zone_id.to_string(),
    }
}

fn meta(total_entries: u32) -> Meta {
    Meta { pagination: Pagination { last_page: 1, page: 1, per_page: 100, total_entries } }
}

fn failed<T>(status: u16) -> Result<T, Failure<&'static str>> {
    Err(Failure { status: Some(status), cause: "cause" })
}

fn bare(method: Method, url: &str) -> Request {
    Request { method, url: url.to_string(), body: None }
}

fn member(name: &str, value: &str) -> (String, String) {
    (name.to_string(), value.to_string())
}

#[test]
fn a_provider_takes_a_key_that_fits_a_header() {
    assert!(HetznerProvider::new("abcDEF0123456789").is_ok());
    assert!(HetznerProvider::new("").is_ok());
    assert!(HetznerProvider::new("with space and\ttab").is_ok());
    assert!(HetznerProvider::new("schlüssel").is_ok());
    assert!(Client::new("~!@#$%^&*()").is_ok());
}

#[test]
fn a_provider_refuses_a_key_that_breaks_a_header() {
    for key in ["line\nbreak", "carriage\rreturn", "nul\0", "del\u{7f}", "\u{1}", "bell\u{7}"] {
        assert!(HetznerProvider::new(key).is_err(), "{:?}", key);
        assert_eq!(Client::new(key).err(), Some(InvalidApiKey));
    }
}

#[test]
fn the_client_holds_the_key_as_a_sensitive_header() {
    let provider = HetznerProvider::new("token-123").unwrap();
    let header = provider.api_client().auth_header();
    assert_eq!(header.as_bytes(), b"token-123");
    assert!(header.is_sensitive());
    assert_eq!(AUTH_HEADER, "Auth-API-Token");
}

#[test]
fn requests_name_the_remote_objects() {
    assert_eq!(HETZNER_API_URL, "https://dns.hetzner.com/api/v1");
    assert_eq!(
        Client::retrieve_zones(1, 100),
        bare(Method::Get, "https://dns.hetzner.com/api/v1/zones?page=1&per_page=100")
    );
    assert_eq!(
        Client::retrieve_zones(4294967295, 0),
        bare(Method::Get, "https://dns.hetzner.com/api/v1/zones?page=4294967295&per_page=0")
    );
    assert_eq!(Client::retrieve_zone("abc"), bare(Method::Get, "https://dns.hetzner.com/api/v1/zones/abc"));
    assert_eq!(Client::delete_zone("abc"), bare(Method::Delete, "https://dns.hetzner.com/api/v1/zones/abc"));
    assert_eq!(
        Client::retrieve_records("z1", 3, 100),
        bare(Method::Get, "https://dns.hetzner.com/api/v1/records?zone_id=z1&page=3&per_page=100")
    );
    assert_eq!(Client::retrieve_record("r1"), bare(Method::Get, "https://dns.hetzner.com/api/v1/records/r1"));
    assert_eq!(
        Client::delete_record("r1"),
        bare(Method::Delete, "https://dns.hetzner.com/api/v1/records/r1")
    );
}

#[test]
fn creation_requests_carry_a_body() {
    assert_eq!(
        Client::create_zone("example.com"),
        Request {
            method: Method::Post,
            url: "https://dns.hetzner.com/api/v1/zones".to_string(),
            body: Some(vec![member("name", "example.com")]),
        }
    );
    assert_eq!(
        Client::create_record("z1", "www", "A", "192.0.2.1", Some(300)),
        Request {
            method: Method::Post,
            url: "https://dns.hetzner.com/api/v1/records".to_string(),
            body: Some(vec![
                member("zone_id", "z1"),
                member("name", "www"),
                member("type", "A"),
                member("value", "192.0.2.1"),
                member("ttl", "300"),
            ]),
        }
    );
    assert_eq!(
        Client::create_record("z1", "www", "A", "192.0.2.1", None).body,
        Some(vec![
            member("zone_id", "z1"),
            member("name", "www"),
            member("type", "A"),
            member("value", "192.0.2.1"),
        ])
    );
}

#[test]
fn the_binding_asks_for_the_page_that_is_due() {
    let provider = provider();
    let collector = provider.list_zones();
    assert_eq!(PER_PAGE, 100);
    assert_eq!(provider.list_zones_request(&collector), Client::retrieve_zones(1, 100));
    let zone = zone();
    let collector = zone.list_records();
    assert_eq!(zone.list_records_request(&collector), Client::retrieve_records("zone-1", 1, 100));
    assert_eq!(provider.get_zone_request("z"), Client::retrieve_zone("z"));
    assert_eq!(provider.create_zone_request("example.org"), Client::create_zone("example.org"));
    assert_eq!(provider.delete_zone_request("z"), Client::delete_zone("z"));
    assert_eq!(zone.get_record_request("r"), Client::retrieve_record("r"));
    assert_eq!(zone.delete_record_lookup("r"), Client::retrieve_record("r"));
}

#[test]
fn listing_zones_drains_every_page() {
    let provider = provider();
    let all: Vec<WireZone> = (0..250).map(|i| wire_zone(&format!("z{}", i), "example.com", 60)).collect();
    let mut collector = provider.list_zones();
    let mut requests = Vec::new();
    let zones = loop {
        let request = provider.list_zones_request(&collector);
        let page = collector.page() as usize;
        requests.push(request.url);
        let start = ((page - 1) * 100).min(all.len());
        let end = (page * 100).min(all.len());
        let reply: Result<ZonesResponse, Failure<&'static str>> =
            Ok(ZonesResponse { meta: meta(250), zones: all[start..end].to_vec() });
        match collector.step(provider.fetched_zones(reply)) {
            Step::Fetch(next) => collector = next,
            Step::Done(zones) => break zones,
            Step::Failed(error) => panic!("{:?}", error),
        }
    };
    assert_eq!(
        requests,
        vec![
            "https://dns.hetzner.com/api/v1/zones?page=1&per_page=100",
            "https://dns.hetzner.com/api/v1/zones?page=2&per_page=100",
            "https://dns.hetzner.com/api/v1/zones?page=3&per_page=100",
        ]
    );
    assert_eq!(zones.len(), 250);
    for (i, zone) in zones.iter().enumerate() {
        assert_eq!(zone.id(), format!("z{}", i));
        assert_eq!(zone.domain(), "example.com");
        assert_eq!(zone.repr, all[i]);
    }
}

#[test]
fn a_missing_first_page_lists_nothing() {
    let provider = provider();
    let fetched = provider.fetched_zones(failed::<ZonesResponse>(404));
    assert_eq!(fetched, Fetched::NotFound);
    assert_eq!(provider.list_zones().step(fetched), Step::Done(vec![]));
    let zone = zone();
    let fetched = zone.fetched_records(failed::<RecordsResponse>(404));
    assert_eq!(fetched, Fetched::NotFound);
    assert_eq!(zone.list_records().step(fetched), Step::Done(vec![]));
}

#[test]
fn a_failed_page_fails_the_listing() {
    let provider = provider();
    assert_eq!(
        provider.fetched_zones(failed::<ZonesResponse>(401)),
        Fetched::Failed(RetrieveZoneError::Unauthorized)
    );
    assert_eq!(
        provider.fetched_zones(failed::<ZonesResponse>(403)),
        Fetched::Failed(RetrieveZoneError::Unauthorized)
    );
    assert_eq!(
        provider.fetched_zones(failed::<ZonesResponse>(500)),
        Fetched::Failed(RetrieveZoneError::Custom("cause"))
    );
    let zone = zone();
    assert_eq!(
        zone.fetched_records(failed::<RecordsResponse>(401)),
        Fetched::Failed(RetrieveRecordError::Unauthorized)
    );
    assert_eq!(
        zone.fetched_records(Err(Failure { status: None, cause: "offline" })),
        Fetched::Failed(RetrieveRecordError::Custom("offline"))
    );
    assert_eq!(
        zone.list_records().step(zone.fetched_records(failed::<RecordsResponse>(500))),
        Step::Failed(RetrieveRecordError::Custom("cause"))
    );
}

#[test]
fn listed_records_are_decoded_with_the_default_ttl() {
    let zone = zone();
    let reply: Result<RecordsResponse, Failure<&'static str>> = Ok(RecordsResponse {
        meta: meta(3),
        records: vec![
            wire_record("r1", "zone-1", "A", "192.0.2.1", None),
            wire_record("r2", "zone-1", "MX", "10 mail.example.com", Some(60)),
            wire_record("r3", "zone-1", "MX", "bad", Some(0)),
        ],
    });
    let expected = vec![
        Record {
            id: "r1".to_string(),
            host: "www".to_string(),
            data: RecordData::A(Ipv4Addr::new(192, 0, 2, 1)),
            ttl: 3600,
        },
        Record {
            id: "r2".to_string(),
            host: "www".to_string(),
            data: RecordData::MX { priority: 10, mail_server: "mail.example.com".to_string() },
            ttl: 60,
        },
        Record {
            id: "r3".to_string(),
            host: "www".to_string(),
            data: RecordData::Other { typ: "MX".to_string(), value: "bad".to_string() },
            ttl: 0,
        },
    ];
    let fetched = zone.fetched_records(reply);
    assert_eq!(fetched, Fetched::Page(Page { items: expected.clone(), total_entries: 3 }));
    assert_eq!(zone.list_records().step(fetched), Step::Done(expected));
}

#[test]
fn into_generic_takes_the_default_ttl_where_none_is_given() {
    let record = wire_record("r", "z", "AAAA", "::1", None).into_generic(86400);
    assert_eq!(record.ttl, 86400);
    assert_eq!(record.id, "r");
    assert_eq!(record.host, "www");
    assert_eq!(record.data, RecordData::AAAA(Ipv6Addr::new(0, 0, 0, 0, 0, 0, 0, 1)));
    assert_eq!(wire_record("r", "z", "TXT", "x", Some(5)).into_generic(86400).ttl, 5);
}

#[test]
fn zones_come_back_as_they_were_described() {
    let provider = provider();
    let described = wire_zone("z9", "example.net", 120);
    let reply: Result<ZoneResponse, Failure<&'static str>> = Ok(ZoneResponse { zone: described.clone() });
    let zone = provider.get_zone(reply).unwrap();
    assert_eq!(zone.repr, described);
    assert_eq!(zone.id(), "z9");
    assert_eq!(zone.domain(), "example.net");
    let reply: Result<ZoneResponse, Failure<&'static str>> = Ok(ZoneResponse { zone: described.clone() });
    assert_eq!(provider.create_zone(reply), Ok(HetznerZone { repr: described }));
}

#[test]
fn statuses_map_to_the_errors_of_each_capability() {
    let provider = provider();
    let zone = zone();
    assert_eq!(provider.get_zone(failed(401)), Err(RetrieveZoneError::Unauthorized));
    assert_eq!(provider.get_zone(failed(404)), Err(RetrieveZoneError::NotFound));
    assert_eq!(provider.get_zone(failed(500)), Err(RetrieveZoneError::Custom("cause")));
    assert_eq!(provider.create_zone(failed(401)), Err(CreateZoneError::Unauthorized));
    assert_eq!(provider.create_zone(failed(422)), Err(CreateZoneError::InvalidDomainName));
    assert_eq!(provider.create_zone(failed(500)), Err(CreateZoneError::Custom("cause")));
    assert_eq!(provider.delete_zone(failed(401)), Err(DeleteZoneError::Unauthorized));
    assert_eq!(provider.delete_zone(failed(404)), Err(DeleteZoneError::NotFound));
    assert_eq!(provider.delete_zone(failed(500)), Err(DeleteZoneError::Custom("cause")));
    assert_eq!(provider.delete_zone::<&'static str>(Ok(())), Ok(()));
    assert_eq!(zone.get_record(failed(401)), Err(RetrieveRecordError::Unauthorized));
    assert_eq!(zone.get_record(failed(404)), Err(RetrieveRecordError::NotFound));
    assert_eq!(zone.get_record(failed(500)), Err(RetrieveRecordError::Custom("cause")));
    assert_eq!(zone.create_record(failed(401)), Err(CreateRecordError::Unauthorized));
    assert_eq!(zone.create_record(failed(422)), Err(CreateRecordError::InvalidRecord));
    assert_eq!(zone.create_record(failed(500)), Err(CreateRecordError::Custom("cause")));
    assert_eq!(zone.delete_record(failed(401)), Err(DeleteRecordError::Unauthorized));
    assert_eq!(zone.delete_record(failed(404)), Err(DeleteRecordError::NotFound));
    assert_eq!(zone.delete_record(failed(500)), Err(DeleteRecordError::Custom("cause")));
    assert_eq!(zone.delete_record::<&'static str>(Ok(())), Ok(()));
}

#[test]
fn a_record_of_another_zone_is_not_found() {
    let zone = zone();
    let reply: Result<RecordResponse, Failure<&'static str>> =
        Ok(RecordResponse { record: wire_record("r1", "zone-2", "A", "192.0.2.1", None) });
    assert_eq!(zone.get_record(reply), Err(RetrieveRecordError::NotFound));
    let reply: Result<RecordResponse, Failure<&'static str>> =
        Ok(RecordResponse { record: wire_record("r1", "zone-1", "A", "192.0.2.1", None) });
    assert_eq!(
        zone.get_record(reply),
        Ok(Record {
            id: "r1".to_string(),
            host: "www".to_string(),
            data: RecordData::A(Ipv4Addr::new(192, 0, 2, 1)),
            ttl: 3600,
        })
    );
}

#[test]
fn create_record_refuses_an_unsupported_type_without_a_request() {
    let zone = zone();
    let data = RecordData::Other { typ: "SPF".to_string(), value: "v=spf1".to_string() };
    let result: Result<Request, CreateRecordError<&'static str>> = zone.create_record_request("www", &data, 300);
    assert_eq!(result, Err(CreateRecordError::UnsupportedType));
    let data = RecordData::Other { typ: "a".to_string(), value: "192.0.2.1".to_string() };
    let result: Result<Request, CreateRecordError<&'static str>> = zone.create_record_request("www", &data, 300);
    assert_eq!(result, Err(CreateRecordError::UnsupportedType));
}

#[test]
fn create_record_sends_the_wire_pair() {
    let zone = zone();
    let data = RecordData::MX { priority: 10, mail_server: "mail.example.com".to_string() };
    let result: Result<Request, CreateRecordError<&'static str>> = zone.create_record_request("@", &data, 300);
    assert_eq!(result, Ok(Client::create_record("zone-1", "@", "MX", "10 mail.example.com", Some(300))));
    let data = RecordData::AAAA(Ipv6Addr::new(0x2001, 0xdb8, 0, 0, 0, 0, 0, 1));
    let result: Result<Request, CreateRecordError<&'static str>> = zone.create_record_request("v6", &data, 1);
    assert_eq!(result, Ok(Client::create_record("zone-1", "v6", "AAAA", "2001:db8::1", Some(1))));
    let data = RecordData::Other { typ: "CAA".to_string(), value: "0 issue x".to_string() };
    let result: Result<Request, CreateRecordError<&'static str>> = zone.create_record_request("c", &data, 0);
    assert_eq!(result, Ok(Client::create_record("zone-1", "c", "CAA", "0 issue x", Some(0))));
}

#[test]
fn create_record_leaves_the_default_ttl_out() {
    let zone = zone();
    let data = RecordData::TXT("hello".to_string());
    let result: Result<Request, CreateRecordError<&'static str>> = zone.create_record_request("t", &data, 3600);
    let request = result.unwrap();
    assert_eq!(request, Client::create_record("zone-1", "t", "TXT", "hello", None));
    assert!(request.body.unwrap().iter().all(|(name, _)| name != "ttl"));
}

#[test]
fn supported_types_are_the_fourteen() {
    for typ in ["A", "AAAA", "NS", "MX", "CNAME", "RP", "TXT", "SOA", "HINFO", "SRV", "DANE", "TLSA", "DS", "CAA"] {
        assert!(supports(typ), "{}", typ);
    }
    for typ in ["", "a", "SPF", "PTR", "AAA", "AAAAA", "MX ", "ANY", "caa"] {
        assert!(!supports(typ), "{:?}", typ);
    }
}

#[test]
fn the_created_record_comes_back_generic() {
    let zone = zone();
    let reply: Result<RecordResponse, Failure<&'static str>> =
        Ok(RecordResponse { record: wire_record("new", "zone-1", "SRV", "1 2 3 t", None) });
    assert_eq!(
        zone.create_record(reply),
        Ok(Record {
            id: "new".to_string(),
            host: "www".to_string(),
            data: RecordData::SRV { priority: 1, weight: 2, port: 3, target: "t".to_string() },
            ttl: 3600,
        })
    );
}

#[test]
fn delete_record_refuses_a_record_of_another_zone() {
    let zone = zone();
    let looked_up: Result<RecordResponse, Failure<&'static str>> =
        Ok(RecordResponse { record: wire_record("r1", "zone-2", "A", "192.0.2.1", None) });
    assert_eq!(zone.delete_record_request("r1", looked_up), Err(DeleteRecordError::NotFound));
}

#[test]
fn delete_record_deletes_a_record_of_its_zone() {
    let zone = zone();
    let looked_up: Result<RecordResponse, Failure<&'static str>> =
        Ok(RecordResponse { record: wire_record("r1", "zone-1", "A", "192.0.2.1", None) });
    assert_eq!(zone.delete_record_request("r1", looked_up), Ok(Client::delete_record("r1")));
}

#[test]
fn delete_record_ends_with_the_error_of_the_lookup() {
    let zone = zone();
    assert_eq!(zone.delete_record_request("r1", failed(404)), Err(DeleteRecordError::NotFound));
    assert_eq!(zone.delete_record_request("r1", failed(401)), Err(DeleteRecordError::Unauthorized));
    assert_eq!(zone.delete_record_request("r1", failed(403)), Err(DeleteRecordError::Unauthorized));
    assert_eq!(zone.delete_record_request("r1", failed(500)), Err(DeleteRecordError::Custom("cause")));
}

#[test]
fn a_transport_error_keeps_its_status() {
    for (code, expected) in [(404u16, Some(404u16)), (401, Some(401)), (500, Some(500)), (422, Some(422))] {
        let response = http::Response::builder().status(code).body("").unwrap();
        let error = reqwest::Response::from(response).error_for_status().unwrap_err();
        let failure = failure(error);
        assert_eq!(failure.status, expected);
        assert!(failure.cause.is_status());
    }
    let error = reqwest::blocking::Client::new().get("not a url").build().unwrap_err();
    let failure = failure(error);
    assert_eq!(failure.status, None);
    assert!(failure.cause.is_builder());
}

#[test]
fn a_transport_error_maps_by_its_status() {
    let response = http::Response::builder().status(401).body("").unwrap();
    let error = reqwest::Response::from(response).error_for_status().unwrap_err();
    assert!(matches!(provider().get_zone(Err(failure(error))), Err(RetrieveZoneError::Unauthorized)));
    let response = http::Response::builder().status(404).body("").unwrap();
    let error = reqwest::Response::from(response).error_for_status().unwrap_err();
    assert!(matches!(zone().get_record(Err(failure(error))), Err(RetrieveRecordError::NotFound)));
    let response = http::Response::builder().status(500).body("").unwrap();
    let error = reqwest::Response::from(response).error_for_status().unwrap_err();
    match provider().get_zone(Err(failure(error))) {
        Err(RetrieveZoneError::Custom(cause)) => assert_eq!(cause.status().map(|s| s.as_u16()), Some(500)),
        other => panic!("{:?}", other.map(|zone| zone.repr)),
    }
}
