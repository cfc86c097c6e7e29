use libdns::ipv4::Ipv4Addr;
use libdns::ipv6::Ipv6Addr;
use libdns::RecordData;

fn other(typ: &str, value: &str) -> RecordData {
    RecordData::Other { typ: typ.to_string(), value: value.to_string() }
}

fn mx(priority: u16, mail_server: &str) -> RecordData {
    RecordData::MX { priority, mail_server: mail_server.to_string() }
}

fn srv(priority: u16, weight: u16, port: u16, target: &str) -> RecordData {
    RecordData::SRV { priority, weight, port, target: target.to_string() }
}

fn round_trips(typ: &str, value: &str) {
    let data = RecordData::from_raw(typ, value);
    let again = RecordData::from_raw(data.get_type(), &data.get_value());
    assert_eq!(again, data, "{} {:?}", typ, value);
}

#[test]
fn from_raw_reads_mx() {
    assert_eq!(RecordData::from_raw("MX", "10 mail.example.com"), mx(10, "mail.example.com"));
}

#[test]
fn from_raw_keeps_malformed_mx() {
    assert_eq!(RecordData::from_raw("MX", "bad"), other("MX", "bad"));
}

#[test]
fn from_raw_reads_srv() {
    assert_eq!(
        RecordData::from_raw("SRV", "10 20 5060 sip.example.com"),
        srv(10, 20, 5060, "sip.example.com")
    );
}

#[test]
fn from_raw_reads_a() {
    assert_eq!(RecordData::from_raw("A", "192.0.2.1"), RecordData::A(Ipv4Addr::new(192, 0, 2, 1)));
}

#[test]
fn from_raw_keeps_malformed_a() {
    assert_eq!(RecordData::from_raw("A", "192.0.2"), other("A", "192.0.2"));
    assert_eq!(RecordData::from_raw("A", "192.0.2.256"), other("A", "192.0.2.256"));
    assert_eq!(RecordData::from_raw("A", "::1"), other("A", "::1"));
    assert_eq!(RecordData::from_raw("A", ""), other("A", ""));
}

#[test]
fn from_raw_reads_aaaa() {
    assert_eq!(
        RecordData::from_raw("AAAA", "2001:db8::1"),
        RecordData::AAAA(Ipv6Addr::new(0x2001, 0xdb8, 0, 0, 0, 0, 0, 1))
    );
}

#[test]
fn from_raw_keeps_malformed_aaaa() {
    assert_eq!(RecordData::from_raw("AAAA", "2001:db8:::1"), other("AAAA", "2001:db8:::1"));
    assert_eq!(RecordData::from_raw("AAAA", "192.0.2.1"), other("AAAA", "192.0.2.1"));
}

#[test]
fn from_raw_takes_names_and_text_verbatim() {
    assert_eq!(
        RecordData::from_raw("CNAME", " www.example.com. "),
        RecordData::CNAME(" www.example.com. ".to_string())
    );
    assert_eq!(RecordData::from_raw("NS", "ns1.example.com"), RecordData::NS("ns1.example.com".to_string()));
    assert_eq!(
        RecordData::from_raw("TXT", "v=spf1 include:example.com ~all"),
        RecordData::TXT("v=spf1 include:example.com ~all".to_string())
    );
    assert_eq!(RecordData::from_raw("TXT", ""), RecordData::TXT(String::new()));
}

#[test]
fn from_raw_keeps_unknown_types() {
    assert_eq!(RecordData::from_raw("CAA", "0 issue \"letsencrypt.org\""), other("CAA", "0 issue \"letsencrypt.org\""));
    assert_eq!(RecordData::from_raw("", ""), other("", ""));
}

#[test]
fn type_tags_are_case_sensitive() {
    assert_eq!(RecordData::from_raw("mx", "10 mail.example.com"), other("mx", "10 mail.example.com"));
    assert_eq!(RecordData::from_raw("a", "192.0.2.1"), other("a", "192.0.2.1"));
    assert_eq!(RecordData::from_raw("Txt", "x"), other("Txt", "x"));
    assert_eq!(RecordData::from_raw("MX ", "10 mail.example.com"), other("MX ", "10 mail.example.com"));
}

#[test]
fn mx_needs_exactly_two_tokens() {
    assert_eq!(RecordData::from_raw("MX", ""), other("MX", ""));
    assert_eq!(RecordData::from_raw("MX", "10"), other("MX", "10"));
    assert_eq!(
        RecordData::from_raw("MX", "10 mail.example.com extra"),
        other("MX", "10 mail.example.com extra")
    );
    assert_eq!(RecordData::from_raw("MX", "mail.example.com 10"), other("MX", "mail.example.com 10"));
}

#[test]
fn mx_priority_is_a_u16() {
    assert_eq!(RecordData::from_raw("MX", "0 m"), mx(0, "m"));
    assert_eq!(RecordData::from_raw("MX", "65535 m"), mx(65535, "m"));
    assert_eq!(RecordData::from_raw("MX", "65536 m"), other("MX", "65536 m"));
    assert_eq!(RecordData::from_raw("MX", "-1 m"), other("MX", "-1 m"));
    assert_eq!(RecordData::from_raw("MX", "1x m"), other("MX", "1x m"));
    assert_eq!(RecordData::from_raw("MX", "+ m"), other("MX", "+ m"));
    assert_eq!(RecordData::from_raw("MX", "+7 m"), mx(7, "m"));
    assert_eq!(RecordData::from_raw("MX", "007 m"), mx(7, "m"));
    assert_eq!(RecordData::from_raw("MX", "99999999999999999999 m"), other("MX", "99999999999999999999 m"));
}

#[test]
fn tokens_are_separated_by_any_whitespace() {
    assert_eq!(RecordData::from_raw("MX", "  10 \t mail.example.com\n"), mx(10, "mail.example.com"));
    assert_eq!(RecordData::from_raw("MX", "10\u{a0}mail.example.com"), mx(10, "mail.example.com"));
    assert_eq!(RecordData::from_raw("MX", "10\u{3000}mail.example.com"), mx(10, "mail.example.com"));
    assert_eq!(RecordData::from_raw("SRV", "1\t2\n3\r\nhost"), srv(1, 2, 3, "host"));
}

#[test]
fn srv_needs_exactly_four_tokens() {
    assert_eq!(RecordData::from_raw("SRV", "10 20 5060"), other("SRV", "10 20 5060"));
    assert_eq!(
        RecordData::from_raw("SRV", "10 20 5060 sip.example.com x"),
        other("SRV", "10 20 5060 sip.example.com x")
    );
    assert_eq!(
        RecordData::from_raw("SRV", "10 20 70000 sip.example.com"),
        other("SRV", "10 20 70000 sip.example.com")
    );
    assert_eq!(
        RecordData::from_raw("SRV", "10 x 5060 sip.example.com"),
        other("SRV", "10 x 5060 sip.example.com")
    );
    assert_eq!(RecordData::from_raw("SRV", "0 0 0 ."), srv(0, 0, 0, "."));
    assert_eq!(RecordData::from_raw("SRV", "65535 65535 65535 t"), srv(65535, 65535, 65535, "t"));
}

#[test]
fn get_type_names_each_variant() {
    assert_eq!(RecordData::A(Ipv4Addr::new(1, 2, 3, 4)).get_type(), "A");
    assert_eq!(RecordData::AAAA(Ipv6Addr::new(0, 0, 0, 0, 0, 0, 0, 1)).get_type(), "AAAA");
    assert_eq!(RecordData::CNAME("x".to_string()).get_type(), "CNAME");
    assert_eq!(mx(1, "x").get_type(), "MX");
    assert_eq!(RecordData::NS("x".to_string()).get_type(), "NS");
    assert_eq!(srv(1, 2, 3, "x").get_type(), "SRV");
    assert_eq!(RecordData::TXT("x".to_string()).get_type(), "TXT");
    assert_eq!(other("CAA", "x").get_type(), "CAA");
}

#[test]
fn get_value_writes_each_variant() {
    assert_eq!(RecordData::A(Ipv4Addr::new(192, 0, 2, 1)).get_value(), "192.0.2.1");
    assert_eq!(
        RecordData::AAAA(Ipv6Addr::new(0x2001, 0xdb8, 0, 0, 0, 0, 0, 1)).get_value(),
        "2001:db8::1"
    );
    assert_eq!(RecordData::CNAME("www.example.com".to_string()).get_value(), "www.example.com");
    assert_eq!(mx(10, "mail.example.com").get_value(), "10 mail.example.com");
    assert_eq!(RecordData::NS("ns.example.com".to_string()).get_value(), "ns.example.com");
    assert_eq!(srv(10, 20, 5060, "sip.example.com").get_value(), "10 20 5060 sip.example.com");
    assert_eq!(srv(0, 65535, 1, "t").get_value(), "0 65535 1 t");
    assert_eq!(RecordData::TXT("a  b".to_string()).get_value(), "a  b");
    assert_eq!(other("CAA", "0 issue x").get_value(), "0 issue x");
}

#[test]
fn decoded_pairs_round_trip() {
    let pairs = [
        ("A", "192.0.2.1"),
        ("A", "0.0.0.0"),
        ("A", "255.255.255.255"),
        ("A", "not an address"),
        ("A", "01.2.3.4"),
        ("AAAA", "::"),
        ("AAAA", "::1"),
        ("AAAA", "2001:DB8:0:0:1:0:0:1"),
        ("AAAA", "::ffff:192.0.2.1"),
        ("AAAA", "1:2:3:4:5:6:7:8"),
        ("AAAA", "1:0:0:2:0:0:0:3"),
        ("AAAA", "fe80::1%eth0"),
        ("CNAME", "www.example.com"),
        ("CNAME", ""),
        ("MX", "10 mail.example.com"),
        ("MX", " 010\tmail.example.com "),
        ("MX", "+0 x"),
        ("MX", "bad"),
        ("NS", "ns1.example.com"),
        ("SRV", "10 20 5060 sip.example.com"),
        ("SRV", "  1   2   3   t  "),
        ("SRV", "1 2 3"),
        ("TXT", "some text with  spaces"),
        ("CAA", "0 issue \"ca.example\""),
        ("", "x"),
        ("mx", "10 mail.example.com"),
    ];
    for (typ, value) in pairs {
        round_trips(typ, value);
    }
}

#[test]
fn failed_parses_keep_both_strings() {
    for (typ, value) in [("A", "1.2.3"), ("AAAA", "g::1"), ("MX", "x y"), ("SRV", "1 2 3 4 5"), ("SPF", "v")] {
        let data = RecordData::from_raw(typ, value);
        assert_eq!(data, other(typ, value));
        assert_eq!(data.get_type(), typ);
        assert_eq!(data.get_value(), value);
    }
}

#[test]
fn normalized_values_are_stable() {
    let data = RecordData::from_raw("MX", "  007   Mail.Example.COM  ");
    assert_eq!(data.get_value(), "7 Mail.Example.COM");
    let data = RecordData::from_raw("AAAA", "2001:0DB8:0000:0000:0000:0000:0000:0001");
    assert_eq!(data.get_value(), "2001:db8::1");
}
