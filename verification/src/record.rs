//! DNS records and the codec between typed record data and the flat pair of
//! a type tag and a value string that goes over the wire.

use vstd::prelude::*;
use vstd::string::*;
use crate::ipv4::{format_ipv4, lemma_ipv4_reads_back, parse_ipv4, Ipv4Addr};
use crate::ipv6::{format_ipv6, lemma_ipv6_reads_back, parse_ipv6, Ipv6Addr};
use crate::numeral::{
    lemma_numeral_reads_back, numeral, parse_u16, push_numeral, read_u16,
};
use crate::text::{
    is_solid, lemma_tokens_are_solid, lemma_tokens_of_word, lemma_tokens_of_word_then, same_text,
    to_chars, token_spans, tokens,
};

verus! {

/// A DNS record value.
#[derive(Debug, PartialEq, Eq, Clone, Hash)]
pub enum RecordData {
    A(Ipv4Addr),
    AAAA(Ipv6Addr),
    CNAME(String),
    MX { priority: u16, mail_server: String },
    NS(String),
    SRV { priority: u16, weight: u16, port: u16, target: String },
    TXT(String),
    Other { typ: String, value: String },
}

/// The mathematical content of a [`RecordData`].
pub ghost enum RecordDataView {
    A(Seq<u8>),
    AAAA(Seq<u16>),
    CNAME(Seq<char>),
    MX { priority: u16, mail_server: Seq<char> },
    NS(Seq<char>),
    SRV { priority: u16, weight: u16, port: u16, target: Seq<char> },
    TXT(Seq<char>),
    Other { typ: Seq<char>, value: Seq<char> },
}

impl View for RecordData {
    type V = RecordDataView;

    open spec fn view(&self) -> RecordDataView {
        match *self {
            RecordData::A(addr) => RecordDataView::A(addr@),
            RecordData::AAAA(addr) => RecordDataView::AAAA(addr@),
            RecordData::CNAME(name) => RecordDataView::CNAME(name@),
            RecordData::MX { priority, mail_server } => RecordDataView::MX {
                priority,
                mail_server: mail_server@,
            },
            RecordData::NS(name) => RecordDataView::NS(name@),
            RecordData::SRV { priority, weight, port, target } => RecordDataView::SRV {
                priority,
                weight,
                port,
                target: target@,
            },
            RecordData::TXT(text) => RecordDataView::TXT(text@),
            RecordData::Other { typ, value } => RecordDataView::Other { typ: typ@, value: value@ },
        }
    }
}

/// What an `MX` value reads as: exactly two whitespace-separated tokens, a
/// priority and a mail server.
pub open spec fn decode_mx(value: Seq<char>) -> Option<RecordDataView> {
    let t = tokens(value);
    if t.len() == 2 && parse_u16(t[0]) is Some {
        Some(RecordDataView::MX { priority: parse_u16(t[0]).unwrap(), mail_server: t[1] })
    } else {
        None
    }
}

/// What an `SRV` value reads as: exactly four whitespace-separated tokens,
/// a priority, a weight, a port and a target.
pub open spec fn decode_srv(value: Seq<char>) -> Option<RecordDataView> {
    let t = tokens(value);
    if t.len() == 4 && parse_u16(t[0]) is Some && parse_u16(t[1]) is Some && parse_u16(t[2]) is Some {
        Some(
            RecordDataView::SRV {
                priority: parse_u16(t[0]).unwrap(),
                weight: parse_u16(t[1]).unwrap(),
                port: parse_u16(t[2]).unwrap(),
                target: t[3],
            },
        )
    } else {
        None
    }
}

/// What the value of a record of a known type reads as, if the type is
/// known and the value has the shape that the type asks for. Type tags are
/// case-sensitive.
pub open spec fn decode_known(typ: Seq<char>, value: Seq<char>) -> Option<RecordDataView> {
    if typ == "A"@ {
        match parse_ipv4(value) {
            Some(octets) => Some(RecordDataView::A(octets)),
            None => None,
        }
    } else if typ == "AAAA"@ {
        match parse_ipv6(value) {
            Some(groups) => Some(RecordDataView::AAAA(groups)),
            None => None,
        }
    } else if typ == "CNAME"@ {
        Some(RecordDataView::CNAME(value))
    } else if typ == "MX"@ {
        decode_mx(value)
    } else if typ == "NS"@ {
        Some(RecordDataView::NS(value))
    } else if typ == "SRV"@ {
        decode_srv(value)
    } else if typ == "TXT"@ {
        Some(RecordDataView::TXT(value))
    } else {
        None
    }
}

/// The record data that the wire pair `(typ, value)` stands for. Whatever
/// does not read as a known type is kept verbatim as `Other`.
pub open spec fn decode(typ: Seq<char>, value: Seq<char>) -> RecordDataView {
    match decode_known(typ, value) {
        Some(data) => data,
        None => RecordDataView::Other { typ, value },
    }
}

/// The type tag under which record data goes over the wire.
pub open spec fn type_of(data: RecordDataView) -> Seq<char> {
    match data {
        RecordDataView::A(_) => "A"@,
        RecordDataView::AAAA(_) => "AAAA"@,
        RecordDataView::CNAME(_) => "CNAME"@,
        RecordDataView::MX { .. } => "MX"@,
        RecordDataView::NS(_) => "NS"@,
        RecordDataView::SRV { .. } => "SRV"@,
        RecordDataView::TXT(_) => "TXT"@,
        RecordDataView::Other { typ, .. } => typ,
    }
}

/// The value string under which record data goes over the wire. The fields
/// of `MX` and `SRV` are written in the order in which they are read, with
/// single spaces between them and the numbers in decimal.
pub open spec fn value_of(data: RecordDataView) -> Seq<char> {
    match data {
        RecordDataView::A(octets) => format_ipv4(octets),
        RecordDataView::AAAA(groups) => format_ipv6(groups),
        RecordDataView::CNAME(name) => name,
        RecordDataView::MX { priority, mail_server } => numeral(priority as nat, 10) + seq![' ']
            + mail_server,
        RecordDataView::NS(name) => name,
        RecordDataView::SRV { priority, weight, port, target } => numeral(priority as nat, 10)
            + seq![' '] + numeral(weight as nat, 10) + seq![' '] + numeral(port as nat, 10)
            + seq![' '] + target,
        RecordDataView::TXT(text) => text,
        RecordDataView::Other { value, .. } => value,
    }
}

/// Reads an `MX` value.
fn read_mx(value: &str) -> (data: Option<RecordData>)
    ensures
        match data {
            Some(d) => decode_mx(value@) == Some(d@),
            None => decode_mx(value@) is None,
        },
{
    let chars = to_chars(value);
    let spans = token_spans(&chars);
    if spans.len() != 2 {
        return None;
    }
    let (from, to) = spans[0];
    let (server_from, server_to) = spans[1];
    match read_u16(&chars, from, to) {
        Some(priority) => {
            let mail_server = value.substring_char(server_from, server_to).to_owned();
            Some(RecordData::MX { priority, mail_server })
        },
        None => None,
    }
}

/// Reads an `SRV` value.
fn read_srv(value: &str) -> (data: Option<RecordData>)
    ensures
        match data {
            Some(d) => decode_srv(value@) == Some(d@),
            None => decode_srv(value@) is None,
        },
{
    let chars = to_chars(value);
    let spans = token_spans(&chars);
    if spans.len() != 4 {
        return None;
    }
    let (from0, to0) = spans[0];
    let (from1, to1) = spans[1];
    let (from2, to2) = spans[2];
    let (from3, to3) = spans[3];
    let priority = match read_u16(&chars, from0, to0) {
        Some(number) => number,
        None => {
            return None;
        },
    };
    let weight = match read_u16(&chars, from1, to1) {
        Some(number) => number,
        None => {
            return None;
        },
    };
    let port = match read_u16(&chars, from2, to2) {
        Some(number) => number,
        None => {
            return None;
        },
    };
    let target = value.substring_char(from3, to3).to_owned();
    Some(RecordData::SRV { priority, weight, port, target })
}

/// Reads the value of a record of a known type.
fn read_known(typ: &str, value: &str) -> (data: Option<RecordData>)
    ensures
        match data {
            Some(d) => decode_known(typ@, value@) == Some(d@),
            None => decode_known(typ@, value@) is None,
        },
{
    if same_text(typ, "A") {
        match Ipv4Addr::parse(value) {
            Some(addr) => Some(RecordData::A(addr)),
            None => None,
        }
    } else if same_text(typ, "AAAA") {
        match Ipv6Addr::parse(value) {
            Some(addr) => Some(RecordData::AAAA(addr)),
            None => None,
        }
    } else if same_text(typ, "CNAME") {
        Some(RecordData::CNAME(value.to_owned()))
    } else if same_text(typ, "MX") {
        read_mx(value)
    } else if same_text(typ, "NS") {
        Some(RecordData::NS(value.to_owned()))
    } else if same_text(typ, "SRV") {
        read_srv(value)
    } else if same_text(typ, "TXT") {
        Some(RecordData::TXT(value.to_owned()))
    } else {
        None
    }
}

impl RecordData {
    /// Reads the wire pair of a type tag and a value string as record data.
    ///
    /// This never fails: a pair whose type is not known, or whose value
    /// does not have the shape that its type asks for, is kept verbatim as
    /// [`RecordData::Other`].
    pub fn from_raw(typ: &str, value: &str) -> (data: RecordData)
        ensures
            data@ == decode(typ@, value@),
    {
        match read_known(typ, value) {
            Some(data) => data,
            None => RecordData::Other { typ: typ.to_owned(), value: value.to_owned() },
        }
    }

    /// The type tag under which the data goes over the wire. Every variant
    /// goes under the tag that it is read from, an IPv6 address under
    /// `AAAA`, so that the pair reads back as the same data.
    pub fn get_type(&self) -> (typ: &str)
        ensures
            typ@ == type_of(self@),
    {
        match self {
            RecordData::A(_) => "A",
            RecordData::AAAA(_) => "AAAA",
            RecordData::CNAME(_) => "CNAME",
            RecordData::MX { .. } => "MX",
            RecordData::NS(_) => "NS",
            RecordData::SRV { .. } => "SRV",
            RecordData::TXT(_) => "TXT",
            RecordData::Other { typ, .. } => typ.as_str(),
        }
    }

    /// The value string under which the data goes over the wire.
    pub fn get_value(&self) -> (value: String)
        ensures
            value@ == value_of(self@),
    {
        proof {
            reveal_strlit(" ");
            assert(" "@ =~= seq![' ']);
        }
        match self {
            RecordData::A(addr) => addr.to_string(),
            RecordData::AAAA(addr) => addr.to_string(),
            RecordData::CNAME(name) => name.clone(),
            RecordData::MX { priority, mail_server } => {
                let mut value = String::new();
                push_numeral(&mut value, *priority as u64, 10);
                value.append(" ");
                value.append(mail_server.as_str());
                assert(value@ =~= value_of(self@));
                value
            },
            RecordData::NS(name) => name.clone(),
            RecordData::SRV { priority, weight, port, target } => {
                let mut value = String::new();
                push_numeral(&mut value, *priority as u64, 10);
                value.append(" ");
                push_numeral(&mut value, *weight as u64, 10);
                value.append(" ");
                push_numeral(&mut value, *port as u64, 10);
                value.append(" ");
                value.append(target.as_str());
                assert(value@ =~= value_of(self@));
                value
            },
            RecordData::TXT(text) => text.clone(),
            RecordData::Other { value, .. } => value.clone(),
        }
    }
}

/// The decimal numeral of a 16-bit number is one token without whitespace
/// that reads back as the number.
pub proof fn lemma_u16_numeral(n: u16)
    ensures
        numeral(n as nat, 10).len() > 0,
        is_solid(numeral(n as nat, 10)),
        parse_u16(numeral(n as nat, 10)) == Some(n),
{
    lemma_numeral_reads_back(n as nat, 10);
}

/// What reads as an IPv6 address has eight groups.
pub proof fn lemma_parsed_ipv6_len(s: Seq<char>)
    ensures
        parse_ipv6(s) matches Some(groups) ==> groups.len() == 8,
{
}

/// The type tags of the known types differ from each other.
proof fn lemma_tags_differ()
    ensures
        "A"@.len() == 1,
        "AAAA"@.len() == 4,
        "CNAME"@.len() == 5,
        "MX"@.len() == 2,
        "NS"@.len() == 2,
        "SRV"@.len() == 3,
        "TXT"@.len() == 3,
        "MX"@[0] == 'M',
        "NS"@[0] == 'N',
        "SRV"@[0] == 'S',
        "TXT"@[0] == 'T',
{
    reveal_strlit("A");
    reveal_strlit("AAAA");
    reveal_strlit("CNAME");
    reveal_strlit("MX");
    reveal_strlit("NS");
    reveal_strlit("SRV");
    reveal_strlit("TXT");
}

/// An `MX` value that was written out reads back as what was written.
proof fn lemma_mx_round_trip(priority: u16, mail_server: Seq<char>)
    requires
        mail_server.len() > 0,
        is_solid(mail_server),
    ensures
        decode_mx(value_of(RecordDataView::MX { priority, mail_server })) == Some(
            RecordDataView::MX { priority, mail_server },
        ),
{
    let first = numeral(priority as nat, 10);
    lemma_u16_numeral(priority);
    lemma_tokens_of_word(mail_server);
    lemma_tokens_of_word_then(first, ' ', mail_server);
    assert(seq![first] + seq![mail_server] =~= seq![first, mail_server]);
}

/// An `SRV` value that was written out reads back as what was written.
proof fn lemma_srv_round_trip(priority: u16, weight: u16, port: u16, target: Seq<char>)
    requires
        target.len() > 0,
        is_solid(target),
    ensures
        decode_srv(value_of(RecordDataView::SRV { priority, weight, port, target })) == Some(
            RecordDataView::SRV { priority, weight, port, target },
        ),
{
    let a = numeral(priority as nat, 10);
    let b = numeral(weight as nat, 10);
    let c = numeral(port as nat, 10);
    lemma_u16_numeral(priority);
    lemma_u16_numeral(weight);
    lemma_u16_numeral(port);
    lemma_tokens_of_word(target);
    lemma_tokens_of_word_then(c, ' ', target);
    lemma_tokens_of_word_then(b, ' ', c + seq![' '] + target);
    lemma_tokens_of_word_then(a, ' ', b + seq![' '] + (c + seq![' '] + target));
    let value = value_of(RecordDataView::SRV { priority, weight, port, target });
    assert(value =~= a + seq![' '] + (b + seq![' '] + (c + seq![' '] + target)));
    assert(tokens(value) =~= seq![a, b, c, target]);
}

/// The round-trip law of the codec: whatever record data a wire pair
/// stands for, the pair under which that data goes back over the wire
/// stands for the same data. In particular a pair that does not read as a
/// known type comes back with both of its strings unchanged.
pub proof fn lemma_round_trip(typ: Seq<char>, value: Seq<char>)
    ensures
        decode(type_of(decode(typ, value)), value_of(decode(typ, value))) == decode(typ, value),
        decode_known(typ, value) is None ==> decode(typ, value) == (RecordDataView::Other {
            typ,
            value,
        }),
{
    lemma_tags_differ();
    let data = decode(typ, value);
    match data {
        RecordDataView::A(octets) => {
            lemma_ipv4_reads_back(octets);
        },
        RecordDataView::AAAA(groups) => {
            lemma_parsed_ipv6_len(value);
            lemma_ipv6_reads_back(groups);
        },
        RecordDataView::MX { priority, mail_server } => {
            lemma_tokens_are_solid(value);
            assert(mail_server == tokens(value)[1]);
            lemma_mx_round_trip(priority, mail_server);
        },
        RecordDataView::SRV { priority, weight, port, target } => {
            lemma_tokens_are_solid(value);
            assert(target == tokens(value)[3]);
            lemma_srv_round_trip(priority, weight, port, target);
        },
        _ => {},
    }
}

/// A DNS record: a snapshot of what the remote held when it was retrieved.
#[derive(Debug, PartialEq, Eq, Clone, Hash)]
pub struct Record {
    pub id: String,
    pub host: String,
    pub data: RecordData,
    pub ttl: u64,
}

/// The mathematical content of a [`Record`].
pub ghost struct RecordView {
    pub id: Seq<char>,
    pub host: Seq<char>,
    pub data: RecordDataView,
    pub ttl: u64,
}

impl View for Record {
    type V = RecordView;

    open spec fn view(&self) -> RecordView {
        RecordView { id: self.id@, host: self.host@, data: self.data@, ttl: self.ttl }
    }
}

} // verus!
