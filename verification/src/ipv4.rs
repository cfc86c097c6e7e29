//! IPv4 addresses in dotted-decimal notation.

use vstd::prelude::*;
use vstd::string::*;
use crate::numeral::{
    is_numeral, lemma_decimal_octet_width, lemma_numeral_reads_back, numeral, parse_numeral,
    push_numeral, read_numeral,
};
use crate::text::{
    field_spans, fields, is_free_of, join, lemma_fields_of_join, lemma_join_push, to_chars,
};

verus! {

/// An IPv4 address: four octets, the first one first.
#[derive(Debug, PartialEq, Eq, Clone, Copy, Hash)]
pub struct Ipv4Addr {
    octets: [u8; 4],
}

impl View for Ipv4Addr {
    type V = Seq<u8>;

    closed spec fn view(&self) -> Seq<u8> {
        self.octets@
    }
}

/// What `s` reads as one octet of a dotted-decimal address: one to three
/// decimal digits that denote at most 255, without a leading zero before
/// another digit.
pub open spec fn parse_octet(s: Seq<char>) -> Option<u8> {
    if s.len() <= 3 && (s.len() == 1 || s[0] != '0') {
        match read_numeral(s, 10, 0xFF) {
            Some(value) => Some(value as u8),
            None => None,
        }
    } else {
        None
    }
}

/// What `s` reads as an IPv4 address: exactly four octets with dots between
/// them.
pub open spec fn parse_ipv4(s: Seq<char>) -> Option<Seq<u8>> {
    let parts = fields(s, '.');
    if parts.len() == 4 && (forall|k: int| 0 <= k < 4 ==> parse_octet(#[trigger] parts[k]) is Some) {
        Some(Seq::new(4, |k: int| parse_octet(parts[k]).unwrap()))
    } else {
        None
    }
}

/// The decimal numerals of the octets.
pub open spec fn octet_numerals(octets: Seq<u8>) -> Seq<Seq<char>> {
    Seq::new(octets.len(), |k: int| numeral(octets[k] as nat, 10))
}

/// The dotted-decimal notation of the octets.
pub open spec fn format_ipv4(octets: Seq<u8>) -> Seq<char> {
    join(octet_numerals(octets), '.')
}

/// No digit is a dot.
pub proof fn lemma_numeral_has_no_dot(s: Seq<char>, radix: nat)
    requires
        is_numeral(s, radix),
    ensures
        is_free_of(s, '.'),
{
}

/// The notation of an address reads back as that address.
pub proof fn lemma_ipv4_reads_back(octets: Seq<u8>)
    requires
        octets.len() == 4,
    ensures
        parse_ipv4(format_ipv4(octets)) == Some(octets),
{
    let parts = octet_numerals(octets);
    assert forall|k: int| 0 <= k < parts.len() implies is_free_of(#[trigger] parts[k], '.')
        && parse_octet(parts[k]) == Some(octets[k]) by {
        lemma_numeral_reads_back(octets[k] as nat, 10);
        lemma_decimal_octet_width(octets[k] as nat);
        lemma_numeral_has_no_dot(parts[k], 10);
    }
    lemma_fields_of_join(parts, '.');
    assert(Seq::new(4, |k: int| parse_octet(parts[k]).unwrap()) =~= octets);
}

impl Ipv4Addr {
    /// The address with the octets `a`, `b`, `c` and `d`, in this order.
    pub fn new(a: u8, b: u8, c: u8, d: u8) -> (addr: Self)
        ensures
            addr@ == seq![a, b, c, d],
    {
        let addr = Ipv4Addr { octets: [a, b, c, d] };
        assert(addr@ =~= seq![a, b, c, d]);
        addr
    }

    /// The four octets of the address.
    pub fn octets(&self) -> (octets: [u8; 4])
        ensures
            octets@ == self@,
    {
        self.octets
    }

    /// An address always has four octets.
    pub proof fn lemma_len(&self)
        ensures
            self@.len() == 4,
    {
    }

    /// Reads the characters of `s` from `start` up to `end` as an address in
    /// dotted-decimal notation.
    pub fn parse_chars(s: &Vec<char>, start: usize, end: usize) -> (addr: Option<Self>)
        requires
            start <= end <= s@.len(),
        ensures
            match addr {
                Some(a) => parse_ipv4(s@.subrange(start as int, end as int)) == Some(a@),
                None => parse_ipv4(s@.subrange(start as int, end as int)) is None,
            },
    {
        let ghost text = s@.subrange(start as int, end as int);
        let spans = field_spans(s, start, end, '.');
        if spans.len() != 4 {
            return None;
        }
        let ghost parts = fields(text, '.');
        let mut octets: [u8; 4] = [0; 4];
        let mut k: usize = 0;
        while k < 4
            invariant
                k <= 4,
                spans@.len() == 4,
                parts == fields(s@.subrange(start as int, end as int), '.'),
                parts.len() == 4,
                forall|j: int|
                    0 <= j < 4 ==> start <= (#[trigger] spans@[j]).0 <= spans@[j].1 <= end
                        && s@.subrange(spans@[j].0 as int, spans@[j].1 as int) == parts[j],
                end <= s@.len(),
                forall|j: int| 0 <= j < k ==> parse_octet(#[trigger] parts[j]) == Some(octets@[j]),
            decreases 4 - k,
        {
            let (from, to) = spans[k];
            let ghost part = parts[k as int];
            assert(part == s@.subrange(from as int, to as int));
            if to - from > 3 || (to - from > 1 && s[from] == '0') {
                assert(to - from > 1 ==> part[0] == s@[from as int]);
                assert(parse_octet(part) is None);
                return None;
            }
            assert(to - from > 1 ==> part[0] == s@[from as int]);
            match parse_numeral(s, from, to, 10, 0xFF) {
                Some(value) => {
                    octets[k] = value as u8;
                },
                None => {
                    assert(parse_octet(part) is None);
                    return None;
                },
            }
            k = k + 1;
        }
        let addr = Ipv4Addr { octets };
        assert(addr@ =~= Seq::new(4, |j: int| parse_octet(parts[j]).unwrap()));
        Some(addr)
    }

    /// Reads `text` as an address in dotted-decimal notation.
    pub fn parse(text: &str) -> (addr: Option<Self>)
        ensures
            match addr {
                Some(a) => parse_ipv4(text@) == Some(a@),
                None => parse_ipv4(text@) is None,
            },
    {
        let chars = to_chars(text);
        assert(chars@.subrange(0, chars@.len() as int) =~= text@);
        Ipv4Addr::parse_chars(&chars, 0, chars.len())
    }

    /// Appends the dotted-decimal notation of the address to `out`.
    pub fn push_to(&self, out: &mut String)
        ensures
            final(out)@ == old(out)@ + format_ipv4(self@),
    {
        let ghost parts = octet_numerals(self@);
        push_numeral(out, self.octets[0] as u64, 10);
        assert(parts.take(1) =~= seq![parts[0]]);
        assert(old(out)@ + parts[0] =~= old(out)@ + join(parts.take(1), '.'));
        let mut k: usize = 1;
        while k < 4
            invariant
                1 <= k <= 4,
                parts == octet_numerals(self@),
                parts.len() == 4,
                out@ == old(out)@ + join(parts.take(k as int), '.'),
            decreases 4 - k,
        {
            out.append(".");
            push_numeral(out, self.octets[k] as u64, 10);
            proof {
                reveal_strlit(".");
                assert("."@ =~= seq!['.']);
                lemma_join_push(parts.take(k as int), parts[k as int], '.');
                assert(parts.take(k as int).push(parts[k as int]) =~= parts.take(k + 1));
                assert(out@ =~= old(out)@ + join(parts.take(k + 1), '.'));
            }
            k = k + 1;
        }
        assert(parts.take(4) =~= parts);
    }

    /// The dotted-decimal notation of the address.
    pub fn to_string(&self) -> (text: String)
        ensures
            text@ == format_ipv4(self@),
    {
        let mut text = String::new();
        self.push_to(&mut text);
        assert(text@ =~= format_ipv4(self@));
        text
    }
}

} // verus!
