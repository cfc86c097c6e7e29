//! IPv6 addresses in their textual notation: groups of hexadecimal digits
//! with colons between them, `::` for one run of zero groups, and an
//! optional dotted-decimal IPv4 address in place of the last two groups.

use vstd::prelude::*;
use vstd::string::*;
use crate::ipv4::{format_ipv4, lemma_ipv4_reads_back, parse_ipv4, Ipv4Addr};
use crate::numeral::{
    lemma_hex_group_width, lemma_numeral_reads_back, numeral, parse_numeral, push_numeral,
    read_numeral,
};
use crate::text::{
    field_spans, fields, is_free_of, join, lemma_fields_are_free, lemma_fields_of_join,
    lemma_join_is_free,
    lemma_join_push, to_chars,
};

verus! {

/// An IPv6 address: eight groups of sixteen bits, the first one first.
#[derive(Debug, PartialEq, Eq, Clone, Copy, Hash)]
pub struct Ipv6Addr {
    segments: [u16; 8],
}

impl View for Ipv6Addr {
    type V = Seq<u16>;

    closed spec fn view(&self) -> Seq<u16> {
        self.segments@
    }
}

/// What `s` reads as one group: one to four hexadecimal digits of either
/// case.
pub open spec fn parse_group(s: Seq<char>) -> Option<u16> {
    if s.len() <= 4 {
        match read_numeral(s, 16, 0xFFFF) {
            Some(value) => Some(value as u16),
            None => None,
        }
    } else {
        None
    }
}

/// Every part reads as a group.
pub open spec fn are_groups(parts: Seq<Seq<char>>) -> bool {
    forall|k: int| 0 <= k < parts.len() ==> parse_group(#[trigger] parts[k]) is Some
}

/// The groups that the parts read as.
pub open spec fn group_values(parts: Seq<Seq<char>>) -> Seq<u16> {
    Seq::new(parts.len(), |k: int| parse_group(parts[k]).unwrap())
}

/// The two groups that hold the four octets of an IPv4 address.
pub open spec fn groups_of_octets(octets: Seq<u8>) -> Seq<u16> {
    seq![
        (octets[0] as int * 256 + octets[1] as int) as u16,
        (octets[2] as int * 256 + octets[3] as int) as u16,
    ]
}

/// The four octets that two groups hold.
pub open spec fn octets_of_groups(high: u16, low: u16) -> Seq<u8> {
    seq![(high / 256) as u8, (high % 256) as u8, (low / 256) as u8, (low % 256) as u8]
}

/// What a colon-separated list reads as: no group for the empty text;
/// otherwise one group for each part, where the last part may be, if
/// `v4_allowed`, a dotted-decimal IPv4 address that stands for two groups.
pub open spec fn parse_groups(s: Seq<char>, v4_allowed: bool) -> Option<Seq<u16>> {
    let parts = fields(s, ':');
    if s.len() == 0 {
        Some(Seq::empty())
    } else if v4_allowed && parse_ipv4(parts.last()) is Some {
        if are_groups(parts.drop_last()) {
            Some(
                group_values(parts.drop_last()) + groups_of_octets(
                    parse_ipv4(parts.last()).unwrap(),
                ),
            )
        } else {
            None
        }
    } else if are_groups(parts) {
        Some(group_values(parts))
    } else {
        None
    }
}

/// The index of the first `::` in `s`, or the length of `s` if there is
/// none.
pub open spec fn gap_index(s: Seq<char>) -> int
    decreases s.len(),
{
    if s.len() < 2 {
        s.len() as int
    } else if s[0] == ':' && s[1] == ':' {
        0
    } else {
        1 + gap_index(s.drop_first())
    }
}

/// `n` zero groups.
pub open spec fn zero_groups(n: int) -> Seq<u16> {
    Seq::new(n as nat, |k: int| 0u16)
}

/// What `s` reads as an IPv6 address. Without `::` it must list all eight
/// groups. With `::`, the lists before and after the first `::` must hold
/// at most seven groups together, and `::` stands for the zero groups that
/// are missing between them; an IPv4 address may end the second list only.
pub open spec fn parse_ipv6(s: Seq<char>) -> Option<Seq<u16>> {
    let gap = gap_index(s);
    if gap >= s.len() {
        match parse_groups(s, true) {
            Some(groups) => if groups.len() == 8 {
                Some(groups)
            } else {
                None
            },
            None => None,
        }
    } else {
        match (parse_groups(s.take(gap), false), parse_groups(s.skip(gap + 2), true)) {
            (Some(head), Some(tail)) => if head.len() + tail.len() <= 7 {
                Some(head + zero_groups(8 - head.len() - tail.len()) + tail)
            } else {
                None
            },
            _ => None,
        }
    }
}

/// The number of consecutive zero groups from index `i` on.
pub open spec fn zero_run(groups: Seq<u16>, i: int) -> int
    decreases groups.len() - i,
{
    if 0 <= i < groups.len() && groups[i] == 0 {
        1 + zero_run(groups, i + 1)
    } else {
        0
    }
}

/// The first index up to `upto` from which the longest run of zero groups
/// starts.
pub open spec fn longest_run_start(groups: Seq<u16>, upto: int) -> int
    decreases upto,
{
    if upto <= 0 {
        0
    } else if zero_run(groups, upto) > zero_run(groups, longest_run_start(groups, upto - 1)) {
        upto
    } else {
        longest_run_start(groups, upto - 1)
    }
}

/// The shortest hexadecimal numerals of the groups, in lower case.
pub open spec fn group_numerals(groups: Seq<u16>) -> Seq<Seq<char>> {
    Seq::new(groups.len(), |k: int| numeral(groups[k] as nat, 16))
}

/// The groups as a colon-separated list.
pub open spec fn format_groups(groups: Seq<u16>) -> Seq<char> {
    join(group_numerals(groups), ':')
}

/// The address is an IPv4 address mapped into IPv6: five zero groups, then
/// `ffff`.
pub open spec fn is_ipv4_mapped(groups: Seq<u16>) -> bool {
    &&& groups[0] == 0
    &&& groups[1] == 0
    &&& groups[2] == 0
    &&& groups[3] == 0
    &&& groups[4] == 0
    &&& groups[5] == 0xFFFF
}

/// The canonical notation of the eight groups. A mapped IPv4 address is
/// written as `::ffff:` and the address in dotted-decimal notation.
/// Otherwise the first longest run of two or more zero groups is written as
/// `::`, and every other group as its shortest hexadecimal numeral.
pub open spec fn format_ipv6(groups: Seq<u16>) -> Seq<char> {
    if is_ipv4_mapped(groups) {
        "::ffff:"@ + format_ipv4(octets_of_groups(groups[6], groups[7]))
    } else {
        let start = longest_run_start(groups, groups.len() - 1);
        let len = zero_run(groups, start);
        if len >= 2 {
            format_groups(groups.take(start)) + "::"@ + format_groups(groups.skip(start + len))
        } else {
            format_groups(groups)
        }
    }
}

/// A `::` stands at index `i` of `s`.
pub open spec fn is_gap_at(s: Seq<char>, i: int) -> bool {
    0 <= i && i + 1 < s.len() && s[i] == ':' && s[i + 1] == ':'
}

/// The first `::` of `s` is where `gap_index` puts it.
pub proof fn lemma_gap_index_unique(s: Seq<char>, n: int)
    requires
        0 <= n <= s.len(),
        forall|i: int| 0 <= i < n ==> !#[trigger] is_gap_at(s, i),
        n < s.len() ==> is_gap_at(s, n),
    ensures
        gap_index(s) == n,
    decreases n,
{
    if n == 0 {
    } else if s.len() < 2 {
    } else {
        assert(!is_gap_at(s, 0));
        let rest = s.drop_first();
        assert forall|i: int| 0 <= i < n - 1 implies !#[trigger] is_gap_at(rest, i) by {
            assert(!is_gap_at(s, i + 1));
        }
        if n < s.len() {
            assert(is_gap_at(s, n));
            assert(is_gap_at(rest, n - 1));
        }
        lemma_gap_index_unique(rest, n - 1);
    }
}

/// Reads the characters of `s` from `from` up to `to` as one group.
fn read_group(s: &Vec<char>, from: usize, to: usize) -> (group: Option<u16>)
    requires
        from <= to <= s@.len(),
    ensures
        group == parse_group(s@.subrange(from as int, to as int)),
{
    if to - from > 4 {
        return None;
    }
    match parse_numeral(s, from, to, 16, 0xFFFF) {
        Some(value) => Some(value as u16),
        None => None,
    }
}

/// Reads the characters of `s` from `start` up to `end` as a
/// colon-separated list of groups.
fn read_groups(s: &Vec<char>, start: usize, end: usize, v4_allowed: bool) -> (groups: Option<
    Vec<u16>,
>)
    requires
        start <= end <= s@.len(),
    ensures
        match groups {
            Some(g) => parse_groups(s@.subrange(start as int, end as int), v4_allowed) == Some(g@),
            None => parse_groups(s@.subrange(start as int, end as int), v4_allowed) is None,
        },
{
    let ghost text = s@.subrange(start as int, end as int);
    let ghost parts = fields(text, ':');
    let mut groups: Vec<u16> = Vec::new();
    if start == end {
        assert(groups@ =~= Seq::<u16>::empty());
        return Some(groups);
    }
    proof {
        lemma_fields_are_free(text, ':');
    }
    let spans = field_spans(s, start, end, ':');
    let count: usize = spans.len();
    let (last_from, last_to) = spans[count - 1];
    let embedded: Option<Ipv4Addr> = if v4_allowed {
        Ipv4Addr::parse_chars(s, last_from, last_to)
    } else {
        None
    };
    let plain: usize = match embedded {
        Some(_) => count - 1,
        None => count,
    };
    let ghost hex_parts = parts.take(plain as int);
    proof {
        assert(parts.last() == s@.subrange(last_from as int, last_to as int));
        if embedded is Some {
            assert(hex_parts =~= parts.drop_last());
        } else {
            assert(hex_parts =~= parts);
        }
    }
    let mut k: usize = 0;
    while k < plain
        invariant
            k <= plain <= count,
            text == s@.subrange(start as int, end as int),
            text.len() > 0,
            parts == fields(text, ':'),
            embedded is Some <==> v4_allowed && parse_ipv4(parts.last()) is Some,
            embedded is Some ==> hex_parts == parts.drop_last(),
            embedded is None ==> hex_parts == parts,
            count == spans@.len(),
            count == parts.len(),
            end <= s@.len(),
            hex_parts == parts.take(plain as int),
            forall|j: int|
                0 <= j < count ==> start <= (#[trigger] spans@[j]).0 <= spans@[j].1 <= end
                    && s@.subrange(spans@[j].0 as int, spans@[j].1 as int) == parts[j],
            groups@.len() == k,
            forall|j: int| 0 <= j < k ==> parse_group(#[trigger] hex_parts[j]) == Some(groups@[j]),
        decreases plain - k,
    {
        let (from, to) = spans[k];
        assert(hex_parts[k as int] == parts[k as int]);
        match read_group(s, from, to) {
            Some(group) => {
                groups.push(group);
            },
            None => {
                assert(!are_groups(hex_parts));
                return None;
            },
        }
        k = k + 1;
    }
    assert(are_groups(hex_parts));
    assert(groups@ =~= group_values(hex_parts));
    match embedded {
        Some(addr) => {
            let octets = addr.octets();
            let high: u16 = octets[0] as u16 * 256 + octets[1] as u16;
            let low: u16 = octets[2] as u16 * 256 + octets[3] as u16;
            groups.push(high);
            groups.push(low);
            proof {
                addr.lemma_len();
                assert(groups@ =~= group_values(hex_parts) + groups_of_octets(addr@));
            }
        },
        None => {},
    }
    Some(groups)
}

/// The numeral of a group reads back as that group, and holds neither a
/// colon nor a dot.
pub proof fn lemma_group_numeral(group: u16)
    ensures
        parse_group(numeral(group as nat, 16)) == Some(group),
        numeral(group as nat, 16).len() >= 1,
        is_free_of(numeral(group as nat, 16), ':'),
        is_free_of(numeral(group as nat, 16), '.'),
{
    lemma_numeral_reads_back(group as nat, 16);
    lemma_hex_group_width(group as nat);
}

/// A text without dots is no IPv4 address.
pub proof fn lemma_no_dot_no_ipv4(s: Seq<char>)
    requires
        is_free_of(s, '.'),
    ensures
        parse_ipv4(s) is None,
{
    let parts = seq![s];
    assert(join(parts, '.') == s);
    lemma_fields_of_join(parts, '.');
}

/// A text that starts with a non-empty part is not empty.
pub proof fn lemma_join_len(parts: Seq<Seq<char>>, sep: char)
    requires
        parts.len() >= 1,
    ensures
        join(parts, sep).len() >= parts[0].len(),
{
}

/// A colon-separated list of groups reads back as those groups.
pub proof fn lemma_groups_read_back(groups: Seq<u16>, v4_allowed: bool)
    ensures
        parse_groups(format_groups(groups), v4_allowed) == Some(groups),
{
    let parts = group_numerals(groups);
    let s = format_groups(groups);
    if groups.len() == 0 {
        assert(groups =~= Seq::<u16>::empty());
    } else {
        assert forall|k: int| 0 <= k < parts.len() implies is_free_of(#[trigger] parts[k], ':')
            && parse_group(parts[k]) == Some(groups[k]) by {
            lemma_group_numeral(groups[k]);
        }
        lemma_group_numeral(groups[0]);
        lemma_join_len(parts, ':');
        lemma_fields_of_join(parts, ':');
        lemma_group_numeral(groups.last());
        assert(parts.last() == numeral(groups.last() as nat, 16));
        lemma_no_dot_no_ipv4(parts.last());
        assert(group_values(parts) =~= groups);
    }
}

/// A colon-separated list of groups holds no `::`, and neither starts nor
/// ends with a colon.
pub proof fn lemma_joined_has_no_gap(parts: Seq<Seq<char>>)
    requires
        forall|k: int|
            0 <= k < parts.len() ==> (#[trigger] parts[k]).len() >= 1 && is_free_of(parts[k], ':'),
    ensures
        forall|i: int| !#[trigger] is_gap_at(join(parts, ':'), i),
        parts.len() >= 1 ==> join(parts, ':').len() >= 1 && join(parts, ':')[0] != ':' && join(
            parts,
            ':',
        ).last() != ':',
    decreases parts.len(),
{
    let s = join(parts, ':');
    if parts.len() == 0 {
    } else if parts.len() == 1 {
        assert(s == parts[0]);
    } else {
        let first = parts[0];
        let rest = parts.drop_first();
        let tail = join(rest, ':');
        assert forall|k: int| 0 <= k < rest.len() implies (#[trigger] rest[k]).len() >= 1
            && is_free_of(rest[k], ':') by {
            assert(rest[k] == parts[k + 1]);
        }
        lemma_joined_has_no_gap(rest);
        let n = first.len() as int;
        assert(s == first + seq![':'] + tail);
        assert(s[0] == first[0]);
        assert(s.last() == tail.last());
        assert forall|i: int| !#[trigger] is_gap_at(s, i) by {
            if 0 <= i && i + 1 < s.len() {
                if i < n {
                    assert(s[i] == first[i]);
                } else if i == n {
                    assert(s[i + 1] == tail[0]);
                } else {
                    assert(s[i] == tail[i - n - 1]);
                    assert(s[i + 1] == tail[i - n]);
                    assert(!is_gap_at(tail, i - n - 1));
                }
            }
        }
    }
}

/// The notation of a mapped IPv4 address reads back as that address.
proof fn lemma_mapped_reads_back(groups: Seq<u16>)
    requires
        groups.len() == 8,
        is_ipv4_mapped(groups),
    ensures
        parse_ipv6(format_ipv6(groups)) == Some(groups),
{
    let s = format_ipv6(groups);
    let octets = octets_of_groups(groups[6], groups[7]);
    let dotted = format_ipv4(octets);
    reveal_strlit("::ffff:");
    let prefix = "::ffff:"@;
    assert(s == prefix + dotted);
    assert(is_gap_at(s, 0)) by {
        assert(s[0] == prefix[0]);
        assert(s[1] == prefix[1]);
    }
    lemma_gap_index_unique(s, 0);
    assert(s.take(0) =~= Seq::<char>::empty());
    let mapped = numeral(0xFFFF, 16);
    assert(mapped =~= seq!['f', 'f', 'f', 'f']) by {
        reveal_with_fuel(numeral, 4);
    }
    lemma_group_numeral(0xFFFFu16);
    let parts = seq![mapped, dotted];
    assert(parts.drop_first() =~= seq![dotted]);
    assert(join(parts.drop_first(), ':') == dotted);
    assert(parts[0] == mapped);
    assert(join(parts, ':') == parts[0] + seq![':'] + join(parts.drop_first(), ':'));
    assert(join(parts, ':') =~= mapped + seq![':'] + dotted);
    assert(s.skip(2) =~= join(parts, ':'));
    assert(is_free_of(dotted, ':')) by {
        let numerals = crate::ipv4::octet_numerals(octets);
        assert forall|k: int| 0 <= k < numerals.len() implies is_free_of(
            #[trigger] numerals[k],
            ':',
        ) by {
            lemma_numeral_reads_back(octets[k] as nat, 10);
        }
        lemma_join_is_free(numerals, '.', ':');
    }
    lemma_fields_of_join(parts, ':');
    lemma_ipv4_reads_back(octets);
    lemma_mapped_groups(groups, s.skip(2), parts);
}

/// The list after the `::` of a mapped IPv4 address reads as `ffff` and the
/// two groups of that address.
proof fn lemma_mapped_groups(groups: Seq<u16>, list: Seq<char>, parts: Seq<Seq<char>>)
    requires
        groups.len() == 8,
        is_ipv4_mapped(groups),
        parts.len() == 2,
        parts == fields(list, ':'),
        parse_group(parts[0]) == Some(0xFFFFu16),
        parse_ipv4(parts[1]) == Some(octets_of_groups(groups[6], groups[7])),
        list.len() > 0,
    ensures
        parse_groups(list, true) == Some(groups.skip(5)),
{
    let octets = octets_of_groups(groups[6], groups[7]);
    assert(parts.last() == parts[1]);
    assert(parts.drop_last() =~= seq![parts[0]]);
    assert(are_groups(parts.drop_last()));
    assert(group_values(parts.drop_last()) =~= seq![0xFFFFu16]);
    assert(groups_of_octets(octets) =~= seq![groups[6], groups[7]]);
    assert(seq![0xFFFFu16] + seq![groups[6], groups[7]] =~= groups.skip(5));
}

/// The notation with `::` for a run of zero groups reads back as the
/// address.
proof fn lemma_compressed_reads_back(groups: Seq<u16>, start: int, len: int)
    requires
        groups.len() == 8,
        0 <= start,
        2 <= len,
        start + len <= 8,
        forall|k: int| start <= k < start + len ==> #[trigger] groups[k] == 0,
    ensures
        parse_ipv6(
            format_groups(groups.take(start)) + "::"@ + format_groups(groups.skip(start + len)),
        ) == Some(groups),
{
    let head = groups.take(start);
    let tail = groups.skip(start + len);
    let front = format_groups(head);
    let back = format_groups(tail);
    reveal_strlit("::");
    let s = front + "::"@ + back;
    let n = front.len() as int;
    assert forall|k: int| 0 <= k < group_numerals(head).len() implies (#[trigger] group_numerals(
        head,
    )[k]).len() >= 1 && is_free_of(group_numerals(head)[k], ':') by {
        lemma_group_numeral(head[k]);
    }
    lemma_joined_has_no_gap(group_numerals(head));
    assert forall|i: int| 0 <= i < n implies !#[trigger] is_gap_at(s, i) by {
        assert(s[i] == front[i]);
        if i + 1 < n {
            assert(s[i + 1] == front[i + 1]);
            assert(!is_gap_at(front, i));
        } else {
            assert(front[i] == front.last());
        }
    }
    assert(is_gap_at(s, n)) by {
        assert(s[n] == "::"@[0]);
        assert(s[n + 1] == "::"@[1]);
    }
    lemma_gap_index_unique(s, n);
    assert(s.take(n) =~= front);
    assert(s.skip(n + 2) =~= back);
    lemma_groups_read_back(head, false);
    lemma_groups_read_back(tail, true);
    assert(head + zero_groups(8 - head.len() - tail.len()) + tail =~= groups);
}

/// The notation that lists all eight groups reads back as the address.
proof fn lemma_full_reads_back(groups: Seq<u16>)
    requires
        groups.len() == 8,
    ensures
        parse_ipv6(format_groups(groups)) == Some(groups),
{
    let s = format_groups(groups);
    let parts = group_numerals(groups);
    assert forall|k: int| 0 <= k < parts.len() implies (#[trigger] parts[k]).len() >= 1
        && is_free_of(parts[k], ':') by {
        lemma_group_numeral(groups[k]);
    }
    lemma_joined_has_no_gap(parts);
    assert forall|i: int| 0 <= i < s.len() implies !#[trigger] is_gap_at(s, i) by {}
    lemma_gap_index_unique(s, s.len() as int);
    lemma_groups_read_back(groups, true);
}

/// The canonical notation of an address reads back as that address.
pub proof fn lemma_ipv6_reads_back(groups: Seq<u16>)
    requires
        groups.len() == 8,
    ensures
        parse_ipv6(format_ipv6(groups)) == Some(groups),
{
    if is_ipv4_mapped(groups) {
        lemma_mapped_reads_back(groups);
    } else {
        let start = longest_run_start(groups, 7);
        let len = zero_run(groups, start);
        lemma_longest_run_start(groups, 7);
        lemma_zero_run(groups, start);
        if len >= 2 {
            lemma_compressed_reads_back(groups, start, len);
        } else {
            lemma_full_reads_back(groups);
        }
    }
}

/// A run of zero groups stays within the address and holds zero groups
/// only.
pub proof fn lemma_zero_run(groups: Seq<u16>, i: int)
    requires
        0 <= i <= groups.len(),
    ensures
        0 <= zero_run(groups, i) <= groups.len() - i,
        forall|k: int| i <= k < i + zero_run(groups, i) ==> #[trigger] groups[k] == 0,
    decreases groups.len() - i,
{
    if i < groups.len() && groups[i] == 0 {
        lemma_zero_run(groups, i + 1);
    }
}

/// The longest run starts within the range that was searched.
pub proof fn lemma_longest_run_start(groups: Seq<u16>, upto: int)
    requires
        0 <= upto,
    ensures
        0 <= longest_run_start(groups, upto) <= upto,
    decreases upto,
{
    if upto > 0 {
        lemma_longest_run_start(groups, upto - 1);
    }
}

/// The number of consecutive zero groups from index `i` on.
fn run_length(segments: &[u16; 8], i: usize) -> (len: usize)
    requires
        i <= 8,
    ensures
        len == zero_run(segments@, i as int),
        len <= 8 - i,
{
    let mut j: usize = i;
    while j < 8 && segments[j] == 0
        invariant
            i <= j <= 8,
            zero_run(segments@, i as int) == (j - i) + zero_run(segments@, j as int),
        decreases 8 - j,
    {
        j = j + 1;
    }
    j - i
}

/// Where the first longest run of zero groups starts, and its length.
fn longest_run(segments: &[u16; 8]) -> (run: (usize, usize))
    ensures
        run.0 == longest_run_start(segments@, 7),
        run.1 == zero_run(segments@, run.0 as int),
        run.0 + run.1 <= 8,
{
    let mut best: usize = 0;
    let mut best_len: usize = run_length(segments, 0);
    let mut i: usize = 1;
    while i < 8
        invariant
            1 <= i <= 8,
            best < i,
            best == longest_run_start(segments@, i - 1),
            best_len == zero_run(segments@, best as int),
            best + best_len <= 8,
        decreases 8 - i,
    {
        let len = run_length(segments, i);
        if len > best_len {
            best = i;
            best_len = len;
        }
        i = i + 1;
    }
    (best, best_len)
}

/// Appends the groups from index `from` up to index `to` to `out` as a
/// colon-separated list.
fn push_groups(out: &mut String, segments: &[u16; 8], from: usize, to: usize)
    requires
        from <= to <= 8,
    ensures
        final(out)@ == old(out)@ + format_groups(segments@.subrange(from as int, to as int)),
{
    let ghost groups = segments@.subrange(from as int, to as int);
    let ghost parts = group_numerals(groups);
    if from == to {
        assert(out@ =~= old(out)@ + format_groups(groups));
        return ;
    }
    push_numeral(out, segments[from] as u64, 16);
    proof {
        assert(parts.take(1) =~= seq![parts[0]]);
        assert(old(out)@ + parts[0] =~= old(out)@ + join(parts.take(1), ':'));
    }
    let mut k: usize = from + 1;
    while k < to
        invariant
            from < k <= to <= 8,
            groups == segments@.subrange(from as int, to as int),
            parts == group_numerals(groups),
            out@ == old(out)@ + join(parts.take(k - from), ':'),
        decreases to - k,
    {
        out.append(":");
        push_numeral(out, segments[k] as u64, 16);
        proof {
            reveal_strlit(":");
            assert(":"@ =~= seq![':']);
            lemma_join_push(parts.take(k - from), parts[k - from], ':');
            assert(parts.take(k - from).push(parts[k - from]) =~= parts.take(k + 1 - from));
            assert(out@ =~= old(out)@ + join(parts.take(k + 1 - from), ':'));
        }
        k = k + 1;
    }
    assert(parts.take(to - from) =~= parts);
}

impl Ipv6Addr {
    /// Appends the canonical notation of the address to `out`.
    pub fn push_to(&self, out: &mut String)
        ensures
            final(out)@ == old(out)@ + format_ipv6(self@),
    {
        let s = &self.segments;
        if s[0] == 0 && s[1] == 0 && s[2] == 0 && s[3] == 0 && s[4] == 0 && s[5] == 0xFFFF {
            out.append("::ffff:");
            let embedded = Ipv4Addr::new(
                (s[6] / 256) as u8,
                (s[6] % 256) as u8,
                (s[7] / 256) as u8,
                (s[7] % 256) as u8,
            );
            assert(embedded@ =~= octets_of_groups(s[6], s[7]));
            embedded.push_to(out);
            assert(out@ =~= old(out)@ + format_ipv6(self@));
        } else {
            let (start, len) = longest_run(s);
            if len >= 2 {
                push_groups(out, s, 0, start);
                out.append("::");
                push_groups(out, s, start + len, 8);
                proof {
                    assert(s@.subrange(0, start as int) =~= s@.take(start as int));
                    assert(s@.subrange(start + len, 8) =~= s@.skip(start + len));
                    assert(out@ =~= old(out)@ + format_ipv6(self@));
                }
            } else {
                push_groups(out, s, 0, 8);
                assert(s@.subrange(0, 8) =~= s@);
            }
        }
    }

    /// The canonical notation of the address.
    pub fn to_string(&self) -> (text: String)
        ensures
            text@ == format_ipv6(self@),
    {
        let mut text = String::new();
        self.push_to(&mut text);
        assert(text@ =~= format_ipv6(self@));
        text
    }

    /// The address with the groups `a` to `h`, in this order.
    pub fn new(a: u16, b: u16, c: u16, d: u16, e: u16, f: u16, g: u16, h: u16) -> (addr: Self)
        ensures
            addr@ == seq![a, b, c, d, e, f, g, h],
    {
        let addr = Ipv6Addr { segments: [a, b, c, d, e, f, g, h] };
        assert(addr@ =~= seq![a, b, c, d, e, f, g, h]);
        addr
    }

    /// The eight groups of the address.
    pub fn segments(&self) -> (segments: [u16; 8])
        ensures
            segments@ == self@,
    {
        self.segments
    }

    /// Reads `s` as an address in textual notation.
    pub fn parse_chars(s: &Vec<char>) -> (addr: Option<Self>)
        ensures
            match addr {
                Some(a) => parse_ipv6(s@) == Some(a@),
                None => parse_ipv6(s@) is None,
            },
    {
        let n: usize = s.len();
        let mut gap: usize = 0;
        while n - gap >= 2 && !(s[gap] == ':' && s[gap + 1] == ':')
            invariant
                n == s@.len(),
                gap <= n,
                forall|i: int| 0 <= i < gap ==> !#[trigger] is_gap_at(s@, i),
            decreases n - gap,
        {
            gap = gap + 1;
        }
        let mut segments: [u16; 8] = [0; 8];
        if n - gap < 2 {
            proof {
                assert forall|i: int| 0 <= i < n implies !#[trigger] is_gap_at(s@, i) by {}
                lemma_gap_index_unique(s@, n as int);
                assert(s@.subrange(0, n as int) =~= s@);
            }
            match read_groups(s, 0, n, true) {
                Some(groups) => {
                    if groups.len() != 8 {
                        return None;
                    }
                    let mut k: usize = 0;
                    while k < 8
                        invariant
                            k <= 8,
                            groups@.len() == 8,
                            forall|j: int| 0 <= j < k ==> segments@[j] == groups@[j],
                        decreases 8 - k,
                    {
                        segments[k] = groups[k];
                        k = k + 1;
                    }
                    let addr = Ipv6Addr { segments };
                    assert(addr@ =~= groups@);
                    Some(addr)
                },
                None => None,
            }
        } else {
            proof {
                assert(is_gap_at(s@, gap as int));
                lemma_gap_index_unique(s@, gap as int);
                assert(s@.subrange(0, gap as int) =~= s@.take(gap as int));
                assert(s@.subrange(gap + 2, n as int) =~= s@.skip(gap + 2));
            }
            let head = match read_groups(s, 0, gap, false) {
                Some(groups) => groups,
                None => {
                    return None;
                },
            };
            let tail = match read_groups(s, gap + 2, n, true) {
                Some(groups) => groups,
                None => {
                    return None;
                },
            };
            if head.len() > 7 || tail.len() > 7 - head.len() {
                return None;
            }
            let h: usize = head.len();
            let t: usize = tail.len();
            let mut k: usize = 0;
            while k < h
                invariant
                    k <= h,
                    h == head@.len(),
                    h <= 7,
                    forall|j: int| 0 <= j < k ==> segments@[j] == head@[j],
                    forall|j: int| k <= j < 8 ==> segments@[j] == 0,
                decreases h - k,
            {
                segments[k] = head[k];
                k = k + 1;
            }
            let mut m: usize = 0;
            while m < t
                invariant
                    m <= t,
                    t == tail@.len(),
                    h == head@.len(),
                    h + t <= 7,
                    forall|j: int| 0 <= j < h ==> segments@[j] == head@[j],
                    forall|j: int| h <= j < 8 - t ==> segments@[j] == 0,
                    forall|j: int| 0 <= j < m ==> segments@[8 - t + j] == tail@[j],
                decreases t - m,
            {
                segments[8 - t + m] = tail[m];
                m = m + 1;
            }
            let addr = Ipv6Addr { segments };
            assert(addr@ =~= head@ + zero_groups(8 - h - t) + tail@);
            Some(addr)
        }
    }

    /// Reads `text` as an address in textual notation.
    pub fn parse(text: &str) -> (addr: Option<Self>)
        ensures
            match addr {
                Some(a) => parse_ipv6(text@) == Some(a@),
                None => parse_ipv6(text@) is None,
            },
    {
        let chars = to_chars(text);
        Ipv6Addr::parse_chars(&chars)
    }
}

} // verus!
