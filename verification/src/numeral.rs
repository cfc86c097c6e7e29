//! Numerals: unsigned integers written in decimal or hexadecimal digits.

use vstd::prelude::*;
use vstd::string::*;
use vstd::arithmetic::div_mod::{lemma_fundamental_div_mod, lemma_div_decreases, lemma_div_pos_is_pos};

verus! {

/// The value of `c` read as a digit: `0` to `9`, then `a` to `f` in either
/// case for ten to fifteen.
pub open spec fn digit_of(c: char) -> Option<nat> {
    if '0' <= c <= '9' {
        Some((c as int - '0' as int) as nat)
    } else if 'a' <= c <= 'f' {
        Some((c as int - 'a' as int + 10) as nat)
    } else if 'A' <= c <= 'F' {
        Some((c as int - 'A' as int + 10) as nat)
    } else {
        None
    }
}

/// `c` is a digit in base `radix`.
pub open spec fn is_digit(c: char, radix: nat) -> bool {
    digit_of(c) matches Some(d) && d < radix
}

/// `s` is a non-empty run of digits in base `radix`.
pub open spec fn is_numeral(s: Seq<char>, radix: nat) -> bool {
    s.len() > 0 && forall|i: int| 0 <= i < s.len() ==> is_digit(#[trigger] s[i], radix)
}

/// The number that the digits of `s` denote in base `radix`, most
/// significant digit first.
pub open spec fn numeral_value(s: Seq<char>, radix: nat) -> nat
    decreases s.len(),
{
    if s.len() == 0 {
        0
    } else {
        radix * numeral_value(s.drop_last(), radix) + digit_of(s.last()).unwrap_or(0)
    }
}

/// What `s` reads as in base `radix`: its value if it is a numeral that
/// denotes at most `max`.
pub open spec fn read_numeral(s: Seq<char>, radix: nat, max: nat) -> Option<nat> {
    if is_numeral(s, radix) && numeral_value(s, radix) <= max {
        Some(numeral_value(s, radix))
    } else {
        None
    }
}

/// The digit for `d`, in lower case from ten on.
pub open spec fn digit_char(d: nat) -> char {
    if d < 10 {
        ('0' as u8 + d) as char
    } else {
        ('a' as u8 + d - 10) as char
    }
}

/// The shortest numeral for `n` in base `radix`.
pub open spec fn numeral(n: nat, radix: nat) -> Seq<char>
    decreases n,
{
    if n < radix || radix < 2 {
        seq![digit_char(n)]
    } else {
        proof {
            lemma_div_decreases(n as int, radix as int);
            lemma_div_pos_is_pos(n as int, radix as int);
        }
        numeral(n / radix, radix).push(digit_char(n % radix))
    }
}

/// What `s` reads as a 16-bit unsigned decimal number: an optional `+`, then
/// decimal digits that denote at most 65535.
pub open spec fn parse_u16(s: Seq<char>) -> Option<u16> {
    let digits = if s.len() > 0 && s[0] == '+' {
        s.drop_first()
    } else {
        s
    };
    match read_numeral(digits, 10, 0xFFFF) {
        Some(value) => Some(value as u16),
        None => None,
    }
}

/// The value of `c` as a digit of any base up to sixteen.
pub fn digit(c: char) -> (d: Option<u32>)
    ensures
        match d {
            Some(value) => digit_of(c) == Some(value as nat),
            None => digit_of(c) is None,
        },
{
    if '0' <= c && c <= '9' {
        Some(c as u32 - '0' as u32)
    } else if 'a' <= c && c <= 'f' {
        Some(c as u32 - 'a' as u32 + 10)
    } else if 'A' <= c && c <= 'F' {
        Some(c as u32 - 'A' as u32 + 10)
    } else {
        None
    }
}

/// Dropping digits from the end of a numeral never makes it denote more.
pub proof fn lemma_value_of_prefix(s: Seq<char>, k: int, radix: nat)
    requires
        0 <= k <= s.len(),
        radix >= 1,
    ensures
        numeral_value(s.take(k), radix) <= numeral_value(s, radix),
    decreases s.len() - k,
{
    if k == s.len() {
        assert(s.take(k) =~= s);
    } else {
        assert(s.drop_last().take(k) =~= s.take(k));
        lemma_value_of_prefix(s.drop_last(), k, radix);
        let v = numeral_value(s.drop_last(), radix);
        assert(v <= radix * v) by (nonlinear_arith)
            requires
                radix >= 1,
                v >= 0,
        ;
    }
}

/// Reads the characters of `s` from `start` up to `end` as a numeral in base
/// `radix` that denotes at most `max`.
pub fn parse_numeral(s: &Vec<char>, start: usize, end: usize, radix: u32, max: u32) -> (value:
    Option<u32>)
    requires
        start <= end <= s@.len(),
        2 <= radix <= 16,
        max <= 0xFFFF,
    ensures
        match value {
            Some(v) => read_numeral(s@.subrange(start as int, end as int), radix as nat, max as nat)
                == Some(v as nat),
            None => read_numeral(s@.subrange(start as int, end as int), radix as nat, max as nat)
                is None,
        },
{
    let ghost text = s@.subrange(start as int, end as int);
    if start == end {
        return None;
    }
    let mut acc: u32 = 0;
    let mut i: usize = start;
    while i < end
        invariant
            start <= i <= end <= s@.len(),
            2 <= radix <= 16,
            max <= 0xFFFF,
            text == s@.subrange(start as int, end as int),
            forall|k: int| 0 <= k < i - start ==> is_digit(#[trigger] text[k], radix as nat),
            acc as nat == numeral_value(text.take(i - start), radix as nat),
            acc <= max,
        decreases end - i,
    {
        let ghost seen = text.take(i - start);
        let ghost next = text.take(i - start + 1);
        proof {
            assert(next.drop_last() =~= seen);
            assert(next.last() == s@[i as int]);
            assert(text[i - start] == s@[i as int]);
        }
        match digit(s[i]) {
            Some(d) => {
                if d >= radix {
                    return None;
                }
                assert(acc * radix + d <= 0xFFFF * 16 + 15) by (nonlinear_arith)
                    requires
                        acc <= 0xFFFF,
                        radix <= 16,
                        d < radix,
                ;
                let wider: u32 = acc * radix + d;
                proof {
                    assert(digit_of(next.last()) == Some(d as nat));
                    assert(numeral_value(next, radix as nat) == (radix as nat) * numeral_value(
                        next.drop_last(),
                        radix as nat,
                    ) + d as nat);
                    assert(wider as nat == numeral_value(next, radix as nat)) by (nonlinear_arith)
                        requires
                            wider == acc * radix + d,
                            numeral_value(next, radix as nat) == (radix as nat) * (acc as nat)
                                + d as nat,
                    ;
                }
                if wider > max {
                    proof {
                        lemma_value_of_prefix(text, i - start + 1, radix as nat);
                    }
                    return None;
                }
                acc = wider;
            },
            None => {
                return None;
            },
        }
        i = i + 1;
    }
    proof {
        assert(text.take(i - start) =~= text);
    }
    Some(acc)
}

/// Reads the characters of `s` from `start` up to `end` as a 16-bit unsigned
/// decimal number.
pub fn read_u16(s: &Vec<char>, start: usize, end: usize) -> (value: Option<u16>)
    requires
        start <= end <= s@.len(),
    ensures
        value == parse_u16(s@.subrange(start as int, end as int)),
{
    let ghost text = s@.subrange(start as int, end as int);
    let from: usize = if start < end && s[start] == '+' {
        start + 1
    } else {
        start
    };
    proof {
        if from > start {
            assert(text[0] == s@[start as int]);
            assert(text.drop_first() =~= s@.subrange(from as int, end as int));
        } else if start < end {
            assert(text[0] == s@[start as int]);
        }
    }
    match parse_numeral(s, from, end, 10, 0xFFFF) {
        Some(v) => Some(v as u16),
        None => None,
    }
}

/// The digit for `d` as a string.
pub fn digit_str(d: u8) -> (s: &'static str)
    requires
        d < 16,
    ensures
        s@ == seq![digit_char(d as nat)],
{
    proof {
        reveal_strlit("0");
        reveal_strlit("1");
        reveal_strlit("2");
        reveal_strlit("3");
        reveal_strlit("4");
        reveal_strlit("5");
        reveal_strlit("6");
        reveal_strlit("7");
        reveal_strlit("8");
        reveal_strlit("9");
        reveal_strlit("a");
        reveal_strlit("b");
        reveal_strlit("c");
        reveal_strlit("d");
        reveal_strlit("e");
        reveal_strlit("f");
    }
    let s = match d {
        0 => "0",
        1 => "1",
        2 => "2",
        3 => "3",
        4 => "4",
        5 => "5",
        6 => "6",
        7 => "7",
        8 => "8",
        9 => "9",
        10 => "a",
        11 => "b",
        12 => "c",
        13 => "d",
        14 => "e",
        _ => "f",
    };
    assert(s@ =~= seq![digit_char(d as nat)]);
    s
}

/// Appends the shortest numeral for `n` in base `radix` to `out`.
pub fn push_numeral(out: &mut String, n: u64, radix: u64)
    requires
        2 <= radix <= 16,
    ensures
        final(out)@ == old(out)@ + numeral(n as nat, radix as nat),
    decreases n,
{
    if n >= radix {
        proof {
            lemma_div_decreases(n as int, radix as int);
            lemma_div_pos_is_pos(n as int, radix as int);
        }
        push_numeral(out, n / radix, radix);
    }
    let d: u64 = n % radix;
    out.append(digit_str(d as u8));
    proof {
        let lead = numeral((n / radix) as nat, radix as nat);
        if n >= radix {
            assert(numeral(n as nat, radix as nat) == lead.push(digit_char(d as nat)));
            assert(old(out)@ + lead + seq![digit_char(d as nat)] =~= old(out)@ + lead.push(
                digit_char(d as nat),
            ));
        } else {
            vstd::arithmetic::div_mod::lemma_small_mod(n as nat, radix as nat);
            assert(numeral(n as nat, radix as nat) == seq![digit_char(d as nat)]);
        }
    }
}

/// The shortest decimal numeral for `n`.
pub fn decimal_string(n: u64) -> (s: String)
    ensures
        s@ == numeral(n as nat, 10),
{
    let mut s = String::new();
    push_numeral(&mut s, n, 10);
    assert(s@ =~= numeral(n as nat, 10));
    s
}

/// A numeral reads back as the number it was written for.
pub proof fn lemma_numeral_reads_back(n: nat, radix: nat)
    requires
        2 <= radix <= 16,
    ensures
        is_numeral(numeral(n, radix), radix),
        numeral_value(numeral(n, radix), radix) == n,
        n > 0 ==> numeral(n, radix)[0] != '0',
    decreases n,
{
    let s = numeral(n, radix);
    if n < radix {
        assert(s == seq![digit_char(n)]);
        assert(s.drop_last() =~= Seq::<char>::empty());
        assert(digit_of(digit_char(n)) == Some(n));
        assert(numeral_value(s.drop_last(), radix) == 0);
        assert(numeral_value(s, radix) == radix * 0 + n);
    } else {
        let lead = numeral(n / radix, radix);
        let d = n % radix;
        lemma_div_decreases(n as int, radix as int);
        lemma_div_pos_is_pos(n as int, radix as int);
        lemma_numeral_reads_back(n / radix, radix);
        lemma_fundamental_div_mod(n as int, radix as int);
        assert(s == lead.push(digit_char(d)));
        assert(s.drop_last() =~= lead);
        assert(digit_of(digit_char(d)) == Some(d));
        assert(numeral_value(s, radix) == radix * numeral_value(lead, radix) + d);
        assert(n / radix > 0) by (nonlinear_arith)
            requires
                n >= radix,
                radix >= 2,
        ;
        assert(s[0] == lead[0]);
        assert forall|i: int| 0 <= i < s.len() implies is_digit(#[trigger] s[i], radix) by {
            if i < lead.len() {
                assert(s[i] == lead[i]);
            }
        }
    }
}

/// A number that fits in eight bits has at most three decimal digits.
pub proof fn lemma_decimal_octet_width(n: nat)
    requires
        n <= 0xFF,
    ensures
        1 <= numeral(n, 10).len() <= 3,
{
    reveal_with_fuel(numeral, 3);
}

/// A number that fits in sixteen bits has at most four hexadecimal digits.
pub proof fn lemma_hex_group_width(n: nat)
    requires
        n <= 0xFFFF,
    ensures
        1 <= numeral(n, 16).len() <= 4,
{
    reveal_with_fuel(numeral, 4);
}

} // verus!
