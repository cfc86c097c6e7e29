//! Characters, whitespace-separated tokens, separated fields and numerals:
//! the vocabulary in which record values are read and written.

use vstd::prelude::*;
use vstd::string::*;

verus! {

/// The characters of `s`, one by one.
pub fn to_chars(s: &str) -> (chars: Vec<char>)
    ensures
        chars@ == s@,
{
    let mut chars: Vec<char> = Vec::new();
    for c in it: s.chars()
        invariant
            it.seq() == s@,
            chars@ == it.seq().take(it.index() as int),
    {
        chars.push(c);
    }
    chars
}

/// Tells whether two strings hold the same characters.
pub fn same_text(a: &str, b: &str) -> (same: bool)
    ensures
        same == (a@ == b@),
{
    let x = to_chars(a);
    let y = to_chars(b);
    if x.len() != y.len() {
        return false;
    }
    let mut i: usize = 0;
    while i < x.len()
        invariant
            x@ == a@,
            y@ == b@,
            x.len() == y.len(),
            i <= x.len(),
            x@.take(i as int) == y@.take(i as int),
        decreases x.len() - i,
    {
        if x[i] != y[i] {
            return false;
        }
        assert(x@.take(i + 1) =~= x@.take(i as int).push(x@[i as int]));
        assert(y@.take(i + 1) =~= y@.take(i as int).push(y@[i as int]));
        i = i + 1;
    }
    assert(x@ =~= x@.take(i as int));
    assert(y@ =~= y@.take(i as int));
    true
}

/// The characters with the Unicode property `White_Space`.
pub open spec fn is_whitespace(c: char) -> bool {
    let u = c as u32;
    ||| 0x09 <= u <= 0x0D
    ||| u == 0x20
    ||| u == 0x85
    ||| u == 0xA0
    ||| u == 0x1680
    ||| 0x2000 <= u <= 0x200A
    ||| u == 0x2028
    ||| u == 0x2029
    ||| u == 0x202F
    ||| u == 0x205F
    ||| u == 0x3000
}

/// Tells whether `c` is a whitespace character.
pub fn whitespace(c: char) -> (b: bool)
    ensures
        b == is_whitespace(c),
{
    let u: u32 = c as u32;
    (0x09 <= u && u <= 0x0D) || u == 0x20 || u == 0x85 || u == 0xA0 || u == 0x1680 || (0x2000 <= u
        && u <= 0x200A) || u == 0x2028 || u == 0x2029 || u == 0x202F || u == 0x205F || u == 0x3000
}

/// No character of `s` is whitespace.
pub open spec fn is_solid(s: Seq<char>) -> bool {
    forall|i: int| 0 <= i < s.len() ==> !is_whitespace(#[trigger] s[i])
}

/// The length of the longest whitespace-free prefix of `s`.
pub open spec fn word_len(s: Seq<char>) -> int
    decreases s.len(),
{
    if s.len() == 0 || is_whitespace(s[0]) {
        0
    } else {
        1 + word_len(s.drop_first())
    }
}

/// The whitespace-separated tokens of `s`: its maximal runs of characters
/// that are not whitespace, from left to right.
pub open spec fn tokens(s: Seq<char>) -> Seq<Seq<char>>
    decreases s.len(),
{
    if s.len() == 0 {
        Seq::empty()
    } else if is_whitespace(s[0]) {
        tokens(s.drop_first())
    } else {
        proof {
            lemma_word_len(s);
        }
        seq![s.take(word_len(s))] + tokens(s.skip(word_len(s)))
    }
}

/// `word_len(s)` marks the end of the first whitespace-free run of `s`.
pub proof fn lemma_word_len(s: Seq<char>)
    ensures
        0 <= word_len(s) <= s.len(),
        is_solid(s.take(word_len(s))),
        word_len(s) < s.len() ==> is_whitespace(s[word_len(s)]),
        s.len() > 0 && !is_whitespace(s[0]) ==> word_len(s) >= 1,
    decreases s.len(),
{
    if s.len() == 0 || is_whitespace(s[0]) {
    } else {
        let rest = s.drop_first();
        lemma_word_len(rest);
        let n = word_len(s);
        assert forall|i: int| 0 <= i < n implies !is_whitespace(#[trigger] s.take(n)[i]) by {
            if i > 0 {
                assert(s.take(n)[i] == rest.take(n - 1)[i - 1]);
            }
        }
        if n < s.len() {
            assert(s[n] == rest[n - 1]);
        }
    }
}

/// The end of the first whitespace-free run of `s` is where `word_len`
/// puts it.
pub proof fn lemma_word_len_unique(s: Seq<char>, n: int)
    requires
        0 <= n <= s.len(),
        is_solid(s.take(n)),
        n < s.len() ==> is_whitespace(s[n]),
    ensures
        word_len(s) == n,
    decreases n,
{
    if n == 0 {
    } else {
        assert(s.take(n)[0] == s[0]);
        let rest = s.drop_first();
        assert forall|i: int| 0 <= i < n - 1 implies !is_whitespace(#[trigger] rest.take(n - 1)[i]) by {
            assert(rest.take(n - 1)[i] == s.take(n)[i + 1]);
        }
        lemma_word_len_unique(rest, n - 1);
    }
}

/// Every token is non-empty and free of whitespace.
pub proof fn lemma_tokens_are_solid(s: Seq<char>)
    ensures
        forall|k: int|
            0 <= k < tokens(s).len() ==> (#[trigger] tokens(s)[k]).len() > 0 && is_solid(
                tokens(s)[k],
            ),
    decreases s.len(),
{
    if s.len() == 0 {
        assert(tokens(s).len() == 0);
    } else if is_whitespace(s[0]) {
        lemma_tokens_are_solid(s.drop_first());
        assert(tokens(s) == tokens(s.drop_first()));
    } else {
        lemma_word_len(s);
        let rest = tokens(s.skip(word_len(s)));
        assert(tokens(s) == seq![s.take(word_len(s))] + rest);
        lemma_tokens_are_solid(s.skip(word_len(s)));
        assert forall|k: int| 0 <= k < tokens(s).len() implies (#[trigger] tokens(s)[k]).len() > 0
            && is_solid(tokens(s)[k]) by {
            if k > 0 {
                assert(tokens(s)[k] == rest[k - 1]);
            }
        }
    }
}

/// A non-empty text without whitespace is its own single token.
pub proof fn lemma_tokens_of_word(w: Seq<char>)
    requires
        w.len() > 0,
        is_solid(w),
    ensures
        tokens(w) == seq![w],
{
    assert(w.take(w.len() as int) =~= w);
    lemma_word_len_unique(w, w.len() as int);
    assert(w.skip(w.len() as int) =~= Seq::<char>::empty());
    assert(tokens(w.skip(w.len() as int)) =~= Seq::<Seq<char>>::empty());
    assert(tokens(w) =~= seq![w]);
}

/// A word, one whitespace character and more text: the word is the first
/// token, and the tokens of the rest follow.
pub proof fn lemma_tokens_of_word_then(w: Seq<char>, gap: char, rest: Seq<char>)
    requires
        w.len() > 0,
        is_solid(w),
        is_whitespace(gap),
    ensures
        tokens(w + seq![gap] + rest) == seq![w] + tokens(rest),
{
    let s = w + seq![gap] + rest;
    let n = w.len() as int;
    assert(s.take(n) =~= w);
    assert(s[n] == gap);
    assert(s[0] == w[0]);
    lemma_word_len_unique(s, n);
    let tail = s.skip(n);
    assert(tail[0] == gap);
    assert(tail.drop_first() =~= rest);
    assert(tokens(tail) == tokens(rest));
}

/// Where the tokens of a text stand: for each token the index of its first
/// character and the index just past its last one.
pub fn token_spans(s: &Vec<char>) -> (spans: Vec<(usize, usize)>)
    ensures
        spans@.len() == tokens(s@).len(),
        forall|k: int|
            0 <= k < spans@.len() ==> 0 <= (#[trigger] spans@[k]).0 < spans@[k].1 <= s@.len()
                && s@.subrange(spans@[k].0 as int, spans@[k].1 as int) == tokens(s@)[k],
{
    let mut spans: Vec<(usize, usize)> = Vec::new();
    let ghost mut found: Seq<Seq<char>> = Seq::empty();
    let mut i: usize = 0;
    proof {
        assert(s@.skip(0) =~= s@);
        assert(found + tokens(s@) =~= tokens(s@));
    }
    while i < s.len()
        invariant
            i <= s@.len(),
            spans@.len() == found.len(),
            forall|k: int|
                0 <= k < spans@.len() ==> 0 <= (#[trigger] spans@[k]).0 < spans@[k].1 <= s@.len()
                    && s@.subrange(spans@[k].0 as int, spans@[k].1 as int) == found[k],
            tokens(s@) == found + tokens(s@.skip(i as int)),
        decreases s@.len() - i,
    {
        let ghost here = s@.skip(i as int);
        if whitespace(s[i]) {
            assert(here.drop_first() =~= s@.skip(i + 1));
            i = i + 1;
        } else {
            let start: usize = i;
            let mut j: usize = i + 1;
            while j < s.len() && !whitespace(s[j])
                invariant
                    start < j <= s@.len(),
                    forall|k: int| start <= k < j ==> !is_whitespace(#[trigger] s@[k]),
                decreases s@.len() - j,
            {
                j = j + 1;
            }
            proof {
                let n = j - start;
                assert(here.take(n) =~= s@.subrange(start as int, j as int));
                assert forall|k: int| 0 <= k < n implies !is_whitespace(
                    #[trigger] here.take(n)[k],
                ) by {
                    assert(here.take(n)[k] == s@[start + k]);
                }
                lemma_word_len_unique(here, n);
                assert(here.skip(n) =~= s@.skip(j as int));
                assert(found + (seq![here.take(n)] + tokens(here.skip(n))) =~= found.push(
                    here.take(n),
                ) + tokens(s@.skip(j as int)));
                found = found.push(here.take(n));
            }
            spans.push((start, j));
            i = j;
        }
    }
    proof {
        assert(s@.skip(i as int) =~= Seq::<char>::empty());
        assert(found + tokens(s@.skip(i as int)) =~= found);
    }
    spans
}

/// The character `c` does not occur in `s`.
pub open spec fn is_free_of(s: Seq<char>, c: char) -> bool {
    forall|i: int| 0 <= i < s.len() ==> #[trigger] s[i] != c
}

/// The index of the first `sep` in `s`, or the length of `s` if there is
/// none.
pub open spec fn field_len(s: Seq<char>, sep: char) -> int
    decreases s.len(),
{
    if s.len() == 0 || s[0] == sep {
        0
    } else {
        1 + field_len(s.drop_first(), sep)
    }
}

/// The fields of `s`: what stands before, between and after its occurrences
/// of `sep`. A text with `k` separators has `k + 1` fields, empty ones
/// included.
pub open spec fn fields(s: Seq<char>, sep: char) -> Seq<Seq<char>>
    decreases s.len(),
{
    if field_len(s, sep) >= s.len() {
        seq![s]
    } else {
        proof {
            lemma_field_len(s, sep);
        }
        seq![s.take(field_len(s, sep))] + fields(s.skip(field_len(s, sep) + 1), sep)
    }
}

/// The fields `parts` written one after the other with `sep` between them.
pub open spec fn join(parts: Seq<Seq<char>>, sep: char) -> Seq<char>
    decreases parts.len(),
{
    if parts.len() == 0 {
        Seq::empty()
    } else if parts.len() == 1 {
        parts[0]
    } else {
        parts[0] + seq![sep] + join(parts.drop_first(), sep)
    }
}

/// `field_len(s, sep)` marks the end of the first field of `s`.
pub proof fn lemma_field_len(s: Seq<char>, sep: char)
    ensures
        0 <= field_len(s, sep) <= s.len(),
        is_free_of(s.take(field_len(s, sep)), sep),
        field_len(s, sep) < s.len() ==> s[field_len(s, sep)] == sep,
    decreases s.len(),
{
    if s.len() == 0 || s[0] == sep {
    } else {
        let rest = s.drop_first();
        lemma_field_len(rest, sep);
        let n = field_len(s, sep);
        assert forall|i: int| 0 <= i < n implies #[trigger] s.take(n)[i] != sep by {
            if i > 0 {
                assert(s.take(n)[i] == rest.take(n - 1)[i - 1]);
            }
        }
        if n < s.len() {
            assert(s[n] == rest[n - 1]);
        }
    }
}

/// The end of the first field of `s` is where `field_len` puts it.
pub proof fn lemma_field_len_unique(s: Seq<char>, sep: char, n: int)
    requires
        0 <= n <= s.len(),
        is_free_of(s.take(n), sep),
        n < s.len() ==> s[n] == sep,
    ensures
        field_len(s, sep) == n,
    decreases n,
{
    if n == 0 {
    } else {
        assert(s.take(n)[0] == s[0]);
        let rest = s.drop_first();
        assert forall|i: int| 0 <= i < n - 1 implies #[trigger] rest.take(n - 1)[i] != sep by {
            assert(rest.take(n - 1)[i] == s.take(n)[i + 1]);
        }
        lemma_field_len_unique(rest, sep, n - 1);
    }
}

/// A text has at least one field, and no field holds the separator.
pub proof fn lemma_fields_are_free(s: Seq<char>, sep: char)
    ensures
        fields(s, sep).len() >= 1,
        forall|k: int| 0 <= k < fields(s, sep).len() ==> is_free_of(#[trigger] fields(s, sep)[k], sep),
    decreases s.len(),
{
    lemma_field_len(s, sep);
    let n = field_len(s, sep);
    if n >= s.len() {
        assert(s.take(n) =~= s);
        assert(fields(s, sep) == seq![s]);
    } else {
        let rest = fields(s.skip(n + 1), sep);
        lemma_fields_are_free(s.skip(n + 1), sep);
        assert(fields(s, sep) == seq![s.take(n)] + rest);
        assert forall|k: int| 0 <= k < fields(s, sep).len() implies is_free_of(
            #[trigger] fields(s, sep)[k],
            sep,
        ) by {
            if k > 0 {
                assert(fields(s, sep)[k] == rest[k - 1]);
            }
        }
    }
}

/// Joining after one more field puts the separator and the field at the
/// end.
pub proof fn lemma_join_push(parts: Seq<Seq<char>>, last: Seq<char>, sep: char)
    requires
        parts.len() >= 1,
    ensures
        join(parts.push(last), sep) == join(parts, sep) + seq![sep] + last,
    decreases parts.len(),
{
    let all = parts.push(last);
    assert(all[0] == parts[0]);
    if parts.len() == 1 {
        assert(all.drop_first() =~= seq![last]);
        assert(join(all.drop_first(), sep) == last);
    } else {
        assert(all.drop_first() =~= parts.drop_first().push(last));
        lemma_join_push(parts.drop_first(), last, sep);
        assert(join(all, sep) =~= join(parts, sep) + seq![sep] + last);
    }
}

/// Fields that are free of the separator are what their joined text splits
/// into.
pub proof fn lemma_fields_of_join(parts: Seq<Seq<char>>, sep: char)
    requires
        parts.len() >= 1,
        forall|k: int| 0 <= k < parts.len() ==> is_free_of(#[trigger] parts[k], sep),
    ensures
        fields(join(parts, sep), sep) == parts,
    decreases parts.len(),
{
    let s = join(parts, sep);
    let first = parts[0];
    if parts.len() == 1 {
        assert(s.take(s.len() as int) =~= s);
        lemma_field_len_unique(s, sep, s.len() as int);
        assert(fields(s, sep) =~= parts);
    } else {
        let rest = parts.drop_first();
        let n = first.len() as int;
        assert(s == first + seq![sep] + join(rest, sep));
        assert(s.take(n) =~= first);
        assert(s[n] == sep);
        lemma_field_len_unique(s, sep, n);
        assert(s.skip(n + 1) =~= join(rest, sep));
        assert forall|k: int| 0 <= k < rest.len() implies is_free_of(#[trigger] rest[k], sep) by {
            assert(rest[k] == parts[k + 1]);
        }
        lemma_fields_of_join(rest, sep);
        assert(fields(s, sep) =~= parts);
    }
}

/// Joined parts hold a character only if a part holds it or it is the
/// separator.
pub proof fn lemma_join_is_free(parts: Seq<Seq<char>>, sep: char, c: char)
    requires
        c != sep,
        forall|k: int| 0 <= k < parts.len() ==> is_free_of(#[trigger] parts[k], c),
    ensures
        is_free_of(join(parts, sep), c),
    decreases parts.len(),
{
    if parts.len() >= 2 {
        let rest = parts.drop_first();
        assert forall|k: int| 0 <= k < rest.len() implies is_free_of(#[trigger] rest[k], c) by {
            assert(rest[k] == parts[k + 1]);
        }
        lemma_join_is_free(rest, sep, c);
        let s = join(parts, sep);
        let n = parts[0].len() as int;
        assert forall|i: int| 0 <= i < s.len() implies #[trigger] s[i] != c by {
            if i < n {
                assert(s[i] == parts[0][i]);
            } else if i > n {
                assert(s[i] == join(rest, sep)[i - n - 1]);
            }
        }
    }
}

/// Where the fields of the text from `start` up to `end` stand: for each
/// field the index of its first character and the index just past its last
/// one.
pub fn field_spans(s: &Vec<char>, start: usize, end: usize, sep: char) -> (spans: Vec<
    (usize, usize),
>)
    requires
        start <= end <= s@.len(),
    ensures
        spans@.len() == fields(s@.subrange(start as int, end as int), sep).len(),
        forall|k: int|
            0 <= k < spans@.len() ==> start <= (#[trigger] spans@[k]).0 <= spans@[k].1 <= end
                && s@.subrange(spans@[k].0 as int, spans@[k].1 as int) == fields(
                s@.subrange(start as int, end as int),
                sep,
            )[k],
{
    let ghost text = s@.subrange(start as int, end as int);
    let mut spans: Vec<(usize, usize)> = Vec::new();
    let ghost mut found: Seq<Seq<char>> = Seq::empty();
    let mut from: usize = start;
    let mut i: usize = start;
    proof {
        assert(text.skip(0) =~= text);
        assert(found + fields(text, sep) =~= fields(text, sep));
    }
    while i < end
        invariant
            start <= from <= i <= end <= s@.len(),
            text == s@.subrange(start as int, end as int),
            spans@.len() == found.len(),
            forall|k: int|
                0 <= k < spans@.len() ==> start <= (#[trigger] spans@[k]).0 <= spans@[k].1 <= end
                    && s@.subrange(spans@[k].0 as int, spans@[k].1 as int) == found[k],
            fields(text, sep) == found + fields(text.skip(from - start), sep),
            forall|k: int| from <= k < i ==> #[trigger] s@[k] != sep,
        decreases end - i,
    {
        if s[i] == sep {
            proof {
                let here = text.skip(from - start);
                let n = i - from;
                assert(here.take(n) =~= s@.subrange(from as int, i as int));
                assert forall|k: int| 0 <= k < n implies #[trigger] here.take(n)[k] != sep by {
                    assert(here.take(n)[k] == s@[from + k]);
                }
                assert(here[n] == s@[i as int]);
                lemma_field_len_unique(here, sep, n);
                assert(here.skip(n + 1) =~= text.skip(i + 1 - start));
                assert(found + (seq![here.take(n)] + fields(here.skip(n + 1), sep)) =~= found.push(
                    here.take(n),
                ) + fields(text.skip(i + 1 - start), sep));
                found = found.push(here.take(n));
            }
            spans.push((from, i));
            from = i + 1;
        }
        i = i + 1;
    }
    proof {
        let here = text.skip(from - start);
        let n = end - from;
        assert(here =~= s@.subrange(from as int, end as int));
        assert(here.take(n) =~= here);
        assert forall|k: int| 0 <= k < n implies #[trigger] here.take(n)[k] != sep by {
            assert(here.take(n)[k] == s@[from + k]);
        }
        lemma_field_len_unique(here, sep, n);
        assert(found + seq![here] =~= found.push(here));
        found = found.push(here);
    }
    spans.push((from, end));
    spans
}

} // verus!
