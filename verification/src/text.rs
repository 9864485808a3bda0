//! Text primitives: trimming, searching, case folding, decimal numbers.

use vstd::prelude::*;

verus! {

/// Appends one character; the behaviour of `String::push`.
pub assume_specification[ String::push ](s: &mut String, c: char)
    ensures
        final(s)@ == old(s)@.push(c),
;

/// What `str::to_lowercase` makes of a text: every character is replaced by
/// the characters of its Unicode lowercase form, which may be several. A
/// capital sigma takes the form that its place in a word asks for, so that the
/// result is not made character by character.
pub uninterp spec fn lowercased(text: Seq<char>) -> Seq<char>;

/// `str::to_lowercase`: the result depends on the text alone.
#[verifier::external_body]
pub(crate) fn lowercase(s: &str) -> (r: String)
    ensures
        r@ == lowercased(s@),
{
    s.to_lowercase()
}

/// A copy of an optional text.
pub(crate) fn copy_text(text: &Option<String>) -> (r: Option<String>)
    ensures
        r == *text,
{
    match text {
        Some(text) => Some(text.clone()),
        None => None,
    }
}

/// A copy of a list of texts.
pub(crate) fn copy_texts(list: &Vec<String>) -> (r: Vec<String>)
    ensures
        r@ == list@,
{
    let mut copy: Vec<String> = Vec::new();
    let mut i: usize = 0;
    while i < list.len()
        invariant
            i <= list@.len(),
            copy@ == list@.take(i as int),
        decreases list@.len() - i,
    {
        copy.push(list[i].clone());
        i = i + 1;
        assert(copy@ =~= list@.take(i as int));
    }
    assert(list@.take(list@.len() as int) =~= list@);
    copy
}

/// The characters of an optional text.
pub open spec fn opt_view(text: Option<String>) -> Option<Seq<char>> {
    match text {
        Some(text) => Some(text@),
        None => None,
    }
}

/// The characters with the Unicode `White_Space` property.
pub open spec fn white_space(c: char) -> bool {
    ||| '\u{9}' <= c <= '\u{d}'
    ||| c == ' '
    ||| c == '\u{85}'
    ||| c == '\u{a0}'
    ||| c == '\u{1680}'
    ||| '\u{2000}' <= c <= '\u{200a}'
    ||| c == '\u{2028}'
    ||| c == '\u{2029}'
    ||| c == '\u{202f}'
    ||| c == '\u{205f}'
    ||| c == '\u{3000}'
}

/// Whether `c` has the Unicode `White_Space` property.
pub fn is_white_space(c: char) -> (r: bool)
    ensures
        r == white_space(c),
{
    ('\u{9}' <= c && c <= '\u{d}') || c == ' ' || c == '\u{85}' || c == '\u{a0}' || c == '\u{1680}'
        || ('\u{2000}' <= c && c <= '\u{200a}') || c == '\u{2028}' || c == '\u{2029}'
        || c == '\u{202f}' || c == '\u{205f}' || c == '\u{3000}'
}

/// The characters of `s`, in order.
pub fn chars_of(s: &str) -> (r: Vec<char>)
    ensures
        r@ == s@,
{
    let mut r: Vec<char> = Vec::new();
    for c in it: s.chars()
        invariant
            r@ == s@.take(it.index() as int),
            it.seq() == s@,
    {
        r.push(c);
        assert(r@ =~= s@.take(it.index() as int + 1));
    }
    assert(s@.take(s@.len() as int) =~= s@);
    r
}

/// The text made of the characters of `v` from `from` up to `to`.
pub fn text_between(v: &Vec<char>, from: usize, to: usize) -> (r: String)
    requires
        from <= to <= v@.len(),
    ensures
        r@ == v@.subrange(from as int, to as int),
{
    let mut r = String::new();
    let mut i: usize = from;
    while i < to
        invariant
            from <= i <= to <= v@.len(),
            r@ == v@.subrange(from as int, i as int),
        decreases to - i,
    {
        r.push(v[i]);
        i = i + 1;
        assert(r@ =~= v@.subrange(from as int, i as int));
    }
    r
}

/// Whether two texts hold the same characters.
pub fn text_equal(a: &str, b: &str) -> (r: bool)
    ensures
        r == (a@ == b@),
{
    let x = chars_of(a);
    let y = chars_of(b);
    if x.len() != y.len() {
        return false;
    }
    let mut i: usize = 0;
    while i < x.len()
        invariant
            i <= x.len(),
            x@ == a@,
            y@ == b@,
            x@.len() == y@.len(),
            x@.take(i as int) =~= y@.take(i as int),
        decreases x.len() - i,
    {
        if x[i] != y[i] {
            return false;
        }
        i = i + 1;
        assert(x@.take(i as int) =~= x@.take(i - 1).push(x@[i - 1]));
        assert(y@.take(i as int) =~= y@.take(i - 1).push(y@[i - 1]));
    }
    assert(x@.take(x@.len() as int) =~= x@);
    assert(y@.take(y@.len() as int) =~= y@);
    true
}

/// `s` without the white space at its start.
pub open spec fn trimmed_start(s: Seq<char>) -> Seq<char>
    decreases s.len(),
{
    if s.len() > 0 && white_space(s[0]) {
        trimmed_start(s.drop_first())
    } else {
        s
    }
}

/// `s` without the white space at its end.
pub open spec fn trimmed_end(s: Seq<char>) -> Seq<char>
    decreases s.len(),
{
    if s.len() > 0 && white_space(s.last()) {
        trimmed_end(s.drop_last())
    } else {
        s
    }
}

/// `s` without the white space at both ends.
pub open spec fn trimmed(s: Seq<char>) -> Seq<char> {
    trimmed_end(trimmed_start(s))
}

/// Drops the white space at the start.
pub fn trim_start(s: &str) -> (r: String)
    ensures
        r@ == trimmed_start(s@),
{
    let v = chars_of(s);
    let mut from: usize = 0;
    assert(v@.subrange(0, v@.len() as int) =~= v@);
    while from < v.len() && is_white_space(v[from])
        invariant
            from <= v@.len(),
            trimmed_start(v@.subrange(from as int, v@.len() as int)) == trimmed_start(v@),
        decreases v@.len() - from,
    {
        assert(v@.subrange(from as int, v@.len() as int).drop_first() =~= v@.subrange(
            from + 1,
            v@.len() as int,
        ));
        from = from + 1;
    }
    text_between(&v, from, v.len())
}

/// Drops the white space at both ends.
pub fn trim(s: &str) -> (r: String)
    ensures
        r@ == trimmed(s@),
{
    let v = chars_of(&trim_start(s));
    let mut to: usize = v.len();
    assert(v@.subrange(0, v@.len() as int) =~= v@);
    while to > 0 && is_white_space(v[to - 1])
        invariant
            to <= v@.len(),
            trimmed_end(v@.subrange(0, to as int)) == trimmed_end(v@),
        decreases to,
    {
        assert(v@.subrange(0, to as int).drop_last() =~= v@.subrange(0, to - 1));
        to = to - 1;
    }
    text_between(&v, 0, to)
}

/// Whether `s` consists of white space alone.
pub fn is_blank(s: &str) -> (r: bool)
    ensures
        r == (trimmed(s@).len() == 0),
{
    trim(s).as_str().is_empty()
}

/// Whether `s` starts with `prefix`.
pub fn starts_with(s: &str, prefix: &str) -> (r: bool)
    ensures
        r == prefix@.is_prefix_of(s@),
{
    let v = chars_of(s);
    let p = chars_of(prefix);
    if p.len() > v.len() {
        return false;
    }
    let mut i: usize = 0;
    while i < p.len()
        invariant
            i <= p@.len() <= v@.len(),
            v@ == s@,
            p@ == prefix@,
            forall|j: int| 0 <= j < i ==> v@[j] == p@[j],
        decreases p@.len() - i,
    {
        if v[i] != p[i] {
            assert(v@.subrange(0, p@.len() as int)[i as int] == v@[i as int]);
            return false;
        }
        i = i + 1;
    }
    assert(v@.subrange(0, p@.len() as int) =~= p@);
    true
}

/// Whether `s` ends with `suffix`.
pub fn ends_with(s: &str, suffix: &str) -> (r: bool)
    ensures
        r == suffix@.is_suffix_of(s@),
{
    let v = chars_of(s);
    let p = chars_of(suffix);
    if p.len() > v.len() {
        return false;
    }
    let at: usize = v.len() - p.len();
    let mut i: usize = 0;
    while i < p.len()
        invariant
            i <= p@.len() <= v@.len(),
            at == v.len() - p@.len(),
            v@ == s@,
            p@ == suffix@,
            forall|j: int| 0 <= j < i ==> v@[at + j] == p@[j],
        decreases p@.len() - i,
    {
        if v[at + i] != p[i] {
            assert(v@.subrange(at as int, v@.len() as int)[i as int] == v@[at + i]);
            return false;
        }
        i = i + 1;
    }
    assert(v@.subrange(at as int, v@.len() as int) =~= p@);
    true
}

/// What follows `prefix` in `s`, if `s` starts with it.
pub fn strip_prefix(s: &str, prefix: &str) -> (r: Option<String>)
    ensures
        match r {
            Some(rest) => s@ == prefix@ + rest@,
            None => !prefix@.is_prefix_of(s@),
        },
{
    if !starts_with(s, prefix) {
        return None;
    }
    let v = chars_of(s);
    let rest = text_between(&v, prefix.unicode_len(), v.len());
    assert(s@ =~= prefix@ + rest@);
    Some(rest)
}

/// What precedes `suffix` in `s`, if `s` ends with it.
pub fn strip_suffix(s: &str, suffix: &str) -> (r: Option<String>)
    ensures
        match r {
            Some(rest) => s@ == rest@ + suffix@,
            None => !suffix@.is_suffix_of(s@),
        },
{
    if !ends_with(s, suffix) {
        return None;
    }
    let v = chars_of(s);
    let rest = text_between(&v, 0, v.len() - suffix.unicode_len());
    assert(s@ =~= rest@ + suffix@);
    Some(rest)
}

/// Whether `needle` occurs in `s` at the position `i`.
pub open spec fn occurs_at(s: Seq<char>, needle: Seq<char>, i: int) -> bool {
    0 <= i && i + needle.len() <= s.len() && s.subrange(i, i + needle.len()) == needle
}

/// Whether `needle` occurs in `s`.
pub open spec fn occurs_in(s: Seq<char>, needle: Seq<char>) -> bool {
    exists|i: int| occurs_at(s, needle, i)
}

/// Whether `needle` occurs in `s`.
pub fn contains(s: &str, needle: &str) -> (r: bool)
    ensures
        r == occurs_in(s@, needle@),
{
    let v = chars_of(s);
    let p = chars_of(needle);
    if p.len() > v.len() {
        return false;
    }
    let last: usize = v.len() - p.len();
    let mut i: usize = 0;
    while i <= last
        invariant
            i <= last + 1,
            last == v@.len() - p@.len(),
            forall|j: int| 0 <= j < i ==> !occurs_at(v@, p@, j),
            v@ == s@,
            p@ == needle@,
        decreases last + 1 - i,
    {
        let mut k: usize = 0;
        while k < p.len() && v[i + k] == p[k]
            invariant
                k <= p@.len(),
                i + p@.len() <= v.len(),
                forall|j: int| 0 <= j < k ==> v@[i + j] == p@[j],
            decreases p@.len() - k,
        {
            k = k + 1;
        }
        if k == p.len() {
            assert(v@.subrange(i as int, i + p@.len()) =~= p@);
            assert(occurs_at(v@, p@, i as int));
            return true;
        }
        assert(!occurs_at(v@, p@, i as int)) by {
            if occurs_at(v@, p@, i as int) {
                assert(v@.subrange(i as int, i + p@.len())[k as int] == v@[i + k]);
            }
        }
        if i == last {
            return false;
        }
        i = i + 1;
    }
    false
}

/// Parts `s` at the first `c`: what precedes it and what follows it.
pub fn split_once(s: &str, c: char) -> (r: Option<(String, String)>)
    ensures
        match r {
            Some((before, after)) => s@ == before@.push(c) + after@ && !before@.contains(c),
            None => !s@.contains(c),
        },
{
    let v = chars_of(s);
    let mut i: usize = 0;
    while i < v.len()
        invariant
            i <= v@.len(),
            v@ == s@,
            forall|j: int| 0 <= j < i ==> v@[j] != c,
        decreases v@.len() - i,
    {
        if v[i] == c {
            let before = text_between(&v, 0, i);
            let after = text_between(&v, i + 1, v.len());
            assert(s@ =~= before@.push(c) + after@);
            return Some((before, after));
        }
        i = i + 1;
    }
    None
}

/// The ASCII lowercase form of a character.
pub open spec fn ascii_lower_char(c: char) -> char {
    if 'A' <= c <= 'Z' {
        ((c as u32 + 32) as u32) as char
    } else {
        c
    }
}

/// `s` with the letters `A` to `Z` in lower case.
pub open spec fn ascii_lower(s: Seq<char>) -> Seq<char> {
    s.map_values(|c: char| ascii_lower_char(c))
}

fn lower_char(c: char) -> (r: char)
    ensures
        r == ascii_lower_char(c),
{
    if 'A' <= c && c <= 'Z' {
        (c as u8 + 32) as char
    } else {
        c
    }
}

/// Puts the letters `A` to `Z` in lower case.
pub fn to_ascii_lowercase(s: &str) -> (r: String)
    ensures
        r@ == ascii_lower(s@),
{
    let v = chars_of(s);
    let mut r = String::new();
    let mut i: usize = 0;
    while i < v.len()
        invariant
            i <= v@.len(),
            r@ == ascii_lower(v@.take(i as int)),
        decreases v@.len() - i,
    {
        r.push(lower_char(v[i]));
        i = i + 1;
        assert(r@ =~= ascii_lower(v@.take(i as int)));
    }
    assert(v@.take(v@.len() as int) =~= v@);
    r
}

/// `s` with every `from` replaced by `to`.
pub open spec fn char_replaced(s: Seq<char>, from: char, to: char) -> Seq<char> {
    s.map_values(|c: char| if c == from { to } else { c })
}

/// Replaces every `from` by `to`.
pub fn replace_char(s: &str, from: char, to: char) -> (r: String)
    ensures
        r@ == char_replaced(s@, from, to),
{
    let v = chars_of(s);
    let mut r = String::new();
    let mut i: usize = 0;
    while i < v.len()
        invariant
            i <= v@.len(),
            r@ == char_replaced(v@.take(i as int), from, to),
        decreases v@.len() - i,
    {
        if v[i] == from {
            r.push(to);
        } else {
            r.push(v[i]);
        }
        i = i + 1;
        assert(r@ =~= char_replaced(v@.take(i as int), from, to));
    }
    assert(v@.take(v@.len() as int) =~= v@);
    r
}

/// `s` without the run of `c` at its end.
pub open spec fn char_trimmed_end(s: Seq<char>, c: char) -> Seq<char>
    decreases s.len(),
{
    if s.len() > 0 && s.last() == c {
        char_trimmed_end(s.drop_last(), c)
    } else {
        s
    }
}

/// Drops the run of `c` at the end.
pub fn trim_end_char(s: &str, c: char) -> (r: String)
    ensures
        r@ == char_trimmed_end(s@, c),
{
    let v = chars_of(s);
    let mut to: usize = v.len();
    assert(v@.subrange(0, v@.len() as int) =~= v@);
    while to > 0 && v[to - 1] == c
        invariant
            to <= v@.len(),
            char_trimmed_end(v@.subrange(0, to as int), c) == char_trimmed_end(v@, c),
        decreases to,
    {
        assert(v@.subrange(0, to as int).drop_last() =~= v@.subrange(0, to - 1));
        to = to - 1;
    }
    text_between(&v, 0, to)
}

/// The decimal digit of value `d`.
pub open spec fn digit_char(d: int) -> char {
    ('0' as u32 + d) as u32 as char
}

/// The decimal form of `n`, without leading zeros.
pub open spec fn decimal(n: nat) -> Seq<char>
    decreases n,
{
    if n < 10 {
        seq![digit_char(n as int)]
    } else {
        decimal(n / 10).push(digit_char((n % 10) as int))
    }
}

/// Writes `n` in decimal.
pub fn decimal_text(n: u64) -> (r: String)
    ensures
        r@ == decimal(n as nat),
    decreases n,
{
    let digit = (48 + (n % 10) as u8) as char;
    if n < 10 {
        let mut r = String::new();
        r.push(digit);
        assert(r@ =~= decimal(n as nat));
        r
    } else {
        let mut r = decimal_text(n / 10);
        r.push(digit);
        r
    }
}

/// The value of a run of decimal digits; none where another character stands
/// in it. The empty run has the value zero.
pub open spec fn digits_value(s: Seq<char>) -> Option<nat>
    decreases s.len(),
{
    if s.len() == 0 {
        Some(0)
    } else {
        match digits_value(s.drop_last()) {
            Some(v) => if '0' <= s.last() <= '9' {
                Some(v * 10 + (s.last() as nat - '0' as nat) as nat)
            } else {
                None
            },
            None => None,
        }
    }
}

/// The digits of an unsigned number: what follows an optional `+`.
pub open spec fn unsigned_digits(s: Seq<char>) -> Seq<char> {
    if s.len() > 0 && s[0] == '+' {
        s.drop_first()
    } else {
        s
    }
}

/// The number below `2^64` that `s` spells: an optional `+` and at least one
/// digit.
pub open spec fn unsigned_value(s: Seq<char>) -> Option<nat> {
    let digits = unsigned_digits(s);
    match digits_value(digits) {
        Some(v) => if digits.len() > 0 && v <= u64::MAX {
            Some(v)
        } else {
            None
        },
        None => None,
    }
}

proof fn lemma_prefix_value(s: Seq<char>, i: int)
    requires
        0 <= i <= s.len(),
        digits_value(s) is Some,
    ensures
        digits_value(s.take(i)) is Some,
        digits_value(s.take(i))->0 <= digits_value(s)->0,
    decreases s.len() - i,
{
    if i == s.len() {
        assert(s.take(i) =~= s);
    } else {
        lemma_prefix_value(s, i + 1);
        assert(s.take(i + 1).drop_last() =~= s.take(i));
    }
}

/// Reads an unsigned number: an optional `+` and at least one digit.
pub fn parse_unsigned(s: &str) -> (r: Option<u64>)
    ensures
        match r {
            Some(n) => unsigned_value(s@) == Some(n as nat),
            None => unsigned_value(s@) is None,
        },
{
    let v = chars_of(s);
    let mut i: usize = 0;
    if v.len() > 0 && v[0] == '+' {
        i = 1;
    }
    let from: usize = i;
    let ghost digits = v@.subrange(from as int, v@.len() as int);
    assert(digits =~= unsigned_digits(s@));
    if from == v.len() {
        return None;
    }
    let mut value: u64 = 0;
    assert(digits.take(0) =~= Seq::<char>::empty());
    while i < v.len()
        invariant
            from <= i <= v@.len(),
            digits == v@.subrange(from as int, v@.len() as int),
            digits == unsigned_digits(s@),
            digits.len() > 0,
            digits_value(digits.take(i - from)) == Some(value as nat),
        decreases v@.len() - i,
    {
        let c = v[i];
        proof {
            assert(digits.take(i - from + 1).drop_last() =~= digits.take(i - from));
            assert(digits.take(i - from + 1).last() == c);
            if digits_value(digits) is Some {
                lemma_prefix_value(digits, i - from + 1);
            }
        }
        if !('0' <= c && c <= '9') {
            return None;
        }
        let digit: u64 = (c as u8 - 48) as u64;
        let next = match value.checked_mul(10) {
            Some(tens) => tens.checked_add(digit),
            None => None,
        };
        match next {
            Some(n) => {
                value = n;
            },
            None => {
                return None;
            },
        }
        i = i + 1;
    }
    assert(digits.take(digits.len() as int) =~= digits);
    Some(value)
}

proof fn lemma_decimal_value(n: nat)
    ensures
        digits_value(decimal(n)) == Some(n),
        decimal(n).len() > 0,
        '0' <= decimal(n)[0] <= '9',
    decreases n,
{
    if n < 10 {
        let s = decimal(n);
        assert(s.drop_last() =~= Seq::<char>::empty());
        assert(digits_value(s.drop_last()) == Some(0nat));
    } else {
        lemma_decimal_value(n / 10);
        let s = decimal(n);
        assert(s.drop_last() =~= decimal(n / 10));
    }
}

/// Reading what was written gives the number back.
pub proof fn law_decimal_round_trip(n: u64)
    ensures
        unsigned_value(decimal(n as nat)) == Some(n as nat),
{
    lemma_decimal_value(n as nat);
}

/// Texts that are written alike are the same number.
pub proof fn law_decimal_injective(a: nat, b: nat)
    requires
        decimal(a) == decimal(b),
    ensures
        a == b,
{
    lemma_decimal_value(a);
    lemma_decimal_value(b);
}

proof fn lemma_trimmed_end_stops(s: Seq<char>)
    ensures
        trimmed_end(s).len() > 0 ==> !white_space(trimmed_end(s).last()),
        trimmed_end(s).len() > 0 ==> s.len() > 0 && trimmed_end(s)[0] == s[0],
        trimmed_end(s).len() <= s.len(),
    decreases s.len(),
{
    if s.len() > 0 && white_space(s.last()) {
        lemma_trimmed_end_stops(s.drop_last());
    }
}

proof fn lemma_trimmed_start_stops(s: Seq<char>)
    ensures
        trimmed_start(s).len() > 0 ==> !white_space(trimmed_start(s)[0]),
    decreases s.len(),
{
    if s.len() > 0 && white_space(s[0]) {
        lemma_trimmed_start_stops(s.drop_first());
    }
}

/// A trimmed text has nothing left to trim.
pub proof fn law_trim_idempotent(s: Seq<char>)
    ensures
        trimmed(trimmed(s)) == trimmed(s),
{
    lemma_trimmed_start_stops(s);
    lemma_trimmed_end_stops(trimmed_start(s));
}

/// Where the first `c` of `s` stands; the length of `s` where there is none.
pub open spec fn index_of(s: Seq<char>, c: char) -> int
    decreases s.len(),
{
    if s.len() == 0 || s[0] == c {
        0
    } else {
        1 + index_of(s.drop_first(), c)
    }
}

proof fn lemma_index_of(s: Seq<char>, c: char, i: int)
    requires
        0 <= i <= s.len(),
        forall|j: int| 0 <= j < i ==> s[j] != c,
        i < s.len() ==> s[i] == c,
    ensures
        index_of(s, c) == i,
    decreases i,
{
    if i > 0 {
        let rest = s.drop_first();
        assert forall|j: int| 0 <= j < i - 1 implies rest[j] != c by {
            assert(rest[j] == s[j + 1]);
        }
        lemma_index_of(rest, c, i - 1);
    }
}

/// A line without the carriage return before its line break.
pub open spec fn without_return(line: Seq<char>) -> Seq<char> {
    if line.len() > 0 && line.last() == '\r' {
        line.drop_last()
    } else {
        line
    }
}

/// The first line of a text, without its line break.
pub open spec fn first_line(s: Seq<char>) -> Seq<char> {
    let end = index_of(s, '\n');
    if end < s.len() {
        without_return(s.take(end))
    } else {
        s
    }
}

/// The lines of a text, without their line breaks. A line break at the end
/// opens no further line.
pub open spec fn text_lines(s: Seq<char>) -> Seq<Seq<char>>
    decreases s.len(),
{
    if s.len() == 0 {
        Seq::empty()
    } else {
        let end = index_of(s, '\n');
        if 0 <= end < s.len() {
            seq![first_line(s)] + text_lines(s.skip(end + 1))
        } else {
            seq![s]
        }
    }
}

/// The characters of every text of a list.
pub open spec fn texts(list: Seq<String>) -> Seq<Seq<char>> {
    list.map_values(|text: String| text@)
}

fn line_end(v: &Vec<char>, from: usize) -> (r: usize)
    requires
        from <= v@.len(),
    ensures
        from <= r <= v@.len(),
        r - from == index_of(v@.skip(from as int), '\n'),
{
    let mut end: usize = from;
    while end < v.len() && v[end] != '\n'
        invariant
            from <= end <= v@.len(),
            forall|j: int| from <= j < end ==> v@[j] != '\n',
        decreases v@.len() - end,
    {
        end = end + 1;
    }
    proof {
        let rest = v@.skip(from as int);
        assert forall|j: int| 0 <= j < end - from implies rest[j] != '\n' by {
            assert(rest[j] == v@[from + j]);
        }
        lemma_index_of(rest, '\n', end - from);
    }
    end
}

fn line_between(v: &Vec<char>, from: usize, end: usize) -> (r: String)
    requires
        from <= end <= v@.len(),
        end - from == index_of(v@.skip(from as int), '\n'),
    ensures
        r@ == first_line(v@.skip(from as int)),
{
    let ghost rest = v@.skip(from as int);
    let mut to: usize = end;
    if end < v.len() {
        assert(rest.take(end - from) =~= v@.subrange(from as int, end as int));
        if end > from && v[end - 1] == '\r' {
            to = end - 1;
            assert(rest.take(end - from).drop_last() =~= v@.subrange(from as int, to as int));
        }
    } else {
        assert(rest =~= v@.subrange(from as int, end as int));
    }
    text_between(v, from, to)
}

/// Takes the first line of a text.
pub fn take_first_line(s: &str) -> (r: String)
    ensures
        r@ == first_line(s@),
{
    let v = chars_of(s);
    assert(v@.skip(0) =~= v@);
    let end = line_end(&v, 0);
    line_between(&v, 0, end)
}

/// Takes a text apart into its lines.
pub fn lines_of(s: &str) -> (r: Vec<String>)
    ensures
        texts(r@) == text_lines(s@),
{
    let v = chars_of(s);
    let mut lines: Vec<String> = Vec::new();
    let mut from: usize = 0;
    assert(v@.skip(0) =~= v@);
    assert(texts(lines@) + text_lines(v@) =~= text_lines(v@));
    while from < v.len()
        invariant
            from <= v@.len(),
            texts(lines@) + text_lines(v@.skip(from as int)) == text_lines(v@),
        decreases v@.len() - from,
    {
        let ghost rest = v@.skip(from as int);
        let ghost before = lines@;
        let end = line_end(&v, from);
        let line = line_between(&v, from, end);
        lines.push(line);
        assert(texts(lines@) =~= texts(before).push(first_line(rest)));
        if end < v.len() {
            assert(rest.skip(end - from + 1) =~= v@.skip(end + 1));
            assert(texts(lines@) + text_lines(v@.skip(end + 1)) =~= texts(before) + text_lines(
                rest,
            ));
            from = end + 1;
        } else {
            assert(text_lines(rest) == seq![rest]);
            assert(v@.skip(v@.len() as int) =~= Seq::empty());
            assert(texts(lines@) + text_lines(v@.skip(v@.len() as int)) =~= texts(before)
                + text_lines(rest));
            from = v.len();
        }
    }
    assert(v@.skip(v@.len() as int) =~= Seq::empty());
    assert(texts(lines@) + text_lines(v@.skip(v@.len() as int)) =~= texts(lines@));
    lines
}

/// `s` with every occurrence of `target` replaced by `with`, from the left and
/// without overlap. `target` is not empty.
pub open spec fn replaced(s: Seq<char>, target: Seq<char>, with: Seq<char>) -> Seq<char>
    decreases s.len(),
{
    if s.len() == 0 || target.len() == 0 {
        s
    } else if occurs_at(s, target, 0) {
        with + replaced(s.skip(target.len() as int), target, with)
    } else {
        seq![s[0]] + replaced(s.drop_first(), target, with)
    }
}

fn occurs_here(v: &Vec<char>, p: &Vec<char>, at: usize) -> (r: bool)
    requires
        at <= v@.len(),
    ensures
        r == occurs_at(v@.skip(at as int), p@, 0),
        r ==> at + p@.len() <= v@.len(),
{
    let ghost rest = v@.skip(at as int);
    if p.len() > v.len() - at {
        return false;
    }
    let mut k: usize = 0;
    while k < p.len()
        invariant
            k <= p@.len(),
            at + p@.len() <= v.len(),
            rest == v@.skip(at as int),
            forall|j: int| 0 <= j < k ==> rest[j] == p@[j],
        decreases p@.len() - k,
    {
        if v[at + k] != p[k] {
            assert(rest.subrange(0, p@.len() as int)[k as int] == rest[k as int]);
            return false;
        }
        k = k + 1;
    }
    assert(rest.subrange(0, p@.len() as int) =~= p@);
    true
}

/// Replaces every occurrence of `target` by `with`.
pub fn replace_all(s: &str, target: &str, with: &str) -> (r: String)
    requires
        target@.len() > 0,
    ensures
        r@ == replaced(s@, target@, with@),
{
    let v = chars_of(s);
    let p = chars_of(target);
    let mut out = String::new();
    let mut at: usize = 0;
    assert(v@.skip(0) =~= v@);
    assert(out@ + replaced(v@, p@, with@) =~= replaced(v@, p@, with@));
    while at < v.len()
        invariant
            at <= v@.len(),
            p@ == target@,
            p@.len() > 0,
            out@ + replaced(v@.skip(at as int), p@, with@) == replaced(v@, p@, with@),
        decreases v@.len() - at,
    {
        let ghost before = out@;
        let ghost rest = v@.skip(at as int);
        if occurs_here(&v, &p, at) {
            out.append(with);
            assert(rest.skip(p@.len() as int) =~= v@.skip(at + p@.len()));
            assert(out@ + replaced(v@.skip(at + p@.len()), p@, with@) =~= before + replaced(
                rest,
                p@,
                with@,
            ));
            at = at + p.len();
        } else {
            out.push(v[at]);
            assert(rest.drop_first() =~= v@.skip(at + 1));
            assert(out@ + replaced(v@.skip(at + 1), p@, with@) =~= before + replaced(
                rest,
                p@,
                with@,
            ));
            at = at + 1;
        }
    }
    assert(v@.skip(v@.len() as int) =~= Seq::empty());
    assert(out@ + Seq::<char>::empty() =~= out@);
    out
}

proof fn lemma_absent_is_not_replaced(s: Seq<char>, target: Seq<char>, with: Seq<char>)
    requires
        !occurs_in(s, target),
    ensures
        replaced(s, target, with) == s,
    decreases s.len(),
{
    if s.len() > 0 && target.len() > 0 {
        assert(!occurs_at(s, target, 0));
        let rest = s.drop_first();
        assert forall|i: int| !occurs_at(rest, target, i) by {
            if occurs_at(rest, target, i) {
                assert(s.subrange(i + 1, i + 1 + target.len()) =~= rest.subrange(i, i + target.len()));
                assert(occurs_at(s, target, i + 1));
            }
        }
        lemma_absent_is_not_replaced(rest, target, with);
        assert(seq![s[0]] + rest =~= s);
    }
}

/// A text that does not hold `target` stays as it is.
pub proof fn law_replacing_leaves_other_texts_alone(s: Seq<char>, target: Seq<char>, with: Seq<char>)
    requires
        !occurs_in(s, target),
    ensures
        replaced(s, target, with) == s,
{
    lemma_absent_is_not_replaced(s, target, with);
}

/// Replacing a text by itself, from end to end, gives the replacement.
pub proof fn law_replacing_the_whole_text(target: Seq<char>, with: Seq<char>)
    requires
        target.len() > 0,
    ensures
        replaced(target, target, with) == with,
{
    assert(target.subrange(0, target.len() as int) =~= target);
    assert(occurs_at(target, target, 0));
    assert(target.skip(target.len() as int) =~= Seq::empty());
    assert(replaced(Seq::<char>::empty(), target, with) =~= Seq::empty());
    assert(with + Seq::<char>::empty() =~= with);
}

/// The texts one after the other, with `sep` between them.
pub open spec fn joined(list: Seq<Seq<char>>, sep: Seq<char>) -> Seq<char>
    decreases list.len(),
{
    if list.len() == 0 {
        Seq::empty()
    } else if list.len() == 1 {
        list[0]
    } else {
        joined(list.drop_last(), sep) + sep + list.last()
    }
}

/// Puts texts one after the other, with `sep` between them.
pub fn join(list: &Vec<String>, sep: &str) -> (r: String)
    ensures
        r@ == joined(texts(list@), sep@),
{
    let mut r = String::new();
    let mut i: usize = 0;
    assert(texts(list@.take(0)) =~= Seq::empty());
    assert(r@ =~= Seq::empty());
    while i < list.len()
        invariant
            i <= list@.len(),
            r@ == joined(texts(list@.take(i as int)), sep@),
        decreases list@.len() - i,
    {
        let ghost before = texts(list@.take(i as int));
        let ghost after = texts(list@.take(i + 1));
        assert(after.drop_last() =~= before);
        assert(after.last() == list@[i as int]@);
        if i > 0 {
            r.append(sep);
        }
        r.append(list[i].as_str());
        i = i + 1;
        proof {
            if i == 1 {
                assert(after.len() == 1);
                assert(r@ =~= after[0]);
            } else {
                assert(r@ =~= joined(before, sep@) + sep@ + after.last());
            }
        }
    }
    assert(list@.take(list@.len() as int) =~= list@);
    r
}

/// Trimming takes off white space at both ends and nothing else: what is left
/// neither begins nor ends with any, and what is taken off is nothing but that.
pub proof fn law_trimming_takes_off_white_space(s: Seq<char>)
    ensures
        trimmed(s).len() > 0 ==> !white_space(trimmed(s)[0]) && !white_space(trimmed(s).last()),
        exists|a: int, b: int| #[trigger] is_trimmed_between(s, a, b),
{
    lemma_trimmed_start(s);
    let front = trimmed_start(s);
    lemma_trimmed_end(front);
    let a = s.len() - front.len();
    let b = a + trimmed(s).len();
    assert(front == s.skip(a));
    assert(trimmed(s) == front.take(trimmed(s).len() as int));
    assert(s.subrange(a, b) =~= trimmed(s));
    assert forall|i: int| b <= i < s.len() implies white_space(#[trigger] s[i]) by {
        assert(front[i - a] == s[i]);
    }
    assert(is_trimmed_between(s, a, b));
}

/// Whether a text without the white space at its ends stands between two places.
pub open spec fn is_trimmed_between(s: Seq<char>, a: int, b: int) -> bool {
    &&& 0 <= a <= b <= s.len()
    &&& trimmed(s) == s.subrange(a, b)
    &&& forall|i: int| 0 <= i < a ==> white_space(#[trigger] s[i])
    &&& forall|i: int| b <= i < s.len() ==> white_space(#[trigger] s[i])
}

proof fn lemma_trimmed_start(s: Seq<char>)
    ensures
        trimmed_start(s).len() <= s.len(),
        trimmed_start(s) == s.skip(s.len() - trimmed_start(s).len()),
        trimmed_start(s).len() > 0 ==> !white_space(trimmed_start(s)[0]),
        forall|i: int|
            0 <= i < s.len() - trimmed_start(s).len() ==> white_space(#[trigger] s[i]),
    decreases s.len(),
{
    if s.len() > 0 && white_space(s[0]) {
        let rest = s.drop_first();
        lemma_trimmed_start(rest);
        assert(rest.skip(rest.len() - trimmed_start(rest).len()) =~= s.skip(
            s.len() - trimmed_start(s).len(),
        ));
        assert forall|i: int| 0 <= i < s.len() - trimmed_start(s).len() implies white_space(
            #[trigger] s[i],
        ) by {
            if i > 0 {
                assert(rest[i - 1] == s[i]);
            }
        }
    } else {
        assert(s.skip(0) =~= s);
    }
}

proof fn lemma_trimmed_end(s: Seq<char>)
    ensures
        trimmed_end(s).len() <= s.len(),
        trimmed_end(s) == s.take(trimmed_end(s).len() as int),
        trimmed_end(s).len() > 0 ==> !white_space(trimmed_end(s).last()),
        forall|i: int| trimmed_end(s).len() <= i < s.len() ==> white_space(#[trigger] s[i]),
    decreases s.len(),
{
    if s.len() > 0 && white_space(s.last()) {
        let rest = s.drop_last();
        lemma_trimmed_end(rest);
        assert(rest.take(trimmed_end(rest).len() as int) =~= s.take(trimmed_end(s).len() as int));
        assert forall|i: int| trimmed_end(s).len() <= i < s.len() implies white_space(
            #[trigger] s[i],
        ) by {
            if i < rest.len() {
                assert(rest[i] == s[i]);
            }
        }
    } else {
        assert(s.take(s.len() as int) =~= s);
    }
}

/// Texts are joined in order, with the separator between each two.
pub proof fn law_texts_are_joined_in_order(
    list: Seq<Seq<char>>,
    text: Seq<char>,
    sep: Seq<char>,
)
    ensures
        joined(Seq::empty(), sep) == Seq::<char>::empty(),
        joined(seq![text], sep) == text,
        list.len() > 0 ==> joined(list.push(text), sep) == joined(list, sep) + sep + text,
{
    assert(list.push(text).drop_last() =~= list);
}

proof fn lemma_line_ends(line: Seq<char>, rest: Seq<char>)
    requires
        !line.contains('\n'),
    ensures
        index_of(line + seq!['\n'] + rest, '\n') == line.len(),
    decreases line.len(),
{
    let whole = line + seq!['\n'] + rest;
    if line.len() > 0 {
        let tail = line.drop_first();
        assert(line[0] != '\n');
        assert(whole[0] == line[0]);
        assert(whole.drop_first() =~= tail + seq!['\n'] + rest);
        assert(!tail.contains('\n')) by {
            if tail.contains('\n') {
                let i = choose|i: int| 0 <= i < tail.len() && tail[i] == '\n';
                assert(line[i + 1] == '\n');
            }
        }
        lemma_line_ends(tail, rest);
    } else {
        assert(whole[0] == '\n');
    }
}

proof fn lemma_no_line_ends(line: Seq<char>)
    requires
        !line.contains('\n'),
    ensures
        index_of(line, '\n') == line.len(),
    decreases line.len(),
{
    if line.len() > 0 {
        let tail = line.drop_first();
        assert(line[0] != '\n');
        assert(!tail.contains('\n')) by {
            if tail.contains('\n') {
                let i = choose|i: int| 0 <= i < tail.len() && tail[i] == '\n';
                assert(line[i + 1] == '\n');
            }
        }
        lemma_no_line_ends(tail);
    }
}

/// A text is read line by line: a line ends where the next begins, without the
/// return before its end, and the last may end with the text.
pub proof fn law_texts_are_read_line_by_line(line: Seq<char>, rest: Seq<char>)
    requires
        !line.contains('\n'),
    ensures
        text_lines(Seq::empty()) == Seq::<Seq<char>>::empty(),
        line.len() > 0 ==> text_lines(line) == seq![line],
        first_line(line) == line,
        line.len() == 0 || line.last() != '\r' ==> text_lines(line + seq!['\n'] + rest) == seq![
            line,
        ] + text_lines(rest) && first_line(line + seq!['\n'] + rest) == line,
        text_lines(line + seq!['\r', '\n'] + rest) == seq![line] + text_lines(rest),
        first_line(line + seq!['\r', '\n'] + rest) == line,
{
    lemma_no_line_ends(line);
    let whole = line + seq!['\n'] + rest;
    lemma_line_ends(line, rest);
    assert(whole.take(line.len() as int) =~= line);
    assert(whole.skip(line.len() as int + 1) =~= rest);
    let returned = line.push('\r');
    let other = line + seq!['\r', '\n'] + rest;
    assert(other =~= returned + seq!['\n'] + rest);
    assert(!returned.contains('\n')) by {
        if returned.contains('\n') {
            let i = choose|i: int| 0 <= i < returned.len() && returned[i] == '\n';
            assert(line[i] == '\n');
        }
    }
    lemma_line_ends(returned, rest);
    assert(other.take(returned.len() as int) =~= returned);
    assert(returned.drop_last() =~= line);
    assert(other.skip(returned.len() as int + 1) =~= rest);
}

/// A text is replaced where it stands, from the front on, and the rest is left
/// as it is.
pub proof fn law_texts_are_replaced_where_they_stand(
    target: Seq<char>,
    with: Seq<char>,
    rest: Seq<char>,
    s: Seq<char>,
)
    requires
        target.len() > 0,
    ensures
        replaced(target + rest, target, with) == with + replaced(rest, target, with),
        s.len() > 0 && !target.is_prefix_of(s) ==> replaced(s, target, with) == seq![s[0]]
            + replaced(s.drop_first(), target, with),
        replaced(Seq::empty(), target, with) == Seq::<char>::empty(),
{
    let whole = target + rest;
    assert(whole.subrange(0, target.len() as int) =~= target);
    assert(occurs_at(whole, target, 0));
    assert(whole.skip(target.len() as int) =~= rest);
    if occurs_at(s, target, 0) {
        assert(s.subrange(0, target.len() as int) == target);
        assert(target.is_prefix_of(s));
    }
}

/// A text occurs in every text that it stands in, at the front, at the end or
/// between.
pub proof fn law_texts_occur_where_they_stand(
    before: Seq<char>,
    needle: Seq<char>,
    after: Seq<char>,
)
    ensures
        occurs_in(before + needle + after, needle),
{
    let whole = before + needle + after;
    assert(whole.subrange(before.len() as int, before.len() as int + needle.len()) =~= needle);
    assert(occurs_at(whole, needle, before.len() as int));
}

/// Plain letters are lowered, and every other character is kept.
pub proof fn law_plain_letters_are_lowered(s: Seq<char>, i: int)
    requires
        0 <= i < s.len(),
    ensures
        ascii_lower(s).len() == s.len(),
        !('A' <= s[i] <= 'Z') ==> ascii_lower(s)[i] == s[i],
        'A' <= s[i] <= 'Z' ==> ascii_lower(s)[i] as u32 == s[i] as u32 + 32,
{
}

/// Characters are replaced one for one, and taken off the end as long as there
/// are any.
pub proof fn law_characters_are_replaced(s: Seq<char>, c: char, to: char, i: int)
    requires
        0 <= i < s.len(),
    ensures
        char_replaced(s, c, to).len() == s.len(),
        s[i] == c ==> char_replaced(s, c, to)[i] == to,
        s[i] != c ==> char_replaced(s, c, to)[i] == s[i],
        char_trimmed_end(s.push(c), c) == char_trimmed_end(s, c),
        to != c ==> char_trimmed_end(s.push(to), c) == s.push(to),
        char_trimmed_end(Seq::empty(), c) == Seq::<char>::empty(),
{
    assert(s.push(c).drop_last() =~= s);
}

/// A number may have a plus before it; anything but digits is no number, and
/// neither is nothing.
pub proof fn law_numbers_are_digits(s: Seq<char>)
    ensures
        unsigned_value(Seq::empty()) is None,
        s.len() > 0 && s[0] != '+' ==> unsigned_value(seq!['+'] + s) == unsigned_value(s),
        s.len() > 0 && s[0] != '+' && !('0' <= s.last() <= '9') ==> unsigned_value(s) is None,
{
    assert((seq!['+'] + s).drop_first() =~= s);
}

} // verus!
