//! Character-level helpers shared by the FIX encoders and decoders:
//! decimal formatting and parsing, whitespace trimming, case mapping and
//! small string-building primitives.

use vstd::prelude::*;
use vstd::string::*;
use vstd::utf8::{encode_utf8, is_ascii_chars};

verus! {

// ---------------------------------------------------------------------------
// Decimal formatting
// ---------------------------------------------------------------------------

/// Decimal digits of a natural number, most significant first, no leading zeros
/// (zero is written as a single `0`).
pub open spec fn decimal_digits(n: nat) -> Seq<char>
    decreases n,
{
    if n < 10 {
        seq![digit_char(n)]
    } else {
        decimal_digits(n / 10).push(digit_char(n % 10))
    }
}

/// Decimal text of an integer: a minus sign in front of negative numbers.
pub open spec fn int_decimal(i: int) -> Seq<char> {
    if i < 0 {
        seq!['-'] + decimal_digits((-i) as nat)
    } else {
        decimal_digits(i as nat)
    }
}

/// The ASCII character of a decimal digit.
pub open spec fn digit_char(d: nat) -> char {
    if d == 0 {
        '0'
    } else if d == 1 {
        '1'
    } else if d == 2 {
        '2'
    } else if d == 3 {
        '3'
    } else if d == 4 {
        '4'
    } else if d == 5 {
        '5'
    } else if d == 6 {
        '6'
    } else if d == 7 {
        '7'
    } else if d == 8 {
        '8'
    } else {
        '9'
    }
}

fn digit_to_char(d: u64) -> (c: char)
    requires
        d < 10,
    ensures
        c == digit_char(d as nat),
{
    if d == 0 {
        '0'
    } else if d == 1 {
        '1'
    } else if d == 2 {
        '2'
    } else if d == 3 {
        '3'
    } else if d == 4 {
        '4'
    } else if d == 5 {
        '5'
    } else if d == 6 {
        '6'
    } else if d == 7 {
        '7'
    } else if d == 8 {
        '8'
    } else {
        '9'
    }
}

/// Appends one character to a string (`String::push`).
#[verifier::external_body]
pub(crate) fn push_char(s: &mut String, c: char)
    ensures
        final(s)@ == old(s)@.push(c),
{
    s.push(c);
}

/// Appends a string slice to a string.
pub fn push_str(s: &mut String, t: &str)
    ensures
        final(s)@ == old(s)@ + t@,
{
    s.append(t);
}

/// Builds a string from its characters.
pub fn string_from_chars(v: &[char]) -> (s: String)
    ensures
        s@ == v@,
{
    let mut s = String::new();
    let mut i: usize = 0;
    while i < v.len()
        invariant
            i <= v@.len(),
            s@ == v@.subrange(0, i as int),
        decreases v@.len() - i,
    {
        push_char(&mut s, v[i]);
        i += 1;
        assert(s@ =~= v@.subrange(0, i as int));
    }
    assert(v@.subrange(0, v@.len() as int) =~= v@);
    s
}

/// The characters of a string slice.
pub fn chars_of(s: &str) -> (v: Vec<char>)
    ensures
        v@ == s@,
{
    let mut v: Vec<char> = Vec::new();
    for c in iter: s.chars()
        invariant
            v@ == iter.seq().take(iter.index() as int),
    {
        v.push(c);
    }
    v
}

/// A string holding the characters `v[from..to]`.
pub fn string_from_range(v: &Vec<char>, from: usize, to: usize) -> (s: String)
    requires
        from <= to <= v@.len(),
    ensures
        s@ == v@.subrange(from as int, to as int),
{
    let mut s = String::new();
    let mut i: usize = from;
    while i < to
        invariant
            from <= i <= to,
            to <= v@.len(),
            s@ == v@.subrange(from as int, i as int),
        decreases to - i,
    {
        push_char(&mut s, v[i]);
        i += 1;
        assert(s@ =~= v@.subrange(from as int, i as int));
    }
    s
}

/// Writes `n` in decimal.
pub fn u64_to_decimal(n: u64) -> (s: String)
    ensures
        s@ == decimal_digits(n as nat),
{
    let mut digits: Vec<char> = Vec::new();
    let mut m = n;
    while m >= 10
        invariant
            m <= n,
            decimal_digits(n as nat) == decimal_digits(m as nat) + digits@.reverse(),
        decreases m,
    {
        let c = digit_to_char(m % 10);
        proof {
            assert(decimal_digits(m as nat) == decimal_digits((m / 10) as nat).push(c));
            assert(digits@.push(c).reverse() =~= seq![c] + digits@.reverse());
            assert(decimal_digits((m / 10) as nat).push(c) + digits@.reverse()
                =~= decimal_digits((m / 10) as nat) + (seq![c] + digits@.reverse()));
        }
        digits.push(c);
        m = m / 10;
    }
    let c0 = digit_to_char(m);
    digits.push(c0);
    proof {
        assert(digits@.reverse() =~= seq![c0] + digits@.drop_last().reverse());
    }
    let mut s = String::new();
    let mut i = digits.len();
    while i > 0
        invariant
            i <= digits.len(),
            s@ =~= digits@.reverse().subrange(0, (digits.len() - i) as int),
        decreases i,
    {
        i = i - 1;
        push_char(&mut s, digits[i]);
    }
    s
}

/// Writes a `u32` in decimal.
pub fn u32_to_decimal(n: u32) -> (s: String)
    ensures
        s@ == decimal_digits(n as nat),
{
    u64_to_decimal(n as u64)
}

/// Writes a `usize` in decimal.
pub fn usize_to_decimal(n: usize) -> (s: String)
    ensures
        s@ == decimal_digits(n as nat),
{
    u64_to_decimal(n as u64)
}

/// Writes an `i32` in decimal, with a leading `-` for negative values.
pub fn i32_to_decimal(n: i32) -> (s: String)
    ensures
        s@ == int_decimal(n as int),
{
    if n < 0 {
        let m: i64 = -(n as i64);
        let digits = u64_to_decimal(m as u64);
        let mut s = String::new();
        push_char(&mut s, '-');
        push_str(&mut s, digits.as_str());
        s
    } else {
        u64_to_decimal(n as u64)
    }
}

// ---------------------------------------------------------------------------
// Decimal parsing, as `str::parse` does it for the integer types
// ---------------------------------------------------------------------------

/// An ASCII decimal digit.
pub open spec fn is_digit_byte(b: u8) -> bool {
    48 <= b <= 57
}

/// Every byte is an ASCII decimal digit.
pub open spec fn all_digit_bytes(b: Seq<u8>) -> bool {
    forall|i: int| 0 <= i < b.len() ==> is_digit_byte(#[trigger] b[i])
}

/// The number written by a run of ASCII digits.
pub open spec fn digits_value(b: Seq<u8>) -> nat
    decreases b.len(),
{
    if b.len() == 0 {
        0
    } else {
        digits_value(b.drop_last()) * 10 + (b.last() - 48) as nat
    }
}

/// The digits of an unsigned number: an optional leading `+` is dropped.
pub open spec fn unsigned_digits(b: Seq<u8>) -> Seq<u8> {
    if b.len() > 0 && b[0] == 43 {
        b.skip(1)
    } else {
        b
    }
}

/// Unsigned decimal parsing: an optional `+`, then at least one ASCII digit and
/// nothing else, for a value no larger than `max`.
pub open spec fn parse_unsigned(b: Seq<u8>, max: nat) -> Option<nat> {
    let d = unsigned_digits(b);
    if d.len() > 0 && all_digit_bytes(d) && digits_value(d) <= max {
        Some(digits_value(d))
    } else {
        None
    }
}

/// Signed decimal parsing: an optional `+` or `-`, then at least one ASCII digit
/// and nothing else, for a value in `min..=max`.
pub open spec fn parse_signed(b: Seq<u8>, min: int, max: nat) -> Option<int> {
    if b.len() > 0 && b[0] == 45 {
        let d = b.skip(1);
        if d.len() > 0 && all_digit_bytes(d) && min <= -(digits_value(d) as int) {
            Some(-(digits_value(d) as int))
        } else {
            None
        }
    } else {
        match parse_unsigned(b, max) {
            Some(v) => Some(v as int),
            None => None,
        }
    }
}

pub(crate) proof fn lemma_digits_value_prefix(b: Seq<u8>, k: int)
    requires
        0 <= k <= b.len(),
        all_digit_bytes(b),
    ensures
        digits_value(b.subrange(0, k)) <= digits_value(b),
    decreases b.len() - k,
{
    if k < b.len() {
        lemma_digits_value_prefix(b, k + 1);
        let p = b.subrange(0, k + 1);
        assert(p.drop_last() =~= b.subrange(0, k));
        assert(is_digit_byte(b[k]));
    } else {
        assert(b.subrange(0, k) =~= b);
    }
}

/// Parses a run of digits with an optional `+` in front, as `str::parse` does for
/// unsigned integers, accepting values up to `max`.
fn parse_unsigned_bytes(b: &[u8], max: u64) -> (r: Option<u64>)
    ensures
        match parse_unsigned(b@, max as nat) {
            Some(v) => r == Some(v as u64),
            None => r.is_none(),
        },
{
    let start: usize = if b.len() > 0 && b[0] == 43 { 1 } else { 0 };
    let ghost d = unsigned_digits(b@);
    assert(d =~= b@.subrange(start as int, b@.len() as int));
    if start >= b.len() {
        return None;
    }
    let mut acc: u128 = 0;
    let mut i: usize = start;
    while i < b.len()
        invariant
            start <= i <= b@.len(),
            d == unsigned_digits(b@),
            d =~= b@.subrange(start as int, b@.len() as int),
            all_digit_bytes(d.subrange(0, i - start)),
            acc == digits_value(d.subrange(0, i - start)),
            acc <= max,
        decreases b@.len() - i,
    {
        let c = b[i];
        if c < 48 || c > 57 {
            assert(d[(i - start) as int] == c);
            assert(!is_digit_byte(d[(i - start) as int]));
            assert(!all_digit_bytes(d));
            return None;
        }
        let next: u128 = acc * 10 + (c - 48) as u128;
        let ghost p = d.subrange(0, i + 1 - start);
        proof {
            assert(p.drop_last() =~= d.subrange(0, i - start));
            assert(p.last() == c);
            assert(digits_value(p) == digits_value(p.drop_last()) * 10 + (p.last() - 48) as nat);
            assert(forall|k: int| 0 <= k < p.len() ==> #[trigger] p[k] == d[k]);
            assert(all_digit_bytes(p)) by {
                assert forall|k: int| 0 <= k < p.len() implies is_digit_byte(#[trigger] p[k]) by {
                    if k < p.len() - 1 {
                        assert(p[k] == d.subrange(0, i - start)[k]);
                    }
                }
            }
            assert(next == digits_value(p));
        }
        if next > max as u128 {
            proof {
                if all_digit_bytes(d) {
                    lemma_digits_value_prefix(d, i + 1 - start);
                    assert(digits_value(d) > max);
                }
            }
            return None;
        }
        acc = next;
        i += 1;
    }
    assert(d.subrange(0, i - start) =~= d);
    Some(acc as u64)
}

/// `str::parse::<u32>` on the UTF-8 bytes of a string.
pub fn parse_u32(s: &str) -> (r: Option<u32>)
    ensures
        match parse_unsigned(s.spec_bytes(), u32::MAX as nat) {
            Some(v) => r == Some(v as u32),
            None => r.is_none(),
        },
{
    match parse_unsigned_bytes(s.as_bytes(), u32::MAX as u64) {
        Some(v) => Some(v as u32),
        None => None,
    }
}

/// `str::parse::<usize>` on the UTF-8 bytes of a string.
pub fn parse_usize(s: &str) -> (r: Option<usize>)
    ensures
        match parse_unsigned(s.spec_bytes(), usize::MAX as nat) {
            Some(v) => r == Some(v as usize),
            None => r.is_none(),
        },
{
    match parse_unsigned_bytes(s.as_bytes(), usize::MAX as u64) {
        Some(v) => Some(v as usize),
        None => None,
    }
}

/// `str::parse::<i32>` on the UTF-8 bytes of a string.
pub fn parse_i32(s: &str) -> (r: Option<i32>)
    ensures
        match parse_signed(s.spec_bytes(), i32::MIN as int, i32::MAX as nat) {
            Some(v) => r == Some(v as i32),
            None => r.is_none(),
        },
{
    let b = s.as_bytes();
    if b.len() > 0 && b[0] == 45 {
        let ghost d = b@.skip(1);
        let mut rest: Vec<u8> = Vec::new();
        let mut i: usize = 1;
        while i < b.len()
            invariant
                1 <= i <= b@.len(),
                rest@ =~= b@.subrange(1, i as int),
            decreases b@.len() - i,
        {
            rest.push(b[i]);
            i += 1;
        }
        assert(rest@ =~= d);
        if rest.len() > 0 && rest[0] == 43 {
            // a sign followed by another sign is never a number
            assert(!all_digit_bytes(d)) by {
                assert(d[0] == 43);
            }
            return None;
        }
        assert(unsigned_digits(rest@) =~= d);
        match parse_unsigned_bytes(rest.as_slice(), 2147483648u64) {
            Some(v) => {
                let m: i64 = -(v as i64);
                Some(m as i32)
            },
            None => None,
        }
    } else {
        match parse_unsigned_bytes(b, i32::MAX as u64) {
            Some(v) => Some(v as i32),
            None => None,
        }
    }
}

// ---------------------------------------------------------------------------
// Facts about the UTF-8 bytes of texts
// ---------------------------------------------------------------------------

/// The bytes of two texts put together are the bytes of each, put together.
pub proof fn lemma_encode_concat(a: Seq<char>, b: Seq<char>)
    ensures
        encode_utf8(a + b) == encode_utf8(a) + encode_utf8(b),
    decreases a.len(),
{
    if a.len() == 0 {
        assert(a + b =~= b);
        assert(encode_utf8(a) =~= Seq::<u8>::empty());
        assert(Seq::<u8>::empty() + encode_utf8(b) =~= encode_utf8(b));
    } else {
        assert((a + b).drop_first() =~= a.drop_first() + b);
        assert((a + b)[0] == a[0]);
        lemma_encode_concat(a.drop_first(), b);
        let h = vstd::utf8::encode_scalar(a[0] as u32);
        assert(h + (encode_utf8(a.drop_first()) + encode_utf8(b)) =~= (h + encode_utf8(a.drop_first()))
            + encode_utf8(b));
    }
}

/// Decimal digits are ASCII digits, at least one of them.
pub proof fn lemma_decimal_digits(n: nat)
    ensures
        decimal_digits(n).len() >= 1,
        forall|i: int|
            0 <= i < decimal_digits(n).len() ==> '0' <= #[trigger] decimal_digits(n)[i] <= '9',
        is_ascii_chars(decimal_digits(n)),
    decreases n,
{
    if n >= 10 {
        lemma_decimal_digits(n / 10);
    }
}

/// The bytes of decimal digits, digit by digit.
pub proof fn lemma_decimal_bytes(n: nat)
    ensures
        encode_utf8(decimal_digits(n)).len() == decimal_digits(n).len(),
        forall|i: int|
            0 <= i < decimal_digits(n).len() ==> #[trigger] encode_utf8(decimal_digits(n))[i]
                == decimal_digits(n)[i] as u8,
        all_digit_bytes(encode_utf8(decimal_digits(n))),
        digits_value(encode_utf8(decimal_digits(n))) == n,
    decreases n,
{
    lemma_decimal_digits(n);
    vstd::utf8::is_ascii_chars_encode_utf8(decimal_digits(n));
    let b = encode_utf8(decimal_digits(n));
    lemma_digit_byte(n % 10);
    if n >= 10 {
        lemma_decimal_bytes(n / 10);
        let p = encode_utf8(decimal_digits(n / 10));
        assert(b.drop_last() =~= p);
        assert(b.last() == digit_char(n % 10) as u8);
        assert(digits_value(b) == digits_value(b.drop_last()) * 10 + (b.last() - 48) as nat);
    } else {
        assert(b.drop_last() =~= Seq::<u8>::empty());
        assert(b.last() == digit_char(n) as u8);
        assert(digits_value(b) == digits_value(b.drop_last()) * 10 + (b.last() - 48) as nat);
    }
}

/// The byte of a decimal digit, less the byte of `0`, is the digit.
proof fn lemma_digit_byte(d: nat)
    requires
        d < 10,
    ensures
        digit_char(d) as u8 - 48 == d,
        '0' <= digit_char(d) <= '9',
{
}

/// Decimal text reads back as its number.
pub proof fn decimal_reads_back(n: nat, max: nat)
    requires
        n <= max,
    ensures
        parse_unsigned(encode_utf8(decimal_digits(n)), max) == Some(n),
{
    lemma_decimal_bytes(n);
    lemma_decimal_digits(n);
    let b = encode_utf8(decimal_digits(n));
    assert(b[0] != 43);
    assert(unsigned_digits(b) == b);
}

/// The sum of a run of bytes.
pub open spec fn byte_sum(b: Seq<u8>) -> nat
    decreases b.len(),
{
    if b.len() == 0 {
        0
    } else {
        byte_sum(b.drop_last()) + b.last() as nat
    }
}

/// The sum of two runs of bytes put together.
pub proof fn lemma_byte_sum_concat(a: Seq<u8>, b: Seq<u8>)
    ensures
        byte_sum(a + b) == byte_sum(a) + byte_sum(b),
    decreases b.len(),
{
    if b.len() == 0 {
        assert(a + b =~= a);
    } else {
        assert((a + b).drop_last() =~= a + b.drop_last());
        lemma_byte_sum_concat(a, b.drop_last());
    }
}

// ---------------------------------------------------------------------------
// Whitespace, as `str::trim` knows it (the Unicode `White_Space` property)
// ---------------------------------------------------------------------------

/// A character with the Unicode `White_Space` property.
pub open spec fn is_white_space(c: char) -> bool {
    ('\u{9}' <= c && c <= '\u{d}') || c == ' ' || c == '\u{85}' || c == '\u{a0}' || c
        == '\u{1680}' || ('\u{2000}' <= c && c <= '\u{200a}') || c == '\u{2028}' || c
        == '\u{2029}' || c == '\u{202f}' || c == '\u{205f}' || c == '\u{3000}'
}

fn white_space(c: char) -> (r: bool)
    ensures
        r == is_white_space(c),
{
    ('\u{9}' <= c && c <= '\u{d}') || c == ' ' || c == '\u{85}' || c == '\u{a0}' || c
        == '\u{1680}' || ('\u{2000}' <= c && c <= '\u{200a}') || c == '\u{2028}' || c
        == '\u{2029}' || c == '\u{202f}' || c == '\u{205f}' || c == '\u{3000}'
}

/// Leading white space removed.
pub open spec fn trim_start(s: Seq<char>) -> Seq<char>
    decreases s.len(),
{
    if s.len() > 0 && is_white_space(s[0]) {
        trim_start(s.drop_first())
    } else {
        s
    }
}

/// Trailing white space removed.
pub open spec fn trim_end(s: Seq<char>) -> Seq<char>
    decreases s.len(),
{
    if s.len() > 0 && is_white_space(s.last()) {
        trim_end(s.drop_last())
    } else {
        s
    }
}

/// Leading and trailing white space removed.
pub open spec fn trim(s: Seq<char>) -> Seq<char> {
    trim_end(trim_start(s))
}

proof fn lemma_trim_start(s: Seq<char>, i: int)
    requires
        0 <= i <= s.len(),
        forall|k: int| 0 <= k < i ==> is_white_space(#[trigger] s[k]),
    ensures
        trim_start(s) == trim_start(s.subrange(i, s.len() as int)),
    decreases i,
{
    if i > 0 {
        lemma_trim_start(s.drop_first(), i - 1);
        assert(s.drop_first().subrange(i - 1, s.drop_first().len() as int) =~= s.subrange(
            i,
            s.len() as int,
        ));
    } else {
        assert(s.subrange(0, s.len() as int) =~= s);
    }
}

proof fn lemma_trim_end(s: Seq<char>, j: int)
    requires
        0 <= j <= s.len(),
        forall|k: int| j <= k < s.len() ==> is_white_space(#[trigger] s[k]),
    ensures
        trim_end(s) == trim_end(s.subrange(0, j)),
    decreases s.len() - j,
{
    if j < s.len() {
        lemma_trim_end(s.drop_last(), j);
        assert(s.drop_last().subrange(0, j) =~= s.subrange(0, j));
    } else {
        assert(s.subrange(0, j) =~= s);
    }
}

/// `str::trim`: the text without leading and trailing white space.
pub fn trim_string(s: &str) -> (r: String)
    ensures
        r@ == trim(s@),
{
    let v = chars_of(s);
    let mut i: usize = 0;
    while i < v.len() && white_space(v[i])
        invariant
            i <= v@.len(),
            forall|k: int| 0 <= k < i ==> is_white_space(#[trigger] v@[k]),
        decreases v@.len() - i,
    {
        i += 1;
    }
    proof {
        lemma_trim_start(v@, i as int);
        let t = v@.subrange(i as int, v@.len() as int);
        if t.len() > 0 {
            assert(t[0] == v@[i as int]);
        }
        assert(trim_start(t) == t);
    }
    let mut j: usize = v.len();
    while j > i && white_space(v[j - 1])
        invariant
            i <= j <= v@.len(),
            forall|k: int| j <= k < v@.len() ==> is_white_space(#[trigger] v@[k]),
        decreases j,
    {
        j -= 1;
    }
    proof {
        let t = v@.subrange(i as int, v@.len() as int);
        lemma_trim_end(t, j - i);
        let u = t.subrange(0, j - i);
        assert(u =~= v@.subrange(i as int, j as int));
        if u.len() > 0 {
            assert(u.last() == v@[j - 1]);
        }
        assert(trim_end(u) == u);
    }
    string_from_range(&v, i, j)
}

// ---------------------------------------------------------------------------
// Case mapping (Unicode, through the standard library)
// ---------------------------------------------------------------------------

/// What `str::to_uppercase` returns for a text.
pub uninterp spec fn uppercase(s: Seq<char>) -> Seq<char>;

/// What `str::to_lowercase` returns for a text.
pub uninterp spec fn lowercase(s: Seq<char>) -> Seq<char>;

/// The uppercase form of an ASCII letter; other characters are kept.
pub open spec fn ascii_upper_char(c: char) -> char {
    if 'a' <= c && c <= 'z' {
        ((c as u32) - 32) as char
    } else {
        c
    }
}

/// The lowercase form of an ASCII letter; other characters are kept.
pub open spec fn ascii_lower_char(c: char) -> char {
    if 'A' <= c && c <= 'Z' {
        ((c as u32) + 32) as char
    } else {
        c
    }
}

/// A text with its ASCII letters in upper case.
pub open spec fn ascii_upper(s: Seq<char>) -> Seq<char> {
    s.map_values(|c: char| ascii_upper_char(c))
}

/// A text with its ASCII letters in lower case.
pub open spec fn ascii_lower(s: Seq<char>) -> Seq<char> {
    s.map_values(|c: char| ascii_lower_char(c))
}

/// Every character is ASCII.
pub open spec fn all_ascii(s: Seq<char>) -> bool {
    forall|i: int| 0 <= i < s.len() ==> (#[trigger] s[i] as u32) < 128
}

/// `str::to_uppercase`. Its result is named (`uppercase`); the standard library
/// documents the Unicode uppercase mapping, which on ASCII text maps exactly the
/// letters `a`..=`z` to `A`..=`Z`, and that is the one fact stated of it here.
#[verifier::external_body]
pub(crate) fn to_uppercase(s: &str) -> (r: String)
    ensures
        r@ == uppercase(s@),
        all_ascii(s@) ==> r@ == ascii_upper(s@),
{
    s.to_uppercase()
}

/// `str::to_lowercase`. Its result is named (`lowercase`); on ASCII text the
/// Unicode lowercase mapping sends exactly `A`..=`Z` to `a`..=`z`, the one fact
/// stated of it here.
#[verifier::external_body]
pub(crate) fn to_lowercase(s: &str) -> (r: String)
    ensures
        r@ == lowercase(s@),
        all_ascii(s@) ==> r@ == ascii_lower(s@),
{
    s.to_lowercase()
}

/// Equality of a text with a string slice.
pub fn text_eq(a: &str, b: &str) -> (r: bool)
    ensures
        r == (a@ == b@),
{
    let x = chars_of(a);
    let y = chars_of(b);
    if x.len() != y.len() {
        return false;
    }
    let mut i: usize = 0;
    while i < x.len()
        invariant
            x@.len() == y@.len(),
            x@ == a@,
            y@ == b@,
            i <= x@.len(),
            forall|k: int| 0 <= k < i ==> x@[k] == y@[k],
        decreases x@.len() - i,
    {
        if x[i] != y[i] {
            assert(a@[i as int] != b@[i as int]);
            return false;
        }
        i += 1;
    }
    assert(x@ =~= y@);
    true
}

} // verus!
