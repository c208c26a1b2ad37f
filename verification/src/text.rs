//! Cutting strings at a separator, and reading and writing numbers.

use encoding_rs::SHIFT_JIS;
use encoding_rs::WINDOWS_1252;
use vstd::prelude::*;
use vstd::slice::slice_subrange;
use vstd::slice::slice_to_vec;
use vstd::string::StringExecFns;
use vstd::utf8::encode_utf8;
use vstd::utf8::valid_utf8;

verus! {

/// Index of the first `sep` in `s`, or the length of `s` where there is
/// none.
pub open spec fn index_of<T>(s: Seq<T>, sep: T) -> int
    decreases s.len(),
{
    if s.len() == 0 || s[0] == sep {
        0
    } else {
        1 + index_of(s.drop_first(), sep)
    }
}

/// What `index_of` finds is the first separator, where there is one.
pub proof fn lemma_index_of<T>(s: Seq<T>, sep: T)
    ensures
        0 <= index_of(s, sep) <= s.len(),
        forall|i: int| 0 <= i < index_of(s, sep) ==> s[i] != sep,
        index_of(s, sep) < s.len() ==> s[index_of(s, sep)] == sep,
    decreases s.len(),
{
    if s.len() == 0 || s[0] == sep {
    } else {
        lemma_index_of(s.drop_first(), sep);
        assert forall|i: int| 0 <= i < index_of(s, sep) implies s[i] != sep by {
            if i > 0 {
                assert(s[i] == s.drop_first()[i - 1]);
            }
        }
    }
}

/// The strings that `sep` separates in `s`: always one more than there are
/// separators.
pub open spec fn split<T>(s: Seq<T>, sep: T) -> Seq<Seq<T>>
    decreases s.len(),
{
    let k = index_of(s, sep);
    if 0 <= k < s.len() {
        seq![s.take(k)] + split(s.skip(k + 1), sep)
    } else {
        seq![s]
    }
}

/// Index of the first `sep` at or behind `from`, or the length of `s`.
pub fn find_byte(s: &[u8], from: usize, sep: u8) -> (end: usize)
    requires
        from <= s@.len(),
    ensures
        from <= end <= s@.len(),
        end - from == index_of(s@.skip(from as int), sep),
{
    let mut end = from;
    while end < s.len() && s[end] != sep
        invariant
            from <= end <= s@.len(),
            index_of(s@.skip(from as int), sep) == (end - from) + index_of(s@.skip(end as int), sep),
        decreases s@.len() - end,
    {
        proof {
            let rest = s@.skip(end as int);
            assert(rest[0] == s@[end as int]);
            assert(rest.drop_first() =~= s@.skip(end + 1));
        }
        end = end + 1;
    }
    proof {
        let rest = s@.skip(end as int);
        if end < s@.len() {
            assert(rest[0] == s@[end as int]);
        }
    }
    end
}

/// Cuts `s` at every `sep`.
pub fn split_bytes(s: &[u8], sep: u8) -> (parts: Vec<Vec<u8>>)
    ensures
        parts@.len() == split(s@, sep).len(),
        forall|i: int| 0 <= i < parts@.len() ==> (#[trigger] parts@[i])@ == split(s@, sep)[i],
{
    let mut parts: Vec<Vec<u8>> = Vec::new();
    let mut pos: usize = 0;
    let mut more = true;
    proof {
        assert(s@.skip(0) =~= s@);
        assert(split(s@, sep).skip(0) =~= split(s@, sep));
    }
    while more
        invariant
            pos <= s@.len(),
            parts@.len() <= split(s@, sep).len(),
            forall|i: int| 0 <= i < parts@.len() ==> (#[trigger] parts@[i])@ == split(s@, sep)[i],
            more ==> split(s@, sep).skip(parts@.len() as int) == split(s@.skip(pos as int), sep),
            !more ==> parts@.len() == split(s@, sep).len(),
        decreases s@.len() - pos + if more { 1int } else { 0int },
    {
        let end = find_byte(s, pos, sep);
        let part = slice_to_vec(slice_subrange(s, pos, end));
        proof {
            let rest = s@.skip(pos as int);
            let k = index_of(rest, sep);
            let all = split(s@, sep);
            let n = parts@.len() as int;
            lemma_index_of(rest, sep);
            assert(rest.take(k) =~= s@.subrange(pos as int, end as int));
            assert(split(rest, sep).len() >= 1);
            assert(all.skip(n).len() >= 1);
            assert(all.skip(n)[0] == all[n]);
            if k < rest.len() {
                assert(rest.skip(k + 1) =~= s@.skip(end + 1));
                assert(all.skip(n + 1) =~= all.skip(n).skip(1));
                assert(all.skip(n).skip(1) =~= split(rest.skip(k + 1), sep));
            } else {
                assert(rest.take(k) =~= rest);
                assert(all.skip(n).len() == 1);
            }
        }
        parts.push(part);
        if end == s.len() {
            more = false;
        } else {
            pos = end + 1;
        }
    }
    parts
}

/// Whether `b` is one of the characters `0` to `9`.
pub open spec fn is_digit(b: u8) -> bool {
    0x30 <= b <= 0x39
}

/// Whether every byte of `s` is a digit.
pub open spec fn all_digits(s: Seq<u8>) -> bool {
    forall|i: int| 0 <= i < s.len() ==> is_digit(#[trigger] s[i])
}

/// The number that the decimal digits `s` write.
pub open spec fn digits_value(s: Seq<u8>) -> int
    decreases s.len(),
{
    if s.len() == 0 {
        0
    } else {
        10 * digits_value(s.drop_last()) + (s.last() - 0x30)
    }
}

/// A number of digits is never less than what its first digits write.
pub proof fn lemma_digits_grow(s: Seq<u8>, n: int)
    requires
        all_digits(s),
        0 <= n <= s.len(),
    ensures
        0 <= digits_value(s.take(n)) <= digits_value(s),
    decreases s.len() - n,
{
    if n == s.len() {
        assert(s.take(n) =~= s);
        lemma_digits_nonnegative(s);
    } else {
        lemma_digits_grow(s, n + 1);
        let longer = s.take(n + 1);
        assert(longer.drop_last() =~= s.take(n));
        assert(longer.last() == s[n]);
        lemma_digits_nonnegative(s.take(n));
    }
}

proof fn lemma_digits_nonnegative(s: Seq<u8>)
    requires
        all_digits(s),
    ensures
        0 <= digits_value(s),
    decreases s.len(),
{
    if s.len() > 0 {
        assert forall|i: int| 0 <= i < s.drop_last().len() implies is_digit(
            #[trigger] s.drop_last()[i],
        ) by {
            assert(s.drop_last()[i] == s[i]);
        }
        lemma_digits_nonnegative(s.drop_last());
    }
}

/// The number that `s` writes as plain decimal digits, where it is at least
/// one digit, nothing but digits, and no more than `max`.
pub open spec fn magnitude(s: Seq<u8>, max: int) -> Option<int> {
    if s.len() == 0 || !all_digits(s) || digits_value(s) > max {
        None
    } else {
        Some(digits_value(s))
    }
}

/// Reads plain decimal digits.
pub fn parse_digits(s: &[u8], max: u64) -> (value: Option<u64>)
    ensures
        match value {
            Some(v) => magnitude(s@, max as int) == Some(v as int),
            None => magnitude(s@, max as int) is None,
        },
{
    if s.len() == 0 {
        return None;
    }
    let mut value: u64 = 0;
    let mut i: usize = 0;
    while i < s.len()
        invariant
            i <= s@.len(),
            all_digits(s@.take(i as int)),
            value as int == digits_value(s@.take(i as int)),
            value <= max,
        decreases s@.len() - i,
    {
        let b = s[i];
        if b < 0x30 || b > 0x39 {
            assert(!is_digit(s@[i as int]));
            return None;
        }
        let digit: u64 = (b - 0x30) as u64;
        proof {
            let longer = s@.take(i + 1);
            assert(longer.drop_last() =~= s@.take(i as int));
            assert(longer.last() == b);
            assert forall|j: int| 0 <= j < longer.len() implies is_digit(#[trigger] longer[j]) by {
                if j < i {
                    assert(longer[j] == s@.take(i as int)[j]);
                }
            }
        }
        if digit > max || value > (max - digit) / 10 {
            proof {
                assert(10 * value + digit > max);
                if all_digits(s@) {
                    lemma_digits_grow(s@, i + 1);
                }
            }
            return None;
        }
        value = 10 * value + digit;
        i = i + 1;
    }
    assert(s@.take(i as int) =~= s@);
    Some(value)
}

/// The number that `s` writes with the rules of `u64::from_str`: decimal
/// digits, and a `+` may stand before them.
pub open spec fn unsigned_value(s: Seq<u8>, max: int) -> Option<int> {
    if s.len() > 0 && s[0] == 0x2B {
        magnitude(s.skip(1), max)
    } else {
        magnitude(s, max)
    }
}

/// Reads a number without sign or with a `+`, up to `max`.
pub fn parse_unsigned(s: &[u8], max: u64) -> (value: Option<u64>)
    ensures
        match value {
            Some(v) => unsigned_value(s@, max as int) == Some(v as int),
            None => unsigned_value(s@, max as int) is None,
        },
{
    if s.len() > 0 && s[0] == 0x2B {
        let digits = slice_subrange(s, 1, s.len());
        assert(digits@ =~= s@.skip(1));
        parse_digits(digits, max)
    } else {
        parse_digits(s, max)
    }
}

/// The number that `s` writes with the rules of `i32::from_str`: decimal
/// digits, and a `+` or a `-` may stand before them.
pub open spec fn signed_value(s: Seq<u8>) -> Option<int> {
    if s.len() > 0 && s[0] == 0x2D {
        match magnitude(s.skip(1), 0x8000_0000) {
            Some(v) => Some(-v),
            None => None,
        }
    } else {
        unsigned_value(s, 0x7FFF_FFFF)
    }
}

/// Reads a number that fits 32 bits with a sign.
pub fn parse_i32(s: &[u8]) -> (value: Option<i32>)
    ensures
        match value {
            Some(v) => signed_value(s@) == Some(v as int),
            None => signed_value(s@) is None,
        },
{
    if s.len() > 0 && s[0] == 0x2D {
        let digits = slice_subrange(s, 1, s.len());
        assert(digits@ =~= s@.skip(1));
        match parse_digits(digits, 0x8000_0000) {
            Some(v) => Some((0 - v as i64) as i32),
            None => None,
        }
    } else {
        match parse_unsigned(s, 0x7FFF_FFFF) {
            Some(v) => Some(v as i32),
            None => None,
        }
    }
}

/// Longest byte string that is handed to a decoder of a legacy encoding,
/// which sizes its buffer at three times the input and a little.
pub const DECODE_LIMIT: usize = 0x1000_0000;

/// The text that `bytes` decode to in a legacy encoding, Shift-JIS where
/// `japanese` holds and Windows-1252 where it does not, or `None` where they
/// hold a malformed sequence. A byte order mark at the start makes the
/// decoder read UTF-8 or UTF-16 instead.
pub uninterp spec fn decoded_text(japanese: bool, bytes: Seq<u8>) -> Option<Seq<char>>;

/// `encoding_rs::Encoding::decode` on `SHIFT_JIS` or `WINDOWS_1252`: the
/// decoded text and whether a malformed sequence was met, which is `None`
/// here. The call panics where three times the length overflows, so long
/// inputs are left out. Nothing is claimed but that the outcome depends on
/// the encoding and the bytes alone.
#[verifier::external_body]
pub(crate) fn decode_text(japanese: bool, s: &[u8]) -> (text: Option<String>)
    requires
        s@.len() <= DECODE_LIMIT,
    ensures
        match text {
            Some(t) => decoded_text(japanese, s@) == Some(t@),
            None => decoded_text(japanese, s@) is None,
        },
{
    let encoding = if japanese {
        SHIFT_JIS
    } else {
        WINDOWS_1252
    };
    let (text, _encoding, had_errors) = encoding.decode(s);
    if had_errors {
        None
    } else {
        Some(text.into_owned())
    }
}

/// What the standard library says of bytes that are not UTF-8.
pub uninterp spec fn utf8_error_text(bytes: Seq<u8>) -> Seq<char>;

/// `std::str::from_utf8`: the string whose bytes are `bytes`, or the
/// message of the error where they are not UTF-8.
#[verifier::external_body]
pub(crate) fn utf8_decode(bytes: &[u8]) -> (text: Result<String, String>)
    ensures
        match text {
            Ok(s) => valid_utf8(bytes@) && encode_utf8(s@) == bytes@,
            Err(message) => !valid_utf8(bytes@) && message@ == utf8_error_text(bytes@),
        },
{
    match std::str::from_utf8(bytes) {
        Ok(s) => Ok(s.to_string()),
        Err(e) => Err(e.to_string()),
    }
}

/// The character that writes the digit `d` in bases up to sixteen, with
/// capital letters.
pub open spec fn digit_char(d: int) -> char {
    if d == 0 {
        '0'
    } else if d == 1 {
        '1'
    } else if d == 2 {
        '2'
    } else if d == 3 {
        '3'
    } else if d == 4 {
        '4'
    } else if d == 5 {
        '5'
    } else if d == 6 {
        '6'
    } else if d == 7 {
        '7'
    } else if d == 8 {
        '8'
    } else if d == 9 {
        '9'
    } else if d == 10 {
        'A'
    } else if d == 11 {
        'B'
    } else if d == 12 {
        'C'
    } else if d == 13 {
        'D'
    } else if d == 14 {
        'E'
    } else {
        'F'
    }
}

fn digit_str(d: u64) -> (s: &'static str)
    requires
        d < 16,
    ensures
        s@ == seq![digit_char(d as int)],
{
    proof {
        reveal_strlit("0");
        reveal_strlit("1");
        reveal_strlit("2");
        reveal_strlit("3");
        reveal_strlit("4");
        reveal_strlit("5");
        reveal_strlit("6");
        reveal_strlit("7");
        reveal_strlit("8");
        reveal_strlit("9");
        reveal_strlit("A");
        reveal_strlit("B");
        reveal_strlit("C");
        reveal_strlit("D");
        reveal_strlit("E");
        reveal_strlit("F");
    }
    let s = if d == 0 {
        "0"
    } else if d == 1 {
        "1"
    } else if d == 2 {
        "2"
    } else if d == 3 {
        "3"
    } else if d == 4 {
        "4"
    } else if d == 5 {
        "5"
    } else if d == 6 {
        "6"
    } else if d == 7 {
        "7"
    } else if d == 8 {
        "8"
    } else if d == 9 {
        "9"
    } else if d == 10 {
        "A"
    } else if d == 11 {
        "B"
    } else if d == 12 {
        "C"
    } else if d == 13 {
        "D"
    } else if d == 14 {
        "E"
    } else {
        "F"
    };
    assert(s@ =~= seq![digit_char(d as int)]);
    s
}

/// The decimal digits of `n`, without leading zeros.
pub open spec fn decimal_text(n: nat) -> Seq<char>
    decreases n,
{
    if n < 10 {
        seq![digit_char(n as int)]
    } else {
        decimal_text(n / 10) + seq![digit_char((n % 10) as int)]
    }
}

/// Writes `n` in decimal digits.
pub fn decimal_string(n: u64) -> (text: String)
    ensures
        text@ == decimal_text(n as nat),
    decreases n,
{
    if n < 10 {
        String::from_str(digit_str(n))
    } else {
        let mut text = decimal_string(n / 10);
        text.append(digit_str(n % 10));
        text
    }
}

/// The hexadecimal digits of `n`, in capital letters and without leading
/// zeros.
pub open spec fn hex_text(n: nat) -> Seq<char>
    decreases n,
{
    if n < 16 {
        seq![digit_char(n as int)]
    } else {
        hex_text(n / 16) + seq![digit_char((n % 16) as int)]
    }
}

/// Writes `n` in hexadecimal digits.
pub fn hex_string(n: u64) -> (text: String)
    ensures
        text@ == hex_text(n as nat),
    decreases n,
{
    if n < 16 {
        String::from_str(digit_str(n))
    } else {
        let mut text = hex_string(n / 16);
        text.append(digit_str(n % 16));
        text
    }
}

} // verus!
