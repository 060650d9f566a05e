//! Character, byte and decimal helpers shared by the protocol and the
//! Spotify client: UTF-8 decoding, decimal rendering and parsing, and the
//! small trimming rules the firmware applies to the values it reads.
use vstd::prelude::*;
use vstd::utf8::*;

verus! {

/// Wraps `String::from_utf8`: the bytes decode when they are valid UTF-8,
/// and the decoded text is their UTF-8 reading.
#[verifier::external_body]
pub fn string_from_utf8(bytes: Vec<u8>) -> (r: Option<String>)
    ensures
        r is Some <==> valid_utf8(bytes@),
        r matches Some(s) ==> s@ == decode_utf8(bytes@),
{
    String::from_utf8(bytes).ok()
}

/// Wraps `String::push`: appends one character.
#[verifier::external_body]
pub fn push_char(s: &mut String, c: char)
    ensures
        final(s)@ == old(s)@.push(c),
{
    s.push(c);
}

/// The text of a character sequence as an owned string.
pub fn string_from_chars(chars: &Vec<char>) -> (s: String)
    ensures
        s@ == chars@,
{
    let mut s = String::new();
    for i in 0..chars.len()
        invariant
            s@ == chars@.take(i as int),
    {
        push_char(&mut s, chars[i]);
        assert(chars@.take(i + 1) == chars@.take(i as int).push(chars@[i as int]));
    }
    assert(chars@.take(chars@.len() as int) == chars@);
    s
}

/// The characters of a string, in order.
pub fn chars_of(s: &str) -> (r: Vec<char>)
    ensures
        r@ == s@,
{
    let mut r: Vec<char> = Vec::new();
    for c in it: s.chars()
        invariant
            r@ == it.seq().take(it.index()),
    {
        r.push(c);
    }
    r
}

/// The bytes `start..end` of `data`, copied.
pub fn copy_range(data: &[u8], start: usize, end: usize) -> (r: Vec<u8>)
    requires
        start <= end <= data@.len(),
    ensures
        r@ == data@.subrange(start as int, end as int),
{
    let mut r: Vec<u8> = Vec::new();
    let mut i = start;
    while i < end
        invariant
            start <= i <= end <= data@.len(),
            r@ == data@.subrange(start as int, i as int),
        decreases end - i,
    {
        r.push(data[i]);
        i = i + 1;
    }
    r
}

/// The ASCII digit for `d`.
pub open spec fn digit_char(d: nat) -> char {
    ((48 + d) as u32) as char
}

/// The decimal rendering of `n`, most significant digit first, no leading zeros.
pub open spec fn decimal(n: nat) -> Seq<char>
    decreases n,
{
    if n < 10 {
        seq![digit_char(n)]
    } else {
        decimal(n / 10).push(digit_char(n % 10))
    }
}

/// The decimal rendering of a signed number: a minus sign before the digits
/// of its magnitude when it is negative.
pub open spec fn signed_decimal(n: int) -> Seq<char> {
    if n < 0 {
        seq!['-'] + decimal((-n) as nat)
    } else {
        decimal(n as nat)
    }
}

fn digit(d: u64) -> (c: char)
    requires
        d < 10,
    ensures
        c == digit_char(d as nat),
{
    let b = (48 + d) as u8;
    let c = b as char;
    assert(c == digit_char(d as nat));
    c
}

/// Renders `n` in decimal, as `Display` does for unsigned integers.
pub fn u64_to_decimal(n: u64) -> (s: String)
    ensures
        s@ == decimal(n as nat),
    decreases n,
{
    if n < 10 {
        let mut s = String::new();
        push_char(&mut s, digit(n));
        s
    } else {
        let mut s = u64_to_decimal(n / 10);
        push_char(&mut s, digit(n % 10));
        s
    }
}

/// Renders `n` in decimal, as `Display` does for signed integers.
pub fn i64_to_decimal(n: i64) -> (s: String)
    ensures
        s@ == signed_decimal(n as int),
{
    if n < 0 {
        let magnitude: u64 = if n == i64::MIN {
            9223372036854775808u64
        } else {
            (-n) as u64
        };
        let digits = u64_to_decimal(magnitude);
        let mut s = String::new();
        push_char(&mut s, '-');
        s.append(digits.as_str());
        s
    } else {
        u64_to_decimal(n as u64)
    }
}

/// Whether every character is an ASCII digit.
pub open spec fn all_digits(s: Seq<char>) -> bool {
    forall|i: int| 0 <= i < s.len() ==> '0' <= #[trigger] s[i] <= '9'
}

/// The value of a run of ASCII digits.
pub open spec fn digits_value(s: Seq<char>) -> nat
    decreases s.len(),
{
    if s.len() == 0 {
        0
    } else {
        digits_value(s.drop_last()) * 10 + ((s.last() as u32) - 48) as nat
    }
}

/// What `str::parse` gives for an unsigned integer type whose largest value
/// is `max`: an optional `+`, then one or more ASCII digits, with a value that fits.
pub open spec fn parse_unsigned_spec(s: Seq<char>, max: nat) -> Option<nat> {
    let d = if s.len() > 0 && s[0] == '+' {
        s.drop_first()
    } else {
        s
    };
    if d.len() > 0 && all_digits(d) && digits_value(d) <= max {
        Some(digits_value(d))
    } else {
        None
    }
}

proof fn lemma_digits_value_prefix(s: Seq<char>, i: int)
    requires
        all_digits(s),
        0 <= i <= s.len(),
    ensures
        digits_value(s.take(i)) <= digits_value(s),
    decreases s.len() - i,
{
    if i < s.len() {
        lemma_digits_value_prefix(s, i + 1);
        assert(s.take(i + 1).drop_last() == s.take(i));
    } else {
        assert(s.take(i) == s);
    }
}

/// Parses an unsigned decimal no larger than `max`, as `str::parse` does for
/// the unsigned integer type whose largest value is `max`.
pub fn parse_unsigned(s: &str, max: u64) -> (r: Option<u64>)
    ensures
        r matches Some(v) ==> parse_unsigned_spec(s@, max as nat) == Some(v as nat),
        r is None ==> parse_unsigned_spec(s@, max as nat) is None,
{
    let chars = chars_of(s);
    let start: usize = if chars.len() > 0 && chars[0] == '+' { 1 } else { 0 };
    let ghost d = if s@.len() > 0 && s@[0] == '+' { s@.drop_first() } else { s@ };
    assert(d == chars@.subrange(start as int, chars@.len() as int));
    if start >= chars.len() {
        assert(d.len() == 0);
        return None;
    }
    let mut value: u64 = 0;
    let mut i = start;
    while i < chars.len()
        invariant
            start <= i <= chars@.len(),
            d == chars@.subrange(start as int, chars@.len() as int),
            d == (if s@.len() > 0 && s@[0] == '+' { s@.drop_first() } else { s@ }),
            all_digits(d.take(i - start)),
            value as nat == digits_value(d.take(i - start)),
            value <= max,
        decreases chars@.len() - i,
    {
        let c = chars[i];
        assert(d.take(i + 1 - start).drop_last() == d.take(i - start));
        if c < '0' || c > '9' {
            assert(d[i - start] == c);
            assert(!all_digits(d));
            assert(parse_unsigned_spec(s@, max as nat) is None);
            return None;
        }
        let dv = (c as u32 - 48) as u64;
        let next: u128 = value as u128 * 10 + dv as u128;
        assert(d.take(i + 1 - start).last() == c);
        assert(next == digits_value(d.take(i + 1 - start)));
        if next > max as u128 {
            proof {
                assert forall|k: int| 0 <= k < d.take(i + 1 - start).len() implies '0' <= #[trigger] d.take(i + 1 - start)[k] <= '9' by {
                    if k < i - start {
                        assert(d.take(i + 1 - start)[k] == d.take(i - start)[k]);
                    }
                }
                if all_digits(d) {
                    lemma_digits_value_prefix(d, i + 1 - start);
                }
                assert(parse_unsigned_spec(s@, max as nat) is None);
            }
            return None;
        }
        value = next as u64;
        i = i + 1;
        assert forall|k: int| 0 <= k < d.take(i - start).len() implies '0' <= #[trigger] d.take(i - start)[k] <= '9' by {
            if k < i - 1 - start {
                assert(d.take(i - start)[k] == d.take(i - 1 - start)[k]);
            }
        }
    }
    assert(d.take(i - start) == d);
    Some(value)
}

/// What `str::parse::<bool>` gives.
pub open spec fn parse_bool_spec(s: Seq<char>) -> Option<bool> {
    if s == seq!['t', 'r', 'u', 'e'] {
        Some(true)
    } else if s == seq!['f', 'a', 'l', 's', 'e'] {
        Some(false)
    } else {
        None
    }
}

/// Parses `true` or `false`, as `str::parse::<bool>` does.
pub fn parse_bool(s: &str) -> (r: Option<bool>)
    ensures
        r == parse_bool_spec(s@),
{
    let chars = chars_of(s);
    if chars.len() == 4 && chars[0] == 't' && chars[1] == 'r' && chars[2] == 'u' && chars[3] == 'e' {
        assert(chars@ == seq!['t', 'r', 'u', 'e']);
        Some(true)
    } else if chars.len() == 5 && chars[0] == 'f' && chars[1] == 'a' && chars[2] == 'l' && chars[3]
        == 's' && chars[4] == 'e' {
        assert(chars@ == seq!['f', 'a', 'l', 's', 'e']);
        Some(false)
    } else {
        assert(chars@ != seq!['t', 'r', 'u', 'e'] && chars@ != seq!['f', 'a', 'l', 's', 'e']) by {
            if chars@ == seq!['t', 'r', 'u', 'e'] {
                assert(chars@[0] == 't');
            }
            if chars@ == seq!['f', 'a', 'l', 's', 'e'] {
                assert(chars@[0] == 'f');
            }
        }
        None
    }
}

/// The text without its first and last character (a quoted JSON string
/// loses its quotes); what is shorter than two characters becomes empty.
pub open spec fn strip_ends(s: Seq<char>) -> Seq<char> {
    if s.len() < 2 {
        Seq::empty()
    } else {
        s.subrange(1, s.len() - 1)
    }
}

/// Drops the first and the last character of `input`.
pub fn remove_quotes(input: String) -> (r: String)
    ensures
        r@ == strip_ends(input@),
{
    let chars = chars_of(input.as_str());
    let mut r = String::new();
    if chars.len() >= 2 {
        let mut i: usize = 1;
        while i < chars.len() - 1
            invariant
                chars@ == input@,
                chars@.len() >= 2,
                1 <= i <= chars@.len() - 1,
                r@ == chars@.subrange(1, i as int),
            decreases chars@.len() - i,
        {
            push_char(&mut r, chars[i]);
            i = i + 1;
        }
    }
    r
}

} // verus!
