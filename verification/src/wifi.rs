//! Wi-Fi credentials: choosing the scanned network to join and reading
//! credentials typed on the serial console as `ssid:password`.
use vstd::prelude::*;
use vstd::utf8::*;
use crate::text::{chars_of, string_from_chars};

verus! {

broadcast use vstd::seq_lib::group_seq_properties;

/// The network to join and its password.
#[derive(Debug)]
pub struct WifiCredentials {
    pub ssid: String,
    pub password: String,
}

/// The mathematical value of [`WifiCredentials`].
pub struct WifiCredentialsView {
    pub ssid: Seq<char>,
    pub password: Seq<char>,
}

impl View for WifiCredentials {
    type V = WifiCredentialsView;

    open spec fn view(&self) -> WifiCredentialsView {
        WifiCredentialsView { ssid: self.ssid@, password: self.password@ }
    }
}

/// Whether two texts are equal.
pub fn str_eq(a: &str, b: &str) -> (r: bool)
    ensures
        r == (a@ == b@),
{
    let x = chars_of(a);
    let y = chars_of(b);
    if x.len() != y.len() {
        return false;
    }
    for i in 0..x.len()
        invariant
            x@ == a@,
            y@ == b@,
            x@.len() == y@.len(),
            forall|k: int| 0 <= k < i ==> x@[k] == y@[k],
    {
        if x[i] != y[i] {
            return false;
        }
    }
    assert(x@ =~= y@);
    true
}

/// Finds the first scanned network named like the credentials, whose BSSID,
/// channel and authentication the connection then takes.
pub fn find_network(scanned: &Vec<String>, ssid: &str) -> (r: Option<usize>)
    ensures
        r matches Some(i) ==> i < scanned@.len() && scanned@[i as int]@ == ssid@ && forall|j: int|
            0 <= j < i ==> scanned@[j]@ != ssid@,
        r is None ==> forall|j: int| 0 <= j < scanned@.len() ==> scanned@[j]@ != ssid@,
{
    for i in 0..scanned.len()
        invariant
            forall|j: int| 0 <= j < i ==> scanned@[j]@ != ssid@,
    {
        if str_eq(scanned[i].as_str(), ssid) {
            return Some(i);
        }
    }
    None
}

/// The characters that `char::is_whitespace` accepts: Unicode's `White_Space`.
pub open spec fn is_whitespace_spec(c: char) -> bool {
    ||| ('\t' <= c && c <= '\r')
    ||| c == ' '
    ||| c == '\u{85}'
    ||| c == '\u{A0}'
    ||| c == '\u{1680}'
    ||| ('\u{2000}' <= c && c <= '\u{200A}')
    ||| c == '\u{2028}'
    ||| c == '\u{2029}'
    ||| c == '\u{202F}'
    ||| c == '\u{205F}'
    ||| c == '\u{3000}'
}

/// Whether `c` is white space, as `char::is_whitespace` decides.
pub fn is_whitespace(c: char) -> (r: bool)
    ensures
        r == is_whitespace_spec(c),
{
    ('\t' <= c && c <= '\r') || c == ' ' || c == '\u{85}' || c == '\u{A0}' || c == '\u{1680}' || (
    '\u{2000}' <= c && c <= '\u{200A}') || c == '\u{2028}' || c == '\u{2029}' || c == '\u{202F}' || c
        == '\u{205F}' || c == '\u{3000}'
}

/// The text without its trailing white space, as `str::trim_end` gives it.
pub open spec fn trim_end_spec(s: Seq<char>) -> Seq<char>
    decreases s.len(),
{
    if s.len() > 0 && is_whitespace_spec(s.last()) {
        trim_end_spec(s.drop_last())
    } else {
        s
    }
}

/// The index of the first `c` in `s`, if there is one.
pub open spec fn first_index_of(s: Seq<char>, c: char) -> Option<int>
    decreases s.len(),
{
    if s.len() == 0 {
        None
    } else if s[0] == c {
        Some(0)
    } else {
        match first_index_of(s.drop_first(), c) {
            Some(i) => Some(i + 1),
            None => None,
        }
    }
}

/// What a line typed on the serial console gives.
pub enum SerialCredentials {
    /// Two bytes or fewer: nothing was typed.
    Ignored,
    /// No `:` separates an SSID from a password.
    MissingPassword,
    /// The SSID before the first `:` and the password after it, up to any
    /// further `:`, without trailing white space.
    Credentials(WifiCredentials),
}

/// The SSID part of a line: all before the first `:`.
pub open spec fn line_ssid(line: Seq<char>) -> Seq<char> {
    match first_index_of(line, ':') {
        Some(i) => line.take(i),
        None => line,
    }
}

/// The password part of a line: what follows the first `:` up to the next
/// one, without trailing white space.
pub open spec fn line_password(line: Seq<char>) -> Seq<char> {
    let rest = line.skip(first_index_of(line, ':')->0 + 1);
    trim_end_spec(
        match first_index_of(rest, ':') {
            Some(j) => rest.take(j),
            None => rest,
        },
    )
}

proof fn lemma_first_index(s: Seq<char>, c: char, i: int)
    requires
        0 <= i <= s.len(),
        forall|j: int| 0 <= j < i ==> s[j] != c,
        i < s.len() ==> s[i] == c,
    ensures
        i < s.len() ==> first_index_of(s, c) == Some(i),
        i == s.len() ==> first_index_of(s, c) is None,
    decreases s.len(),
{
    if s.len() > 0 && i > 0 {
        let t = s.drop_first();
        assert forall|j: int| 0 <= j < i - 1 implies t[j] != c by {
            assert(t[j] == s[j + 1]);
        }
        if i < s.len() {
            assert(t[i - 1] == s[i]);
        }
        assert(s[0] != c);
        lemma_first_index(t, c, i - 1);
    }
}

proof fn lemma_first_index_found(s: Seq<char>, c: char)
    ensures
        first_index_of(s, c) matches Some(i) ==> 0 <= i < s.len() && s[i] == c && forall|j: int|
            0 <= j < i ==> s[j] != c,
        first_index_of(s, c) is None ==> forall|j: int| 0 <= j < s.len() ==> s[j] != c,
    decreases s.len(),
{
    if s.len() > 0 && s[0] != c {
        let t = s.drop_first();
        lemma_first_index_found(t, c);
        assert forall|j: int| 1 <= j < s.len() implies s[j] == t[j - 1] by {}
    }
}

fn index_of(s: &Vec<char>, from: usize, c: char) -> (r: usize)
    requires
        from <= s@.len(),
    ensures
        from <= r <= s@.len(),
        r < s@.len() ==> first_index_of(s@.skip(from as int), c) == Some(r - from),
        r == s@.len() ==> first_index_of(s@.skip(from as int), c) is None,
{
    let mut i = from;
    while i < s.len() && s[i] != c
        invariant
            from <= i <= s@.len(),
            forall|j: int| from <= j < i ==> s@[j] != c,
        decreases s@.len() - i,
    {
        i = i + 1;
    }
    proof {
        let t = s@.skip(from as int);
        if i < s@.len() {
            assert(t[i - from] == s@[i as int]);
        }
        assert forall|j: int| 0 <= j < i - from implies t[j] != c by {
            assert(t[j] == s@[from + j]);
        }
        lemma_first_index(t, c, i - from);
    }
    i
}

fn trim_end_len(s: &Vec<char>, end: usize) -> (r: usize)
    requires
        end <= s@.len(),
    ensures
        r <= end,
        s@.take(r as int) == trim_end_spec(s@.take(end as int)),
    decreases end,
{
    if end > 0 && is_whitespace(s[end - 1]) {
        assert(s@.take(end as int).drop_last() == s@.take(end - 1));
        trim_end_len(s, end - 1)
    } else {
        end
    }
}

fn chars_between(s: &Vec<char>, start: usize, end: usize) -> (r: String)
    requires
        start <= end <= s@.len(),
    ensures
        r@ == s@.subrange(start as int, end as int),
{
    let mut v: Vec<char> = Vec::new();
    let mut i = start;
    while i < end
        invariant
            start <= i <= end <= s@.len(),
            v@ == s@.subrange(start as int, i as int),
        decreases end - i,
    {
        v.push(s[i]);
        i = i + 1;
    }
    string_from_chars(&v)
}

/// The password part that follows the `:` at `colon`.
fn password_after(chars: &Vec<char>, colon: usize) -> (password: String)
    requires
        colon < chars@.len(),
        chars@[colon as int] == ':',
        forall|j: int| 0 <= j < colon ==> chars@[j] != ':',
    ensures
        password@ == line_password(chars@),
{
    let n = chars.len();
    let next = index_of(chars, colon + 1, ':');
    let ghost rest = chars@.skip(colon + 1);
    proof {
        lemma_first_index(chars@, ':', colon as int);
    }
    let mut part: Vec<char> = Vec::new();
    let mut i = colon + 1;
    while i < next
        invariant
            colon + 1 <= i <= next <= chars@.len(),
            part@ == chars@.subrange(colon + 1, i as int),
        decreases next - i,
    {
        part.push(chars[i]);
        i = i + 1;
    }
    proof {
        if next < chars@.len() {
            assert(part@ =~= rest.take(next - colon - 1));
        } else {
            assert(part@ =~= rest);
        }
    }
    let keep = trim_end_len(&part, part.len());
    assert(part@.take(part@.len() as int) == part@);
    let password = chars_between(&part, 0, keep);
    assert(password@ == part@.take(keep as int));
    password
}

/// Reads `ssid:password` from a line typed on the serial console. Lines of
/// two bytes or fewer are ignored.
pub fn parse_serial_credentials(line: &str) -> (r: SerialCredentials)
    ensures
        line.len() <= 2 ==> r is Ignored,
        line.len() > 2 && first_index_of(line@, ':') is None ==> r is MissingPassword,
        r matches SerialCredentials::Credentials(c) ==> line.len() > 2
            && first_index_of(line@, ':') is Some && c@ == (WifiCredentialsView {
            ssid: line_ssid(line@),
            password: line_password(line@),
        }),
        line.len() > 2 && first_index_of(line@, ':') is Some ==> r is Credentials,
{
    if line.len() <= 2 {
        return SerialCredentials::Ignored;
    }
    let chars = chars_of(line);
    assert(chars@.skip(0) == chars@);
    let colon = index_of(&chars, 0, ':');
    if colon == chars.len() {
        return SerialCredentials::MissingPassword;
    }
    proof {
        lemma_first_index_found(chars@, ':');
    }
    let ssid = chars_between(&chars, 0, colon);
    let password = password_after(&chars, colon);
    SerialCredentials::Credentials(WifiCredentials { ssid, password })
}

} // verus!
