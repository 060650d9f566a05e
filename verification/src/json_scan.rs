//! Reading values out of a JSON response body the way the firmware does:
//! without a parser, by scanning for a key and taking what follows its colon
//! up to a line end.
use vstd::prelude::*;
use vstd::utf8::*;
use crate::text::string_from_utf8;

verus! {

broadcast use vstd::seq_lib::group_seq_properties;

/// The scanner's state while it looks for a key.
pub struct ScanState {
    /// The bytes read so far match the start of the key.
    pub look: bool,
    /// The whole key has been read; now taking the value.
    pub found: bool,
    /// Still skipping to the colon after the key.
    pub seek: bool,
    /// How many characters of the key have matched.
    pub ind: nat,
    /// The value's bytes taken so far.
    pub ret: Seq<u8>,
}

/// The character a byte stands for (`char::from(u8)`).
pub open spec fn byte_char(b: u8) -> char {
    (b as u32) as char
}

/// The scanner at the start: nothing matched yet.
pub open spec fn scan_start() -> ScanState {
    ScanState { look: false, found: false, seek: true, ind: 0, ret: Seq::empty() }
}

/// Scans `bytes` from `pos` for the key `key` (`key_len` bytes long) and
/// takes the value after it, up to `line_end`: `None` where the scan would
/// index past the key, else the value's bytes and the position after the
/// last byte consumed. The byte right after the colon is skipped.
pub open spec fn scan_from(
    bytes: Seq<u8>,
    pos: int,
    key: Seq<char>,
    key_len: int,
    line_end: char,
    st: ScanState,
) -> Option<(Seq<u8>, int)>
    decreases bytes.len() - pos,
{
    if pos < 0 || pos >= bytes.len() {
        Some((st.ret, pos))
    } else {
        let b = bytes[pos];
        let c = byte_char(b);
        if st.found {
            if st.seek && c != ':' {
                scan_from(bytes, pos + 1, key, key_len, line_end, st)
            } else if c != line_end {
                if st.seek && c == ':' {
                    let next = if pos + 2 <= bytes.len() {
                        pos + 2
                    } else {
                        pos + 1
                    };
                    scan_from(bytes, next, key, key_len, line_end, ScanState { seek: false, ..st })
                } else {
                    scan_from(
                        bytes,
                        pos + 1,
                        key,
                        key_len,
                        line_end,
                        ScanState { ret: st.ret.push(b), ..st },
                    )
                }
            } else {
                Some((st.ret, pos + 1))
            }
        } else if !st.look && key.len() == 0 {
            None
        } else if !st.look && c == key[0] {
            scan_from(
                bytes,
                pos + 1,
                key,
                key_len,
                line_end,
                ScanState { look: true, ind: 1, ..st },
            )
        } else if st.look && st.ind >= key.len() {
            None
        } else if st.look && c == key[st.ind as int] {
            scan_from(
                bytes,
                pos + 1,
                key,
                key_len,
                line_end,
                ScanState { ind: st.ind + 1, found: st.ind + 1 == key_len, ..st },
            )
        } else if st.look {
            scan_from(
                bytes,
                pos + 1,
                key,
                key_len,
                line_end,
                ScanState { look: false, ind: 0, ..st },
            )
        } else {
            scan_from(bytes, pos + 1, key, key_len, line_end, st)
        }
    }
}

/// The text without one trailing comma.
pub open spec fn strip_trailing_comma(s: Seq<char>) -> Seq<char> {
    if s.len() > 0 && s.last() == ',' {
        s.drop_last()
    } else {
        s
    }
}

/// The value of `key` read from `bytes` at `pos`, and where reading
/// stopped: `None` where the scan fails or the value is not UTF-8.
pub open spec fn read_value(bytes: Seq<u8>, pos: int, key: &str, line_end: char) -> Option<
    (Seq<char>, int),
> {
    match scan_from(bytes, pos, key@, key.len() as int, line_end, scan_start()) {
        Some((ret, next)) => if valid_utf8(ret) {
            Some((strip_trailing_comma(decode_utf8(ret)), next))
        } else {
            None
        },
        None => None,
    }
}

/// Scans for `key` from `pos` and returns the value's bytes and the
/// position after the last byte consumed.
fn scan_value(bytes: &[u8], pos: usize, key: &str, line_end: char) -> (r: Option<(Vec<u8>, usize)>)
    requires
        pos <= bytes@.len(),
    ensures
        r is None <==> scan_from(bytes@, pos as int, key@, key.len() as int, line_end, scan_start())
            is None,
        r matches Some((v, next)) ==> scan_from(
            bytes@,
            pos as int,
            key@,
            key.len() as int,
            line_end,
            scan_start(),
        ) == Some((v@, next as int)),
{
    let key_chars = crate::text::chars_of(key);
    let key_len = key.len();
    let mut look = false;
    let mut found = false;
    let mut seek = true;
    let mut ind: usize = 0;
    let mut ret: Vec<u8> = Vec::new();
    let mut p = pos;
    let ghost total = scan_from(bytes@, pos as int, key@, key_len as int, line_end, scan_start());
    while p < bytes.len()
        invariant
            pos <= p <= bytes@.len(),
            key_chars@ == key@,
            key_len == key.len(),
            total == scan_from(bytes@, pos as int, key@, key.len() as int, line_end, scan_start()),
            ind <= key_chars@.len() || !look,
            total == scan_from(
                bytes@,
                p as int,
                key@,
                key_len as int,
                line_end,
                ScanState { look, found, seek, ind: ind as nat, ret: ret@ },
            ),
        decreases bytes@.len() - p,
    {
        let b = bytes[p];
        let c = b as char;
        assert(c == byte_char(b));
        if found {
            if seek && c != ':' {
                p = p + 1;
            } else if c != line_end {
                if seek && c == ':' {
                    seek = false;
                    if p + 1 < bytes.len() {
                        p = p + 2;
                    } else {
                        p = p + 1;
                    }
                } else {
                    ret.push(b);
                    p = p + 1;
                }
            } else {
                let ghost st = ScanState { look, found, seek, ind: ind as nat, ret: ret@ };
                assert(c == line_end);
                assert(scan_from(bytes@, p as int, key@, key_len as int, line_end, st) == Some((ret@, p + 1)));
                return Some((ret, p + 1));
            }
        } else if !look && key_chars.len() == 0 {
            return None;
        } else if !look && c == key_chars[0] {
            look = true;
            ind = 1;
            p = p + 1;
        } else if look && ind >= key_chars.len() {
            let ghost st = ScanState { look, found, seek, ind: ind as nat, ret: ret@ };
            assert(scan_from(bytes@, p as int, key@, key_len as int, line_end, st) is None);
            return None;
        } else if look && c == key_chars[ind] {
            ind = ind + 1;
            found = ind == key_len;
            p = p + 1;
        } else if look {
            look = false;
            ind = 0;
            p = p + 1;
        } else {
            p = p + 1;
        }
    }
    Some((ret, p))
}

/// Reads the value of `key` from `bytes` at `pos`, as the firmware reads
/// one value from a streamed response: `None` where the firmware stops.
pub fn get_val(bytes: &[u8], pos: usize, key: &str, line_end: char) -> (r: Option<(String, usize)>)
    requires
        pos <= bytes@.len(),
    ensures
        r is None <==> read_value(bytes@, pos as int, key, line_end) is None,
        r matches Some((v, next)) ==> read_value(bytes@, pos as int, key, line_end) == Some(
            (v@, next as int),
        ),
        r matches Some((_, next)) ==> next <= bytes@.len(),
{
    match scan_value(bytes, pos, key, line_end) {
        None => None,
        Some((ret, next)) => {
            proof {
                lemma_scan_bound(bytes@, pos as int, key@, key.len() as int, line_end, scan_start());
            }
            match string_from_utf8(ret) {
                None => None,
                Some(s) => {
                    let chars = crate::text::chars_of(s.as_str());
                    if chars.len() > 0 && chars[chars.len() - 1] == ',' {
                        let mut v: Vec<char> = chars;
                        v.pop();
                        Some((crate::text::string_from_chars(&v), next))
                    } else {
                        Some((s, next))
                    }
                },
            }
        },
    }
}

proof fn lemma_scan_bound(
    bytes: Seq<u8>,
    pos: int,
    key: Seq<char>,
    key_len: int,
    line_end: char,
    st: ScanState,
)
    requires
        0 <= pos <= bytes.len(),
    ensures
        scan_from(bytes, pos, key, key_len, line_end, st) matches Some((_, next)) ==> pos <= next
            <= bytes.len(),
    decreases bytes.len() - pos,
{
    if pos < bytes.len() {
        let c = byte_char(bytes[pos]);
        let next = if pos + 2 <= bytes.len() {
            pos + 2
        } else {
            pos + 1
        };
        lemma_scan_bound(bytes, pos + 1, key, key_len, line_end, st);
        lemma_scan_bound(bytes, next, key, key_len, line_end, ScanState { seek: false, ..st });
        lemma_scan_bound(bytes, pos + 1, key, key_len, line_end, ScanState { ret: st.ret.push(bytes[pos]), ..st });
        lemma_scan_bound(bytes, pos + 1, key, key_len, line_end, ScanState { look: true, ind: 1, ..st });
        lemma_scan_bound(
            bytes,
            pos + 1,
            key,
            key_len,
            line_end,
            ScanState { ind: st.ind + 1, found: st.ind + 1 == key_len, ..st },
        );
        lemma_scan_bound(bytes, pos + 1, key, key_len, line_end, ScanState { look: false, ind: 0, ..st });
    }
}

} // verus!
