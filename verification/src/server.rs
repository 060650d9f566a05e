//! The set-up web page's requests: the client credentials it submits, the
//! authorization code Spotify sends back, and the page that redirects the
//! browser to Spotify's login.
use vstd::prelude::*;
use crate::text::chars_of;

verus! {

broadcast use vstd::seq_lib::group_seq_properties;

/// The pieces of a text between separators, as `str::split` gives them
/// (always at least one, possibly empty).
pub open spec fn split_fields(s: Seq<char>, sep: char) -> Seq<Seq<char>>
    decreases s.len(),
{
    if s.len() == 0 {
        seq![Seq::empty()]
    } else {
        let rest = split_fields(s.drop_last(), sep);
        if s.last() == sep {
            rest.push(Seq::empty())
        } else {
            rest.update(rest.len() - 1, rest.last().push(s.last()))
        }
    }
}

/// The `n`-th piece of `s` split at `sep`, if there is one.
pub open spec fn nth_field(s: Seq<char>, sep: char, n: int) -> Option<Seq<char>> {
    let f = split_fields(s, sep);
    if 0 <= n < f.len() {
        Some(f[n])
    } else {
        None
    }
}

fn string_of(v: &Vec<char>) -> (s: String)
    ensures
        s@ == v@,
{
    crate::text::string_from_chars(v)
}

/// Splits a text at a separator.
pub fn split_on(s: &str, sep: char) -> (fields: Vec<String>)
    ensures
        fields@.map_values(|f: String| f@) == split_fields(s@, sep),
{
    let chars = chars_of(s);
    let mut done: Vec<String> = Vec::new();
    let mut current: Vec<char> = Vec::new();
    for i in 0..chars.len()
        invariant
            chars@ == s@,
            done@.map_values(|f: String| f@).push(current@) == split_fields(chars@.take(i as int), sep),
    {
        let c = chars[i];
        let ghost before = done@.map_values(|f: String| f@).push(current@);
        assert(chars@.take(i + 1).drop_last() == chars@.take(i as int));
        assert(chars@.take(i + 1).last() == c);
        if c == sep {
            let field = string_of(&current);
            done.push(field);
            current = Vec::new();
            assert(done@.map_values(|f: String| f@).push(current@) =~= before.push(Seq::empty()));
        } else {
            current.push(c);
            assert(done@.map_values(|f: String| f@).push(current@) =~= before.update(
                before.len() - 1,
                before.last().push(c),
            ));
        }
    }
    assert(chars@.take(chars@.len() as int) == chars@);
    let last = string_of(&current);
    let ghost pre = done@.map_values(|f: String| f@);
    done.push(last);
    assert(done@.map_values(|f: String| f@) =~= pre.push(last@));
    done
}

fn nth(s: &str, sep: char, n: usize) -> (r: Option<String>)
    ensures
        r is None <==> nth_field(s@, sep, n as int) is None,
        r matches Some(f) ==> nth_field(s@, sep, n as int) == Some(f@),
{
    let fields = split_on(s, sep);
    if n < fields.len() {
        let f = fields[n].clone();
        assert(fields@.map_values(|f: String| f@)[n as int] == fields@[n as int]@);
        Some(f)
    } else {
        None
    }
}

/// What the credentials form submits.
pub struct SetupRequest {
    /// The query after the `?`, passed on to Spotify's authorization page.
    pub args: String,
    pub client_id: String,
    pub client_secret: String,
}

/// The query of an address: the piece after its first `?`.
pub open spec fn query_of(uri: Seq<char>) -> Option<Seq<char>> {
    nth_field(uri, '?', 1)
}

/// The value of an `&`-separated argument: the piece after its first `=`.
pub open spec fn argument_value(args: Seq<char>, index: int) -> Option<Seq<char>> {
    match nth_field(args, '&', index) {
        Some(arg) => nth_field(arg, '=', 1),
        None => None,
    }
}

/// Reads the credentials form's address: the client id is the value of the
/// query's second argument, the client secret that of its third. `None`
/// where one of them is missing (there the firmware stops).
pub fn read_setup_request(uri: &str) -> (r: Option<SetupRequest>)
    ensures
        r is None <==> (query_of(uri@) is None || argument_value(query_of(uri@)->0, 1) is None
            || argument_value(query_of(uri@)->0, 2) is None),
        r matches Some(req) ==> Some(req.args@) == query_of(uri@) && Some(req.client_id@)
            == argument_value(req.args@, 1) && Some(req.client_secret@) == argument_value(
            req.args@,
            2,
        ),
{
    let args = match nth(uri, '?', 1) {
        Some(a) => a,
        None => return None,
    };
    let id_arg = match nth(args.as_str(), '&', 1) {
        Some(a) => a,
        None => return None,
    };
    let client_id = match nth(id_arg.as_str(), '=', 1) {
        Some(v) => v,
        None => return None,
    };
    let secret_arg = match nth(args.as_str(), '&', 2) {
        Some(a) => a,
        None => return None,
    };
    let client_secret = match nth(secret_arg.as_str(), '=', 1) {
        Some(v) => v,
        None => return None,
    };
    Some(SetupRequest { args, client_id, client_secret })
}

/// Reads the authorization code from Spotify's callback address: the value
/// of its query's first argument, up to any further `=`. `None` where there
/// is none (there the firmware stops).
pub fn read_callback_code(uri: &str) -> (r: Option<String>)
    ensures
        r is None <==> (query_of(uri@) is None || nth_field(query_of(uri@)->0, '=', 1) is None),
        r matches Some(code) ==> Some(code@) == nth_field(query_of(uri@)->0, '=', 1),
{
    let args = match nth(uri, '?', 1) {
        Some(a) => a,
        None => return None,
    };
    nth(args.as_str(), '=', 1)
}

/// The page that sends the browser on to Spotify's login, one second later.
pub open spec fn redirect_page_spec(args: Seq<char>) -> Seq<char> {
    "<!DOCTYPE html>\n            <html>\n                <head>\n                    <title>HTML Meta Tag</title>\n                    <meta http-equiv = \"refresh\" content = \"1; url = https://accounts.spotify.com/authorize?"@
        + args
        + "\" />\n                </head>\n                <body>\n                    <p>Redirecting to Spotify Login</p>\n                </body>\n            </html>"@
}

/// Builds the page that sends the browser on to Spotify's login with the
/// submitted query.
pub fn redirect_page(args: &str) -> (page: String)
    ensures
        page@ == redirect_page_spec(args@),
{
    let mut page = String::new();
    page.append(
        "<!DOCTYPE html>\n            <html>\n                <head>\n                    <title>HTML Meta Tag</title>\n                    <meta http-equiv = \"refresh\" content = \"1; url = https://accounts.spotify.com/authorize?",
    );
    page.append(args);
    page.append(
        "\" />\n                </head>\n                <body>\n                    <p>Redirecting to Spotify Login</p>\n                </body>\n            </html>",
    );
    page
}

} // verus!
