//! The Spotify Web API client: the requests the controller makes, and what
//! it learns from the answers.
use vstd::prelude::*;
use vstd::utf8::*;
use crate::json_scan::{get_val, read_value};
use crate::text::{
    chars_of, decimal, parse_bool, parse_bool_spec, parse_unsigned, parse_unsigned_spec, push_char,
    remove_quotes, string_from_chars, string_from_utf8, strip_ends, u64_to_decimal,
};

verus! {

broadcast use vstd::seq_lib::group_seq_properties;

// ---------------------------------------------------------------------------
// Requests
// ---------------------------------------------------------------------------

/// HTTP methods the client uses.
#[derive(Clone, Copy, Debug, PartialEq, Eq, Structural)]
pub enum HttpMethod {
    Get,
    Put,
    Post,
    Delete,
}

/// A request to send: method, address, headers (name, value) and body.
pub struct HttpRequest {
    pub method: HttpMethod,
    pub url: String,
    pub headers: Vec<(String, String)>,
    pub body: String,
}

/// The mathematical value of an [`HttpRequest`].
pub struct HttpRequestView {
    pub method: HttpMethod,
    pub url: Seq<char>,
    pub headers: Seq<(Seq<char>, Seq<char>)>,
    pub body: Seq<char>,
}

/// The text of each header.
pub open spec fn headers_view(headers: Seq<(String, String)>) -> Seq<(Seq<char>, Seq<char>)> {
    headers.map_values(|h: (String, String)| (h.0@, h.1@))
}

impl View for HttpRequest {
    type V = HttpRequestView;

    open spec fn view(&self) -> HttpRequestView {
        HttpRequestView {
            method: self.method,
            url: self.url@,
            headers: headers_view(self.headers@),
            body: self.body@,
        }
    }
}

/// A request spelled out.
pub open spec fn request(
    method: HttpMethod,
    url: Seq<char>,
    headers: Seq<(Seq<char>, Seq<char>)>,
    body: Seq<char>,
) -> HttpRequestView {
    HttpRequestView { method, url, headers, body }
}

/// The header that presents the access token.
pub open spec fn bearer_header(token: Seq<char>) -> (Seq<char>, Seq<char>) {
    ("Authorization"@, "Bearer "@ + token)
}

/// The text of two strings, one after the other.
fn concat(a: &str, b: &str) -> (s: String)
    ensures
        s@ == a@ + b@,
{
    let mut s = String::new();
    s.append(a);
    s.append(b);
    s
}

fn concat3(a: &str, b: &str, c: &str) -> (s: String)
    ensures
        s@ == a@ + b@ + c@,
{
    let mut s = concat(a, b);
    s.append(c);
    s
}

fn header(name: &str, value: String) -> (h: (String, String))
    ensures
        h.0@ == name@,
        h.1@ == value@,
{
    (name.to_owned(), value)
}

fn three_headers(a: (String, String), b: (String, String), c: (String, String)) -> (v: Vec<
    (String, String),
>)
    ensures
        headers_view(v@) == seq![(a.0@, a.1@), (b.0@, b.1@), (c.0@, c.1@)],
{
    let v: Vec<(String, String)> = vec![a, b, c];
    assert(headers_view(v@) =~= seq![(a.0@, a.1@), (b.0@, b.1@), (c.0@, c.1@)]);
    v
}

// ---------------------------------------------------------------------------
// Base64 and JSON
// ---------------------------------------------------------------------------

/// The Base64 digit for a 6-bit value (standard alphabet).
pub open spec fn base64_digit(v: nat) -> char {
    if v < 26 {
        ((65 + v) as u32) as char
    } else if v < 52 {
        ((97 + v - 26) as u32) as char
    } else if v < 62 {
        ((48 + v - 52) as u32) as char
    } else if v == 62 {
        '+'
    } else {
        '/'
    }
}

/// Standard Base64 with `=` padding (RFC 4648, section 4): each group of
/// three bytes gives four digits; a final group of one or two bytes gives
/// two or three digits and is padded to four.
pub open spec fn base64_spec(b: Seq<u8>) -> Seq<char>
    decreases b.len(),
{
    if b.len() == 0 {
        Seq::empty()
    } else if b.len() == 1 {
        seq![base64_digit((b[0] / 4) as nat), base64_digit(((b[0] % 4) * 16) as nat), '=', '=']
    } else if b.len() == 2 {
        seq![
            base64_digit((b[0] / 4) as nat),
            base64_digit(((b[0] % 4) * 16 + b[1] / 16) as nat),
            base64_digit(((b[1] % 16) * 4) as nat),
            '=',
        ]
    } else {
        seq![
            base64_digit((b[0] / 4) as nat),
            base64_digit(((b[0] % 4) * 16 + b[1] / 16) as nat),
            base64_digit(((b[1] % 16) * 4 + b[2] / 64) as nat),
            base64_digit((b[2] % 64) as nat),
        ] + base64_spec(b.skip(3))
    }
}

/// Wraps `base64::Engine::encode` with the standard engine: standard
/// Base64 with padding. Its output size must fit in a `usize`.
#[verifier::external_body]
fn base64_encode(input: &[u8]) -> (r: String)
    requires
        input@.len() <= usize::MAX / 2,
    ensures
        r@ == base64_spec(input@),
{
    base64::Engine::encode(&base64::prelude::BASE64_STANDARD, input)
}

/// What serde_json gives for member `key` of the JSON document `text`: the
/// document is parsed as a `serde_json::Value`, the member is looked up
/// (`null` where it is missing) and rendered as JSON text with `to_string`;
/// `None` where the text is not JSON.
pub uninterp spec fn json_member_text(text: Seq<char>, key: Seq<char>) -> Option<Seq<char>>;

/// Wraps `serde_json::from_str::<Value>`, then indexes the value by `key`
/// and renders the member with `to_string`. Nothing is stated of the
/// rendered text beyond its name: the JSON grammar and rendering are
/// serde_json's.
#[verifier::external_body]
fn json_member(text: &str, key: &str) -> (r: Option<String>)
    ensures
        r is Some <==> json_member_text(text@, key@) is Some,
        r matches Some(s) ==> json_member_text(text@, key@) == Some(s@),
{
    match serde_json::from_str::<serde_json::Value>(text) {
        Ok(value) => Some(value[key].to_string()),
        Err(_) => None,
    }
}

/// The `Authorization` value for client credentials: `Basic ` and the
/// Base64 of the UTF-8 of `id:secret`.
pub open spec fn basic_auth_spec(client_id: Seq<char>, client_secret: Seq<char>) -> Seq<char> {
    "Basic "@ + base64_spec(encode_utf8(client_id + seq![':'] + client_secret))
}

/// Builds the `Authorization` value for client credentials.
pub fn basic_auth(client_id: &str, client_secret: &str) -> (r: String)
    requires
        encode_utf8(client_id@ + seq![':'] + client_secret@).len() <= usize::MAX / 2,
    ensures
        r@ == basic_auth_spec(client_id@, client_secret@),
{
    proof {
        reveal_strlit(":");
        assert(":"@ =~= seq![':']);
    }
    let credentials = concat3(client_id, ":", client_secret);
    let encoded = base64_encode(credentials.as_str().as_bytes());
    concat("Basic ", encoded.as_str())
}

// ---------------------------------------------------------------------------
// The controller
// ---------------------------------------------------------------------------

/// What the controller knows of the Spotify session and player.
#[derive(Debug)]
pub struct SpotifyController {
    pub access_token: String,
    pub refresh_token: String,
    pub refresh_timeout: u64,
    pub current_vol: Option<u8>,
    pub can_control_vol: bool,
    pub is_playing: bool,
    pub shuffle_state: bool,
    pub currently_playing_id: String,
}

/// The mathematical value of a [`SpotifyController`].
pub struct SpotifyState {
    pub access_token: Seq<char>,
    pub refresh_token: Seq<char>,
    pub refresh_timeout: u64,
    pub current_vol: Option<u8>,
    pub can_control_vol: bool,
    pub is_playing: bool,
    pub shuffle_state: bool,
    pub currently_playing_id: Seq<char>,
}

impl View for SpotifyController {
    type V = SpotifyState;

    open spec fn view(&self) -> SpotifyState {
        SpotifyState {
            access_token: self.access_token@,
            refresh_token: self.refresh_token@,
            refresh_timeout: self.refresh_timeout,
            current_vol: self.current_vol,
            can_control_vol: self.can_control_vol,
            is_playing: self.is_playing,
            shuffle_state: self.shuffle_state,
            currently_playing_id: self.currently_playing_id@,
        }
    }
}

/// The playing song as the player reports it.
pub struct SongInfo {
    pub title: String,
    pub artist: String,
    pub album: String,
    pub url: String,
    pub progress_ms: usize,
    pub duration_ms: usize,
}

/// The mathematical value of a [`SongInfo`].
pub struct SongInfoView {
    pub title: Seq<char>,
    pub artist: Seq<char>,
    pub album: Seq<char>,
    pub url: Seq<char>,
    pub progress_ms: usize,
    pub duration_ms: usize,
}

impl View for SongInfo {
    type V = SongInfoView;

    open spec fn view(&self) -> SongInfoView {
        SongInfoView {
            title: self.title@,
            artist: self.artist@,
            album: self.album@,
            url: self.url@,
            progress_ms: self.progress_ms,
            duration_ms: self.duration_ms,
        }
    }
}

/// Why a token answer could not be used.
#[derive(Clone, Copy, Debug, PartialEq, Eq, Structural)]
pub enum TokenError {
    /// The answer is not UTF-8 or not JSON.
    InvalidResponse,
    /// `expires_in` is not a number of seconds.
    BadExpiry,
}

/// The length in bytes that `str::len` reports for a text.
pub open spec fn byte_len(s: Seq<char>) -> nat {
    (encode_utf8(s).len() as usize) as nat
}

/// The token endpoint.
pub open spec fn token_url() -> Seq<char> {
    "https://accounts.spotify.com/api/token"@
}

/// The headers of a token request: client credentials, form encoding and
/// the body's length in bytes.
pub open spec fn token_headers(client_id: Seq<char>, client_secret: Seq<char>, payload: Seq<char>) -> Seq<
    (Seq<char>, Seq<char>),
> {
    seq![
        ("Authorization"@, basic_auth_spec(client_id, client_secret)),
        ("content-type"@, "application/x-www-form-urlencoded"@),
        ("content-length"@, decimal(byte_len(payload))),
    ]
}

/// The token request with a form payload.
fn token_request(client_id: &str, client_secret: &str, payload: String) -> (r: HttpRequest)
    requires
        encode_utf8(client_id@ + seq![':'] + client_secret@).len() <= usize::MAX / 2,
    ensures
        r@ == request(
            HttpMethod::Post,
            token_url(),
            token_headers(client_id@, client_secret@, payload@),
            payload@,
        ),
{
    let auth = basic_auth(client_id, client_secret);
    let length = u64_to_decimal(payload.as_str().len() as u64);
    let headers = three_headers(
        header("Authorization", auth),
        header("content-type", "application/x-www-form-urlencoded".to_owned()),
        header("content-length", length),
    );
    HttpRequest {
        method: HttpMethod::Post,
        url: "https://accounts.spotify.com/api/token".to_owned(),
        headers,
        body: payload,
    }
}

/// A token granted in exchange for an authorization code.
pub struct TokenGrant {
    pub access_token: String,
    pub refresh_token: String,
    pub expires_in: u64,
}

/// The request that exchanges an authorization code for tokens.
pub fn authorization_request(code: &str, client_id: &str, client_secret: &str) -> (r: HttpRequest)
    requires
        encode_utf8(client_id@ + seq![':'] + client_secret@).len() <= usize::MAX / 2,
    ensures
        r@ == request(
            HttpMethod::Post,
            token_url(),
            token_headers(
                client_id@,
                client_secret@,
                "grant_type=authorization_code&code="@ + code@
                    + "&redirect_uri=http://music-controller.local/callback"@,
            ),
            "grant_type=authorization_code&code="@ + code@
                + "&redirect_uri=http://music-controller.local/callback"@,
        ),
{
    let payload = concat3(
        "grant_type=authorization_code&code=",
        code,
        "&redirect_uri=http://music-controller.local/callback",
    );
    token_request(client_id, client_secret, payload)
}

/// The tokens an authorization answer carries: each token without its
/// quotes, and `expires_in` as a number of seconds.
pub open spec fn token_grant_spec(body: Seq<u8>) -> Result<(Seq<char>, Seq<char>, u64), TokenError> {
    if !valid_utf8(body) {
        Err(TokenError::InvalidResponse)
    } else {
        let text = decode_utf8(body);
        let a = json_member_text(text, "access_token"@);
        let r = json_member_text(text, "refresh_token"@);
        let e = json_member_text(text, "expires_in"@);
        if a is None || r is None || e is None {
            Err(TokenError::InvalidResponse)
        } else if parse_unsigned_spec(e->0, u64::MAX as nat) is None {
            Err(TokenError::BadExpiry)
        } else {
            Ok((strip_ends(a->0), strip_ends(r->0), parse_unsigned_spec(e->0, u64::MAX as nat)->0 as u64))
        }
    }
}

/// Reads the tokens from the answer to an authorization request.
pub fn read_token_grant(body: &[u8]) -> (r: Result<TokenGrant, TokenError>)
    ensures
        token_grant_spec(body@) is Err ==> r == Err::<TokenGrant, TokenError>(token_grant_spec(body@)->Err_0),
        token_grant_spec(body@) is Ok ==> r is Ok,
        r matches Ok(g) ==> token_grant_spec(body@) == Ok::<(Seq<char>, Seq<char>, u64), TokenError>((g.access_token@, g.refresh_token@, g.expires_in)),
{
    assert(body@.subrange(0, body@.len() as int) == body@);
    let text = match string_from_utf8(crate::text::copy_range(body, 0, body.len())) {
        Some(t) => t,
        None => {
            return Err(TokenError::InvalidResponse);
        },
    };
    let access = json_member(text.as_str(), "access_token");
    let refresh = json_member(text.as_str(), "refresh_token");
    let expires = json_member(text.as_str(), "expires_in");
    if access.is_none() || refresh.is_none() || expires.is_none() {
        return Err(TokenError::InvalidResponse);
    }
    let a = access.unwrap();
    let rt = refresh.unwrap();
    let e = expires.unwrap();
    match parse_unsigned(e.as_str(), u64::MAX) {
        Some(v) => Ok(
            TokenGrant { access_token: remove_quotes(a), refresh_token: remove_quotes(rt), expires_in: v },
        ),
        None => Err(TokenError::BadExpiry),
    }
}

/// The controller that a fresh grant sets up.
pub fn controller_from_grant(grant: TokenGrant) -> (c: SpotifyController)
    ensures
        c@ == (SpotifyState {
            access_token: grant.access_token@,
            refresh_token: grant.refresh_token@,
            refresh_timeout: grant.expires_in,
            current_vol: None,
            can_control_vol: true,
            is_playing: true,
            shuffle_state: false,
            currently_playing_id: Seq::empty(),
        }),
{
    SpotifyController {
        access_token: grant.access_token,
        refresh_token: grant.refresh_token,
        refresh_timeout: grant.expires_in,
        current_vol: None,
        can_control_vol: true,
        is_playing: true,
        shuffle_state: false,
        currently_playing_id: String::new(),
    }
}

/// The result of a refresh applied to a controller: the access token from
/// the answer, without quotes, and its lifetime; a lifetime that is not a
/// number leaves the new token in place and the old timeout.
pub open spec fn refreshed_spec(state: SpotifyState, body: Seq<u8>) -> (SpotifyState, Result<(), TokenError>) {
    if !valid_utf8(body) {
        (state, Err(TokenError::InvalidResponse))
    } else {
        let text = decode_utf8(body);
        let a = json_member_text(text, "access_token"@);
        let e = json_member_text(text, "expires_in"@);
        if a is None || e is None {
            (state, Err(TokenError::InvalidResponse))
        } else if parse_unsigned_spec(e->0, u64::MAX as nat) is None {
            (SpotifyState { access_token: strip_ends(a->0), ..state }, Err(TokenError::BadExpiry))
        } else {
            (
                SpotifyState {
                    access_token: strip_ends(a->0),
                    refresh_timeout: parse_unsigned_spec(e->0, u64::MAX as nat)->0 as u64,
                    ..state
                },
                Ok(()),
            )
        }
    }
}

impl SpotifyController {
    /// A controller for a stored refresh token, before its first refresh: no
    /// access token yet, and a timeout of zero so that it refreshes at once.
    pub fn make_controller_from_token(token: &str) -> (c: SpotifyController)
        ensures
            c@ == (SpotifyState {
                access_token: Seq::empty(),
                refresh_token: token@,
                refresh_timeout: 0,
                current_vol: None,
                can_control_vol: true,
                is_playing: true,
                shuffle_state: false,
                currently_playing_id: Seq::empty(),
            }),
    {
        SpotifyController {
            access_token: String::new(),
            refresh_token: token.to_owned(),
            refresh_timeout: 0,
            current_vol: None,
            can_control_vol: true,
            is_playing: true,
            shuffle_state: false,
            currently_playing_id: String::new(),
        }
    }

    /// Whether the access token has outlived its timeout.
    pub fn needs_refresh(&self, elapsed_secs: u64) -> (r: bool)
        ensures
            r == (elapsed_secs >= self.refresh_timeout),
    {
        elapsed_secs >= self.refresh_timeout
    }

    /// The request that refreshes the access token.
    pub fn refresh_request(&self, client_id: &str, client_secret: &str) -> (r: HttpRequest)
        requires
            encode_utf8(client_id@ + seq![':'] + client_secret@).len() <= usize::MAX / 2,
        ensures
            r@ == request(
                HttpMethod::Post,
                token_url(),
                token_headers(
                    client_id@,
                    client_secret@,
                    "grant_type=refresh_token&refresh_token="@ + self.refresh_token@,
                ),
                "grant_type=refresh_token&refresh_token="@ + self.refresh_token@,
            ),
    {
        let payload = concat("grant_type=refresh_token&refresh_token=", self.refresh_token.as_str());
        token_request(client_id, client_secret, payload)
    }

    /// Takes the access token and its lifetime from the answer to a refresh.
    pub fn refresh_token(&mut self, body: &[u8]) -> (r: Result<(), TokenError>)
        ensures
            (final(self)@, r) == refreshed_spec(old(self)@, body@),
    {
        assert(body@.subrange(0, body@.len() as int) == body@);
        let text = match string_from_utf8(crate::text::copy_range(body, 0, body.len())) {
            Some(t) => t,
            None => return Err(TokenError::InvalidResponse),
        };
        let access = json_member(text.as_str(), "access_token");
        let expires = json_member(text.as_str(), "expires_in");
        if access.is_none() || expires.is_none() {
            return Err(TokenError::InvalidResponse);
        }
        let a = access.unwrap();
        let e = expires.unwrap();
        self.access_token = remove_quotes(a);
        match parse_unsigned(e.as_str(), u64::MAX) {
            Some(v) => {
                self.refresh_timeout = v;
                Ok(())
            },
            None => Err(TokenError::BadExpiry),
        }
    }
}

} // verus!
