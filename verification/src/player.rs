//! Player control: the requests that play, pause, skip, like, shuffle,
//! change the volume and start a radio, and what the player reports back.
use vstd::prelude::*;
use vstd::utf8::*;
use crate::json_scan::{get_val, read_value};
use crate::spotify::{
    bearer_header, byte_len, headers_view, request, HttpMethod, HttpRequest, HttpRequestView,
    SongInfo, SongInfoView, SpotifyController, SpotifyState,
};
use crate::text::{
    chars_of, decimal, parse_bool, parse_bool_spec, parse_unsigned, parse_unsigned_spec, push_char,
    remove_quotes, string_from_chars, strip_ends, u64_to_decimal,
};

verus! {

broadcast use vstd::seq_lib::group_seq_properties;

fn owned(s: &str) -> (r: String)
    ensures
        r@ == s@,
{
    s.to_owned()
}

fn concat(a: &str, b: &str) -> (s: String)
    ensures
        s@ == a@ + b@,
{
    let mut s = String::new();
    s.append(a);
    s.append(b);
    s
}

fn bearer(token: &String) -> (h: (String, String))
    ensures
        (h.0@, h.1@) == bearer_header(token@),
{
    (owned("Authorization"), concat("Bearer ", token.as_str()))
}

fn empty_body_request(method: HttpMethod, url: String, auth: (String, String)) -> (r: HttpRequest)
    ensures
        r@ == request(method, url@, seq![(auth.0@, auth.1@)], Seq::empty()),
{
    let headers: Vec<(String, String)> = vec![auth];
    assert(headers_view(headers@) =~= seq![(headers@[0].0@, headers@[0].1@)]);
    HttpRequest { method, url, headers, body: String::new() }
}

/// The player endpoint, to which an action is appended.
pub open spec fn player_url() -> Seq<char> {
    "https://api.spotify.com/v1/me/player/"@
}

/// A request with the access token and an empty body.
pub open spec fn authorized(state: SpotifyState, method: HttpMethod, url: Seq<char>) -> HttpRequestView {
    request(method, url, seq![bearer_header(state.access_token)], Seq::empty())
}

/// The new volume after a change of `up`: raised no higher than 100,
/// lowered no lower than 0.
pub open spec fn new_volume(volume: u8, up: int) -> u8 {
    if up > 0 {
        if volume + up < 100 {
            (volume + up) as u8
        } else {
            100
        }
    } else {
        if volume + up > 0 {
            (volume + up) as u8
        } else {
            0
        }
    }
}

/// Which kind of context a search found.
#[derive(Clone, Copy, Debug, PartialEq, Eq, Structural)]
pub enum SearchResult {
    Playlist,
    Album,
}

/// A title as a search term: spaces become `+`, quotes and backslashes go.
pub open spec fn search_term(title: Seq<char>) -> Seq<char>
    decreases title.len(),
{
    if title.len() == 0 {
        Seq::empty()
    } else {
        let c = title.last();
        search_term(title.drop_last()) + if c == ' ' {
            seq!['+']
        } else if c == '"' || c == '\\' {
            Seq::empty()
        } else {
            seq![c]
        }
    }
}

/// The search address for a title: radio playlists first, albums second.
pub open spec fn search_url(title: Seq<char>, kind: SearchResult) -> Seq<char> {
    "https://api.spotify.com/v1/search?q="@ + search_term(title) + match kind {
        SearchResult::Playlist => "+radio&type=playlist"@,
        SearchResult::Album => "&type=album"@,
    }
}

fn make_search_term(title: &str) -> (r: String)
    ensures
        r@ == search_term(title@),
{
    let chars = chars_of(title);
    let mut r = String::new();
    for i in 0..chars.len()
        invariant
            chars@ == title@,
            r@ == search_term(chars@.take(i as int)),
    {
        let c = chars[i];
        assert(chars@.take(i + 1).drop_last() == chars@.take(i as int));
        if c == ' ' {
            push_char(&mut r, '+');
        } else if c == '"' || c == '\\' {
        } else {
            push_char(&mut r, c);
        }
    }
    assert(chars@.take(chars@.len() as int) == chars@);
    r
}

/// The body that starts a context: its URI as JSON.
pub open spec fn start_payload(id: Seq<char>, typ: SearchResult) -> Seq<char> {
    match typ {
        SearchResult::Playlist => "{\"context_uri\": \"spotify:playlist:"@ + id + "\"}"@,
        SearchResult::Album => "{\"context_uri\": \"spotify:album:"@ + id + "\"}"@,
    }
}

/// The text without trailing copies of `c`.
pub open spec fn trim_end_char(s: Seq<char>, c: char) -> Seq<char>
    decreases s.len(),
{
    if s.len() > 0 && s.last() == c {
        trim_end_char(s.drop_last(), c)
    } else {
        s
    }
}

/// The text without leading copies of `c`.
pub open spec fn trim_start_char(s: Seq<char>, c: char) -> Seq<char>
    decreases s.len(),
{
    if s.len() > 0 && s[0] == c {
        trim_start_char(s.drop_first(), c)
    } else {
        s
    }
}

fn trimmed_end(chars: &Vec<char>, end: usize, c: char) -> (r: usize)
    requires
        end <= chars@.len(),
    ensures
        r <= end,
        chars@.take(r as int) == trim_end_char(chars@.take(end as int), c),
    decreases end,
{
    if end > 0 && chars[end - 1] == c {
        assert(chars@.take(end as int).drop_last() == chars@.take(end - 1));
        trimmed_end(chars, end - 1, c)
    } else {
        end
    }
}

fn trimmed_start(chars: &Vec<char>, start: usize, c: char) -> (r: usize)
    requires
        start <= chars@.len(),
    ensures
        start <= r <= chars@.len(),
        chars@.skip(r as int) == trim_start_char(chars@.skip(start as int), c),
    decreases chars@.len() - start,
{
    if start < chars.len() && chars[start] == c {
        assert(chars@.skip(start as int).drop_first() == chars@.skip(start + 1));
        trimmed_start(chars, start + 1, c)
    } else {
        start
    }
}

fn chars_range(chars: &Vec<char>, start: usize, end: usize) -> (r: String)
    requires
        start <= end <= chars@.len(),
    ensures
        r@ == chars@.subrange(start as int, end as int),
{
    let mut v: Vec<char> = Vec::new();
    let mut i = start;
    while i < end
        invariant
            start <= i <= end <= chars@.len(),
            v@ == chars@.subrange(start as int, i as int),
        decreases end - i,
    {
        v.push(chars[i]);
        i = i + 1;
    }
    string_from_chars(&v)
}

/// The player's answer to "is this song liked" counts as yes when, without
/// the NUL bytes padding it, it reads `[true]`.
pub open spec fn liked_spec(resp: Seq<char>) -> bool {
    trim_end_char(trim_start_char(resp, '\0'), '\0') == "[true]"@
}

/// Reads the answer to a liked-state request.
pub fn liked_from_response(resp: &str) -> (r: bool)
    ensures
        r == liked_spec(resp@),
{
    let chars = chars_of(resp);
    assert(chars@.skip(0) == chars@);
    let start = trimmed_start(&chars, 0, '\0');
    let ghost rest = chars@.skip(start as int);
    let mut tail: Vec<char> = Vec::new();
    let mut i = start;
    while i < chars.len()
        invariant
            start <= i <= chars@.len(),
            tail@ == chars@.subrange(start as int, i as int),
        decreases chars@.len() - i,
    {
        tail.push(chars[i]);
        i = i + 1;
    }
    assert(tail@ == rest);
    let end = trimmed_end(&tail, tail.len(), '\0');
    assert(tail@.take(tail@.len() as int) == tail@);
    let core = chars_range(&tail, 0, end);
    assert(core@ == tail@.take(end as int));
    let expected = "[true]";
    proof {
        reveal_strlit("[true]");
    }
    crate::wifi::str_eq(core.as_str(), expected)
}

/// What the controller does with a search answer.
pub enum RadioStep {
    /// Search again, for this kind, with this request.
    Search(SearchResult, HttpRequest),
    /// Start the context found, with this request.
    Play(HttpRequest),
    /// Nothing was found, or the search failed.
    Fail,
}

/// The mathematical value of a [`RadioStep`].
pub enum RadioStepView {
    Search(SearchResult, HttpRequestView),
    Play(HttpRequestView),
    Fail,
}

impl View for RadioStep {
    type V = RadioStepView;

    open spec fn view(&self) -> RadioStepView {
        match self {
            RadioStep::Search(k, r) => RadioStepView::Search(*k, r@),
            RadioStep::Play(r) => RadioStepView::Play(r@),
            RadioStep::Fail => RadioStepView::Fail,
        }
    }
}

/// The request that starts a context.
pub open spec fn start_song_spec(state: SpotifyState, id: Seq<char>, typ: SearchResult) -> HttpRequestView {
    request(
        HttpMethod::Put,
        "https://api.spotify.com/v1/me/player/play"@,
        seq![
            bearer_header(state.access_token),
            ("content-type"@, "application/json"@),
            ("content-length"@, decimal(byte_len(start_payload(id, typ)))),
        ],
        start_payload(id, typ),
    )
}

/// What follows a search answer: a failed search ends the radio; an id
/// (without trailing quotes) starts that context; none found among
/// playlists searches albums; none found among albums ends the radio.
pub open spec fn radio_step_spec(
    state: SpotifyState,
    title: Seq<char>,
    kind: SearchResult,
    status: u16,
    id_value: Seq<char>,
) -> RadioStepView {
    let id = trim_end_char(id_value, '"');
    if status != 200 {
        RadioStepView::Fail
    } else if id.len() > 0 {
        RadioStepView::Play(start_song_spec(state, id, kind))
    } else if kind == SearchResult::Playlist {
        RadioStepView::Search(
            SearchResult::Album,
            authorized(state, HttpMethod::Get, search_url(title, SearchResult::Album)),
        )
    } else {
        RadioStepView::Fail
    }
}

impl SpotifyController {
    /// The request that reads the player's state, whose answer
    /// [`SpotifyController::get_current_song`] takes in.
    pub fn player_state_request(&self) -> (r: HttpRequest)
        ensures
            r@ == authorized(self@, HttpMethod::Get, "https://api.spotify.com/v1/me/player"@),
    {
        empty_body_request(HttpMethod::Get, owned("https://api.spotify.com/v1/me/player"), bearer(&self.access_token))
    }

    /// The request that plays (`play`) or pauses playback.
    pub fn set_playback_state(&self, play: bool) -> (r: HttpRequest)
        ensures
            r@ == authorized(
                self@,
                HttpMethod::Put,
                player_url() + if play {
                    "play"@
                } else {
                    "pause"@
                },
            ),
    {
        let url = concat("https://api.spotify.com/v1/me/player/", if play {
            "play"
        } else {
            "pause"
        });
        empty_body_request(HttpMethod::Put, url, bearer(&self.access_token))
    }

    /// The request that turns shuffling on or off.
    pub fn set_shuffle_state(&self, state: bool) -> (r: HttpRequest)
        ensures
            r@ == authorized(
                self@,
                HttpMethod::Put,
                "https://api.spotify.com/v1/me/player/shuffle?state="@ + if state {
                    "true"@
                } else {
                    "false"@
                },
            ),
    {
        let url = concat("https://api.spotify.com/v1/me/player/shuffle?state=", if state {
            "true"
        } else {
            "false"
        });
        empty_body_request(HttpMethod::Put, url, bearer(&self.access_token))
    }

    /// The request that skips to the next (`forward`) or previous track.
    pub fn skip_track(&self, forward: bool) -> (r: HttpRequest)
        ensures
            r@ == authorized(
                self@,
                HttpMethod::Post,
                player_url() + if forward {
                    "next"@
                } else {
                    "previous"@
                },
            ),
    {
        let url = concat("https://api.spotify.com/v1/me/player/", if forward {
            "next"
        } else {
            "previous"
        });
        empty_body_request(HttpMethod::Post, url, bearer(&self.access_token))
    }

    /// The request that likes (`state`) or unlikes the playing song.
    pub fn set_liked_state(&self, state: bool) -> (r: HttpRequest)
        ensures
            r@ == authorized(
                self@,
                if state {
                    HttpMethod::Put
                } else {
                    HttpMethod::Delete
                },
                "https://api.spotify.com/v1/me/tracks?ids="@ + self.currently_playing_id@,
            ),
    {
        let url = concat("https://api.spotify.com/v1/me/tracks?ids=", self.currently_playing_id.as_str());
        let method = if state {
            HttpMethod::Put
        } else {
            HttpMethod::Delete
        };
        empty_body_request(method, url, bearer(&self.access_token))
    }

    /// The request that asks whether the playing song is liked.
    pub fn get_liked_state(&self) -> (r: HttpRequest)
        ensures
            r@ == request(
                HttpMethod::Get,
                "https://api.spotify.com/v1/me/tracks/contains?ids="@ + self.currently_playing_id@,
                seq![bearer_header(self.access_token@), ("Content-Type"@, "application/json"@)],
                Seq::empty(),
            ),
    {
        let url = concat(
            "https://api.spotify.com/v1/me/tracks/contains?ids=",
            self.currently_playing_id.as_str(),
        );
        let a = bearer(&self.access_token);
        let b = (owned("Content-Type"), owned("application/json"));
        let headers: Vec<(String, String)> = vec![a, b];
        assert(headers_view(headers@) =~= seq![
            bearer_header(self.access_token@),
            ("Content-Type"@, "application/json"@),
        ]);
        HttpRequest { method: HttpMethod::Get, url, headers, body: String::new() }
    }

    /// Changes the volume by `up` and gives the request that sets it.
    pub fn change_volume(&mut self, up: i32) -> (r: HttpRequest)
        requires
            old(self).current_vol is Some,
            old(self).current_vol->0 + up <= i32::MAX,
        ensures
            final(self)@ == (SpotifyState {
                current_vol: Some(new_volume(old(self).current_vol->0, up as int)),
                ..old(self)@
            }),
            r@ == authorized(
                old(self)@,
                HttpMethod::Put,
                "https://api.spotify.com/v1/me/player/volume?volume_percent="@ + decimal(
                    new_volume(old(self).current_vol->0, up as int) as nat,
                ),
            ),
    {
        let mut curr_vol: u8 = match self.current_vol {
            Some(v) => v,
            None => 0,
        };
        if up > 0 {
            let raised: i32 = curr_vol as i32 + up;
            curr_vol = if raised < 100 {
                raised as u8
            } else {
                100
            };
        } else {
            let lowered: i32 = curr_vol as i32 + up;
            curr_vol = if lowered > 0 {
                lowered as u8
            } else {
                0
            };
        }
        self.current_vol = Some(curr_vol);
        let number = u64_to_decimal(curr_vol as u64);
        let url = concat(
            "https://api.spotify.com/v1/me/player/volume?volume_percent=",
            number.as_str(),
        );
        empty_body_request(HttpMethod::Put, url, bearer(&self.access_token))
    }

    /// The request that searches for `title` among the given kind.
    pub fn search(&self, title: &str, kind: SearchResult) -> (r: HttpRequest)
        ensures
            r@ == authorized(self@, HttpMethod::Get, search_url(title@, kind)),
    {
        let term = make_search_term(title);
        let mut url = owned("https://api.spotify.com/v1/search?q=");
        url.append(term.as_str());
        match kind {
            SearchResult::Playlist => url.append("+radio&type=playlist"),
            SearchResult::Album => url.append("&type=album"),
        }
        empty_body_request(HttpMethod::Get, url, bearer(&self.access_token))
    }

    /// The request that starts the context `id` of the given kind.
    pub fn start_song(&self, id: &str, typ: SearchResult) -> (r: HttpRequest)
        ensures
            r@ == start_song_spec(self@, id@, typ),
    {
        let mut payload = match typ {
            SearchResult::Playlist => owned("{\"context_uri\": \"spotify:playlist:"),
            SearchResult::Album => owned("{\"context_uri\": \"spotify:album:"),
        };
        payload.append(id);
        payload.append("\"}");
        let length = u64_to_decimal(payload.as_str().len() as u64);
        let a = bearer(&self.access_token);
        let b = (owned("content-type"), owned("application/json"));
        let c = (owned("content-length"), length);
        let ghost expected = seq![(a.0@, a.1@), (b.0@, b.1@), (c.0@, c.1@)];
        let headers: Vec<(String, String)> = vec![a, b, c];
        assert(headers_view(headers@) =~= expected);
        HttpRequest {
            method: HttpMethod::Put,
            url: owned("https://api.spotify.com/v1/me/player/play"),
            headers,
            body: payload,
        }
    }
}


/// The first request of a song radio: a search for radio playlists named
/// like the title.
pub fn start_song_radio(spotify: &SpotifyController, title: &str) -> (r: HttpRequest)
    ensures
        r@ == authorized(spotify@, HttpMethod::Get, search_url(title@, SearchResult::Playlist)),
{
    spotify.search(title, SearchResult::Playlist)
}

/// Whether the player took a play or pause request: only a 200 answer
/// counts; any other status is reported as not found.
pub fn playback_accepted(status: u16) -> (ok: bool)
    ensures
        ok == (status == 200),
{
    status == 200
}

/// Whether the player started the context a radio search found: only a 204
/// (no content) answer counts.
pub fn start_accepted(status: u16) -> (ok: bool)
    ensures
        ok == (status == 204),
{
    status == 204
}

/// Decides what follows the answer to a radio search of `kind`: its status
/// and the `id` value read from its body.
pub fn on_radio_search_answer(
    spotify: &SpotifyController,
    title: &str,
    kind: SearchResult,
    status: u16,
    id_value: &str,
) -> (step: RadioStep)
    ensures
        step@ == radio_step_spec(spotify@, title@, kind, status, id_value@),
{
    if status != 200 {
        return RadioStep::Fail;
    }
    let chars = chars_of(id_value);
    let end = trimmed_end(&chars, chars.len(), '"');
    assert(chars@.take(chars@.len() as int) == chars@);
    let id = chars_range(&chars, 0, end);
    assert(id@ == chars@.take(end as int));
    if end > 0 {
        RadioStep::Play(spotify.start_song(id.as_str(), kind))
    } else {
        match kind {
            SearchResult::Playlist => RadioStep::Search(
                SearchResult::Album,
                spotify.search(title, SearchResult::Album),
            ),
            SearchResult::Album => RadioStep::Fail,
        }
    }
}

/// Whether volume can be controlled on the active device.
pub fn can_control_vol(spotify: &SpotifyController) -> (r: bool)
    ensures
        r == spotify.can_control_vol,
{
    spotify.can_control_vol
}

/// Whether the player is playing.
pub fn get_playback_state(spotify: &SpotifyController) -> (r: bool)
    ensures
        r == spotify.is_playing,
{
    spotify.is_playing
}

/// Whether the player shuffles.
pub fn get_shuffle_state(spotify: &SpotifyController) -> (r: bool)
    ensures
        r == spotify.shuffle_state,
{
    spotify.shuffle_state
}

/// The id of the playing song.
pub fn get_current_song_id(spotify: &SpotifyController) -> (r: String)
    ensures
        r@ == spotify.currently_playing_id@,
{
    spotify.currently_playing_id.clone()
}

/// The request that plays or pauses playback.
pub fn set_playback_state(spotify: &SpotifyController, play: bool) -> (r: HttpRequest)
    ensures
        r@ == authorized(
            spotify@,
            HttpMethod::Put,
            player_url() + if play {
                "play"@
            } else {
                "pause"@
            },
        ),
{
    spotify.set_playback_state(play)
}

/// Changes the volume when it is known, and gives the request that sets
/// it; an unknown volume is left alone.
pub fn change_volume_if_known(spotify: &mut SpotifyController, up: i32) -> (r: Option<HttpRequest>)
    requires
        old(spotify).current_vol matches Some(v) ==> v + up <= i32::MAX,
    ensures
        old(spotify).current_vol is None ==> r is None && final(spotify)@ == old(spotify)@,
        old(spotify).current_vol matches Some(v) ==> r matches Some(req) && req@ == authorized(
            old(spotify)@,
            HttpMethod::Put,
            "https://api.spotify.com/v1/me/player/volume?volume_percent="@ + decimal(
                new_volume(v, up as int) as nat,
            ),
        ) && final(spotify)@ == (SpotifyState {
            current_vol: Some(new_volume(v, up as int)),
            ..old(spotify)@
        }),
{
    if spotify.current_vol.is_some() {
        Some(spotify.change_volume(up))
    } else {
        None
    }
}


// ---------------------------------------------------------------------------
// What the player reports
// ---------------------------------------------------------------------------

/// The keys read, in order, from the player's state: the device name, its
/// volume support and volume, shuffling, progress, the album art (the first
/// height and url are passed over), album, artist, duration, the track's
/// links, its id, its name and whether it plays.
pub open spec fn player_keys() -> Seq<&'static str> {
    seq![
        "name",
        "supports_volume",
        "volume_percent",
        "shuffle_state",
        "progress_ms",
        "height",
        "url",
        "url",
        "name",
        "name",
        "duration_ms",
        "external_urls",
        "id",
        "name",
        "is_playing",
    ]
}

/// The values of `keys`, read one after the other from `pos` on.
pub open spec fn read_values_from(bytes: Seq<u8>, pos: int, keys: Seq<&str>, line_end: char) -> Option<
    Seq<Seq<char>>,
>
    decreases keys.len(),
{
    if keys.len() == 0 {
        Some(Seq::empty())
    } else {
        match read_value(bytes, pos, keys[0], line_end) {
            None => None,
            Some((v, next)) => match read_values_from(bytes, next, keys.drop_first(), line_end) {
                None => None,
                Some(rest) => Some(seq![v] + rest),
            },
        }
    }
}

/// The values of several strings.
pub open spec fn strings_view(v: Seq<String>) -> Seq<Seq<char>> {
    v.map_values(|s: String| s@)
}

spec fn prepend(pre: Seq<Seq<char>>, r: Option<Seq<Seq<char>>>) -> Option<Seq<Seq<char>>> {
    match r {
        Some(x) => Some(pre + x),
        None => None,
    }
}

fn read_values(bytes: &[u8], keys: &Vec<&str>, line_end: char) -> (r: Option<Vec<String>>)
    ensures
        r is None <==> read_values_from(bytes@, 0, keys@, line_end) is None,
        r matches Some(v) ==> read_values_from(bytes@, 0, keys@, line_end) == Some(strings_view(v@)),
{
    let mut vals: Vec<String> = Vec::new();
    let mut pos: usize = 0;
    assert(keys@.skip(0) == keys@);
    assert(strings_view(vals@) + Seq::<Seq<char>>::empty() == Seq::<Seq<char>>::empty());
    for i in 0..keys.len()
        invariant
            pos <= bytes@.len(),
            read_values_from(bytes@, 0, keys@, line_end) == prepend(
                strings_view(vals@),
                read_values_from(bytes@, pos as int, keys@.skip(i as int), line_end),
            ),
    {
        let ghost rest = keys@.skip(i as int);
        assert(rest[0] == keys@[i as int]);
        assert(rest.drop_first() == keys@.skip(i + 1));
        match get_val(bytes, pos, keys[i], line_end) {
            None => {
                return None;
            },
            Some((v, next)) => {
                proof {
                    let old_vals = strings_view(vals@);
                    assert(strings_view(vals@.push(v)) =~= old_vals.push(v@));
                    match read_values_from(bytes@, next as int, keys@.skip(i + 1), line_end) {
                        Some(x) => {
                            assert(old_vals + (seq![v@] + x) =~= old_vals.push(v@) + x);
                        },
                        None => {},
                    }
                }
                vals.push(v);
                pos = next;
            },
        }
    }
    assert(keys@.skip(keys@.len() as int) == Seq::<&str>::empty());
    assert(strings_view(vals@) + Seq::<Seq<char>>::empty() == strings_view(vals@));
    Some(vals)
}

/// What one answer of the player reports.
pub struct PlayerReport {
    pub supports_volume: bool,
    pub volume: u8,
    pub shuffle_state: bool,
    pub is_playing: bool,
    pub song_id: Seq<char>,
    pub song: SongInfoView,
}

/// The report in a player answer: `None` where a value cannot be read or
/// parsed, the volume only mattering when it is not known yet. Quoted
/// values lose their quotes.
pub open spec fn player_report_spec(body: Seq<u8>, volume_known: bool) -> Option<PlayerReport> {
    match read_values_from(body, 0, player_keys(), '\n') {
        None => None,
        Some(v) => {
            let supports = parse_bool_spec(v[1]);
            let volume = parse_unsigned_spec(v[2], 255);
            let shuffle = parse_bool_spec(v[3]);
            let progress = parse_unsigned_spec(v[4], usize::MAX as nat);
            let duration = parse_unsigned_spec(v[10], usize::MAX as nat);
            let playing = parse_bool_spec(v[14]);
            if supports is None || (!volume_known && volume is None) || shuffle is None || progress is None
                || duration is None || playing is None {
                None
            } else {
                Some(
                    PlayerReport {
                        supports_volume: supports->0,
                        volume: if volume_known {
                            0
                        } else {
                            volume->0 as u8
                        },
                        shuffle_state: shuffle->0,
                        is_playing: playing->0,
                        song_id: strip_ends(v[12]),
                        song: SongInfoView {
                            title: strip_ends(v[13]),
                            artist: strip_ends(v[9]),
                            album: strip_ends(v[8]),
                            url: strip_ends(v[7]),
                            progress_ms: progress->0 as usize,
                            duration_ms: duration->0 as usize,
                        },
                    },
                )
            }
        },
    }
}

/// An answer of the player that the firmware cannot read: it stops there.
#[derive(Clone, Copy, Debug, PartialEq, Eq, Structural)]
pub enum PlayerError {
    Unreadable,
}

/// The controller after a player answer with this report.
pub open spec fn reported_state(state: SpotifyState, rep: PlayerReport) -> SpotifyState {
    SpotifyState {
        can_control_vol: rep.supports_volume,
        current_vol: if state.current_vol is None {
            Some(rep.volume)
        } else {
            state.current_vol
        },
        shuffle_state: rep.shuffle_state,
        currently_playing_id: rep.song_id,
        is_playing: rep.is_playing,
        ..state
    }
}

impl SpotifyController {
    /// Takes in the answer (status and body) to a player-state request: on
    /// success, the song playing and what the controller learns of the
    /// player; any other status means nothing plays and forgets the volume.
    pub fn get_current_song(&mut self, status: u16, body: &[u8]) -> (r: Result<Option<SongInfo>, PlayerError>)
        ensures
            status != 200 ==> (r matches Ok(None) && final(self)@ == (SpotifyState {
                current_vol: None,
                ..old(self)@
            })),
            status == 200 ==> match player_report_spec(body@, old(self).current_vol is Some) {
                None => r == Err::<Option<SongInfo>, PlayerError>(PlayerError::Unreadable)
                    && final(self)@ == old(self)@,
                Some(rep) => r matches Ok(Some(info)) && info@ == rep.song && final(self)@
                    == reported_state(old(self)@, rep),
            },
    {
        if status != 200 {
            self.current_vol = None;
            return Ok(None);
        }
        let keys: Vec<&str> = vec![
            "name",
            "supports_volume",
            "volume_percent",
            "shuffle_state",
            "progress_ms",
            "height",
            "url",
            "url",
            "name",
            "name",
            "duration_ms",
            "external_urls",
            "id",
            "name",
            "is_playing",
        ];
        assert(keys@ == player_keys());
        let values = match read_values(body, &keys, '\n') {
            Some(v) => v,
            None => return Err(PlayerError::Unreadable),
        };
        assert(values@.len() == 15) by {
            lemma_read_values_len(body@, 0, keys@, '\n');
        }
        let supports = parse_bool(values[1].as_str());
        let volume = parse_unsigned(values[2].as_str(), 255);
        let shuffle = parse_bool(values[3].as_str());
        let progress = parse_unsigned(values[4].as_str(), usize::MAX as u64);
        let duration = parse_unsigned(values[10].as_str(), usize::MAX as u64);
        let playing = parse_bool(values[14].as_str());
        let volume_known = self.current_vol.is_some();
        if supports.is_none() || (!volume_known && volume.is_none()) || shuffle.is_none()
            || progress.is_none() || duration.is_none() || playing.is_none() {
            return Err(PlayerError::Unreadable);
        }
        self.can_control_vol = supports.unwrap();
        if !volume_known {
            self.current_vol = Some(volume.unwrap() as u8);
        }
        self.shuffle_state = shuffle.unwrap();
        self.currently_playing_id = remove_quotes(values[12].clone());
        self.is_playing = playing.unwrap();
        let info = SongInfo {
            title: remove_quotes(values[13].clone()),
            artist: remove_quotes(values[9].clone()),
            album: remove_quotes(values[8].clone()),
            url: remove_quotes(values[7].clone()),
            progress_ms: progress.unwrap() as usize,
            duration_ms: duration.unwrap() as usize,
        };
        Ok(Some(info))
    }
}

proof fn lemma_read_values_len(bytes: Seq<u8>, pos: int, keys: Seq<&str>, line_end: char)
    ensures
        read_values_from(bytes, pos, keys, line_end) matches Some(v) ==> v.len() == keys.len(),
    decreases keys.len(),
{
    if keys.len() > 0 {
        match read_value(bytes, pos, keys[0], line_end) {
            Some((v, next)) => lemma_read_values_len(bytes, next, keys.drop_first(), line_end),
            None => {},
        }
    }
}

/// Takes in the answer to a player-state request.
pub fn get_current_song(spotify: &mut SpotifyController, status: u16, body: &[u8]) -> (r: Result<
    Option<SongInfo>,
    PlayerError,
>)
    ensures
        status != 200 ==> (r matches Ok(None) && final(spotify)@ == (SpotifyState {
            current_vol: None,
            ..old(spotify)@
        })),
        status == 200 ==> match player_report_spec(body@, old(spotify).current_vol is Some) {
            None => r == Err::<Option<SongInfo>, PlayerError>(PlayerError::Unreadable)
                && final(spotify)@ == old(spotify)@,
            Some(rep) => r matches Ok(Some(info)) && info@ == rep.song && final(spotify)@
                == reported_state(old(spotify)@, rep),
        },
{
    spotify.get_current_song(status, body)
}

} // verus!
