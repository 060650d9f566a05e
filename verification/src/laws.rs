//! Properties that span the library's functions.
use vstd::prelude::*;
use crate::display::{display_char, display_text_spec, halfwidth_spec, split_from, split_spec, SplitState};
use crate::player::{
    new_volume, player_keys, player_report_spec, radio_step_spec, read_values_from, reported_state,
    search_url, trim_end_char, RadioStepView, SearchResult,
};
use crate::provisioning::{connection_checked_packets, on_command_spec, wifi_connected_packets, CommandStepView};
use crate::improv::{Command, ImprovCommandView};
use crate::display::song_layout_spec;
use crate::text::{parse_bool_spec, strip_ends};
use crate::spotify::{refreshed_spec, SpotifyState};
use crate::text::{all_digits, decimal, digit_char, digits_value, parse_unsigned_spec};

verus! {

broadcast use vstd::seq_lib::group_seq_properties;

proof fn lemma_digit_char_value(k: nat)
    requires
        k < 10,
    ensures
        digit_char(k) as u32 == 48 + k,
        '0' <= digit_char(k) <= '9',
{
    let u = (48 + k) as u32;
    assert(u as char == digit_char(k));
    assert((u as char) as u32 == u);
}

proof fn lemma_decimal_digits(n: nat)
    ensures
        decimal(n).len() > 0,
        all_digits(decimal(n)),
        digits_value(decimal(n)) == n,
    decreases n,
{
    if n >= 10 {
        lemma_decimal_digits(n / 10);
        let d = decimal(n);
        assert(d.drop_last() == decimal(n / 10));
        assert(d.last() == digit_char(n % 10));
        lemma_digit_char_value(n % 10);
        assert(n == (n / 10) * 10 + n % 10) by (nonlinear_arith);
        assert(digits_value(d) == digits_value(d.drop_last()) * 10 + ((d.last() as u32) - 48) as nat);
        assert forall|i: int| 0 <= i < d.len() implies '0' <= #[trigger] d[i] <= '9' by {
            if i < d.len() - 1 {
                assert(d[i] == decimal(n / 10)[i]);
            }
        }
    } else {
        lemma_digit_char_value(n);
        assert(decimal(n).drop_last() =~= Seq::<char>::empty());
        assert(digits_value(Seq::<char>::empty()) == 0);
        assert(decimal(n).last() == digit_char(n));
    }
}

/// Numbers read back as they are written: the decimal text that
/// [`crate::text::u64_to_decimal`] makes of a number parses, with
/// [`crate::text::parse_unsigned`], as that number, for any type large
/// enough to hold it.
pub proof fn lemma_decimal_round_trip(n: nat, max: nat)
    requires
        n <= max,
    ensures
        parse_unsigned_spec(decimal(n), max) == Some(n),
{
    lemma_decimal_digits(n);
    assert(decimal(n)[0] != '+');
}

/// The volume stays in range: a raise never lowers the volume and ends at
/// most at 100 (or where it was, if that was above 100); a cut never raises
/// it and never goes below 0.
pub proof fn lemma_volume_bounds(volume: u8, up: int)
    ensures
        up > 0 ==> new_volume(volume, up) <= if volume <= 100 {
            100
        } else {
            volume as int
        },
        up > 0 && volume <= 100 ==> volume <= new_volume(volume, up),
        up <= 0 ==> new_volume(volume, up) <= volume,
        up == 0 ==> new_volume(volume, up) == volume,
{
}

/// Narrowing text for the panel is idempotent: the half-width forms have
/// no narrower form, so narrowing twice is narrowing once.
pub proof fn lemma_display_text_idempotent(s: Seq<char>)
    ensures
        display_text_spec(display_text_spec(s)) == display_text_spec(s),
{
    assert forall|i: int| 0 <= i < s.len() implies display_char(#[trigger] display_char(s[i]))
        == display_char(s[i]) by {
        let c = s[i];
        if halfwidth_spec(c) is Some {
            assert(halfwidth_spec(display_char(c)) is None);
        }
    }
    assert(display_text_spec(display_text_spec(s)) =~= display_text_spec(s));
}

proof fn lemma_split_from_lines(chars: Seq<char>, i: int, st: SplitState, max_len: int, max_lines: int)
    requires
        0 <= st.num_lines,
        st.num_lines <= max_lines || st.num_lines == 0,
    ensures
        split_from(chars, i, st, max_len, max_lines) matches Some((_, n)) ==> 0 <= n && (n
            <= max_lines || n == 0),
    decreases chars.len() - i,
{
    if 0 <= i < chars.len() {
        let c = chars[i];
        let tl = crate::display::utf8_len(st.temp);
        lemma_split_from_lines(chars, i + 1, SplitState { temp: st.temp.push(c), ..st }, max_len, max_lines);
        lemma_split_from_lines(
            chars,
            i + 1,
            SplitState {
                ret: st.ret + st.temp.push(c),
                chars_left: st.chars_left - tl - 1,
                temp: Seq::empty(),
                num_lines: st.num_lines,
            },
            max_len,
            max_lines,
        );
        if st.num_lines < max_lines {
            lemma_split_from_lines(
                chars,
                i + 1,
                SplitState {
                    ret: st.ret + seq!['\n'] + st.temp.push(c),
                    chars_left: max_len - tl,
                    temp: Seq::empty(),
                    num_lines: st.num_lines + 1,
                },
                max_len,
                max_lines,
            );
        }
    }
}

/// Wrapping never makes more line breaks than it is allowed.
pub proof fn lemma_split_line_bound(text: Seq<char>, max_len: usize, max_lines: i32)
    requires
        max_lines >= 0,
    ensures
        split_spec(text, max_len, max_lines) matches Some((_, n)) ==> 0 <= n <= max_lines,
{
    lemma_split_from_lines(
        text.push(' '),
        0,
        SplitState { ret: Seq::empty(), chars_left: max_len as int, temp: Seq::empty(), num_lines: 0 },
        max_len as int,
        max_lines as int,
    );
}

/// A token refresh touches nothing but the access token and its lifetime:
/// the refresh token and everything known of the player stay as they were,
/// whatever the answer; and a refresh that fails for want of a readable
/// answer leaves the controller unchanged.
pub proof fn lemma_refresh_keeps_session(state: SpotifyState, body: Seq<u8>)
    ensures
        ({
            let (next, r) = refreshed_spec(state, body);
            &&& next == (SpotifyState {
                access_token: next.access_token,
                refresh_timeout: next.refresh_timeout,
                ..state
            })
            &&& r == Err::<(), crate::spotify::TokenError>(crate::spotify::TokenError::InvalidResponse)
                ==> next == state
        }),
{
}

/// The volume is learned again after a failed read: once a non-200 answer
/// has made it unknown, the next readable report sets it to the volume the
/// player reports.
pub proof fn lemma_volume_relearned(state: SpotifyState, body: Seq<u8>)
    requires
        state.current_vol is None,
        player_report_spec(body, false) is Some,
    ensures
        reported_state(state, player_report_spec(body, false)->0).current_vol == Some(
            player_report_spec(body, false)->0.volume,
        ),
{
}

/// The player's answer is read key by key: the second key read is
/// `supports_volume` and the fifteenth `is_playing`, and what the controller
/// learns of volume support and of playback is the boolean parsed from the
/// value of each of those keys, and from no other. Likewise shuffling comes
/// from `shuffle_state`, the progress and duration from `progress_ms` and
/// `duration_ms`, the art from the third `url`, the album, artist and title
/// from the three `name`s read after it, in that order, the track id from
/// `id`, and a volume not yet known from `volume_percent`.
pub proof fn lemma_player_flags_from_their_keys(
    state: SpotifyState,
    body: Seq<u8>,
    volume_known: bool,
)
    ensures
        player_keys()[1] == "supports_volume",
        player_keys()[14] == "is_playing",
        player_keys()[2] == "volume_percent",
        player_keys()[3] == "shuffle_state",
        player_keys()[4] == "progress_ms",
        player_keys()[5] == "height",
        player_keys()[6] == "url" && player_keys()[7] == "url",
        player_keys()[8] == "name" && player_keys()[9] == "name" && player_keys()[13] == "name",
        player_keys()[10] == "duration_ms",
        player_keys()[12] == "id",
        player_report_spec(body, volume_known) matches Some(rep) ==> read_values_from(
            body,
            0,
            player_keys(),
            '\n',
        ) matches Some(v) && parse_bool_spec(v[3]) == Some(rep.shuffle_state) && parse_unsigned_spec(
            v[4],
            usize::MAX as nat,
        ) == Some(rep.song.progress_ms as nat) && parse_unsigned_spec(v[10], usize::MAX as nat) == Some(
            rep.song.duration_ms as nat,
        ) && rep.song.url == strip_ends(v[7]) && rep.song.album == strip_ends(v[8]) && rep.song.artist
            == strip_ends(v[9]) && rep.song.title == strip_ends(v[13]) && rep.song_id == strip_ends(v[12])
            && (!volume_known ==> parse_unsigned_spec(v[2], 255) == Some(rep.volume as nat)),
        player_report_spec(body, volume_known) matches Some(rep) ==> read_values_from(
            body,
            0,
            player_keys(),
            '\n',
        ) matches Some(v) && parse_bool_spec(v[1]) == Some(rep.supports_volume) && parse_bool_spec(v[14])
            == Some(rep.is_playing) && reported_state(state, rep).can_control_vol == rep.supports_volume
            && reported_state(state, rep).is_playing == rep.is_playing,
{
}

/// A volume change that stays within 0 to 100 moves the volume by exactly
/// the change, up or down; one that would leave the range stops at its
/// edge.
pub proof fn lemma_volume_moves_by_change(volume: u8, up: int)
    ensures
        0 <= volume + up <= 100 ==> new_volume(volume, up) == volume + up,
        up <= 0 && volume + up < 0 ==> new_volume(volume, up) == 0,
        up > 0 && volume + up > 100 ==> new_volume(volume, up) == 100,
{
}

/// A radio search that fails ends the radio; one that finds nothing among
/// playlists searches albums for the same title, and one that finds nothing
/// among albums ends the radio.
pub proof fn lemma_radio_search_order(
    state: SpotifyState,
    title: Seq<char>,
    kind: SearchResult,
    status: u16,
    id_value: Seq<char>,
)
    ensures
        status != 200 ==> radio_step_spec(state, title, kind, status, id_value) is Fail,
        status == 200 && trim_end_char(id_value, '"').len() == 0 && kind == SearchResult::Playlist
            ==> (radio_step_spec(state, title, kind, status, id_value) matches RadioStepView::Search(k, r)
            && k == SearchResult::Album && r.url == search_url(title, SearchResult::Album)),
        status == 200 && trim_end_char(id_value, '"').len() == 0 && kind == SearchResult::Album
            ==> radio_step_spec(state, title, kind, status, id_value) is Fail,
{
}

/// A context found by a radio search is started as the kind that was
/// searched: the request puts `spotify:playlist:` or `spotify:album:` and the
/// id (without trailing quotes) into the body of a play request.
pub proof fn lemma_radio_starts_searched_kind(
    state: SpotifyState,
    title: Seq<char>,
    kind: SearchResult,
    id_value: Seq<char>,
)
    requires
        trim_end_char(id_value, '"').len() > 0,
    ensures
        radio_step_spec(state, title, kind, 200, id_value) matches RadioStepView::Play(r) && r.body
            == (match kind {
            SearchResult::Playlist => "{\"context_uri\": \"spotify:playlist:"@,
            SearchResult::Album => "{\"context_uri\": \"spotify:album:"@,
        }) + trim_end_char(id_value, '"') + "\"}"@ && r.url == "https://api.spotify.com/v1/me/player/play"@,
{
}

/// The state a device reports after checking its link or connecting with
/// provisioned credentials is carried in the first packet's payload byte:
/// provisioned (4) when connected; authorized (2) after a state check and
/// stopped (0) after a failed connection otherwise. A connected device also
/// sends its address, a disconnected one nothing more after a state check.
pub proof fn lemma_reported_state_follows_link(connected: bool)
    ensures
        connection_checked_packets(connected)[0][7] == 1,
        connection_checked_packets(connected)[0][9] == (if connected {
            4u8
        } else {
            2u8
        }),
        connection_checked_packets(connected).len() == (if connected {
            2int
        } else {
            1int
        }),
        wifi_connected_packets(connected)[0][7] == 1,
        wifi_connected_packets(connected)[0][9] == (if connected {
            4u8
        } else {
            0u8
        }),
        wifi_connected_packets(connected).len() == 2,
        !connected ==> wifi_connected_packets(connected)[1][7] == 2 && wifi_connected_packets(
            connected,
        )[1][9] == 3,
        connected ==> wifi_connected_packets(connected)[1][7] == 4 && wifi_connected_packets(
            connected,
        )[1][9] == 1,
        connected ==> connection_checked_packets(connected)[1][7] == 4
            && connection_checked_packets(connected)[1][9] == 2,
{
}

/// Wi-Fi settings with an SSID are connected with exactly the SSID and
/// password they carry, after reporting provisioning (state 3); without an
/// SSID they are an invalid RPC (error 1); an unknown command or a bad
/// checksum is an unknown RPC (error 2) that is not taken.
pub proof fn lemma_command_answers(cmd: ImprovCommandView)
    ensures
        cmd.command == Command::WifiSettings && cmd.ssid.len() > 0 ==> (on_command_spec(cmd) matches CommandStepView::ConnectWifi { packets, credentials }
            && credentials.ssid == cmd.ssid && credentials.password == cmd.password && packets.len() == 1
            && packets[0][7] == 1 && packets[0][9] == 3),
        cmd.command == Command::WifiSettings && cmd.ssid.len() == 0 ==> (on_command_spec(cmd) matches CommandStepView::Done { packets, handled }
            && handled && packets.len() == 1 && packets[0][7] == 2 && packets[0][9] == 1),
        (cmd.command == Command::Unknown || cmd.command == Command::BadChecksum) ==> (on_command_spec(cmd) matches CommandStepView::Done { packets, handled }
            && !handled && packets.len() == 1 && packets[0][7] == 2 && packets[0][9] == 2),
        cmd.command == Command::GetCurrentState ==> on_command_spec(cmd) is CheckConnection,
        cmd.command == Command::GetWifiNetworks ==> on_command_spec(cmd) is ScanNetworks,
{
}

/// Each of the title and the album wraps on its own measured width alone:
/// the title (10 pixels a character) wraps to 14-byte lines when wider than
/// 140 pixels, the album (9 pixels a character) to 15-byte lines when wider
/// than 140 pixels, each kept as narrowed otherwise; the album is laid out
/// the same whatever the title and artist, and drops 20 pixels per title
/// break, the artist 10 more per album break.
pub proof fn lemma_song_text_wraps_on_own_width(
    title: Seq<char>,
    album: Seq<char>,
    artist: Seq<char>,
    other_title: Seq<char>,
    other_artist: Seq<char>,
)
    ensures
        song_layout_spec(title, album, artist) matches Some(l) ==> {
            let t = display_text_spec(title);
            let a = display_text_spec(album);
            &&& t.len() * 10 > 140 ==> (split_spec(t, 14, 3) matches Some((s, n)) && l.title == s
                && l.album_y == 80 + 20 * n)
            &&& t.len() * 10 <= 140 ==> l.title == t && l.album_y == 80
            &&& a.len() * 9 > 140 ==> (split_spec(a, 15, 2) matches Some((s, n)) && l.album == s
                && l.artist_y == l.album_y + 30 + 10 * n)
            &&& a.len() * 9 <= 140 ==> l.album == a && l.artist_y == l.album_y + 30
            &&& l.artist == display_text_spec(artist)
            &&& l.x == 170 && l.title_y == 50
            &&& l.title_font == crate::display::TextFont::Large && l.album_font
                == crate::display::TextFont::Medium && l.artist_font == crate::display::TextFont::Small
        },
        song_layout_spec(title, album, artist) matches Some(l1) ==> song_layout_spec(
            other_title,
            album,
            other_artist,
        ) matches Some(l2) ==> l1.album == l2.album,
{
    let t = display_text_spec(title);
    let a = display_text_spec(album);
    lemma_split_line_bound(t, 14, 3);
    lemma_split_line_bound(a, 15, 2);
    lemma_split_line_bound(display_text_spec(other_title), 14, 3);
}

} // verus!
