use music_controller::json_scan::get_val;
use music_controller::player::{
    can_control_vol, change_volume_if_known, get_current_song, get_playback_state,
    liked_from_response, on_radio_search_answer, playback_accepted, set_playback_state, start_accepted,
    start_song_radio, PlayerError,
    RadioStep, SearchResult,
};
use music_controller::spotify::{
    authorization_request, basic_auth, controller_from_grant, read_token_grant, HttpMethod,
    SpotifyController, TokenError,
};

fn controller() -> SpotifyController {
    let mut c = SpotifyController::make_controller_from_token("refresh");
    c.access_token = "tok".to_string();
    c
}

fn header(req: &music_controller::spotify::HttpRequest, i: usize) -> (&str, &str) {
    (req.headers[i].0.as_str(), req.headers[i].1.as_str())
}

#[test]
fn new_controller_refreshes_at_once() {
    let c = SpotifyController::make_controller_from_token("refresh");
    assert_eq!(c.refresh_token, "refresh");
    assert_eq!(c.access_token, "");
    assert!(c.needs_refresh(0));
    assert_eq!(c.current_vol, None);
    assert!(c.can_control_vol);
    assert!(c.is_playing);
    assert!(!c.shuffle_state);
}

#[test]
fn basic_auth_is_base64() {
    assert_eq!(basic_auth("id", "secret"), "Basic aWQ6c2VjcmV0");
    assert_eq!(basic_auth("a", "b"), "Basic YTpi");
    assert_eq!(basic_auth("ab", "c"), "Basic YWI6Yw==");
}

#[test]
fn refresh_request_shape() {
    let c = controller();
    let req = c.refresh_request("id", "secret");
    assert_eq!(req.method, HttpMethod::Post);
    assert_eq!(req.url, "https://accounts.spotify.com/api/token");
    assert_eq!(req.body, "grant_type=refresh_token&refresh_token=refresh");
    assert_eq!(header(&req, 0), ("Authorization", "Basic aWQ6c2VjcmV0"));
    assert_eq!(header(&req, 1), ("content-type", "application/x-www-form-urlencoded"));
    assert_eq!(header(&req, 2), ("content-length", "46"));
}

#[test]
fn authorization_request_shape() {
    let req = authorization_request("CODE", "id", "secret");
    assert_eq!(
        req.body,
        "grant_type=authorization_code&code=CODE&redirect_uri=http://music-controller.local/callback"
    );
    assert_eq!(header(&req, 2).1, req.body.len().to_string());
}

#[test]
fn refresh_answer_sets_token_and_timeout() {
    let mut c = controller();
    let r = c.refresh_token(br#"{"access_token":"abc","token_type":"Bearer","expires_in":3600}"#);
    assert_eq!(r, Ok(()));
    assert_eq!(c.access_token, "abc");
    assert_eq!(c.refresh_timeout, 3600);
    assert!(!c.needs_refresh(3599));
    assert!(c.needs_refresh(3600));
}

#[test]
fn refresh_answer_errors() {
    let mut c = controller();
    assert_eq!(c.refresh_token(b"not json"), Err(TokenError::InvalidResponse));
    assert_eq!(c.access_token, "tok");
    assert_eq!(c.refresh_token(&[0xFF, 0xFE]), Err(TokenError::InvalidResponse));
    assert_eq!(c.refresh_token(br#"{"access_token":"new","expires_in":"soon"}"#), Err(TokenError::BadExpiry));
    assert_eq!(c.access_token, "new");
    assert_eq!(c.refresh_timeout, 0);
    // A missing member renders as null, and loses its first and last letter.
    assert_eq!(c.refresh_token(br#"{"expires_in":10}"#), Ok(()));
    assert_eq!(c.access_token, "ul");
}

#[test]
fn token_grant() {
    let g = read_token_grant(br#"{"access_token":"a1","refresh_token":"r1","expires_in":60}"#).unwrap();
    assert_eq!(g.access_token, "a1");
    assert_eq!(g.refresh_token, "r1");
    assert_eq!(g.expires_in, 60);
    let c = controller_from_grant(g);
    assert_eq!(c.refresh_timeout, 60);
    assert_eq!(c.access_token, "a1");
    assert!(matches!(read_token_grant(b"{"), Err(TokenError::InvalidResponse)));
}

#[test]
fn playback_requests() {
    let c = controller();
    let req = set_playback_state(&c, false);
    assert_eq!(req.method, HttpMethod::Put);
    assert_eq!(req.url, "https://api.spotify.com/v1/me/player/pause");
    assert_eq!(header(&req, 0), ("Authorization", "Bearer tok"));
    assert_eq!(req.body, "");
    assert_eq!(c.set_playback_state(true).url, "https://api.spotify.com/v1/me/player/play");
    assert_eq!(c.skip_track(true).url, "https://api.spotify.com/v1/me/player/next");
    assert_eq!(c.skip_track(false).method, HttpMethod::Post);
    assert_eq!(c.skip_track(false).url, "https://api.spotify.com/v1/me/player/previous");
    assert_eq!(
        c.set_shuffle_state(true).url,
        "https://api.spotify.com/v1/me/player/shuffle?state=true"
    );
    assert!(get_playback_state(&c));
    assert!(can_control_vol(&c));
}

#[test]
fn like_requests() {
    let mut c = controller();
    c.currently_playing_id = "t1".to_string();
    let like = c.set_liked_state(true);
    assert_eq!(like.method, HttpMethod::Put);
    assert_eq!(like.url, "https://api.spotify.com/v1/me/tracks?ids=t1");
    assert_eq!(c.set_liked_state(false).method, HttpMethod::Delete);
    let ask = c.get_liked_state();
    assert_eq!(ask.url, "https://api.spotify.com/v1/me/tracks/contains?ids=t1");
    assert_eq!(header(&ask, 1), ("Content-Type", "application/json"));
    assert!(liked_from_response("[true]\0\0\0\0"));
    assert!(liked_from_response("\0[true]"));
    assert!(!liked_from_response("[false]\0"));
}

#[test]
fn volume_changes_are_clamped() {
    let mut c = controller();
    assert!(change_volume_if_known(&mut c, 5).is_none());
    c.current_vol = Some(97);
    let req = c.change_volume(10);
    assert_eq!(c.current_vol, Some(100));
    assert_eq!(req.url, "https://api.spotify.com/v1/me/player/volume?volume_percent=100");
    c.change_volume(-120);
    assert_eq!(c.current_vol, Some(0));
    let req = change_volume_if_known(&mut c, 7).unwrap();
    assert_eq!(c.current_vol, Some(7));
    assert_eq!(req.url, "https://api.spotify.com/v1/me/player/volume?volume_percent=7");
}

#[test]
fn radio_search_flow() {
    let c = controller();
    let first = start_song_radio(&c, "My \"Song\" \\x");
    assert_eq!(first.url, "https://api.spotify.com/v1/search?q=My+Song+x+radio&type=playlist");
    match on_radio_search_answer(&c, "My Song", SearchResult::Playlist, 200, "") {
        RadioStep::Search(kind, req) => {
            assert_eq!(kind, SearchResult::Album);
            assert_eq!(req.url, "https://api.spotify.com/v1/search?q=My+Song&type=album");
        }
        _ => panic!("expected an album search"),
    }
    assert!(matches!(
        on_radio_search_answer(&c, "x", SearchResult::Album, 200, "\"\""),
        RadioStep::Fail
    ));
    assert!(matches!(on_radio_search_answer(&c, "x", SearchResult::Playlist, 401, "\"id\""), RadioStep::Fail));
    match on_radio_search_answer(&c, "x", SearchResult::Playlist, 200, "\"abc\"") {
        RadioStep::Play(req) => {
            assert_eq!(req.url, "https://api.spotify.com/v1/me/player/play");
            assert_eq!(req.body, "{\"context_uri\": \"spotify:playlist:\"abc\"}");
            assert_eq!(header(&req, 2), ("content-length", "40"));
        }
        _ => panic!("expected to play"),
    }
}

#[test]
fn get_val_reads_after_the_colon() {
    let body = b"{\"id\" : \"abc\", \"x\": 1}";
    let (v, next) = get_val(body, 0, "id", ',').unwrap();
    assert_eq!(v, "\"abc\"");
    assert_eq!(next, 14);
    // A one-letter key runs past its own end: the firmware stops there.
    assert!(get_val(body, next, "x", '}').is_none());
    // A key that is never found reads nothing to the end.
    let (v, next) = get_val(body, 0, "zz", ',').unwrap();
    assert_eq!(v, "");
    assert_eq!(next, body.len());
    assert!(get_val(body, 0, "", ',').is_none());
}

const PLAYER: &str = r#"{
  "device" : {
    "name" : "Kitchen",
    "supports_volume" : true,
    "volume_percent" : 40
  },
  "shuffle_state" : false,
  "progress_ms" : 1234,
  "item" : {
    "album" : {
      "images" : [ {
        "height" : 640,
        "url" : "https://i.scdn.co/image/big",
        "width" : 640
      }, {
        "height" : 300,
        "url" : "https://i.scdn.co/image/mid",
        "width" : 300
      } ],
      "name" : "Album Name"
    },
    "artists" : [ {
      "name" : "Artist Name"
    } ],
    "duration_ms" : 200000,
    "external_urls" : {
      "spotify" : "https://open.spotify.com/track/xyz"
    },
    "id" : "trackid123",
    "name" : "Song Title"
  },
  "is_playing" : true
}"#;

#[test]
fn player_state_is_read() {
    let mut c = controller();
    let info = get_current_song(&mut c, 200, PLAYER.as_bytes()).unwrap().unwrap();
    assert_eq!(info.title, "Song Title");
    assert_eq!(info.artist, "Artist Name");
    assert_eq!(info.album, "Album Name");
    assert_eq!(info.url, "https://i.scdn.co/image/mid");
    assert_eq!(info.progress_ms, 1234);
    assert_eq!(info.duration_ms, 200000);
    assert_eq!(c.current_vol, Some(40));
    assert!(c.can_control_vol);
    assert!(!c.shuffle_state);
    assert_eq!(c.currently_playing_id, "trackid123");
    assert!(c.is_playing);
}

#[test]
fn known_volume_is_kept() {
    let mut c = controller();
    c.current_vol = Some(3);
    get_current_song(&mut c, 200, PLAYER.as_bytes()).unwrap();
    assert_eq!(c.current_vol, Some(3));
}

#[test]
fn other_status_forgets_volume() {
    let mut c = controller();
    c.current_vol = Some(3);
    assert!(get_current_song(&mut c, 204, b"").unwrap().is_none());
    assert_eq!(c.current_vol, None);
}

#[test]
fn unreadable_player_state() {
    let mut c = controller();
    let body = PLAYER.replace("\"supports_volume\" : true", "\"supports_volume\" : maybe");
    assert_eq!(get_current_song(&mut c, 200, body.as_bytes()).err(), Some(PlayerError::Unreadable));
    assert_eq!(c.current_vol, None);
}

#[test]
fn player_state_request_shape() {
    let c = controller();
    let req = c.player_state_request();
    assert_eq!(req.method, HttpMethod::Get);
    assert_eq!(req.url, "https://api.spotify.com/v1/me/player");
    assert_eq!(req.headers.len(), 1);
    assert_eq!(header(&req, 0), ("Authorization", "Bearer tok"));
    assert_eq!(req.body, "");
}

#[test]
fn refresh_keeps_session() {
    let mut c = controller();
    c.current_vol = Some(7);
    c.currently_playing_id = "song".to_string();
    c.is_playing = false;
    c.refresh_token(br#"{"access_token":"fresh","expires_in":60}"#).unwrap();
    assert_eq!(c.access_token, "fresh");
    assert_eq!(c.refresh_token, "refresh");
    assert_eq!(c.current_vol, Some(7));
    assert_eq!(c.currently_playing_id, "song");
    assert!(!c.is_playing);
}

#[test]
fn volume_relearned_after_failed_read() {
    let mut c = controller();
    c.current_vol = Some(3);
    assert!(get_current_song(&mut c, 401, b"").unwrap().is_none());
    assert_eq!(c.current_vol, None);
    get_current_song(&mut c, 200, PLAYER.as_bytes()).unwrap();
    assert_eq!(c.current_vol, Some(40));
}

#[test]
fn answers_that_count() {
    assert!(playback_accepted(200));
    assert!(!playback_accepted(204));
    assert!(!playback_accepted(404));
    assert!(start_accepted(204));
    assert!(!start_accepted(200));
}
