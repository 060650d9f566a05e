use music_controller::button::{knob_turn, DebounceState};
use music_controller::display::{
    checked_split_on_whitespace, display_text, fade_in_backlight, fade_out_backlight, set_brightness,
    song_info_layout, split_on_whitespace, PrintOut, TextFont,
};
use music_controller::text::{i64_to_decimal, parse_bool, parse_unsigned, remove_quotes, u64_to_decimal};

#[test]
fn brightness_is_capped() {
    assert_eq!(set_brightness(1000, 150), 1000);
    assert_eq!(set_brightness(1000, 5), 50);
    assert_eq!(set_brightness(8191, 50), 4095);
}

#[test]
fn fades() {
    let out = fade_out_backlight(1000);
    assert_eq!(out.len(), 100);
    assert_eq!(out[0], 990);
    assert_eq!(out[99], 0);
    let inn = fade_in_backlight(1000);
    assert_eq!(inn[0], 0);
    assert_eq!(inn[99], 990);
}

#[test]
fn album_art_statistics() {
    let mut p = PrintOut::new();
    let data = p.write(&[0xFFFF, 0x0000, 0xF800]);
    assert_eq!(data, vec![0xFF, 0xFF, 0, 0, 0xF8, 0]);
    assert_eq!((p.red_acc, p.green_acc, p.blue_acc, p.total_pix), (62, 63, 31, 3));
    assert_eq!(p.average_color(), (20, 21, 10));
}

#[test]
fn katakana_is_narrowed() {
    assert_eq!(display_text("アイ ウ"), "ｱｲ ｳ");
    assert_eq!(display_text("\u{3000}。ッ"), " ｡ｯ");
    assert_eq!(display_text("abc"), "abc");
}

#[test]
fn wrapping() {
    let (text, lines) = split_on_whitespace("Hello wonderful world".to_string(), 14, 3);
    assert_eq!(text, "Hello \nwonderful \nworld ");
    assert_eq!(lines, 2);
    let (text, lines) = split_on_whitespace("a b c d".to_string(), 1, 1);
    assert_eq!(text, "\na ...");
    assert_eq!(lines, 1);
    assert!(checked_split_on_whitespace("Supercalifragilistic".to_string(), 14, 3).is_none());
}

#[test]
fn song_layout() {
    let l = song_info_layout("Short", "Album", "Artist").unwrap();
    assert_eq!((l.title.as_str(), l.title_y, l.album_y, l.artist_y), ("Short", 50, 80, 110));
    assert_eq!(l.x, 170);
    assert_eq!((l.title_font, l.album_font, l.artist_font), (TextFont::Large, TextFont::Medium, TextFont::Small));
    let l = song_info_layout("A long title of words", "An album with a name", "Me").unwrap();
    assert_eq!(l.title, "A long title \nof words ");
    assert_eq!(l.album, "An album with \na name ");
    assert_eq!((l.album_y, l.artist_y), (100, 140));
    assert!(song_info_layout("Averyveryverylongword", "x", "y").is_none());
}

#[test]
fn decimals() {
    assert_eq!(u64_to_decimal(0), "0");
    assert_eq!(u64_to_decimal(1234), "1234");
    assert_eq!(i64_to_decimal(-42), "-42");
    assert_eq!(i64_to_decimal(i64::MIN), "-9223372036854775808");
    assert_eq!(parse_unsigned("+42", 255), Some(42));
    assert_eq!(parse_unsigned("256", 255), None);
    assert_eq!(parse_unsigned("", 255), None);
    assert_eq!(parse_unsigned("4x", 255), None);
    assert_eq!(parse_unsigned("18446744073709551615", u64::MAX), Some(u64::MAX));
    assert_eq!(parse_unsigned("18446744073709551616", u64::MAX), None);
    assert_eq!(parse_bool("true"), Some(true));
    assert_eq!(parse_bool("False"), None);
    assert_eq!(remove_quotes("\"abc\"".to_string()), "abc");
    assert_eq!(remove_quotes("a".to_string()), "");
}

#[test]
fn debounce() {
    let mut b = DebounceState::new();
    let s = b.read_debounced(true, 100);
    assert!(s.restart_timer && !s.pressed);
    let s = b.read_debounced(true, 3);
    assert!(!s.restart_timer && !s.pressed);
    let s = b.read_debounced(true, 6);
    assert!(!s.pressed);
    assert!(b.button_state);
    b.read_debounced(false, 50);
    let s = b.read_debounced(false, 6);
    assert!(s.pressed);
    assert!(!b.button_state);
}

#[test]
fn knob() {
    assert_eq!(knob_turn(false, false, true), None);
    assert_eq!(knob_turn(false, true, false), Some(true));
    assert_eq!(knob_turn(false, true, true), Some(false));
}

#[test]
fn debounce_reports_one_press_per_release() {
    let mut b = DebounceState::new();
    // Settle high, then fall to low and hold: one press.
    b.read_debounced(true, 0);
    assert!(!b.read_debounced(true, 10).pressed);
    assert!(!b.read_debounced(false, 10).pressed);
    assert!(b.read_debounced(false, 10).pressed);
    // Holding low longer reports nothing more.
    assert!(!b.read_debounced(false, 100).pressed);
    assert!(!b.read_debounced(false, 1000).pressed);
}
