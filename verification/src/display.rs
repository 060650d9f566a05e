//! What the display shows: backlight duties, album-art colour statistics,
//! and the song text, with full-width katakana narrowed for the panel's
//! JIS X 0201 fonts and long titles wrapped onto lines.
use vstd::prelude::*;
use vstd::utf8::*;
use crate::text::{chars_of, push_char, string_from_chars};
use crate::wifi::{is_whitespace, is_whitespace_spec};
use embedded_graphics::text::renderer::TextRenderer;

verus! {

broadcast use vstd::seq_lib::group_seq_properties;

// ---------------------------------------------------------------------------
// Backlight
// ---------------------------------------------------------------------------

/// The duty for a brightness in percent, capped at 100 percent.
pub open spec fn brightness_duty(max_duty: u32, percent: u8) -> u32 {
    let p: int = if percent > 100 {
        100
    } else {
        percent as int
    };
    (max_duty * p / 100) as u32
}

/// The backlight duty for a brightness in percent (more than 100 counts as 100).
pub fn set_brightness(max_duty: u32, percent: u8) -> (duty: u32)
    requires
        max_duty * (if percent > 100 {
            100
        } else {
            percent as int
        }) <= u32::MAX,
    ensures
        duty == brightness_duty(max_duty, percent),
{
    let mut percent = percent;
    if percent > 100 {
        percent = 100;
    }
    max_duty * percent as u32 / 100
}

/// The duties of a fade: `max_duty * n / 100` for `n` from 99 down to 0
/// when fading out, from 0 up to 99 when fading in.
pub open spec fn fade_duties(max_duty: u32, fade_in: bool) -> Seq<u32> {
    Seq::new(
        100,
        |i: int|
            (max_duty * (if fade_in {
                i
            } else {
                99 - i
            }) / 100) as u32,
    )
}

fn fade(max_duty: u32, fade_in: bool) -> (duties: Vec<u32>)
    requires
        max_duty * 99 <= u32::MAX,
    ensures
        duties@ == fade_duties(max_duty, fade_in),
{
    let mut duties: Vec<u32> = Vec::new();
    let mut i: u32 = 0;
    while i < 100
        invariant
            i <= 100,
            max_duty * 99 <= u32::MAX,
            duties@ == fade_duties(max_duty, fade_in).take(i as int),
        decreases 100 - i,
    {
        let numerator: u32 = if fade_in {
            i
        } else {
            99 - i
        };
        assert(max_duty * numerator <= max_duty * 99) by (nonlinear_arith)
            requires
                numerator <= 99,
        ;
        duties.push(max_duty * numerator / 100);
        i = i + 1;
        assert(duties@ =~= fade_duties(max_duty, fade_in).take(i as int));
    }
    duties
}

/// The duties that fade the backlight out, one step every few milliseconds.
pub fn fade_out_backlight(max_duty: u32) -> (duties: Vec<u32>)
    requires
        max_duty * 99 <= u32::MAX,
    ensures
        duties@ == fade_duties(max_duty, false),
{
    fade(max_duty, false)
}

/// The duties that fade the backlight in, one step every few milliseconds.
pub fn fade_in_backlight(max_duty: u32) -> (duties: Vec<u32>)
    requires
        max_duty * 99 <= u32::MAX,
    ensures
        duties@ == fade_duties(max_duty, true),
{
    fade(max_duty, true)
}

// ---------------------------------------------------------------------------
// Album art statistics
// ---------------------------------------------------------------------------

/// The red channel of an RGB565 pixel (bits 11 to 15).
pub open spec fn red565(p: u16) -> nat {
    (p / 2048) as nat
}

/// The green channel of an RGB565 pixel (bits 5 to 10).
pub open spec fn green565(p: u16) -> nat {
    ((p / 32) % 64) as nat
}

/// The blue channel of an RGB565 pixel (bits 0 to 4).
pub open spec fn blue565(p: u16) -> nat {
    (p % 32) as nat
}

/// The sum of the red channels.
pub open spec fn red_sum(px: Seq<u16>) -> nat
    decreases px.len(),
{
    if px.len() == 0 {
        0
    } else {
        red_sum(px.drop_last()) + red565(px.last())
    }
}

/// The sum of the green channels.
pub open spec fn green_sum(px: Seq<u16>) -> nat
    decreases px.len(),
{
    if px.len() == 0 {
        0
    } else {
        green_sum(px.drop_last()) + green565(px.last())
    }
}

/// The sum of the blue channels.
pub open spec fn blue_sum(px: Seq<u16>) -> nat
    decreases px.len(),
{
    if px.len() == 0 {
        0
    } else {
        blue_sum(px.drop_last()) + blue565(px.last())
    }
}

/// Each pixel as its two bytes, most significant first.
pub open spec fn big_endian_bytes(px: Seq<u16>) -> Seq<u8>
    decreases px.len(),
{
    if px.len() == 0 {
        Seq::empty()
    } else {
        big_endian_bytes(px.drop_last()) + seq![(px.last() / 256) as u8, (px.last() % 256) as u8]
    }
}

proof fn lemma_sums_grow(px: Seq<u16>, i: int)
    requires
        0 <= i <= px.len(),
    ensures
        red_sum(px.take(i)) <= red_sum(px),
        green_sum(px.take(i)) <= green_sum(px),
        blue_sum(px.take(i)) <= blue_sum(px),
    decreases px.len() - i,
{
    if i < px.len() {
        lemma_sums_grow(px, i + 1);
        assert(px.take(i + 1).drop_last() == px.take(i));
    } else {
        assert(px.take(i) == px);
    }
}

/// Running colour statistics of decoded album art.
#[derive(Debug)]
pub struct PrintOut {
    pub red_acc: usize,
    pub green_acc: usize,
    pub blue_acc: usize,
    pub total_pix: usize,
}

impl PrintOut {
    /// No pixels seen yet.
    pub fn new() -> (p: PrintOut)
        ensures
            p.red_acc == 0 && p.green_acc == 0 && p.blue_acc == 0 && p.total_pix == 0,
    {
        PrintOut { red_acc: 0, green_acc: 0, blue_acc: 0, total_pix: 0 }
    }

    /// Takes in a decoded block of RGB565 pixels: adds each pixel's channels
    /// to the sums and counts it, and gives the block's bytes for drawing.
    pub fn write(&mut self, bitmap: &[u16]) -> (data: Vec<u8>)
        requires
            old(self).red_acc + red_sum(bitmap@) <= usize::MAX,
            old(self).green_acc + green_sum(bitmap@) <= usize::MAX,
            old(self).blue_acc + blue_sum(bitmap@) <= usize::MAX,
            old(self).total_pix + bitmap@.len() <= usize::MAX,
        ensures
            final(self).red_acc == old(self).red_acc + red_sum(bitmap@),
            final(self).green_acc == old(self).green_acc + green_sum(bitmap@),
            final(self).blue_acc == old(self).blue_acc + blue_sum(bitmap@),
            final(self).total_pix == old(self).total_pix + bitmap@.len(),
            data@ == big_endian_bytes(bitmap@),
    {
        let mut data: Vec<u8> = Vec::new();
        let ghost r0 = self.red_acc;
        let ghost g0 = self.green_acc;
        let ghost b0 = self.blue_acc;
        let ghost t0 = self.total_pix;
        for k in 0..bitmap.len()
            invariant
                r0 + red_sum(bitmap@) <= usize::MAX,
                g0 + green_sum(bitmap@) <= usize::MAX,
                b0 + blue_sum(bitmap@) <= usize::MAX,
                t0 + bitmap@.len() <= usize::MAX,
                self.red_acc == r0 + red_sum(bitmap@.take(k as int)),
                self.green_acc == g0 + green_sum(bitmap@.take(k as int)),
                self.blue_acc == b0 + blue_sum(bitmap@.take(k as int)),
                self.total_pix == t0 + k,
                data@ == big_endian_bytes(bitmap@.take(k as int)),
        {
            let p = bitmap[k];
            proof {
                assert(bitmap@.take(k + 1).drop_last() == bitmap@.take(k as int));
                assert(bitmap@.take(k + 1).last() == p);
                lemma_sums_grow(bitmap@, k + 1);
            }
            data.push((p / 256) as u8);
            data.push((p % 256) as u8);
            self.red_acc = self.red_acc + (p / 2048) as usize;
            self.green_acc = self.green_acc + ((p / 32) % 64) as usize;
            self.blue_acc = self.blue_acc + (p % 32) as usize;
            self.total_pix = self.total_pix + 1;
        }
        assert(bitmap@.take(bitmap@.len() as int) == bitmap@);
        data
    }

    /// The average colour of the pixels seen, per channel (kept to its low
    /// byte), with which the display is filled around the art.
    pub fn average_color(&self) -> (rgb: (u8, u8, u8))
        requires
            self.total_pix > 0,
        ensures
            rgb.0 == (self.red_acc / self.total_pix) % 256,
            rgb.1 == (self.green_acc / self.total_pix) % 256,
            rgb.2 == (self.blue_acc / self.total_pix) % 256,
    {
        (
            ((self.red_acc / self.total_pix) % 256) as u8,
            ((self.green_acc / self.total_pix) % 256) as u8,
            ((self.blue_acc / self.total_pix) % 256) as u8,
        )
    }
}

// ---------------------------------------------------------------------------
// Text for the panel's fonts
// ---------------------------------------------------------------------------

/// The half-width form that the panel's JIS X 0201 fonts can draw of a
/// full-width katakana or punctuation character, if it has one.
pub open spec fn halfwidth_spec(c: char) -> Option<char> {
    match c {
        '\u{3000}' => Some(' '),
        '\u{3002}' => Some('\u{FF61}'),
        '\u{300C}' => Some('\u{FF62}'),
        '\u{300D}' => Some('\u{FF63}'),
        '\u{3001}' => Some('\u{FF64}'),
        '\u{30FB}' => Some('\u{FF65}'),
        '\u{30FC}' => Some('\u{FF70}'),
        '\u{30A2}' => Some('\u{FF71}'),
        '\u{30A4}' => Some('\u{FF72}'),
        '\u{30A6}' => Some('\u{FF73}'),
        '\u{30A8}' => Some('\u{FF74}'),
        '\u{30AA}' => Some('\u{FF75}'),
        '\u{30AB}' => Some('\u{FF76}'),
        '\u{30AD}' => Some('\u{FF77}'),
        '\u{30AF}' => Some('\u{FF78}'),
        '\u{30B1}' => Some('\u{FF79}'),
        '\u{30B3}' => Some('\u{FF7A}'),
        '\u{30B5}' => Some('\u{FF7B}'),
        '\u{30B7}' => Some('\u{FF7C}'),
        '\u{30B9}' => Some('\u{FF7D}'),
        '\u{30BB}' => Some('\u{FF7E}'),
        '\u{30BD}' => Some('\u{FF7F}'),
        '\u{30BF}' => Some('\u{FF80}'),
        '\u{30C1}' => Some('\u{FF81}'),
        '\u{30C4}' => Some('\u{FF82}'),
        '\u{30C6}' => Some('\u{FF83}'),
        '\u{30C8}' => Some('\u{FF84}'),
        '\u{30CA}' => Some('\u{FF85}'),
        '\u{30CB}' => Some('\u{FF86}'),
        '\u{30CC}' => Some('\u{FF87}'),
        '\u{30CD}' => Some('\u{FF88}'),
        '\u{30CE}' => Some('\u{FF89}'),
        '\u{30CF}' => Some('\u{FF8A}'),
        '\u{30D2}' => Some('\u{FF8B}'),
        '\u{30D5}' => Some('\u{FF8C}'),
        '\u{30D8}' => Some('\u{FF8D}'),
        '\u{30DB}' => Some('\u{FF8E}'),
        '\u{30DE}' => Some('\u{FF8F}'),
        '\u{30DF}' => Some('\u{FF90}'),
        '\u{30E0}' => Some('\u{FF91}'),
        '\u{30E1}' => Some('\u{FF92}'),
        '\u{30E2}' => Some('\u{FF93}'),
        '\u{30E4}' => Some('\u{FF94}'),
        '\u{30E6}' => Some('\u{FF95}'),
        '\u{30E8}' => Some('\u{FF96}'),
        '\u{30E9}' => Some('\u{FF97}'),
        '\u{30EA}' => Some('\u{FF98}'),
        '\u{30EB}' => Some('\u{FF99}'),
        '\u{30EC}' => Some('\u{FF9A}'),
        '\u{30ED}' => Some('\u{FF9B}'),
        '\u{30EF}' => Some('\u{FF9C}'),
        '\u{30F2}' => Some('\u{FF66}'),
        '\u{30F3}' => Some('\u{FF9D}'),
        '\u{30A1}' => Some('\u{FF67}'),
        '\u{30A3}' => Some('\u{FF68}'),
        '\u{30A5}' => Some('\u{FF69}'),
        '\u{30A7}' => Some('\u{FF6A}'),
        '\u{30A9}' => Some('\u{FF6B}'),
        '\u{30E3}' => Some('\u{FF6C}'),
        '\u{30E5}' => Some('\u{FF6D}'),
        '\u{30E7}' => Some('\u{FF6E}'),
        '\u{30C3}' => Some('\u{FF6F}'),
        _ => None,
    }
}

/// Looks up the half-width form of a character.
pub fn halfwidth(c: char) -> (r: Option<char>)
    ensures
        r == halfwidth_spec(c),
{
    match c {
        '\u{3000}' => Some(' '),
        '\u{3002}' => Some('\u{FF61}'),
        '\u{300C}' => Some('\u{FF62}'),
        '\u{300D}' => Some('\u{FF63}'),
        '\u{3001}' => Some('\u{FF64}'),
        '\u{30FB}' => Some('\u{FF65}'),
        '\u{30FC}' => Some('\u{FF70}'),
        '\u{30A2}' => Some('\u{FF71}'),
        '\u{30A4}' => Some('\u{FF72}'),
        '\u{30A6}' => Some('\u{FF73}'),
        '\u{30A8}' => Some('\u{FF74}'),
        '\u{30AA}' => Some('\u{FF75}'),
        '\u{30AB}' => Some('\u{FF76}'),
        '\u{30AD}' => Some('\u{FF77}'),
        '\u{30AF}' => Some('\u{FF78}'),
        '\u{30B1}' => Some('\u{FF79}'),
        '\u{30B3}' => Some('\u{FF7A}'),
        '\u{30B5}' => Some('\u{FF7B}'),
        '\u{30B7}' => Some('\u{FF7C}'),
        '\u{30B9}' => Some('\u{FF7D}'),
        '\u{30BB}' => Some('\u{FF7E}'),
        '\u{30BD}' => Some('\u{FF7F}'),
        '\u{30BF}' => Some('\u{FF80}'),
        '\u{30C1}' => Some('\u{FF81}'),
        '\u{30C4}' => Some('\u{FF82}'),
        '\u{30C6}' => Some('\u{FF83}'),
        '\u{30C8}' => Some('\u{FF84}'),
        '\u{30CA}' => Some('\u{FF85}'),
        '\u{30CB}' => Some('\u{FF86}'),
        '\u{30CC}' => Some('\u{FF87}'),
        '\u{30CD}' => Some('\u{FF88}'),
        '\u{30CE}' => Some('\u{FF89}'),
        '\u{30CF}' => Some('\u{FF8A}'),
        '\u{30D2}' => Some('\u{FF8B}'),
        '\u{30D5}' => Some('\u{FF8C}'),
        '\u{30D8}' => Some('\u{FF8D}'),
        '\u{30DB}' => Some('\u{FF8E}'),
        '\u{30DE}' => Some('\u{FF8F}'),
        '\u{30DF}' => Some('\u{FF90}'),
        '\u{30E0}' => Some('\u{FF91}'),
        '\u{30E1}' => Some('\u{FF92}'),
        '\u{30E2}' => Some('\u{FF93}'),
        '\u{30E4}' => Some('\u{FF94}'),
        '\u{30E6}' => Some('\u{FF95}'),
        '\u{30E8}' => Some('\u{FF96}'),
        '\u{30E9}' => Some('\u{FF97}'),
        '\u{30EA}' => Some('\u{FF98}'),
        '\u{30EB}' => Some('\u{FF99}'),
        '\u{30EC}' => Some('\u{FF9A}'),
        '\u{30ED}' => Some('\u{FF9B}'),
        '\u{30EF}' => Some('\u{FF9C}'),
        '\u{30F2}' => Some('\u{FF66}'),
        '\u{30F3}' => Some('\u{FF9D}'),
        '\u{30A1}' => Some('\u{FF67}'),
        '\u{30A3}' => Some('\u{FF68}'),
        '\u{30A5}' => Some('\u{FF69}'),
        '\u{30A7}' => Some('\u{FF6A}'),
        '\u{30A9}' => Some('\u{FF6B}'),
        '\u{30E3}' => Some('\u{FF6C}'),
        '\u{30E5}' => Some('\u{FF6D}'),
        '\u{30E7}' => Some('\u{FF6E}'),
        '\u{30C3}' => Some('\u{FF6F}'),
        _ => None,
    }
}

/// A character as the panel draws it.
pub open spec fn display_char(c: char) -> char {
    match halfwidth_spec(c) {
        Some(h) => h,
        None => c,
    }
}

/// A text as the panel draws it: each character in its half-width form
/// where it has one.
pub open spec fn display_text_spec(s: Seq<char>) -> Seq<char> {
    s.map_values(|c: char| display_char(c))
}

/// Narrows the full-width characters of a text for the panel's fonts.
pub fn display_text(text: &str) -> (r: String)
    ensures
        r@ == display_text_spec(text@),
{
    let chars = chars_of(text);
    let mut r = String::new();
    for i in 0..chars.len()
        invariant
            chars@ == text@,
            r@ == display_text_spec(chars@.take(i as int)),
    {
        let c = chars[i];
        let shown = match halfwidth(c) {
            Some(h) => h,
            None => c,
        };
        push_char(&mut r, shown);
        assert(display_text_spec(chars@.take(i + 1)) =~= display_text_spec(chars@.take(i as int)).push(
            display_char(c),
        ));
    }
    assert(chars@.take(chars@.len() as int) == chars@);
    r
}

/// The fonts whose widths the layout measures.
#[derive(Clone, Copy, Debug, PartialEq, Eq, Structural)]
pub enum TextFont {
    /// The 10 by 20 JIS X 0201 font of titles.
    Large,
    /// The 9 by 15 JIS X 0201 font of albums.
    Medium,
    /// The 6 by 13 JIS X 0201 font of artists.
    Small,
}

/// The width of a glyph of the font, with no spacing between glyphs.
pub open spec fn glyph_width(font: TextFont) -> nat {
    match font {
        TextFont::Large => 10,
        TextFont::Medium => 9,
        TextFont::Small => 6,
    }
}

/// Wraps `embedded_graphics::text::renderer::TextRenderer::measure_string`
/// for a monospaced text style of the given JIS X 0201 font: the width of
/// the measured box is the number of characters times the glyph width
/// (10, 9 or 6 pixels, with no character spacing in these fonts).
#[verifier::external_body]
fn measure_text_width(text: &str, font: TextFont) -> (width: u32)
    requires
        text@.len() * glyph_width(font) <= u32::MAX,
    ensures
        width == text@.len() * glyph_width(font),
{
    let font = match font {
        TextFont::Large => &embedded_graphics::mono_font::jis_x0201::FONT_10X20,
        TextFont::Medium => &embedded_graphics::mono_font::jis_x0201::FONT_9X15,
        TextFont::Small => &embedded_graphics::mono_font::jis_x0201::FONT_6X13,
    };
    let style = embedded_graphics::mono_font::MonoTextStyle::new(
        font,
        <embedded_graphics::pixelcolor::Rgb565 as embedded_graphics::prelude::RgbColor>::WHITE,
    );
    style.measure_string(
        text,
        embedded_graphics::prelude::Point::zero(),
        embedded_graphics::text::Baseline::Bottom,
    ).bounding_box.size.width
}


// ---------------------------------------------------------------------------
// Wrapping long text
// ---------------------------------------------------------------------------

/// The length in bytes that `String::len` reports.
pub open spec fn utf8_len(s: Seq<char>) -> int {
    (encode_utf8(s).len() as usize) as int
}

/// Where wrapping stands: the text so far, room left on the line, the word
/// being read, and how many line breaks were made.
pub struct SplitState {
    pub ret: Seq<char>,
    pub chars_left: int,
    pub temp: Seq<char>,
    pub num_lines: int,
}

/// Wraps `chars` from index `i` on: a word that fits the room left joins
/// the line with the white space after it; one that does not starts a new
/// line while line breaks remain (the room becomes the width less the
/// word), and otherwise the text ends in `...`. `None` where a word longer
/// than the width would start a line.
pub open spec fn split_from(chars: Seq<char>, i: int, st: SplitState, max_len: int, max_lines: int) -> Option<
    (Seq<char>, int),
>
    decreases chars.len() - i,
{
    if i < 0 || i >= chars.len() {
        Some((st.ret, st.num_lines))
    } else {
        let c = chars[i];
        if !is_whitespace_spec(c) {
            split_from(chars, i + 1, SplitState { temp: st.temp.push(c), ..st }, max_len, max_lines)
        } else {
            let tl = utf8_len(st.temp);
            if tl < st.chars_left {
                split_from(
                    chars,
                    i + 1,
                    SplitState {
                        ret: st.ret + st.temp.push(c),
                        chars_left: st.chars_left - tl - 1,
                        temp: Seq::empty(),
                        num_lines: st.num_lines,
                    },
                    max_len,
                    max_lines,
                )
            } else if st.num_lines < max_lines {
                if tl > max_len {
                    None
                } else {
                    split_from(
                        chars,
                        i + 1,
                        SplitState {
                            ret: st.ret + seq!['\n'] + st.temp.push(c),
                            chars_left: max_len - tl,
                            temp: Seq::empty(),
                            num_lines: st.num_lines + 1,
                        },
                        max_len,
                        max_lines,
                    )
                }
            } else {
                Some((st.ret + seq!['.', '.', '.'], st.num_lines))
            }
        }
    }
}

/// Wraps a text to lines of `max_len` bytes with at most `max_lines` line
/// breaks, a space being added at its end first.
pub open spec fn split_spec(text: Seq<char>, max_len: usize, max_lines: i32) -> Option<(Seq<char>, int)> {
    split_from(
        text.push(' '),
        0,
        SplitState { ret: Seq::empty(), chars_left: max_len as int, temp: Seq::empty(), num_lines: 0 },
        max_len as int,
        max_lines as int,
    )
}

/// Wraps a text, or `None` where a word longer than the width would start
/// a line.
pub fn checked_split_on_whitespace(in_text: String, max_len: usize, max_lines: i32) -> (r: Option<
    (String, i32),
>)
    ensures
        r is None <==> split_spec(in_text@, max_len, max_lines) is None,
        r matches Some((text, lines)) ==> split_spec(in_text@, max_len, max_lines) == Some(
            (text@, lines as int),
        ),
{
    let mut chars = chars_of(in_text.as_str());
    chars.push(' ');
    let ghost all = in_text@.push(' ');
    assert(chars@ == all);
    let mut ret_str = String::new();
    let mut chars_left: usize = max_len;
    let mut temp_str = String::new();
    let mut num_lines: i32 = 0;
    let ghost total = split_spec(in_text@, max_len, max_lines);
    let mut i: usize = 0;
    while i < chars.len()
        invariant
            chars@ == all,
            all == in_text@.push(' '),
            total == split_spec(in_text@, max_len, max_lines),
            i <= chars@.len(),
            0 <= num_lines <= max_lines || num_lines == 0,
            total == split_from(
                chars@,
                i as int,
                SplitState {
                    ret: ret_str@,
                    chars_left: chars_left as int,
                    temp: temp_str@,
                    num_lines: num_lines as int,
                },
                max_len as int,
                max_lines as int,
            ),
        decreases chars@.len() - i,
    {
        let c = chars[i];
        if !is_whitespace(c) {
            push_char(&mut temp_str, c);
        } else {
            let tl = temp_str.as_str().len();
            if tl < chars_left {
                let ghost r0 = ret_str@;
                ret_str.append(temp_str.as_str());
                push_char(&mut ret_str, c);
                assert(ret_str@ =~= r0 + temp_str@.push(c));
                chars_left = chars_left - (tl + 1);
                temp_str = String::new();
            } else if num_lines < max_lines {
                if tl > max_len {
                    return None;
                }
                let ghost r0 = ret_str@;
                push_char(&mut ret_str, '\n');
                ret_str.append(temp_str.as_str());
                push_char(&mut ret_str, c);
                assert(ret_str@ =~= r0 + seq!['\n'] + temp_str@.push(c));
                chars_left = max_len - tl;
                temp_str = String::new();
                num_lines = num_lines + 1;
            } else {
                ret_str.append("...");
                proof {
                    reveal_strlit("...");
                }
                return Some((ret_str, num_lines));
            }
        }
        i = i + 1;
    }
    Some((ret_str, num_lines))
}

/// Wraps a text to lines of `max_len` bytes with at most `max_lines` line
/// breaks; gives the wrapped text and the number of breaks.
pub fn split_on_whitespace(in_text: String, max_len: usize, max_lines: i32) -> (r: (String, i32))
    requires
        split_spec(in_text@, max_len, max_lines) is Some,
    ensures
        split_spec(in_text@, max_len, max_lines) == Some((r.0@, r.1 as int)),
{
    match checked_split_on_whitespace(in_text, max_len, max_lines) {
        Some(r) => r,
        None => {
            assert(false);
            (String::new(), 0)
        },
    }
}

/// Where and what the song text is drawn: the title, album and artist as
/// the panel draws them, wrapped, left-aligned at column `x`, the rows they
/// start on, and the font each is drawn in.
pub struct SongLayout {
    pub title: String,
    pub album: String,
    pub artist: String,
    pub x: i32,
    pub title_y: i32,
    pub album_y: i32,
    pub artist_y: i32,
    pub title_font: TextFont,
    pub album_font: TextFont,
    pub artist_font: TextFont,
}

/// The mathematical value of a [`SongLayout`].
pub struct SongLayoutView {
    pub title: Seq<char>,
    pub album: Seq<char>,
    pub artist: Seq<char>,
    pub x: i32,
    pub title_y: i32,
    pub album_y: i32,
    pub artist_y: i32,
    pub title_font: TextFont,
    pub album_font: TextFont,
    pub artist_font: TextFont,
}

impl View for SongLayout {
    type V = SongLayoutView;

    open spec fn view(&self) -> SongLayoutView {
        SongLayoutView {
            title: self.title@,
            album: self.album@,
            artist: self.artist@,
            x: self.x,
            title_y: self.title_y,
            album_y: self.album_y,
            artist_y: self.artist_y,
            title_font: self.title_font,
            album_font: self.album_font,
            artist_font: self.artist_font,
        }
    }
}

/// The song text: a title wider than 140 pixels in the large font wraps to
/// 14-byte lines with up to three breaks, an album wider than 140 pixels in
/// the medium font to 15-byte lines with up to two; the artist is drawn in
/// the small font. All three start at column 170; the title on row 50, the
/// album on row 80 and 20 pixels lower per title break, the artist on row
/// 110, also 20 lower per title break and 10 lower per album break.
pub open spec fn song_layout_spec(title: Seq<char>, album: Seq<char>, artist: Seq<char>) -> Option<
    SongLayoutView,
> {
    let t = display_text_spec(title);
    let a = display_text_spec(album);
    let tw = if t.len() * 10 > 140 {
        split_spec(t, 14, 3)
    } else {
        Some((t, 0))
    };
    let aw = if a.len() * 9 > 140 {
        split_spec(a, 15, 2)
    } else {
        Some((a, 0))
    };
    match (tw, aw) {
        (Some((tt, tl)), Some((at, al))) => Some(
            SongLayoutView {
                title: tt,
                album: at,
                artist: display_text_spec(artist),
                x: 170,
                title_y: 50,
                album_y: (80 + tl * 20) as i32,
                artist_y: (110 + tl * 20 + al * 10) as i32,
                title_font: TextFont::Large,
                album_font: TextFont::Medium,
                artist_font: TextFont::Small,
            },
        ),
        _ => None,
    }
}

proof fn lemma_split_lines(chars: Seq<char>, i: int, st: SplitState, max_len: int, max_lines: int)
    requires
        0 <= st.num_lines <= max_lines,
    ensures
        split_from(chars, i, st, max_len, max_lines) matches Some((_, n)) ==> 0 <= n <= max_lines,
    decreases chars.len() - i,
{
    if 0 <= i < chars.len() {
        let c = chars[i];
        let tl = utf8_len(st.temp);
        lemma_split_lines(chars, i + 1, SplitState { temp: st.temp.push(c), ..st }, max_len, max_lines);
        lemma_split_lines(
            chars,
            i + 1,
            SplitState {
                ret: st.ret + st.temp.push(c),
                chars_left: st.chars_left - tl - 1,
                temp: Seq::empty(),
                num_lines: st.num_lines,
            },
            max_len,
            max_lines,
        );
        if st.num_lines < max_lines {
            lemma_split_lines(
                chars,
                i + 1,
                SplitState {
                    ret: st.ret + seq!['\n'] + st.temp.push(c),
                    chars_left: max_len - tl,
                    temp: Seq::empty(),
                    num_lines: st.num_lines + 1,
                },
                max_len,
                max_lines,
            );
        }
    }
}

/// Lays out the song text, or `None` where wrapping meets a word too long
/// for a line (there the firmware stops).
pub fn song_info_layout(title: &str, album: &str, artist: &str) -> (r: Option<SongLayout>)
    requires
        title@.len() * 10 <= u32::MAX,
        album@.len() * 9 <= u32::MAX,
    ensures
        r is None <==> song_layout_spec(title@, album@, artist@) is None,
        r matches Some(l) ==> song_layout_spec(title@, album@, artist@) == Some(l@),
{
    let title_text = display_text(title);
    let album_text = display_text(album);
    let artist_text = display_text(artist);
    proof {
        lemma_split_lines(
            title_text@.push(' '),
            0,
            SplitState { ret: Seq::empty(), chars_left: 14, temp: Seq::empty(), num_lines: 0 },
            14,
            3,
        );
        lemma_split_lines(
            album_text@.push(' '),
            0,
            SplitState { ret: Seq::empty(), chars_left: 15, temp: Seq::empty(), num_lines: 0 },
            15,
            2,
        );
    }
    let title_width = measure_text_width(title_text.as_str(), TextFont::Large);
    let (title_out, num_lines) = if title_width > 140 {
        match checked_split_on_whitespace(title_text, 14, 3) {
            Some(r) => r,
            None => return None,
        }
    } else {
        (title_text, 0)
    };
    let album_width = measure_text_width(album_text.as_str(), TextFont::Medium);
    let (album_out, num_album_lines) = if album_width > 140 {
        match checked_split_on_whitespace(album_text, 15, 2) {
            Some(r) => r,
            None => return None,
        }
    } else {
        (album_text, 0)
    };
    Some(
        SongLayout {
            title: title_out,
            album: album_out,
            artist: artist_text,
            x: 170,
            title_y: 50,
            album_y: 80 + num_lines * 20,
            artist_y: 110 + num_lines * 20 + num_album_lines * 10,
            title_font: TextFont::Large,
            album_font: TextFont::Medium,
            artist_font: TextFont::Small,
        },
    )
}

} // verus!
