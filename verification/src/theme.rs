//! Colours of the page, and what they make of the title bar and the window frame.
use crate::json::{quote, quoted};
use crate::scan::{
    decimal, decimal_text, has_part, law_decimal_reads_back, numeral, occurs_at, split, starts_with,
    value,
};
use crate::scan_laws::{begins, law_each_separator_begins_a_piece, law_parts_are_found, made_of};
use crate::text::{cat5, chars_of, digit};
use vstd::prelude::*;
use vstd::string::StringExecFns;
use vstd::utf8::{encode_utf8, is_ascii_chars, is_ascii_chars_encode_utf8};

verus! {

/// Colours sampled from the dsh page.
#[derive(Clone, Copy, Debug)]
pub struct Theme {
    /// The background that is painted at the top of the page, RGB.
    pub bg: [u8; 3],
    /// A foreground that stays readable on `bg`, RGB.
    pub fg: [u8; 3],
    pub dark: bool,
}

/// A colour as a style sheet has it.
pub open spec fn css(colour: Seq<u8>) -> Seq<char> {
    "rgb("@ + decimal(colour[0] as nat) + ","@ + decimal(colour[1] as nat) + ","@ + decimal(
        colour[2] as nat,
    ) + ")"@
}

fn css_text(colour: [u8; 3]) -> (text: String)
    ensures
        text@ == css(colour@),
{
    let red = decimal_text(colour[0] as u64);
    let green = decimal_text(colour[1] as u64);
    let blue = decimal_text(colour[2] as u64);
    let mut text = cat5("rgb(", red.as_str(), ",", green.as_str(), ",");
    text.append(blue.as_str());
    text.append(")");
    text
}

impl Default for Theme {
    /// dsh's dark sidebar, used until the page reports its colours.
    fn default() -> (theme: Self)
        ensures
            theme.bg@ == seq![27u8, 27, 28],
            theme.fg@ == seq![255u8, 255, 255],
            theme.dark,
    {
        Theme { bg: [27, 27, 28], fg: [255, 255, 255], dark: true }
    }
}

impl Theme {
    pub fn css_bg(&self) -> (text: String)
        ensures
            text@ == css(self.bg@),
    {
        css_text(self.bg)
    }

    pub fn css_fg(&self) -> (text: String)
        ensures
            text@ == css(self.fg@),
    {
        css_text(self.fg)
    }
}

/// The script that hands two colours to the self-drawn title bar.
pub open spec fn theme_script(bg: Seq<u8>, fg: Seq<u8>) -> Seq<char> {
    "window.__dshApplyTheme && window.__dshApplyTheme("@ + quoted(css(bg)) + ", "@ + quoted(css(fg))
        + ")"@
}

/// The script that hands a theme to the self-drawn title bar.
pub fn apply_theme(theme: Theme) -> (script: String)
    ensures
        script@ == theme_script(theme.bg@, theme.fg@),
        script@ == "window.__dshApplyTheme && window.__dshApplyTheme("@ + quoted(css(theme.bg@))
            + ", "@ + quoted(css(theme.fg@)) + ")"@,
{
    let bg = or_empty_literal(quote(theme.css_bg().as_str()));
    let fg = or_empty_literal(quote(theme.css_fg().as_str()));
    cat5(
        "window.__dshApplyTheme && window.__dshApplyTheme(",
        bg.as_str(),
        ", ",
        fg.as_str(),
        ")",
    )
}

/// A quoted text, or an empty literal where quoting failed.
pub(crate) fn or_empty_literal(literal: Option<String>) -> (text: String)
    ensures
        literal matches Some(l) ==> text@ == l@,
        literal is None ==> text@ == "\"\""@,
{
    match literal {
        Some(literal) => literal,
        None => "\"\"".to_string(),
    }
}

// ---------------------------------------------------------------- the window frame

/// A colour as the window manager has it: `0x00BBGGRR`.
pub open spec fn colorref(colour: Seq<u8>) -> nat {
    colour[0] as nat + 0x100 * (colour[1] as nat) + 0x10000 * (colour[2] as nat)
}

fn colorref_of(colour: [u8; 3]) -> (packed: u32)
    ensures
        packed == colorref(colour@),
{
    colour[0] as u32 + 0x100 * (colour[1] as u32) + 0x10000 * (colour[2] as u32)
}

/// The attributes of the window frame.
#[derive(Clone, Copy, Debug)]
pub struct FrameTint {
    pub dark_mode: u32,
    pub caption: u32,
    pub text: u32,
    pub border: u32,
}

/// The number by which the window manager is told whether a frame is dark.
pub open spec fn dark_flag(dark: bool) -> u32 {
    if dark {
        1
    } else {
        0
    }
}

/// The frame that goes with two colours.
pub open spec fn frame_for(bg: Seq<u8>, fg: Seq<u8>, dark: bool) -> FrameTint {
    FrameTint {
        dark_mode: dark_flag(dark),
        caption: colorref(bg) as u32,
        text: colorref(fg) as u32,
        border: colorref(bg) as u32,
    }
}

/// The frame that goes with a theme: caption and border take the background, the text
/// takes the foreground.
pub fn theme_titlebar(theme: Theme) -> (tint: FrameTint)
    ensures
        tint.dark_mode == if theme.dark {
            1u32
        } else {
            0u32
        },
        tint.dark_mode == dark_flag(theme.dark),
        tint.caption == colorref(theme.bg@),
        tint.text == colorref(theme.fg@),
        tint.border == colorref(theme.bg@),
        tint == frame_for(theme.bg@, theme.fg@, theme.dark),
{
    let bg = colorref_of(theme.bg);
    FrameTint {
        dark_mode: if theme.dark {
            1
        } else {
            0
        },
        caption: bg,
        text: colorref_of(theme.fg),
        border: bg,
    }
}

// ---------------------------------------------------------------- the title marker

/// The number that a hexadecimal digit stands for.
pub open spec fn hex_value(c: char) -> Option<nat> {
    if '0' <= c <= '9' {
        Some((c as nat - '0' as nat) as nat)
    } else if 'a' <= c <= 'f' {
        Some((c as nat - 'a' as nat + 10) as nat)
    } else if 'A' <= c <= 'F' {
        Some((c as nat - 'A' as nat + 10) as nat)
    } else {
        None
    }
}

/// Two characters read as a byte in base sixteen.
pub open spec fn hex_byte(high: char, low: char) -> Option<nat> {
    match (hex_value(high), hex_value(low)) {
        (Some(h), Some(l)) => Some(h * 16 + l),
        _ => None,
    }
}

/// Whether the six characters from `at` on spell the three bytes of `colour`.
pub open spec fn spells(s: Seq<char>, at: int, colour: Seq<u8>) -> bool {
    &&& colour.len() == 3
    &&& forall|k: int|
        0 <= k < 3 ==> hex_byte(s[at + 2 * k], s[at + 2 * k + 1]) == Some(
            #[trigger] colour[k] as nat,
        )
}

/// Whether a title begins with `[dsh:`, a background, `:`, a foreground and `]`.
pub open spec fn marked_with(title: Seq<char>, bg: Seq<u8>, fg: Seq<u8>) -> bool {
    &&& title.len() >= 19
    &&& occurs_at(title, "[dsh:"@, 0)
    &&& spells(title, 5, bg)
    &&& title[11] == ':'
    &&& spells(title, 12, fg)
    &&& title[18] == ']'
}

/// Whether text on this background has to be light: the weighted sum of its parts is
/// below 130. In single precision the sum of one colour, exactly 130, comes out lower.
pub open spec fn reads_dark(bg: Seq<u8>) -> bool {
    ||| 299 * bg[0] + 587 * bg[1] + 114 * bg[2] < 130000
    ||| bg == seq![133u8, 151, 14]
}

fn hex_digit_of(c: char) -> (digit: Option<u8>)
    ensures
        match digit {
            Some(d) => hex_value(c) == Some(d as nat) && d < 16,
            None => hex_value(c) is None,
        },
{
    if '0' <= c && c <= '9' {
        Some(c as u8 - 48)
    } else if 'a' <= c && c <= 'f' {
        Some(c as u8 - 97 + 10)
    } else if 'A' <= c && c <= 'F' {
        Some(c as u8 - 65 + 10)
    } else {
        None
    }
}

fn hex_byte_of(high: char, low: char) -> (byte: Option<u8>)
    ensures
        match byte {
            Some(b) => hex_byte(high, low) == Some(b as nat),
            None => hex_byte(high, low) is None,
        },
{
    match (hex_digit_of(high), hex_digit_of(low)) {
        (Some(h), Some(l)) => Some(h * 16 + l),
        _ => None,
    }
}

fn colour_at(chars: &Vec<char>, at: usize) -> (colour: Option<[u8; 3]>)
    requires
        at + 6 <= chars.len(),
    ensures
        match colour {
            Some(c) => spells(chars@, at as int, c@),
            None => forall|c: Seq<u8>| !spells(chars@, at as int, c),
        },
{
    let first = hex_byte_of(chars[at], chars[at + 1]);
    let second = hex_byte_of(chars[at + 2], chars[at + 3]);
    let third = hex_byte_of(chars[at + 4], chars[at + 5]);
    match (first, second, third) {
        (Some(red), Some(green), Some(blue)) => Some([red, green, blue]),
        _ => {
            proof {
                assert forall|c: Seq<u8>| !spells(chars@, at as int, c) by {
                    if spells(chars@, at as int, c) {
                        let a = c[0];
                        let b = c[1];
                        let d = c[2];
                        assert(false);
                    }
                }
            }
            None
        },
    }
}

/// Parses the `[dsh:RRGGBB:RRGGBB]` prefix that the page writes into its title when it
/// has no other way to report its colours. Gives the theme, and the length of the
/// marker in bytes so that the caller can strip it.
///
/// The marker has a fixed width, so anything that does not match it exactly is an
/// ordinary title.
pub fn parse_title_marker(title: &str) -> (parsed: Option<(Theme, usize)>)
    ensures
        match parsed {
            Some((theme, len)) => {
                &&& marked_with(title@, theme.bg@, theme.fg@)
                &&& theme.dark == reads_dark(theme.bg@)
                &&& len == encode_utf8(title@.take(19)).len()
                &&& len == 19
            },
            None => forall|bg: Seq<u8>, fg: Seq<u8>| !marked_with(title@, bg, fg),
        },
{
    let chars = chars_of(title);
    if chars.len() < 19 || !starts_with(&chars, "[dsh:") || chars[11] != ':' || chars[18] != ']' {
        return None;
    }
    let bg = match colour_at(&chars, 5) {
        Some(colour) => colour,
        None => {
            return None;
        },
    };
    let fg = match colour_at(&chars, 12) {
        Some(colour) => colour,
        None => {
            return None;
        },
    };
    let sum: u32 = 299 * (bg[0] as u32) + 587 * (bg[1] as u32) + 114 * (bg[2] as u32);
    let dark: bool = sum < 130000 || (bg[0] == 133 && bg[1] == 151 && bg[2] == 14);
    proof {
        assert((bg[0] == 133 && bg[1] == 151 && bg[2] == 14) == (bg@ =~= seq![133u8, 151, 14]));
        lemma_marker_is_ascii(title@, bg@, fg@);
    }
    Some((Theme { bg, fg, dark }, 19))
}

proof fn lemma_marker_is_ascii(title: Seq<char>, bg: Seq<u8>, fg: Seq<u8>)
    requires
        marked_with(title, bg, fg),
    ensures
        encode_utf8(title.take(19)).len() == 19,
{
    reveal_strlit("[dsh:");
    let marker = title.take(19);
    assert(is_ascii_chars(marker)) by {
        let a = bg[0];
        let b = bg[1];
        let c = bg[2];
        let d = fg[0];
        let e = fg[1];
        let f = fg[2];
        assert forall|k: int| 0 <= k < 5 implies title[k] == "[dsh:"@[k] by {
            assert(title.subrange(0, 5)[k] == "[dsh:"@[k]);
        }
    }
    is_ascii_chars_encode_utf8(marker);
}

/// A title carries at most one theme.
pub proof fn law_marker_is_unambiguous(
    title: Seq<char>,
    bg: Seq<u8>,
    fg: Seq<u8>,
    other_bg: Seq<u8>,
    other_fg: Seq<u8>,
)
    requires
        marked_with(title, bg, fg),
        marked_with(title, other_bg, other_fg),
    ensures
        bg == other_bg,
        fg == other_fg,
{
    assert forall|k: int| 0 <= k < 3 implies bg[k] == other_bg[k] && fg[k] == other_fg[k] by {
        assert(Some(bg[k] as nat) == Some(other_bg[k] as nat));
        assert(Some(fg[k] as nat) == Some(other_fg[k] as nat));
    }
    assert(bg =~= other_bg);
    assert(fg =~= other_fg);
}

// ---------------------------------------------------------------- colours

/// A colour as a style sheet has it is `rgb(`, three numbers with a comma between them,
/// and `)`; the numbers read back as the parts of the colour, each in its place.
pub proof fn law_css_reads_back(colour: Seq<u8>)
    requires
        colour.len() == 3,
    ensures
        begins(css(colour), "rgb("@),
        css(colour).last() == ')',
        split(css(colour).skip(4).drop_last(), ',').len() == 3,
        forall|k: int|
            0 <= k < 3 ==> numeral(#[trigger] split(css(colour).skip(4).drop_last(), ',')[k])
                && value(split(css(colour).skip(4).drop_last(), ',')[k]) == colour[k],
{
    reveal_strlit("rgb(");
    reveal_strlit(",");
    reveal_strlit(")");
    let a = decimal(colour[0] as nat);
    let b = decimal(colour[1] as nat);
    let c = decimal(colour[2] as nat);
    lemma_no_comma(colour[0] as nat);
    lemma_no_comma(colour[1] as nat);
    lemma_no_comma(colour[2] as nat);
    let inner = a + seq![','] + b + seq![','] + c;
    assert(css(colour).take(4) =~= "rgb("@);
    assert(css(colour).skip(4).drop_last() =~= inner);
    law_each_separator_begins_a_piece(a, ',', a);
    law_each_separator_begins_a_piece(a, ',', b);
    law_each_separator_begins_a_piece(a + seq![','] + b, ',', c);
    let pieces = split(inner, ',');
    assert(pieces =~= seq![a, b, c]);
    assert(pieces[0] == a && pieces[1] == b && pieces[2] == c);
}

/// The script hands on both colours, the background first.
pub proof fn law_script_hands_on_both_colours(bg: Seq<u8>, fg: Seq<u8>)
    ensures
        exists|a: Seq<char>, b: Seq<char>| #[trigger]
            made_of(theme_script(bg, fg), a, quoted(css(bg)), b) && has_part(b, quoted(css(fg)))
                && !has_part(a, quoted(css(fg))),
{
    let a = "window.__dshApplyTheme && window.__dshApplyTheme("@;
    let b = ", "@ + quoted(css(fg)) + ")"@;
    law_parts_are_found(", "@, quoted(css(fg)), ")"@);
    assert(theme_script(bg, fg) =~= a + quoted(css(bg)) + b);
    assert(made_of(theme_script(bg, fg), a, quoted(css(bg)), b));
    reveal_strlit("window.__dshApplyTheme && window.__dshApplyTheme(");
    if has_part(a, quoted(css(fg))) {
        let at = choose|at: int| occurs_at(a, quoted(css(fg)), at);
        assert(a.subrange(at, at + quoted(css(fg)).len() as int)[0] == '"');
        assert(a[at] == '"');
        assert(false);
    }
}

proof fn lemma_no_comma(n: nat)
    ensures
        numeral(decimal(n)),
        value(decimal(n)) == n,
        forall|i: int| 0 <= i < decimal(n).len() ==> #[trigger] decimal(n)[i] != ',',
{
    law_decimal_reads_back(n);
    assert forall|i: int| 0 <= i < decimal(n).len() implies #[trigger] decimal(n)[i] != ',' by {
        assert(digit(decimal(n)[i]));
    }
}

/// A colour as the window manager has it holds each part in a byte of its own: red in the
/// lowest, blue in the highest.
pub proof fn law_colorref_holds_each_part(colour: Seq<u8>)
    ensures
        colorref(colour) % 256 == colour[0],
        (colorref(colour) / 256) % 256 == colour[1],
        colorref(colour) / 65536 == colour[2],
        dark_flag(true) != 0,
        dark_flag(false) == 0,
{
}

/// The background is in the caption and the border of the frame, the foreground in its text,
/// each part in its byte.
pub proof fn law_frame_takes_the_colours(bg: Seq<u8>, fg: Seq<u8>, dark: bool)
    ensures
        frame_for(bg, fg, dark).caption % 256 == bg[0],
        (frame_for(bg, fg, dark).caption / 256) % 256 == bg[1],
        frame_for(bg, fg, dark).caption / 65536 == bg[2],
        frame_for(bg, fg, dark).border == frame_for(bg, fg, dark).caption,
        frame_for(bg, fg, dark).text == frame_for(fg, bg, dark).caption,
        frame_for(bg, fg, dark).dark_mode == 0 <==> !dark,
{
}

/// Text has to be light on a background if and only if the red, green and blue of it,
/// weighted 299, 587 and 114 in a thousand, come to less than 130, but for one colour that
/// comes to just that. So black is dark, white is not, and what is darker in every part
/// than a dark background is dark.
pub proof fn law_dark_goes_by_weight(bg: Seq<u8>, darker: Seq<u8>)
    requires
        bg.len() == 3,
        darker.len() == 3,
    ensures
        299 * bg[0] + 587 * bg[1] + 114 * bg[2] < 130 * 1000 ==> reads_dark(bg),
        299 * bg[0] + 587 * bg[1] + 114 * bg[2] > 130 * 1000 ==> !reads_dark(bg),
        299 * bg[0] + 587 * bg[1] + 114 * bg[2] == 130 * 1000 ==> (reads_dark(bg) <==> bg[0] == 133
            && bg[1] == 151 && bg[2] == 14),
        reads_dark(bg) && darker[0] <= bg[0] && darker[1] <= bg[1] && darker[2] <= bg[2]
            ==> reads_dark(darker),
        reads_dark(seq![0u8, 0, 0]),
        !reads_dark(seq![255u8, 255, 255]),
{
    if bg[0] == 133 && bg[1] == 151 && bg[2] == 14 {
        assert(bg =~= seq![133u8, 151, 14]);
    }
    if darker[0] == 133 && darker[1] == 151 && darker[2] == 14 {
        assert(darker =~= seq![133u8, 151, 14]);
    }
    assert(seq![255u8, 255, 255][0] == 255);
}

// ---------------------------------------------------------------- the marker

/// A digit of base sixteen counts from zero to fifteen, in either case of its letters;
/// nothing else is one.
pub proof fn law_hex_digits(c: char)
    ensures
        0x30 <= c as int <= 0x39 ==> hex_value(c) == Some((c as int - 0x30) as nat),
        0x61 <= c as int <= 0x66 ==> hex_value(c) == Some((c as int - 0x61 + 10) as nat),
        0x41 <= c as int <= 0x46 ==> hex_value(c) == Some((c as int - 0x41 + 10) as nat),
        c as int <= 0x2f || 0x3a <= c as int <= 0x40 || 0x47 <= c as int <= 0x60 || 0x67
            <= c as int ==> hex_value(c) is None,
{
}

/// Whether six digits are the three bytes of a colour, the high digit of each in front.
pub open spec fn six_digits(text: Seq<char>, colour: Seq<u8>) -> bool {
    &&& text.len() == 6
    &&& colour.len() == 3
    &&& hex_value(text[0]) matches Some(h) && hex_value(text[1]) matches Some(l) && 16 * h + l
        == colour[0]
    &&& hex_value(text[2]) matches Some(h) && hex_value(text[3]) matches Some(l) && 16 * h + l
        == colour[1]
    &&& hex_value(text[4]) matches Some(h) && hex_value(text[5]) matches Some(l) && 16 * h + l
        == colour[2]
}

/// A title bears a marker if and only if it is `[dsh:`, six digits, a colon, six digits and
/// `]`, whatever follows: the first six are the background, the others the foreground.
pub proof fn law_marker_is_read_as_it_is_written(title: Seq<char>, bg: Seq<u8>, fg: Seq<u8>)
    ensures
        marked_with(title, bg, fg) <==> exists|x: Seq<char>, y: Seq<char>, rest: Seq<char>|
            #[trigger] marker_with(title, x, y, rest) && six_digits(x, bg) && six_digits(y, fg),
{
    reveal_strlit("[dsh:");
    reveal_strlit(":");
    reveal_strlit("]");
    if marked_with(title, bg, fg) {
        let x = title.subrange(5, 11);
        let y = title.subrange(12, 18);
        let rest = title.skip(19);
        assert(title.subrange(0, 5) =~= "[dsh:"@);
        assert forall|k: int| 0 <= k < 5 implies title[k] == "[dsh:"@[k] by {
            assert(title.subrange(0, 5)[k] == title[k]);
        }
        assert(title =~= "[dsh:"@ + x + ":"@ + y + "]"@ + rest);
        let (a, b, c) = (bg[0], bg[1], bg[2]);
        let (d, e, f) = (fg[0], fg[1], fg[2]);
        assert(six_digits(x, bg));
        assert(six_digits(y, fg));
        assert(marker_with(title, x, y, rest));
    }
    if exists|x: Seq<char>, y: Seq<char>, rest: Seq<char>| #[trigger]
        marker_with(title, x, y, rest) && six_digits(x, bg) && six_digits(y, fg) {
        let (x, y, rest) = choose|x: Seq<char>, y: Seq<char>, rest: Seq<char>| #[trigger]
            marker_with(title, x, y, rest) && six_digits(x, bg) && six_digits(y, fg);
        assert(title.subrange(0, 5) =~= "[dsh:"@);
        assert forall|k: int| 0 <= k < 6 implies title[5 + k] == x[k] && title[12 + k] == y[k] by {
        }
        assert(title[5] == x[0] && title[6] == x[1] && title[7] == x[2] && title[8] == x[3]);
        assert(title[9] == x[4] && title[10] == x[5]);
        assert(title[12] == y[0] && title[13] == y[1] && title[14] == y[2] && title[15] == y[3]);
        assert(title[16] == y[4] && title[17] == y[5]);
        assert(spells(title, 5, bg));
        assert(spells(title, 12, fg));
    }
}

/// Whether a title is a marker with those digits, and then `rest`.
pub open spec fn marker_with(
    title: Seq<char>,
    x: Seq<char>,
    y: Seq<char>,
    rest: Seq<char>,
) -> bool {
    title == "[dsh:"@ + x + ":"@ + y + "]"@ + rest
}

} // verus!
