//! Colours and text styles, and the ANSI escape sequences that stand for
//! them on a terminal.

use vstd::prelude::*;
use vstd::string::StringExecFns;
use crate::text::{
    char_at, chars_of, nat_text, push_nat, same_text, to_lowercase, unicode_lowercase,
};

verus! {

/// A colour, in one of four notations.
#[derive(Debug, Clone)]
pub enum Color {
    /// A colour by name, in any case: `red`, `Bright Blue`, `grey`.
    Named(String),
    /// Red, green and blue.
    RGB(u8, u8, u8),
    /// Six hexadecimal digits, with or without `#` in front.
    Hex(String),
    /// A colour of the 256-colour palette.
    Ansi(u8),
}

impl Default for Color {
    fn default() -> (c: Color)
        ensures
            c is Named,
            c->Named_0@ == "white"@,
    {
        Color::Named("white".to_owned())
    }
}

/// The escape sequence with these parameters: `ESC [`, the parameters, `m`.
pub open spec fn sgr(params: Seq<char>) -> Seq<char> {
    "\x1b["@ + params + "m"@
}

/// The sequence that puts an end to every colour and style.
pub open spec fn reset_code() -> Seq<char> {
    "\x1b[0m"@
}

/// The number of a named colour, from its name in lower case: 0 to 7 for the
/// eight standard colours, 60 to 67 for their bright forms.
pub open spec fn named_code(lower: Seq<char>) -> Option<nat> {
    if lower == "black"@ {
        Some(0)
    } else if lower == "red"@ {
        Some(1)
    } else if lower == "green"@ {
        Some(2)
    } else if lower == "yellow"@ {
        Some(3)
    } else if lower == "blue"@ {
        Some(4)
    } else if lower == "magenta"@ {
        Some(5)
    } else if lower == "cyan"@ {
        Some(6)
    } else if lower == "white"@ {
        Some(7)
    } else if lower == "bright black"@ || lower == "brightblack"@ || lower == "gray"@ || lower
        == "grey"@ {
        Some(60)
    } else if lower == "bright red"@ || lower == "brightred"@ {
        Some(61)
    } else if lower == "bright green"@ || lower == "brightgreen"@ {
        Some(62)
    } else if lower == "bright yellow"@ || lower == "brightyellow"@ {
        Some(63)
    } else if lower == "bright blue"@ || lower == "brightblue"@ {
        Some(64)
    } else if lower == "bright magenta"@ || lower == "brightmagenta"@ {
        Some(65)
    } else if lower == "bright cyan"@ || lower == "brightcyan"@ {
        Some(66)
    } else if lower == "bright white"@ || lower == "brightwhite"@ {
        Some(67)
    } else {
        None
    }
}

/// The value of a hexadecimal digit, in either case.
pub open spec fn hex_value(c: char) -> Option<nat> {
    if '0' <= c <= '9' {
        Some((c as int - '0' as int) as nat)
    } else if 'a' <= c <= 'f' {
        Some((c as int - 'a' as int + 10) as nat)
    } else if 'A' <= c <= 'F' {
        Some((c as int - 'A' as int + 10) as nat)
    } else {
        None
    }
}

/// The byte that two characters denote in base 16: two hexadecimal digits,
/// or a plus sign and one digit.
pub open spec fn hex_pair(a: char, b: char) -> Option<u8> {
    match hex_value(b) {
        Some(low) => if a == '+' {
            Some(low as u8)
        } else {
            match hex_value(a) {
                Some(high) => Some((high * 16 + low) as u8),
                None => None,
            }
        },
        None => None,
    }
}

/// How many `#` characters `s` starts with.
pub open spec fn hashes(s: Seq<char>) -> nat
    decreases s.len(),
{
    if s.len() > 0 && s[0] == '#' {
        1 + hashes(s.subrange(1, s.len() as int))
    } else {
        0
    }
}

/// The three bytes that a colour in hexadecimal notation denotes: after any
/// `#` in front, exactly three pairs.
pub open spec fn hex_rgb(s: Seq<char>) -> Option<(u8, u8, u8)> {
    let digits = s.subrange(hashes(s) as int, s.len() as int);
    if digits.len() == 6 {
        match (
            hex_pair(digits[0], digits[1]),
            hex_pair(digits[2], digits[3]),
            hex_pair(digits[4], digits[5]),
        ) {
            (Some(r), Some(g), Some(b)) => Some((r, g, b)),
            _ => None,
        }
    } else {
        None
    }
}

/// The parameters that select a true colour: the prefix, `2`, and the three
/// components.
pub open spec fn rgb_params(prefix: u8, r: u8, g: u8, b: u8) -> Seq<char> {
    nat_text(prefix as nat) + ";2;"@ + nat_text(r as nat) + ";"@ + nat_text(g as nat) + ";"@
        + nat_text(b as nat)
}

/// The escape sequence that selects `color`, as foreground with prefix 38
/// and as background with prefix 48. A name that is no colour and a
/// hexadecimal notation that denotes none give the empty text.
pub open spec fn color_code(color: Color, prefix: u8) -> Seq<char> {
    match color {
        Color::Named(name) => match named_code(unicode_lowercase(name@)) {
            Some(code) => sgr(
                nat_text(
                    code + if prefix == 48 {
                        40nat
                    } else {
                        30nat
                    },
                ),
            ),
            None => Seq::empty(),
        },
        Color::RGB(r, g, b) => sgr(rgb_params(prefix, r, g, b)),
        Color::Hex(hex) => match hex_rgb(hex@) {
            Some((r, g, b)) => sgr(rgb_params(prefix, r, g, b)),
            None => Seq::empty(),
        },
        Color::Ansi(code) => sgr(nat_text(prefix as nat) + ";5;"@ + nat_text(code as nat)),
    }
}

fn named_number(lower: &str) -> (r: Option<u8>)
    ensures
        match r {
            Some(code) => named_code(lower@) == Some(code as nat),
            None => named_code(lower@) is None,
        },
{
    if same_text(lower, "black") {
        Some(0)
    } else if same_text(lower, "red") {
        Some(1)
    } else if same_text(lower, "green") {
        Some(2)
    } else if same_text(lower, "yellow") {
        Some(3)
    } else if same_text(lower, "blue") {
        Some(4)
    } else if same_text(lower, "magenta") {
        Some(5)
    } else if same_text(lower, "cyan") {
        Some(6)
    } else if same_text(lower, "white") {
        Some(7)
    } else if same_text(lower, "bright black") || same_text(lower, "brightblack") || same_text(
        lower,
        "gray",
    ) || same_text(lower, "grey") {
        Some(60)
    } else if same_text(lower, "bright red") || same_text(lower, "brightred") {
        Some(61)
    } else if same_text(lower, "bright green") || same_text(lower, "brightgreen") {
        Some(62)
    } else if same_text(lower, "bright yellow") || same_text(lower, "brightyellow") {
        Some(63)
    } else if same_text(lower, "bright blue") || same_text(lower, "brightblue") {
        Some(64)
    } else if same_text(lower, "bright magenta") || same_text(lower, "brightmagenta") {
        Some(65)
    } else if same_text(lower, "bright cyan") || same_text(lower, "brightcyan") {
        Some(66)
    } else if same_text(lower, "bright white") || same_text(lower, "brightwhite") {
        Some(67)
    } else {
        None
    }
}

fn hex_digit(c: char) -> (r: Option<u8>)
    ensures
        match r {
            Some(v) => hex_value(c) == Some(v as nat) && v < 16,
            None => hex_value(c) is None,
        },
{
    if '0' <= c && c <= '9' {
        Some((c as u32 - '0' as u32) as u8)
    } else if 'a' <= c && c <= 'f' {
        Some((c as u32 - 'a' as u32 + 10) as u8)
    } else if 'A' <= c && c <= 'F' {
        Some((c as u32 - 'A' as u32 + 10) as u8)
    } else {
        None
    }
}

fn parse_hex_pair(a: char, b: char) -> (r: Option<u8>)
    ensures
        r == hex_pair(a, b),
{
    match hex_digit(b) {
        Some(low) => if a == '+' {
            Some(low)
        } else {
            match hex_digit(a) {
                Some(high) => Some(high * 16 + low),
                None => None,
            }
        },
        None => None,
    }
}

/// Reads a colour in hexadecimal notation.
pub fn parse_hex(hex: &str) -> (r: Option<(u8, u8, u8)>)
    ensures
        r == hex_rgb(hex@),
{
    let v = chars_of(hex);
    let mut start: usize = 0;
    assert(v@.subrange(0, v.len() as int) =~= v@);
    while start < v.len() && char_at(&v, start) == '#'
        invariant
            start <= v.len(),
            start + hashes(v@.subrange(start as int, v.len() as int)) == hashes(v@),
        decreases v.len() - start,
    {
        proof {
            let rest = v@.subrange(start as int, v.len() as int);
            assert(rest[0] == v@[start as int]);
            assert(rest.subrange(1, rest.len() as int) =~= v@.subrange(
                start + 1,
                v.len() as int,
            ));
        }
        start += 1;
    }
    proof {
        let rest = v@.subrange(start as int, v.len() as int);
        if start < v.len() {
            assert(rest[0] == v@[start as int]);
        }
        assert(hashes(rest) == 0);
        assert(v@.subrange(0, v.len() as int) =~= v@);
    }
    if v.len() - start != 6 {
        return None;
    }
    let ghost digits = v@.subrange(start as int, v.len() as int);
    assert(forall|k: int| 0 <= k < 6 ==> digits[k] == v@[start + k]);
    let r = parse_hex_pair(char_at(&v, start), char_at(&v, start + 1));
    let g = parse_hex_pair(char_at(&v, start + 2), char_at(&v, start + 3));
    let b = parse_hex_pair(char_at(&v, start + 4), char_at(&v, start + 5));
    match (r, g, b) {
        (Some(r), Some(g), Some(b)) => Some((r, g, b)),
        _ => None,
    }
}

fn rgb_sequence(prefix: u8, r: u8, g: u8, b: u8) -> (out: String)
    ensures
        out@ == sgr(rgb_params(prefix, r, g, b)),
{
    let mut out = String::new();
    out.append("\x1b[");
    push_nat(&mut out, prefix as u64);
    out.append(";2;");
    push_nat(&mut out, r as u64);
    out.append(";");
    push_nat(&mut out, g as u64);
    out.append(";");
    push_nat(&mut out, b as u64);
    out.append("m");
    assert(out@ =~= sgr(rgb_params(prefix, r, g, b)));
    out
}

impl Color {
    /// The escape sequence that makes this colour the foreground.
    pub fn to_ansi_foreground(&self) -> (code: String)
        ensures
            code@ == color_code(*self, 38),
    {
        self.to_ansi_with_prefix(38)
    }

    /// The escape sequence that makes this colour the background.
    pub fn to_ansi_background(&self) -> (code: String)
        ensures
            code@ == color_code(*self, 48),
    {
        self.to_ansi_with_prefix(48)
    }

    /// The escape sequence that selects this colour, for the foreground
    /// with prefix 38 and for the background with prefix 48.
    pub fn to_ansi_with_prefix(&self, prefix: u8) -> (code: String)
        ensures
            code@ == color_code(*self, prefix),
    {
        match self {
            Color::Named(name) => {
                let lower = to_lowercase(name.as_str());
                match named_number(lower.as_str()) {
                    Some(number) => {
                        let base: u64 = if prefix == 48 {
                            40
                        } else {
                            30
                        };
                        let mut out = String::new();
                        out.append("\x1b[");
                        push_nat(&mut out, base + number as u64);
                        out.append("m");
                        assert(out@ =~= color_code(*self, prefix));
                        out
                    },
                    None => String::new(),
                }
            },
            Color::RGB(r, g, b) => rgb_sequence(prefix, *r, *g, *b),
            Color::Hex(hex) => match parse_hex(hex.as_str()) {
                Some((r, g, b)) => rgb_sequence(prefix, r, g, b),
                None => String::new(),
            },
            Color::Ansi(code) => {
                let mut out = String::new();
                out.append("\x1b[");
                push_nat(&mut out, prefix as u64);
                out.append(";5;");
                push_nat(&mut out, *code as u64);
                out.append("m");
                assert(out@ =~= color_code(*self, prefix));
                out
            },
        }
    }
}

/// A way of setting text.
#[derive(Debug, Clone, Copy, PartialEq, Eq)]
pub enum TextStyle {
    Normal,
    Bold,
    Italic,
    Underline,
    Dim,
    Strikethrough,
    Blink,
    Inverse,
    Conceal,
    CrossedOut,
    DoubleUnderline,
}

impl Default for TextStyle {
    fn default() -> (s: TextStyle)
        ensures
            s == TextStyle::Normal,
    {
        TextStyle::Normal
    }
}

/// The escape sequence that selects a text style; none for normal text.
pub open spec fn text_style_code(style: TextStyle) -> Seq<char> {
    match style {
        TextStyle::Normal => ""@,
        TextStyle::Bold => "\x1b[1m"@,
        TextStyle::Italic => "\x1b[3m"@,
        TextStyle::Underline => "\x1b[4m"@,
        TextStyle::Dim => "\x1b[2m"@,
        TextStyle::Strikethrough => "\x1b[9m"@,
        TextStyle::Blink => "\x1b[5m"@,
        TextStyle::Inverse => "\x1b[7m"@,
        TextStyle::Conceal => "\x1b[8m"@,
        TextStyle::CrossedOut => "\x1b[9m"@,
        TextStyle::DoubleUnderline => "\x1b[21m"@,
    }
}

/// The text style that a word stands for, from the word in lower case.
pub open spec fn text_style_named(lower: Seq<char>) -> Option<TextStyle> {
    if lower == "normal"@ {
        Some(TextStyle::Normal)
    } else if lower == "bold"@ {
        Some(TextStyle::Bold)
    } else if lower == "italic"@ {
        Some(TextStyle::Italic)
    } else if lower == "underline"@ {
        Some(TextStyle::Underline)
    } else if lower == "dim"@ {
        Some(TextStyle::Dim)
    } else if lower == "strikethrough"@ {
        Some(TextStyle::Strikethrough)
    } else if lower == "blink"@ {
        Some(TextStyle::Blink)
    } else if lower == "inverse"@ {
        Some(TextStyle::Inverse)
    } else if lower == "conceal"@ {
        Some(TextStyle::Conceal)
    } else if lower == "crossed out"@ || lower == "crossedout"@ || lower == "crossed_out"@ {
        Some(TextStyle::CrossedOut)
    } else if lower == "double underline"@ || lower == "doubleunderline"@ || lower
        == "double_underline"@ {
        Some(TextStyle::DoubleUnderline)
    } else {
        None
    }
}

impl TextStyle {
    /// The escape sequence that selects this style.
    pub fn to_ansi(&self) -> (code: &'static str)
        ensures
            code@ == text_style_code(*self),
    {
        match self {
            TextStyle::Normal => "",
            TextStyle::Bold => "\x1b[1m",
            TextStyle::Italic => "\x1b[3m",
            TextStyle::Underline => "\x1b[4m",
            TextStyle::Dim => "\x1b[2m",
            TextStyle::Strikethrough => "\x1b[9m",
            TextStyle::Blink => "\x1b[5m",
            TextStyle::Inverse => "\x1b[7m",
            TextStyle::Conceal => "\x1b[8m",
            TextStyle::CrossedOut => "\x1b[9m",
            TextStyle::DoubleUnderline => "\x1b[21m",
        }
    }

    /// The style that a word of a configuration stands for, in any case.
    pub fn from_name(name: &str) -> (r: Option<TextStyle>)
        ensures
            r == text_style_named(unicode_lowercase(name@)),
    {
        let lowered = to_lowercase(name);
        let lower = lowered.as_str();
        if same_text(lower, "normal") {
            Some(TextStyle::Normal)
        } else if same_text(lower, "bold") {
            Some(TextStyle::Bold)
        } else if same_text(lower, "italic") {
            Some(TextStyle::Italic)
        } else if same_text(lower, "underline") {
            Some(TextStyle::Underline)
        } else if same_text(lower, "dim") {
            Some(TextStyle::Dim)
        } else if same_text(lower, "strikethrough") {
            Some(TextStyle::Strikethrough)
        } else if same_text(lower, "blink") {
            Some(TextStyle::Blink)
        } else if same_text(lower, "inverse") {
            Some(TextStyle::Inverse)
        } else if same_text(lower, "conceal") {
            Some(TextStyle::Conceal)
        } else if same_text(lower, "crossed out") || same_text(lower, "crossedout") || same_text(
            lower,
            "crossed_out",
        ) {
            Some(TextStyle::CrossedOut)
        } else if same_text(lower, "double underline") || same_text(lower, "doubleunderline")
            || same_text(lower, "double_underline") {
            Some(TextStyle::DoubleUnderline)
        } else {
            None
        }
    }
}

/// The escape sequences of a list of text styles, one after the other.
pub open spec fn text_styles_code(styles: Seq<TextStyle>) -> Seq<char>
    decreases styles.len(),
{
    if styles.len() == 0 {
        Seq::empty()
    } else {
        text_styles_code(styles.drop_last()) + text_style_code(styles.last())
    }
}

/// A foreground, a background and text styles; each may be left out.
#[derive(Debug, Clone)]
pub struct Style {
    pub foreground: Option<Color>,
    pub background: Option<Color>,
    pub text: Option<Vec<TextStyle>>,
}

impl Default for Style {
    fn default() -> (s: Style)
        ensures
            s.foreground is None,
            s.background is None,
            s.text is None,
    {
        Style { foreground: None, background: None, text: None }
    }
}

/// The escape sequences that switch a style on: foreground, background,
/// then the text styles in order.
pub open spec fn style_prefix(style: Style) -> Seq<char> {
    (match style.foreground {
        Some(c) => color_code(c, 38),
        None => Seq::empty(),
    }) + (match style.background {
        Some(c) => color_code(c, 48),
        None => Seq::empty(),
    }) + (match style.text {
        Some(styles) => text_styles_code(styles@),
        None => Seq::empty(),
    })
}

/// A text in a style: the sequences that switch the style on, the text, and
/// the reset sequence. Where nothing is switched on, the text alone.
pub open spec fn styled(prefix: Seq<char>, s: Seq<char>) -> Seq<char> {
    if prefix.len() > 0 {
        prefix + s + reset_code()
    } else {
        s
    }
}

impl Style {
    /// `s` in this style.
    pub fn apply(&self, s: &str) -> (out: String)
        ensures
            out@ == styled(style_prefix(*self), s@),
    {
        let mut out = String::new();
        if let Some(fg) = &self.foreground {
            let code = fg.to_ansi_foreground();
            out.append(code.as_str());
        }
        if let Some(bg) = &self.background {
            let code = bg.to_ansi_background();
            out.append(code.as_str());
        }
        let ghost colors = out@;
        if let Some(styles) = &self.text {
            let mut i: usize = 0;
            assert(styles@.take(0) =~= Seq::<TextStyle>::empty());
            while i < styles.len()
                invariant
                    i <= styles.len(),
                    out@ == colors + text_styles_code(styles@.take(i as int)),
                decreases styles.len() - i,
            {
                proof {
                    assert(styles@.take(i + 1).drop_last() =~= styles@.take(i as int));
                }
                out.append(styles[i].to_ansi());
                i += 1;
            }
            assert(styles@.take(i as int) =~= styles@);
        }
        assert(out@ =~= style_prefix(*self));
        let applied = !out.as_str().is_empty();
        out.append(s);
        if applied {
            out.append("\x1b[0m");
        } else {
            assert(out@ =~= s@);
        }
        out
    }
}

/// A style for one variable of a listing.
pub type VariableStyle = Style;

/// A way of setting text, for a combined style.
#[derive(Debug, Clone, Copy, PartialEq, Eq)]
pub enum Text {
    Normal,
    Bold,
    Italic,
    Underline,
    Strikethrough,
    Blink,
    Inverse,
    Conceal,
    CrossedOut,
    DoubleUnderline,
}

impl Default for Text {
    fn default() -> (t: Text)
        ensures
            t == Text::Normal,
    {
        Text::Normal
    }
}

/// The text style that a [`Text`] stands for.
pub open spec fn text_style_of(text: Text) -> TextStyle {
    match text {
        Text::Normal => TextStyle::Normal,
        Text::Bold => TextStyle::Bold,
        Text::Italic => TextStyle::Italic,
        Text::Underline => TextStyle::Underline,
        Text::Strikethrough => TextStyle::Strikethrough,
        Text::Blink => TextStyle::Blink,
        Text::Inverse => TextStyle::Inverse,
        Text::Conceal => TextStyle::Conceal,
        Text::CrossedOut => TextStyle::CrossedOut,
        Text::DoubleUnderline => TextStyle::DoubleUnderline,
    }
}

impl Text {
    /// The escape sequence that selects this style.
    pub fn to_ansi(&self) -> (code: &'static str)
        ensures
            code@ == text_style_code(text_style_of(*self)),
    {
        match self {
            Text::Normal => "",
            Text::Bold => "\x1b[1m",
            Text::Italic => "\x1b[3m",
            Text::Underline => "\x1b[4m",
            Text::Strikethrough => "\x1b[9m",
            Text::Blink => "\x1b[5m",
            Text::Inverse => "\x1b[7m",
            Text::Conceal => "\x1b[8m",
            Text::CrossedOut => "\x1b[9m",
            Text::DoubleUnderline => "\x1b[21m",
        }
    }
}

/// A foreground, a background and one text style, all of them set.
#[derive(Debug, Clone)]
pub struct CombinedStyle {
    pub foreground: Color,
    pub background: Color,
    pub text: Text,
}

impl Default for CombinedStyle {
    fn default() -> (s: CombinedStyle)
        ensures
            s.foreground is Named,
            s.foreground->Named_0@ == "white"@,
            s.background is Named,
            s.background->Named_0@ == "white"@,
            s.text == Text::Normal,
    {
        CombinedStyle {
            foreground: Color::default(),
            background: Color::default(),
            text: Text::default(),
        }
    }
}

/// A text in a combined style: the sequences of the background, of the
/// foreground and of the text style, the text, and the reset sequence.
pub open spec fn combined(style: CombinedStyle, s: Seq<char>) -> Seq<char> {
    color_code(style.background, 48) + color_code(style.foreground, 38) + text_style_code(
        text_style_of(style.text),
    ) + s + reset_code()
}

impl CombinedStyle {
    /// White on white, in normal text.
    pub fn new() -> (s: CombinedStyle)
        ensures
            s.foreground is Named,
            s.foreground->Named_0@ == "white"@,
            s.background is Named,
            s.background->Named_0@ == "white"@,
            s.text == Text::Normal,
    {
        CombinedStyle::default()
    }

    /// This style with `color` as foreground.
    pub fn fg(self, color: Color) -> (s: CombinedStyle)
        ensures
            s.foreground == color,
            s.background == self.background,
            s.text == self.text,
    {
        CombinedStyle { foreground: color, background: self.background, text: self.text }
    }

    /// This style with `color` as background.
    pub fn bg(self, color: Color) -> (s: CombinedStyle)
        ensures
            s.foreground == self.foreground,
            s.background == color,
            s.text == self.text,
    {
        CombinedStyle { foreground: self.foreground, background: color, text: self.text }
    }

    /// This style with `text` as text style.
    pub fn text(self, text: Text) -> (s: CombinedStyle)
        ensures
            s.foreground == self.foreground,
            s.background == self.background,
            s.text == text,
    {
        CombinedStyle { foreground: self.foreground, background: self.background, text }
    }

    /// `val` in this style.
    pub fn apply(&self, val: &str) -> (out: String)
        ensures
            out@ == combined(*self, val@),
    {
        let mut out = self.background.to_ansi_background();
        let fg = self.foreground.to_ansi_foreground();
        out.append(fg.as_str());
        out.append(self.text.to_ansi());
        out.append(val);
        out.append("\x1b[0m");
        out
    }
}

} // verus!
