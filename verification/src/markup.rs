//! A second grammar on top of the default one: `text$[styles]` sets a text
//! in font styles and palette colours. It shows how a parser of its own
//! falls back on the default parser.

use vstd::prelude::*;
use vstd::string::StringExecFns;
use crate::directives::{
    builtin_output, default_directive, Builtin, BuiltinDirective, DefaultParser, Directive, Parser,
};
use crate::error::{ErrorView, Outcome, TemplateError};
use crate::text::{nat_text, push_nat, same_text, to_lowercase, unicode_lowercase};
use crate::token::{tokens_view, Token, TokenView};
use crate::value::{value_text, Context, ContextView};

verus! {

/// A font style of the markup grammar.
#[derive(Debug, Clone, Copy, PartialEq, Eq)]
pub enum FontStyle {
    Bold,
    Italic,
    Underline,
    Strikethrough,
    Dim,
}

/// A colour of the markup grammar.
#[derive(Debug, Clone, Copy, PartialEq, Eq)]
pub enum Color {
    Black,
    Red,
    Green,
    Yellow,
    Blue,
    Magenta,
    Cyan,
    White,
    BrightBlack,
    BrightRed,
    BrightGreen,
    BrightYellow,
    BrightBlue,
    BrightMagenta,
    BrightCyan,
    BrightWhite,
    Orange,
    Pink,
    Purple,
    Brown,
    Gray,
    DarkGray,
    LightGray,
    DarkRed,
    DarkGreen,
    DarkBlue,
    DarkYellow,
    DarkMagenta,
    DarkCyan,
}

/// Where a colour sits: among the eight standard colours, among their
/// bright forms, or in the 256-colour palette.
pub enum Tone {
    Standard(u8),
    Bright(u8),
    Palette(u8),
}

/// Where `color` sits.
pub open spec fn tone_of(color: Color) -> Tone {
    match color {
        Color::Black => Tone::Standard(0),
        Color::Red => Tone::Standard(1),
        Color::Green => Tone::Standard(2),
        Color::Yellow => Tone::Standard(3),
        Color::Blue => Tone::Standard(4),
        Color::Magenta => Tone::Standard(5),
        Color::Cyan => Tone::Standard(6),
        Color::White => Tone::Standard(7),
        Color::BrightBlack => Tone::Bright(0),
        Color::BrightRed => Tone::Bright(1),
        Color::BrightGreen => Tone::Bright(2),
        Color::BrightYellow => Tone::Bright(3),
        Color::BrightBlue => Tone::Bright(4),
        Color::BrightMagenta => Tone::Bright(5),
        Color::BrightCyan => Tone::Bright(6),
        Color::BrightWhite => Tone::Bright(7),
        Color::Orange => Tone::Palette(208),
        Color::Pink => Tone::Palette(205),
        Color::Purple => Tone::Palette(129),
        Color::Brown => Tone::Palette(130),
        Color::Gray => Tone::Palette(244),
        Color::DarkGray => Tone::Palette(240),
        Color::LightGray => Tone::Palette(252),
        Color::DarkRed => Tone::Palette(88),
        Color::DarkGreen => Tone::Palette(22),
        Color::DarkBlue => Tone::Palette(18),
        Color::DarkYellow => Tone::Palette(136),
        Color::DarkMagenta => Tone::Palette(90),
        Color::DarkCyan => Tone::Palette(30),
    }
}

/// The parameter of an escape sequence that selects `color`: 30 to 37 and
/// 90 to 97 for the foreground, 40 to 47 and 100 to 107 for the background,
/// and `38;5;n` or `48;5;n` for a colour of the palette.
pub open spec fn color_param(color: Color, background: bool) -> Seq<char> {
    let shift: nat = if background {
        10
    } else {
        0
    };
    match tone_of(color) {
        Tone::Standard(n) => nat_text(30 + shift + n as nat),
        Tone::Bright(n) => nat_text(90 + shift + n as nat),
        Tone::Palette(n) => nat_text(38 + shift) + ";5;"@ + nat_text(n as nat),
    }
}

/// The parameter of an escape sequence that selects a font style.
pub open spec fn font_param(style: FontStyle) -> Seq<char> {
    match style {
        FontStyle::Bold => "1"@,
        FontStyle::Italic => "3"@,
        FontStyle::Underline => "4"@,
        FontStyle::Strikethrough => "9"@,
        FontStyle::Dim => "2"@,
    }
}

/// The colour that a name stands for, from the name in lower case.
pub open spec fn color_named(lower: Seq<char>) -> Option<Color> {
    if lower == "black"@ {
        Some(Color::Black)
    } else if lower == "red"@ {
        Some(Color::Red)
    } else if lower == "green"@ {
        Some(Color::Green)
    } else if lower == "yellow"@ {
        Some(Color::Yellow)
    } else if lower == "blue"@ {
        Some(Color::Blue)
    } else if lower == "magenta"@ {
        Some(Color::Magenta)
    } else if lower == "cyan"@ {
        Some(Color::Cyan)
    } else if lower == "white"@ {
        Some(Color::White)
    } else if lower == "bright_black"@ || lower == "brightblack"@ {
        Some(Color::BrightBlack)
    } else if lower == "bright_red"@ || lower == "brightred"@ {
        Some(Color::BrightRed)
    } else if lower == "bright_green"@ || lower == "brightgreen"@ {
        Some(Color::BrightGreen)
    } else if lower == "bright_yellow"@ || lower == "brightyellow"@ {
        Some(Color::BrightYellow)
    } else if lower == "bright_blue"@ || lower == "brightblue"@ {
        Some(Color::BrightBlue)
    } else if lower == "bright_magenta"@ || lower == "brightmagenta"@ {
        Some(Color::BrightMagenta)
    } else if lower == "bright_cyan"@ || lower == "brightcyan"@ {
        Some(Color::BrightCyan)
    } else if lower == "bright_white"@ || lower == "brightwhite"@ {
        Some(Color::BrightWhite)
    } else if lower == "orange"@ {
        Some(Color::Orange)
    } else if lower == "pink"@ {
        Some(Color::Pink)
    } else if lower == "purple"@ {
        Some(Color::Purple)
    } else if lower == "brown"@ {
        Some(Color::Brown)
    } else if lower == "gray"@ || lower == "grey"@ {
        Some(Color::Gray)
    } else if lower == "dark_gray"@ || lower == "darkgray"@ || lower == "dark_grey"@ || lower
        == "darkgrey"@ {
        Some(Color::DarkGray)
    } else if lower == "light_gray"@ || lower == "lightgray"@ || lower == "light_grey"@ || lower
        == "lightgrey"@ {
        Some(Color::LightGray)
    } else if lower == "dark_red"@ || lower == "darkred"@ {
        Some(Color::DarkRed)
    } else if lower == "dark_green"@ || lower == "darkgreen"@ {
        Some(Color::DarkGreen)
    } else if lower == "dark_blue"@ || lower == "darkblue"@ {
        Some(Color::DarkBlue)
    } else if lower == "dark_yellow"@ || lower == "darkyellow"@ {
        Some(Color::DarkYellow)
    } else if lower == "dark_magenta"@ || lower == "darkmagenta"@ {
        Some(Color::DarkMagenta)
    } else if lower == "dark_cyan"@ || lower == "darkcyan"@ {
        Some(Color::DarkCyan)
    } else {
        None
    }
}

/// The colour that `color_name` stands for, in any case.
pub fn parse_color(color_name: &str) -> (r: Option<Color>)
    ensures
        r == color_named(unicode_lowercase(color_name@)),
{
    let lowered = to_lowercase(color_name);
    let lower = lowered.as_str();
    if same_text(lower, "black") {
        Some(Color::Black)
    } else if same_text(lower, "red") {
        Some(Color::Red)
    } else if same_text(lower, "green") {
        Some(Color::Green)
    } else if same_text(lower, "yellow") {
        Some(Color::Yellow)
    } else if same_text(lower, "blue") {
        Some(Color::Blue)
    } else if same_text(lower, "magenta") {
        Some(Color::Magenta)
    } else if same_text(lower, "cyan") {
        Some(Color::Cyan)
    } else if same_text(lower, "white") {
        Some(Color::White)
    } else if same_text(lower, "bright_black") || same_text(lower, "brightblack") {
        Some(Color::BrightBlack)
    } else if same_text(lower, "bright_red") || same_text(lower, "brightred") {
        Some(Color::BrightRed)
    } else if same_text(lower, "bright_green") || same_text(lower, "brightgreen") {
        Some(Color::BrightGreen)
    } else if same_text(lower, "bright_yellow") || same_text(lower, "brightyellow") {
        Some(Color::BrightYellow)
    } else if same_text(lower, "bright_blue") || same_text(lower, "brightblue") {
        Some(Color::BrightBlue)
    } else if same_text(lower, "bright_magenta") || same_text(lower, "brightmagenta") {
        Some(Color::BrightMagenta)
    } else if same_text(lower, "bright_cyan") || same_text(lower, "brightcyan") {
        Some(Color::BrightCyan)
    } else if same_text(lower, "bright_white") || same_text(lower, "brightwhite") {
        Some(Color::BrightWhite)
    } else if same_text(lower, "orange") {
        Some(Color::Orange)
    } else if same_text(lower, "pink") {
        Some(Color::Pink)
    } else if same_text(lower, "purple") {
        Some(Color::Purple)
    } else if same_text(lower, "brown") {
        Some(Color::Brown)
    } else if same_text(lower, "gray") || same_text(lower, "grey") {
        Some(Color::Gray)
    } else if same_text(lower, "dark_gray") || same_text(lower, "darkgray") || same_text(
        lower,
        "dark_grey",
    ) || same_text(lower, "darkgrey") {
        Some(Color::DarkGray)
    } else if same_text(lower, "light_gray") || same_text(lower, "lightgray") || same_text(
        lower,
        "light_grey",
    ) || same_text(lower, "lightgrey") {
        Some(Color::LightGray)
    } else if same_text(lower, "dark_red") || same_text(lower, "darkred") {
        Some(Color::DarkRed)
    } else if same_text(lower, "dark_green") || same_text(lower, "darkgreen") {
        Some(Color::DarkGreen)
    } else if same_text(lower, "dark_blue") || same_text(lower, "darkblue") {
        Some(Color::DarkBlue)
    } else if same_text(lower, "dark_yellow") || same_text(lower, "darkyellow") {
        Some(Color::DarkYellow)
    } else if same_text(lower, "dark_magenta") || same_text(lower, "darkmagenta") {
        Some(Color::DarkMagenta)
    } else if same_text(lower, "dark_cyan") || same_text(lower, "darkcyan") {
        Some(Color::DarkCyan)
    } else {
        None
    }
}

impl Color {
    /// Where this colour sits.
    pub fn tone(&self) -> (t: Tone)
        ensures
            t == tone_of(*self),
    {
        match self {
            Color::Black => Tone::Standard(0),
            Color::Red => Tone::Standard(1),
            Color::Green => Tone::Standard(2),
            Color::Yellow => Tone::Standard(3),
            Color::Blue => Tone::Standard(4),
            Color::Magenta => Tone::Standard(5),
            Color::Cyan => Tone::Standard(6),
            Color::White => Tone::Standard(7),
            Color::BrightBlack => Tone::Bright(0),
            Color::BrightRed => Tone::Bright(1),
            Color::BrightGreen => Tone::Bright(2),
            Color::BrightYellow => Tone::Bright(3),
            Color::BrightBlue => Tone::Bright(4),
            Color::BrightMagenta => Tone::Bright(5),
            Color::BrightCyan => Tone::Bright(6),
            Color::BrightWhite => Tone::Bright(7),
            Color::Orange => Tone::Palette(208),
            Color::Pink => Tone::Palette(205),
            Color::Purple => Tone::Palette(129),
            Color::Brown => Tone::Palette(130),
            Color::Gray => Tone::Palette(244),
            Color::DarkGray => Tone::Palette(240),
            Color::LightGray => Tone::Palette(252),
            Color::DarkRed => Tone::Palette(88),
            Color::DarkGreen => Tone::Palette(22),
            Color::DarkBlue => Tone::Palette(18),
            Color::DarkYellow => Tone::Palette(136),
            Color::DarkMagenta => Tone::Palette(90),
            Color::DarkCyan => Tone::Palette(30),
        }
    }

    fn to_ansi(&self, background: bool) -> (code: String)
        ensures
            code@ == color_param(*self, background),
    {
        let shift: u64 = if background {
            10
        } else {
            0
        };
        let mut code = String::new();
        match self.tone() {
            Tone::Standard(n) => {
                push_nat(&mut code, 30 + shift + n as u64);
            },
            Tone::Bright(n) => {
                push_nat(&mut code, 90 + shift + n as u64);
            },
            Tone::Palette(n) => {
                push_nat(&mut code, 38 + shift);
                code.append(";5;");
                push_nat(&mut code, n as u64);
            },
        }
        assert(code@ =~= color_param(*self, background));
        code
    }

    /// The parameter that makes this colour the foreground.
    pub fn to_ansi_fg(&self) -> (code: String)
        ensures
            code@ == color_param(*self, false),
    {
        self.to_ansi(false)
    }

    /// The parameter that makes this colour the background.
    pub fn to_ansi_bg(&self) -> (code: String)
        ensures
            code@ == color_param(*self, true),
    {
        self.to_ansi(true)
    }
}

/// Texts joined by a separator.
pub open spec fn joined(items: Seq<Seq<char>>, separator: Seq<char>) -> Seq<char>
    decreases items.len(),
{
    if items.len() == 0 {
        Seq::empty()
    } else if items.len() == 1 {
        items[0]
    } else {
        joined(items.drop_last(), separator) + separator + items.last()
    }
}

/// The parameters of font styles, in order.
pub open spec fn font_params(styles: Seq<FontStyle>) -> Seq<Seq<char>>
    decreases styles.len(),
{
    if styles.len() == 0 {
        Seq::empty()
    } else {
        font_params(styles.drop_last()).push(font_param(styles.last()))
    }
}

/// The styles and colours of a piece of markup.
pub struct Look {
    pub styles: Seq<FontStyle>,
    pub foreground: Option<Color>,
    pub background: Option<Color>,
}

/// The parameters of a look: the font styles, then the foreground, then the
/// background.
pub open spec fn look_params(look: Look) -> Seq<Seq<char>> {
    font_params(look.styles) + (match look.foreground {
        Some(c) => seq![color_param(c, false)],
        None => Seq::empty(),
    }) + (match look.background {
        Some(c) => seq![color_param(c, true)],
        None => Seq::empty(),
    })
}

/// What [`StyleDirective`] yields: one escape sequence with all parameters
/// of the look, the value that the name is bound to or else the name
/// itself, and the reset sequence.
pub open spec fn style_output(value: Seq<char>, look: Look, ctx: ContextView) -> Outcome {
    Ok::<Seq<char>, ErrorView>(
        "\x1b["@ + joined(look_params(look), ";"@) + "m"@ + (if ctx.contains_key(value) {
            value_text(ctx[value])
        } else {
            value
        }) + "\x1b[0m"@,
    )
}

/// Sets a value in font styles and colours.
#[derive(Debug)]
pub struct StyleDirective {
    pub value: String,
    pub styles: Vec<FontStyle>,
    pub background_color: Option<Color>,
    pub foreground_color: Option<Color>,
}

impl StyleDirective {
    /// The styles and colours of this directive.
    pub open spec fn look(&self) -> Look {
        Look {
            styles: self.styles@,
            foreground: self.foreground_color,
            background: self.background_color,
        }
    }
}

proof fn lemma_joined_push(items: Seq<Seq<char>>, item: Seq<char>, separator: Seq<char>)
    ensures
        joined(items.push(item), separator) == if items.len() == 0 {
            item
        } else {
            joined(items, separator) + separator + item
        },
{
    assert(items.push(item).drop_last() =~= items);
}

fn push_param(
    out: &mut String,
    code: &str,
    Ghost(start): Ghost<Seq<char>>,
    Ghost(params): Ghost<Seq<Seq<char>>>,
    first: bool,
)
    requires
        old(out)@ == start + joined(params, ";"@),
        first == (params.len() == 0),
    ensures
        final(out)@ == start + joined(params.push(code@), ";"@),
{
    proof {
        lemma_joined_push(params, code@, ";"@);
    }
    if !first {
        out.append(";");
    }
    out.append(code);
    assert(out@ =~= start + joined(params.push(code@), ";"@));
}

fn font_code(style: FontStyle) -> (code: &'static str)
    ensures
        code@ == font_param(style),
{
    match style {
        FontStyle::Bold => "1",
        FontStyle::Italic => "3",
        FontStyle::Underline => "4",
        FontStyle::Strikethrough => "9",
        FontStyle::Dim => "2",
    }
}

impl Directive for StyleDirective {
    open spec fn yields(&self, ctx: ContextView, result: Outcome) -> bool {
        result == style_output(self.value@, self.look(), ctx)
    }

    fn execute(&self, ctx: &Context) -> (r: Result<String, TemplateError>) {
        let mut out = "\x1b[".to_owned();
        let ghost start = out@;
        let ghost mut params: Seq<Seq<char>> = Seq::empty();
        let mut first = true;
        let mut i: usize = 0;
        assert(out@ =~= start + joined(params, ";"@));
        assert(self.styles@.take(0) =~= Seq::<FontStyle>::empty());
        while i < self.styles.len()
            invariant
                i <= self.styles.len(),
                out@ == start + joined(params, ";"@),
                first == (params.len() == 0),
                params == font_params(self.styles@.take(i as int)),
            decreases self.styles.len() - i,
        {
            let code = font_code(self.styles[i]);
            push_param(&mut out, code, Ghost(start), Ghost(params), first);
            proof {
                assert(self.styles@.take(i + 1).drop_last() =~= self.styles@.take(i as int));
                params = params.push(code@);
            }
            first = false;
            i += 1;
        }
        assert(self.styles@.take(i as int) =~= self.styles@);
        if let Some(color) = &self.foreground_color {
            let code = color.to_ansi_fg();
            push_param(&mut out, code.as_str(), Ghost(start), Ghost(params), first);
            proof {
                params = params.push(code@);
            }
            first = false;
        }
        if let Some(color) = &self.background_color {
            let code = color.to_ansi_bg();
            push_param(&mut out, code.as_str(), Ghost(start), Ghost(params), first);
            proof {
                params = params.push(code@);
            }
        }
        assert(params =~= look_params(self.look()));
        out.append("m");
        match ctx.get(self.value.as_str()) {
            Some(value) => {
                let text = value.to_string();
                out.append(text.as_str());
            },
            None => {
                out.append(self.value.as_str());
            },
        }
        out.append("\x1b[0m");
        Ok(out)
    }
}

/// Whether the tokens have the shape of markup: a slice, `$`, `[`, any
/// tokens, `]`.
pub open spec fn is_markup(tokens: Seq<TokenView>) -> bool {
    &&& tokens.len() >= 4
    &&& tokens[0] is Slice
    &&& tokens[1] == TokenView::Symbol('$')
    &&& tokens[2] == TokenView::Symbol('[')
    &&& tokens[tokens.len() - 1] == TokenView::Symbol(']')
}

/// The font style that a word stands for.
pub open spec fn font_named(name: Seq<char>) -> Option<FontStyle> {
    if name == "bold"@ {
        Some(FontStyle::Bold)
    } else if name == "italic"@ {
        Some(FontStyle::Italic)
    } else if name == "underline"@ {
        Some(FontStyle::Underline)
    } else if name == "strikethrough"@ {
        Some(FontStyle::Strikethrough)
    } else if name == "dim"@ {
        Some(FontStyle::Dim)
    } else {
        None
    }
}

/// The look after the word `name` at position `i`, and the position to go
/// on from. A font style is added to the styles. `fg` and `foreground` take
/// the slice that follows as the foreground, whether it names a colour or
/// not, and `bg` and `background` as the background. Any other word is the
/// foreground if it names a colour and no foreground is set yet.
pub open spec fn after_word(
    tokens: Seq<TokenView>,
    i: int,
    end: int,
    name: Seq<char>,
    look: Look,
) -> (Look, int) {
    let follows = i + 1 < end && tokens[i + 1] is Slice;
    match font_named(name) {
        Some(style) => (Look { styles: look.styles.push(style), ..look }, i + 1),
        None => if name == "fg"@ || name == "foreground"@ {
            if follows {
                (
                    Look {
                        foreground: color_named(unicode_lowercase(tokens[i + 1]->Slice_0)),
                        ..look
                    },
                    i + 2,
                )
            } else {
                (look, i + 1)
            }
        } else if name == "bg"@ || name == "background"@ {
            if follows {
                (
                    Look {
                        background: color_named(unicode_lowercase(tokens[i + 1]->Slice_0)),
                        ..look
                    },
                    i + 2,
                )
            } else {
                (look, i + 1)
            }
        } else {
            match color_named(unicode_lowercase(name)) {
                Some(color) => if look.foreground is None {
                    (Look { foreground: Some(color), ..look }, i + 1)
                } else {
                    (look, i + 1)
                },
                None => (look, i + 1),
            }
        },
    }
}

/// The look that the tokens from position `i` up to `end` describe, on top
/// of `look`. Only slices count; every other token is passed over.
pub open spec fn read_look(tokens: Seq<TokenView>, i: int, end: int, look: Look) -> Look
    decreases end - i,
{
    if i < 0 || i >= end || end > tokens.len() {
        look
    } else {
        match tokens[i] {
            TokenView::Slice(name) => {
                let (next_look, next) = after_word(tokens, i, end, name, look);
                if next > i {
                    read_look(tokens, next, end, next_look)
                } else {
                    look
                }
            },
            _ => read_look(tokens, i + 1, end, look),
        }
    }
}

/// What the markup grammar makes of a segment, as a mathematical value.
pub enum Markup {
    /// A value with a look.
    Style(Seq<char>, Look),
    /// What the default grammar makes of the segment.
    Plain(Builtin),
}

/// The markup grammar: a styled value for markup, and what the default
/// grammar makes of it for anything else.
pub open spec fn markup_directive(tokens: Seq<TokenView>, content: Seq<char>) -> Markup {
    if is_markup(tokens) {
        Markup::Style(
            tokens[0]->Slice_0,
            read_look(
                tokens,
                3,
                tokens.len() - 1,
                Look { styles: Seq::empty(), foreground: None, background: None },
            ),
        )
    } else {
        Markup::Plain(default_directive(tokens, content))
    }
}

/// What a directive of the markup grammar yields for `ctx`.
pub open spec fn markup_output(directive: Markup, ctx: ContextView) -> Outcome {
    match directive {
        Markup::Style(value, look) => style_output(value, look, ctx),
        Markup::Plain(plain) => builtin_output(plain, ctx),
    }
}

/// A directive of the markup grammar.
#[derive(Debug)]
pub enum MarkupDirective {
    Style(StyleDirective),
    Plain(BuiltinDirective),
}

impl View for MarkupDirective {
    type V = Markup;

    open spec fn view(&self) -> Markup {
        match self {
            MarkupDirective::Style(d) => Markup::Style(d.value@, d.look()),
            MarkupDirective::Plain(d) => Markup::Plain(d@),
        }
    }
}

impl Directive for MarkupDirective {
    open spec fn yields(&self, ctx: ContextView, result: Outcome) -> bool {
        result == markup_output(self@, ctx)
    }

    fn execute(&self, ctx: &Context) -> (r: Result<String, TemplateError>) {
        match self {
            MarkupDirective::Style(d) => d.execute(ctx),
            MarkupDirective::Plain(d) => d.execute(ctx),
        }
    }
}

/// The parser of the markup grammar. Like the default parser, it recognises
/// every segment.
pub struct CustomParser;

fn is_symbol(token: &Token, c: char) -> (b: bool)
    ensures
        b == (token@ == TokenView::Symbol(c)),
{
    match token {
        Token::Symbol(s) => *s == c,
        _ => false,
    }
}

fn font_of(name: &str) -> (r: Option<FontStyle>)
    ensures
        r == font_named(name@),
{
    if same_text(name, "bold") {
        Some(FontStyle::Bold)
    } else if same_text(name, "italic") {
        Some(FontStyle::Italic)
    } else if same_text(name, "underline") {
        Some(FontStyle::Underline)
    } else if same_text(name, "strikethrough") {
        Some(FontStyle::Strikethrough)
    } else if same_text(name, "dim") {
        Some(FontStyle::Dim)
    } else {
        None
    }
}

fn read_styles(tokens: &[Token], directive: &mut StyleDirective)
    requires
        tokens.len() >= 4,
        old(directive).styles@.len() == 0,
        old(directive).foreground_color is None,
        old(directive).background_color is None,
    ensures
        final(directive).value == old(directive).value,
        final(directive).look() == read_look(
            tokens_view(tokens@),
            3,
            tokens.len() - 1,
            Look { styles: Seq::empty(), foreground: None, background: None },
        ),
{
    let ghost views = tokens_view(tokens@);
    let end: usize = tokens.len() - 1;
    let mut i: usize = 3;
    assert(directive.look().styles =~= Seq::<FontStyle>::empty());
    while i < end
        invariant
            3 <= i <= end + 1,
            end == tokens.len() - 1,
            views == tokens_view(tokens@),
            directive.value == old(directive).value,
            read_look(views, i as int, end as int, directive.look()) == read_look(
                views,
                3,
                end as int,
                Look { styles: Seq::empty(), foreground: None, background: None },
            ),
        decreases end + 1 - i,
    {
        assert(views[i as int] == tokens@[i as int]@);
        let ghost look = directive.look();
        let mut step: usize = 1;
        if let Token::Slice(name) = &tokens[i] {
            match font_of(name.as_str()) {
                Some(style) => {
                    directive.styles.push(style);
                },
                None => {
                    let word = name.as_str();
                    let to_fg = same_text(word, "fg") || same_text(word, "foreground");
                    let to_bg = same_text(word, "bg") || same_text(word, "background");
                    if to_fg || to_bg {
                        if i + 1 < end {
                            assert(views[i + 1] == tokens@[i + 1]@);
                            if let Token::Slice(color_name) = &tokens[i + 1] {
                                let color = parse_color(color_name.as_str());
                                if to_fg {
                                    directive.foreground_color = color;
                                } else {
                                    directive.background_color = color;
                                }
                                step = 2;
                            }
                        }
                    } else {
                        match parse_color(word) {
                            Some(color) => {
                                if directive.foreground_color.is_none() {
                                    directive.foreground_color = Some(color);
                                }
                            },
                            None => {},
                        }
                    }
                },
            }
            assert((directive.look(), i + step) == after_word(
                views,
                i as int,
                end as int,
                name@,
                look,
            ));
        }
        i += step;
    }
}

impl Parser for CustomParser {
    type Output = MarkupDirective;

    open spec fn makes(
        tokens: Seq<TokenView>,
        content: Seq<char>,
        result: Option<MarkupDirective>,
    ) -> bool {
        match result {
            Some(d) => d@ == markup_directive(tokens, content),
            None => false,
        }
    }

    fn parse(tokens: &[Token], content: &str) -> (r: Option<MarkupDirective>) {
        let ghost views = tokens_view(tokens@);
        let n = tokens.len();
        proof {
            if n >= 4 {
                assert(views[0] == tokens@[0]@);
                assert(views[1] == tokens@[1]@);
                assert(views[2] == tokens@[2]@);
                assert(views[n - 1] == tokens@[n - 1]@);
            }
        }
        if n >= 4 && is_symbol(&tokens[1], '$') && is_symbol(&tokens[2], '[') && is_symbol(
            &tokens[n - 1],
            ']',
        ) {
            if let Token::Slice(text) = &tokens[0] {
                let mut directive = StyleDirective {
                    value: text.clone(),
                    styles: Vec::new(),
                    background_color: None,
                    foreground_color: None,
                };
                read_styles(tokens, &mut directive);
                return Some(MarkupDirective::Style(directive));
            }
        }
        match DefaultParser::parse(tokens, content) {
            Some(plain) => Some(MarkupDirective::Plain(plain)),
            None => None,
        }
    }
}

} // verus!
