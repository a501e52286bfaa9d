use figura::markup::{parse_color, CustomParser, FontStyle, MarkupDirective, StyleDirective};
use figura::named::Named;
use figura::style::{Color, CombinedStyle, Style, Text, TextStyle};
use figura::util::apply_style;
use figura::{Context, Directive, Parser, Template, Value};

#[test]
fn named_colors() {
    assert_eq!(Color::Named("red".to_string()).to_ansi_foreground(), "\x1b[31m");
    assert_eq!(Color::Named("red".to_string()).to_ansi_background(), "\x1b[41m");
    assert_eq!(Color::Named("black".to_string()).to_ansi_foreground(), "\x1b[30m");
    assert_eq!(Color::Named("white".to_string()).to_ansi_background(), "\x1b[47m");
    assert_eq!(Color::Named("bright red".to_string()).to_ansi_foreground(), "\x1b[91m");
    assert_eq!(Color::Named("brightwhite".to_string()).to_ansi_background(), "\x1b[107m");
    assert_eq!(Color::Named("grey".to_string()).to_ansi_foreground(), "\x1b[90m");
    assert_eq!(Color::Named("no such colour".to_string()).to_ansi_foreground(), "");
}

#[test]
fn named_colors_in_any_case() {
    assert_eq!(Color::Named("RED".to_string()).to_ansi_foreground(), "\x1b[31m");
    assert_eq!(Color::Named("Bright Blue".to_string()).to_ansi_background(), "\x1b[104m");
}

#[test]
fn numeric_colors() {
    assert_eq!(Color::RGB(255, 0, 7).to_ansi_foreground(), "\x1b[38;2;255;0;7m");
    assert_eq!(Color::RGB(1, 20, 200).to_ansi_background(), "\x1b[48;2;1;20;200m");
    assert_eq!(Color::Ansi(208).to_ansi_foreground(), "\x1b[38;5;208m");
    assert_eq!(Color::Ansi(0).to_ansi_background(), "\x1b[48;5;0m");
    assert_eq!(Color::Ansi(9).to_ansi_with_prefix(38), "\x1b[38;5;9m");
}

#[test]
fn hexadecimal_colors() {
    assert_eq!(Color::Hex("#FF5733".to_string()).to_ansi_foreground(), "\x1b[38;2;255;87;51m");
    assert_eq!(Color::Hex("ff5733".to_string()).to_ansi_background(), "\x1b[48;2;255;87;51m");
    assert_eq!(Color::Hex("##000000".to_string()).to_ansi_foreground(), "\x1b[38;2;0;0;0m");
    assert_eq!(Color::Hex("#+f+a01".to_string()).to_ansi_foreground(), "\x1b[38;2;15;10;1m");
    assert_eq!(Color::Hex("#fff".to_string()).to_ansi_foreground(), "");
    assert_eq!(Color::Hex("#gg0000".to_string()).to_ansi_foreground(), "");
    assert_eq!(Color::Hex("#ff00+-".to_string()).to_ansi_foreground(), "");
    assert_eq!(Color::Hex("".to_string()).to_ansi_foreground(), "");
    assert_eq!(figura::style::parse_hex("#0a0B0c"), Some((10, 11, 12)));
    assert_eq!(figura::style::parse_hex("0a0B0"), None);
}

#[test]
fn default_color_is_white() {
    assert_eq!(Color::default().to_ansi_foreground(), "\x1b[37m");
}

#[test]
fn text_styles() {
    assert_eq!(TextStyle::Normal.to_ansi(), "");
    assert_eq!(TextStyle::Bold.to_ansi(), "\x1b[1m");
    assert_eq!(TextStyle::Italic.to_ansi(), "\x1b[3m");
    assert_eq!(TextStyle::Underline.to_ansi(), "\x1b[4m");
    assert_eq!(TextStyle::Dim.to_ansi(), "\x1b[2m");
    assert_eq!(TextStyle::Strikethrough.to_ansi(), "\x1b[9m");
    assert_eq!(TextStyle::Blink.to_ansi(), "\x1b[5m");
    assert_eq!(TextStyle::Inverse.to_ansi(), "\x1b[7m");
    assert_eq!(TextStyle::Conceal.to_ansi(), "\x1b[8m");
    assert_eq!(TextStyle::CrossedOut.to_ansi(), "\x1b[9m");
    assert_eq!(TextStyle::DoubleUnderline.to_ansi(), "\x1b[21m");
    assert_eq!(TextStyle::default(), TextStyle::Normal);
    assert_eq!(TextStyle::from_name("BOLD"), Some(TextStyle::Bold));
    assert_eq!(TextStyle::from_name("crossed out"), Some(TextStyle::CrossedOut));
    assert_eq!(TextStyle::from_name("double_underline"), Some(TextStyle::DoubleUnderline));
    assert_eq!(TextStyle::from_name("wavy"), None);
    assert_eq!(Text::Bold.to_ansi(), "\x1b[1m");
    assert_eq!(Text::Normal.to_ansi(), "");
    assert_eq!(Text::default(), Text::Normal);
}

#[test]
fn style_apply() {
    let style = Style {
        foreground: Some(Color::Named("green".to_string())),
        background: Some(Color::Ansi(7)),
        text: Some(vec![TextStyle::Bold, TextStyle::Normal, TextStyle::Underline]),
    };
    assert_eq!(style.apply("x"), "\x1b[32m\x1b[48;5;7m\x1b[1m\x1b[4mx\x1b[0m");
    assert_eq!(Style::default().apply("plain"), "plain");
    let nothing = Style {
        foreground: Some(Color::Named("nothing".to_string())),
        background: None,
        text: Some(vec![TextStyle::Normal]),
    };
    assert_eq!(nothing.apply("plain"), "plain");
}

#[test]
fn style_by_key() {
    let mut styles: Named<Style> = Named::new();
    styles.insert(
        "name",
        Style {
            foreground: Some(Color::Named("red".to_string())),
            background: None,
            text: None,
        },
    );
    assert_eq!(apply_style(&styles, "name", "a"), "\x1b[31ma\x1b[0m");
    assert_eq!(apply_style(&styles, "size", "a"), "a");
}

#[test]
fn combined_style() {
    let style = CombinedStyle::new();
    assert_eq!(style.apply("x"), "\x1b[47m\x1b[37mx\x1b[0m");
    let style = CombinedStyle::new()
        .fg(Color::RGB(1, 2, 3))
        .bg(Color::Named("blue".to_string()))
        .text(Text::Italic);
    assert_eq!(style.apply("x"), "\x1b[44m\x1b[38;2;1;2;3m\x1b[3mx\x1b[0m");
}

#[test]
fn markup_colors() {
    assert_eq!(parse_color("red"), Some(figura::markup::Color::Red));
    assert_eq!(parse_color("Bright_Green"), Some(figura::markup::Color::BrightGreen));
    assert_eq!(parse_color("darkgrey"), Some(figura::markup::Color::DarkGray));
    assert_eq!(parse_color("bright red"), None);
    assert_eq!(figura::markup::Color::Red.to_ansi_fg(), "31");
    assert_eq!(figura::markup::Color::Red.to_ansi_bg(), "41");
    assert_eq!(figura::markup::Color::BrightCyan.to_ansi_fg(), "96");
    assert_eq!(figura::markup::Color::BrightCyan.to_ansi_bg(), "106");
    assert_eq!(figura::markup::Color::Orange.to_ansi_fg(), "38;5;208");
    assert_eq!(figura::markup::Color::DarkCyan.to_ansi_bg(), "48;5;30");
}

#[test]
fn style_directive() {
    let mut ctx = Context::new();
    ctx.insert("name", Value::String("John".to_string()));
    let d = StyleDirective {
        value: "name".to_string(),
        styles: vec![FontStyle::Bold, FontStyle::Dim],
        background_color: Some(figura::markup::Color::Blue),
        foreground_color: Some(figura::markup::Color::Pink),
    };
    assert_eq!(d.execute(&ctx).unwrap(), "\x1b[1;2;38;5;205;44mJohn\x1b[0m");
    let d = StyleDirective {
        value: "other".to_string(),
        styles: vec![],
        background_color: None,
        foreground_color: None,
    };
    assert_eq!(d.execute(&ctx).unwrap(), "\x1b[mother\x1b[0m");
}

#[test]
fn markup_grammar() {
    let mut ctx = Context::new();
    ctx.insert("name", Value::String("John".to_string()));
    let t = Template::with_parser::<CustomParser>("{name$[bold]}", '{', '}').unwrap();
    assert_eq!(t.format(&ctx).unwrap(), "\x1b[1mJohn\x1b[0m");
    let t = Template::with_parser::<CustomParser>("{name$[bold,red,blue]}", '{', '}').unwrap();
    assert_eq!(t.format(&ctx).unwrap(), "\x1b[1;31mJohn\x1b[0m");
    let t = Template::with_parser::<CustomParser>("{name$[fg,red]}", '{', '}').unwrap();
    assert_eq!(t.format(&ctx).unwrap(), "\x1b[31mJohn\x1b[0m");
    let t = Template::with_parser::<CustomParser>("{Warning$[]}", '{', '}').unwrap();
    assert_eq!(t.format(&ctx).unwrap(), "\x1b[mWarning\x1b[0m");
    // what is no markup goes to the default grammar
    let t = Template::with_parser::<CustomParser>("{name} {name:2} {x$y}", '{', '}').unwrap();
    assert_eq!(t.format(&ctx).unwrap(), "John JohnJohn x$y");
}

#[test]
fn markup_parser_results() {
    let tokens = Template::tokenize("a$[red]");
    assert!(matches!(
        CustomParser::parse(&tokens, "a$[red]"),
        Some(MarkupDirective::Style(_))
    ));
    let tokens = Template::tokenize("a");
    assert!(matches!(
        CustomParser::parse(&tokens, "a"),
        Some(MarkupDirective::Plain(_))
    ));
    let tokens = Template::tokenize("1$[red]");
    assert!(matches!(
        CustomParser::parse(&tokens, "1$[red]"),
        Some(MarkupDirective::Plain(_))
    ));
}
