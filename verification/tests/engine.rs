use figura::delimiters::{AngleBrackets, CurlyBrackets, Delimiter, Parentheses, SquareBrackets};
use figura::var::{EmtpyVariables, VariableKind, VariableNames};
use figura::{
    Alignment, BuiltinDirective, ConditionalDirective, Context, DefaultParser, Directive,
    NoDirective, Parser, RepeatDirective, ReplaceDirective, Template, TemplateError, Token, Value,
};

fn context_of(pairs: Vec<(&str, Value)>) -> Context {
    let mut ctx = Context::new();
    for (key, value) in pairs {
        ctx.insert(key, value);
    }
    ctx
}

fn render(template: &str, ctx: &Context) -> Result<String, TemplateError> {
    Template::parse(template, '{', '}').unwrap().format(ctx)
}

#[test]
fn escape_round_trip_curly() {
    let ctx = Context::new();
    assert_eq!(render("{{literal}}", &ctx).unwrap(), "{literal}");
    assert_eq!(render("{{", &ctx).unwrap(), "{");
    assert_eq!(render("}}", &ctx).unwrap(), "}");
}

#[test]
fn escape_round_trip_other_delimiters() {
    let ctx = Context::new();
    let t = Template::parse("((", '(', ')').unwrap();
    assert_eq!(t.format(&ctx).unwrap(), "(");
    let t = Template::parse("))", '(', ')').unwrap();
    assert_eq!(t.format(&ctx).unwrap(), ")");
    let t = Template::parse("||", '|', '|').unwrap();
    assert_eq!(t.format(&ctx).unwrap(), "|");
}

#[test]
fn balance_detection() {
    assert_eq!(
        Template::parse("Hello {name", '{', '}').err(),
        Some(TemplateError::MissingClosedDelimiter('}'))
    );
    assert_eq!(
        Template::parse("Hello name}", '{', '}').err(),
        Some(TemplateError::MissingOpenDelimiter('{'))
    );
    assert_eq!(
        Template::parse("/a/b/c", '/', '/').err(),
        Some(TemplateError::MissingDelimiter('/'))
    );
    assert!(Template::parse("/a/b", '/', '/').is_ok());
}

#[test]
fn validate_delimiters_alone() {
    assert_eq!(Template::validate_delimiters("a {b} c", '{', '}'), Ok(()));
    assert_eq!(Template::validate_delimiters("", '{', '}'), Ok(()));
    assert_eq!(
        Template::validate_delimiters("}{", '{', '}'),
        Err(TemplateError::MissingOpenDelimiter('{'))
    );
    assert_eq!(
        Template::validate_delimiters("{a {b}}", '{', '}'),
        Err(TemplateError::MissingClosedDelimiter('}'))
    );
    assert_eq!(
        Template::validate_delimiters("|", '|', '|'),
        Err(TemplateError::MissingDelimiter('|'))
    );
}

#[test]
fn replace_with_and_without_value() {
    let ctx = context_of(vec![("name", Value::String("Alice".to_string()))]);
    assert_eq!(render("Hello, {name}!", &ctx).unwrap(), "Hello, Alice!");
    assert_eq!(
        render("Hello, {name}!", &Context::new()),
        Err(TemplateError::NoValueFound("name".to_string()))
    );
}

#[test]
fn replace_shows_integers_and_booleans() {
    let ctx = context_of(vec![
        ("n", Value::Int(-42)),
        ("min", Value::Int(i64::MIN)),
        ("zero", Value::Int(0)),
        ("yes", Value::Bool(true)),
        ("no", Value::Bool(false)),
    ]);
    assert_eq!(
        render("{n} {min} {zero} {yes} {no}", &ctx).unwrap(),
        "-42 -9223372036854775808 0 true false"
    );
}

#[test]
fn repeat_cases() {
    let ctx = context_of(vec![("word", Value::String("hi".to_string()))]);
    assert_eq!(render("{word:3}", &ctx).unwrap(), "hihihi");
    assert_eq!(render("{hello:2}", &Context::new()).unwrap(), "hellohello");
    assert_eq!(
        render("{word:-1}", &ctx),
        Err(TemplateError::ExecutionError(
            "Could not parse a numeric value for the repeat count".to_string()
        ))
    );
    assert_eq!(render("{word:0}", &ctx).unwrap(), "");
}

#[test]
fn repeat_count_from_context() {
    let ctx = context_of(vec![
        ("word", Value::String("ab".to_string())),
        ("zero", Value::Int(0)),
        ("two", Value::Int(2)),
        ("minus", Value::Int(-2)),
        ("text", Value::String("2".to_string())),
    ]);
    assert_eq!(render("{word:two}", &ctx).unwrap(), "abab");
    assert_eq!(render("{word:zero}", &ctx).unwrap(), "");
    assert!(render("{word:minus}", &ctx).is_err());
    assert!(render("{word:text}", &ctx).is_err());
    assert!(render("{word:missing}", &ctx).is_err());
}

#[test]
fn repeat_directive_alone() {
    let ctx = Context::new();
    let d = RepeatDirective("ab".to_string(), "+2".to_string());
    assert_eq!(d.execute(&ctx).unwrap(), "abab");
    let d = RepeatDirective("ab".to_string(), "".to_string());
    assert!(d.execute(&ctx).is_err());
    let d = RepeatDirective("ab".to_string(), "+".to_string());
    assert!(d.execute(&ctx).is_err());
    let d = RepeatDirective("ab".to_string(), "18446744073709551616".to_string());
    assert!(d.execute(&ctx).is_err());
    let d = RepeatDirective("".to_string(), "18446744073709551615".to_string());
    assert!(figura::directives::parse_count("18446744073709551615") == Some(u64::MAX));
    assert_eq!(d.0, "");
}

#[test]
fn conditional_cases() {
    let t = "{is_admin?Admin:User}";
    let ctx = context_of(vec![("is_admin", Value::Bool(true))]);
    assert_eq!(render(t, &ctx).unwrap(), "Admin");
    let ctx = context_of(vec![("is_admin", Value::Bool(false))]);
    assert_eq!(render(t, &ctx).unwrap(), "User");
    let ctx = context_of(vec![("username", Value::String("Alice".to_string()))]);
    assert_eq!(render("{username?In:Out}", &ctx).unwrap(), "In");
    assert_eq!(render("{username?In:Out}", &Context::new()).unwrap(), "Out");
}

#[test]
fn conditional_parts_are_not_looked_up() {
    let ctx = context_of(vec![
        ("flag", Value::Bool(true)),
        ("yes", Value::String("replaced".to_string())),
    ]);
    assert_eq!(render("{flag?yes:no}", &ctx).unwrap(), "yes");
}

#[test]
fn alignment_extraction() {
    assert_eq!(Template::parse("{name<}", '{', '}').unwrap().alignment(), Alignment::Left);
    assert_eq!(Template::parse("{name>}", '{', '}').unwrap().alignment(), Alignment::Right);
    assert_eq!(Template::parse("{name^}", '{', '}').unwrap().alignment(), Alignment::Center);
    assert_eq!(Template::parse("{name}", '{', '}').unwrap().alignment(), Alignment::Left);
    let t = Template::parse("{name<>^}", '{', '}').unwrap();
    assert_eq!(t.alignment(), Alignment::Center);
    // the content is `name<>`, which the default grammar takes as it is
    assert_eq!(t.format(&Context::new()).unwrap(), "name<>");
}

#[test]
fn alignment_last_marker_wins() {
    let t = Template::parse("{a>} {b^} {c}", '{', '}').unwrap();
    assert_eq!(t.alignment(), Alignment::Center);
    let t = Template::parse("{a>} {b<}", '{', '}').unwrap();
    assert_eq!(t.alignment(), Alignment::Left);
    assert_eq!(Alignment::default(), Alignment::Left);
    assert_eq!(Alignment::from_char('<'), Some(Alignment::Left));
    assert_eq!(Alignment::from_char('>'), Some(Alignment::Right));
    assert_eq!(Alignment::from_char('^'), Some(Alignment::Center));
    assert_eq!(Alignment::from_char('x'), None);
}

#[test]
fn formatting_twice_gives_the_same() {
    let ctx = context_of(vec![
        ("name", Value::String("Alice".to_string())),
        ("n", Value::Int(2)),
    ]);
    let t = Template::parse("{name} {name:n} {missing}", '{', '}').unwrap();
    assert_eq!(t.format(&ctx), t.format(&ctx));
    let t = Template::parse("{name} {name:n} {n?a:b}", '{', '}').unwrap();
    let first = t.format(&ctx).unwrap();
    let second = t.format(&ctx).unwrap();
    assert_eq!(first, "Alice AliceAlice a");
    assert_eq!(first, second);
}

#[test]
fn first_error_wins() {
    let ctx = Context::new();
    assert_eq!(
        render("a {x} b {y:-1}", &ctx),
        Err(TemplateError::NoValueFound("x".to_string()))
    );
    assert_eq!(
        render("a {y:-1} b {x}", &ctx),
        Err(TemplateError::ExecutionError(
            "Could not parse a numeric value for the repeat count".to_string()
        ))
    );
}

#[test]
fn unrecognised_content_stands_for_itself() {
    let ctx = Context::new();
    assert_eq!(render("{a:b:c}", &ctx).unwrap(), "a:b:c");
    assert_eq!(render("{}", &ctx).unwrap(), "");
    assert_eq!(render("{42}", &ctx).unwrap(), "42");
    assert_eq!(render("{a?b}", &ctx).unwrap(), "a?b");
}

#[test]
fn repeat_takes_token_texts() {
    let ctx = Context::new();
    // a symbol as pattern, an integer as count
    assert_eq!(render("{-:3}", &ctx).unwrap(), "---");
    // an integer as pattern
    assert_eq!(render("{007:2}", &ctx).unwrap(), "77");
    // a decimal literal as pattern stands as written
    assert_eq!(render("{1.50:2}", &ctx).unwrap(), "1.501.50");
}

#[test]
fn symmetric_delimiters_parse() {
    let ctx = context_of(vec![("name", Value::String("x".to_string()))]);
    let t = Template::parse("a |name| b", '|', '|').unwrap();
    assert_eq!(t.format(&ctx).unwrap(), "a x b");
}

#[test]
fn delimiters_by_type() {
    assert_eq!((Parentheses::open(), Parentheses::closed()), ('(', ')'));
    assert_eq!((SquareBrackets::open(), SquareBrackets::closed()), ('[', ']'));
    assert_eq!((CurlyBrackets::open(), CurlyBrackets::closed()), ('{', '}'));
    assert_eq!((AngleBrackets::open(), AngleBrackets::closed()), ('<', '>'));
    let ctx = context_of(vec![("name", Value::String("x".to_string()))]);
    let t = Template::parse_delimited::<SquareBrackets>("a [name] [[b]]").unwrap();
    assert_eq!(t.format(&ctx).unwrap(), "a x [b]");
    assert_eq!(
        Template::parse_delimited::<Parentheses>("(a").err(),
        Some(TemplateError::MissingClosedDelimiter(')'))
    );
}

#[test]
fn numbers_that_denote_nothing_are_unknown() {
    assert_eq!(
        Template::tokenize("1.2.3"),
        vec![
            Token::Unknown('1'),
            Token::Unknown('.'),
            Token::Unknown('2'),
            Token::Unknown('.'),
            Token::Unknown('3'),
        ]
    );
    assert_eq!(
        Template::tokenize("9223372036854775807"),
        vec![Token::Int(i64::MAX)]
    );
    assert_eq!(
        Template::tokenize("-9223372036854775808"),
        vec![Token::Int(i64::MIN)]
    );
    let tokens = Template::tokenize("9223372036854775808");
    assert_eq!(tokens.len(), 19);
    assert_eq!(tokens[0], Token::Unknown('9'));
    assert_eq!(tokens[18], Token::Unknown('8'));
}

#[test]
fn token_classes() {
    assert_eq!(Template::tokenize(""), Vec::<Token>::new());
    assert_eq!(
        Template::tokenize("a.b"),
        vec![
            Token::Slice("a".to_string()),
            Token::Symbol('.'),
            Token::Slice("b".to_string()),
        ]
    );
    assert_eq!(
        Template::tokenize(".5"),
        vec![Token::Float(".5".to_string())]
    );
    assert_eq!(
        Template::tokenize("5."),
        vec![Token::Float("5.".to_string())]
    );
    assert_eq!(
        Template::tokenize("-.5"),
        vec![Token::Symbol('-'), Token::Float(".5".to_string())]
    );
    assert_eq!(
        Template::tokenize("1-2"),
        vec![Token::Int(1), Token::Int(-2)]
    );
    // a superscript two is alphanumeric, but neither a letter nor an ASCII digit
    assert_eq!(Template::tokenize("\u{b2}"), vec![Token::Unknown('\u{b2}')]);
    assert_eq!(
        Template::tokenize("\u{e9}t\u{e9} \t_"),
        vec![Token::Slice("\u{e9}t\u{e9} \t_".to_string())]
    );
}

#[test]
fn token_texts() {
    assert_eq!(Token::Slice("ab".to_string()).to_string(), "ab");
    assert_eq!(Token::Symbol(':').to_string(), ":");
    assert_eq!(Token::Int(-17).to_string(), "-17");
    assert_eq!(Token::Int(0).to_string(), "0");
    assert_eq!(Token::Float("-3.40".to_string()).to_string(), "-3.40");
    assert_eq!(Token::Unknown('\u{b2}').to_string(), "\u{b2}");
    assert_eq!(Value::String("x".to_string()).to_string(), "x");
    assert_eq!(Value::Int(1234567890).to_string(), "1234567890");
    assert_eq!(Value::Bool(true).to_string(), "true");
}

#[test]
fn error_messages() {
    assert_eq!(
        TemplateError::MissingOpenDelimiter('{').to_string(),
        "There's a missing '{' in your template."
    );
    assert_eq!(
        TemplateError::MissingClosedDelimiter('}').to_string(),
        "There's a missing '}' in your template."
    );
    assert_eq!(
        TemplateError::MissingDelimiter('|').to_string(),
        "There's a missing '|' in your template."
    );
    assert_eq!(
        TemplateError::NoValueFound("name".to_string()).to_string(),
        "Trying to use a value that doesn't exist: 'name' doesn't point to any value"
    );
    assert_eq!(
        TemplateError::DirectiveParsing("x y".to_string()).to_string(),
        "Could not parse a directive for the literal 'x y'"
    );
    assert_eq!(
        TemplateError::ExecutionError("why".to_string()).to_string(),
        "There was an error while exectuting a directive: why"
    );
}

#[test]
fn directives_alone() {
    let ctx = context_of(vec![("k", Value::Int(7))]);
    assert_eq!(NoDirective("k".to_string()).execute(&ctx).unwrap(), "k");
    assert_eq!(ReplaceDirective("k".to_string()).execute(&ctx).unwrap(), "7");
    assert_eq!(
        ReplaceDirective("j".to_string()).execute(&ctx),
        Err(TemplateError::NoValueFound("j".to_string()))
    );
    let c = ConditionalDirective {
        condition: "k".to_string(),
        parts: ("yes".to_string(), "no".to_string()),
    };
    assert_eq!(c.execute(&ctx).unwrap(), "yes");
    let b = BuiltinDirective::Replace(ReplaceDirective("k".to_string()));
    assert_eq!(b.execute(&ctx).unwrap(), "7");
}

#[test]
fn default_parser_grammar() {
    let tokens = Template::tokenize("name");
    assert!(matches!(
        DefaultParser::parse(&tokens, "name"),
        Some(BuiltinDirective::Replace(_))
    ));
    let tokens = Template::tokenize("a:3");
    assert!(matches!(
        DefaultParser::parse(&tokens, "a:3"),
        Some(BuiltinDirective::Repeat(_))
    ));
    let tokens = Template::tokenize("a?b:c");
    assert!(matches!(
        DefaultParser::parse(&tokens, "a?b:c"),
        Some(BuiltinDirective::Conditional(_))
    ));
    let tokens = Template::tokenize("a?3:c");
    assert!(matches!(
        DefaultParser::parse(&tokens, "a?3:c"),
        Some(BuiltinDirective::No(_))
    ));
    let tokens = Template::tokenize("12");
    assert!(matches!(
        DefaultParser::parse(&tokens, "12"),
        Some(BuiltinDirective::No(_))
    ));
}

#[test]
fn context_binds_names() {
    let mut ctx = Context::new();
    assert_eq!(ctx.len(), 0);
    assert!(ctx.get("a").is_none());
    ctx.insert("a", Value::Int(1));
    ctx.insert("a", Value::Int(2));
    ctx.insert("b", Value::Bool(false));
    assert_eq!(ctx.len(), 2);
    assert_eq!(ctx.get("a"), Some(&Value::Int(2)));
    assert!(ctx.contains_key("b"));
    assert!(!ctx.contains_key("c"));
}

struct ListingVariables;

impl VariableNames for ListingVariables {
    fn strings() -> &'static [&'static str] {
        &["name", "both"]
    }

    fn ints() -> &'static [&'static str] {
        &["offset", "both"]
    }

    fn uints() -> &'static [&'static str] {
        &["size"]
    }

    fn booleans() -> &'static [&'static str] {
        &["hidden"]
    }
}

#[test]
fn variable_kinds() {
    assert_eq!(
        ListingVariables::kind("name"),
        VariableKind::String("name".to_string())
    );
    assert_eq!(
        ListingVariables::kind("offset"),
        VariableKind::Int("offset".to_string())
    );
    assert_eq!(
        ListingVariables::kind("both"),
        VariableKind::Int("both".to_string())
    );
    assert_eq!(
        ListingVariables::kind("size"),
        VariableKind::UInt("size".to_string())
    );
    assert_eq!(
        ListingVariables::kind("hidden"),
        VariableKind::Bool("hidden".to_string())
    );
    assert_eq!(
        ListingVariables::kind("other"),
        VariableKind::Literal("other".to_string())
    );
    assert_eq!(
        EmtpyVariables::kind("name"),
        VariableKind::Literal("name".to_string())
    );
    assert_eq!(VariableKind::UInt("x".to_string()).to_string(), "uint");
    assert_eq!(VariableKind::Literal("x".to_string()).to_string(), "literal");
}
