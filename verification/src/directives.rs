//! Directives, the executable units that bracketed segments become, and the
//! parsers that make them from tokens.

use vstd::prelude::*;
use vstd::string::StringExecFns;
use crate::error::{outcome_of, ErrorView, Outcome, TemplateError};
use crate::text::{all_digits, char_at, chars_of, digits_value, parse_digits};
use crate::token::{token_text, tokens_view, Token, TokenView};
use crate::value::{value_text, Context, ContextView, Value, ValueView};

verus! {

/// Something that can be executed against a context to produce text.
///
/// `yields` says which results `execute` may end in. The directives of this
/// crate allow exactly one result for each context. A directive that
/// promises nothing leaves `yields` as it is, and every result is allowed.
pub trait Directive {
    /// Whether executing this directive against `ctx` may end in `result`.
    open spec fn yields(&self, ctx: ContextView, result: Outcome) -> bool {
        true
    }

    /// Executes the directive against `ctx`.
    fn execute(&self, ctx: &Context) -> (r: Result<String, TemplateError>)
        ensures
            self.yields(ctx@, outcome_of(r)),
    ;
}

/// A strategy that turns the tokens of a bracketed segment into a directive.
///
/// `makes` says which results `parse` may end in. The parsers of this crate
/// allow exactly one result for each segment. A parser that promises
/// nothing leaves `makes` as it is, and every result is allowed.
pub trait Parser {
    /// The directives that this strategy makes.
    type Output: Directive;

    /// Whether parsing a segment with these tokens and this text may end in
    /// `result`.
    open spec fn makes(
        tokens: Seq<TokenView>,
        content: Seq<char>,
        result: Option<Self::Output>,
    ) -> bool {
        true
    }

    /// The directive for a segment, given its tokens and its text; `None`
    /// when the strategy does not recognise the segment.
    fn parse(tokens: &[Token], content: &str) -> (r: Option<Self::Output>)
        ensures
            Self::makes(tokens_view(tokens@), content@, r),
    ;
}

/// What [`ReplaceDirective`] yields: the text of the value that `name` is
/// bound to, or `NoValueFound` when it is bound to none.
pub open spec fn replace_output(name: Seq<char>, ctx: ContextView) -> Outcome {
    if ctx.contains_key(name) {
        Ok(value_text(ctx[name]))
    } else {
        Err(ErrorView::NoValueFound(name))
    }
}

/// `pattern` written `count` times in a row.
pub open spec fn repeat_text(pattern: Seq<char>, count: nat) -> Seq<char>
    decreases count,
{
    if count == 0 {
        Seq::empty()
    } else {
        repeat_text(pattern, (count - 1) as nat) + pattern
    }
}

/// The count that a literal text denotes: an optional plus sign, then at
/// least one digit, and a value that fits 64 bits. `None` for any other text.
pub open spec fn literal_count(text: Seq<char>) -> Option<u64> {
    let digits = if text.len() > 0 && text[0] == '+' {
        text.subrange(1, text.len() as int)
    } else {
        text
    };
    if digits.len() > 0 && all_digits(digits) && digits_value(digits) <= u64::MAX {
        Some(digits_value(digits) as u64)
    } else {
        None
    }
}

/// The count of a repetition. A name that the context binds must be bound to
/// a non-negative integer; any other text must itself denote a count.
pub open spec fn repeat_count(count: Seq<char>, ctx: ContextView) -> Option<u64> {
    if ctx.contains_key(count) {
        match ctx[count] {
            ValueView::Int(i) => if i >= 0 {
                Some(i as u64)
            } else {
                None
            },
            _ => None,
        }
    } else {
        literal_count(count)
    }
}

/// The pattern of a repetition: the text of the value that `pattern` is
/// bound to, or `pattern` itself when it is bound to none.
pub open spec fn repeat_pattern(pattern: Seq<char>, ctx: ContextView) -> Seq<char> {
    if ctx.contains_key(pattern) {
        value_text(ctx[pattern])
    } else {
        pattern
    }
}

/// The reason given when the count of a repetition is no non-negative
/// integer.
pub open spec fn count_error() -> Seq<char> {
    "Could not parse a numeric value for the repeat count"@
}

/// What [`RepeatDirective`] yields: the pattern, as many times as the count
/// says, or an `ExecutionError` when the count is no non-negative integer.
pub open spec fn repeat_output(pattern: Seq<char>, count: Seq<char>, ctx: ContextView) -> Outcome {
    match repeat_count(count, ctx) {
        Some(n) => Ok(repeat_text(repeat_pattern(pattern, ctx), n as nat)),
        None => Err(ErrorView::ExecutionError(count_error())),
    }
}

/// Whether a condition holds: a name bound to a truth value holds if the
/// value is true, a name bound to anything else holds, and a name bound to
/// nothing does not.
pub open spec fn truthy(condition: Seq<char>, ctx: ContextView) -> bool {
    ctx.contains_key(condition) && match ctx[condition] {
        ValueView::Bool(b) => b,
        _ => true,
    }
}

/// What [`ConditionalDirective`] yields: one of its two texts, as they are.
pub open spec fn conditional_output(
    condition: Seq<char>,
    if_true: Seq<char>,
    if_false: Seq<char>,
    ctx: ContextView,
) -> Outcome {
    if truthy(condition, ctx) {
        Ok(if_true)
    } else {
        Ok(if_false)
    }
}

/// The fallback directive: it yields the text it holds, whatever the
/// context.
#[derive(Debug)]
pub struct NoDirective(pub String);

impl Directive for NoDirective {
    open spec fn yields(&self, ctx: ContextView, result: Outcome) -> bool {
        result == Ok::<Seq<char>, ErrorView>(self.0@)
    }

    fn execute(&self, ctx: &Context) -> (r: Result<String, TemplateError>) {
        Ok(self.0.clone())
    }
}

/// Replaces a name by the value that the context binds it to.
#[derive(Debug)]
pub struct ReplaceDirective(pub String);

impl Directive for ReplaceDirective {
    open spec fn yields(&self, ctx: ContextView, result: Outcome) -> bool {
        result == replace_output(self.0@, ctx)
    }

    fn execute(&self, ctx: &Context) -> (r: Result<String, TemplateError>) {
        match ctx.get(self.0.as_str()) {
            Some(v) => Ok(v.to_string()),
            None => Err(TemplateError::NoValueFound(self.0.clone())),
        }
    }
}

/// Repeats a pattern a number of times. Both the pattern and the count are
/// looked up in the context first and taken literally when they are not
/// bound.
#[derive(Debug)]
pub struct RepeatDirective(pub String, pub String);

/// Reads a literal count.
pub fn parse_count(text: &str) -> (r: Option<u64>)
    ensures
        r == literal_count(text@),
{
    let v = chars_of(text);
    if v.len() == 0 {
        return None;
    }
    let start: usize = if char_at(&v, 0) == '+' {
        1
    } else {
        0
    };
    if start == v.len() {
        return None;
    }
    proof {
        if start == 0 {
            assert(v@.subrange(0, v.len() as int) =~= v@);
        }
    }
    parse_digits(&v, start, v.len(), u64::MAX)
}

/// `pattern` written `count` times in a row.
pub fn repeat(pattern: &str, count: u64) -> (out: String)
    ensures
        out@ == repeat_text(pattern@, count as nat),
{
    let mut out = String::new();
    let mut k: u64 = 0;
    while k < count
        invariant
            k <= count,
            out@ == repeat_text(pattern@, k as nat),
        decreases count - k,
    {
        out.append(pattern);
        k += 1;
    }
    out
}

impl Directive for RepeatDirective {
    open spec fn yields(&self, ctx: ContextView, result: Outcome) -> bool {
        result == repeat_output(self.0@, self.1@, ctx)
    }

    fn execute(&self, ctx: &Context) -> (r: Result<String, TemplateError>) {
        let pattern = match ctx.get(self.0.as_str()) {
            Some(p) => p.to_string(),
            None => self.0.clone(),
        };
        let count: Option<u64> = match ctx.get(self.1.as_str()) {
            Some(c) => match c {
                Value::Int(i) => if *i >= 0 {
                    Some(*i as u64)
                } else {
                    None
                },
                _ => None,
            },
            None => parse_count(self.1.as_str()),
        };
        match count {
            Some(n) => Ok(repeat(pattern.as_str(), n)),
            None => Err(
                TemplateError::ExecutionError(
                    "Could not parse a numeric value for the repeat count".to_owned(),
                ),
            ),
        }
    }
}

/// Yields one of two texts, depending on whether a condition holds in the
/// context. Neither text is looked up or parsed again.
#[derive(Debug)]
pub struct ConditionalDirective {
    pub condition: String,
    pub parts: (String, String),
}

impl Directive for ConditionalDirective {
    open spec fn yields(&self, ctx: ContextView, result: Outcome) -> bool {
        result == conditional_output(self.condition@, self.parts.0@, self.parts.1@, ctx)
    }

    fn execute(&self, ctx: &Context) -> (r: Result<String, TemplateError>) {
        let holds = match ctx.get(self.condition.as_str()) {
            Some(v) => match v {
                Value::Bool(b) => *b,
                _ => true,
            },
            None => false,
        };
        if holds {
            Ok(self.parts.0.clone())
        } else {
            Ok(self.parts.1.clone())
        }
    }
}

/// What the default grammar makes of a segment, as a mathematical value.
pub enum Builtin {
    /// `name`: the value that `name` is bound to.
    Replace(Seq<char>),
    /// `pattern:count`: a repetition.
    Repeat(Seq<char>, Seq<char>),
    /// `condition?yes:no`: a choice between two texts.
    Conditional(Seq<char>, Seq<char>, Seq<char>),
    /// Anything else: the text of the segment, as it is.
    NoOp(Seq<char>),
}

/// The default grammar, matched by position over the tokens: one slice is a
/// replacement; three tokens with a colon in the middle are a repetition of
/// the text of the first, by the text of the third; slice, question mark,
/// slice, colon, slice is a choice; anything else stands for itself.
pub open spec fn default_directive(tokens: Seq<TokenView>, content: Seq<char>) -> Builtin {
    if tokens.len() == 1 && tokens[0] is Slice {
        Builtin::Replace(tokens[0]->Slice_0)
    } else if tokens.len() == 3 && tokens[1] == TokenView::Symbol(':') {
        Builtin::Repeat(token_text(tokens[0]), token_text(tokens[2]))
    } else if tokens.len() == 5 && tokens[0] is Slice && tokens[1] == TokenView::Symbol('?')
        && tokens[2] is Slice && tokens[3] == TokenView::Symbol(':') && tokens[4] is Slice {
        Builtin::Conditional(tokens[0]->Slice_0, tokens[2]->Slice_0, tokens[4]->Slice_0)
    } else {
        Builtin::NoOp(content)
    }
}

/// What a directive of the default grammar yields for `ctx`.
pub open spec fn builtin_output(directive: Builtin, ctx: ContextView) -> Outcome {
    match directive {
        Builtin::Replace(name) => replace_output(name, ctx),
        Builtin::Repeat(pattern, count) => repeat_output(pattern, count, ctx),
        Builtin::Conditional(condition, if_true, if_false) => conditional_output(
            condition,
            if_true,
            if_false,
            ctx,
        ),
        Builtin::NoOp(text) => Ok(text),
    }
}

/// A directive of the default grammar.
#[derive(Debug)]
pub enum BuiltinDirective {
    No(NoDirective),
    Replace(ReplaceDirective),
    Repeat(RepeatDirective),
    Conditional(ConditionalDirective),
}

impl View for BuiltinDirective {
    type V = Builtin;

    open spec fn view(&self) -> Builtin {
        match self {
            BuiltinDirective::No(d) => Builtin::NoOp(d.0@),
            BuiltinDirective::Replace(d) => Builtin::Replace(d.0@),
            BuiltinDirective::Repeat(d) => Builtin::Repeat(d.0@, d.1@),
            BuiltinDirective::Conditional(d) => Builtin::Conditional(
                d.condition@,
                d.parts.0@,
                d.parts.1@,
            ),
        }
    }
}

impl Directive for BuiltinDirective {
    open spec fn yields(&self, ctx: ContextView, result: Outcome) -> bool {
        result == builtin_output(self@, ctx)
    }

    fn execute(&self, ctx: &Context) -> (r: Result<String, TemplateError>) {
        match self {
            BuiltinDirective::No(d) => d.execute(ctx),
            BuiltinDirective::Replace(d) => d.execute(ctx),
            BuiltinDirective::Repeat(d) => d.execute(ctx),
            BuiltinDirective::Conditional(d) => d.execute(ctx),
        }
    }
}

/// The parser of the default grammar. It recognises every segment: what
/// fits no other rule stands for itself.
pub struct DefaultParser;

fn is_symbol(token: &Token, c: char) -> (b: bool)
    ensures
        b == (token@ == TokenView::Symbol(c)),
{
    match token {
        Token::Symbol(s) => *s == c,
        _ => false,
    }
}

impl Parser for DefaultParser {
    type Output = BuiltinDirective;

    open spec fn makes(
        tokens: Seq<TokenView>,
        content: Seq<char>,
        result: Option<BuiltinDirective>,
    ) -> bool {
        match result {
            Some(d) => d@ == default_directive(tokens, content),
            None => false,
        }
    }

    fn parse(tokens: &[Token], content: &str) -> (r: Option<BuiltinDirective>) {
        let ghost views = tokens_view(tokens@);
        let n = tokens.len();
        proof {
            if n >= 1 {
                assert(views[0] == tokens@[0]@);
            }
            if n >= 3 {
                assert(views[1] == tokens@[1]@);
                assert(views[2] == tokens@[2]@);
            }
            if n >= 5 {
                assert(views[3] == tokens@[3]@);
                assert(views[4] == tokens@[4]@);
            }
        }
        if n == 1 {
            if let Token::Slice(name) = &tokens[0] {
                return Some(BuiltinDirective::Replace(ReplaceDirective(name.clone())));
            }
        }
        if n == 3 && is_symbol(&tokens[1], ':') {
            return Some(
                BuiltinDirective::Repeat(
                    RepeatDirective(tokens[0].to_string(), tokens[2].to_string()),
                ),
            );
        }
        if n == 5 && is_symbol(&tokens[1], '?') && is_symbol(&tokens[3], ':') {
            if let Token::Slice(condition) = &tokens[0] {
                if let Token::Slice(if_true) = &tokens[2] {
                    if let Token::Slice(if_false) = &tokens[4] {
                        return Some(
                            BuiltinDirective::Conditional(
                                ConditionalDirective {
                                    condition: condition.clone(),
                                    parts: (if_true.clone(), if_false.clone()),
                                },
                            ),
                        );
                    }
                }
            }
        }
        Some(BuiltinDirective::No(NoDirective(content.to_owned())))
    }
}

} // verus!
