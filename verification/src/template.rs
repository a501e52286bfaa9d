//! Templates: a string is validated, cut into literal text and bracketed
//! segments, and each segment becomes a directive; the template is then
//! formatted against a context as often as needed.

use vstd::prelude::*;
use vstd::string::StringExecFns;
use crate::delimiters::Delimiter;
use crate::directives::{BuiltinDirective, DefaultParser, Directive, Parser};
use crate::error::{outcome_of, ErrorView, Outcome, TemplateError};
use crate::text::{char_at, chars_of, count_char, occurrences, push_char, string_of};
use crate::token::{lex, tokenize, tokens_view, Token};
use crate::value::{Context, ContextView};

verus! {

/// How the output of a template is to be justified in a column.
#[derive(Debug, Clone, Copy, PartialEq, Eq)]
pub enum Alignment {
    /// Flush left (`<`).
    Left,
    /// Flush right (`>`).
    Right,
    /// Centred (`^`).
    Center,
}

impl Default for Alignment {
    fn default() -> (a: Alignment)
        ensures
            a == Alignment::Left,
    {
        Alignment::Left
    }
}

/// The alignment that a marker character stands for, if it is one.
pub open spec fn alignment_of(c: char) -> Option<Alignment> {
    if c == '<' {
        Some(Alignment::Left)
    } else if c == '>' {
        Some(Alignment::Right)
    } else if c == '^' {
        Some(Alignment::Center)
    } else {
        None
    }
}

impl Alignment {
    /// The alignment that `ch` stands for: `<` left, `>` right, `^` centred;
    /// `None` for any other character.
    pub fn from_char(ch: char) -> (r: Option<Alignment>)
        ensures
            r == alignment_of(ch),
    {
        if ch == '<' {
            Some(Alignment::Left)
        } else if ch == '>' {
            Some(Alignment::Right)
        } else if ch == '^' {
            Some(Alignment::Center)
        } else {
            None
        }
    }
}

/// One part of a template: text to copy, or a directive to execute.
pub enum Part<D> {
    /// Text that goes to the output as it is.
    Literal(String),
    /// A directive whose result goes to the output.
    Directive(D),
}

/// Whether a part may contribute `result` to the output for `ctx`: a
/// literal contributes its text, a directive what it yields.
pub open spec fn part_yields<D: Directive>(part: Part<D>, ctx: ContextView, result: Outcome) -> bool {
    match part {
        Part::Literal(text) => result == Ok::<Seq<char>, ErrorView>(text@),
        Part::Directive(d) => d.yields(ctx, result),
    }
}

/// The output after one more part: what came before and then the
/// contribution of the part, or the error of the part.
pub open spec fn extended(before: Seq<char>, last: Outcome) -> Outcome {
    match last {
        Ok(text) => Ok(before + text),
        Err(e) => Err(e),
    }
}

/// Whether formatting a sequence of parts against `ctx` may end in
/// `result`: in the contributions of all parts in order, or in the error of
/// the first part that fails, with nothing after it executed.
pub open spec fn renders<D: Directive>(parts: Seq<Part<D>>, ctx: ContextView, result: Outcome) -> bool
    decreases parts.len(),
{
    if parts.len() == 0 {
        result == Ok::<Seq<char>, ErrorView>(Seq::empty())
    } else {
        ||| result is Err && renders(parts.drop_last(), ctx, result)
        ||| exists|before: Seq<char>, last: Outcome|
            {
                &&& renders(parts.drop_last(), ctx, Ok(before))
                &&& part_yields(parts.last(), ctx, last)
                &&& result == #[trigger] extended(before, last)
            }
    }
}

/// Once a prefix of the parts has ended in an error, the whole ends in it.
pub proof fn lemma_renders_error<D: Directive>(
    parts: Seq<Part<D>>,
    k: int,
    ctx: ContextView,
    result: Outcome,
)
    requires
        0 <= k <= parts.len(),
        result is Err,
        renders(parts.take(k), ctx, result),
    ensures
        renders(parts, ctx, result),
    decreases parts.len(),
{
    if k == parts.len() {
        assert(parts.take(k) == parts);
    } else {
        assert(parts.drop_last().take(k) == parts.take(k));
        lemma_renders_error(parts.drop_last(), k, ctx, result);
    }
}

/// The parts so far have given `before`, and the next part has given
/// `last`: together they have given the two in a row, or the error of the
/// last.
pub proof fn lemma_renders_step<D: Directive>(
    parts: Seq<Part<D>>,
    ctx: ContextView,
    before: Seq<char>,
    last: Outcome,
)
    requires
        parts.len() > 0,
        renders(parts.drop_last(), ctx, Ok(before)),
        part_yields(parts.last(), ctx, last),
    ensures
        renders(parts, ctx, extended(before, last)),
{
}

/// The verdict of the validator on a text with two different delimiters,
/// from position `i` on and with `depth` segments open: `None` when the
/// delimiters balance. A doubled delimiter is an escape and counts for
/// nothing; a closing delimiter at depth 0 misses its opening delimiter; a
/// depth above 0 at the end misses a closing delimiter.
pub open spec fn balance(s: Seq<char>, open: char, closed: char, i: int, depth: nat) -> Option<
    ErrorView,
>
    decreases s.len() - i,
{
    if i < 0 || i >= s.len() {
        if depth > 0 {
            Some(ErrorView::MissingClosedDelimiter(closed))
        } else {
            None
        }
    } else if s[i] == open {
        if i + 1 < s.len() && s[i + 1] == open {
            balance(s, open, closed, i + 2, depth)
        } else {
            balance(s, open, closed, i + 1, depth + 1)
        }
    } else if s[i] == closed {
        if i + 1 < s.len() && s[i + 1] == closed {
            balance(s, open, closed, i + 2, depth)
        } else if depth == 0 {
            Some(ErrorView::MissingOpenDelimiter(open))
        } else {
            balance(s, open, closed, i + 1, (depth - 1) as nat)
        }
    } else {
        balance(s, open, closed, i + 1, depth)
    }
}

/// The verdict of the validator: `None` when the delimiters of `s` balance.
/// With one character for both delimiters, they balance when it occurs an
/// even number of times.
pub open spec fn validation(s: Seq<char>, open: char, closed: char) -> Option<ErrorView> {
    if open == closed {
        if occurrences(s, open) % 2 == 1 {
            Some(ErrorView::MissingDelimiter(open))
        } else {
            None
        }
    } else {
        balance(s, open, closed, 0, 0)
    }
}

/// A stretch of a template text.
pub enum Segment {
    /// Text outside brackets, with escapes already collapsed.
    Literal(Seq<char>),
    /// The text between an opening delimiter and the next closing one.
    Bracket(Seq<char>),
}

/// How many characters from position `i` on come before the first closing
/// delimiter, or before the end of the text if there is none.
pub open spec fn content_len(s: Seq<char>, closed: char, i: int) -> nat
    decreases s.len() - i,
{
    if 0 <= i < s.len() && s[i] != closed {
        1 + content_len(s, closed, i + 1)
    } else {
        0
    }
}

/// The content of a bracket never leaves the text.
pub proof fn lemma_content_within(s: Seq<char>, closed: char, i: int)
    requires
        0 <= i <= s.len(),
    ensures
        i + content_len(s, closed, i) <= s.len(),
    decreases s.len() - i,
{
    if i < s.len() && s[i] != closed {
        lemma_content_within(s, closed, i + 1);
    }
}

/// The literal collected so far as a segment, if there is any.
pub open spec fn flushed(literal: Seq<char>) -> Seq<Segment> {
    if literal.len() > 0 {
        seq![Segment::Literal(literal)]
    } else {
        Seq::empty()
    }
}

/// The segments of `s` from position `i` on, with `literal` collected
/// before it. A doubled delimiter stands for itself in the literal; an
/// opening delimiter starts a bracket that runs up to the next closing
/// delimiter; a lone closing delimiter is literal text.
pub open spec fn scan(s: Seq<char>, open: char, closed: char, i: int, literal: Seq<char>) -> Seq<
    Segment,
>
    decreases s.len() - i,
    via scan_terminates
{
    if i < 0 || i >= s.len() {
        flushed(literal)
    } else if s[i] == open {
        if i + 1 < s.len() && s[i + 1] == open {
            scan(s, open, closed, i + 2, literal.push(open))
        } else {
            let n = content_len(s, closed, i + 1);
            let next = if i + 1 + n < s.len() {
                i + 2 + n
            } else {
                s.len() as int
            };
            flushed(literal) + seq![Segment::Bracket(s.subrange(i + 1, i + 1 + n))] + scan(
                s,
                open,
                closed,
                next,
                Seq::empty(),
            )
        }
    } else if s[i] == closed {
        if i + 1 < s.len() && s[i + 1] == closed {
            scan(s, open, closed, i + 2, literal.push(closed))
        } else {
            scan(s, open, closed, i + 1, literal.push(closed))
        }
    } else {
        scan(s, open, closed, i + 1, literal.push(s[i]))
    }
}

#[via_fn]
proof fn scan_terminates(s: Seq<char>, open: char, closed: char, i: int, literal: Seq<char>) {
    if 0 <= i < s.len() {
        lemma_content_within(s, closed, i + 1);
    }
}

/// The segments of a template text.
pub open spec fn segments(s: Seq<char>, open: char, closed: char) -> Seq<Segment> {
    scan(s, open, closed, 0, Seq::empty())
}

/// The alignment that the raw text of a bracket asks for: that of its last
/// character, if that is a marker.
pub open spec fn marker_of(raw: Seq<char>) -> Option<Alignment> {
    if raw.len() > 0 {
        alignment_of(raw.last())
    } else {
        None
    }
}

/// The content of a bracket: its raw text without the alignment marker.
pub open spec fn content_of(raw: Seq<char>) -> Seq<char> {
    if marker_of(raw) is Some {
        raw.drop_last()
    } else {
        raw
    }
}

/// The alignment of a template with these segments: that of the last
/// bracket that has a marker, and `start` if none has.
pub open spec fn alignment_after(segs: Seq<Segment>, start: Alignment) -> Alignment
    decreases segs.len(),
{
    if segs.len() == 0 {
        start
    } else {
        let before = alignment_after(segs.drop_last(), start);
        match segs.last() {
            Segment::Bracket(raw) => match marker_of(raw) {
                Some(a) => a,
                None => before,
            },
            Segment::Literal(_) => before,
        }
    }
}

/// Whether `part` is what the parser `P` may make of `seg`: the same text
/// for a literal; for a bracket, a directive that `P` may make of the
/// content.
pub open spec fn part_matches<P: Parser>(part: Part<P::Output>, seg: Segment) -> bool {
    match seg {
        Segment::Literal(text) => match part {
            Part::Literal(t) => t@ == text,
            Part::Directive(_) => false,
        },
        Segment::Bracket(raw) => match part {
            Part::Literal(_) => false,
            Part::Directive(d) => P::makes(lex(content_of(raw)), content_of(raw), Some(d)),
        },
    }
}

/// Whether `parts` are, one for one, what the parser `P` may make of
/// `segs`.
pub open spec fn describes<P: Parser>(parts: Seq<Part<P::Output>>, segs: Seq<Segment>) -> bool {
    &&& parts.len() == segs.len()
    &&& forall|k: int| 0 <= k < segs.len() ==> #[trigger] part_matches::<P>(parts[k], segs[k])
}

/// Whether parsing may end in `error` because the parser `P` made nothing
/// of the segment at position `k`: the segment is a bracket, `P` may answer
/// its content with `None`, and the error is `DirectiveParsing` with that
/// content; and `P` may have made parts of all segments before it.
pub open spec fn refused<P: Parser>(segs: Seq<Segment>, k: int, error: ErrorView) -> bool {
    &&& 0 <= k < segs.len()
    &&& exists|parts: Seq<Part<P::Output>>| #[trigger] describes::<P>(parts, segs.take(k))
    &&& match segs[k] {
        Segment::Bracket(raw) => {
            &&& P::makes(lex(content_of(raw)), content_of(raw), None)
            &&& error == ErrorView::DirectiveParsing(content_of(raw))
        },
        Segment::Literal(_) => false,
    }
}

proof fn lemma_describes_push<P: Parser>(
    parts: Seq<Part<P::Output>>,
    segs: Seq<Segment>,
    part: Part<P::Output>,
    seg: Segment,
)
    requires
        describes::<P>(parts, segs),
        part_matches::<P>(part, seg),
    ensures
        describes::<P>(parts.push(part), segs.push(seg)),
{
    assert forall|k: int| 0 <= k < segs.push(seg).len() implies #[trigger] part_matches::<P>(
        parts.push(part)[k],
        segs.push(seg)[k],
    ) by {
        if k < segs.len() {
            assert(part_matches::<P>(parts[k], segs[k]));
        }
    }
}

proof fn lemma_alignment_push(segs: Seq<Segment>, seg: Segment, start: Alignment)
    ensures
        alignment_after(segs.push(seg), start) == match seg {
            Segment::Bracket(raw) => match marker_of(raw) {
                Some(a) => a,
                None => alignment_after(segs, start),
            },
            Segment::Literal(_) => alignment_after(segs, start),
        },
{
    assert(segs.push(seg).drop_last() =~= segs);
}

/// A parsed template: its parts in the order of the text, and one
/// alignment for the whole.
pub struct Template<D> {
    parts: Vec<Part<D>>,
    alignment: Alignment,
}

/// The mathematical value of a [`Template`].
pub struct TemplateView<D> {
    pub parts: Seq<Part<D>>,
    pub alignment: Alignment,
}

impl<D> View for Template<D> {
    type V = TemplateView<D>;

    closed spec fn view(&self) -> TemplateView<D> {
        TemplateView { parts: self.parts@, alignment: self.alignment }
    }
}

fn check_balance(v: &Vec<char>, open: char, closed: char) -> (r: Result<(), TemplateError>)
    ensures
        match r {
            Ok(_) => balance(v@, open, closed, 0, 0) is None,
            Err(e) => balance(v@, open, closed, 0, 0) == Some(e@),
        },
{
    let n = v.len();
    let mut i: usize = 0;
    let mut depth: usize = 0;
    while i < n
        invariant
            n == v.len(),
            i <= n,
            depth <= i,
            balance(v@, open, closed, i as int, depth as nat) == balance(v@, open, closed, 0, 0),
        decreases n - i,
    {
        let c = char_at(v, i);
        if c == open {
            if i + 1 < n && char_at(v, i + 1) == open {
                i += 2;
            } else {
                depth += 1;
                i += 1;
            }
        } else if c == closed {
            if i + 1 < n && char_at(v, i + 1) == closed {
                i += 2;
            } else if depth == 0 {
                return Err(TemplateError::MissingOpenDelimiter(open));
            } else {
                depth -= 1;
                i += 1;
            }
        } else {
            i += 1;
        }
    }
    if depth > 0 {
        Err(TemplateError::MissingClosedDelimiter(closed))
    } else {
        Ok(())
    }
}

fn check_delimiters(v: &Vec<char>, open: char, closed: char) -> (r: Result<(), TemplateError>)
    ensures
        match r {
            Ok(_) => validation(v@, open, closed) is None,
            Err(e) => validation(v@, open, closed) == Some(e@),
        },
{
    if open == closed {
        let count = count_char(v, 0, v.len(), open);
        assert(v@.subrange(0, v.len() as int) =~= v@);
        if count % 2 == 1 {
            Err(TemplateError::MissingDelimiter(open))
        } else {
            Ok(())
        }
    } else {
        check_balance(v, open, closed)
    }
}

fn find_close(v: &Vec<char>, closed: char, start: usize) -> (end: usize)
    requires
        start <= v.len(),
    ensures
        end == start + content_len(v@, closed, start as int),
        end <= v.len(),
{
    let mut end: usize = start;
    while end < v.len() && char_at(v, end) != closed
        invariant
            start <= end <= v.len(),
            end + content_len(v@, closed, end as int) == start + content_len(
                v@,
                closed,
                start as int,
            ),
        decreases v.len() - end,
    {
        end += 1;
    }
    end
}

/// The raw text of the bracket whose content starts at position `start`.
pub open spec fn bracket_text(s: Seq<char>, closed: char, start: int) -> Seq<char> {
    s.subrange(start, start + content_len(s, closed, start))
}

/// The position after the bracket whose content starts at position `start`:
/// behind its closing delimiter, or the end of the text if it has none.
pub open spec fn bracket_end(s: Seq<char>, closed: char, start: int) -> int {
    if start + content_len(s, closed, start) < s.len() {
        start + content_len(s, closed, start) + 1
    } else {
        s.len() as int
    }
}

struct Bracket {
    content: String,
    marker: Option<Alignment>,
    next: usize,
}

fn read_bracket(v: &Vec<char>, closed: char, start: usize) -> (b: Bracket)
    requires
        start <= v.len(),
    ensures
        b.content@ == content_of(bracket_text(v@, closed, start as int)),
        b.marker == marker_of(bracket_text(v@, closed, start as int)),
        b.next == bracket_end(v@, closed, start as int),
        start <= b.next <= v.len(),
{
    let end = find_close(v, closed, start);
    let ghost raw = v@.subrange(start as int, end as int);
    let mut stop: usize = end;
    let mut marker: Option<Alignment> = None;
    if end > start {
        let last = char_at(v, end - 1);
        assert(raw.last() == last);
        marker = Alignment::from_char(last);
        if marker.is_some() {
            stop = end - 1;
        }
    }
    let content = string_of(v, start, stop);
    assert(content@ =~= content_of(raw));
    let next: usize = if end < v.len() {
        end + 1
    } else {
        v.len()
    };
    Bracket { content, marker, next }
}

fn directive_part<P: Parser>(content: &str) -> (r: Option<P::Output>)
    ensures
        P::makes(lex(content@), content@, r),
{
    let tokens = tokenize(content);
    P::parse(tokens.as_slice(), content)
}

proof fn lemma_scan_bracket(
    s: Seq<char>,
    open: char,
    closed: char,
    i: int,
    before: Seq<Segment>,
    segs: Seq<Segment>,
)
    requires
        0 <= i < s.len(),
        s[i] == open,
        !(i + 1 < s.len() && s[i + 1] == open),
        exists|literal: Seq<char>, done: Seq<Segment>|
            before == done + flushed(literal) && done + scan(s, open, closed, i, literal) == segs,
    ensures
        before.push(Segment::Bracket(bracket_text(s, closed, i + 1))) + scan(
            s,
            open,
            closed,
            bracket_end(s, closed, i + 1),
            Seq::empty(),
        ) == segs,
{
    let (literal, done): (Seq<char>, Seq<Segment>) = choose|literal: Seq<char>, done: Seq<Segment>|
        before == done + flushed(literal) && done + scan(s, open, closed, i, literal) == segs;
    let raw = bracket_text(s, closed, i + 1);
    let rest = scan(s, open, closed, bracket_end(s, closed, i + 1), Seq::empty());
    assert(scan(s, open, closed, i, literal) == flushed(literal) + seq![Segment::Bracket(raw)]
        + rest);
    assert(before.push(Segment::Bracket(raw)) + rest =~= done + (flushed(literal)
        + seq![Segment::Bracket(raw)] + rest));
}

proof fn lemma_refused<P: Parser>(
    parts: Seq<Part<P::Output>>,
    before: Seq<Segment>,
    raw: Seq<char>,
    segs: Seq<Segment>,
)
    requires
        describes::<P>(parts, before),
        P::makes(lex(content_of(raw)), content_of(raw), None),
        exists|rest: Seq<Segment>| before.push(Segment::Bracket(raw)) + rest == segs,
    ensures
        refused::<P>(
            segs,
            before.len() as int,
            ErrorView::DirectiveParsing(content_of(raw)),
        ),
{
    let rest = choose|rest: Seq<Segment>| before.push(Segment::Bracket(raw)) + rest == segs;
    assert(segs[before.len() as int] == Segment::Bracket(raw));
    assert(segs.take(before.len() as int) =~= before);
}

/// Whether `r` is what parsing `s` with the default grammar gives: a
/// template that was parsed from `s` if the delimiters balance, and the
/// verdict of the validator if they do not.
pub open spec fn default_parse_gives(
    r: Result<Template<BuiltinDirective>, TemplateError>,
    s: Seq<char>,
    open: char,
    closed: char,
) -> bool {
    match r {
        Ok(template) => {
            &&& validation(s, open, closed) is None
            &&& template.parsed_from::<DefaultParser>(s, open, closed)
        },
        Err(e) => validation(s, open, closed) == Some(e@),
    }
}

impl Template<BuiltinDirective> {
    /// Parses a template with the default grammar, which recognises every
    /// segment: the only errors are those of the validator. See
    /// [`Template::with_parser`].
    pub fn parse(t: &str, open: char, closed: char) -> (r: Result<
        Template<BuiltinDirective>,
        TemplateError,
    >)
        ensures
            default_parse_gives(r, t@, open, closed),
    {
        Template::with_parser::<DefaultParser>(t, open, closed)
    }

    /// Parses a template with the default grammar and the delimiters of
    /// `L`: what [`Template::parse`] gives with a pair of characters that
    /// `L` may supply.
    pub fn parse_delimited<L: Delimiter>(t: &str) -> (r: Result<
        Template<BuiltinDirective>,
        TemplateError,
    >)
        ensures
            exists|open: char, closed: char|
                {
                    &&& L::is_open(open)
                    &&& L::is_closed(closed)
                    &&& #[trigger] default_parse_gives(r, t@, open, closed)
                },
    {
        let open = L::open();
        let closed = L::closed();
        let r = Template::parse(t, open, closed);
        assert(default_parse_gives(r, t@, open, closed));
        r
    }

    /// Checks that the delimiters of `input` balance.
    pub fn validate_delimiters(input: &str, open: char, closed: char) -> (r: Result<
        (),
        TemplateError,
    >)
        ensures
            match r {
                Ok(_) => validation(input@, open, closed) is None,
                Err(e) => validation(input@, open, closed) == Some(e@),
            },
    {
        let v = chars_of(input);
        check_delimiters(&v, open, closed)
    }

    /// Cuts the content of a bracketed segment into tokens.
    pub fn tokenize(input: &str) -> (tokens: Vec<Token>)
        ensures
            tokens_view(tokens@) == lex(input@),
    {
        tokenize(input)
    }
}

impl<D: Directive> Template<D> {
    /// Whether formatting this template against `ctx` may end in `result`.
    pub open spec fn renders(&self, ctx: ContextView, result: Outcome) -> bool {
        renders(self@.parts, ctx, result)
    }

    /// Whether this template is what parsing `s` with the parser `P` may
    /// give: its parts are what `P` may make of the segments of `s`, and its
    /// alignment is that of the last bracket with a marker.
    pub open spec fn parsed_from<P: Parser<Output = D>>(
        &self,
        s: Seq<char>,
        open: char,
        closed: char,
    ) -> bool {
        &&& describes::<P>(self@.parts, segments(s, open, closed))
        &&& self@.alignment == alignment_after(segments(s, open, closed), Alignment::Left)
    }

    /// Parses a template, with `open` and `closed` as delimiters and `P` as
    /// the strategy that makes directives of bracketed segments.
    ///
    /// The delimiters are validated over the whole text first. Then the text
    /// is cut into segments; the last character of a bracket is taken off
    /// as the alignment of the template if it is a marker; the rest is
    /// tokenized and handed to `P`. The first bracket that `P` does not
    /// recognise ends the call with `DirectiveParsing`.
    pub fn with_parser<P: Parser<Output = D>>(t: &str, open: char, closed: char) -> (r: Result<
        Template<D>,
        TemplateError,
    >)
        ensures
            match r {
                Ok(template) => {
                    &&& validation(t@, open, closed) is None
                    &&& template.parsed_from::<P>(t@, open, closed)
                },
                Err(e) => match validation(t@, open, closed) {
                    Some(verdict) => e@ == verdict,
                    None => exists|k: int| refused::<P>(segments(t@, open, closed), k, e@),
                },
            },
    {
        let v = chars_of(t);
        match check_delimiters(&v, open, closed) {
            Err(e) => {
                return Err(e);
            },
            Ok(_) => {},
        }
        let n = v.len();
        let ghost segs = segments(v@, open, closed);
        let ghost mut done: Seq<Segment> = Seq::empty();
        let mut parts: Vec<Part<D>> = Vec::new();
        let mut alignment = Alignment::Left;
        let mut literal = String::new();
        let mut i: usize = 0;
        assert(done + scan(v@, open, closed, 0, literal@) =~= segs);
        while i < n
            invariant
                n == v.len(),
                i <= n,
                v@ == t@,
                validation(v@, open, closed) is None,
                segs == segments(v@, open, closed),
                done + scan(v@, open, closed, i as int, literal@) == segs,
                describes::<P>(parts@, done),
                alignment == alignment_after(done, Alignment::Left),
            decreases n - i,
        {
            let c = char_at(&v, i);
            let ghost rest = scan(v@, open, closed, i as int, literal@);
            if c == open {
                if i + 1 < n && char_at(&v, i + 1) == open {
                    push_char(&mut literal, open);
                    i += 2;
                    assert(rest == scan(v@, open, closed, i as int, literal@));
                } else {
                    let ghost before = done + flushed(literal@);
                    if !literal.as_str().is_empty() {
                        proof {
                            lemma_describes_push::<P>(
                                parts@,
                                done,
                                Part::Literal(literal),
                                Segment::Literal(literal@),
                            );
                            lemma_alignment_push(
                                done,
                                Segment::Literal(literal@),
                                Alignment::Left,
                            );
                            assert(before =~= done.push(Segment::Literal(literal@)));
                        }
                        parts.push(Part::Literal(literal));
                        literal = String::new();
                    } else {
                        assert(before =~= done);
                        assert(literal@ =~= Seq::<char>::empty());
                    }
                    let bracket = read_bracket(&v, closed, i + 1);
                    let ghost raw = bracket_text(v@, closed, i + 1);
                    proof {
                        done = before.push(Segment::Bracket(raw));
                        lemma_scan_bracket(v@, open, closed, i as int, before, segs);
                        lemma_alignment_push(before, Segment::Bracket(raw), Alignment::Left);
                    }
                    match bracket.marker {
                        Some(a) => {
                            alignment = a;
                        },
                        None => {},
                    }
                    assert(bracket.content@ == content_of(raw));
                    match directive_part::<P>(bracket.content.as_str()) {
                        Some(d) => {
                            proof {
                                lemma_describes_push::<P>(
                                    parts@,
                                    before,
                                    Part::Directive(d),
                                    Segment::Bracket(raw),
                                );
                            }
                            parts.push(Part::Directive(d));
                        },
                        None => {
                            proof {
                                lemma_refused::<P>(parts@, before, raw, segs);
                            }
                            return Err(TemplateError::DirectiveParsing(bracket.content));
                        },
                    }
                    i = bracket.next;
                }
            } else if c == closed {
                push_char(&mut literal, closed);
                if i + 1 < n && char_at(&v, i + 1) == closed {
                    i += 2;
                } else {
                    i += 1;
                }
                assert(rest == scan(v@, open, closed, i as int, literal@));
            } else {
                push_char(&mut literal, c);
                i += 1;
                assert(rest == scan(v@, open, closed, i as int, literal@));
            }
        }
        if !literal.as_str().is_empty() {
            proof {
                lemma_describes_push::<P>(
                    parts@,
                    done,
                    Part::Literal(literal),
                    Segment::Literal(literal@),
                );
                lemma_alignment_push(done, Segment::Literal(literal@), Alignment::Left);
                assert(done.push(Segment::Literal(literal@)) =~= segs);
            }
            parts.push(Part::Literal(literal));
        } else {
            assert(done =~= segs);
        }
        Ok(Template { parts, alignment })
    }

    /// The alignment of the template: that of the last bracketed segment
    /// that ends in a marker, and left if none does.
    pub fn alignment(&self) -> (a: Alignment)
        ensures
            a == self@.alignment,
    {
        self.alignment
    }

    /// Formats the template against `ctx`: the literal parts and the results
    /// of the directives, in order. The first directive that fails ends the
    /// call with its error, and nothing of the output is kept.
    pub fn format(&self, ctx: &Context) -> (r: Result<String, TemplateError>)
        ensures
            self.renders(ctx@, outcome_of(r)),
    {
        let mut result = String::new();
        let mut i: usize = 0;
        assert(self.parts@.take(0) =~= Seq::<Part<D>>::empty());
        while i < self.parts.len()
            invariant
                i <= self.parts.len(),
                renders(self.parts@.take(i as int), ctx@, Ok(result@)),
            decreases self.parts.len() - i,
        {
            let ghost before = result@;
            let ghost next = self.parts@.take(i + 1);
            proof {
                assert(next.drop_last() =~= self.parts@.take(i as int));
                assert(next.last() == self.parts@[i as int]);
            }
            match &self.parts[i] {
                Part::Literal(text) => {
                    result.append(text.as_str());
                    proof {
                        lemma_renders_step(next, ctx@, before, Ok(text@));
                    }
                },
                Part::Directive(d) => {
                    match d.execute(ctx) {
                        Ok(text) => {
                            result.append(text.as_str());
                            proof {
                                lemma_renders_step(next, ctx@, before, Ok(text@));
                            }
                        },
                        Err(e) => {
                            proof {
                                lemma_renders_step(next, ctx@, before, Err(e@));
                                lemma_renders_error(
                                    self.parts@,
                                    i + 1,
                                    ctx@,
                                    Err::<Seq<char>, ErrorView>(e@),
                                );
                            }
                            return Err(e);
                        },
                    }
                },
            }
            i += 1;
        }
        assert(self.parts@.take(i as int) =~= self.parts@);
        Ok(result)
    }
}

} // verus!
