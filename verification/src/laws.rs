//! Properties of parsing and formatting that hold of every template.

use vstd::prelude::*;
use crate::directives::{
    builtin_output, default_directive, BuiltinDirective, DefaultParser, Directive, Parser,
};
use crate::error::{ErrorView, Outcome};
use crate::template::{
    balance, content_of, describes, extended, flushed, part_matches, part_yields, refused, renders,
    scan, segments, validation, Part, Segment, Template,
};
use crate::text::occurrences;
use crate::token::lex;
use crate::value::ContextView;

verus! {

/// A doubled delimiter is an escape: the text made of one delimiter
/// character written twice passes the validator and holds no segment that a
/// parser could refuse, and every template parsed from it formats to that
/// one character, whatever the parser and the context. This holds of the
/// opening and of the closing delimiter, and also where one character
/// serves as both.
pub proof fn law_escape_round_trip<P: Parser>(
    open: char,
    closed: char,
    d: char,
    template: Template<P::Output>,
    ctx: ContextView,
    result: Outcome,
)
    requires
        d == open || d == closed,
        template.parsed_from::<P>(seq![d, d], open, closed),
        template.renders(ctx, result),
    ensures
        validation(seq![d, d], open, closed) is None,
        forall|k: int, e: ErrorView| !refused::<P>(segments(seq![d, d], open, closed), k, e),
        result == Ok::<Seq<char>, ErrorView>(seq![d]),
{
    let s = seq![d, d];
    let segs = segments(s, open, closed);
    assert(s.len() == 2 && s[0] == d && s[1] == d);
    assert(scan(s, open, closed, 0, Seq::empty()) == scan(
        s,
        open,
        closed,
        2,
        Seq::<char>::empty().push(d),
    ));
    assert(Seq::<char>::empty().push(d) =~= seq![d]);
    assert(scan(s, open, closed, 2, seq![d]) == flushed(seq![d]));
    assert(segs == seq![Segment::Literal(seq![d])]);
    if open == closed {
        assert(s.drop_last() =~= seq![d]);
        assert(seq![d].drop_last() =~= Seq::<char>::empty());
        assert(occurrences(Seq::<char>::empty(), d) == 0);
        assert(occurrences(seq![d], d) == 1);
        assert(occurrences(s, d) == 2);
    } else {
        assert(balance(s, open, closed, 0, 0) == balance(s, open, closed, 2, 0));
    }
    assert(part_matches::<P>(template@.parts[0], segs[0]));
    lemma_one_literal(template@.parts, seq![d], ctx, result);
}

/// A text without any delimiter character passes the validator and holds no
/// segment that a parser could refuse, and every template parsed from it
/// formats to the text itself, whatever the parser and the context.
pub proof fn law_plain_text<P: Parser>(
    s: Seq<char>,
    open: char,
    closed: char,
    template: Template<P::Output>,
    ctx: ContextView,
    result: Outcome,
)
    requires
        forall|i: int| 0 <= i < s.len() ==> s[i] != open && s[i] != closed,
        template.parsed_from::<P>(s, open, closed),
        template.renders(ctx, result),
    ensures
        validation(s, open, closed) is None,
        forall|k: int, e: ErrorView| !refused::<P>(segments(s, open, closed), k, e),
        result == Ok::<Seq<char>, ErrorView>(s),
{
    let segs = segments(s, open, closed);
    lemma_plain_scan(s, open, closed, 0, Seq::empty());
    assert(Seq::<char>::empty() + s.subrange(0, s.len() as int) =~= s);
    assert(segs == flushed(s));
    lemma_plain_valid(s, open, closed);
    let parts = template@.parts;
    if s.len() == 0 {
        assert(s =~= Seq::<char>::empty());
    } else {
        assert(part_matches::<P>(parts[0], segs[0]));
        lemma_one_literal(parts, s, ctx, result);
    }
}

proof fn lemma_one_literal<D: Directive>(
    parts: Seq<Part<D>>,
    text: Seq<char>,
    ctx: ContextView,
    result: Outcome,
)
    requires
        parts.len() == 1,
        parts[0] is Literal,
        parts[0]->Literal_0@ == text,
        renders(parts, ctx, result),
    ensures
        result == Ok::<Seq<char>, ErrorView>(text),
{
    assert(parts.drop_last().len() == 0);
    if result is Err && renders(parts.drop_last(), ctx, result) {
        assert(false);
    } else {
        let (before, last) = choose|before: Seq<char>, last: Outcome|
            {
                &&& renders(parts.drop_last(), ctx, Ok(before))
                &&& part_yields(parts.last(), ctx, last)
                &&& result == #[trigger] extended(before, last)
            };
        assert(before =~= Seq::<char>::empty());
        assert(before + text =~= text);
    }
}

proof fn lemma_plain_scan(s: Seq<char>, open: char, closed: char, i: int, literal: Seq<char>)
    requires
        0 <= i <= s.len(),
        forall|k: int| 0 <= k < s.len() ==> s[k] != open && s[k] != closed,
    ensures
        scan(s, open, closed, i, literal) == flushed(literal + s.subrange(i, s.len() as int)),
    decreases s.len() - i,
{
    if i < s.len() {
        lemma_plain_scan(s, open, closed, i + 1, literal.push(s[i]));
        assert(literal.push(s[i]) + s.subrange(i + 1, s.len() as int) =~= literal + s.subrange(
            i,
            s.len() as int,
        ));
    } else {
        assert(literal + s.subrange(i, s.len() as int) =~= literal);
    }
}

proof fn lemma_plain_valid(s: Seq<char>, open: char, closed: char)
    requires
        forall|k: int| 0 <= k < s.len() ==> s[k] != open && s[k] != closed,
    ensures
        validation(s, open, closed) is None,
{
    if open == closed {
        lemma_no_occurrence(s, open);
    } else {
        lemma_plain_balance(s, open, closed, 0);
    }
}

proof fn lemma_no_occurrence(s: Seq<char>, c: char)
    requires
        forall|k: int| 0 <= k < s.len() ==> s[k] != c,
    ensures
        occurrences(s, c) == 0,
    decreases s.len(),
{
    if s.len() > 0 {
        lemma_no_occurrence(s.drop_last(), c);
    }
}

proof fn lemma_plain_balance(s: Seq<char>, open: char, closed: char, i: int)
    requires
        0 <= i <= s.len(),
        forall|k: int| 0 <= k < s.len() ==> s[k] != open && s[k] != closed,
    ensures
        balance(s, open, closed, i, 0) is None,
    decreases s.len() - i,
{
    if i < s.len() {
        lemma_plain_balance(s, open, closed, i + 1);
    }
}

/// Whether each directive among `parts` allows one result at most for each
/// context.
pub open spec fn deterministic<D: Directive>(parts: Seq<Part<D>>) -> bool {
    forall|k: int, ctx: ContextView, first: Outcome, second: Outcome|
        0 <= k < parts.len() && #[trigger] part_yields(parts[k], ctx, first) && #[trigger] part_yields(
            parts[k],
            ctx,
            second,
        ) ==> first == second
}

/// Formatting has no hidden state: where each directive of a template
/// allows one result at most for each context, two calls of `format` on the
/// template with contexts that bind the same names to the same values end
/// in the same text or in the same error.
pub proof fn law_format_repeatable<D: Directive>(
    template: Template<D>,
    ctx: ContextView,
    first: Outcome,
    second: Outcome,
)
    requires
        deterministic(template@.parts),
        template.renders(ctx, first),
        template.renders(ctx, second),
    ensures
        first == second,
{
    lemma_renders_once(template@.parts, ctx, first, second);
}

proof fn lemma_renders_once<D: Directive>(
    parts: Seq<Part<D>>,
    ctx: ContextView,
    first: Outcome,
    second: Outcome,
)
    requires
        deterministic(parts),
        renders(parts, ctx, first),
        renders(parts, ctx, second),
    ensures
        first == second,
    decreases parts.len(),
{
    if parts.len() > 0 {
        let front = parts.drop_last();
        assert forall|k: int, c: ContextView, a: Outcome, b: Outcome|
            0 <= k < front.len() && #[trigger] part_yields(front[k], c, a) && #[trigger] part_yields(
                front[k],
                c,
                b,
            ) implies a == b by {
            assert(front[k] == parts[k]);
        }
        let failed_first = first is Err && renders(front, ctx, first);
        let failed_second = second is Err && renders(front, ctx, second);
        if failed_first && failed_second {
            lemma_renders_once(front, ctx, first, second);
        } else if failed_first {
            let (before, last) = choose|before: Seq<char>, last: Outcome|
                {
                    &&& renders(front, ctx, Ok(before))
                    &&& part_yields(parts.last(), ctx, last)
                    &&& second == #[trigger] extended(before, last)
                };
            lemma_renders_once(front, ctx, first, Ok(before));
        } else if failed_second {
            let (before, last) = choose|before: Seq<char>, last: Outcome|
                {
                    &&& renders(front, ctx, Ok(before))
                    &&& part_yields(parts.last(), ctx, last)
                    &&& first == #[trigger] extended(before, last)
                };
            lemma_renders_once(front, ctx, second, Ok(before));
        } else {
            let (before1, last1) = choose|before: Seq<char>, last: Outcome|
                {
                    &&& renders(front, ctx, Ok(before))
                    &&& part_yields(parts.last(), ctx, last)
                    &&& first == #[trigger] extended(before, last)
                };
            let (before2, last2) = choose|before: Seq<char>, last: Outcome|
                {
                    &&& renders(front, ctx, Ok(before))
                    &&& part_yields(parts.last(), ctx, last)
                    &&& second == #[trigger] extended(before, last)
                };
            lemma_renders_once(front, ctx, Ok(before1), Ok(before2));
            assert(part_yields(parts[parts.len() - 1], ctx, last1));
            assert(part_yields(parts[parts.len() - 1], ctx, last2));
        }
    }
}

/// The directives of the default grammar allow exactly one result for each
/// context, so every template of the default grammar formats repeatably.
pub proof fn law_builtin_deterministic(template: Template<BuiltinDirective>)
    ensures
        deterministic(template@.parts),
{
}

/// What the default grammar makes of the segments of a text, for a context:
/// literal text as it is, and for each bracket what the directive of its
/// content yields; the first error ends it.
pub open spec fn default_rendering(segs: Seq<Segment>, ctx: ContextView) -> Outcome
    decreases segs.len(),
{
    if segs.len() == 0 {
        Ok(Seq::empty())
    } else {
        match default_rendering(segs.drop_last(), ctx) {
            Err(e) => Err(e),
            Ok(before) => extended(
                before,
                match segs.last() {
                    Segment::Literal(text) => Ok(text),
                    Segment::Bracket(raw) => builtin_output(
                        default_directive(lex(content_of(raw)), content_of(raw)),
                        ctx,
                    ),
                },
            ),
        }
    }
}

/// With the default grammar, parsing and then formatting is a function of
/// the text and the context: whatever `format` ends in on a template that
/// was parsed from `s`, it is what the default grammar makes of the
/// segments of `s`.
pub proof fn law_default_format(
    s: Seq<char>,
    open: char,
    closed: char,
    template: Template<BuiltinDirective>,
    ctx: ContextView,
    result: Outcome,
)
    requires
        template.parsed_from::<DefaultParser>(s, open, closed),
        template.renders(ctx, result),
    ensures
        result == default_rendering(segments(s, open, closed), ctx),
{
    lemma_default_rendering(template@.parts, segments(s, open, closed), ctx, result);
}

proof fn lemma_default_rendering(
    parts: Seq<Part<BuiltinDirective>>,
    segs: Seq<Segment>,
    ctx: ContextView,
    result: Outcome,
)
    requires
        describes::<DefaultParser>(parts, segs),
        renders(parts, ctx, result),
    ensures
        result == default_rendering(segs, ctx),
    decreases parts.len(),
{
    if parts.len() > 0 {
        let front = parts.drop_last();
        let front_segs = segs.drop_last();
        assert forall|k: int| 0 <= k < front_segs.len() implies #[trigger] part_matches::<
            DefaultParser,
        >(front[k], front_segs[k]) by {
            assert(part_matches::<DefaultParser>(parts[k], segs[k]));
        }
        assert(part_matches::<DefaultParser>(parts[parts.len() - 1], segs[segs.len() - 1]));
        if result is Err && renders(front, ctx, result) {
            lemma_default_rendering(front, front_segs, ctx, result);
        } else {
            let (before, last) = choose|before: Seq<char>, last: Outcome|
                {
                    &&& renders(front, ctx, Ok(before))
                    &&& part_yields(parts.last(), ctx, last)
                    &&& result == #[trigger] extended(before, last)
                };
            lemma_default_rendering(front, front_segs, ctx, Ok(before));
        }
    }
}

} // verus!
