//! Templates over the variables of a directory listing: each bracketed
//! segment names a variable, repeats one, or chooses between two.

use vstd::prelude::*;
use crate::template::{
    alignment_after, bracket_end, bracket_text, content_len, content_of, flushed, marker_of,
    Alignment, Segment,
};
use crate::text::{char_at, chars_of, count_char, occurrences, push_char, same_text, string_of};
use crate::util::PlsError;

verus! {

/// A variable of a listing.
#[derive(Debug, Clone, PartialEq, Eq, Hash)]
pub enum Var {
    /// How deep the entry lies below the root of the listing.
    Depth,
    /// The icon of the entry.
    Icon,
    /// The name of the entry.
    Name,
    /// The permissions of the entry, as in `rwxr-xr-x`.
    Permissions,
    /// The size of the entry in bytes.
    Size,
    /// When the entry was last modified.
    LastModified,
    /// The state of the entry in its git repository.
    GitStatus,
    /// The number of hard links to the entry.
    Nlink,
    /// Where the entry points, if it is a symbolic link.
    LinkTarget,
    /// Any other name, kept as it was written.
    Unknown(String),
}

/// The mathematical value of a [`Var`].
pub enum VarView {
    Depth,
    Icon,
    Name,
    Permissions,
    Size,
    LastModified,
    GitStatus,
    Nlink,
    LinkTarget,
    Unknown(Seq<char>),
}

impl View for Var {
    type V = VarView;

    open spec fn view(&self) -> VarView {
        match self {
            Var::Depth => VarView::Depth,
            Var::Icon => VarView::Icon,
            Var::Name => VarView::Name,
            Var::Permissions => VarView::Permissions,
            Var::Size => VarView::Size,
            Var::LastModified => VarView::LastModified,
            Var::GitStatus => VarView::GitStatus,
            Var::Nlink => VarView::Nlink,
            Var::LinkTarget => VarView::LinkTarget,
            Var::Unknown(s) => VarView::Unknown(s@),
        }
    }
}

/// The variable that a name stands for.
pub open spec fn var_named(s: Seq<char>) -> VarView {
    if s == "depth"@ {
        VarView::Depth
    } else if s == "icon"@ {
        VarView::Icon
    } else if s == "name"@ {
        VarView::Name
    } else if s == "permissions"@ {
        VarView::Permissions
    } else if s == "size"@ {
        VarView::Size
    } else if s == "last_modified"@ {
        VarView::LastModified
    } else if s == "git_status"@ {
        VarView::GitStatus
    } else if s == "nlink"@ {
        VarView::Nlink
    } else if s == "link_target"@ {
        VarView::LinkTarget
    } else {
        VarView::Unknown(s)
    }
}

impl Var {
    /// The variable that `s` stands for.
    pub fn from_str(s: &str) -> (v: Var)
        ensures
            v@ == var_named(s@),
    {
        if same_text(s, "depth") {
            Var::Depth
        } else if same_text(s, "icon") {
            Var::Icon
        } else if same_text(s, "name") {
            Var::Name
        } else if same_text(s, "permissions") {
            Var::Permissions
        } else if same_text(s, "size") {
            Var::Size
        } else if same_text(s, "last_modified") {
            Var::LastModified
        } else if same_text(s, "git_status") {
            Var::GitStatus
        } else if same_text(s, "nlink") {
            Var::Nlink
        } else if same_text(s, "link_target") {
            Var::LinkTarget
        } else {
            Var::Unknown(s.to_owned())
        }
    }
}

/// What a bracketed segment asks for.
#[derive(Debug, Clone, PartialEq, Eq)]
pub enum VarOp {
    /// The value of a variable.
    Replace(Var),
    /// A pattern, as many times as a variable says.
    Repeat { pattern: Var, count_var: Var },
    /// One of two parts, depending on a variable.
    Conditional { condition_var: Var, true_part: Var, false_part: Var },
}

/// The mathematical value of a [`VarOp`].
pub enum VarOpView {
    Replace(VarView),
    Repeat { pattern: VarView, count_var: VarView },
    Conditional { condition_var: VarView, true_part: VarView, false_part: VarView },
}

impl View for VarOp {
    type V = VarOpView;

    open spec fn view(&self) -> VarOpView {
        match self {
            VarOp::Replace(v) => VarOpView::Replace(v@),
            VarOp::Repeat { pattern, count_var } => VarOpView::Repeat {
                pattern: pattern@,
                count_var: count_var@,
            },
            VarOp::Conditional { condition_var, true_part, false_part } => VarOpView::Conditional {
                condition_var: condition_var@,
                true_part: true_part@,
                false_part: false_part@,
            },
        }
    }
}

/// A part of a template: text to copy, or an operation on variables.
#[derive(Debug, Clone, PartialEq, Eq)]
pub enum Part {
    Literal(String),
    Op(VarOp),
}

/// The mathematical value of a [`Part`].
pub enum PartView {
    Literal(Seq<char>),
    Op(VarOpView),
}

impl View for Part {
    type V = PartView;

    open spec fn view(&self) -> PartView {
        match self {
            Part::Literal(s) => PartView::Literal(s@),
            Part::Op(op) => PartView::Op(op@),
        }
    }
}

/// The position of the first `c` in `s`, or the length of `s` if it has
/// none.
pub open spec fn first_index(s: Seq<char>, c: char) -> int
    decreases s.len(),
{
    if s.len() == 0 || s[0] == c {
        0
    } else {
        1 + first_index(s.subrange(1, s.len() as int), c)
    }
}

/// The operation that the content of a bracket asks for. With one colon
/// and no question mark, it is a repetition of what stands before the
/// colon, by what stands after it. With one question mark, and one colon
/// after it, it is a choice. With neither colon nor question mark, it is
/// the variable that the content names. Any other content is taken as an
/// unknown variable of that name.
pub open spec fn operation_of(content: Seq<char>) -> VarOpView {
    let colons = occurrences(content, ':');
    let marks = occurrences(content, '?');
    if marks == 0 {
        if colons == 0 {
            VarOpView::Replace(var_named(content))
        } else if colons == 1 {
            let p = first_index(content, ':');
            VarOpView::Repeat {
                pattern: var_named(content.subrange(0, p)),
                count_var: var_named(content.subrange(p + 1, content.len() as int)),
            }
        } else {
            VarOpView::Replace(VarView::Unknown(content))
        }
    } else if marks == 1 {
        let q = first_index(content, '?');
        let rest = content.subrange(q + 1, content.len() as int);
        if occurrences(rest, ':') == 1 {
            let p = first_index(rest, ':');
            VarOpView::Conditional {
                condition_var: var_named(content.subrange(0, q)),
                true_part: var_named(rest.subrange(0, p)),
                false_part: var_named(rest.subrange(p + 1, rest.len() as int)),
            }
        } else {
            VarOpView::Replace(VarView::Unknown(content))
        }
    } else {
        VarOpView::Replace(VarView::Unknown(content))
    }
}

/// Whether the braces of `s` balance from position `i` on, with `depth`
/// brackets open. A doubled brace is an escape and counts for nothing.
pub open spec fn braces_balance(s: Seq<char>, i: int, depth: nat) -> bool
    decreases s.len() - i,
{
    if i < 0 || i >= s.len() {
        depth == 0
    } else if s[i] == '{' {
        if i + 1 < s.len() && s[i + 1] == '{' {
            braces_balance(s, i + 2, depth)
        } else {
            braces_balance(s, i + 1, depth + 1)
        }
    } else if s[i] == '}' {
        if i + 1 < s.len() && s[i + 1] == '}' {
            braces_balance(s, i + 2, depth)
        } else if depth == 0 {
            false
        } else {
            braces_balance(s, i + 1, (depth - 1) as nat)
        }
    } else {
        braces_balance(s, i + 1, depth)
    }
}

/// The segments of `s` from position `i` on, with `literal` collected
/// before it. A doubled brace stands for itself in the literal; an opening
/// brace starts a bracket that runs up to the next closing brace; a closing
/// brace alone is dropped.
pub open spec fn cut(s: Seq<char>, i: int, literal: Seq<char>) -> Seq<Segment>
    decreases s.len() - i,
    via cut_terminates
{
    if i < 0 || i >= s.len() {
        flushed(literal)
    } else if s[i] == '{' {
        if i + 1 < s.len() && s[i + 1] == '{' {
            cut(s, i + 2, literal.push('{'))
        } else {
            flushed(literal) + seq![Segment::Bracket(bracket_text(s, '}', i + 1))] + cut(
                s,
                bracket_end(s, '}', i + 1),
                Seq::empty(),
            )
        }
    } else if s[i] == '}' {
        if i + 1 < s.len() && s[i + 1] == '}' {
            cut(s, i + 2, literal.push('}'))
        } else {
            cut(s, i + 1, literal)
        }
    } else {
        cut(s, i + 1, literal.push(s[i]))
    }
}

#[via_fn]
proof fn cut_terminates(s: Seq<char>, i: int, literal: Seq<char>) {
    if 0 <= i < s.len() {
        crate::template::lemma_content_within(s, '}', i + 1);
    }
}

/// The part that a segment becomes.
pub open spec fn part_of(seg: Segment) -> PartView {
    match seg {
        Segment::Literal(text) => PartView::Literal(text),
        Segment::Bracket(raw) => PartView::Op(operation_of(content_of(raw))),
    }
}

/// The parts that segments become, one for one.
pub open spec fn parts_of(segs: Seq<Segment>) -> Seq<PartView>
    decreases segs.len(),
{
    if segs.len() == 0 {
        Seq::empty()
    } else {
        parts_of(segs.drop_last()).push(part_of(segs.last()))
    }
}

/// The mathematical values of a sequence of parts.
pub open spec fn parts_view(parts: Seq<Part>) -> Seq<PartView>
    decreases parts.len(),
{
    if parts.len() == 0 {
        Seq::empty()
    } else {
        parts_view(parts.drop_last()).push(parts.last()@)
    }
}

/// A template over the variables of a listing: its parts, and one
/// alignment for the whole.
#[derive(Debug, Clone, PartialEq, Eq)]
pub struct Template(pub Vec<Part>, pub Alignment);

fn find_char(v: &Vec<char>, from: usize, to: usize, c: char) -> (p: usize)
    requires
        from <= to <= v.len(),
    ensures
        p == from + first_index(v@.subrange(from as int, to as int), c),
        from <= p <= to,
{
    let mut p: usize = from;
    while p < to && char_at(v, p) != c
        invariant
            from <= p <= to <= v.len(),
            p + first_index(v@.subrange(p as int, to as int), c) == from + first_index(
                v@.subrange(from as int, to as int),
                c,
            ),
        decreases to - p,
    {
        proof {
            let rest = v@.subrange(p as int, to as int);
            assert(rest[0] == v@[p as int]);
            assert(rest.subrange(1, rest.len() as int) =~= v@.subrange(p + 1, to as int));
        }
        p += 1;
    }
    proof {
        let rest = v@.subrange(p as int, to as int);
        if p < to {
            assert(rest[0] == v@[p as int]);
        }
    }
    p
}

fn var_of(v: &Vec<char>, from: usize, to: usize) -> (var: Var)
    requires
        from <= to <= v.len(),
    ensures
        var@ == var_named(v@.subrange(from as int, to as int)),
{
    let name = string_of(v, from, to);
    Var::from_str(name.as_str())
}

impl Template {
    /// Whether the braces of `input` balance.
    pub fn validate_brackets(input: &str) -> (ok: bool)
        ensures
            ok == braces_balance(input@, 0, 0),
    {
        let v = chars_of(input);
        Template::check_brackets(&v)
    }

    fn check_brackets(v: &Vec<char>) -> (ok: bool)
        ensures
            ok == braces_balance(v@, 0, 0),
    {
        let n = v.len();
        let mut i: usize = 0;
        let mut depth: usize = 0;
        while i < n
            invariant
                n == v.len(),
                i <= n,
                depth <= i,
                braces_balance(v@, i as int, depth as nat) == braces_balance(v@, 0, 0),
            decreases n - i,
        {
            let c = char_at(v, i);
            if c == '{' {
                if i + 1 < n && char_at(v, i + 1) == '{' {
                    i += 2;
                } else {
                    depth += 1;
                    i += 1;
                }
            } else if c == '}' {
                if i + 1 < n && char_at(v, i + 1) == '}' {
                    i += 2;
                } else if depth == 0 {
                    return false;
                } else {
                    depth -= 1;
                    i += 1;
                }
            } else {
                i += 1;
            }
        }
        depth == 0
    }

    /// The operation that the content of a bracket asks for.
    pub fn parse_operation(content: &str) -> (op: VarOp)
        ensures
            op@ == operation_of(content@),
    {
        let v = chars_of(content);
        let n = v.len();
        assert(v@.subrange(0, n as int) =~= v@);
        let colons = count_char(&v, 0, n, ':');
        let marks = count_char(&v, 0, n, '?');
        if marks == 0 {
            if colons == 0 {
                VarOp::Replace(Var::from_str(content))
            } else if colons == 1 {
                let p = find_char(&v, 0, n, ':');
                if p == n {
                    // a colon was counted, so one is found
                    proof {
                        lemma_found(v@, ':');
                    }
                    VarOp::Replace(Var::Unknown(content.to_owned()))
                } else {
                    VarOp::Repeat { pattern: var_of(&v, 0, p), count_var: var_of(&v, p + 1, n) }
                }
            } else {
                VarOp::Replace(Var::Unknown(content.to_owned()))
            }
        } else if marks == 1 {
            let q = find_char(&v, 0, n, '?');
            if q == n {
                proof {
                    lemma_found(v@, '?');
                }
                return VarOp::Replace(Var::Unknown(content.to_owned()));
            }
            let ghost rest = v@.subrange(q + 1, n as int);
            if count_char(&v, q + 1, n, ':') == 1 {
                let p = find_char(&v, q + 1, n, ':');
                if p == n {
                    proof {
                        lemma_found(rest, ':');
                    }
                    return VarOp::Replace(Var::Unknown(content.to_owned()));
                }
                proof {
                    assert(rest.subrange(0, p - (q + 1)) =~= v@.subrange(q + 1, p as int));
                    assert(rest.subrange(p - (q + 1) + 1, rest.len() as int) =~= v@.subrange(
                        p + 1,
                        n as int,
                    ));
                }
                VarOp::Conditional {
                    condition_var: var_of(&v, 0, q),
                    true_part: var_of(&v, q + 1, p),
                    false_part: var_of(&v, p + 1, n),
                }
            } else {
                VarOp::Replace(Var::Unknown(content.to_owned()))
            }
        } else {
            VarOp::Replace(Var::Unknown(content.to_owned()))
        }
    }

    /// Parses a template. The braces must balance, else the call ends in
    /// `NoClosedBracket`. The text is cut into literal text and brackets;
    /// the last character of a bracket is taken off as the alignment of the
    /// template if it is a marker, and the rest is read as an operation.
    pub fn parse(template: &str) -> (r: Result<Template, PlsError>)
        ensures
            match r {
                Ok(t) => {
                    &&& braces_balance(template@, 0, 0)
                    &&& parts_view(t.0@) == parts_of(cut(template@, 0, Seq::empty()))
                    &&& t.1 == alignment_after(cut(template@, 0, Seq::empty()), Alignment::Left)
                },
                Err(e) => !braces_balance(template@, 0, 0) && e == PlsError::NoClosedBracket,
            },
    {
        let v = chars_of(template);
        if !Template::check_brackets(&v) {
            return Err(PlsError::NoClosedBracket);
        }
        let n = v.len();
        let ghost segs = cut(v@, 0, Seq::empty());
        let ghost mut done: Seq<Segment> = Seq::empty();
        let mut parts: Vec<Part> = Vec::new();
        let mut alignment = Alignment::Left;
        let mut literal = String::new();
        let mut i: usize = 0;
        assert(done + cut(v@, 0, literal@) =~= segs);
        while i < n
            invariant
                n == v.len(),
                i <= n,
                v@ == template@,
                segs == cut(v@, 0, Seq::empty()),
                done + cut(v@, i as int, literal@) == segs,
                parts_view(parts@) == parts_of(done),
                alignment == alignment_after(done, Alignment::Left),
            decreases n - i,
        {
            let c = char_at(&v, i);
            let ghost rest = cut(v@, i as int, literal@);
            if c == '{' {
                if i + 1 < n && char_at(&v, i + 1) == '{' {
                    push_char(&mut literal, '{');
                    i += 2;
                    assert(rest == cut(v@, i as int, literal@));
                } else {
                    let ghost before = done + flushed(literal@);
                    if !literal.as_str().is_empty() {
                        proof {
                            lemma_push(parts@, done, Part::Literal(literal), Segment::Literal(literal@));
                            assert(before =~= done.push(Segment::Literal(literal@)));
                        }
                        parts.push(Part::Literal(literal));
                        literal = String::new();
                    } else {
                        assert(before =~= done);
                        assert(literal@ =~= Seq::<char>::empty());
                    }
                    let end = Template::close_of(&v, i + 1);
                    let ghost raw = bracket_text(v@, '}', i + 1);
                    let mut stop: usize = end;
                    if end > i + 1 {
                        let last = char_at(&v, end - 1);
                        assert(raw.last() == last);
                        match Alignment::from_char(last) {
                            Some(a) => {
                                alignment = a;
                                stop = end - 1;
                            },
                            None => {},
                        }
                    }
                    let content = string_of(&v, i + 1, stop);
                    assert(content@ =~= content_of(raw));
                    let op = Template::parse_operation(content.as_str());
                    proof {
                        lemma_push(parts@, before, Part::Op(op), Segment::Bracket(raw));
                        done = before.push(Segment::Bracket(raw));
                        assert(done + cut(v@, bracket_end(v@, '}', i + 1), Seq::empty()) =~= before
                            + (seq![Segment::Bracket(raw)] + cut(
                            v@,
                            bracket_end(v@, '}', i + 1),
                            Seq::empty(),
                        )));
                    }
                    parts.push(Part::Op(op));
                    i = if end < n {
                        end + 1
                    } else {
                        n
                    };
                }
            } else if c == '}' {
                if i + 1 < n && char_at(&v, i + 1) == '}' {
                    push_char(&mut literal, '}');
                    i += 2;
                } else {
                    i += 1;
                }
                assert(rest == cut(v@, i as int, literal@));
            } else {
                push_char(&mut literal, c);
                i += 1;
                assert(rest == cut(v@, i as int, literal@));
            }
        }
        if !literal.as_str().is_empty() {
            proof {
                lemma_push(parts@, done, Part::Literal(literal), Segment::Literal(literal@));
                assert(done.push(Segment::Literal(literal@)) =~= segs);
            }
            parts.push(Part::Literal(literal));
        } else {
            assert(done =~= segs);
        }
        Ok(Template(parts, alignment))
    }

    fn close_of(v: &Vec<char>, start: usize) -> (end: usize)
        requires
            start <= v.len(),
        ensures
            end == start + content_len(v@, '}', start as int),
            end <= v.len(),
    {
        let mut end: usize = start;
        while end < v.len() && char_at(v, end) != '}'
            invariant
                start <= end <= v.len(),
                end + content_len(v@, '}', end as int) == start + content_len(
                    v@,
                    '}',
                    start as int,
                ),
            decreases v.len() - end,
        {
            end += 1;
        }
        end
    }

    /// The parts of the template, in order.
    pub fn parts(&self) -> (parts: &Vec<Part>)
        ensures
            parts == &self.0,
    {
        &self.0
    }

    /// The alignment of the template.
    pub fn alignment(&self) -> (a: Alignment)
        ensures
            a == self.1,
    {
        self.1
    }

    /// The templates of a listing that is not configured: the depth as
    /// indentation, the icon, the name, and the size flush right.
    pub fn default_templates() -> (templates: Vec<Template>)
        ensures
            templates@.len() == 4,
            templates@[0].1 == Alignment::Left,
            parts_view(templates@[0].0@) == seq![
                PartView::Op(
                    VarOpView::Repeat {
                        pattern: VarView::Unknown(" "@),
                        count_var: VarView::Depth,
                    },
                ),
            ],
            templates@[1].1 == Alignment::Left,
            parts_view(templates@[1].0@) == seq![PartView::Op(VarOpView::Replace(VarView::Icon))],
            templates@[2].1 == Alignment::Left,
            parts_view(templates@[2].0@) == seq![PartView::Op(VarOpView::Replace(VarView::Name))],
            templates@[3].1 == Alignment::Right,
            parts_view(templates@[3].0@) == seq![PartView::Op(VarOpView::Replace(VarView::Size))],
    {
        let mut templates: Vec<Template> = Vec::new();
        templates.push(
            Template::single(
                VarOp::Repeat { pattern: Var::Unknown(" ".to_owned()), count_var: Var::Depth },
                Alignment::Left,
            ),
        );
        templates.push(Template::single(VarOp::Replace(Var::Icon), Alignment::Left));
        templates.push(Template::single(VarOp::Replace(Var::Name), Alignment::Left));
        templates.push(Template::single(VarOp::Replace(Var::Size), Alignment::Right));
        templates
    }

    fn single(op: VarOp, alignment: Alignment) -> (t: Template)
        ensures
            t.1 == alignment,
            parts_view(t.0@) == seq![PartView::Op(op@)],
    {
        let mut parts: Vec<Part> = Vec::new();
        parts.push(Part::Op(op));
        proof {
            assert(parts@.drop_last() =~= Seq::<Part>::empty());
            assert(parts_view(parts@.drop_last()) =~= Seq::<PartView>::empty());
            assert(parts@.last()@ == PartView::Op(op@));
            assert(parts_view(parts@) =~= seq![PartView::Op(op@)]);
        }
        Template(parts, alignment)
    }
}

proof fn lemma_found(s: Seq<char>, c: char)
    requires
        occurrences(s, c) > 0,
    ensures
        first_index(s, c) < s.len(),
    decreases s.len(),
{
    if s.len() > 0 && s[0] != c {
        let rest = s.subrange(1, s.len() as int);
        lemma_occurrences_rest(s, c);
        lemma_found(rest, c);
    }
}

proof fn lemma_occurrences_rest(s: Seq<char>, c: char)
    requires
        s.len() > 0,
    ensures
        occurrences(s, c) == occurrences(s.subrange(1, s.len() as int), c) + if s[0] == c {
            1nat
        } else {
            0nat
        },
    decreases s.len(),
{
    let rest = s.subrange(1, s.len() as int);
    if s.len() == 1 {
        assert(s.drop_last() =~= Seq::<char>::empty());
        assert(rest =~= Seq::<char>::empty());
    } else {
        lemma_occurrences_rest(s.drop_last(), c);
        assert(s.drop_last().subrange(1, s.len() - 1) =~= rest.drop_last());
        assert(rest.last() == s.last());
        assert(s.drop_last()[0] == s[0]);
    }
}

proof fn lemma_push(parts: Seq<Part>, segs: Seq<Segment>, part: Part, seg: Segment)
    requires
        parts_view(parts) == parts_of(segs),
        part@ == part_of(seg),
    ensures
        parts_view(parts.push(part)) == parts_of(segs.push(seg)),
        alignment_after(segs.push(seg), Alignment::Left) == match seg {
            Segment::Bracket(raw) => match marker_of(raw) {
                Some(a) => a,
                None => alignment_after(segs, Alignment::Left),
            },
            Segment::Literal(_) => alignment_after(segs, Alignment::Left),
        },
{
    assert(parts.push(part).drop_last() =~= parts);
    assert(segs.push(seg).drop_last() =~= segs);
}

} // verus!
