//! Small helpers of the directory listing: permission strings, filtering of
//! names, styles by key, and the plain `{name}` substitution.

use vstd::prelude::*;
use vstd::string::StringExecFns;
use crate::named::Named;
use crate::style::{style_prefix, styled, Style};
use crate::text::{
    char_at, chars_of, is_alphabetic, is_whitespace, push_char, string_of, unicode_alphabetic,
    unicode_whitespace,
};

verus! {

/// What can go wrong with the templates of a listing.
#[derive(Debug, Clone, PartialEq, Eq)]
pub enum PlsError {
    /// A template names a value that was not given.
    NoValueForTemplate(String),
    /// An opening bracket has no closing bracket, or the other way round.
    NoClosedBracket,
    /// A conditional has not the form `condition?yes:no`.
    InvalidConditionalFormat,
}

impl PlsError {
    /// The sentence that describes this error.
    pub fn to_string(&self) -> (s: String)
        ensures
            s@ == match self {
                PlsError::NoValueForTemplate(name) => "There is no value for template '"@ + name@
                    + "'"@,
                PlsError::NoClosedBracket =>
                    "Encountered an open bracket without a corresponding closed one."@,
                PlsError::InvalidConditionalFormat =>
                    "Encountered invalid format for a conditional operation"@,
            },
    {
        match self {
            PlsError::NoValueForTemplate(name) => {
                let mut s = "There is no value for template '".to_owned();
                s.append(name.as_str());
                s.append("'");
                s
            },
            PlsError::NoClosedBracket => {
                "Encountered an open bracket without a corresponding closed one.".to_owned()
            },
            PlsError::InvalidConditionalFormat => {
                "Encountered invalid format for a conditional operation".to_owned()
            },
        }
    }
}

/// The letters and white space of `s`, in order.
pub open spec fn letters_and_spaces(s: Seq<char>) -> Seq<char>
    decreases s.len(),
{
    if s.len() == 0 {
        Seq::empty()
    } else if unicode_alphabetic(s.last()) || unicode_whitespace(s.last()) {
        letters_and_spaces(s.drop_last()).push(s.last())
    } else {
        letters_and_spaces(s.drop_last())
    }
}

/// Drops every character of `s` that is neither alphabetic nor white space.
pub fn keep_letters_whitespace(s: &str) -> (out: String)
    ensures
        out@ == letters_and_spaces(s@),
{
    let v = chars_of(s);
    let mut out = String::new();
    let mut i: usize = 0;
    assert(v@.take(0) =~= Seq::<char>::empty());
    while i < v.len()
        invariant
            i <= v.len(),
            out@ == letters_and_spaces(v@.take(i as int)),
        decreases v.len() - i,
    {
        let c = char_at(&v, i);
        proof {
            assert(v@.take(i + 1).drop_last() =~= v@.take(i as int));
            assert(v@.take(i + 1).last() == c);
        }
        if is_alphabetic(c) || is_whitespace(c) {
            push_char(&mut out, c);
        }
        i += 1;
    }
    assert(v@.take(i as int) =~= v@);
    out
}

/// The three characters that stand for three permission bits: `r`, `w` and
/// `x` for the bits of value 4, 2 and 1 that are set, `-` for the others.
pub open spec fn permission_triple(bits: u32) -> Seq<char> {
    seq![
        if bits & 4 != 0 {
            'r'
        } else {
            '-'
        },
        if bits & 2 != 0 {
            'w'
        } else {
            '-'
        },
        if bits & 1 != 0 {
            'x'
        } else {
            '-'
        },
    ]
}

/// The nine characters that stand for a file mode: the triples of the
/// owner, of the group and of the others.
pub open spec fn permission_text(mode: u32) -> Seq<char> {
    permission_triple((mode >> 6) & 7) + permission_triple((mode >> 3) & 7) + permission_triple(
        mode & 7,
    )
}

fn push_triple(out: &mut String, bits: u32)
    ensures
        final(out)@ == old(out)@ + permission_triple(bits),
{
    push_char(
        out,
        if bits & 4 != 0 {
            'r'
        } else {
            '-'
        },
    );
    push_char(
        out,
        if bits & 2 != 0 {
            'w'
        } else {
            '-'
        },
    );
    push_char(
        out,
        if bits & 1 != 0 {
            'x'
        } else {
            '-'
        },
    );
    assert(out@ =~= old(out)@ + permission_triple(bits));
}

/// The three characters that stand for three permission bits.
pub fn display_permission(bits: u32) -> (out: String)
    ensures
        out@ == permission_triple(bits),
{
    let mut out = String::new();
    push_triple(&mut out, bits);
    assert(out@ =~= permission_triple(bits));
    out
}

/// A file mode as `ls -l` shows it, as in `rwxr-xr-x`.
pub fn permissions_to_string(mode: u32) -> (out: String)
    ensures
        out@ == permission_text(mode),
{
    let mut out = String::new();
    push_triple(&mut out, (mode >> 6) & 7);
    push_triple(&mut out, (mode >> 3) & 7);
    push_triple(&mut out, mode & 7);
    assert(out@ =~= permission_text(mode));
    out
}

/// `s` in the style that `style_map` holds for `key`, and `s` as it is
/// where it holds none.
pub fn apply_style(style_map: &Named<Style>, key: &str, s: &str) -> (out: String)
    ensures
        out@ == if style_map@.contains_key(key@) {
            styled(style_prefix(style_map@[key@]), s@)
        } else {
            s@
        },
{
    match style_map.get(key) {
        Some(style) => style.apply(s),
        None => s.to_owned(),
    }
}

/// How many characters from position `i` on come before the first `}`, or
/// before the end of the text if there is none.
pub open spec fn name_len(s: Seq<char>, i: int) -> nat
    decreases s.len() - i,
{
    if 0 <= i < s.len() && s[i] != '}' {
        1 + name_len(s, i + 1)
    } else {
        0
    }
}

/// A name never leaves the text.
pub proof fn lemma_name_within(s: Seq<char>, i: int)
    requires
        0 <= i <= s.len(),
    ensures
        i + name_len(s, i) <= s.len(),
    decreases s.len() - i,
{
    if i < s.len() && s[i] != '}' {
        lemma_name_within(s, i + 1);
    }
}

/// What the plain substitution makes of `s` from position `i` on, after
/// `out`. An opening brace that another one follows stands for itself, and
/// the one that follows is read again. Any other opening brace starts a
/// name, which runs up to the next closing brace or to the end of the text;
/// the value of the name takes its place, and a name without a value ends
/// the substitution. Every other character stands for itself.
pub open spec fn substituted(
    s: Seq<char>,
    values: Map<Seq<char>, String>,
    i: int,
    out: Seq<char>,
) -> Result<Seq<char>, Seq<char>>
    decreases s.len() - i,
    via substituted_terminates
{
    if i < 0 || i >= s.len() {
        Ok(out)
    } else if s[i] == '{' {
        if i + 1 < s.len() && s[i + 1] == '{' {
            substituted(s, values, i + 1, out.push('{'))
        } else {
            let n = name_len(s, i + 1);
            let name = s.subrange(i + 1, i + 1 + n);
            let next = if i + 1 + n < s.len() {
                i + 2 + n
            } else {
                s.len() as int
            };
            if values.contains_key(name) {
                substituted(s, values, next, out + values[name]@)
            } else {
                Err(name)
            }
        }
    } else {
        substituted(s, values, i + 1, out.push(s[i]))
    }
}

#[via_fn]
proof fn substituted_terminates(
    s: Seq<char>,
    values: Map<Seq<char>, String>,
    i: int,
    out: Seq<char>,
) {
    if 0 <= i < s.len() {
        lemma_name_within(s, i + 1);
    }
}

/// Replaces every `{name}` of `template` by the value of `name`. Fails with
/// `NoValueForTemplate` at the first name that has no value.
pub fn format_template(template: &str, values: &Named<String>) -> (r: Result<String, PlsError>)
    ensures
        match r {
            Ok(out) => substituted(template@, values@, 0, Seq::empty()) == Ok::<
                Seq<char>,
                Seq<char>,
            >(out@),
            Err(e) => match e {
                PlsError::NoValueForTemplate(name) => substituted(
                    template@,
                    values@,
                    0,
                    Seq::empty(),
                ) == Err::<Seq<char>, Seq<char>>(name@),
                _ => false,
            },
        },
{
    let v = chars_of(template);
    let n = v.len();
    let mut out = String::new();
    let mut i: usize = 0;
    while i < n
        invariant
            n == v.len(),
            i <= n,
            v@ == template@,
            substituted(v@, values@, i as int, out@) == substituted(
                v@,
                values@,
                0,
                Seq::empty(),
            ),
        decreases n - i,
    {
        let c = char_at(&v, i);
        if c == '{' {
            if i + 1 < n && char_at(&v, i + 1) == '{' {
                push_char(&mut out, '{');
                i += 1;
            } else {
                let mut end: usize = i + 1;
                while end < n && char_at(&v, end) != '}'
                    invariant
                        n == v.len(),
                        i + 1 <= end <= n,
                        end + name_len(v@, end as int) == i + 1 + name_len(v@, i + 1),
                    decreases n - end,
                {
                    end += 1;
                }
                let name = string_of(&v, i + 1, end);
                match values.get(name.as_str()) {
                    Some(value) => {
                        out.append(value.as_str());
                    },
                    None => {
                        return Err(PlsError::NoValueForTemplate(name));
                    },
                }
                i = if end < n {
                    end + 1
                } else {
                    n
                };
            }
        } else {
            push_char(&mut out, c);
            i += 1;
        }
    }
    Ok(out)
}

} // verus!
