//! The tokenizer: the text between a pair of delimiters is cut into slices of
//! letters, numbers and symbols.
//!
//! The tokens of a text are those of a longest-match lexer over the classes
//! of [`char_kind`]: [`lex`] defines them, and [`tokenize`] is proved to
//! produce exactly them.

use vstd::prelude::*;
use crate::text::{
    all_digits, char_at, chars_of, count_char, digits_value, int_string, int_text, is_alphabetic,
    is_alphanumeric, is_digit, is_whitespace, occurrences, parse_digits, push_char, string_of,
    unicode_alphabetic, unicode_alphanumeric, unicode_whitespace,
};

verus! {

/// A lexical unit of the content of a bracketed segment.
#[derive(Debug, Clone, PartialEq)]
pub enum Token {
    /// A run of letters, underscores and white space: a name or a piece of
    /// text.
    Slice(String),
    /// One character that is neither alphanumeric nor white space.
    Symbol(char),
    /// An integer literal, with its sign.
    Int(i64),
    /// A decimal literal with exactly one decimal point, kept as it was
    /// written (`-3.40`, `.5`, `13.`).
    Float(String),
    /// A character that fits no other class, or a character of a numeric
    /// literal that denotes no number.
    Unknown(char),
}

/// The mathematical value of a [`Token`].
pub enum TokenView {
    Slice(Seq<char>),
    Symbol(char),
    Int(i64),
    Float(Seq<char>),
    Unknown(char),
}

impl View for Token {
    type V = TokenView;

    open spec fn view(&self) -> TokenView {
        match self {
            Token::Slice(s) => TokenView::Slice(s@),
            Token::Symbol(c) => TokenView::Symbol(*c),
            Token::Int(i) => TokenView::Int(*i),
            Token::Float(s) => TokenView::Float(s@),
            Token::Unknown(c) => TokenView::Unknown(*c),
        }
    }
}

/// The mathematical values of a sequence of tokens.
pub open spec fn tokens_view(tokens: Seq<Token>) -> Seq<TokenView> {
    tokens.map_values(|t: Token| t@)
}

/// The text of a token: a slice and a decimal literal as written, a symbol
/// or unknown character alone, an integer as its decimal numeral.
pub open spec fn token_text(t: TokenView) -> Seq<char> {
    match t {
        TokenView::Slice(s) => s,
        TokenView::Symbol(c) => seq![c],
        TokenView::Int(i) => int_text(i as int),
        TokenView::Float(s) => s,
        TokenView::Unknown(c) => seq![c],
    }
}

impl Token {
    /// The text of this token.
    pub fn to_string(&self) -> (s: String)
        ensures
            s@ == token_text(self@),
    {
        match self {
            Token::Slice(s) => s.clone(),
            Token::Symbol(c) => {
                let mut s = String::new();
                push_char(&mut s, *c);
                assert(s@ == seq![*c]);
                s
            },
            Token::Int(i) => int_string(*i),
            Token::Float(s) => s.clone(),
            Token::Unknown(c) => {
                let mut s = String::new();
                push_char(&mut s, *c);
                assert(s@ == seq![*c]);
                s
            },
        }
    }
}

/// The class of a character, as the tokenizer sees it. The classes are tried
/// in the order of the variants; a character belongs to the first that fits.
#[derive(Debug, Clone, Copy, PartialEq, Eq)]
pub enum CharKind {
    /// Alphabetic, an underscore, or white space.
    Slice,
    /// An ASCII digit.
    Digit,
    /// The full stop.
    Dot,
    /// The hyphen-minus.
    Dash,
    /// Any other character that is not alphanumeric.
    Symbol,
    /// What is left: alphanumeric, but neither alphabetic nor an ASCII digit.
    Unknown,
}

/// The class of `c`.
pub open spec fn char_kind(c: char) -> CharKind {
    if unicode_alphabetic(c) || c == '_' || unicode_whitespace(c) {
        CharKind::Slice
    } else if is_digit(c) {
        CharKind::Digit
    } else if c == '.' {
        CharKind::Dot
    } else if c == '-' {
        CharKind::Dash
    } else if !unicode_alphanumeric(c) {
        CharKind::Symbol
    } else {
        CharKind::Unknown
    }
}

/// The class of `c`.
pub fn classify(c: char) -> (k: CharKind)
    ensures
        k == char_kind(c),
{
    if is_alphabetic(c) || c == '_' || is_whitespace(c) {
        CharKind::Slice
    } else if '0' <= c && c <= '9' {
        CharKind::Digit
    } else if c == '.' {
        CharKind::Dot
    } else if c == '-' {
        CharKind::Dash
    } else if !is_alphanumeric(c) {
        CharKind::Symbol
    } else {
        CharKind::Unknown
    }
}

/// Whether a character of class `k` carries on a run: a numeric literal goes
/// on over digits and full stops, a slice over slice characters.
pub open spec fn continues_run(k: CharKind, numeric: bool) -> bool {
    if numeric {
        k is Digit || k is Dot
    } else {
        k is Slice
    }
}

/// How many characters from position `i` on carry on a run.
pub open spec fn run_len(s: Seq<char>, i: int, numeric: bool) -> nat
    decreases s.len() - i,
{
    if 0 <= i < s.len() && continues_run(char_kind(s[i]), numeric) {
        1 + run_len(s, i + 1, numeric)
    } else {
        0
    }
}

/// Whether a numeric literal starts at position `i`: at a digit, or at a full
/// stop or hyphen that a digit follows.
pub open spec fn starts_number(s: Seq<char>, i: int) -> bool
    recommends
        0 <= i < s.len(),
{
    let k = char_kind(s[i]);
    k is Digit || ((k is Dot || k is Dash) && i + 1 < s.len() && char_kind(s[i + 1]) is Digit)
}

/// How many characters the lexeme that starts at position `i` has after its
/// first one: the rest of the longest slice or of the longest numeric
/// literal, and none for any other lexeme.
pub open spec fn lexeme_rest(s: Seq<char>, i: int) -> nat
    recommends
        0 <= i < s.len(),
{
    if char_kind(s[i]) is Slice {
        run_len(s, i + 1, false)
    } else if starts_number(s, i) {
        run_len(s, i + 1, true)
    } else {
        0
    }
}

/// The length of the lexeme that starts at position `i`.
pub open spec fn lexeme_len(s: Seq<char>, i: int) -> nat
    recommends
        0 <= i < s.len(),
{
    1 + lexeme_rest(s, i)
}

/// The integer that a decimal numeral denotes: an optional sign, then at
/// least one digit, and a value that fits 64 bits. `None` for any other
/// text.
pub open spec fn signed_value(s: Seq<char>) -> Option<i64> {
    let signed = s.len() > 0 && (s[0] == '-' || s[0] == '+');
    let negative = s.len() > 0 && s[0] == '-';
    let digits = if signed {
        s.subrange(1, s.len() as int)
    } else {
        s
    };
    if digits.len() == 0 || !all_digits(digits) {
        None
    } else if negative {
        if digits_value(digits) <= 0x8000_0000_0000_0000 {
            Some((-(digits_value(digits) as int)) as i64)
        } else {
            None
        }
    } else {
        if digits_value(digits) <= 0x7fff_ffff_ffff_ffff {
            Some(digits_value(digits) as i64)
        } else {
            None
        }
    }
}

/// One unknown token for each character of `s`.
pub open spec fn unknowns(s: Seq<char>) -> Seq<TokenView>
    decreases s.len(),
{
    if s.len() == 0 {
        Seq::empty()
    } else {
        unknowns(s.drop_last()).push(TokenView::Unknown(s.last()))
    }
}

/// The tokens of a numeric literal. With a full stop in it, it is a decimal
/// literal if it has exactly one; without, it is an integer if its value
/// fits 64 bits. A literal that denotes no number gives one unknown token
/// for each of its characters.
pub open spec fn number_tokens(lexeme: Seq<char>) -> Seq<TokenView> {
    if occurrences(lexeme, '.') == 1 {
        seq![TokenView::Float(lexeme)]
    } else if occurrences(lexeme, '.') > 1 {
        unknowns(lexeme)
    } else {
        match signed_value(lexeme) {
            Some(i) => seq![TokenView::Int(i)],
            None => unknowns(lexeme),
        }
    }
}

/// The tokens of the lexeme that starts at position `i`.
pub open spec fn lexeme_tokens(s: Seq<char>, i: int) -> Seq<TokenView>
    recommends
        0 <= i < s.len(),
{
    let lexeme = s.subrange(i, i + lexeme_len(s, i));
    match char_kind(s[i]) {
        CharKind::Slice => seq![TokenView::Slice(lexeme)],
        CharKind::Unknown => seq![TokenView::Unknown(s[i])],
        CharKind::Symbol => seq![TokenView::Symbol(s[i])],
        _ => if starts_number(s, i) {
            number_tokens(lexeme)
        } else {
            seq![TokenView::Symbol(s[i])]
        },
    }
}

/// The tokens of `s` from position `i` on.
pub open spec fn tokens_from(s: Seq<char>, i: int) -> Seq<TokenView>
    decreases s.len() - i,
    via tokens_from_terminates
{
    if 0 <= i < s.len() {
        lexeme_tokens(s, i) + tokens_from(s, i + 1 + lexeme_rest(s, i))
    } else {
        Seq::empty()
    }
}

#[via_fn]
proof fn tokens_from_terminates(s: Seq<char>, i: int) {
    if 0 <= i < s.len() {
        lemma_run_within(s, i + 1, false);
        lemma_run_within(s, i + 1, true);
    }
}

/// The tokens of a text.
pub open spec fn lex(s: Seq<char>) -> Seq<TokenView> {
    tokens_from(s, 0)
}

/// The values of a sequence of tokens with one more token at its end.
pub proof fn lemma_tokens_view_push(tokens: Seq<Token>, token: Token)
    ensures
        tokens_view(tokens.push(token)) == tokens_view(tokens).push(token@),
        tokens_view(tokens.push(token)) == tokens_view(tokens) + seq![token@],
{
    assert(tokens_view(tokens.push(token)) =~= tokens_view(tokens).push(token@));
    assert(tokens_view(tokens).push(token@) =~= tokens_view(tokens) + seq![token@]);
}

proof fn lemma_concat_push<A>(a: Seq<A>, b: Seq<A>, x: A)
    ensures
        (a + b).push(x) == a + b.push(x),
{
    assert((a + b).push(x) =~= a + b.push(x));
}

proof fn lemma_unknowns_push(s: Seq<char>, c: char)
    ensures
        unknowns(s.push(c)) == unknowns(s).push(TokenView::Unknown(c)),
{
    assert(s.push(c).drop_last() =~= s);
}

/// A run never leaves the text.
pub proof fn lemma_run_within(s: Seq<char>, i: int, numeric: bool)
    requires
        0 <= i <= s.len(),
    ensures
        i + run_len(s, i, numeric) <= s.len(),
    decreases s.len() - i,
{
    if i < s.len() && continues_run(char_kind(s[i]), numeric) {
        lemma_run_within(s, i + 1, numeric);
    }
}

fn carries_on(c: char, numeric: bool) -> (b: bool)
    ensures
        b == continues_run(char_kind(c), numeric),
{
    match classify(c) {
        CharKind::Slice => !numeric,
        CharKind::Digit => numeric,
        CharKind::Dot => numeric,
        _ => false,
    }
}

fn run_end(v: &Vec<char>, start: usize, numeric: bool) -> (end: usize)
    requires
        start <= v.len(),
    ensures
        end == start + run_len(v@, start as int, numeric),
        end <= v.len(),
{
    let mut end: usize = start;
    while end < v.len() && carries_on(char_at(v, end), numeric)
        invariant
            start <= end <= v.len(),
            end + run_len(v@, end as int, numeric) == start + run_len(v@, start as int, numeric),
        decreases v.len() - end,
    {
        end += 1;
    }
    end
}

/// Reads `v[from..to]` as a decimal numeral with an optional sign.
pub fn parse_signed(v: &Vec<char>, from: usize, to: usize) -> (r: Option<i64>)
    requires
        from <= to <= v.len(),
    ensures
        r == signed_value(v@.subrange(from as int, to as int)),
{
    let ghost s = v@.subrange(from as int, to as int);
    if from == to {
        return None;
    }
    assert(s[0] == v@[from as int]);
    let negative = v[from] == '-';
    let signed = negative || v[from] == '+';
    let start: usize = if signed {
        from + 1
    } else {
        from
    };
    proof {
        if signed {
            assert(s.subrange(1, s.len() as int) =~= v@.subrange(start as int, to as int));
        }
    }
    if start == to {
        return None;
    }
    if negative {
        match parse_digits(v, start, to, 0x8000_0000_0000_0000) {
            Some(m) => {
                if m == 0x8000_0000_0000_0000 {
                    Some(i64::MIN)
                } else {
                    Some(-(m as i64))
                }
            },
            None => None,
        }
    } else {
        match parse_digits(v, start, to, 0x7fff_ffff_ffff_ffff) {
            Some(m) => Some(m as i64),
            None => None,
        }
    }
}

fn flush_unknowns(v: &Vec<char>, from: usize, to: usize, tokens: &mut Vec<Token>)
    requires
        from <= to <= v.len(),
    ensures
        tokens_view(final(tokens)@) == tokens_view(old(tokens)@) + unknowns(
            v@.subrange(from as int, to as int),
        ),
{
    let mut i: usize = from;
    proof {
        assert(v@.subrange(from as int, from as int) =~= Seq::<char>::empty());
        assert(tokens_view(tokens@) + Seq::<TokenView>::empty() =~= tokens_view(tokens@));
    }
    while i < to
        invariant
            from <= i <= to <= v.len(),
            tokens_view(tokens@) == tokens_view(old(tokens)@) + unknowns(
                v@.subrange(from as int, i as int),
            ),
        decreases to - i,
    {
        let c = char_at(v, i);
        proof {
            let done = v@.subrange(from as int, i as int);
            lemma_tokens_view_push(tokens@, Token::Unknown(c));
            lemma_unknowns_push(done, c);
            assert(v@.subrange(from as int, i + 1) =~= done.push(c));
            lemma_concat_push(tokens_view(old(tokens)@), unknowns(done), TokenView::Unknown(c));
        }
        tokens.push(Token::Unknown(c));
        i += 1;
    }
}

/// Appends the tokens of the numeric literal `v[from..to]`.
fn flush_number(v: &Vec<char>, from: usize, to: usize, tokens: &mut Vec<Token>)
    requires
        from <= to <= v.len(),
    ensures
        tokens_view(final(tokens)@) == tokens_view(old(tokens)@) + number_tokens(
            v@.subrange(from as int, to as int),
        ),
{
    let dots = count_char(v, from, to, '.');
    if dots == 1 {
        let ghost before = tokens@;
        tokens.push(Token::Float(string_of(v, from, to)));
        assert(tokens_view(tokens@) =~= tokens_view(before) + seq![
            TokenView::Float(v@.subrange(from as int, to as int)),
        ]);
    } else if dots > 1 {
        flush_unknowns(v, from, to, tokens);
    } else {
        match parse_signed(v, from, to) {
            Some(i) => {
                let ghost before = tokens@;
                tokens.push(Token::Int(i));
                assert(tokens_view(tokens@) =~= tokens_view(before) + seq![TokenView::Int(i)]);
            },
            None => {
                flush_unknowns(v, from, to, tokens);
            },
        }
    }
}

/// Appends the slice token `v[from..to]`.
fn flush_slice(v: &Vec<char>, from: usize, to: usize, tokens: &mut Vec<Token>)
    requires
        from <= to <= v.len(),
    ensures
        tokens_view(final(tokens)@) == tokens_view(old(tokens)@) + seq![
            TokenView::Slice(v@.subrange(from as int, to as int)),
        ],
{
    let ghost before = tokens@;
    tokens.push(Token::Slice(string_of(v, from, to)));
    assert(tokens_view(tokens@) =~= tokens_view(before) + seq![
        TokenView::Slice(v@.subrange(from as int, to as int)),
    ]);
}

fn flush_single(token: Token, tokens: &mut Vec<Token>)
    ensures
        tokens_view(final(tokens)@) == tokens_view(old(tokens)@) + seq![token@],
{
    proof {
        lemma_tokens_view_push(tokens@, token);
    }
    tokens.push(token);
}

/// Cuts the content of a bracketed segment into tokens.
pub fn tokenize(input: &str) -> (tokens: Vec<Token>)
    ensures
        tokens_view(tokens@) == lex(input@),
{
    let v = chars_of(input);
    let mut tokens: Vec<Token> = Vec::new();
    let mut i: usize = 0;
    assert(tokens_view(tokens@) =~= Seq::<TokenView>::empty());
    while i < v.len()
        invariant
            i <= v.len(),
            tokens_view(tokens@) + tokens_from(v@, i as int) == lex(v@),
        decreases v.len() - i,
    {
        let ghost before = tokens_view(tokens@);
        let c = char_at(&v, i);
        let kind = classify(c);
        let numeric = match kind {
            CharKind::Digit => true,
            CharKind::Dot | CharKind::Dash => i + 1 < v.len() && match classify(char_at(&v, i + 1)) {
                CharKind::Digit => true,
                _ => false,
            },
            _ => false,
        };
        assert(numeric == (!(kind is Slice) && starts_number(v@, i as int)));
        let end: usize = match kind {
            CharKind::Slice => {
                let end = run_end(&v, i + 1, false);
                flush_slice(&v, i, end, &mut tokens);
                end
            },
            CharKind::Symbol => {
                flush_single(Token::Symbol(c), &mut tokens);
                i + 1
            },
            CharKind::Unknown => {
                flush_single(Token::Unknown(c), &mut tokens);
                i + 1
            },
            _ => {
                if numeric {
                    let end = run_end(&v, i + 1, true);
                    flush_number(&v, i, end, &mut tokens);
                    end
                } else {
                    flush_single(Token::Symbol(c), &mut tokens);
                    i + 1
                }
            },
        };
        proof {
            assert(end == i + lexeme_len(v@, i as int));
            assert(tokens_view(tokens@) == before + lexeme_tokens(v@, i as int));
            assert(tokens_from(v@, i as int) == lexeme_tokens(v@, i as int) + tokens_from(
                v@,
                end as int,
            ));
            assert(before + (lexeme_tokens(v@, i as int) + tokens_from(v@, end as int)) =~= (before
                + lexeme_tokens(v@, i as int)) + tokens_from(v@, end as int));
        }
        i = end;
    }
    assert(tokens_view(tokens@) + tokens_from(v@, i as int) =~= tokens_view(tokens@));
    tokens
}

} // verus!

