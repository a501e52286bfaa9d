//! The pairs of characters that can bound a bracketed segment, chosen by
//! type.

use vstd::prelude::*;

verus! {

/// A pair of delimiters. The two may be the same character.
///
/// `is_open` and `is_closed` say which characters `open` and `closed` may
/// return. The pairs of this crate allow exactly one each. A pair that
/// promises nothing leaves them as they are.
pub trait Delimiter {
    /// Whether `c` may be the character that opens a segment.
    open spec fn is_open(c: char) -> bool {
        true
    }

    /// Whether `c` may be the character that closes a segment.
    open spec fn is_closed(c: char) -> bool {
        true
    }

    /// The character that opens a segment.
    fn open() -> (c: char)
        ensures
            Self::is_open(c),
    ;

    /// The character that closes a segment.
    fn closed() -> (c: char)
        ensures
            Self::is_closed(c),
    ;
}

/// `(` and `)`.
pub struct Parentheses;

impl Delimiter for Parentheses {
    open spec fn is_open(c: char) -> bool {
        c == '('
    }

    open spec fn is_closed(c: char) -> bool {
        c == ')'
    }

    fn open() -> (c: char) {
        '('
    }

    fn closed() -> (c: char) {
        ')'
    }
}

/// `[` and `]`.
pub struct SquareBrackets;

impl Delimiter for SquareBrackets {
    open spec fn is_open(c: char) -> bool {
        c == '['
    }

    open spec fn is_closed(c: char) -> bool {
        c == ']'
    }

    fn open() -> (c: char) {
        '['
    }

    fn closed() -> (c: char) {
        ']'
    }
}

/// `{` and `}`.
pub struct CurlyBrackets;

impl Delimiter for CurlyBrackets {
    open spec fn is_open(c: char) -> bool {
        c == '{'
    }

    open spec fn is_closed(c: char) -> bool {
        c == '}'
    }

    fn open() -> (c: char) {
        '{'
    }

    fn closed() -> (c: char) {
        '}'
    }
}

/// `<` and `>`.
pub struct AngleBrackets;

impl Delimiter for AngleBrackets {
    open spec fn is_open(c: char) -> bool {
        c == '<'
    }

    open spec fn is_closed(c: char) -> bool {
        c == '>'
    }

    fn open() -> (c: char) {
        '<'
    }

    fn closed() -> (c: char) {
        '>'
    }
}

} // verus!
