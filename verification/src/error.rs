//! The errors that parsing and formatting a template can end in.

use vstd::prelude::*;
use vstd::string::StringExecFns;
use crate::text::push_char;

verus! {

/// Everything that can go wrong while a template is parsed or formatted.
#[derive(Debug, Clone, PartialEq, Eq)]
pub enum TemplateError {
    /// A closing delimiter appeared with no opening delimiter before it; the
    /// character is the opening delimiter that is missing.
    MissingOpenDelimiter(char),
    /// An opening delimiter was never closed; the character is the closing
    /// delimiter that is missing.
    MissingClosedDelimiter(char),
    /// With one character for both delimiters, an odd number of them: which
    /// one is missing cannot be told.
    MissingDelimiter(char),
    /// A directive asked the context for a name that it does not hold.
    NoValueFound(String),
    /// The parser in use did not recognise the content of a bracketed
    /// segment.
    DirectiveParsing(String),
    /// A directive failed while it was executed; the text says why.
    ExecutionError(String),
}

/// The mathematical value of a [`TemplateError`].
pub enum ErrorView {
    MissingOpenDelimiter(char),
    MissingClosedDelimiter(char),
    MissingDelimiter(char),
    NoValueFound(Seq<char>),
    DirectiveParsing(Seq<char>),
    ExecutionError(Seq<char>),
}

impl View for TemplateError {
    type V = ErrorView;

    open spec fn view(&self) -> ErrorView {
        match self {
            TemplateError::MissingOpenDelimiter(c) => ErrorView::MissingOpenDelimiter(*c),
            TemplateError::MissingClosedDelimiter(c) => ErrorView::MissingClosedDelimiter(*c),
            TemplateError::MissingDelimiter(c) => ErrorView::MissingDelimiter(*c),
            TemplateError::NoValueFound(s) => ErrorView::NoValueFound(s@),
            TemplateError::DirectiveParsing(s) => ErrorView::DirectiveParsing(s@),
            TemplateError::ExecutionError(s) => ErrorView::ExecutionError(s@),
        }
    }
}

/// What a fallible operation of this crate yields, as a mathematical value:
/// the text produced, or the error.
pub type Outcome = Result<Seq<char>, ErrorView>;

/// The mathematical value of a result that holds a string or an error.
pub open spec fn outcome_of(r: Result<String, TemplateError>) -> Outcome {
    match r {
        Ok(s) => Ok(s@),
        Err(e) => Err(e@),
    }
}

/// The sentence that describes an error to a person.
pub open spec fn error_message(e: ErrorView) -> Seq<char> {
    match e {
        ErrorView::MissingOpenDelimiter(c) => "There's a missing '"@.push(c)
            + "' in your template."@,
        ErrorView::MissingClosedDelimiter(c) => "There's a missing '"@.push(c)
            + "' in your template."@,
        ErrorView::MissingDelimiter(c) => "There's a missing '"@.push(c)
            + "' in your template."@,
        ErrorView::NoValueFound(name) => "Trying to use a value that doesn't exist: '"@ + name
            + "' doesn't point to any value"@,
        ErrorView::DirectiveParsing(content) => "Could not parse a directive for the literal '"@
            + content + "'"@,
        ErrorView::ExecutionError(reason) => "There was an error while exectuting a directive: "@
            + reason,
    }
}

fn missing_message(c: char) -> (s: String)
    ensures
        s@ == "There's a missing '"@.push(c) + "' in your template."@,
{
    let mut s = "There's a missing '".to_owned();
    push_char(&mut s, c);
    s.append("' in your template.");
    s
}

impl TemplateError {
    /// The sentence that describes this error.
    pub fn to_string(&self) -> (s: String)
        ensures
            s@ == error_message(self@),
    {
        match self {
            TemplateError::MissingOpenDelimiter(c) => missing_message(*c),
            TemplateError::MissingClosedDelimiter(c) => missing_message(*c),
            TemplateError::MissingDelimiter(c) => missing_message(*c),
            TemplateError::NoValueFound(name) => {
                let mut s = "Trying to use a value that doesn't exist: '".to_owned();
                s.append(name.as_str());
                s.append("' doesn't point to any value");
                s
            },
            TemplateError::DirectiveParsing(content) => {
                let mut s = "Could not parse a directive for the literal '".to_owned();
                s.append(content.as_str());
                s.append("'");
                s
            },
            TemplateError::ExecutionError(reason) => {
                let mut s = "There was an error while exectuting a directive: ".to_owned();
                s.append(reason.as_str());
                s
            },
        }
    }
}

} // verus!
