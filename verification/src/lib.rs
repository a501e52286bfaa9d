//! A delimiter-generic template engine: a template string with configurable
//! bracket characters is parsed into literal parts and directives, and then
//! formatted against a context of named values.

pub mod config;
pub mod delimiters;
pub mod dir;
pub mod directives;
pub mod error;
pub mod git;
pub mod laws;
pub mod markup;
pub mod named;
pub mod style;
pub mod table;
pub mod template;
pub mod text;
pub mod token;
pub mod tree;
pub mod util;
pub mod value;
pub mod var;
pub mod vars;

pub use directives::{
    BuiltinDirective, ConditionalDirective, DefaultParser, Directive, NoDirective, Parser,
    RepeatDirective, ReplaceDirective,
};
pub use error::TemplateError;
pub use template::{Alignment, Part, Template};
pub use token::Token;
pub use value::{Context, Value};
