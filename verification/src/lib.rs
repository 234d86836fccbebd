//! A front end for a small schema language for synthetic data.
//!
//! A schema text declares named type aliases, record tables with typed
//! properties and one primary key, and ratios that relate the row counts of
//! tables. The text is turned into [`Token`]s by [`lex_text`], and the tokens
//! into a [`Schema`] by [`parse_tokens`]; names are resolved while parsing, so
//! a type alias or a table has to be declared before it is used.
//!
//! Every result is stated against a mathematical model: the lexer against a
//! state machine over characters ([`lex_model`]), the parser against the
//! productions of [`grammar`]. What holds of the two on every input is proved
//! in [`lex_laws`] and [`grammar_laws`].

pub mod chars;
pub mod error;
pub mod grammar;
pub mod grammar_laws;
pub mod lex_laws;
pub mod lex_model;
pub mod lexer;
pub mod parser;
pub mod schema;
pub mod text;
pub mod token;

pub use error::{
    LexError, LexFault, ParseError, ParseFault, ReferenceError, SchemaError, StrayChar,
};
pub use lexer::{lex_text, Lexed};
pub use parser::{
    parse_property, parse_ratio, parse_specifier, parse_table, parse_tokens, parse_typedef,
    parse_with_diagnostics, resolve, Parsed,
};
pub use schema::{DataType, Property, Ratio, Schema, Specifier, Table, TypeDef};
pub use token::{Keyword, Token};
