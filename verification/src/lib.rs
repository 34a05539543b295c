//! A lexical analyser for a BASIC-family language.
//!
//! The library turns raw source text into a stream of classified lexemes:
//! words, whitespace runs, punctuation symbols and the three line-ending
//! conventions (CR, LF, CRLF), with explicit end-of-input signalling.
//! A buffered front end adds the one-token lookahead that a
//! recursive-descent parser needs.

pub mod buf_lexer;
pub mod lexeme;
pub mod lexer;
pub mod rand_file;
pub mod reader;
