//! A toolkit for hand-written lexers: a character stream with a committed
//! cursor and an independent speculative cursor, a library of scanning
//! combinators built on that stream, and a renderer-independent diagnostics
//! model anchored to source locations.

pub mod char_stream;
pub mod diagnostics;
pub mod lex;
pub mod lex_errors;
pub mod location;
pub mod parse_errors;
pub mod tok;
