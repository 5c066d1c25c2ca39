//! A verified interpretation pipeline for a small console language that
//! queries token metadata on a blockchain node: lexical tokenization of an
//! input line, parsing of the token sequence into a typed command, and
//! dispatch of the command over responses supplied by the network
//! collaborators.

pub mod eval;
pub mod lexer;
pub mod parser;
pub mod text;
