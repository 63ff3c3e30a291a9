//! A verified lexical analyzer for a small, general-purpose language.
//!
//! The lexer turns raw source text into an ordered sequence of typed
//! tokens: fixed punctuation marks, quoted string literals, numeric
//! literals, identifiers ("symbols"), and multi-character operators.
//! Line comments (`//` to end of line) and block comments (`/*` to the
//! first `*/`) are deleted from the text before tokenization; deletion,
//! not blanking, so two lexemes separated only by a comment are joined
//! into one.
//!
//! The pipeline is specified end to end: [`lexer::lex`] is proved to
//! return exactly the token sequence given by the specification-level
//! machine [`lexer::spec_lex`], and the library's laws (stability of
//! the token sequence under inserted whitespace, round trips of literal
//! payloads, maximal munch, comment deletion) are proved about that
//! machine in [`props`] and [`comments`].

pub mod classes;
pub mod comments;
pub mod data;
pub mod lexer;
pub mod props;
pub mod text;
