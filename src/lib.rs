//! A tape-based interpreter for the eight-instruction `[]<>+-.,` language.
//!
//! Source text is turned into instructions by [`token`], and those are run by
//! the [`interpreter`] one step at a time against a lazily grown tape.
pub mod token;
pub mod brackets;
pub mod tape;
pub mod values;
pub mod interpreter;
