//! Evaluation core of a small Scheme-family Lisp interpreter.
//!
//! The crate models values as [`datum::Datum`] trees, environments as a
//! parent-linked arena of frames, and evaluation as an iterative virtual
//! machine over an instruction stack and a value stack, so that tail calls
//! do not grow the native call stack.  A `syntax-rules` macro engine with
//! ellipsis patterns and hygienic renaming expands macros into ordinary
//! forms that the machine then evaluates.
//!
//! Symbols and strings are modeled as sequences of characters, so the
//! string primitives (`string-length`, `string-contains`, `substring`)
//! count and index characters, not encoded bytes; the two coincide on
//! ASCII text, and character indexing can never split an encoded
//! character.

pub mod builtin;
pub mod datum;
pub mod environment;
pub mod error;
pub mod interpreter;
pub mod numtext;
pub mod pattern;
pub mod printer;
pub mod reader;
pub mod vm;
