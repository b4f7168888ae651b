//! Convert text into spelling-alphabet code words.
//!
//! A converter is built over a table that maps characters to code words
//! (the NATO alphabet's "Alfa", "Bravo", ... by default). Conversion keeps
//! the capitalization of letters by recasing the code word, passes unknown
//! characters through unchanged, and can expand letters into a nonce form
//! such as `'A' as in ALFA`.

mod chars;
mod cli;
mod code_words;
mod converter;
mod paths;
mod table;

pub use cli::{parse_overrides, Alphabet, Asset, Cli, OverrideError};
pub use code_words::SpellingAlphabet;
pub use converter::PhoneticConverter;
pub use paths::to_relative_paths;
pub use table::CodeWordTable;
