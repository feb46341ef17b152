//! A lexical scanner for a small dynamically-typed scripting language.
//!
//! [`scanner::Scanner::tokenize`] turns source text into an ordered sequence
//! of [`token::Token`]s that ends with a single end-of-input token. Its
//! contract is stated against [`lexical::scan`], a recursive description of
//! the token grammar over the source's characters; [`properties`] proves
//! general facts about that description. [`format`] renders tokens one per
//! line.

pub mod token;
pub mod lexical;
pub mod scanner;
pub mod properties;
pub mod format;
pub mod tree_walk;
