//! A Pig-Latin-style text filter.
//!
//! The library splits text into whitespace-delimited tokens, strips ASCII
//! punctuation from both ends of each token, rearranges the letters of the
//! remaining core word, and reassembles the result with single spaces
//! between tokens. Every function is specified against a sequence-of-
//! characters model and verified.

pub mod assemble;
pub mod chars;
pub mod split;
pub mod transpose;

pub use assemble::convert_string;
pub use assemble::convert_word_with_punctuation;
pub use chars::is_vowel;
pub use split::split_punctuation;
pub use transpose::convert_word;
