//! A verified lexical scanner for the Lox scripting language.
//!
//! The scanner walks a UTF-8 source buffer once, left to right, and yields
//! tokens carrying exact byte spans, or lexical errors carrying a labeled
//! byte span together with a copy of the source for diagnostic rendering.

pub mod decode;
pub mod error;
pub mod laws;
pub mod lexer;
pub mod scan;
pub mod token;

pub use error::Error;
pub use error::SourceSpan;
pub use lexer::Lexer;
pub use token::Token;
pub use token::TokenKind;
pub use token::TokenSpan;
