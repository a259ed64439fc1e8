//! The reading side of the library: the pull lexer and the laws that
//! hold of its token stream.

pub mod laws;
pub mod lexer;
