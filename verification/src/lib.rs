//! Pull-based lexical analysis for XML documents.
//!
//! The crate splits the surface syntax of an XML document into lexemes:
//! markup delimiters, quotes, bare characters and whitespace.  A
//! higher-level parser is expected to assemble these lexemes into tags,
//! attributes, comments, CDATA sections and doctype declarations.

pub mod common;
pub mod reader;
