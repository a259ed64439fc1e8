//! Items shared by the lexical layer: character classes of the XML
//! grammar and the error value that lexing can report.

use vstd::prelude::*;

verus! {

/// Whether `c` is an XML whitespace character (`S` production):
/// space, tab, carriage return or line feed.
pub open spec fn spec_is_whitespace_char(c: char) -> bool {
    c == ' ' || c == '\t' || c == '\r' || c == '\n'
}

/// Whether `c` may start an XML name (`NameStartChar` production).
pub open spec fn spec_is_name_start_char(c: char) -> bool {
    ||| c == ':'
    ||| ('A' <= c && c <= 'Z')
    ||| c == '_'
    ||| ('a' <= c && c <= 'z')
    ||| ('\u{C0}' <= c && c <= '\u{D6}')
    ||| ('\u{D8}' <= c && c <= '\u{F6}')
    ||| ('\u{F8}' <= c && c <= '\u{2FF}')
    ||| ('\u{370}' <= c && c <= '\u{37D}')
    ||| ('\u{37F}' <= c && c <= '\u{1FFF}')
    ||| ('\u{200C}' <= c && c <= '\u{200D}')
    ||| ('\u{2070}' <= c && c <= '\u{218F}')
    ||| ('\u{2C00}' <= c && c <= '\u{2FEF}')
    ||| ('\u{3001}' <= c && c <= '\u{D7FF}')
    ||| ('\u{F900}' <= c && c <= '\u{FDCF}')
    ||| ('\u{FDF0}' <= c && c <= '\u{FFFD}')
    ||| ('\u{10000}' <= c && c <= '\u{EFFFF}')
}

/// Whether `c` may appear inside an XML name (`NameChar` production).
pub open spec fn spec_is_name_char(c: char) -> bool {
    ||| spec_is_name_start_char(c)
    ||| c == '-'
    ||| c == '.'
    ||| ('0' <= c && c <= '9')
    ||| c == '\u{B7}'
    ||| ('\u{300}' <= c && c <= '\u{36F}')
    ||| ('\u{203F}' <= c && c <= '\u{2040}')
}

/// Checks whether `c` is an XML whitespace character.
#[verifier::when_used_as_spec(spec_is_whitespace_char)]
pub fn is_whitespace_char(c: char) -> (r: bool)
    ensures
        r == spec_is_whitespace_char(c),
{
    c == ' ' || c == '\t' || c == '\r' || c == '\n'
}

/// Checks whether `c` may start an XML name.
#[verifier::when_used_as_spec(spec_is_name_start_char)]
pub fn is_name_start_char(c: char) -> (r: bool)
    ensures
        r == spec_is_name_start_char(c),
{
    c == ':'
        || ('A' <= c && c <= 'Z')
        || c == '_'
        || ('a' <= c && c <= 'z')
        || ('\u{C0}' <= c && c <= '\u{D6}')
        || ('\u{D8}' <= c && c <= '\u{F6}')
        || ('\u{F8}' <= c && c <= '\u{2FF}')
        || ('\u{370}' <= c && c <= '\u{37D}')
        || ('\u{37F}' <= c && c <= '\u{1FFF}')
        || ('\u{200C}' <= c && c <= '\u{200D}')
        || ('\u{2070}' <= c && c <= '\u{218F}')
        || ('\u{2C00}' <= c && c <= '\u{2FEF}')
        || ('\u{3001}' <= c && c <= '\u{D7FF}')
        || ('\u{F900}' <= c && c <= '\u{FDCF}')
        || ('\u{FDF0}' <= c && c <= '\u{FFFD}')
        || ('\u{10000}' <= c && c <= '\u{EFFFF}')
}

/// Checks whether `c` may appear inside an XML name.
#[verifier::when_used_as_spec(spec_is_name_char)]
pub fn is_name_char(c: char) -> (r: bool)
    ensures
        r == spec_is_name_char(c),
{
    is_name_start_char(c)
        || c == '-'
        || c == '.'
        || ('0' <= c && c <= '9')
        || c == '\u{B7}'
        || ('\u{300}' <= c && c <= '\u{36F}')
        || ('\u{203F}' <= c && c <= '\u{2040}')
}

/// Relies on `String::push`: appends exactly one character at the end of
/// the string.
#[verifier::external_body]
pub(crate) fn push_char(s: &mut String, c: char)
    ensures
        final(s)@ == old(s)@ + seq![c],
{
    s.push(c);
}

/// The mathematical value of an [`Error`]: a zero-based position and the
/// message text.
pub struct ErrorModel {
    pub row: nat,
    pub col: nat,
    pub msg: Seq<char>,
}

/// An error produced by the lexer, carrying the zero-based row and column
/// at which the offending text starts and a human-readable message.
#[derive(Clone, PartialEq, Eq, Debug)]
pub struct Error {
    row: usize,
    col: usize,
    msg: String,
}

impl View for Error {
    type V = ErrorModel;

    closed spec fn view(&self) -> ErrorModel {
        ErrorModel { row: self.row as nat, col: self.col as nat, msg: self.msg@ }
    }
}

impl Error {
    /// Builds an error from an explicit position and message.
    pub fn new_full(row: usize, col: usize, msg: String) -> (e: Error)
        ensures
            e@ == (ErrorModel { row: row as nat, col: col as nat, msg: msg@ }),
    {
        Error { row, col, msg }
    }

    /// The zero-based row at which the offending text starts.
    pub fn row(&self) -> (r: usize)
        ensures
            r == self@.row,
    {
        self.row
    }

    /// The zero-based column at which the offending text starts.
    pub fn col(&self) -> (c: usize)
        ensures
            c == self@.col,
    {
        self.col
    }

    /// The message text.
    pub fn msg(&self) -> (m: &str)
        ensures
            m@ == self@.msg,
    {
        self.msg.as_str()
    }
}

} // verus!
