//! Tests of the pull lexer: token streams for well-formed markup, end of
//! stream handling, and error reporting in both error modes.

use xml::common::Error;
use xml::reader::lexer;
use xml::reader::lexer::{CharReader, PullLexer, Token};

fn make_buf(s: &str) -> CharReader {
    CharReader::new(s.chars().collect())
}

fn make_lex_and_buf(s: &str) -> (PullLexer, CharReader) {
    (lexer::new(), make_buf(s))
}

fn assert_oks(lex: &mut PullLexer, buf: &mut CharReader, expected: &[Token]) {
    for t in expected {
        assert_eq!(Some(Ok(t.clone())), lex.next_token(buf));
    }
}

fn assert_err(lex: &mut PullLexer, buf: &mut CharReader, row: usize, col: usize, msg: &str) {
    let err = lex.next_token(buf);
    assert!(err.is_some());
    assert!(err.as_ref().unwrap().is_err());
    let err: Error = err.unwrap().unwrap_err();
    assert_eq!(row, err.row());
    assert_eq!(col, err.col());
    assert_eq!(msg, err.msg());
}

fn assert_none(lex: &mut PullLexer, buf: &mut CharReader) {
    assert_eq!(None, lex.next_token(buf));
}

#[test]
fn simple_lexer_test() {
    let (mut lex, mut buf) =
        make_lex_and_buf(r#"<a p='q'> x<b z="y">d	</b></a><p/> <?nm ?> <!-- a c --> &nbsp;"#);

    assert_oks(
        &mut lex,
        &mut buf,
        &[
            Token::OpeningTagStart,
            Token::Character('a'),
            Token::Whitespace(' '),
            Token::Character('p'),
            Token::EqualsSign,
            Token::SingleQuote,
            Token::Character('q'),
            Token::SingleQuote,
            Token::TagEnd,
            Token::Whitespace(' '),
            Token::Character('x'),
            Token::OpeningTagStart,
            Token::Character('b'),
            Token::Whitespace(' '),
            Token::Character('z'),
            Token::EqualsSign,
            Token::DoubleQuote,
            Token::Character('y'),
            Token::DoubleQuote,
            Token::TagEnd,
            Token::Character('d'),
            Token::Whitespace('\t'),
            Token::ClosingTagStart,
            Token::Character('b'),
            Token::TagEnd,
            Token::ClosingTagStart,
            Token::Character('a'),
            Token::TagEnd,
            Token::OpeningTagStart,
            Token::Character('p'),
            Token::EmptyTagEnd,
            Token::Whitespace(' '),
            Token::ProcessingInstructionStart,
            Token::Character('n'),
            Token::Character('m'),
            Token::Whitespace(' '),
            Token::ProcessingInstructionEnd,
            Token::Whitespace(' '),
            Token::CommentStart,
            Token::Whitespace(' '),
            Token::Character('a'),
            Token::Whitespace(' '),
            Token::Character('c'),
            Token::Whitespace(' '),
            Token::CommentEnd,
            Token::Whitespace(' '),
            Token::ReferenceStart,
            Token::Character('n'),
            Token::Character('b'),
            Token::Character('s'),
            Token::Character('p'),
            Token::ReferenceEnd,
        ],
    );
    assert_none(&mut lex, &mut buf);
}

#[test]
fn special_chars_test() {
    let (mut lex, mut buf) = make_lex_and_buf(r#"?x!+ // -| ]z]]"#);

    assert_oks(
        &mut lex,
        &mut buf,
        &[
            Token::Character('?'),
            Token::Character('x'),
            Token::Character('!'),
            Token::Character('+'),
            Token::Whitespace(' '),
            Token::Character('/'),
            Token::Character('/'),
            Token::Whitespace(' '),
            Token::Character('-'),
            Token::Character('|'),
            Token::Whitespace(' '),
            Token::Character(']'),
            Token::Character('z'),
            Token::Chunk("]]"),
        ],
    );
    assert_none(&mut lex, &mut buf);
}

#[test]
fn cdata_test() {
    let (mut lex, mut buf) = make_lex_and_buf(r#"<a><![CDATA[x y ?]]> </a>"#);

    assert_oks(
        &mut lex,
        &mut buf,
        &[
            Token::OpeningTagStart,
            Token::Character('a'),
            Token::TagEnd,
            Token::CDataStart,
            Token::Character('x'),
            Token::Whitespace(' '),
            Token::Character('y'),
            Token::Whitespace(' '),
            Token::Character('?'),
            Token::CDataEnd,
            Token::Whitespace(' '),
            Token::ClosingTagStart,
            Token::Character('a'),
            Token::TagEnd,
        ],
    );
    assert_none(&mut lex, &mut buf);
}

#[test]
fn doctype_test() {
    let (mut lex, mut buf) = make_lex_and_buf(r#"<a><!DOCTYPE ab xx z> "#);
    assert_oks(
        &mut lex,
        &mut buf,
        &[
            Token::OpeningTagStart,
            Token::Character('a'),
            Token::TagEnd,
            Token::DoctypeStart,
            Token::Whitespace(' '),
            Token::Character('a'),
            Token::Character('b'),
            Token::Whitespace(' '),
            Token::Character('x'),
            Token::Character('x'),
            Token::Whitespace(' '),
            Token::Character('z'),
            Token::TagEnd,
            Token::Whitespace(' '),
        ],
    );
    assert_none(&mut lex, &mut buf);
}

fn eof_check_ok(data: &str, token: Token) {
    let (mut lex, mut buf) = make_lex_and_buf(data);
    assert_oks(&mut lex, &mut buf, &[token]);
    assert_none(&mut lex, &mut buf);
}

#[test]
fn end_of_stream_handling_ok() {
    eof_check_ok("?", Token::Character('?'));
    eof_check_ok("/", Token::Character('/'));
    eof_check_ok("-", Token::Character('-'));
    eof_check_ok("]", Token::Character(']'));
    eof_check_ok("]]", Token::Chunk("]]"));
}

fn eof_check_err(data: &str, row: usize, col: usize) {
    let (mut lex, mut buf) = make_lex_and_buf(data);
    assert_err(&mut lex, &mut buf, row, col, "Unexpected end of stream");
    assert_none(&mut lex, &mut buf);
}

#[test]
fn end_of_stream_handling_error() {
    eof_check_err("<", 0, 1);
    eof_check_err("<!", 0, 2);
    eof_check_err("<!-", 0, 3);
    eof_check_err("<![", 0, 3);
    eof_check_err("<![C", 0, 4);
    eof_check_err("<![CD", 0, 5);
    eof_check_err("<![CDA", 0, 6);
    eof_check_err("<![CDAT", 0, 7);
    eof_check_err("<![CDATA", 0, 8);
    eof_check_err("--", 0, 2);
}

#[test]
fn error_in_comment_or_cdata_prefix() {
    let (mut lex, mut buf) = make_lex_and_buf("<!x");
    assert_err(&mut lex, &mut buf, 0, 0, "Unexpected token <! before x");

    let (mut lex, mut buf) = make_lex_and_buf("<!x");
    lex.disable_errors();
    assert_oks(&mut lex, &mut buf, &[Token::Chunk("<!"), Token::Character('x')]);
    assert_none(&mut lex, &mut buf);
}

#[test]
fn error_in_comment_started() {
    let (mut lex, mut buf) = make_lex_and_buf("<!-\t");
    assert_err(&mut lex, &mut buf, 0, 0, "Unexpected token <!- before \t");

    let (mut lex, mut buf) = make_lex_and_buf("<!-\t");
    lex.disable_errors();
    assert_oks(&mut lex, &mut buf, &[Token::Chunk("<!-"), Token::Whitespace('\t')]);
    assert_none(&mut lex, &mut buf);
}

fn check_case(chunk: &'static str, app: char, data: &str, row: usize, col: usize, msg: &str) {
    let (mut lex, mut buf) = make_lex_and_buf(data);
    assert_err(&mut lex, &mut buf, row, col, msg);

    let (mut lex, mut buf) = make_lex_and_buf(data);
    lex.disable_errors();
    assert_oks(&mut lex, &mut buf, &[Token::Chunk(chunk), Token::Character(app)]);
    assert_none(&mut lex, &mut buf);
}

#[test]
fn error_in_cdata_started() {
    check_case("<![", '[', "<![[", 0, 0, "Unexpected token <![ before [");
    check_case("<![C", '[', "<![C[", 0, 0, "Unexpected token <![C before [");
    check_case("<![CD", '[', "<![CD[", 0, 0, "Unexpected token <![CD before [");
    check_case("<![CDA", '[', "<![CDA[", 0, 0, "Unexpected token <![CDA before [");
    check_case("<![CDAT", '[', "<![CDAT[", 0, 0, "Unexpected token <![CDAT before [");
    check_case("<![CDATA", '|', "<![CDATA|", 0, 0, "Unexpected token <![CDATA before |");
}

#[test]
fn error_in_doctype_started() {
    check_case("<!D", 'a', "<!Da", 0, 0, "Unexpected token <!D before a");
    check_case("<!DO", 'b', "<!DOb", 0, 0, "Unexpected token <!DO before b");
    check_case("<!DOC", 'c', "<!DOCc", 0, 0, "Unexpected token <!DOC before c");
    check_case("<!DOCT", 'd', "<!DOCTd", 0, 0, "Unexpected token <!DOCT before d");
    check_case("<!DOCTY", 'e', "<!DOCTYe", 0, 0, "Unexpected token <!DOCTY before e");
    check_case("<!DOCTYP", 'f', "<!DOCTYPf", 0, 0, "Unexpected token <!DOCTYP before f");
}
