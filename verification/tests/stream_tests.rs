//! Scenario tests for the token stream as a whole: plain text passing
//! through unchanged, exact token sequences for small documents,
//! idempotent exhaustion, and the lenient-mode round trip.

use xml::reader::lexer;
use xml::reader::lexer::{CharReader, PullLexer, Token};

fn lex_and_buf(s: &str) -> (PullLexer, CharReader) {
    (lexer::new(), CharReader::new(s.chars().collect()))
}

#[test]
fn plain_text_passes_through() {
    let input = "hello,\tbig world\n";
    let (mut lex, mut buf) = lex_and_buf(input);
    let mut rebuilt = String::new();
    for expected in input.chars() {
        match lex.next_token(&mut buf) {
            Some(Ok(Token::Character(c))) => {
                assert!(!c.is_ascii_whitespace());
                assert_eq!(expected, c);
                rebuilt.push(c);
            }
            Some(Ok(Token::Whitespace(c))) => {
                assert_eq!(expected, c);
                rebuilt.push(c);
            }
            other => panic!("expected a character token, got {:?}", other),
        }
    }
    assert_eq!(None, lex.next_token(&mut buf));
    assert_eq!(input, rebuilt);
}

#[test]
fn attribute_tag_tokens() {
    let (mut lex, mut buf) = lex_and_buf("<a p='q'>");
    let expected = [
        Token::OpeningTagStart,
        Token::Character('a'),
        Token::Whitespace(' '),
        Token::Character('p'),
        Token::EqualsSign,
        Token::SingleQuote,
        Token::Character('q'),
        Token::SingleQuote,
        Token::TagEnd,
    ];
    for t in &expected {
        assert_eq!(Some(Ok(t.clone())), lex.next_token(&mut buf));
    }
    assert_eq!(None, lex.next_token(&mut buf));
}

#[test]
fn cdata_section_tokens() {
    let (mut lex, mut buf) = lex_and_buf("<![CDATA[x y ?]]>");
    let expected = [
        Token::CDataStart,
        Token::Character('x'),
        Token::Whitespace(' '),
        Token::Character('y'),
        Token::Whitespace(' '),
        Token::Character('?'),
        Token::CDataEnd,
    ];
    for t in &expected {
        assert_eq!(Some(Ok(t.clone())), lex.next_token(&mut buf));
    }
    assert_eq!(None, lex.next_token(&mut buf));
}

#[test]
fn doctype_declaration_tokens() {
    let (mut lex, mut buf) = lex_and_buf("<!DOCTYPE ab xx z>");
    let expected = [
        Token::DoctypeStart,
        Token::Whitespace(' '),
        Token::Character('a'),
        Token::Character('b'),
        Token::Whitespace(' '),
        Token::Character('x'),
        Token::Character('x'),
        Token::Whitespace(' '),
        Token::Character('z'),
        Token::TagEnd,
    ];
    for t in &expected {
        assert_eq!(Some(Ok(t.clone())), lex.next_token(&mut buf));
    }
    assert_eq!(None, lex.next_token(&mut buf));
}

#[test]
fn exhaustion_is_idempotent() {
    let (mut lex, mut buf) = lex_and_buf("x");
    assert_eq!(Some(Ok(Token::Character('x'))), lex.next_token(&mut buf));
    assert_eq!(None, lex.next_token(&mut buf));
    let row = lex.row();
    let col = lex.col();
    for _ in 0..3 {
        assert_eq!(None, lex.next_token(&mut buf));
        assert_eq!(row, lex.row());
        assert_eq!(col, lex.col());
    }
}

#[test]
fn lenient_round_trip() {
    let input = "<!x <a--]z <![CDAB ]] '?/ <!DOCTYPID end";
    let (mut lex, mut buf) = lex_and_buf(input);
    lex.disable_errors();
    let mut rebuilt = String::new();
    loop {
        match lex.next_token(&mut buf) {
            Some(Ok(t)) => rebuilt.push_str(&t.rendered()),
            Some(Err(e)) => panic!("lenient mode reported an error: {}", e.msg()),
            None => break,
        }
    }
    assert_eq!(input, rebuilt);
}

#[test]
fn position_tracks_rows_and_columns() {
    let (mut lex, mut buf) = lex_and_buf("ab\ncd");
    assert_eq!(Some(Ok(Token::Character('a'))), lex.next_token(&mut buf));
    assert_eq!((0, 1), (lex.row(), lex.col()));
    assert_eq!(Some(Ok(Token::Character('b'))), lex.next_token(&mut buf));
    assert_eq!((0, 2), (lex.row(), lex.col()));
    assert_eq!(Some(Ok(Token::Whitespace('\n'))), lex.next_token(&mut buf));
    assert_eq!((1, 0), (lex.row(), lex.col()));
    assert_eq!(Some(Ok(Token::Character('c'))), lex.next_token(&mut buf));
    assert_eq!((1, 1), (lex.row(), lex.col()));
}

#[test]
fn eof_error_position_after_newline() {
    let (mut lex, mut buf) = lex_and_buf("a\n<");
    assert_eq!(Some(Ok(Token::Character('a'))), lex.next_token(&mut buf));
    assert_eq!(Some(Ok(Token::Whitespace('\n'))), lex.next_token(&mut buf));
    match lex.next_token(&mut buf) {
        Some(Err(e)) => {
            assert_eq!(1, e.row());
            assert_eq!(1, e.col());
            assert_eq!("Unexpected end of stream", e.msg());
        }
        other => panic!("expected an error, got {:?}", other),
    }
    assert_eq!(None, lex.next_token(&mut buf));
}

#[test]
fn mismatch_on_newline_saturates_column() {
    let (mut lex, mut buf) = lex_and_buf("<!\nx");
    match lex.next_token(&mut buf) {
        Some(Err(e)) => {
            assert_eq!(1, e.row());
            assert_eq!(0, e.col());
            assert_eq!("Unexpected token <! before \n", e.msg());
        }
        other => panic!("expected an error, got {:?}", other),
    }
}

#[test]
fn double_dash_chunk() {
    let (mut lex, mut buf) = lex_and_buf("--x");
    assert_eq!(Some(Ok(Token::Chunk("--"))), lex.next_token(&mut buf));
    assert_eq!(Some(Ok(Token::Character('x'))), lex.next_token(&mut buf));
    assert_eq!(None, lex.next_token(&mut buf));
}

#[test]
fn error_modes_toggle_independently() {
    let (mut lex, mut buf) = lex_and_buf("<!x<!y");
    lex.disable_errors();
    assert_eq!(Some(Ok(Token::Chunk("<!"))), lex.next_token(&mut buf));
    assert_eq!(Some(Ok(Token::Character('x'))), lex.next_token(&mut buf));
    lex.enable_errors();
    match lex.next_token(&mut buf) {
        Some(Err(e)) => assert_eq!("Unexpected token <! before y", e.msg()),
        other => panic!("expected an error, got {:?}", other),
    }

    let (mut other_lex, mut other_buf) = lex_and_buf("<!z");
    match other_lex.next_token(&mut other_buf) {
        Some(Err(e)) => assert_eq!("Unexpected token <! before z", e.msg()),
        other => panic!("expected an error, got {:?}", other),
    }
}
