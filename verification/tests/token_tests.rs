//! Tests of the token type's queries and of its canonical textual
//! rendering.

use xml::reader::lexer::Token;

#[test]
fn as_static_str_fixed_tokens() {
    assert_eq!(Some("<"), Token::OpeningTagStart.as_static_str());
    assert_eq!(Some("<?"), Token::ProcessingInstructionStart.as_static_str());
    assert_eq!(Some("<!DOCTYPE"), Token::DoctypeStart.as_static_str());
    assert_eq!(Some("</"), Token::ClosingTagStart.as_static_str());
    assert_eq!(Some("<!--"), Token::CommentStart.as_static_str());
    assert_eq!(Some("<![CDATA["), Token::CDataStart.as_static_str());
    assert_eq!(Some(">"), Token::TagEnd.as_static_str());
    assert_eq!(Some("/>"), Token::EmptyTagEnd.as_static_str());
    assert_eq!(Some("?>"), Token::ProcessingInstructionEnd.as_static_str());
    assert_eq!(Some("-->"), Token::CommentEnd.as_static_str());
    assert_eq!(Some("]]>"), Token::CDataEnd.as_static_str());
    assert_eq!(Some("&"), Token::ReferenceStart.as_static_str());
    assert_eq!(Some(";"), Token::ReferenceEnd.as_static_str());
    assert_eq!(Some("="), Token::EqualsSign.as_static_str());
    assert_eq!(Some("'"), Token::SingleQuote.as_static_str());
    assert_eq!(Some("\""), Token::DoubleQuote.as_static_str());
}

#[test]
fn as_static_str_varying_tokens() {
    assert_eq!(None, Token::Chunk("]]").as_static_str());
    assert_eq!(None, Token::Character('x').as_static_str());
    assert_eq!(None, Token::Whitespace(' ').as_static_str());
}

#[test]
fn rendered_text() {
    assert_eq!("<!--", Token::CommentStart.rendered());
    assert_eq!("<![CDATA[", Token::CDataStart.rendered());
    assert_eq!("]]>", Token::CDataEnd.rendered());
    assert_eq!("]]", Token::Chunk("]]").rendered());
    assert_eq!("q", Token::Character('q').rendered());
    assert_eq!("\t", Token::Whitespace('\t').rendered());
}

#[test]
fn contains_char_data_quirk() {
    assert!(Token::Whitespace(' ').contains_char_data());
    assert!(Token::Chunk("<!").contains_char_data());
    assert!(Token::Character('x').contains_char_data());
    assert!(Token::TagEnd.contains_char_data());
    assert!(Token::EqualsSign.contains_char_data());
    assert!(Token::DoubleQuote.contains_char_data());
    assert!(Token::SingleQuote.contains_char_data());

    assert!(!Token::OpeningTagStart.contains_char_data());
    assert!(!Token::ClosingTagStart.contains_char_data());
    assert!(!Token::EmptyTagEnd.contains_char_data());
    assert!(!Token::ProcessingInstructionStart.contains_char_data());
    assert!(!Token::ProcessingInstructionEnd.contains_char_data());
    assert!(!Token::DoctypeStart.contains_char_data());
    assert!(!Token::CommentStart.contains_char_data());
    assert!(!Token::CommentEnd.contains_char_data());
    assert!(!Token::CDataStart.contains_char_data());
    assert!(!Token::CDataEnd.contains_char_data());
    assert!(!Token::ReferenceStart.contains_char_data());
    assert!(!Token::ReferenceEnd.contains_char_data());
}

#[test]
fn is_whitespace_query() {
    assert!(Token::Whitespace('\n').is_whitespace());
    assert!(!Token::Character('\u{200B}').is_whitespace());
    assert!(!Token::Chunk("--").is_whitespace());
    assert!(!Token::TagEnd.is_whitespace());
}
