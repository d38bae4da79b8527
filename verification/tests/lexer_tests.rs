use sievers::lexer::{tokenize, Token};

#[test]
fn test_simple_tokens() {
    let tokens = tokenize("require \"fileinto\";").unwrap();
    assert_eq!(tokens.len(), 3);
    assert!(matches!(&tokens[0].token, Token::Identifier(s) if s == "require"));
    assert!(matches!(&tokens[1].token, Token::QuotedString(s) if s == "fileinto"));
    assert!(matches!(&tokens[2].token, Token::Semicolon));
}

#[test]
fn test_tags_and_strings() {
    let tokens = tokenize("header :contains \"Subject\" \"SPAM\"").unwrap();
    assert_eq!(tokens.len(), 4);
    assert!(matches!(&tokens[1].token, Token::Tag(s) if s == ":contains"));
}

#[test]
fn test_comment() {
    let tokens = tokenize("# Filter: test\nkeep;").unwrap();
    assert!(matches!(&tokens[0].token, Token::Comment(s) if s == "Filter: test"));
}

#[test]
fn test_string_list() {
    let tokens = tokenize("[\"a\", \"b\"]").unwrap();
    assert_eq!(tokens.len(), 5); // [ "a" , "b" ]
}

#[test]
fn test_number_with_suffix() {
    let tokens = tokenize("100K").unwrap();
    assert!(matches!(&tokens[0].token, Token::Number(s) if s == "100K"));
}

#[test]
fn test_block_comment() {
    let tokens = tokenize("/* a note */ keep;").unwrap();
    assert!(matches!(&tokens[0].token, Token::BlockComment(s) if s == "a note"));
    assert!(matches!(&tokens[1].token, Token::Identifier(s) if s == "keep"));
}

#[test]
fn test_multiline_string() {
    let tokens = tokenize("text:\nline one\nline two\n.\nkeep;").unwrap();
    assert!(matches!(&tokens[0].token, Token::MultiLineString(s) if s == "line one\nline two\n"));
    assert!(matches!(&tokens[1].token, Token::Identifier(s) if s == "keep"));
}

#[test]
fn test_escaped_quoted_string() {
    let tokens = tokenize("\"a\\\"b\\\\c\"").unwrap();
    assert_eq!(tokens.len(), 1);
    assert!(matches!(&tokens[0].token, Token::QuotedString(s) if s == "a\"b\\c"));
}

#[test]
fn test_tag_is_lowercased() {
    let tokens = tokenize(":CONTAINS").unwrap();
    assert!(matches!(&tokens[0].token, Token::Tag(s) if s == ":contains"));
}

#[test]
fn test_spans_carry_offsets() {
    let tokens = tokenize("keep ;").unwrap();
    assert_eq!(tokens[0].offset, 0);
    assert_eq!(tokens[0].len, 4);
    assert_eq!(tokens[1].offset, 5);
    assert_eq!(tokens[1].len, 1);
}

#[test]
fn test_unterminated_string_is_error() {
    let err = tokenize("\"never closed").unwrap_err();
    assert_eq!(err, "Unterminated string at offset 0");
}

#[test]
fn test_unterminated_block_comment_is_error() {
    let err = tokenize("keep; /* open").unwrap_err();
    assert_eq!(err, "Unterminated block comment at offset 6");
}

#[test]
fn test_unterminated_multiline_is_error() {
    let err = tokenize("text:\nbody without dot").unwrap_err();
    assert_eq!(err, "Unterminated multi-line string at offset 0");
}

#[test]
fn test_unexpected_character_is_error() {
    let err = tokenize("keep @").unwrap_err();
    assert_eq!(err, "Unexpected character '@' at offset 5");
}
