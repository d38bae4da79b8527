use sievers::protocol::{
    classify_line, escape_sieve, extract_literal_size, extract_quoted_string, LineClass,
};

#[test]
fn test_extract_quoted_string_reads_first_literal() {
    assert_eq!(
        extract_quoted_string("\"script one\" ACTIVE"),
        Some("script one".to_string())
    );
    assert_eq!(
        extract_quoted_string("  \"with \\\"quotes\\\" and \\\\slash\""),
        Some("with \"quotes\" and \\slash".to_string())
    );
    assert_eq!(extract_quoted_string("no quotes here"), None);
    assert_eq!(extract_quoted_string("\"never closed"), None);
    assert_eq!(extract_quoted_string("\"trailing backslash\\"), None);
}

#[test]
fn test_extract_literal_size_reads_marker() {
    assert_eq!(extract_literal_size("{42}"), Some(42));
    assert_eq!(extract_literal_size("  {120+}"), Some(120));
    assert_eq!(extract_literal_size("{not a number}"), None);
    assert_eq!(extract_literal_size("plain text"), None);
    assert_eq!(extract_literal_size("{99"), None);
}

#[test]
fn test_escape_sieve_doubles_specials() {
    assert_eq!(escape_sieve("plain"), "plain");
    assert_eq!(escape_sieve("a\"b\\c"), "a\\\"b\\\\c");
    assert_eq!(escape_sieve(""), "");
}

#[test]
fn test_classify_line_matches_status_words() {
    assert_eq!(classify_line("OK \"done\""), LineClass::Done);
    assert_eq!(classify_line("  NO (QUOTA) \"too big\""), LineClass::Failed);
    assert_eq!(classify_line("BYE \"closing\""), LineClass::Failed);
    assert_eq!(classify_line("\"scriptname\" ACTIVE"), LineClass::Payload);
}
