use sievers::ast::{Command, TestExpr};
use sievers::parser::parse;

#[test]
fn test_parse_empty() {
    let script = parse("").unwrap();
    assert!(script.commands.is_empty());
}

#[test]
fn test_parse_require() {
    let script = parse("require \"fileinto\";").unwrap();
    assert_eq!(script.commands.len(), 1);
    match &script.commands[0] {
        Command::Require(exts) => assert_eq!(exts, &["fileinto"]),
        _ => panic!("Expected Require"),
    }
}

#[test]
fn test_parse_require_list() {
    let script = parse("require [\"fileinto\", \"reject\"];").unwrap();
    match &script.commands[0] {
        Command::Require(exts) => assert_eq!(exts, &["fileinto", "reject"]),
        _ => panic!("Expected Require"),
    }
}

#[test]
fn test_parse_simple_if() {
    let input = r#"
# Filter: Move spam
if header :contains "Subject" "SPAM" {
    fileinto "Junk";
    stop;
}
"#;
    let script = parse(input).unwrap();
    let if_cmd = script.commands.iter().find(|c| matches!(c, Command::If(_)));
    assert!(if_cmd.is_some());
    if let Command::If(block) = if_cmd.unwrap() {
        assert_eq!(block.name.as_deref(), Some("Move spam"));
        assert!(block.enabled);
        assert_eq!(block.actions.len(), 2);
    }
}

#[test]
fn test_parse_allof() {
    let input = r#"
if allof (header :is "From" "boss@example.com", header :contains "Subject" "urgent") {
    fileinto "Important";
}
"#;
    let script = parse(input).unwrap();
    let if_cmd = script.commands.iter().find(|c| matches!(c, Command::If(_)));
    if let Some(Command::If(block)) = if_cmd {
        match &block.condition {
            TestExpr::AllOf(tests) => assert_eq!(tests.len(), 2),
            _ => panic!("Expected AllOf"),
        }
    }
}

#[test]
fn parser_test_parse_address_domain() {
    let input = r#"if address :is :domain "From" "hapimag.com" {
    fileinto "INBOX/Hapimag";
}"#;
    let script = parse(input).unwrap();
    let if_cmd = script.commands.iter().find(|c| matches!(c, Command::If(_)));
    if let Some(Command::If(block)) = if_cmd {
        match &block.condition {
            TestExpr::Address { address_part, match_type, header_names, keys } => {
                assert_eq!(address_part.as_deref(), Some(":domain"));
                assert_eq!(match_type, ":is");
                assert_eq!(header_names, &["From"]);
                assert_eq!(keys, &["hapimag.com"]);
            }
            _ => panic!("Expected Address test"),
        }
    }
}

#[test]
fn test_parse_disabled_filter_comment() {
    let input = "# Filter: Old rule [DISABLED]\nif size :over 100K {\n    discard;\n}\n";
    let script = parse(input).unwrap();
    if let Command::If(block) = &script.commands[0] {
        assert_eq!(block.name.as_deref(), Some("Old rule"));
        assert!(!block.enabled);
    } else {
        panic!("Expected If");
    }
}

#[test]
fn test_parse_elsif_else_chain() {
    let input = r#"if header :is "A" "b" {
    keep;
} elsif header :is "C" "d" {
    discard;
} else {
    stop;
}"#;
    let script = parse(input).unwrap();
    if let Command::If(block) = &script.commands[0] {
        assert_eq!(block.alternatives.len(), 2);
    } else {
        panic!("Expected If");
    }
}

#[test]
fn test_parse_unknown_command_is_error() {
    let err = parse("frobnicate \"x\";").unwrap_err();
    assert_eq!(err, "Unknown command 'frobnicate' at top level");
}

#[test]
fn test_parse_unknown_test_is_error() {
    let err = parse("if wibble { keep; }").unwrap_err();
    assert_eq!(err, "Unknown test 'wibble'");
}

#[test]
fn test_parse_missing_brace_is_error() {
    let err = parse("if true keep;").unwrap_err();
    assert_eq!(err, "Expected '{' to start action block");
}

#[test]
fn test_parse_size_defaults() {
    let script = parse("if size 200 { discard; }").unwrap();
    if let Command::If(block) = &script.commands[0] {
        match &block.condition {
            TestExpr::Size { comparator, limit } => {
                assert_eq!(comparator, ":over");
                assert_eq!(limit, "200");
            }
            _ => panic!("Expected Size test"),
        }
    } else {
        panic!("Expected If");
    }
}

#[test]
fn test_parse_comparator_tag_is_discarded() {
    let script = parse("if header :comparator \"i;ascii-casemap\" :matches \"X\" \"y\" { keep; }")
        .unwrap();
    if let Command::If(block) = &script.commands[0] {
        match &block.condition {
            TestExpr::Header { match_type, .. } => assert_eq!(match_type, ":matches"),
            _ => panic!("Expected Header test"),
        }
    } else {
        panic!("Expected If");
    }
}
