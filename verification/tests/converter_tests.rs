use sievers::converter::{script_to_text, text_to_script};
use sievers::enums::{ActionType, AddressPartType, ConditionTest, LogicOperator, MatchType};

const SIMPLE_FILEINTO: &str = r#"require "fileinto";

# Filter: Move spam
if header :contains "Subject" "SPAM" {
    fileinto "Junk";
    stop;
}
"#;

const MULTI_CONDITION: &str = r#"require "fileinto";

# Filter: VIP mail
if allof (header :is "From" "boss@example.com", header :contains "Subject" "urgent") {
    fileinto "Important";
}
"#;

const ANYOF_SCRIPT: &str = r#"require "fileinto";

# Filter: Newsletters
if anyof (header :contains "From" "news@a.com", header :contains "From" "news@b.com") {
    fileinto "Newsletters";
}
"#;

const ADDRESS_DOMAIN_SCRIPT: &str = r#"require ["reject", "fileinto", "body", "mailbox"];

# Filter: HAPIMAG emails
if address :is :domain "From" "hapimag.com" {
    fileinto "INBOX/Hapimag";
}
"#;

#[test]
fn test_parse_simple_fileinto() {
    let script = text_to_script(SIMPLE_FILEINTO, "test");
    assert_eq!(script.name, "test");
    assert_eq!(script.rules.len(), 1);

    let rule = &script.rules[0];
    assert_eq!(rule.name, "Move spam");
    assert!(rule.enabled);
    assert_eq!(rule.conditions.len(), 1);
    assert!(rule.actions.len() >= 1);

    let cond = &rule.conditions[0];
    assert_eq!(cond.test_type, ConditionTest::Header);
    assert_eq!(cond.match_type, MatchType::Contains);
    assert!(cond.header_names.contains(&"Subject".to_string()));
    assert!(cond.keys.contains(&"SPAM".to_string()));

    let fileinto = &rule.actions[0];
    assert_eq!(fileinto.action_type, ActionType::Fileinto);
    assert_eq!(fileinto.argument, "Junk");
}

#[test]
fn test_parse_multi_condition_allof() {
    let script = text_to_script(MULTI_CONDITION, "");
    assert_eq!(script.rules.len(), 1);

    let rule = &script.rules[0];
    assert_eq!(rule.logic, LogicOperator::AllOf);
    assert_eq!(rule.conditions.len(), 2);

    assert_eq!(rule.conditions[0].header_names, vec!["From"]);
    assert_eq!(rule.conditions[0].keys, vec!["boss@example.com"]);
    assert_eq!(rule.conditions[0].match_type, MatchType::Is);

    assert_eq!(rule.conditions[1].header_names, vec!["Subject"]);
    assert_eq!(rule.conditions[1].keys, vec!["urgent"]);
}

#[test]
fn test_parse_anyof() {
    let script = text_to_script(ANYOF_SCRIPT, "");
    let rule = &script.rules[0];
    assert_eq!(rule.logic, LogicOperator::AnyOf);
    assert_eq!(rule.conditions.len(), 2);
}

#[test]
fn test_roundtrip_simple() {
    let script1 = text_to_script(SIMPLE_FILEINTO, "test");
    let text = script_to_text(&script1);
    let script2 = text_to_script(&text, "test");

    assert_eq!(script2.rules.len(), script1.rules.len());
    let (r1, r2) = (&script1.rules[0], &script2.rules[0]);
    assert_eq!(r1.conditions[0].test_type, r2.conditions[0].test_type);
    assert_eq!(r1.conditions[0].header_names, r2.conditions[0].header_names);
    assert_eq!(r1.conditions[0].keys, r2.conditions[0].keys);
    assert_eq!(r1.actions[0].action_type, r2.actions[0].action_type);
    assert_eq!(r1.actions[0].argument, r2.actions[0].argument);
}

#[test]
fn test_parse_error_becomes_raw() {
    let script = text_to_script("this is not valid sieve {{{", "");
    assert_eq!(script.rules.len(), 1);
    assert!(script.rules[0].raw_block.is_some());
}

#[test]
fn test_generate_requires() {
    let script = text_to_script(SIMPLE_FILEINTO, "");
    let text = script_to_text(&script);
    let first_line = text.lines().next().unwrap_or("");
    assert!(first_line.contains("fileinto"));
}

#[test]
fn test_empty_script() {
    let script = text_to_script("", "");
    assert_eq!(script.rules.len(), 0);
}

#[test]
fn converter_test_parse_address_domain() {
    let script = text_to_script(ADDRESS_DOMAIN_SCRIPT, "");
    assert_eq!(script.rules.len(), 1);

    let rule = &script.rules[0];
    assert_eq!(rule.conditions.len(), 1);
    assert_eq!(rule.actions.len(), 1);
    assert!(rule.raw_block.is_none());

    let cond = &rule.conditions[0];
    assert_eq!(cond.test_type, ConditionTest::Address);
    assert_eq!(cond.match_type, MatchType::Is);
    assert_eq!(cond.address_part, AddressPartType::Domain);
    assert_eq!(cond.header_names, vec!["From"]);
    assert_eq!(cond.keys, vec!["hapimag.com"]);

    assert_eq!(rule.actions[0].action_type, ActionType::Fileinto);
    assert_eq!(rule.actions[0].argument, "INBOX/Hapimag");
}

#[test]
fn test_roundtrip_address_domain() {
    let script1 = text_to_script(ADDRESS_DOMAIN_SCRIPT, "");
    let text = script_to_text(&script1);
    let script2 = text_to_script(&text, "");

    assert_eq!(script2.rules.len(), 1);
    let r = &script2.rules[0];
    assert_eq!(r.conditions.len(), 1);
    assert_eq!(r.conditions[0].test_type, ConditionTest::Address);
    assert_eq!(r.conditions[0].address_part, AddressPartType::Domain);
    assert_eq!(r.conditions[0].header_names, vec!["From"]);
    assert_eq!(r.conditions[0].keys, vec!["hapimag.com"]);
}
