use sievers::ast::{Argument, Command};
use sievers::converter::{script_to_text, text_to_script};
use sievers::emitter::{compute_requires, emit};
use sievers::enums::{
    ActionType, AddressPartType, ConditionTest, LogicOperator, MatchType, SizeComparator,
};
use sievers::model::{Action, Condition, SieveRule, SieveScript};
use sievers::parser::parse;

#[test]
fn test_empty_script_has_no_requires() {
    let script = text_to_script("", "inbox");
    assert_eq!(script.rules.len(), 0);
    assert_eq!(script.requires.len(), 0);
    assert_eq!(script.name, "inbox");
}

#[test]
fn test_parse_error_rule_preserves_everything() {
    let input = "this is not valid sieve {{{";
    let script = text_to_script(input, "");
    assert_eq!(script.rules.len(), 1);
    let rule = &script.rules[0];
    assert_eq!(rule.name, "(parse error)");
    assert_eq!(rule.raw_block.as_deref(), Some(input));
    assert!(rule.conditions.is_empty());
    assert!(rule.actions.is_empty());
    assert!(script.requires.is_empty());
}

#[test]
fn test_requires_deduplicated_first_seen() {
    let input = "require \"mailbox\";\nrequire [\"fileinto\", \"mailbox\", \"body\"];\nkeep;\n";
    let script = text_to_script(input, "");
    assert_eq!(script.requires, vec!["mailbox", "fileinto", "body"]);
}

#[test]
fn test_reemission_merges_requires_into_one_statement() {
    let mut script = SieveScript::default();
    let mut rule1 = SieveRule::default();
    rule1.conditions.push(Condition::default());
    rule1.actions.push(Action { action_type: ActionType::Fileinto, argument: "A".to_string() });
    let mut rule2 = SieveRule::default();
    rule2.conditions.push(Condition::default());
    rule2.actions.push(Action { action_type: ActionType::Fileinto, argument: "B".to_string() });
    rule2.actions.push(Action { action_type: ActionType::Reject, argument: "no".to_string() });
    script.rules.push(rule1);
    script.rules.push(rule2);
    let text = script_to_text(&script);
    assert_eq!(text.matches("require").count(), 1);
    assert!(text.starts_with("require [\"fileinto\", \"reject\"];\n"));
}

#[test]
fn test_elsif_chain_round_trips_verbatim() {
    let input = r#"if true {
} elsif header :contains "X" "y" {
    keep;
} else {
    discard;
}
"#;
    let script = text_to_script(input, "");
    assert_eq!(script.rules.len(), 1);
    let rule = &script.rules[0];
    assert!(rule.raw_block.is_some());
    assert!(rule.conditions.is_empty());
    assert!(rule.actions.is_empty());
    let raw = rule.raw_block.clone().unwrap();
    assert!(raw.contains("elsif"));
    assert!(raw.contains("else"));
    // re-emitting reproduces the preserved chain exactly
    let reemitted = script_to_text(&script);
    assert_eq!(reemitted, raw);
}

#[test]
fn test_emit_escapes_quotes_and_backslashes() {
    let mut rule = SieveRule::default();
    let mut cond = Condition::default();
    cond.header_names = vec!["Subject".to_string()];
    cond.keys = vec!["say \"hi\" \\ bye".to_string()];
    rule.conditions.push(cond);
    rule.actions.push(Action { action_type: ActionType::Keep, argument: String::new() });
    let mut script = SieveScript::default();
    script.rules.push(rule);
    let text = script_to_text(&script);
    assert!(text.contains("\"say \\\"hi\\\" \\\\ bye\""));
}

#[test]
fn test_compute_requires_sorted() {
    let input = r#"if allof (envelope :is "from" "a@b", body :contains "x", header :regex "S" "p.*") {
    fileinto "X";
    setflag "f";
    reject "r";
}
"#;
    let ast = parse(input).unwrap();
    let reqs = compute_requires(&ast);
    assert_eq!(
        reqs,
        vec!["body", "envelope", "fileinto", "imap4flags", "regex", "reject"]
    );
}

#[test]
fn test_emit_single_require_form() {
    let ast = parse("require \"fileinto\";\nkeep;\n").unwrap();
    let text = emit(&ast);
    assert!(text.starts_with("require \"fileinto\";\n"));
}

#[test]
fn test_emit_preserves_raw_command() {
    let mut script = SieveScript::default();
    let mut rule = SieveRule::default();
    rule.raw_block = Some("definitely not sieve %%%".to_string());
    script.rules.push(rule);
    let text = script_to_text(&script);
    assert_eq!(text, "definitely not sieve %%%\n");
}

#[test]
fn test_single_anyof_condition_comes_back_as_allof() {
    // with one condition the emitted test is bare, so the logic collapses
    let mut rule = SieveRule::default();
    rule.logic = LogicOperator::AnyOf;
    rule.conditions.push(Condition::default());
    rule.actions.push(Action { action_type: ActionType::Keep, argument: String::new() });
    let mut script = SieveScript::default();
    script.rules.push(rule);
    let text = script_to_text(&script);
    let back = text_to_script(&text, "");
    assert_eq!(back.rules[0].logic, LogicOperator::AllOf);
    assert_eq!(back.rules[0].conditions.len(), 1);
}

#[test]
fn test_negated_condition_round_trips() {
    let input = "if not exists \"X-Spam\" {\n    keep;\n}\n";
    let script = text_to_script(input, "");
    let rule = &script.rules[0];
    assert_eq!(rule.conditions.len(), 1);
    assert!(rule.conditions[0].negate);
    assert_eq!(rule.conditions[0].test_type, ConditionTest::Exists);
    let text = script_to_text(&script);
    let back = text_to_script(&text, "");
    assert!(back.rules[0].conditions[0].negate);
    assert_eq!(back.rules[0].conditions[0].test_type, ConditionTest::Exists);
}

#[test]
fn test_size_condition_round_trips() {
    let input = "if size :under 100K {\n    discard;\n}\n";
    let script = text_to_script(input, "");
    let cond = &script.rules[0].conditions[0];
    assert_eq!(cond.test_type, ConditionTest::Size);
    assert_eq!(cond.size_comparator, SizeComparator::Under);
    assert_eq!(cond.size_value, "100K");
    let text = script_to_text(&script);
    assert!(text.contains("size :under 100K"));
}

#[test]
fn test_condition_default_fields() {
    let c = Condition::default();
    assert_eq!(c.test_type, ConditionTest::Header);
    assert_eq!(c.header_names, vec!["From"]);
    assert_eq!(c.keys, vec![""]);
    assert_eq!(c.match_type, MatchType::Contains);
    assert_eq!(c.address_part, AddressPartType::All);
    assert_eq!(c.size_comparator, SizeComparator::Over);
    assert_eq!(c.size_value, "0");
    assert!(!c.negate);
}

#[test]
fn test_enum_tables_round_trip() {
    for m in [MatchType::Is, MatchType::Contains, MatchType::Matches, MatchType::Regex] {
        assert_eq!(MatchType::from_sieve(m.as_sieve()), Some(m));
    }
    for a in [AddressPartType::All, AddressPartType::Localpart, AddressPartType::Domain] {
        assert_eq!(AddressPartType::from_sieve(a.as_sieve()), Some(a));
    }
    for s in [SizeComparator::Over, SizeComparator::Under] {
        assert_eq!(SizeComparator::from_sieve(s.as_sieve()), Some(s));
    }
    for l in [LogicOperator::AllOf, LogicOperator::AnyOf] {
        assert_eq!(LogicOperator::from_sieve(l.as_sieve()), Some(l));
    }
    for a in [
        ActionType::Fileinto,
        ActionType::Redirect,
        ActionType::Reject,
        ActionType::Discard,
        ActionType::Keep,
        ActionType::Stop,
        ActionType::Setflag,
        ActionType::Addflag,
        ActionType::Removeflag,
    ] {
        assert_eq!(ActionType::from_sieve(a.as_sieve()), Some(a));
    }
    assert_eq!(ActionType::from_sieve("FILEINTO"), Some(ActionType::Fileinto));
    assert_eq!(MatchType::from_sieve("nonsense"), None);
    assert!(!ActionType::Keep.takes_argument());
    assert!(ActionType::Redirect.takes_argument());
}

#[test]
fn test_string_list_argument_joins_with_comma() {
    let input = "setflag [\"seen\", \"flagged\"];\n";
    let ast = parse(input).unwrap();
    match &ast.commands[0] {
        Command::Action(a) => {
            assert_eq!(a.name, "setflag");
            assert!(matches!(&a.arguments[0], Argument::StringList(items) if items == &["seen", "flagged"]));
        }
        _ => panic!("Expected Action"),
    }
    let script = text_to_script(input, "");
    assert_eq!(script.rules.len(), 0);
}

#[test]
fn test_elsif_with_reducible_head_still_goes_raw() {
    // the chain has no model form, even when the head alone would reduce
    let input = "if header :contains \"X\" \"y\" {\n    keep;\n} else {\n    stop;\n}\n";
    let script = text_to_script(input, "");
    assert_eq!(script.rules.len(), 1);
    let rule = &script.rules[0];
    assert!(rule.raw_block.is_some());
    assert!(rule.conditions.is_empty());
    assert!(rule.actions.is_empty());
    let raw = rule.raw_block.clone().unwrap();
    assert!(raw.contains("else"));
    assert!(raw.contains("stop"));
    assert_eq!(script_to_text(&script), raw);
}

#[test]
fn test_body_test_becomes_condition_and_round_trips() {
    let input = "if body :contains \"viagra\" {\n    discard;\n}\n";
    let script = text_to_script(input, "");
    assert_eq!(script.rules.len(), 1);
    let rule = &script.rules[0];
    assert!(rule.raw_block.is_none());
    assert_eq!(rule.conditions.len(), 1);
    let cond = &rule.conditions[0];
    assert_eq!(cond.test_type, ConditionTest::Body);
    assert_eq!(cond.match_type, MatchType::Contains);
    assert_eq!(cond.keys, vec!["viagra"]);
    let text = script_to_text(&script);
    assert!(text.starts_with("require \"body\";\n"));
    assert!(text.contains("body :contains \"viagra\""));
    let back = text_to_script(&text, "");
    assert_eq!(back.rules[0].conditions[0].test_type, ConditionTest::Body);
    assert_eq!(back.rules[0].conditions[0].keys, vec!["viagra"]);
}
