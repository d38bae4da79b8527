use sievers::enums::{ConditionTest, MatchType, SizeComparator};
use sievers::model::{Action, Condition, ConnectionProfile};
use sievers::ui::{
    handle_action_message, handle_condition_message, ActionMessage, ActionTypeOption,
    ConditionMessage, ConnectionState, MatchTypeOption, SizeComparatorOption,
};

#[test]
fn test_handle_condition_set_headers_splits_and_trims() {
    let mut conds = vec![Condition::default()];
    handle_condition_message(&mut conds, 0, ConditionMessage::SetHeaders(" To , Cc,Bcc ".to_string()));
    assert_eq!(conds[0].header_names, vec!["To", "Cc", "Bcc"]);
}

#[test]
fn test_handle_condition_set_value_targets_size_or_keys() {
    let mut conds = vec![Condition::default()];
    handle_condition_message(&mut conds, 0, ConditionMessage::SetValue("spam".to_string()));
    assert_eq!(conds[0].keys, vec!["spam"]);
    handle_condition_message(
        &mut conds,
        0,
        ConditionMessage::SetTestType(sievers::ui::ConditionTestOption(ConditionTest::Size)),
    );
    handle_condition_message(&mut conds, 0, ConditionMessage::SetValue("2M".to_string()));
    assert_eq!(conds[0].size_value, "2M");
    assert_eq!(conds[0].keys, vec!["spam"]);
}

#[test]
fn test_handle_condition_set_enums_and_remove() {
    let mut conds = vec![Condition::default(), Condition::default()];
    handle_condition_message(&mut conds, 1, ConditionMessage::SetMatchType(MatchTypeOption(MatchType::Is)));
    handle_condition_message(
        &mut conds,
        1,
        ConditionMessage::SetSizeComparator(SizeComparatorOption(SizeComparator::Under)),
    );
    assert_eq!(conds[1].match_type, MatchType::Is);
    assert_eq!(conds[1].size_comparator, SizeComparator::Under);
    handle_condition_message(&mut conds, 0, ConditionMessage::Remove);
    assert_eq!(conds.len(), 1);
    assert_eq!(conds[0].match_type, MatchType::Is);
}

#[test]
fn test_handle_action_message_updates_and_removes() {
    let mut actions = vec![Action::default()];
    handle_action_message(
        &mut actions,
        0,
        ActionMessage::SetActionType(ActionTypeOption(sievers::enums::ActionType::Fileinto)),
    );
    handle_action_message(&mut actions, 0, ActionMessage::SetArgument("Junk".to_string()));
    assert_eq!(actions[0].action_type, sievers::enums::ActionType::Fileinto);
    assert_eq!(actions[0].argument, "Junk");
    handle_action_message(&mut actions, 0, ActionMessage::Remove);
    assert!(actions.is_empty());
}

#[test]
fn test_connection_state_open_selects_first_profile() {
    let mut state = ConnectionState::default();
    let profile = ConnectionProfile {
        name: "work".to_string(),
        host: "mail.example.com".to_string(),
        port: 2000,
        username: "me".to_string(),
        use_starttls: false,
    };
    state.password = "stale".to_string();
    state.open(vec![profile]);
    assert!(state.visible);
    assert_eq!(state.selected_index, Some(0));
    assert_eq!(state.name, "work");
    assert_eq!(state.host, "mail.example.com");
    assert_eq!(state.port, "2000");
    assert_eq!(state.username, "me");
    assert!(!state.use_starttls);
    assert_eq!(state.password, "");
    state.close();
    assert!(!state.visible);
}

#[test]
fn test_to_profile_falls_back_on_bad_port_and_empty_name() {
    let mut state = ConnectionState::default();
    state.host = "mail.example.com".to_string();
    state.port = "not a number".to_string();
    let p = state.to_profile();
    assert_eq!(p.name, "mail.example.com");
    assert_eq!(p.port, 4190);

    state.name = "home".to_string();
    state.port = "+2096".to_string();
    let p2 = state.to_profile();
    assert_eq!(p2.name, "home");
    assert_eq!(p2.port, 2096);

    state.port = "70000".to_string();
    assert_eq!(state.to_profile().port, 4190);
}

#[test]
fn test_connection_profile_default() {
    let p = ConnectionProfile::default();
    assert_eq!(p.port, 4190);
    assert!(p.use_starttls);
    assert_eq!(p.name, "");
}
