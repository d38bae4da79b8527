//! The UI-facing rule model: a simplified, editable view of a SIEVE script,
//! with its mathematical mirrors.

use vstd::prelude::*;
use crate::enums::{
    ActionType, AddressPartType, ConditionTest, LogicOperator, MatchType, SizeComparator,
};
use crate::strutil::str_to_string;

verus! {

broadcast use vstd::string::group_string_axioms;

/// One test of a rule, with every field the editor can show.
#[derive(Debug, Clone, PartialEq)]
pub struct Condition {
    pub test_type: ConditionTest,
    pub header_names: Vec<String>,
    pub keys: Vec<String>,
    pub match_type: MatchType,
    pub address_part: AddressPartType,
    pub size_comparator: SizeComparator,
    pub size_value: String,
    pub negate: bool,
}

/// One action of a rule.
#[derive(Debug, Clone, PartialEq)]
pub struct Action {
    pub action_type: ActionType,
    pub argument: String,
}

/// One rule: either reduced conditions/actions, or a verbatim raw block.
#[derive(Debug, Clone, PartialEq)]
pub struct SieveRule {
    pub name: String,
    pub enabled: bool,
    pub logic: LogicOperator,
    pub conditions: Vec<Condition>,
    pub actions: Vec<Action>,
    /// Opaque text for unrecognized constructs
    pub raw_block: Option<String>,
}

/// A whole script in model form.
#[derive(Debug, Clone, PartialEq)]
pub struct SieveScript {
    pub name: String,
    pub rules: Vec<SieveRule>,
    pub requires: Vec<String>,
    pub active: bool,
}

/// A saved server connection.
#[derive(Debug, Clone, PartialEq)]
pub struct ConnectionProfile {
    pub name: String,
    pub host: String,
    pub port: u16,
    pub username: String,
    pub use_starttls: bool,
}

/// One script as listed by a ManageSieve server.
#[derive(Debug, Clone)]
pub struct ScriptInfo {
    pub name: String,
    pub active: bool,
}

// ---------------------------------------------------------------------------
// Mathematical mirrors
// ---------------------------------------------------------------------------

pub struct SpCondition {
    pub test_type: ConditionTest,
    pub header_names: Seq<Seq<char>>,
    pub keys: Seq<Seq<char>>,
    pub match_type: MatchType,
    pub address_part: AddressPartType,
    pub size_comparator: SizeComparator,
    pub size_value: Seq<char>,
    pub negate: bool,
}

pub struct SpAction {
    pub action_type: ActionType,
    pub argument: Seq<char>,
}

pub struct SpRule {
    pub name: Seq<char>,
    pub enabled: bool,
    pub logic: LogicOperator,
    pub conditions: Seq<SpCondition>,
    pub actions: Seq<SpAction>,
    pub raw_block: Option<Seq<char>>,
}

pub struct SpSieveScript {
    pub name: Seq<char>,
    pub rules: Seq<SpRule>,
    pub requires: Seq<Seq<char>>,
    pub active: bool,
}

/// The view of a string vector, shared with the AST module.
pub open spec fn view_model_strings(v: Seq<String>) -> Seq<Seq<char>> {
    crate::ast::view_strings(v)
}

impl View for Condition {
    type V = SpCondition;

    open spec fn view(&self) -> SpCondition {
        SpCondition {
            test_type: self.test_type,
            header_names: view_model_strings(self.header_names@),
            keys: view_model_strings(self.keys@),
            match_type: self.match_type,
            address_part: self.address_part,
            size_comparator: self.size_comparator,
            size_value: self.size_value@,
            negate: self.negate,
        }
    }
}

impl View for Action {
    type V = SpAction;

    open spec fn view(&self) -> SpAction {
        SpAction { action_type: self.action_type, argument: self.argument@ }
    }
}

/// The view of a condition vector.
pub open spec fn view_conditions(v: Seq<Condition>) -> Seq<SpCondition> {
    v.map_values(|c: Condition| c@)
}

/// The view of an action vector.
pub open spec fn view_model_actions(v: Seq<Action>) -> Seq<SpAction> {
    v.map_values(|a: Action| a@)
}

impl View for SieveRule {
    type V = SpRule;

    open spec fn view(&self) -> SpRule {
        SpRule {
            name: self.name@,
            enabled: self.enabled,
            logic: self.logic,
            conditions: view_conditions(self.conditions@),
            actions: view_model_actions(self.actions@),
            raw_block: match self.raw_block {
                None => None,
                Some(s) => Some(s@),
            },
        }
    }
}

/// The view of a rule vector.
pub open spec fn view_rules(v: Seq<SieveRule>) -> Seq<SpRule> {
    v.map_values(|r: SieveRule| r@)
}

impl View for SieveScript {
    type V = SpSieveScript;

    open spec fn view(&self) -> SpSieveScript {
        SpSieveScript {
            name: self.name@,
            rules: view_rules(self.rules@),
            requires: view_model_strings(self.requires@),
            active: self.active,
        }
    }
}

/// The condition an editor starts from: a `Header`/`Contains` test on `From`.
pub open spec fn sp_default_condition() -> SpCondition {
    SpCondition {
        test_type: ConditionTest::Header,
        header_names: seq!["From"@],
        keys: seq![Seq::empty()],
        match_type: MatchType::Contains,
        address_part: AddressPartType::All,
        size_comparator: SizeComparator::Over,
        size_value: "0"@,
        negate: false,
    }
}

impl Default for Condition {
    fn default() -> (r: Self)
        ensures
            r@ == sp_default_condition(),
    {
        let mut header_names: Vec<String> = Vec::new();
        header_names.push(str_to_string("From"));
        let mut keys: Vec<String> = Vec::new();
        keys.push(String::new());
        let r = Condition {
            test_type: ConditionTest::Header,
            header_names,
            keys,
            match_type: MatchType::Contains,
            address_part: AddressPartType::All,
            size_comparator: SizeComparator::Over,
            size_value: str_to_string("0"),
            negate: false,
        };
        proof {
            assert(view_model_strings(r.header_names@) =~= seq!["From"@]);
            assert(view_model_strings(r.keys@) =~= seq![Seq::<char>::empty()]);
        }
        r
    }
}

/// The action an editor starts from: `keep` without an argument.
pub open spec fn sp_default_action() -> SpAction {
    SpAction { action_type: ActionType::Keep, argument: Seq::empty() }
}

impl Default for Action {
    fn default() -> (r: Self)
        ensures
            r@ == sp_default_action(),
    {
        Action { action_type: ActionType::Keep, argument: String::new() }
    }
}

/// A new rule: unnamed, enabled, all-of, with nothing in it.
pub open spec fn sp_default_rule() -> SpRule {
    SpRule {
        name: Seq::empty(),
        enabled: true,
        logic: LogicOperator::AllOf,
        conditions: Seq::empty(),
        actions: Seq::empty(),
        raw_block: None,
    }
}

impl Default for SieveRule {
    fn default() -> (r: Self)
        ensures
            r@ == sp_default_rule(),
    {
        let r = SieveRule {
            name: String::new(),
            enabled: true,
            logic: LogicOperator::AllOf,
            conditions: Vec::new(),
            actions: Vec::new(),
            raw_block: None,
        };
        proof {
            assert(view_conditions(r.conditions@) =~= Seq::<SpCondition>::empty());
            assert(view_model_actions(r.actions@) =~= Seq::<SpAction>::empty());
        }
        r
    }
}

/// An empty script model.
pub open spec fn sp_default_script() -> SpSieveScript {
    SpSieveScript {
        name: Seq::empty(),
        rules: Seq::empty(),
        requires: Seq::empty(),
        active: false,
    }
}

impl Default for SieveScript {
    fn default() -> (r: Self)
        ensures
            r@ == sp_default_script(),
    {
        let r = SieveScript {
            name: String::new(),
            rules: Vec::new(),
            requires: Vec::new(),
            active: false,
        };
        proof {
            assert(view_rules(r.rules@) =~= Seq::<SpRule>::empty());
            assert(view_model_strings(r.requires@) =~= Seq::<Seq<char>>::empty());
        }
        r
    }
}

impl Default for ConnectionProfile {
    fn default() -> (r: Self)
        ensures
            r.name@ == Seq::<char>::empty(),
            r.host@ == Seq::<char>::empty(),
            r.port == 4190u16,
            r.username@ == Seq::<char>::empty(),
            r.use_starttls == true,
    {
        ConnectionProfile {
            name: String::new(),
            host: String::new(),
            port: 4190,
            username: String::new(),
            use_starttls: true,
        }
    }
}

/// Prepending distributes over the rule-vector view.
pub proof fn lemma_view_rules_prepend(s: Seq<SieveRule>, x: SieveRule)
    ensures
        view_rules(seq![x] + s) == seq![x@] + view_rules(s),
{
    let l = view_rules(seq![x] + s);
    let r = seq![x@] + view_rules(s);
    assert forall|i: int| 0 <= i < l.len() implies l[i] == r[i] by {
        if i == 0 {
            assert((seq![x] + s)[0] == x);
        } else {
            assert((seq![x] + s)[i] == s[i - 1]);
            assert(view_rules(s)[i - 1] == s[i - 1]@);
        }
    }
    assert(l =~= r);
}

/// Prepending distributes over the condition-vector view.
pub proof fn lemma_view_conditions_prepend(s: Seq<Condition>, x: Condition)
    ensures
        view_conditions(seq![x] + s) == seq![x@] + view_conditions(s),
{
    let l = view_conditions(seq![x] + s);
    let r = seq![x@] + view_conditions(s);
    assert forall|i: int| 0 <= i < l.len() implies l[i] == r[i] by {
        if i == 0 {
            assert((seq![x] + s)[0] == x);
        } else {
            assert((seq![x] + s)[i] == s[i - 1]);
            assert(view_conditions(s)[i - 1] == s[i - 1]@);
        }
    }
    assert(l =~= r);
}

/// Prepending distributes over the model-action-vector view.
pub proof fn lemma_view_model_actions_prepend(s: Seq<Action>, x: Action)
    ensures
        view_model_actions(seq![x] + s) == seq![x@] + view_model_actions(s),
{
    let l = view_model_actions(seq![x] + s);
    let r = seq![x@] + view_model_actions(s);
    assert forall|i: int| 0 <= i < l.len() implies l[i] == r[i] by {
        if i == 0 {
            assert((seq![x] + s)[0] == x);
        } else {
            assert((seq![x] + s)[i] == s[i - 1]);
            assert(view_model_actions(s)[i - 1] == s[i - 1]@);
        }
    }
    assert(l =~= r);
}

} // verus!
