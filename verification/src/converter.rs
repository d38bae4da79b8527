//! Bidirectional conversion between SIEVE script text and `SieveScript`
//! models.
//!
//! `text_to_script` parses text into the rule model and never fails: blank
//! text is the empty model, and unparseable text becomes a single rule that
//! preserves the whole input verbatim. `script_to_text` rebuilds an AST
//! from the model and emits it; a rule's raw block is re-parsed so that its
//! `if` command is re-emitted exactly, or kept verbatim if it no longer
//! parses. Both directions are specified by `sp_text_to_script` and
//! `sp_script_to_text`.

use vstd::prelude::*;
use crate::ast::{
    ActionCommand, Command, IfBlock, Script, SpActionCommand, SpArgument, SpCommand, SpIfBlock,
    SpTestExpr, TestExpr, lemma_view_actions_push, lemma_view_commands_push, lemma_view_tests,
    lemma_view_tests_push, view_actions, view_commands, view_test, view_tests,
};
use crate::emitter::{
    SpNeeds, collect_all_requires, emit, emit_if_block, needs_none, needs_or, sp_all_requires,
    sp_emit, sp_emit_if, sp_needs_list, sp_needs_none, sp_needs_or,
};
use crate::enums::{
    ActionType, AddressPartType, ConditionTest, LogicOperator, MatchType, SizeComparator,
    sp_action_type_from, sp_action_type_name, sp_address_part_from, sp_address_part_name,
    sp_match_type_from, sp_match_type_name, sp_size_comparator_from,
    sp_size_comparator_name, sp_takes_argument,
};
use crate::model::{
    Action, Condition, SieveRule, SieveScript, SpAction, SpCondition, SpRule, SpSieveScript,
    lemma_view_conditions_prepend, lemma_view_model_actions_prepend, lemma_view_rules_prepend,
    view_conditions, view_model_actions, view_rules,
};
use crate::parser::{parse, sp_parse};
use crate::strutil::{
    chars_to_string, is_blank, push_str, sp_all_ws, str_to_string, };

verus! {

broadcast use vstd::string::group_string_axioms;

// ---------------------------------------------------------------------------
// Specification: text to model
// ---------------------------------------------------------------------------

/// The default fields of a condition that a given test does not set.
pub open spec fn sp_cond_base() -> SpCondition {
    crate::model::sp_default_condition()
}

/// Project one supported test onto a model condition; `allof`/`anyof`,
/// `true` and `false` have no single-condition form and yield `None`.
/// A `not` unwraps one level and sets the negate flag.
pub open spec fn sp_single_test_to_condition(e: SpTestExpr) -> Option<SpCondition>
    decreases e,
{
    match e {
        SpTestExpr::Header { match_type, header_names, keys } => Some(
            SpCondition {
                test_type: ConditionTest::Header,
                header_names: header_names,
                keys: keys,
                match_type: sp_match_type_or_default(match_type),
                ..sp_cond_base()
            },
        ),
        SpTestExpr::Address { address_part, match_type, header_names, keys } => Some(
            SpCondition {
                test_type: ConditionTest::Address,
                header_names: header_names,
                keys: keys,
                match_type: sp_match_type_or_default(match_type),
                address_part: sp_address_part_or_default(address_part),
                ..sp_cond_base()
            },
        ),
        SpTestExpr::Envelope { address_part, match_type, header_names, keys } => Some(
            SpCondition {
                test_type: ConditionTest::Envelope,
                header_names: header_names,
                keys: keys,
                match_type: sp_match_type_or_default(match_type),
                address_part: sp_address_part_or_default(address_part),
                ..sp_cond_base()
            },
        ),
        SpTestExpr::Size { comparator, limit } => Some(
            SpCondition {
                test_type: ConditionTest::Size,
                size_comparator: match sp_size_comparator_from(comparator) {
                    Some(c) => c,
                    None => SizeComparator::Over,
                },
                size_value: limit,
                ..sp_cond_base()
            },
        ),
        SpTestExpr::Exists { header_names } => Some(
            SpCondition { test_type: ConditionTest::Exists, header_names: header_names, ..sp_cond_base() },
        ),
        SpTestExpr::Body { match_type, keys } => Some(
            SpCondition {
                test_type: ConditionTest::Body,
                keys: keys,
                match_type: sp_match_type_or_default(match_type),
                ..sp_cond_base()
            },
        ),
        SpTestExpr::Not(inner) => match sp_single_test_to_condition(*inner) {
            Some(c) => Some(SpCondition { negate: true, ..c }),
            None => None,
        },
        _ => None,
    }
}

/// A match type parsed from its tag, defaulting to `Contains`.
pub open spec fn sp_match_type_or_default(tag: Seq<char>) -> MatchType {
    match sp_match_type_from(tag) {
        Some(m) => m,
        None => MatchType::Contains,
    }
}

/// An address part parsed from its optional tag, defaulting to `All`.
pub open spec fn sp_address_part_or_default(tag: Option<Seq<char>>) -> AddressPartType {
    match tag {
        Some(t) => match sp_address_part_from(t) {
            Some(a) => a,
            None => AddressPartType::All,
        },
        None => AddressPartType::All,
    }
}

/// The conditions of a test list from index `i` on; unsupported tests are
/// silently dropped.
pub open spec fn sp_conds_of(ts: Seq<SpTestExpr>, i: int) -> Seq<SpCondition>
    decreases ts.len() - i,
{
    if i < 0 || i >= ts.len() {
        Seq::empty()
    } else {
        (match sp_single_test_to_condition(ts[i]) {
            Some(c) => seq![c],
            None => Seq::empty(),
        }) + sp_conds_of(ts, i + 1)
    }
}

/// Flatten a test onto the rule's logic and condition list.
pub open spec fn sp_extract_conditions(e: SpTestExpr) -> (LogicOperator, Seq<SpCondition>) {
    match e {
        SpTestExpr::AllOf(ts) => (LogicOperator::AllOf, sp_conds_of(ts, 0)),
        SpTestExpr::AnyOf(ts) => (LogicOperator::AnyOf, sp_conds_of(ts, 0)),
        _ => match sp_single_test_to_condition(e) {
            Some(c) => (LogicOperator::AllOf, seq![c]),
            None => (LogicOperator::AllOf, Seq::empty()),
        },
    }
}

/// The text of one argument as a model action's argument.
pub open spec fn sp_arg_value(a: SpArgument) -> Seq<char> {
    match a {
        SpArgument::QuotedString(s) => s,
        SpArgument::Number(n) => n,
        SpArgument::Tag(t) => t,
        SpArgument::StringList(items) => sp_join_comma(items, 0),
    }
}

/// Strings joined with `", "`, from index `i` on.
pub open spec fn sp_join_comma(items: Seq<Seq<char>>, i: int) -> Seq<char>
    decreases items.len() - i,
{
    if i < 0 || i >= items.len() {
        Seq::empty()
    } else {
        (if i > 0 {
            ", "@
        } else {
            Seq::empty()
        }) + items[i] + sp_join_comma(items, i + 1)
    }
}

/// Project one action command onto a model action; unknown commands yield
/// `None`, and actions that take no argument get an empty one.
pub open spec fn sp_action_of(a: SpActionCommand) -> Option<SpAction> {
    match sp_action_type_from(a.name) {
        None => None,
        Some(at) => Some(
            SpAction {
                action_type: at,
                argument: if sp_takes_argument(at) {
                    if a.arguments.len() > 0 {
                        sp_arg_value(a.arguments[0])
                    } else {
                        Seq::empty()
                    }
                } else {
                    Seq::empty()
                },
            },
        ),
    }
}

/// The model actions of an action-command list from index `i` on.
pub open spec fn sp_extract_actions(acts: Seq<SpActionCommand>, i: int) -> Seq<SpAction>
    decreases acts.len() - i,
{
    if i < 0 || i >= acts.len() {
        Seq::empty()
    } else {
        (match sp_action_of(acts[i]) {
            Some(a) => seq![a],
            None => Seq::empty(),
        }) + sp_extract_actions(acts, i + 1)
    }
}

/// Project one `if` block onto a rule. When the block cannot be reduced
/// losslessly — it carries an elsif/else chain the model has no field
/// for, or nothing of it could be reduced at all — the block's own
/// emitted text is kept as a raw block instead.
pub open spec fn sp_if_to_rule(b: SpIfBlock) -> SpRule {
    let logic_conds = sp_extract_conditions(b.condition);
    let acts = sp_extract_actions(b.actions, 0);
    let nm = match b.name {
        Some(n) => n,
        None => Seq::empty(),
    };
    if b.alternatives.len() > 0 || (logic_conds.1.len() == 0 && acts.len() == 0) {
        SpRule {
            name: nm,
            enabled: b.enabled,
            raw_block: Some(sp_emit_if(b)),
            ..crate::model::sp_default_rule()
        }
    } else {
        SpRule {
            name: nm,
            enabled: b.enabled,
            logic: logic_conds.0,
            conditions: logic_conds.1,
            actions: acts,
            raw_block: None,
        }
    }
}

/// The rules of a command list from index `i` on: one per `if` command.
pub open spec fn sp_rules_of(cmds: Seq<SpCommand>, i: int) -> Seq<SpRule>
    decreases cmds.len() - i,
{
    if i < 0 || i >= cmds.len() {
        Seq::empty()
    } else {
        (match cmds[i] {
            SpCommand::If(b) => seq![sp_if_to_rule(b)],
            _ => Seq::empty(),
        }) + sp_rules_of(cmds, i + 1)
    }
}

/// The rule a failed parse degrades to: the whole input, verbatim.
pub open spec fn sp_parse_error_rule(text: Seq<char>) -> SpRule {
    SpRule {
        name: "(parse error)"@,
        raw_block: Some(text),
        ..crate::model::sp_default_rule()
    }
}

/// The model of a script text: blank text is the empty model, unparseable
/// text one raw-preserving rule, and parsed text its requires and one rule
/// per `if` command.
pub open spec fn sp_text_to_script(text: Seq<char>, name: Seq<char>) -> SpSieveScript {
    if sp_all_ws(text) {
        SpSieveScript { name: name, ..crate::model::sp_default_script() }
    } else {
        match sp_parse(text) {
            Err(_) => SpSieveScript {
                name: name,
                rules: seq![sp_parse_error_rule(text)],
                ..crate::model::sp_default_script()
            },
            Ok(cmds) => SpSieveScript {
                name: name,
                rules: sp_rules_of(cmds, 0),
                requires: sp_all_requires(cmds, Seq::empty(), 0),
                active: false,
            },
        }
    }
}

// ---------------------------------------------------------------------------
// Specification: model to text
// ---------------------------------------------------------------------------

/// The test expression of one condition, before any negation.
pub open spec fn sp_cond_to_test_base(c: SpCondition) -> SpTestExpr {
    match c.test_type {
        ConditionTest::Header => SpTestExpr::Header {
            match_type: sp_match_type_name(c.match_type),
            header_names: c.header_names,
            keys: c.keys,
        },
        ConditionTest::Address => SpTestExpr::Address {
            address_part: if c.address_part == AddressPartType::All {
                None
            } else {
                Some(sp_address_part_name(c.address_part))
            },
            match_type: sp_match_type_name(c.match_type),
            header_names: c.header_names,
            keys: c.keys,
        },
        ConditionTest::Envelope => SpTestExpr::Envelope {
            address_part: if c.address_part == AddressPartType::All {
                None
            } else {
                Some(sp_address_part_name(c.address_part))
            },
            match_type: sp_match_type_name(c.match_type),
            header_names: c.header_names,
            keys: c.keys,
        },
        ConditionTest::Size => SpTestExpr::Size {
            comparator: sp_size_comparator_name(c.size_comparator),
            limit: c.size_value,
        },
        ConditionTest::Exists => SpTestExpr::Exists { header_names: c.header_names },
        ConditionTest::True => SpTestExpr::True,
        ConditionTest::False => SpTestExpr::False,
        ConditionTest::Body => SpTestExpr::Body {
            match_type: sp_match_type_name(c.match_type),
            keys: c.keys,
        },
        ConditionTest::Not => SpTestExpr::True,
    }
}

/// The test expression of one condition.
pub open spec fn sp_cond_to_test(c: SpCondition) -> SpTestExpr {
    if c.negate {
        SpTestExpr::Not(Box::new(sp_cond_to_test_base(c)))
    } else {
        sp_cond_to_test_base(c)
    }
}

/// The test expressions of a condition list from index `i` on.
pub open spec fn sp_tests_of_conds(conds: Seq<SpCondition>, i: int) -> Seq<SpTestExpr>
    decreases conds.len() - i,
{
    if i < 0 || i >= conds.len() {
        Seq::empty()
    } else {
        seq![sp_cond_to_test(conds[i])] + sp_tests_of_conds(conds, i + 1)
    }
}

/// The condition of a rebuilt `if`: `true` for no conditions, the bare
/// test for one, the logic combinator otherwise.
pub open spec fn sp_build_test(r: SpRule) -> SpTestExpr {
    if r.conditions.len() == 0 {
        SpTestExpr::True
    } else if r.conditions.len() == 1 {
        sp_cond_to_test(r.conditions[0])
    } else {
        match r.logic {
            LogicOperator::AllOf => SpTestExpr::AllOf(sp_tests_of_conds(r.conditions, 0)),
            LogicOperator::AnyOf => SpTestExpr::AnyOf(sp_tests_of_conds(r.conditions, 0)),
        }
    }
}

/// The action command of one model action.
pub open spec fn sp_build_action(a: SpAction) -> SpActionCommand {
    SpActionCommand {
        name: sp_action_type_name(a.action_type),
        arguments: if sp_takes_argument(a.action_type) && a.argument.len() > 0 {
            seq![SpArgument::QuotedString(a.argument)]
        } else {
            Seq::empty()
        },
    }
}

/// The action commands of a model action list from index `i` on.
pub open spec fn sp_build_actions(acts: Seq<SpAction>, i: int) -> Seq<SpActionCommand>
    decreases acts.len() - i,
{
    if i < 0 || i >= acts.len() {
        Seq::empty()
    } else {
        seq![sp_build_action(acts[i])] + sp_build_actions(acts, i + 1)
    }
}

/// The rebuilt `if` block of a reduced rule.
pub open spec fn sp_build_if(r: SpRule) -> SpIfBlock {
    SpIfBlock {
        name: if r.name.len() == 0 {
            None
        } else {
            Some(r.name)
        },
        enabled: r.enabled,
        condition: sp_build_test(r),
        actions: sp_build_actions(r.actions, 0),
        alternatives: Seq::empty(),
    }
}

/// The first `if` command of a command list, from index `i` on.
pub open spec fn sp_first_if(cmds: Seq<SpCommand>, i: int) -> Option<SpIfBlock>
    decreases cmds.len() - i,
{
    if i < 0 || i >= cmds.len() {
        None
    } else {
        match cmds[i] {
            SpCommand::If(b) => Some(b),
            _ => sp_first_if(cmds, i + 1),
        }
    }
}

/// The commands one rule contributes: its re-parsed raw block's `if` (or
/// the raw text verbatim if it no longer parses), or a freshly built `if`.
pub open spec fn sp_rule_chunk(r: SpRule) -> Seq<SpCommand> {
    match r.raw_block {
        Some(raw) => match sp_parse(raw) {
            Ok(cmds) => match sp_first_if(cmds, 0) {
                Some(b) => seq![SpCommand::If(b)],
                None => Seq::empty(),
            },
            Err(_) => seq![SpCommand::Raw(raw)],
        },
        None => seq![SpCommand::If(sp_build_if(r))],
    }
}

/// The commands of a rule list from index `i` on.
pub open spec fn sp_rule_cmds(rules: Seq<SpRule>, i: int) -> Seq<SpCommand>
    decreases rules.len() - i,
{
    if i < 0 || i >= rules.len() {
        Seq::empty()
    } else {
        sp_rule_chunk(rules[i]) + sp_rule_cmds(rules, i + 1)
    }
}

/// What extensions one model action needs.
pub open spec fn sp_model_needs_action(a: SpAction) -> SpNeeds {
    match a.action_type {
        ActionType::Fileinto => SpNeeds { fileinto: true, ..sp_needs_none() },
        ActionType::Reject => SpNeeds { reject: true, ..sp_needs_none() },
        ActionType::Setflag => SpNeeds { imap4flags: true, ..sp_needs_none() },
        ActionType::Addflag => SpNeeds { imap4flags: true, ..sp_needs_none() },
        ActionType::Removeflag => SpNeeds { imap4flags: true, ..sp_needs_none() },
        _ => sp_needs_none(),
    }
}

/// What extensions one model condition needs.
pub open spec fn sp_model_needs_cond(c: SpCondition) -> SpNeeds {
    let t = match c.test_type {
        ConditionTest::Body => SpNeeds { body: true, ..sp_needs_none() },
        ConditionTest::Envelope => SpNeeds { envelope: true, ..sp_needs_none() },
        _ => sp_needs_none(),
    };
    if c.match_type == MatchType::Regex {
        sp_needs_or(t, SpNeeds { regex: true, ..sp_needs_none() })
    } else {
        t
    }
}

/// What a model action list needs, from index `i` on.
pub open spec fn sp_model_needs_actions(acts: Seq<SpAction>, i: int) -> SpNeeds
    decreases acts.len() - i,
{
    if i < 0 || i >= acts.len() {
        sp_needs_none()
    } else {
        sp_needs_or(sp_model_needs_action(acts[i]), sp_model_needs_actions(acts, i + 1))
    }
}

/// What a model condition list needs, from index `i` on.
pub open spec fn sp_model_needs_conds(conds: Seq<SpCondition>, i: int) -> SpNeeds
    decreases conds.len() - i,
{
    if i < 0 || i >= conds.len() {
        sp_needs_none()
    } else {
        sp_needs_or(sp_model_needs_cond(conds[i]), sp_model_needs_conds(conds, i + 1))
    }
}

/// What a rule list needs, from index `i` on.
pub open spec fn sp_model_needs(rules: Seq<SpRule>, i: int) -> SpNeeds
    decreases rules.len() - i,
{
    if i < 0 || i >= rules.len() {
        sp_needs_none()
    } else {
        let r = rules[i];
        sp_needs_or(
            sp_needs_or(sp_model_needs_actions(r.actions, 0), sp_model_needs_conds(r.conditions, 0)),
            sp_model_needs(rules, i + 1),
        )
    }
}

/// The `require` extensions of a rule list, in sorted order.
pub open spec fn sp_collect_requires(rules: Seq<SpRule>) -> Seq<Seq<char>> {
    sp_needs_list(sp_model_needs(rules, 0))
}

/// The AST rebuilt from a model: one merged `require` command first if any
/// extension is needed, then each rule's commands.
pub open spec fn sp_script_to_ast(m: SpSieveScript) -> crate::ast::SpScript {
    let reqs = sp_collect_requires(m.rules);
    crate::ast::SpScript {
        commands: (if reqs.len() > 0 {
            seq![SpCommand::Require(reqs)]
        } else {
            Seq::empty()
        }) + sp_rule_cmds(m.rules, 0),
    }
}

/// The text of a model: its rebuilt AST, emitted.
pub open spec fn sp_script_to_text(m: SpSieveScript) -> Seq<char> {
    sp_emit(sp_script_to_ast(m))
}

// ---------------------------------------------------------------------------
// Executable converter: text to model
// ---------------------------------------------------------------------------

/// Copy a string vector; `String::clone` keeps the value, so the copy's
/// view is the original's.
fn clone_strings(v: &Vec<String>) -> (r: Vec<String>)
    ensures
        r@ == v@,
{
    let n = v.len();
    let mut r: Vec<String> = Vec::new();
    let mut i: usize = 0;
    while i < n
        invariant
            i <= n,
            n == v@.len(),
            r@ == v@.subrange(0, i as int),
        decreases n - i,
    {
        r.push(v[i].clone());
        proof {
            assert(r@ =~= v@.subrange(0, i + 1));
        }
        i += 1;
    }
    proof {
        assert(v@.subrange(0, n as int) =~= v@);
    }
    r
}

/// Project one supported test onto a model condition.
fn single_test_to_condition(expr: &TestExpr) -> (r: Option<Condition>)
    ensures
        ({
            match sp_single_test_to_condition(view_test(*expr)) {
                Some(c) => r matches Some(cc) && cc@ == c,
                None => r is None,
            }
        }),
    decreases expr,
{
    match expr {
        TestExpr::Header { match_type, header_names, keys } => {
            let mut c = Condition::default();
            c.test_type = ConditionTest::Header;
            c.header_names = clone_strings(header_names);
            c.keys = clone_strings(keys);
            c.match_type = match MatchType::from_sieve(match_type.as_str()) {
                Some(m) => m,
                None => MatchType::Contains,
            };
            Some(c)
        },
        TestExpr::Address { address_part, match_type, header_names, keys } => {
            let mut c = Condition::default();
            c.test_type = ConditionTest::Address;
            c.header_names = clone_strings(header_names);
            c.keys = clone_strings(keys);
            c.match_type = match MatchType::from_sieve(match_type.as_str()) {
                Some(m) => m,
                None => MatchType::Contains,
            };
            c.address_part = match address_part {
                Some(t) => match AddressPartType::from_sieve(t.as_str()) {
                    Some(a) => a,
                    None => AddressPartType::All,
                },
                None => AddressPartType::All,
            };
            Some(c)
        },
        TestExpr::Envelope { address_part, match_type, header_names, keys } => {
            let mut c = Condition::default();
            c.test_type = ConditionTest::Envelope;
            c.header_names = clone_strings(header_names);
            c.keys = clone_strings(keys);
            c.match_type = match MatchType::from_sieve(match_type.as_str()) {
                Some(m) => m,
                None => MatchType::Contains,
            };
            c.address_part = match address_part {
                Some(t) => match AddressPartType::from_sieve(t.as_str()) {
                    Some(a) => a,
                    None => AddressPartType::All,
                },
                None => AddressPartType::All,
            };
            Some(c)
        },
        TestExpr::Size { comparator, limit } => {
            let mut c = Condition::default();
            c.test_type = ConditionTest::Size;
            c.size_comparator = match SizeComparator::from_sieve(comparator.as_str()) {
                Some(s) => s,
                None => SizeComparator::Over,
            };
            c.size_value = limit.clone();
            Some(c)
        },
        TestExpr::Exists { header_names } => {
            let mut c = Condition::default();
            c.test_type = ConditionTest::Exists;
            c.header_names = clone_strings(header_names);
            Some(c)
        },
        TestExpr::Body { match_type, keys } => {
            let mut c = Condition::default();
            c.test_type = ConditionTest::Body;
            c.keys = clone_strings(keys);
            c.match_type = match MatchType::from_sieve(match_type.as_str()) {
                Some(m) => m,
                None => MatchType::Contains,
            };
            Some(c)
        },
        TestExpr::Not(inner) => {
            match single_test_to_condition(inner) {
                Some(mut c) => {
                    c.negate = true;
                    Some(c)
                },
                None => None,
            }
        },
        _ => None,
    }
}

/// The conditions of a test list from index `i` on.
fn conds_from(ts: &Vec<TestExpr>, i: usize) -> (r: Vec<Condition>)
    requires
        i <= ts@.len(),
    ensures
        view_conditions(r@) == sp_conds_of(view_tests(ts@), i as int),
    decreases ts@.len() - i,
{
    proof {
        lemma_view_tests(ts@);
    }
    let n = ts.len();
    if i >= n {
        let r: Vec<Condition> = Vec::new();
        proof {
            assert(view_conditions(r@) =~= Seq::<SpCondition>::empty());
        }
        return r;
    }
    let head = single_test_to_condition(&ts[i]);
    let mut rest = conds_from(ts, i + 1);
    match head {
        Some(c) => {
            let ghost old_rest = rest@;
            rest.insert(0, c);
            proof {
                assert(rest@ =~= seq![c] + old_rest);
                lemma_view_conditions_prepend(old_rest, c);
            }
        },
        None => {},
    }
    rest
}

/// Flatten a test onto logic and conditions.
fn extract_conditions(expr: &TestExpr) -> (r: (LogicOperator, Vec<Condition>))
    ensures
        ({
            let pr = sp_extract_conditions(view_test(*expr));
            r.0 == pr.0 && view_conditions(r.1@) == pr.1
        }),
{
    match expr {
        TestExpr::AllOf(tests) => (LogicOperator::AllOf, conds_from(tests, 0)),
        TestExpr::AnyOf(tests) => (LogicOperator::AnyOf, conds_from(tests, 0)),
        _ => {
            match single_test_to_condition(expr) {
                Some(c) => {
                    let mut v: Vec<Condition> = Vec::new();
                    v.push(c);
                    proof {
                        assert(view_conditions(v@) =~= seq![c@]);
                    }
                    (LogicOperator::AllOf, v)
                },
                None => {
                    let v: Vec<Condition> = Vec::new();
                    proof {
                        assert(view_conditions(v@) =~= Seq::<SpCondition>::empty());
                    }
                    (LogicOperator::AllOf, v)
                },
            }
        },
    }
}

/// Strings joined with `", "`.
fn join_comma(items: &Vec<String>) -> (r: String)
    ensures
        r@ == sp_join_comma(crate::ast::view_strings(items@), 0),
{
    let ghost iv = crate::ast::view_strings(items@);
    let mut out: Vec<char> = Vec::new();
    let n = items.len();
    let mut i: usize = 0;
    while i < n
        invariant
            i <= n,
            n == items@.len(),
            iv == crate::ast::view_strings(items@),
            sp_join_comma(iv, 0) == out@ + sp_join_comma(iv, i as int),
        decreases n - i,
    {
        let ghost pre = out@;
        if i > 0 {
            push_str(&mut out, ", ");
        }
        push_str(&mut out, items[i].as_str());
        proof {
            assert(iv[i as int] == items@[i as int]@);
            assert(out@ =~= pre + (if i > 0 {
                ", "@
            } else {
                Seq::<char>::empty()
            }) + iv[i as int]);
            assert(pre + sp_join_comma(iv, i as int) =~= out@ + sp_join_comma(iv, i + 1));
        }
        i += 1;
    }
    proof {
        assert(sp_join_comma(iv, n as int) =~= Seq::<char>::empty());
        assert(out@ =~= sp_join_comma(iv, 0));
    }
    chars_to_string(&out)
}

/// Project one action command onto a model action.
fn action_of(cmd: &ActionCommand) -> (r: Option<Action>)
    ensures
        ({
            match sp_action_of(cmd@) {
                Some(a) => r matches Some(aa) && aa@ == a,
                None => r is None,
            }
        }),
{
    let at = match ActionType::from_sieve(cmd.name.as_str()) {
        Some(at) => at,
        None => {
            return None;
        },
    };
    let argument = if at.takes_argument() {
        if cmd.arguments.len() > 0 {
            proof {
                assert(cmd@.arguments[0] == cmd.arguments@[0]@);
            }
            match &cmd.arguments[0] {
                crate::ast::Argument::QuotedString(s) => s.clone(),
                crate::ast::Argument::Number(n) => n.clone(),
                crate::ast::Argument::Tag(t) => t.clone(),
                crate::ast::Argument::StringList(items) => join_comma(items),
            }
        } else {
            String::new()
        }
    } else {
        String::new()
    };
    Some(Action { action_type: at, argument })
}

/// The model actions of an action-command list from index `i` on.
fn actions_from(acts: &Vec<ActionCommand>, i: usize) -> (r: Vec<Action>)
    requires
        i <= acts@.len(),
    ensures
        view_model_actions(r@) == sp_extract_actions(view_actions(acts@), i as int),
    decreases acts@.len() - i,
{
    let ghost av = view_actions(acts@);
    let n = acts.len();
    if i >= n {
        let r: Vec<Action> = Vec::new();
        proof {
            assert(view_model_actions(r@) =~= Seq::<SpAction>::empty());
        }
        return r;
    }
    proof {
        assert(av[i as int] == acts@[i as int]@);
    }
    let head = action_of(&acts[i]);
    let mut rest = actions_from(acts, i + 1);
    match head {
        Some(a) => {
            let ghost old_rest = rest@;
            rest.insert(0, a);
            proof {
                assert(rest@ =~= seq![a] + old_rest);
                lemma_view_model_actions_prepend(old_rest, a);
            }
        },
        None => {},
    }
    rest
}

/// Project one `if` block onto a rule, falling back to a raw block when
/// it carries an elsif/else chain or nothing of it could be reduced.
fn if_block_to_rule(block: &IfBlock) -> (r: SieveRule)
    ensures
        r@ == sp_if_to_rule(block@),
{
    let (logic, conditions) = extract_conditions(&block.condition);
    let actions = actions_from(&block.actions, 0);
    let name = match &block.name {
        Some(n) => n.clone(),
        None => String::new(),
    };
    if block.alternatives.len() > 0 || (conditions.len() == 0 && actions.len() == 0) {
        let mut raw: Vec<char> = Vec::new();
        emit_if_block(&mut raw, block);
        let mut r = SieveRule::default();
        r.name = name;
        r.enabled = block.enabled;
        r.raw_block = Some(chars_to_string(&raw));
        r
    } else {
        SieveRule { name, enabled: block.enabled, logic, conditions, actions, raw_block: None }
    }
}

/// The rules of a command list from index `i` on.
fn rules_from(cmds: &Vec<Command>, i: usize) -> (r: Vec<SieveRule>)
    requires
        i <= cmds@.len(),
    ensures
        view_rules(r@) == sp_rules_of(view_commands(cmds@), i as int),
    decreases cmds@.len() - i,
{
    let ghost cv = view_commands(cmds@);
    let n = cmds.len();
    if i >= n {
        let r: Vec<SieveRule> = Vec::new();
        proof {
            assert(view_rules(r@) =~= Seq::<SpRule>::empty());
        }
        return r;
    }
    proof {
        assert(cv[i as int] == cmds@[i as int]@);
    }
    let head = match &cmds[i] {
        Command::If(block) => Some(if_block_to_rule(block)),
        _ => None,
    };
    let mut rest = rules_from(cmds, i + 1);
    match head {
        Some(rule) => {
            let ghost old_rest = rest@;
            rest.insert(0, rule);
            proof {
                assert(rest@ =~= seq![rule] + old_rest);
                lemma_view_rules_prepend(old_rest, rule);
            }
        },
        None => {},
    }
    rest
}

/// Parse SIEVE script text into a `SieveScript` model. Never fails: blank
/// text is the empty model, and unparseable text becomes a single rule
/// named `(parse error)` whose raw block preserves the whole input.
pub fn text_to_script(text: &str, script_name: &str) -> (r: SieveScript)
    ensures
        r@ == sp_text_to_script(text@, script_name@),
{
    if is_blank(text) {
        let mut r = SieveScript::default();
        r.name = str_to_string(script_name);
        return r;
    }
    match parse(text) {
        Err(_) => {
            let mut rule = SieveRule::default();
            rule.name = str_to_string("(parse error)");
            rule.raw_block = Some(str_to_string(text));
            let mut rules: Vec<SieveRule> = Vec::new();
            rules.push(rule);
            let mut r = SieveScript::default();
            r.name = str_to_string(script_name);
            r.rules = rules;
            proof {
                assert(view_rules(r.rules@) =~= seq![sp_parse_error_rule(text@)]);
            }
            r
        },
        Ok(ast) => {
            let req_list = collect_all_requires(&ast);
            let rules = rules_from(&ast.commands, 0);
            let r = SieveScript {
                name: str_to_string(script_name),
                rules,
                requires: req_list,
                active: false,
            };
            r
        },
    }
}

// ---------------------------------------------------------------------------
// Executable converter: model to text
// ---------------------------------------------------------------------------

/// The test expression of one condition.
fn condition_to_test_expr(cond: &Condition) -> (r: TestExpr)
    ensures
        view_test(r) == sp_cond_to_test(cond@),
{
    let base = match cond.test_type {
        ConditionTest::Header => TestExpr::Header {
            match_type: str_to_string(cond.match_type.as_sieve()),
            header_names: clone_strings(&cond.header_names),
            keys: clone_strings(&cond.keys),
        },
        ConditionTest::Address => TestExpr::Address {
            address_part: if cond.address_part == AddressPartType::All {
                None
            } else {
                Some(str_to_string(cond.address_part.as_sieve()))
            },
            match_type: str_to_string(cond.match_type.as_sieve()),
            header_names: clone_strings(&cond.header_names),
            keys: clone_strings(&cond.keys),
        },
        ConditionTest::Envelope => TestExpr::Envelope {
            address_part: if cond.address_part == AddressPartType::All {
                None
            } else {
                Some(str_to_string(cond.address_part.as_sieve()))
            },
            match_type: str_to_string(cond.match_type.as_sieve()),
            header_names: clone_strings(&cond.header_names),
            keys: clone_strings(&cond.keys),
        },
        ConditionTest::Size => TestExpr::Size {
            comparator: str_to_string(cond.size_comparator.as_sieve()),
            limit: cond.size_value.clone(),
        },
        ConditionTest::Exists => TestExpr::Exists {
            header_names: clone_strings(&cond.header_names),
        },
        ConditionTest::True => TestExpr::True,
        ConditionTest::False => TestExpr::False,
        ConditionTest::Body => TestExpr::Body {
            match_type: str_to_string(cond.match_type.as_sieve()),
            keys: clone_strings(&cond.keys),
        },
        ConditionTest::Not => TestExpr::True,
    };
    proof {
        assert(view_test(base) == sp_cond_to_test_base(cond@));
    }
    if cond.negate {
        TestExpr::Not(Box::new(base))
    } else {
        base
    }
}

/// The condition of a rebuilt `if`.
fn build_test_expr(rule: &SieveRule) -> (r: TestExpr)
    ensures
        view_test(r) == sp_build_test(rule@),
{
    let ghost cv = view_conditions(rule.conditions@);
    let n = rule.conditions.len();
    if n == 0 {
        return TestExpr::True;
    }
    if n == 1 {
        proof {
            assert(cv[0] == rule.conditions@[0]@);
        }
        return condition_to_test_expr(&rule.conditions[0]);
    }
    let mut tests: Vec<TestExpr> = Vec::new();
    let mut i: usize = 0;
    proof {
        assert(view_tests(tests@) =~= Seq::<SpTestExpr>::empty());
    }
    while i < n
        invariant
            i <= n,
            n == rule.conditions@.len(),
            cv == view_conditions(rule.conditions@),
            view_tests(tests@) + sp_tests_of_conds(cv, i as int) =~= sp_tests_of_conds(cv, 0),
        decreases n - i,
    {
        let ghost pre = view_tests(tests@);
        let t = condition_to_test_expr(&rule.conditions[i]);
        let ghost old_tests = tests@;
        tests.push(t);
        proof {
            assert(cv[i as int] == rule.conditions@[i as int]@);
            lemma_view_tests_push(old_tests, t);
            assert(sp_tests_of_conds(cv, i as int) == seq![sp_cond_to_test(cv[i as int])]
                + sp_tests_of_conds(cv, i + 1));
            assert(view_tests(tests@) + sp_tests_of_conds(cv, i + 1) =~= pre + sp_tests_of_conds(
                cv,
                i as int,
            ));
        }
        i += 1;
    }
    proof {
        assert(sp_tests_of_conds(cv, n as int) =~= Seq::<SpTestExpr>::empty());
        assert(view_tests(tests@) =~= sp_tests_of_conds(cv, 0));
    }
    match rule.logic {
        LogicOperator::AllOf => TestExpr::AllOf(tests),
        LogicOperator::AnyOf => TestExpr::AnyOf(tests),
    }
}

/// The action commands of a rule's model actions.
fn build_action_commands(rule: &SieveRule) -> (r: Vec<ActionCommand>)
    ensures
        view_actions(r@) == sp_build_actions(view_model_actions(rule.actions@), 0),
{
    let ghost av = view_model_actions(rule.actions@);
    let n = rule.actions.len();
    let mut out: Vec<ActionCommand> = Vec::new();
    let mut i: usize = 0;
    proof {
        assert(view_actions(out@) =~= Seq::<SpActionCommand>::empty());
    }
    while i < n
        invariant
            i <= n,
            n == rule.actions@.len(),
            av == view_model_actions(rule.actions@),
            view_actions(out@) + sp_build_actions(av, i as int) =~= sp_build_actions(av, 0),
        decreases n - i,
    {
        let ghost pre = view_actions(out@);
        let action = &rule.actions[i];
        let arguments: Vec<crate::ast::Argument> = if action.action_type.takes_argument()
            && action.argument.as_str().unicode_len() > 0 {
            let mut v: Vec<crate::ast::Argument> = Vec::new();
            v.push(crate::ast::Argument::QuotedString(action.argument.clone()));
            v
        } else {
            Vec::new()
        };
        let cmd = ActionCommand {
            name: str_to_string(action.action_type.as_sieve()),
            arguments,
        };
        let ghost old_out = out@;
        out.push(cmd);
        proof {
            assert(av[i as int] == rule.actions@[i as int]@);
            lemma_view_actions_push(old_out, cmd);
            assert(cmd@.arguments =~= sp_build_action(av[i as int]).arguments);
            assert(cmd@ == sp_build_action(av[i as int]));
            assert(sp_build_actions(av, i as int) == seq![sp_build_action(av[i as int])]
                + sp_build_actions(av, i + 1));
            assert(view_actions(out@) + sp_build_actions(av, i + 1) =~= pre + sp_build_actions(
                av,
                i as int,
            ));
        }
        i += 1;
    }
    proof {
        assert(sp_build_actions(av, n as int) =~= Seq::<SpActionCommand>::empty());
        assert(view_actions(out@) =~= sp_build_actions(av, 0));
    }
    out
}

/// Compute the `require` extensions of a rule list, in sorted order.
fn collect_requires(rules: &Vec<SieveRule>) -> (r: Vec<String>)
    ensures
        crate::ast::view_strings(r@) == sp_collect_requires(view_rules(rules@)),
{
    let ghost rv = view_rules(rules@);
    let n = rules.len();
    let mut i: usize = n;
    let mut acc = needs_none();
    while i > 0
        invariant
            i <= n,
            n == rules@.len(),
            rv == view_rules(rules@),
            acc@ == sp_model_needs(rv, i as int),
        decreases i,
    {
        i -= 1;
        proof {
            assert(rv[i as int] == rules@[i as int]@);
        }
        let rule = &rules[i];
        let ghost ra = view_model_actions(rule.actions@);
        let na = rule.actions.len();
        let mut j: usize = na;
        let mut racc = needs_none();
        while j > 0
            invariant
                j <= na,
                na == rule.actions@.len(),
                ra == view_model_actions(rule.actions@),
                racc@ == sp_model_needs_actions(ra, j as int),
            decreases j,
        {
            j -= 1;
            proof {
                assert(ra[j as int] == rule.actions@[j as int]@);
            }
            let mut one = needs_none();
            match rule.actions[j].action_type {
                ActionType::Fileinto => {
                    one.fileinto = true;
                },
                ActionType::Reject => {
                    one.reject = true;
                },
                ActionType::Setflag => {
                    one.imap4flags = true;
                },
                ActionType::Addflag => {
                    one.imap4flags = true;
                },
                ActionType::Removeflag => {
                    one.imap4flags = true;
                },
                _ => {},
            }
            racc = needs_or(one, racc);
        }
        let ghost rc = view_conditions(rule.conditions@);
        let nc = rule.conditions.len();
        let mut k: usize = nc;
        let mut cacc = needs_none();
        while k > 0
            invariant
                k <= nc,
                nc == rule.conditions@.len(),
                rc == view_conditions(rule.conditions@),
                cacc@ == sp_model_needs_conds(rc, k as int),
            decreases k,
        {
            k -= 1;
            proof {
                assert(rc[k as int] == rule.conditions@[k as int]@);
            }
            let cond = &rule.conditions[k];
            let mut one = needs_none();
            match cond.test_type {
                ConditionTest::Body => {
                    one.body = true;
                },
                ConditionTest::Envelope => {
                    one.envelope = true;
                },
                _ => {},
            }
            let one2 = if cond.match_type == MatchType::Regex {
                let mut rg = needs_none();
                rg.regex = true;
                needs_or(one, rg)
            } else {
                one
            };
            cacc = needs_or(one2, cacc);
        }
        acc = needs_or(needs_or(racc, cacc), acc);
    }
    let mut r: Vec<String> = Vec::new();
    if acc.body {
        r.push(str_to_string("body"));
    }
    if acc.envelope {
        r.push(str_to_string("envelope"));
    }
    if acc.fileinto {
        r.push(str_to_string("fileinto"));
    }
    if acc.imap4flags {
        r.push(str_to_string("imap4flags"));
    }
    if acc.regex {
        r.push(str_to_string("regex"));
    }
    if acc.reject {
        r.push(str_to_string("reject"));
    }
    proof {
        assert(crate::ast::view_strings(r@) =~= sp_needs_list(acc@));
    }
    r
}

/// Take the first `if` command out of a parsed script, if any.
fn take_first_if(sc: Script) -> (r: Option<IfBlock>)
    ensures
        ({
            match sp_first_if(view_commands(sc.commands@), 0) {
                Some(b) => r matches Some(bb) && bb@ == b,
                None => r is None,
            }
        }),
{
    let mut cmds = sc.commands;
    let ghost cv = view_commands(cmds@);
    let n = cmds.len();
    let mut j: usize = 0;
    while j < n
        invariant
            j <= n,
            n == cmds@.len(),
            cv == view_commands(cmds@),
            cv == view_commands(sc.commands@),
            sp_first_if(cv, 0) == sp_first_if(cv, j as int),
        decreases n - j,
    {
        proof {
            assert(cv[j as int] == cmds@[j as int]@);
        }
        if matches!(&cmds[j], Command::If(_)) {
            let ghost pre = cmds@;
            let cmd = cmds.remove(j);
            proof {
                assert(cmd == pre[j as int]);
            }
            match cmd {
                Command::If(b) => {
                    proof {
                        assert(cv[j as int] == SpCommand::If(b@));
                        assert(sp_first_if(cv, j as int) == Some(b@));
                    }
                    return Some(b);
                },
                _ => {
                    proof {
                        assert(false);
                    }
                    return None;
                },
            }
        }
        j += 1;
    }
    None
}

/// Rebuild the AST of a model.
fn script_to_ast(script: &SieveScript) -> (r: Script)
    ensures
        r@ == sp_script_to_ast(script@),
{
    let ghost rv = view_rules(script.rules@);
    let mut commands: Vec<Command> = Vec::new();
    let req_list = collect_requires(&script.rules);
    let ghost reqv = crate::ast::view_strings(req_list@);
    if req_list.len() > 0 {
        let cmd = Command::Require(req_list);
        commands.push(cmd);
        proof {
            assert(view_commands(commands@) =~= seq![SpCommand::Require(reqv)]);
        }
    } else {
        proof {
            assert(view_commands(commands@) =~= Seq::<SpCommand>::empty());
        }
    }
    let ghost head = view_commands(commands@);
    let n = script.rules.len();
    let mut i: usize = 0;
    proof {
        assert(head + Seq::<SpCommand>::empty() =~= head);
    }
    while i < n
        invariant
            i <= n,
            n == script.rules@.len(),
            rv == view_rules(script.rules@),
            view_commands(commands@) + sp_rule_cmds(rv, i as int) =~= head + sp_rule_cmds(rv, 0),
        decreases n - i,
    {
        let ghost pre = view_commands(commands@);
        proof {
            assert(rv[i as int] == script.rules@[i as int]@);
        }
        let rule = &script.rules[i];
        match &rule.raw_block {
            Some(raw) => {
                match parse(raw.as_str()) {
                    Ok(parsed) => {
                        match take_first_if(parsed) {
                            Some(b) => {
                                let ghost oldc = commands@;
                                let cmd = Command::If(b);
                                commands.push(cmd);
                                proof {
                                    lemma_view_commands_push(oldc, cmd);
                                }
                            },
                            None => {},
                        }
                    },
                    Err(_) => {
                        let ghost oldc = commands@;
                        let cmd = Command::Raw(raw.clone());
                        commands.push(cmd);
                        proof {
                            lemma_view_commands_push(oldc, cmd);
                        }
                    },
                }
            },
            None => {
                let name = if rule.name.as_str().unicode_len() == 0 {
                    None
                } else {
                    Some(rule.name.clone())
                };
                let condition = build_test_expr(rule);
                let actions = build_action_commands(rule);
                let block = IfBlock {
                    name,
                    enabled: rule.enabled,
                    condition,
                    actions,
                    alternatives: Vec::new(),
                };
                let ghost oldc = commands@;
                let cmd = Command::If(block);
                commands.push(cmd);
                proof {
                    assert(crate::ast::view_alternatives(Seq::<crate::ast::Alternative>::empty())
                        =~= Seq::<crate::ast::SpAlternative>::empty());
                    assert(cmd@ == SpCommand::If(sp_build_if(rv[i as int])));
                    lemma_view_commands_push(oldc, cmd);
                }
            },
        }
        proof {
            assert(sp_rule_cmds(rv, i as int) == sp_rule_chunk(rv[i as int]) + sp_rule_cmds(
                rv,
                i + 1,
            ));
            assert(view_commands(commands@) =~= pre + sp_rule_chunk(rv[i as int]));
            assert(view_commands(commands@) + sp_rule_cmds(rv, i + 1) =~= pre + sp_rule_cmds(
                rv,
                i as int,
            ));
        }
        i += 1;
    }
    proof {
        assert(sp_rule_cmds(rv, n as int) =~= Seq::<SpCommand>::empty());
        assert(view_commands(commands@) =~= head + sp_rule_cmds(rv, 0));
    }
    Script { commands }
}

/// Convert a `SieveScript` model back to SIEVE script text.
pub fn script_to_text(script: &SieveScript) -> (r: String)
    ensures
        r@ == sp_script_to_text(script@),
{
    let ast = script_to_ast(script);
    emit(&ast)
}

} // verus!
