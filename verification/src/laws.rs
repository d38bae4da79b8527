//! Properties of the conversion pipeline, stated and proved once for all
//! inputs.

use vstd::prelude::*;
use crate::ast::{SpCommand, SpTestExpr};
use crate::converter::{
    sp_action_of, sp_build_action, sp_build_actions, sp_build_if, sp_cond_to_test, sp_cond_to_test_base, sp_conds_of, sp_extract_actions, sp_extract_conditions,
    sp_first_if, sp_if_to_rule, sp_parse_error_rule, sp_rule_chunk, sp_rule_cmds, sp_script_to_ast,
    sp_single_test_to_condition, sp_tests_of_conds, sp_text_to_script,
};
use crate::emitter::sp_add_new;
use crate::emitter::sp_all_requires;
use crate::enums::{
    ActionType, AddressPartType, ConditionTest, LogicOperator, MatchType, SizeComparator,
    lemma_address_part_roundtrip, lemma_match_type_roundtrip, lemma_size_comparator_roundtrip,
    sp_action_type_from, sp_action_type_name, sp_takes_argument,
};
use crate::model::{SpAction, SpCondition, SpRule, SpSieveScript};
use crate::parser::sp_parse;
use crate::strutil::{sp_all_ws, sp_lower};

verus! {

broadcast use vstd::string::group_string_axioms;

/// Blank text converts to a model with no rules and no requires.
pub proof fn lemma_blank_text_empty_model(text: Seq<char>, name: Seq<char>)
    requires
        sp_all_ws(text),
    ensures
        sp_text_to_script(text, name).rules.len() == 0,
        sp_text_to_script(text, name).requires.len() == 0,
        sp_text_to_script(text, name).name == name,
{
}

/// Text that does not parse converts to exactly one rule, named
/// `(parse error)`, whose raw block preserves the whole input; nothing
/// else is produced, so no script content is ever lost or rejected.
pub proof fn lemma_unparseable_text_is_preserved(text: Seq<char>, name: Seq<char>)
    requires
        !sp_all_ws(text),
        sp_parse(text) is Err,
    ensures
        sp_text_to_script(text, name).rules =~= seq![sp_parse_error_rule(text)],
        sp_text_to_script(text, name).rules[0].raw_block == Some(text),
        sp_text_to_script(text, name).rules[0].name == "(parse error)"@,
        sp_text_to_script(text, name).rules[0].conditions.len() == 0,
        sp_text_to_script(text, name).rules[0].actions.len() == 0,
        sp_text_to_script(text, name).requires.len() == 0,
{
}

/// No element occurs twice.
pub open spec fn sp_nodup(s: Seq<Seq<char>>) -> bool {
    forall|i: int, j: int| 0 <= i < j < s.len() ==> s[i] != s[j]
}

/// Adding the unseen elements of `exts` keeps the accumulator free of
/// duplicates, extends it only at the end, and adds exactly the elements
/// of `exts` that were missing.
pub proof fn lemma_add_new_dedup(acc: Seq<Seq<char>>, exts: Seq<Seq<char>>, i: int)
    requires
        0 <= i,
        sp_nodup(acc),
    ensures
        sp_nodup(sp_add_new(acc, exts, i)),
        acc.is_prefix_of(sp_add_new(acc, exts, i)),
        forall|x: Seq<char>|
            #[trigger] sp_add_new(acc, exts, i).contains(x) <==> acc.contains(x) || exists|k: int|
                i <= k < exts.len() && exts[k] == x,
    decreases exts.len() - i,
{
    if 0 <= i && i < exts.len() {
        let acc2 = if acc.contains(exts[i]) {
            acc
        } else {
            acc.push(exts[i])
        };
        assert(sp_nodup(acc2)) by {
            if !acc.contains(exts[i]) {
                assert forall|a: int, b: int| 0 <= a < b < acc2.len() implies acc2[a]
                    != acc2[b] by {
                    if b == acc.len() {
                        assert(acc2[b] == exts[i]);
                        assert(acc.contains(acc[a]));
                    }
                }
            }
        }
        lemma_add_new_dedup(acc2, exts, i + 1);
        assert(acc.is_prefix_of(acc2));
        assert(acc.is_prefix_of(sp_add_new(acc, exts, i))) by {
            assert(acc2.is_prefix_of(sp_add_new(acc2, exts, i + 1)));
        }
        assert forall|x: Seq<char>|
            #[trigger] sp_add_new(acc, exts, i).contains(x) <==> acc.contains(x) || exists|k: int|
                i <= k < exts.len() && exts[k] == x by {
            let r = sp_add_new(acc, exts, i);
            assert(r == sp_add_new(acc2, exts, i + 1));
            assert(sp_add_new(acc2, exts, i + 1).contains(x) <==> acc2.contains(x) || exists|
                k: int,
            | i + 1 <= k < exts.len() && exts[k] == x);
            if r.contains(x) {
                // forward: x was already in acc, is exts[i], or comes later
                if acc2.contains(x) && !acc.contains(x) {
                    let w = choose|w: int| 0 <= w < acc2.len() && acc2[w] == x;
                    if w < acc.len() {
                        assert(acc[w] == x);
                    }
                    assert(x == exts[i]);
                    assert(i <= i < exts.len() && exts[i] == x);
                }
            }
            if acc.contains(x) {
                let w = choose|w: int| 0 <= w < acc.len() && acc[w] == x;
                assert(acc2[w] == x);
                assert(acc2.contains(x));
            }
            if exists|k: int| i <= k < exts.len() && exts[k] == x {
                let k = choose|k: int| i <= k < exts.len() && exts[k] == x;
                if k == i {
                    if acc.contains(exts[i]) {
                        let w = choose|w: int| 0 <= w < acc.len() && acc[w] == exts[i];
                        assert(acc2[w] == exts[i]);
                    } else {
                        assert(acc2[acc.len() as int] == exts[i]);
                    }
                    assert(acc2.contains(x));
                } else {
                    assert(i + 1 <= k < exts.len() && exts[k] == x);
                }
            }
        }
    }
}

/// The merged `require` list of a command sequence holds no duplicates:
/// extensions are kept in first-seen order, each exactly once.
pub proof fn lemma_requires_deduplicated(cmds: Seq<SpCommand>, acc: Seq<Seq<char>>, i: int)
    requires
        sp_nodup(acc),
    ensures
        sp_nodup(sp_all_requires(cmds, acc, i)),
        acc.is_prefix_of(sp_all_requires(cmds, acc, i)),
    decreases cmds.len() - i,
{
    if 0 <= i && i < cmds.len() {
        let acc2 = match cmds[i] {
            SpCommand::Require(exts) => sp_add_new(acc, exts, 0),
            _ => acc,
        };
        match cmds[i] {
            SpCommand::Require(exts) => {
                lemma_add_new_dedup(acc, exts, 0);
            },
            _ => {},
        }
        lemma_requires_deduplicated(cmds, acc2, i + 1);
        assert(acc.is_prefix_of(acc2));
        assert(acc2.is_prefix_of(sp_all_requires(cmds, acc2, i + 1)));
    }
}

/// A parsed script's model never lists a `require` extension twice.
pub proof fn lemma_model_requires_deduplicated(text: Seq<char>, name: Seq<char>)
    ensures
        sp_nodup(sp_text_to_script(text, name).requires),
{
    if !sp_all_ws(text) {
        match sp_parse(text) {
            Ok(cmds) => {
                lemma_requires_deduplicated(cmds, Seq::empty(), 0);
            },
            Err(_) => {},
        }
    }
}

/// The commands a rule list contributes never hold a `require`.
pub proof fn lemma_rule_cmds_no_require(rules: Seq<SpRule>, i: int)
    ensures
        forall|j: int|
            0 <= j < sp_rule_cmds(rules, i).len() ==> !(#[trigger] sp_rule_cmds(rules, i)[j]
                is Require),
    decreases rules.len() - i,
{
    if 0 <= i && i < rules.len() {
        lemma_rule_cmds_no_require(rules, i + 1);
        let chunk = sp_rule_chunk(rules[i]);
        let rest = sp_rule_cmds(rules, i + 1);
        assert forall|j: int|
            0 <= j < sp_rule_cmds(rules, i).len() implies !(#[trigger] sp_rule_cmds(rules, i)[j]
                is Require) by {
            if j < chunk.len() {
                assert(sp_rule_cmds(rules, i)[j] == chunk[j]);
                match rules[i].raw_block {
                    Some(raw) => {},
                    None => {
                        assert(chunk[0] == SpCommand::If(sp_build_if(rules[i])));
                    },
                }
            } else {
                assert(sp_rule_cmds(rules, i)[j] == rest[j - chunk.len()]);
            }
        }
    }
}

/// Re-emission merges every `require` into exactly one statement: the AST
/// rebuilt from a model holds at most one `Require` command, and only as
/// its first command.
pub proof fn lemma_reemission_single_require(m: SpSieveScript)
    ensures
        forall|j: int|
            0 < j < sp_script_to_ast(m).commands.len() ==> !(
            #[trigger] sp_script_to_ast(m).commands[j] is Require),
{
    let reqs = crate::converter::sp_collect_requires(m.rules);
    let head: Seq<SpCommand> = if reqs.len() > 0 {
        seq![SpCommand::Require(reqs)]
    } else {
        Seq::empty()
    };
    let tail = sp_rule_cmds(m.rules, 0);
    lemma_rule_cmds_no_require(m.rules, 0);
    assert forall|j: int|
        0 < j < sp_script_to_ast(m).commands.len() implies !(
        #[trigger] sp_script_to_ast(m).commands[j] is Require) by {
        if j < head.len() {
        } else {
            assert(sp_script_to_ast(m).commands[j] == tail[j - head.len()]);
        }
    }
}


// ---------------------------------------------------------------------------
// Round-trip of reduced rules
// ---------------------------------------------------------------------------

/// The fields a condition's test does not carry must sit at their
/// defaults for the condition to survive a round trip unchanged; and the
/// test type must be one the reduced form can represent.
pub open spec fn sp_cond_canonical(c: SpCondition) -> bool {
    match c.test_type {
        ConditionTest::Header => c.address_part == AddressPartType::All && c.size_comparator
            == SizeComparator::Over && c.size_value == "0"@,
        ConditionTest::Address => c.size_comparator == SizeComparator::Over && c.size_value
            == "0"@,
        ConditionTest::Envelope => c.size_comparator == SizeComparator::Over && c.size_value
            == "0"@,
        ConditionTest::Size => c.header_names == seq!["From"@] && c.keys == seq![
            Seq::<char>::empty(),
        ] && c.match_type == MatchType::Contains && c.address_part == AddressPartType::All,
        ConditionTest::Exists => c.keys == seq![Seq::<char>::empty()] && c.match_type
            == MatchType::Contains && c.address_part == AddressPartType::All && c.size_comparator
            == SizeComparator::Over && c.size_value == "0"@,
        ConditionTest::Body => c.header_names == seq!["From"@] && c.address_part
            == AddressPartType::All && c.size_comparator == SizeComparator::Over && c.size_value
            == "0"@,
        _ => false,
    }
}

/// An action survives a round trip only if an argument-less action type
/// carries no argument text.
pub open spec fn sp_action_arg_ok(a: SpAction) -> bool {
    sp_takes_argument(a.action_type) || a.argument.len() == 0
}

/// `from_sieve` inverts `as_sieve` for every action type.
pub proof fn lemma_action_type_roundtrip(at: ActionType)
    ensures
        sp_action_type_from(sp_action_type_name(at)) == Some(at),
{
    reveal_strlit("fileinto");
    reveal_strlit("redirect");
    reveal_strlit("reject");
    reveal_strlit("discard");
    reveal_strlit("keep");
    reveal_strlit("stop");
    reveal_strlit("setflag");
    reveal_strlit("addflag");
    reveal_strlit("removeflag");
    assert("fileinto"@.len() == 8);
    assert("redirect"@.len() == 8);
    assert("reject"@.len() == 6);
    assert("discard"@.len() == 7);
    assert("keep"@.len() == 4);
    assert("stop"@.len() == 4);
    assert("setflag"@.len() == 7);
    assert("addflag"@.len() == 7);
    assert("removeflag"@.len() == 10);
    assert("fileinto"@[0] == 'f');
    assert("redirect"@[0] == 'r');
    assert("discard"@[0] == 'd');
    assert("setflag"@[0] == 's');
    assert("addflag"@[0] == 'a');
    assert("keep"@[0] == 'k');
    assert("stop"@[0] == 's');
    assert forall|i: int| 0 <= i < "fileinto"@.len() implies sp_lower("fileinto"@)[i] == "fileinto"@[i] by {
        if i == 0 {
            assert("fileinto"@[0] == 'f');
        } else if i == 1 {
            assert("fileinto"@[1] == 'i');
        } else if i == 2 {
            assert("fileinto"@[2] == 'l');
        } else if i == 3 {
            assert("fileinto"@[3] == 'e');
        } else if i == 4 {
            assert("fileinto"@[4] == 'i');
        } else if i == 5 {
            assert("fileinto"@[5] == 'n');
        } else if i == 6 {
            assert("fileinto"@[6] == 't');
        } else if i == 7 {
            assert("fileinto"@[7] == 'o');
        }
    }
    assert(sp_lower("fileinto"@) =~= "fileinto"@);
    assert forall|i: int| 0 <= i < "redirect"@.len() implies sp_lower("redirect"@)[i] == "redirect"@[i] by {
        if i == 0 {
            assert("redirect"@[0] == 'r');
        } else if i == 1 {
            assert("redirect"@[1] == 'e');
        } else if i == 2 {
            assert("redirect"@[2] == 'd');
        } else if i == 3 {
            assert("redirect"@[3] == 'i');
        } else if i == 4 {
            assert("redirect"@[4] == 'r');
        } else if i == 5 {
            assert("redirect"@[5] == 'e');
        } else if i == 6 {
            assert("redirect"@[6] == 'c');
        } else if i == 7 {
            assert("redirect"@[7] == 't');
        }
    }
    assert(sp_lower("redirect"@) =~= "redirect"@);
    assert forall|i: int| 0 <= i < "reject"@.len() implies sp_lower("reject"@)[i] == "reject"@[i] by {
        if i == 0 {
            assert("reject"@[0] == 'r');
        } else if i == 1 {
            assert("reject"@[1] == 'e');
        } else if i == 2 {
            assert("reject"@[2] == 'j');
        } else if i == 3 {
            assert("reject"@[3] == 'e');
        } else if i == 4 {
            assert("reject"@[4] == 'c');
        } else if i == 5 {
            assert("reject"@[5] == 't');
        }
    }
    assert(sp_lower("reject"@) =~= "reject"@);
    assert forall|i: int| 0 <= i < "discard"@.len() implies sp_lower("discard"@)[i] == "discard"@[i] by {
        if i == 0 {
            assert("discard"@[0] == 'd');
        } else if i == 1 {
            assert("discard"@[1] == 'i');
        } else if i == 2 {
            assert("discard"@[2] == 's');
        } else if i == 3 {
            assert("discard"@[3] == 'c');
        } else if i == 4 {
            assert("discard"@[4] == 'a');
        } else if i == 5 {
            assert("discard"@[5] == 'r');
        } else if i == 6 {
            assert("discard"@[6] == 'd');
        }
    }
    assert(sp_lower("discard"@) =~= "discard"@);
    assert forall|i: int| 0 <= i < "keep"@.len() implies sp_lower("keep"@)[i] == "keep"@[i] by {
        if i == 0 {
            assert("keep"@[0] == 'k');
        } else if i == 1 {
            assert("keep"@[1] == 'e');
        } else if i == 2 {
            assert("keep"@[2] == 'e');
        } else if i == 3 {
            assert("keep"@[3] == 'p');
        }
    }
    assert(sp_lower("keep"@) =~= "keep"@);
    assert forall|i: int| 0 <= i < "stop"@.len() implies sp_lower("stop"@)[i] == "stop"@[i] by {
        if i == 0 {
            assert("stop"@[0] == 's');
        } else if i == 1 {
            assert("stop"@[1] == 't');
        } else if i == 2 {
            assert("stop"@[2] == 'o');
        } else if i == 3 {
            assert("stop"@[3] == 'p');
        }
    }
    assert(sp_lower("stop"@) =~= "stop"@);
    assert forall|i: int| 0 <= i < "setflag"@.len() implies sp_lower("setflag"@)[i] == "setflag"@[i] by {
        if i == 0 {
            assert("setflag"@[0] == 's');
        } else if i == 1 {
            assert("setflag"@[1] == 'e');
        } else if i == 2 {
            assert("setflag"@[2] == 't');
        } else if i == 3 {
            assert("setflag"@[3] == 'f');
        } else if i == 4 {
            assert("setflag"@[4] == 'l');
        } else if i == 5 {
            assert("setflag"@[5] == 'a');
        } else if i == 6 {
            assert("setflag"@[6] == 'g');
        }
    }
    assert(sp_lower("setflag"@) =~= "setflag"@);
    assert forall|i: int| 0 <= i < "addflag"@.len() implies sp_lower("addflag"@)[i] == "addflag"@[i] by {
        if i == 0 {
            assert("addflag"@[0] == 'a');
        } else if i == 1 {
            assert("addflag"@[1] == 'd');
        } else if i == 2 {
            assert("addflag"@[2] == 'd');
        } else if i == 3 {
            assert("addflag"@[3] == 'f');
        } else if i == 4 {
            assert("addflag"@[4] == 'l');
        } else if i == 5 {
            assert("addflag"@[5] == 'a');
        } else if i == 6 {
            assert("addflag"@[6] == 'g');
        }
    }
    assert(sp_lower("addflag"@) =~= "addflag"@);
    assert forall|i: int| 0 <= i < "removeflag"@.len() implies sp_lower("removeflag"@)[i] == "removeflag"@[i] by {
        if i == 0 {
            assert("removeflag"@[0] == 'r');
        } else if i == 1 {
            assert("removeflag"@[1] == 'e');
        } else if i == 2 {
            assert("removeflag"@[2] == 'm');
        } else if i == 3 {
            assert("removeflag"@[3] == 'o');
        } else if i == 4 {
            assert("removeflag"@[4] == 'v');
        } else if i == 5 {
            assert("removeflag"@[5] == 'e');
        } else if i == 6 {
            assert("removeflag"@[6] == 'f');
        } else if i == 7 {
            assert("removeflag"@[7] == 'l');
        } else if i == 8 {
            assert("removeflag"@[8] == 'a');
        } else if i == 9 {
            assert("removeflag"@[9] == 'g');
        }
    }
    assert(sp_lower("removeflag"@) =~= "removeflag"@);
}


/// A model action round-trips through its action command.
pub proof fn lemma_action_roundtrip(a: SpAction)
    requires
        sp_action_arg_ok(a),
    ensures
        sp_action_of(sp_build_action(a)) == Some(a),
{
    lemma_action_type_roundtrip(a.action_type);
    let built = sp_build_action(a);
    if sp_takes_argument(a.action_type) && a.argument.len() > 0 {
        assert(built.arguments[0] == crate::ast::SpArgument::QuotedString(a.argument));
    } else {
        assert(a.argument =~= Seq::<char>::empty());
    }
}

/// A condition's rebuilt test is never an `allof`/`anyof` combinator.
pub proof fn lemma_cond_to_test_shape(c: SpCondition)
    ensures
        !(sp_cond_to_test(c) is AllOf),
        !(sp_cond_to_test(c) is AnyOf),
{
    if !c.negate {
        match c.test_type {
            ConditionTest::Header => {},
            ConditionTest::Address => {},
            ConditionTest::Envelope => {},
            ConditionTest::Size => {},
            ConditionTest::Exists => {},
            ConditionTest::True => {},
            ConditionTest::False => {},
            ConditionTest::Body => {},
            ConditionTest::Not => {},
        }
    }
}

/// A canonical condition round-trips through its test expression.
pub proof fn lemma_condition_roundtrip(c: SpCondition)
    requires
        sp_cond_canonical(c),
    ensures
        sp_single_test_to_condition(sp_cond_to_test(c)) == Some(c),
{
    lemma_match_type_roundtrip(c.match_type);
    lemma_address_part_roundtrip(c.address_part);
    lemma_size_comparator_roundtrip(c.size_comparator);
    let base = sp_cond_to_test_base(c);
    let c0 = SpCondition { negate: false, ..c };
    assert(sp_single_test_to_condition(base) == Some(c0)) by {
        match c.test_type {
            ConditionTest::Header => {
                assert(sp_single_test_to_condition(base) matches Some(d) && d =~~= c0);
            },
            ConditionTest::Address => {
                assert(sp_single_test_to_condition(base) matches Some(d) && d =~~= c0);
            },
            ConditionTest::Envelope => {
                assert(sp_single_test_to_condition(base) matches Some(d) && d =~~= c0);
            },
            ConditionTest::Size => {
                assert(sp_single_test_to_condition(base) matches Some(d) && d =~~= c0);
            },
            ConditionTest::Exists => {
                assert(sp_single_test_to_condition(base) matches Some(d) && d =~~= c0);
            },
            ConditionTest::Body => {
                assert(sp_single_test_to_condition(base) matches Some(d) && d =~~= c0);
            },
            _ => {},
        }
    }
    if c.negate {
        assert(sp_cond_to_test(c) == SpTestExpr::Not(Box::new(base)));
        assert(sp_single_test_to_condition(SpTestExpr::Not(Box::new(base))) == Some(
            SpCondition { negate: true, ..c0 },
        ));
        assert(SpCondition { negate: true, ..c0 } =~~= c);
    } else {
        assert(c0 =~~= c);
    }
}

/// The rebuilt test list mirrors the condition list element-wise.
pub proof fn lemma_tests_of_conds_index(conds: Seq<SpCondition>, i: int)
    requires
        0 <= i <= conds.len(),
    ensures
        sp_tests_of_conds(conds, i).len() == conds.len() - i,
        forall|k: int|
            i <= k < conds.len() ==> sp_tests_of_conds(conds, i)[k - i] == sp_cond_to_test(
                #[trigger] conds[k],
            ),
    decreases conds.len() - i,
{
    if i < conds.len() {
        lemma_tests_of_conds_index(conds, i + 1);
        assert forall|k: int|
            i <= k < conds.len() implies sp_tests_of_conds(conds, i)[k - i] == sp_cond_to_test(
            #[trigger] conds[k],
        ) by {
            if k > i {
                assert(sp_tests_of_conds(conds, i)[k - i] == sp_tests_of_conds(conds, i + 1)[k - i
                    - 1]);
            }
        }
    }
}

/// When every test in a list projects to a condition, the projection is
/// element-wise.
pub proof fn lemma_conds_of_all_some(ts: Seq<SpTestExpr>, i: int)
    requires
        0 <= i <= ts.len(),
        forall|k: int| i <= k < ts.len() ==> sp_single_test_to_condition(#[trigger] ts[k]) is Some,
    ensures
        sp_conds_of(ts, i).len() == ts.len() - i,
        forall|k: int|
            i <= k < ts.len() ==> sp_conds_of(ts, i)[k - i] == sp_single_test_to_condition(
                #[trigger] ts[k],
            )->Some_0,
    decreases ts.len() - i,
{
    if i < ts.len() {
        lemma_conds_of_all_some(ts, i + 1);
        assert forall|k: int|
            i <= k < ts.len() implies sp_conds_of(ts, i)[k - i] == sp_single_test_to_condition(
            #[trigger] ts[k],
        )->Some_0 by {
            if k > i {
                assert(sp_conds_of(ts, i)[k - i] == sp_conds_of(ts, i + 1)[k - i - 1]);
            }
        }
    }
}

/// The rebuilt action-command list mirrors the action list element-wise.
pub proof fn lemma_build_actions_index(acts: Seq<SpAction>, i: int)
    requires
        0 <= i <= acts.len(),
    ensures
        sp_build_actions(acts, i).len() == acts.len() - i,
        forall|k: int|
            i <= k < acts.len() ==> sp_build_actions(acts, i)[k - i] == sp_build_action(
                #[trigger] acts[k],
            ),
    decreases acts.len() - i,
{
    if i < acts.len() {
        lemma_build_actions_index(acts, i + 1);
        assert forall|k: int|
            i <= k < acts.len() implies sp_build_actions(acts, i)[k - i] == sp_build_action(
            #[trigger] acts[k],
        ) by {
            if k > i {
                assert(sp_build_actions(acts, i)[k - i] == sp_build_actions(acts, i + 1)[k - i
                    - 1]);
            }
        }
    }
}

/// When every action command projects to a model action, the projection
/// is element-wise.
pub proof fn lemma_extract_actions_all_some(acts: Seq<crate::ast::SpActionCommand>, i: int)
    requires
        0 <= i <= acts.len(),
        forall|k: int| i <= k < acts.len() ==> sp_action_of(#[trigger] acts[k]) is Some,
    ensures
        sp_extract_actions(acts, i).len() == acts.len() - i,
        forall|k: int|
            i <= k < acts.len() ==> sp_extract_actions(acts, i)[k - i] == sp_action_of(
                #[trigger] acts[k],
            )->Some_0,
    decreases acts.len() - i,
{
    if i < acts.len() {
        lemma_extract_actions_all_some(acts, i + 1);
        assert forall|k: int|
            i <= k < acts.len() implies sp_extract_actions(acts, i)[k - i] == sp_action_of(
            #[trigger] acts[k],
        )->Some_0 by {
            if k > i {
                assert(sp_extract_actions(acts, i)[k - i] == sp_extract_actions(acts, i + 1)[k - i
                    - 1]);
            }
        }
    }
}

/// Round-trip idempotence for representable rules: a rule without a raw
/// block, whose conditions are canonical and whose actions carry no
/// argument they cannot keep, is reproduced exactly by converting it to an
/// `if` block and projecting that block back onto a rule. A rule whose
/// single-condition logic is `anyof`, or with nothing in it at all, has no
/// reduced `if` form and is left out.
pub proof fn lemma_rule_roundtrip(r: SpRule)
    requires
        r.raw_block is None,
        forall|k: int| 0 <= k < r.conditions.len() ==> sp_cond_canonical(#[trigger] r.conditions[k]),
        forall|k: int| 0 <= k < r.actions.len() ==> sp_action_arg_ok(#[trigger] r.actions[k]),
        r.conditions.len() > 0 || r.actions.len() > 0,
        r.conditions.len() >= 2 || r.logic == LogicOperator::AllOf,
    ensures
        sp_if_to_rule(sp_build_if(r)) == r,
{
    let b = sp_build_if(r);
    // actions round-trip element-wise
    lemma_build_actions_index(r.actions, 0);
    assert forall|k: int|
        0 <= k < b.actions.len() implies sp_action_of(#[trigger] b.actions[k]) is Some by {
        lemma_action_roundtrip(r.actions[k]);
    }
    lemma_extract_actions_all_some(b.actions, 0);
    assert(sp_extract_actions(b.actions, 0) =~= r.actions) by {
        assert forall|k: int|
            0 <= k < r.actions.len() implies sp_extract_actions(b.actions, 0)[k] == r.actions[k] by {
            lemma_action_roundtrip(r.actions[k]);
        }
    }
    // conditions round-trip, by the shape of the rebuilt test
    let ec = sp_extract_conditions(b.condition);
    if r.conditions.len() == 0 {
        assert(b.condition == SpTestExpr::True);
        assert(ec.0 == LogicOperator::AllOf && ec.1 =~= r.conditions);
    } else if r.conditions.len() == 1 {
        let c = r.conditions[0];
        assert(b.condition == sp_cond_to_test(c));
        lemma_cond_to_test_shape(c);
        lemma_condition_roundtrip(c);
        assert(ec.0 == LogicOperator::AllOf && ec.1 =~= r.conditions);
    } else {
        lemma_tests_of_conds_index(r.conditions, 0);
        let ts = sp_tests_of_conds(r.conditions, 0);
        assert forall|k: int|
            0 <= k < ts.len() implies sp_single_test_to_condition(#[trigger] ts[k]) is Some by {
            lemma_condition_roundtrip(r.conditions[k]);
        }
        lemma_conds_of_all_some(ts, 0);
        assert(sp_conds_of(ts, 0) =~= r.conditions) by {
            assert forall|k: int|
                0 <= k < r.conditions.len() implies sp_conds_of(ts, 0)[k] == r.conditions[k] by {
                lemma_condition_roundtrip(r.conditions[k]);
            }
        }
        match r.logic {
            LogicOperator::AllOf => {
                assert(b.condition == SpTestExpr::AllOf(ts));
            },
            LogicOperator::AnyOf => {
                assert(b.condition == SpTestExpr::AnyOf(ts));
            },
        }
        assert(ec.0 == r.logic && ec.1 =~= r.conditions);
    }
    // the reduced branch is taken and reproduces the rule exactly
    if r.name.len() == 0 {
        assert(r.name =~= Seq::<char>::empty());
    }
    assert(sp_if_to_rule(b) =~~= r);
}


/// Whether one command is a `require` that lists `x`.
pub open spec fn sp_require_lists(c: SpCommand, x: Seq<char>) -> bool {
    match c {
        SpCommand::Require(exts) => exists|b: int| 0 <= b < exts.len() && exts[b] == x,
        _ => false,
    }
}

/// Whether some `require` command in `cmds`, at or after `i`, lists `x`.
pub open spec fn sp_some_require_lists(cmds: Seq<SpCommand>, i: int, x: Seq<char>) -> bool {
    exists|a: int| i <= a < cmds.len() && sp_require_lists(#[trigger] cmds[a], x)
}

/// The merged `require` list holds exactly the extensions some `require`
/// command lists.
pub proof fn lemma_requires_membership(cmds: Seq<SpCommand>, acc: Seq<Seq<char>>, i: int)
    requires
        0 <= i,
        sp_nodup(acc),
    ensures
        forall|x: Seq<char>|
            #[trigger] sp_all_requires(cmds, acc, i).contains(x) <==> acc.contains(x)
                || sp_some_require_lists(cmds, i, x),
    decreases cmds.len() - i,
{
    if i < cmds.len() {
        let acc2 = match cmds[i] {
            SpCommand::Require(exts) => sp_add_new(acc, exts, 0),
            _ => acc,
        };
        match cmds[i] {
            SpCommand::Require(exts) => {
                lemma_add_new_dedup(acc, exts, 0);
            },
            _ => {},
        }
        lemma_requires_deduplicated(cmds, acc, i);
        lemma_requires_membership(cmds, acc2, i + 1);
        assert forall|x: Seq<char>|
            #[trigger] sp_all_requires(cmds, acc, i).contains(x) <==> acc.contains(x)
                || sp_some_require_lists(cmds, i, x) by {
            assert(sp_all_requires(cmds, acc, i) == sp_all_requires(cmds, acc2, i + 1));
            assert(sp_all_requires(cmds, acc2, i + 1).contains(x) <==> acc2.contains(x)
                || sp_some_require_lists(cmds, i + 1, x));
            if acc2.contains(x) && !acc.contains(x) {
                assert(sp_require_lists(cmds[i], x));
            }
            if sp_require_lists(cmds[i], x) {
                match cmds[i] {
                    SpCommand::Require(exts) => {
                        assert(acc2.contains(x));
                    },
                    _ => {},
                }
            }
            if sp_some_require_lists(cmds, i, x) && !sp_require_lists(cmds[i], x) {
                let a = choose|a: int|
                    i <= a < cmds.len() && sp_require_lists(#[trigger] cmds[a], x);
                assert(a >= i + 1);
                assert(sp_some_require_lists(cmds, i + 1, x));
            }
            if sp_some_require_lists(cmds, i + 1, x) {
                let a = choose|a: int|
                    i + 1 <= a < cmds.len() && sp_require_lists(#[trigger] cmds[a], x);
                assert(sp_some_require_lists(cmds, i, x));
            }
        }
    } else {
        assert forall|x: Seq<char>|
            #[trigger] sp_all_requires(cmds, acc, i).contains(x) <==> acc.contains(x)
                || sp_some_require_lists(cmds, i, x) by {
            if sp_some_require_lists(cmds, i, x) {
                let a = choose|a: int|
                    i <= a < cmds.len() && sp_require_lists(#[trigger] cmds[a], x);
            }
        }
    }
}

/// The model of a parsed script lists an extension if and only if some
/// `require` command of the script lists it.
pub proof fn lemma_model_requires_exact(text: Seq<char>, name: Seq<char>, cmds: Seq<SpCommand>)
    requires
        !sp_all_ws(text),
        sp_parse(text) == Result::<Seq<SpCommand>, Seq<char>>::Ok(cmds),
    ensures
        forall|x: Seq<char>|
            #[trigger] sp_text_to_script(text, name).requires.contains(x)
                <==> sp_some_require_lists(cmds, 0, x),
{
    lemma_requires_membership(cmds, Seq::empty(), 0);
}


/// Every condition the projection produces is canonical: the fields its
/// test does not carry sit at their defaults.
pub proof fn lemma_single_test_canonical(e: SpTestExpr)
    ensures
        sp_single_test_to_condition(e) matches Some(c) ==> sp_cond_canonical(c),
    decreases e,
{
    match e {
        SpTestExpr::Not(inner) => {
            lemma_single_test_canonical(*inner);
        },
        _ => {},
    }
}

/// Every action the projection produces carries an argument only when its
/// action type can keep one.
pub proof fn lemma_action_of_ok(a: crate::ast::SpActionCommand)
    ensures
        sp_action_of(a) matches Some(m) ==> sp_action_arg_ok(m),
{
}

/// Every rule the projection reduces (rather than preserving raw) lies in
/// the round-trip domain: canonical conditions and argument-clean actions.
pub proof fn lemma_projected_rule_in_domain(b: crate::ast::SpIfBlock)
    ensures
        sp_if_to_rule(b).raw_block is None ==> ({
            let r = sp_if_to_rule(b);
            (forall|k: int|
                0 <= k < r.conditions.len() ==> sp_cond_canonical(#[trigger] r.conditions[k]))
                && (forall|k: int|
                0 <= k < r.actions.len() ==> sp_action_arg_ok(#[trigger] r.actions[k])) && (
            r.conditions.len() > 0 || r.actions.len() > 0)
        }),
{
    let r = sp_if_to_rule(b);
    if r.raw_block is None {
        let ec = sp_extract_conditions(b.condition);
        lemma_conds_canonical_all(b.condition);
        lemma_actions_ok_all(b.actions, 0);
        assert forall|k: int|
            0 <= k < r.conditions.len() implies sp_cond_canonical(#[trigger] r.conditions[k]) by {
            assert(r.conditions == ec.1);
        }
    }
}

/// Every condition extracted from a test is canonical.
proof fn lemma_conds_canonical_all(e: SpTestExpr)
    ensures
        forall|k: int|
            0 <= k < sp_extract_conditions(e).1.len() ==> sp_cond_canonical(
                #[trigger] sp_extract_conditions(e).1[k],
            ),
{
    match e {
        SpTestExpr::AllOf(ts) => {
            lemma_conds_of_canonical(ts, 0);
        },
        SpTestExpr::AnyOf(ts) => {
            lemma_conds_of_canonical(ts, 0);
        },
        _ => {
            lemma_single_test_canonical(e);
        },
    }
}

/// Every condition in a projected test list is canonical.
proof fn lemma_conds_of_canonical(ts: Seq<SpTestExpr>, i: int)
    ensures
        forall|k: int|
            0 <= k < sp_conds_of(ts, i).len() ==> sp_cond_canonical(
                #[trigger] sp_conds_of(ts, i)[k],
            ),
    decreases ts.len() - i,
{
    if 0 <= i && i < ts.len() {
        lemma_single_test_canonical(ts[i]);
        lemma_conds_of_canonical(ts, i + 1);
        let head = match sp_single_test_to_condition(ts[i]) {
            Some(c) => seq![c],
            None => Seq::<SpCondition>::empty(),
        };
        assert forall|k: int|
            0 <= k < sp_conds_of(ts, i).len() implies sp_cond_canonical(
            #[trigger] sp_conds_of(ts, i)[k],
        ) by {
            if k < head.len() {
                assert(sp_conds_of(ts, i)[k] == head[0]);
            } else {
                assert(sp_conds_of(ts, i)[k] == sp_conds_of(ts, i + 1)[k - head.len()]);
            }
        }
    }
}

/// Every action extracted from an action-command list is argument-clean.
proof fn lemma_actions_ok_all(acts: Seq<crate::ast::SpActionCommand>, i: int)
    ensures
        forall|k: int|
            0 <= k < sp_extract_actions(acts, i).len() ==> sp_action_arg_ok(
                #[trigger] sp_extract_actions(acts, i)[k],
            ),
    decreases acts.len() - i,
{
    if 0 <= i && i < acts.len() {
        lemma_action_of_ok(acts[i]);
        lemma_actions_ok_all(acts, i + 1);
        let head = match sp_action_of(acts[i]) {
            Some(a) => seq![a],
            None => Seq::<SpAction>::empty(),
        };
        assert forall|k: int|
            0 <= k < sp_extract_actions(acts, i).len() implies sp_action_arg_ok(
            #[trigger] sp_extract_actions(acts, i)[k],
        ) by {
            if k < head.len() {
                assert(sp_extract_actions(acts, i)[k] == head[0]);
            } else {
                assert(sp_extract_actions(acts, i)[k] == sp_extract_actions(acts, i + 1)[k
                    - head.len()]);
            }
        }
    }
}


// ---------------------------------------------------------------------------
// First-seen order of merged requires
// ---------------------------------------------------------------------------

/// The concatenation of every `require` command's extension list, in
/// script order, from index `i` on.
pub open spec fn sp_concat_requires(cmds: Seq<SpCommand>, i: int) -> Seq<Seq<char>>
    decreases cmds.len() - i,
{
    if i < 0 || i >= cmds.len() {
        Seq::empty()
    } else {
        (match cmds[i] {
            SpCommand::Require(exts) => exts,
            _ => Seq::empty(),
        }) + sp_concat_requires(cmds, i + 1)
    }
}

/// Fold a list into an accumulator, keeping each element only at its
/// first occurrence.
pub open spec fn sp_dedup_cons(acc: Seq<Seq<char>>, s: Seq<Seq<char>>) -> Seq<Seq<char>>
    decreases s.len(),
{
    if s.len() == 0 {
        acc
    } else {
        sp_dedup_cons(
            if acc.contains(s[0]) {
                acc
            } else {
                acc.push(s[0])
            },
            s.drop_first(),
        )
    }
}

/// A list with every element after its first occurrence removed: the
/// elements in order of first appearance, each exactly once.
pub open spec fn sp_first_seen_dedup(s: Seq<Seq<char>>) -> Seq<Seq<char>> {
    sp_dedup_cons(Seq::empty(), s)
}

/// The indexed accumulation is the structural fold over the suffix.
proof fn lemma_add_new_is_dedup_cons(acc: Seq<Seq<char>>, s: Seq<Seq<char>>, i: int)
    requires
        0 <= i <= s.len(),
    ensures
        sp_add_new(acc, s, i) == sp_dedup_cons(acc, s.skip(i)),
    decreases s.len() - i,
{
    if i < s.len() {
        let acc2 = if acc.contains(s[i]) {
            acc
        } else {
            acc.push(s[i])
        };
        assert(s.skip(i)[0] == s[i]);
        assert(s.skip(i).drop_first() =~= s.skip(i + 1));
        lemma_add_new_is_dedup_cons(acc2, s, i + 1);
    } else {
        assert(s.skip(i) =~= Seq::<Seq<char>>::empty());
    }
}

/// The fold splits over concatenation.
proof fn lemma_dedup_cons_concat(acc: Seq<Seq<char>>, a: Seq<Seq<char>>, b: Seq<Seq<char>>)
    ensures
        sp_dedup_cons(acc, a + b) == sp_dedup_cons(sp_dedup_cons(acc, a), b),
    decreases a.len(),
{
    if a.len() == 0 {
        assert(a + b =~= b);
    } else {
        let acc2 = if acc.contains(a[0]) {
            acc
        } else {
            acc.push(a[0])
        };
        assert((a + b)[0] == a[0]);
        assert((a + b).drop_first() =~= a.drop_first() + b);
        lemma_dedup_cons_concat(acc2, a.drop_first(), b);
    }
}

/// The merged `require` list is the first-seen de-duplication of the
/// concatenated `require` lists, continued from any accumulator.
proof fn lemma_all_requires_is_first_seen(cmds: Seq<SpCommand>, acc: Seq<Seq<char>>, i: int)
    requires
        0 <= i,
    ensures
        sp_all_requires(cmds, acc, i) == sp_dedup_cons(acc, sp_concat_requires(cmds, i)),
    decreases cmds.len() - i,
{
    if i < cmds.len() {
        match cmds[i] {
            SpCommand::Require(exts) => {
                assert(exts.skip(0) =~= exts);
                lemma_add_new_is_dedup_cons(acc, exts, 0);
                let acc2 = sp_add_new(acc, exts, 0);
                lemma_all_requires_is_first_seen(cmds, acc2, i + 1);
                lemma_dedup_cons_concat(acc, exts, sp_concat_requires(cmds, i + 1));
            },
            _ => {
                lemma_all_requires_is_first_seen(cmds, acc, i + 1);
                assert(Seq::<Seq<char>>::empty() + sp_concat_requires(cmds, i + 1)
                    =~= sp_concat_requires(cmds, i + 1));
            },
        }
    } else {
        assert(sp_concat_requires(cmds, i) =~= Seq::<Seq<char>>::empty());
    }
}

/// Order stability of the model's `require` list: it equals the
/// concatenation of all `require` extension lists of the parsed script
/// with every name after its first occurrence removed — duplicate-free
/// and ordered by first appearance in the text.
pub proof fn lemma_model_requires_first_seen(text: Seq<char>, name: Seq<char>, cmds: Seq<SpCommand>)
    requires
        !sp_all_ws(text),
        sp_parse(text) == Result::<Seq<SpCommand>, Seq<char>>::Ok(cmds),
    ensures
        sp_text_to_script(text, name).requires == sp_first_seen_dedup(sp_concat_requires(cmds, 0)),
{
    lemma_all_requires_is_first_seen(cmds, Seq::empty(), 0);
}

// ---------------------------------------------------------------------------
// Raw-block re-emission and require merging on the emit path
// ---------------------------------------------------------------------------

/// What a raw-block rule contributes to the rebuilt AST: exactly the
/// first `if` command of its re-parsed text, full elsif/else chain
/// included, every other command of the raw text dropped; or the raw
/// text verbatim when it no longer parses.
pub proof fn lemma_raw_block_reemission(r: SpRule, raw: Seq<char>)
    requires
        r.raw_block == Some(raw),
    ensures
        sp_parse(raw) matches Ok(p) ==> (match sp_first_if(p, 0) {
            Some(b) => sp_rule_chunk(r) == seq![SpCommand::If(b)],
            None => sp_rule_chunk(r) == Seq::<SpCommand>::empty(),
        }),
        sp_parse(raw) is Err ==> sp_rule_chunk(r) == seq![SpCommand::Raw(raw)],
{
}

/// The rebuilt AST is the merged `require` command (when any extension
/// is needed) followed by each rule's commands, in rule order.
pub proof fn lemma_rebuilt_ast_shape(m: SpSieveScript)
    ensures
        sp_script_to_ast(m).commands == (if crate::converter::sp_collect_requires(m.rules).len()
            > 0 {
            seq![SpCommand::Require(crate::converter::sp_collect_requires(m.rules))]
        } else {
            Seq::<SpCommand>::empty()
        }) + sp_rule_cmds(m.rules, 0),
        forall|k: int|
            0 <= k < m.rules.len() ==> #[trigger] sp_rule_cmds(m.rules, k) == sp_rule_chunk(
                m.rules[k],
            ) + sp_rule_cmds(m.rules, k + 1),
{
}

/// Emission merges every `require` into one leading statement: the text
/// is the merged statement — built from the first-seen de-duplication of
/// all `require` lists, single-string form for one name, a bracketed
/// list otherwise — followed by the other commands, and the command walk
/// emits nothing for a `Require`.
pub proof fn lemma_emit_merges_requires(sc: crate::ast::SpScript)
    ensures
        crate::emitter::sp_emit(sc) == crate::emitter::sp_emit_requires(
            sp_first_seen_dedup(sp_concat_requires(sc.commands, 0)),
        ) + crate::emitter::sp_emit_cmds(
            sc.commands,
            sp_first_seen_dedup(sp_concat_requires(sc.commands, 0)).len() == 0,
            0,
        ),
        forall|f: bool, i: int|
            0 <= i < sc.commands.len() && sc.commands[i] is Require
                ==> #[trigger] crate::emitter::sp_emit_cmds(sc.commands, f, i)
                    == crate::emitter::sp_emit_cmds(sc.commands, f, i + 1),
{
    lemma_all_requires_is_first_seen(sc.commands, Seq::empty(), 0);
}

} // verus!
