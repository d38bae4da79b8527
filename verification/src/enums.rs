//! Closed enumerations of the rule model, each with its bidirectional
//! SIEVE keyword mapping (`as_sieve` / `from_sieve`).

use vstd::prelude::*;
use crate::strutil::{sp_lower, str_eq, str_eq_lower};

verus! {

broadcast use vstd::string::group_string_axioms;

#[derive(Debug, Clone, Copy, PartialEq, Eq, Structural)]
pub enum MatchType {
    Is,
    Contains,
    Matches,
    Regex,
}

/// The SIEVE tag of a match type.
pub open spec fn sp_match_type_name(m: MatchType) -> Seq<char> {
    match m {
        MatchType::Is => ":is"@,
        MatchType::Contains => ":contains"@,
        MatchType::Matches => ":matches"@,
        MatchType::Regex => ":regex"@,
    }
}

/// The match type named by a SIEVE tag, if any.
pub open spec fn sp_match_type_from(s: Seq<char>) -> Option<MatchType> {
    if s == ":is"@ {
        Some(MatchType::Is)
    } else if s == ":contains"@ {
        Some(MatchType::Contains)
    } else if s == ":matches"@ {
        Some(MatchType::Matches)
    } else if s == ":regex"@ {
        Some(MatchType::Regex)
    } else {
        None
    }
}

impl MatchType {
    pub fn as_sieve(&self) -> (r: &'static str)
        ensures
            r@ == sp_match_type_name(*self),
    {
        match self {
            Self::Is => ":is",
            Self::Contains => ":contains",
            Self::Matches => ":matches",
            Self::Regex => ":regex",
        }
    }

    pub fn from_sieve(s: &str) -> (r: Option<Self>)
        ensures
            r == sp_match_type_from(s@),
    {
        if str_eq(s, ":is") {
            Some(Self::Is)
        } else if str_eq(s, ":contains") {
            Some(Self::Contains)
        } else if str_eq(s, ":matches") {
            Some(Self::Matches)
        } else if str_eq(s, ":regex") {
            Some(Self::Regex)
        } else {
            None
        }
    }
}

/// `from_sieve` inverts `as_sieve` for every match type.
pub proof fn lemma_match_type_roundtrip(m: MatchType)
    ensures
        sp_match_type_from(sp_match_type_name(m)) == Some(m),
{
    reveal_strlit(":is");
    reveal_strlit(":contains");
    reveal_strlit(":matches");
    reveal_strlit(":regex");
    assert(":is"@.len() == 3);
    assert(":contains"@.len() == 9);
    assert(":matches"@.len() == 8);
    assert(":regex"@.len() == 6);
}

#[derive(Debug, Clone, Copy, PartialEq, Eq, Structural)]
pub enum AddressPartType {
    All,
    Localpart,
    Domain,
}

/// The SIEVE tag of an address part.
pub open spec fn sp_address_part_name(a: AddressPartType) -> Seq<char> {
    match a {
        AddressPartType::All => ":all"@,
        AddressPartType::Localpart => ":localpart"@,
        AddressPartType::Domain => ":domain"@,
    }
}

/// The address part named by a SIEVE tag, if any.
pub open spec fn sp_address_part_from(s: Seq<char>) -> Option<AddressPartType> {
    if s == ":all"@ {
        Some(AddressPartType::All)
    } else if s == ":localpart"@ {
        Some(AddressPartType::Localpart)
    } else if s == ":domain"@ {
        Some(AddressPartType::Domain)
    } else {
        None
    }
}

impl AddressPartType {
    pub fn as_sieve(&self) -> (r: &'static str)
        ensures
            r@ == sp_address_part_name(*self),
    {
        match self {
            Self::All => ":all",
            Self::Localpart => ":localpart",
            Self::Domain => ":domain",
        }
    }

    pub fn from_sieve(s: &str) -> (r: Option<Self>)
        ensures
            r == sp_address_part_from(s@),
    {
        if str_eq(s, ":all") {
            Some(Self::All)
        } else if str_eq(s, ":localpart") {
            Some(Self::Localpart)
        } else if str_eq(s, ":domain") {
            Some(Self::Domain)
        } else {
            None
        }
    }
}

/// `from_sieve` inverts `as_sieve` for every address part.
pub proof fn lemma_address_part_roundtrip(a: AddressPartType)
    ensures
        sp_address_part_from(sp_address_part_name(a)) == Some(a),
{
    reveal_strlit(":all");
    reveal_strlit(":localpart");
    reveal_strlit(":domain");
    assert(":all"@.len() == 4);
    assert(":localpart"@.len() == 10);
    assert(":domain"@.len() == 7);
}

#[derive(Debug, Clone, Copy, PartialEq, Eq, Structural)]
pub enum SizeComparator {
    Over,
    Under,
}

/// The SIEVE tag of a size comparator.
pub open spec fn sp_size_comparator_name(c: SizeComparator) -> Seq<char> {
    match c {
        SizeComparator::Over => ":over"@,
        SizeComparator::Under => ":under"@,
    }
}

/// The size comparator named by a SIEVE tag, if any.
pub open spec fn sp_size_comparator_from(s: Seq<char>) -> Option<SizeComparator> {
    if s == ":over"@ {
        Some(SizeComparator::Over)
    } else if s == ":under"@ {
        Some(SizeComparator::Under)
    } else {
        None
    }
}

impl SizeComparator {
    pub fn as_sieve(&self) -> (r: &'static str)
        ensures
            r@ == sp_size_comparator_name(*self),
    {
        match self {
            Self::Over => ":over",
            Self::Under => ":under",
        }
    }

    pub fn from_sieve(s: &str) -> (r: Option<Self>)
        ensures
            r == sp_size_comparator_from(s@),
    {
        if str_eq(s, ":over") {
            Some(Self::Over)
        } else if str_eq(s, ":under") {
            Some(Self::Under)
        } else {
            None
        }
    }
}

/// `from_sieve` inverts `as_sieve` for every size comparator.
pub proof fn lemma_size_comparator_roundtrip(c: SizeComparator)
    ensures
        sp_size_comparator_from(sp_size_comparator_name(c)) == Some(c),
{
    reveal_strlit(":over");
    reveal_strlit(":under");
    assert(":over"@.len() == 5);
    assert(":under"@.len() == 6);
}

#[derive(Debug, Clone, Copy, PartialEq, Eq, Structural)]
pub enum LogicOperator {
    AllOf,
    AnyOf,
}

/// The SIEVE keyword of a logic operator.
pub open spec fn sp_logic_operator_name(l: LogicOperator) -> Seq<char> {
    match l {
        LogicOperator::AllOf => "allof"@,
        LogicOperator::AnyOf => "anyof"@,
    }
}

/// The logic operator named by a SIEVE keyword, matched case-insensitively.
pub open spec fn sp_logic_operator_from(s: Seq<char>) -> Option<LogicOperator> {
    if sp_lower(s) == "allof"@ {
        Some(LogicOperator::AllOf)
    } else if sp_lower(s) == "anyof"@ {
        Some(LogicOperator::AnyOf)
    } else {
        None
    }
}

impl LogicOperator {
    pub fn as_sieve(&self) -> (r: &'static str)
        ensures
            r@ == sp_logic_operator_name(*self),
    {
        match self {
            Self::AllOf => "allof",
            Self::AnyOf => "anyof",
        }
    }

    pub fn from_sieve(s: &str) -> (r: Option<Self>)
        ensures
            r == sp_logic_operator_from(s@),
    {
        if str_eq_lower(s, "allof") {
            Some(Self::AllOf)
        } else if str_eq_lower(s, "anyof") {
            Some(Self::AnyOf)
        } else {
            None
        }
    }
}

#[derive(Debug, Clone, Copy, PartialEq, Eq, Structural)]
pub enum ActionType {
    Fileinto,
    Redirect,
    Reject,
    Discard,
    Keep,
    Stop,
    Setflag,
    Addflag,
    Removeflag,
}

/// The SIEVE command name of an action type.
pub open spec fn sp_action_type_name(a: ActionType) -> Seq<char> {
    match a {
        ActionType::Fileinto => "fileinto"@,
        ActionType::Redirect => "redirect"@,
        ActionType::Reject => "reject"@,
        ActionType::Discard => "discard"@,
        ActionType::Keep => "keep"@,
        ActionType::Stop => "stop"@,
        ActionType::Setflag => "setflag"@,
        ActionType::Addflag => "addflag"@,
        ActionType::Removeflag => "removeflag"@,
    }
}

/// The action type named by a SIEVE command, matched case-insensitively.
pub open spec fn sp_action_type_from(s: Seq<char>) -> Option<ActionType> {
    let l = sp_lower(s);
    if l == "fileinto"@ {
        Some(ActionType::Fileinto)
    } else if l == "redirect"@ {
        Some(ActionType::Redirect)
    } else if l == "reject"@ {
        Some(ActionType::Reject)
    } else if l == "discard"@ {
        Some(ActionType::Discard)
    } else if l == "keep"@ {
        Some(ActionType::Keep)
    } else if l == "stop"@ {
        Some(ActionType::Stop)
    } else if l == "setflag"@ {
        Some(ActionType::Setflag)
    } else if l == "addflag"@ {
        Some(ActionType::Addflag)
    } else if l == "removeflag"@ {
        Some(ActionType::Removeflag)
    } else {
        None
    }
}

/// Whether an action type carries one argument.
pub open spec fn sp_takes_argument(a: ActionType) -> bool {
    !(a == ActionType::Discard || a == ActionType::Keep || a == ActionType::Stop)
}

impl ActionType {
    pub fn as_sieve(&self) -> (r: &'static str)
        ensures
            r@ == sp_action_type_name(*self),
    {
        match self {
            Self::Fileinto => "fileinto",
            Self::Redirect => "redirect",
            Self::Reject => "reject",
            Self::Discard => "discard",
            Self::Keep => "keep",
            Self::Stop => "stop",
            Self::Setflag => "setflag",
            Self::Addflag => "addflag",
            Self::Removeflag => "removeflag",
        }
    }

    pub fn from_sieve(s: &str) -> (r: Option<Self>)
        ensures
            r == sp_action_type_from(s@),
    {
        if str_eq_lower(s, "fileinto") {
            Some(Self::Fileinto)
        } else if str_eq_lower(s, "redirect") {
            Some(Self::Redirect)
        } else if str_eq_lower(s, "reject") {
            Some(Self::Reject)
        } else if str_eq_lower(s, "discard") {
            Some(Self::Discard)
        } else if str_eq_lower(s, "keep") {
            Some(Self::Keep)
        } else if str_eq_lower(s, "stop") {
            Some(Self::Stop)
        } else if str_eq_lower(s, "setflag") {
            Some(Self::Setflag)
        } else if str_eq_lower(s, "addflag") {
            Some(Self::Addflag)
        } else if str_eq_lower(s, "removeflag") {
            Some(Self::Removeflag)
        } else {
            None
        }
    }

    pub fn takes_argument(&self) -> (r: bool)
        ensures
            r == sp_takes_argument(*self),
    {
        !(matches!(self, Self::Discard | Self::Keep | Self::Stop))
    }
}

#[derive(Debug, Clone, Copy, PartialEq, Eq, Structural)]
pub enum ConditionTest {
    Header,
    Address,
    Envelope,
    Size,
    Exists,
    True,
    False,
    Not,
    Body,
}

/// The SIEVE test name of a condition test.
pub open spec fn sp_condition_test_name(t: ConditionTest) -> Seq<char> {
    match t {
        ConditionTest::Header => "header"@,
        ConditionTest::Address => "address"@,
        ConditionTest::Envelope => "envelope"@,
        ConditionTest::Size => "size"@,
        ConditionTest::Exists => "exists"@,
        ConditionTest::True => "true"@,
        ConditionTest::False => "false"@,
        ConditionTest::Not => "not"@,
        ConditionTest::Body => "body"@,
    }
}

/// The condition test named by a SIEVE test name, matched case-insensitively.
pub open spec fn sp_condition_test_from(s: Seq<char>) -> Option<ConditionTest> {
    let l = sp_lower(s);
    if l == "header"@ {
        Some(ConditionTest::Header)
    } else if l == "address"@ {
        Some(ConditionTest::Address)
    } else if l == "envelope"@ {
        Some(ConditionTest::Envelope)
    } else if l == "size"@ {
        Some(ConditionTest::Size)
    } else if l == "exists"@ {
        Some(ConditionTest::Exists)
    } else if l == "true"@ {
        Some(ConditionTest::True)
    } else if l == "false"@ {
        Some(ConditionTest::False)
    } else if l == "not"@ {
        Some(ConditionTest::Not)
    } else if l == "body"@ {
        Some(ConditionTest::Body)
    } else {
        None
    }
}

impl ConditionTest {
    pub fn as_sieve(&self) -> (r: &'static str)
        ensures
            r@ == sp_condition_test_name(*self),
    {
        match self {
            Self::Header => "header",
            Self::Address => "address",
            Self::Envelope => "envelope",
            Self::Size => "size",
            Self::Exists => "exists",
            Self::True => "true",
            Self::False => "false",
            Self::Not => "not",
            Self::Body => "body",
        }
    }

    pub fn from_sieve(s: &str) -> (r: Option<Self>)
        ensures
            r == sp_condition_test_from(s@),
    {
        if str_eq_lower(s, "header") {
            Some(Self::Header)
        } else if str_eq_lower(s, "address") {
            Some(Self::Address)
        } else if str_eq_lower(s, "envelope") {
            Some(Self::Envelope)
        } else if str_eq_lower(s, "size") {
            Some(Self::Size)
        } else if str_eq_lower(s, "exists") {
            Some(Self::Exists)
        } else if str_eq_lower(s, "true") {
            Some(Self::True)
        } else if str_eq_lower(s, "false") {
            Some(Self::False)
        } else if str_eq_lower(s, "not") {
            Some(Self::Not)
        } else if str_eq_lower(s, "body") {
            Some(Self::Body)
        } else {
            None
        }
    }
}

} // verus!
