//! AST node types for SIEVE scripts (RFC 5228), with their mathematical
//! mirrors over `Seq`.
//!
//! A complete SIEVE script is a list of commands. Every executable node type
//! has a view function onto its mirror; parser and emitter contracts are
//! stated over the mirrors.

use vstd::prelude::*;

verus! {

#[derive(Debug, PartialEq)]
pub struct Script {
    pub commands: Vec<Command>,
}

/// A top-level command in a SIEVE script.
#[derive(Debug, PartialEq)]
pub enum Command {
    /// `require ["ext1", "ext2"];`
    Require(Vec<String>),
    /// `if <test> { <actions> }` with optional elsif/else chain
    If(IfBlock),
    /// A simple action command like `keep;`, `stop;`, `fileinto "X";`
    Action(ActionCommand),
    /// A comment line: `# text`
    Comment(String),
    /// Unrecognized content preserved as raw text
    Raw(String),
}

#[derive(Debug, PartialEq)]
pub struct IfBlock {
    /// The filter name extracted from a preceding `# Filter: name` comment
    pub name: Option<String>,
    /// Whether the filter is enabled (`# Filter: name [DISABLED]` clears it)
    pub enabled: bool,
    pub condition: TestExpr,
    pub actions: Vec<ActionCommand>,
    /// elsif/else chain
    pub alternatives: Vec<Alternative>,
}

#[derive(Debug, PartialEq)]
pub enum Alternative {
    ElsIf { condition: TestExpr, actions: Vec<ActionCommand> },
    Else { actions: Vec<ActionCommand> },
}

/// A test expression in an if/elsif condition.
#[derive(Debug, PartialEq)]
pub enum TestExpr {
    /// `allof (test1, test2, ...)`
    AllOf(Vec<TestExpr>),
    /// `anyof (test1, test2, ...)`
    AnyOf(Vec<TestExpr>),
    /// `not <test>`
    Not(Box<TestExpr>),
    /// `header :match_type "Header" "value"`
    Header { match_type: String, header_names: Vec<String>, keys: Vec<String> },
    /// `address [:address_part] :match_type "Header" "value"`
    Address {
        address_part: Option<String>,
        match_type: String,
        header_names: Vec<String>,
        keys: Vec<String>,
    },
    /// `envelope [:address_part] :match_type "Header" "value"`
    Envelope {
        address_part: Option<String>,
        match_type: String,
        header_names: Vec<String>,
        keys: Vec<String>,
    },
    /// `size :over/:under <limit>`
    Size { comparator: String, limit: String },
    /// `exists "Header"`
    Exists { header_names: Vec<String> },
    /// `body :match_type "value"`
    Body { match_type: String, keys: Vec<String> },
    /// `true`
    True,
    /// `false`
    False,
}

#[derive(Debug, Clone, PartialEq)]
pub struct ActionCommand {
    pub name: String,
    pub arguments: Vec<Argument>,
}

#[derive(Debug, Clone, PartialEq)]
pub enum Argument {
    QuotedString(String),
    Number(String),
    Tag(String),
    StringList(Vec<String>),
}

// ---------------------------------------------------------------------------
// Mathematical mirrors
// ---------------------------------------------------------------------------

pub struct SpScript {
    pub commands: Seq<SpCommand>,
}

pub enum SpCommand {
    Require(Seq<Seq<char>>),
    If(SpIfBlock),
    Action(SpActionCommand),
    Comment(Seq<char>),
    Raw(Seq<char>),
}

pub struct SpIfBlock {
    pub name: Option<Seq<char>>,
    pub enabled: bool,
    pub condition: SpTestExpr,
    pub actions: Seq<SpActionCommand>,
    pub alternatives: Seq<SpAlternative>,
}

pub enum SpAlternative {
    ElsIf { condition: SpTestExpr, actions: Seq<SpActionCommand> },
    Else { actions: Seq<SpActionCommand> },
}

pub enum SpTestExpr {
    AllOf(Seq<SpTestExpr>),
    AnyOf(Seq<SpTestExpr>),
    Not(Box<SpTestExpr>),
    Header { match_type: Seq<char>, header_names: Seq<Seq<char>>, keys: Seq<Seq<char>> },
    Address {
        address_part: Option<Seq<char>>,
        match_type: Seq<char>,
        header_names: Seq<Seq<char>>,
        keys: Seq<Seq<char>>,
    },
    Envelope {
        address_part: Option<Seq<char>>,
        match_type: Seq<char>,
        header_names: Seq<Seq<char>>,
        keys: Seq<Seq<char>>,
    },
    Size { comparator: Seq<char>, limit: Seq<char> },
    Exists { header_names: Seq<Seq<char>> },
    Body { match_type: Seq<char>, keys: Seq<Seq<char>> },
    True,
    False,
}

pub struct SpActionCommand {
    pub name: Seq<char>,
    pub arguments: Seq<SpArgument>,
}

pub enum SpArgument {
    QuotedString(Seq<char>),
    Number(Seq<char>),
    Tag(Seq<char>),
    StringList(Seq<Seq<char>>),
}

// ---------------------------------------------------------------------------
// View functions
// ---------------------------------------------------------------------------

/// The view of a string vector.
pub open spec fn view_strings(v: Seq<String>) -> Seq<Seq<char>> {
    v.map_values(|s: String| s@)
}

/// The view of an optional string.
pub open spec fn view_opt_string(o: Option<String>) -> Option<Seq<char>> {
    match o {
        None => None,
        Some(s) => Some(s@),
    }
}

impl View for Argument {
    type V = SpArgument;

    open spec fn view(&self) -> SpArgument {
        match self {
            Argument::QuotedString(s) => SpArgument::QuotedString(s@),
            Argument::Number(s) => SpArgument::Number(s@),
            Argument::Tag(s) => SpArgument::Tag(s@),
            Argument::StringList(items) => SpArgument::StringList(view_strings(items@)),
        }
    }
}

impl View for ActionCommand {
    type V = SpActionCommand;

    open spec fn view(&self) -> SpActionCommand {
        SpActionCommand { name: self.name@, arguments: view_arguments(self.arguments@) }
    }
}

/// The view of an action-command vector.
pub open spec fn view_actions(v: Seq<ActionCommand>) -> Seq<SpActionCommand> {
    v.map_values(|a: ActionCommand| a@)
}

/// The view of an argument vector.
pub open spec fn view_arguments(v: Seq<Argument>) -> Seq<SpArgument> {
    v.map_values(|a: Argument| a@)
}

/// The view of an alternative vector.
pub open spec fn view_alternatives(v: Seq<Alternative>) -> Seq<SpAlternative> {
    v.map_values(|a: Alternative| a@)
}

/// The view of a command vector.
pub open spec fn view_commands(v: Seq<Command>) -> Seq<SpCommand> {
    v.map_values(|c: Command| c@)
}

/// The view of one test expression.
pub open spec fn view_test(t: TestExpr) -> SpTestExpr
    decreases t,
{
    match t {
        TestExpr::AllOf(ts) => SpTestExpr::AllOf(view_tests(ts@)),
        TestExpr::AnyOf(ts) => SpTestExpr::AnyOf(view_tests(ts@)),
        TestExpr::Not(inner) => SpTestExpr::Not(Box::new(view_test(*inner))),
        TestExpr::Header { match_type, header_names, keys } => SpTestExpr::Header {
            match_type: match_type@,
            header_names: view_strings(header_names@),
            keys: view_strings(keys@),
        },
        TestExpr::Address { address_part, match_type, header_names, keys } => SpTestExpr::Address {
            address_part: view_opt_string(address_part),
            match_type: match_type@,
            header_names: view_strings(header_names@),
            keys: view_strings(keys@),
        },
        TestExpr::Envelope { address_part, match_type, header_names, keys } => SpTestExpr::Envelope {
            address_part: view_opt_string(address_part),
            match_type: match_type@,
            header_names: view_strings(header_names@),
            keys: view_strings(keys@),
        },
        TestExpr::Size { comparator, limit } => SpTestExpr::Size {
            comparator: comparator@,
            limit: limit@,
        },
        TestExpr::Exists { header_names } => SpTestExpr::Exists {
            header_names: view_strings(header_names@),
        },
        TestExpr::Body { match_type, keys } => SpTestExpr::Body {
            match_type: match_type@,
            keys: view_strings(keys@),
        },
        TestExpr::True => SpTestExpr::True,
        TestExpr::False => SpTestExpr::False,
    }
}

/// The view of a test-expression sequence.
pub open spec fn view_tests(ts: Seq<TestExpr>) -> Seq<SpTestExpr>
    decreases ts,
{
    if ts.len() == 0 {
        Seq::empty()
    } else {
        seq![view_test(ts[0])] + view_tests(ts.drop_first())
    }
}

/// `view_tests` is the element-wise view.
pub proof fn lemma_view_tests(ts: Seq<TestExpr>)
    ensures
        view_tests(ts).len() == ts.len(),
        forall|i: int| 0 <= i < ts.len() ==> view_tests(ts)[i] == view_test(#[trigger] ts[i]),
    decreases ts.len(),
{
    if ts.len() > 0 {
        lemma_view_tests(ts.drop_first());
        assert forall|i: int| 0 <= i < ts.len() implies view_tests(ts)[i] == view_test(
            #[trigger] ts[i],
        ) by {
            if i > 0 {
                assert(ts.drop_first()[i - 1] == ts[i]);
                assert(view_tests(ts)[i] == view_tests(ts.drop_first())[i - 1]);
            }
        }
    }
}

/// `view_tests` distributes over push.
pub proof fn lemma_view_tests_push(ts: Seq<TestExpr>, t: TestExpr)
    ensures
        view_tests(ts.push(t)) == view_tests(ts).push(view_test(t)),
{
    lemma_view_tests(ts.push(t));
    lemma_view_tests(ts);
    assert forall|i: int| 0 <= i < ts.len() + 1 implies view_tests(ts.push(t))[i] == view_tests(
        ts,
    ).push(view_test(t))[i] by {
        assert(view_tests(ts.push(t))[i] == view_test(ts.push(t)[i]));
        if i < ts.len() {
            assert(ts.push(t)[i] == ts[i]);
        } else {
            assert(ts.push(t)[i] == t);
        }
    }
    assert(view_tests(ts.push(t)) =~= view_tests(ts).push(view_test(t)));
}

impl View for Alternative {
    type V = SpAlternative;

    open spec fn view(&self) -> SpAlternative {
        match self {
            Alternative::ElsIf { condition, actions } => SpAlternative::ElsIf {
                condition: view_test(*condition),
                actions: view_actions(actions@),
            },
            Alternative::Else { actions } => SpAlternative::Else {
                actions: view_actions(actions@),
            },
        }
    }
}

impl View for IfBlock {
    type V = SpIfBlock;

    open spec fn view(&self) -> SpIfBlock {
        SpIfBlock {
            name: view_opt_string(self.name),
            enabled: self.enabled,
            condition: view_test(self.condition),
            actions: view_actions(self.actions@),
            alternatives: view_alternatives(self.alternatives@),
        }
    }
}

impl View for Command {
    type V = SpCommand;

    open spec fn view(&self) -> SpCommand {
        match self {
            Command::Require(exts) => SpCommand::Require(view_strings(exts@)),
            Command::If(b) => SpCommand::If(b@),
            Command::Action(a) => SpCommand::Action(a@),
            Command::Comment(s) => SpCommand::Comment(s@),
            Command::Raw(s) => SpCommand::Raw(s@),
        }
    }
}

impl View for Script {
    type V = SpScript;

    open spec fn view(&self) -> SpScript {
        SpScript { commands: view_commands(self.commands@) }
    }
}


/// Prepending distributes over the string-vector view.
pub proof fn lemma_view_strings_prepend(s: Seq<String>, x: String)
    ensures
        view_strings(seq![x] + s) == seq![x@] + view_strings(s),
{
    let l = view_strings(seq![x] + s);
    let r = seq![x@] + view_strings(s);
    assert forall|i: int| 0 <= i < l.len() implies l[i] == r[i] by {
        if i == 0 {
            assert((seq![x] + s)[0] == x);
        } else {
            assert((seq![x] + s)[i] == s[i - 1]);
            assert(view_strings(s)[i - 1] == s[i - 1]@);
        }
    }
    assert(l =~= r);
}

/// Prepending distributes over the argument-vector view.
pub proof fn lemma_view_arguments_prepend(s: Seq<Argument>, x: Argument)
    ensures
        view_arguments(seq![x] + s) == seq![x@] + view_arguments(s),
{
    let l = view_arguments(seq![x] + s);
    let r = seq![x@] + view_arguments(s);
    assert forall|i: int| 0 <= i < l.len() implies l[i] == r[i] by {
        if i == 0 {
            assert((seq![x] + s)[0] == x);
        } else {
            assert((seq![x] + s)[i] == s[i - 1]);
            assert(view_arguments(s)[i - 1] == s[i - 1]@);
        }
    }
    assert(l =~= r);
}

/// Prepending distributes over the action-command-vector view.
pub proof fn lemma_view_actions_prepend(s: Seq<ActionCommand>, x: ActionCommand)
    ensures
        view_actions(seq![x] + s) == seq![x@] + view_actions(s),
{
    let l = view_actions(seq![x] + s);
    let r = seq![x@] + view_actions(s);
    assert forall|i: int| 0 <= i < l.len() implies l[i] == r[i] by {
        if i == 0 {
            assert((seq![x] + s)[0] == x);
        } else {
            assert((seq![x] + s)[i] == s[i - 1]);
            assert(view_actions(s)[i - 1] == s[i - 1]@);
        }
    }
    assert(l =~= r);
}

/// Prepending distributes over the alternative-vector view.
pub proof fn lemma_view_alternatives_prepend(s: Seq<Alternative>, x: Alternative)
    ensures
        view_alternatives(seq![x] + s) == seq![x@] + view_alternatives(s),
{
    let l = view_alternatives(seq![x] + s);
    let r = seq![x@] + view_alternatives(s);
    assert forall|i: int| 0 <= i < l.len() implies l[i] == r[i] by {
        if i == 0 {
            assert((seq![x] + s)[0] == x);
        } else {
            assert((seq![x] + s)[i] == s[i - 1]);
            assert(view_alternatives(s)[i - 1] == s[i - 1]@);
        }
    }
    assert(l =~= r);
}

/// Prepending distributes over the command-vector view.
pub proof fn lemma_view_commands_prepend(s: Seq<Command>, x: Command)
    ensures
        view_commands(seq![x] + s) == seq![x@] + view_commands(s),
{
    let l = view_commands(seq![x] + s);
    let r = seq![x@] + view_commands(s);
    assert forall|i: int| 0 <= i < l.len() implies l[i] == r[i] by {
        if i == 0 {
            assert((seq![x] + s)[0] == x);
        } else {
            assert((seq![x] + s)[i] == s[i - 1]);
            assert(view_commands(s)[i - 1] == s[i - 1]@);
        }
    }
    assert(l =~= r);
}

/// Prepending distributes over the test-expression view.
pub proof fn lemma_view_tests_prepend(ts: Seq<TestExpr>, t: TestExpr)
    ensures
        view_tests(seq![t] + ts) == seq![view_test(t)] + view_tests(ts),
{
    let s = seq![t] + ts;
    assert(s.len() == ts.len() + 1);
    assert(s[0] == t);
    assert(s.drop_first() =~= ts);
    assert(view_tests(s) == seq![view_test(s[0])] + view_tests(s.drop_first()));
}


/// Pushing distributes over the command-vector view.
pub proof fn lemma_view_commands_push(s: Seq<Command>, x: Command)
    ensures
        view_commands(s.push(x)) == view_commands(s).push(x@),
{
    let l = view_commands(s.push(x));
    let r = view_commands(s).push(x@);
    assert forall|i: int| 0 <= i < l.len() implies l[i] == r[i] by {
        if i < s.len() {
            assert(s.push(x)[i] == s[i]);
            assert(view_commands(s)[i] == s[i]@);
        } else {
            assert(s.push(x)[i] == x);
        }
    }
    assert(l =~= r);
}

/// Pushing distributes over the action-command-vector view.
pub proof fn lemma_view_actions_push(s: Seq<ActionCommand>, x: ActionCommand)
    ensures
        view_actions(s.push(x)) == view_actions(s).push(x@),
{
    let l = view_actions(s.push(x));
    let r = view_actions(s).push(x@);
    assert forall|i: int| 0 <= i < l.len() implies l[i] == r[i] by {
        if i < s.len() {
            assert(s.push(x)[i] == s[i]);
            assert(view_actions(s)[i] == s[i]@);
        } else {
            assert(s.push(x)[i] == x);
        }
    }
    assert(l =~= r);
}

} // verus!
