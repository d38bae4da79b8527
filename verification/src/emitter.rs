//! Emit SIEVE script text from AST nodes.
//!
//! `sp_emit` is the specification: a total function from the AST mirror to
//! the script text. All `require` extensions are merged into one leading
//! statement, de-duplicated in first-seen order; `compute_requires` derives
//! the extensions a script needs from its tests and actions, in sorted
//! order.

use vstd::prelude::*;
use crate::ast::{
    ActionCommand, Alternative, Argument, Command, IfBlock, Script, SpActionCommand,
    SpAlternative, SpArgument, SpCommand, SpIfBlock, SpTestExpr, TestExpr, lemma_view_tests,
    view_actions, view_alternatives, view_arguments, view_commands, view_strings, view_test,
    view_tests,
};
use crate::strutil::{chars_to_string, push_str, str_eq, str_eq_lower, sp_lower};

verus! {

broadcast use vstd::string::group_string_axioms;

// ---------------------------------------------------------------------------
// Specification emitter
// ---------------------------------------------------------------------------

/// The escaped form of one character inside a quoted string.
pub open spec fn sp_esc_char(c: char) -> Seq<char> {
    if c == '\\' {
        seq!['\\', '\\']
    } else if c == '"' {
        seq!['\\', '"']
    } else {
        seq![c]
    }
}

/// Escape backslashes and double quotes.
pub open spec fn sp_escape(s: Seq<char>) -> Seq<char>
    decreases s.len(),
{
    if s.len() == 0 {
        Seq::empty()
    } else {
        sp_esc_char(s[0]) + sp_escape(s.drop_first())
    }
}

/// A quoted, escaped string literal.
pub open spec fn sp_quote(s: Seq<char>) -> Seq<char> {
    seq!['"'] + sp_escape(s) + seq!['"']
}

/// Elements of a bracketed list from index `i` on, comma-separated.
pub open spec fn sp_sol_items(items: Seq<Seq<char>>, i: int) -> Seq<char>
    decreases items.len() - i,
{
    if i < 0 || i >= items.len() {
        Seq::empty()
    } else {
        (if i > 0 {
            ", "@
        } else {
            Seq::empty()
        }) + sp_quote(items[i]) + sp_sol_items(items, i + 1)
    }
}

/// A single quoted string when the list has exactly one element, a
/// bracketed list otherwise.
pub open spec fn sp_emit_sol(items: Seq<Seq<char>>) -> Seq<char> {
    if items.len() == 1 {
        sp_quote(items[0])
    } else {
        seq!['['] + sp_sol_items(items, 0) + seq![']']
    }
}

/// Four spaces per indentation level.
pub open spec fn sp_indent(ind: int) -> Seq<char>
    decreases ind,
{
    if ind <= 0 {
        Seq::empty()
    } else {
        "    "@ + sp_indent(ind - 1)
    }
}

/// The text of one action argument.
pub open spec fn sp_arg_text(a: SpArgument) -> Seq<char> {
    match a {
        SpArgument::QuotedString(s) => sp_quote(s),
        SpArgument::Number(n) => n,
        SpArgument::Tag(t) => t,
        SpArgument::StringList(items) => sp_emit_sol(items),
    }
}

/// Action arguments from index `i` on, each preceded by a space.
pub open spec fn sp_emit_args(args: Seq<SpArgument>, i: int) -> Seq<char>
    decreases args.len() - i,
{
    if i < 0 || i >= args.len() {
        Seq::empty()
    } else {
        seq![' '] + sp_arg_text(args[i]) + sp_emit_args(args, i + 1)
    }
}

/// One action command line.
pub open spec fn sp_emit_action(a: SpActionCommand, ind: int) -> Seq<char> {
    sp_indent(ind) + a.name + sp_emit_args(a.arguments, 0) + ";\n"@
}

/// Action command lines from index `i` on.
pub open spec fn sp_emit_actions(acts: Seq<SpActionCommand>, ind: int, i: int) -> Seq<char>
    decreases acts.len() - i,
{
    if i < 0 || i >= acts.len() {
        Seq::empty()
    } else {
        sp_emit_action(acts[i], ind) + sp_emit_actions(acts, ind, i + 1)
    }
}

/// The text of one test expression.
pub open spec fn sp_emit_test(e: SpTestExpr) -> Seq<char>
    decreases e, 0int,
{
    match e {
        SpTestExpr::AllOf(ts) => "allof ("@ + sp_emit_tests(ts, 0) + seq![')'],
        SpTestExpr::AnyOf(ts) => "anyof ("@ + sp_emit_tests(ts, 0) + seq![')'],
        SpTestExpr::Not(inner) => "not "@ + sp_emit_test(*inner),
        SpTestExpr::Header { match_type, header_names, keys } => "header "@ + match_type
            + seq![' '] + sp_emit_sol(header_names) + seq![' '] + sp_emit_sol(keys),
        SpTestExpr::Address { address_part, match_type, header_names, keys } => "address "@
            + match_type + sp_emit_addr_part(address_part) + seq![' '] + sp_emit_sol(header_names)
            + seq![' '] + sp_emit_sol(keys),
        SpTestExpr::Envelope { address_part, match_type, header_names, keys } => "envelope "@
            + match_type + sp_emit_addr_part(address_part) + seq![' '] + sp_emit_sol(header_names)
            + seq![' '] + sp_emit_sol(keys),
        SpTestExpr::Size { comparator, limit } => "size "@ + comparator + seq![' '] + limit,
        SpTestExpr::Exists { header_names } => "exists "@ + sp_emit_sol(header_names),
        SpTestExpr::Body { match_type, keys } => "body "@ + match_type + seq![' '] + sp_emit_sol(
            keys,
        ),
        SpTestExpr::True => "true"@,
        SpTestExpr::False => "false"@,
    }
}

/// The optional address-part tag; `:all` is the default and is omitted.
pub open spec fn sp_emit_addr_part(ap: Option<Seq<char>>) -> Seq<char> {
    match ap {
        Some(t) => if t == ":all"@ {
            Seq::empty()
        } else {
            seq![' '] + t
        },
        None => Seq::empty(),
    }
}

/// Comma-separated test expressions from index `i` on.
pub open spec fn sp_emit_tests(ts: Seq<SpTestExpr>, i: int) -> Seq<char>
    decreases ts, ts.len() - i,
{
    if i < 0 || i >= ts.len() {
        Seq::empty()
    } else {
        (if i > 0 {
            ", "@
        } else {
            Seq::empty()
        }) + sp_emit_test(ts[i]) + sp_emit_tests(ts, i + 1)
    }
}

/// The elsif/else chain from index `i` on.
pub open spec fn sp_emit_alts(alts: Seq<SpAlternative>, i: int) -> Seq<char>
    decreases alts.len() - i,
{
    if i < 0 || i >= alts.len() {
        Seq::empty()
    } else {
        (match alts[i] {
            SpAlternative::ElsIf { condition, actions } => " elsif "@ + sp_emit_test(condition)
                + " {\n"@ + sp_emit_actions(actions, 1, 0) + seq!['}'],
            SpAlternative::Else { actions } => " else {\n"@ + sp_emit_actions(actions, 1, 0)
                + seq!['}'],
        }) + sp_emit_alts(alts, i + 1)
    }
}

/// The metadata comment of an `if` block, when it has a name.
pub open spec fn sp_emit_if_header(b: SpIfBlock) -> Seq<char> {
    match b.name {
        Some(nm) => if b.enabled {
            "# Filter: "@ + nm + seq!['\n']
        } else {
            "# Filter: "@ + nm + " [DISABLED]\n"@
        },
        None => Seq::empty(),
    }
}

/// A whole `if` block: metadata comment, condition, primary block,
/// elsif/else chain.
pub open spec fn sp_emit_if(b: SpIfBlock) -> Seq<char> {
    sp_emit_if_header(b) + "if "@ + sp_emit_test(b.condition) + " {\n"@ + sp_emit_actions(
        b.actions,
        1,
        0,
    ) + seq!['}'] + sp_emit_alts(b.alternatives, 0) + seq!['\n']
}

/// Append the not-yet-seen extensions of `exts` (from index `i`) to `acc`.
pub open spec fn sp_add_new(acc: Seq<Seq<char>>, exts: Seq<Seq<char>>, i: int) -> Seq<Seq<char>>
    decreases exts.len() - i,
{
    if i < 0 || i >= exts.len() {
        acc
    } else {
        let acc2 = if acc.contains(exts[i]) {
            acc
        } else {
            acc.push(exts[i])
        };
        sp_add_new(acc2, exts, i + 1)
    }
}

/// All `require` extensions of the script, de-duplicated in first-seen
/// order.
pub open spec fn sp_all_requires(cmds: Seq<SpCommand>, acc: Seq<Seq<char>>, i: int) -> Seq<
    Seq<char>,
>
    decreases cmds.len() - i,
{
    if i < 0 || i >= cmds.len() {
        acc
    } else {
        let acc2 = match cmds[i] {
            SpCommand::Require(exts) => sp_add_new(acc, exts, 0),
            _ => acc,
        };
        sp_all_requires(cmds, acc2, i + 1)
    }
}

/// A require name in quotes; `require` names are emitted verbatim.
pub open spec fn sp_req_quote(r: Seq<char>) -> Seq<char> {
    seq!['"'] + r + seq!['"']
}

/// Quoted require names from index `i` on, comma-separated.
pub open spec fn sp_req_items(reqs: Seq<Seq<char>>, i: int) -> Seq<char>
    decreases reqs.len() - i,
{
    if i < 0 || i >= reqs.len() {
        Seq::empty()
    } else {
        (if i > 0 {
            ", "@
        } else {
            Seq::empty()
        }) + sp_req_quote(reqs[i]) + sp_req_items(reqs, i + 1)
    }
}

/// The single merged `require` statement, or nothing.
pub open spec fn sp_emit_requires(reqs: Seq<Seq<char>>) -> Seq<char> {
    if reqs.len() == 0 {
        Seq::empty()
    } else if reqs.len() == 1 {
        "require "@ + sp_req_quote(reqs[0]) + ";\n"@
    } else {
        "require ["@ + sp_req_items(reqs, 0) + "];\n"@
    }
}

/// The command lines from index `i` on. `first` tracks whether a blank-line
/// separator is owed before the next `if` or raw block; `Require` commands
/// were already merged and are skipped.
pub open spec fn sp_emit_cmds(cmds: Seq<SpCommand>, first: bool, i: int) -> Seq<char>
    decreases cmds.len() - i,
{
    if i < 0 || i >= cmds.len() {
        Seq::empty()
    } else {
        match cmds[i] {
            SpCommand::Require(_) => sp_emit_cmds(cmds, first, i + 1),
            SpCommand::If(b) => (if !first {
                seq!['\n']
            } else {
                Seq::empty()
            }) + sp_emit_if(b) + sp_emit_cmds(cmds, false, i + 1),
            SpCommand::Action(a) => sp_emit_action(a, 0) + sp_emit_cmds(cmds, false, i + 1),
            SpCommand::Comment(text) => "# "@ + text + seq!['\n'] + sp_emit_cmds(cmds, first, i + 1),
            SpCommand::Raw(text) => (if !first {
                seq!['\n']
            } else {
                Seq::empty()
            }) + text + seq!['\n'] + sp_emit_cmds(cmds, false, i + 1),
        }
    }
}

/// The full text of a script: the merged `require` statement, then every
/// other command in order.
pub open spec fn sp_emit(sc: crate::ast::SpScript) -> Seq<char> {
    let reqs = sp_all_requires(sc.commands, Seq::empty(), 0);
    sp_emit_requires(reqs) + sp_emit_cmds(sc.commands, reqs.len() == 0, 0)
}

// ---------------------------------------------------------------------------
// Required extensions of an AST
// ---------------------------------------------------------------------------

/// Which extensions a script needs.
pub struct SpNeeds {
    pub fileinto: bool,
    pub reject: bool,
    pub imap4flags: bool,
    pub body: bool,
    pub envelope: bool,
    pub regex: bool,
}

/// No needs at all.
pub open spec fn sp_needs_none() -> SpNeeds {
    SpNeeds {
        fileinto: false,
        reject: false,
        imap4flags: false,
        body: false,
        envelope: false,
        regex: false,
    }
}

/// Component-wise disjunction.
pub open spec fn sp_needs_or(a: SpNeeds, b: SpNeeds) -> SpNeeds {
    SpNeeds {
        fileinto: a.fileinto || b.fileinto,
        reject: a.reject || b.reject,
        imap4flags: a.imap4flags || b.imap4flags,
        body: a.body || b.body,
        envelope: a.envelope || b.envelope,
        regex: a.regex || b.regex,
    }
}

/// What one test needs: `envelope`, `body`, or `regex` for a `:regex`
/// match type on `header`/`address`.
pub open spec fn sp_needs_test(e: SpTestExpr) -> SpNeeds
    decreases e, 0int,
{
    match e {
        SpTestExpr::AllOf(ts) => sp_needs_tests(ts, 0),
        SpTestExpr::AnyOf(ts) => sp_needs_tests(ts, 0),
        SpTestExpr::Not(inner) => sp_needs_test(*inner),
        SpTestExpr::Envelope { .. } => SpNeeds { envelope: true, ..sp_needs_none() },
        SpTestExpr::Body { .. } => SpNeeds { body: true, ..sp_needs_none() },
        SpTestExpr::Header { match_type, .. } => if match_type == ":regex"@ {
            SpNeeds { regex: true, ..sp_needs_none() }
        } else {
            sp_needs_none()
        },
        SpTestExpr::Address { match_type, .. } => if match_type == ":regex"@ {
            SpNeeds { regex: true, ..sp_needs_none() }
        } else {
            sp_needs_none()
        },
        _ => sp_needs_none(),
    }
}

/// What a test list needs, from index `i` on.
pub open spec fn sp_needs_tests(ts: Seq<SpTestExpr>, i: int) -> SpNeeds
    decreases ts, ts.len() - i,
{
    if i < 0 || i >= ts.len() {
        sp_needs_none()
    } else {
        sp_needs_or(sp_needs_test(ts[i]), sp_needs_tests(ts, i + 1))
    }
}

/// What one action command needs, by its (case-insensitive) name.
pub open spec fn sp_needs_action(a: SpActionCommand) -> SpNeeds {
    let l = sp_lower(a.name);
    if l == "fileinto"@ {
        SpNeeds { fileinto: true, ..sp_needs_none() }
    } else if l == "reject"@ {
        SpNeeds { reject: true, ..sp_needs_none() }
    } else if l == "setflag"@ || l == "addflag"@ || l == "removeflag"@ {
        SpNeeds { imap4flags: true, ..sp_needs_none() }
    } else {
        sp_needs_none()
    }
}

/// What an action list needs, from index `i` on.
pub open spec fn sp_needs_actions(acts: Seq<SpActionCommand>, i: int) -> SpNeeds
    decreases acts.len() - i,
{
    if i < 0 || i >= acts.len() {
        sp_needs_none()
    } else {
        sp_needs_or(sp_needs_action(acts[i]), sp_needs_actions(acts, i + 1))
    }
}

/// What an elsif/else chain needs, from index `i` on.
pub open spec fn sp_needs_alts(alts: Seq<SpAlternative>, i: int) -> SpNeeds
    decreases alts.len() - i,
{
    if i < 0 || i >= alts.len() {
        sp_needs_none()
    } else {
        let n = match alts[i] {
            SpAlternative::ElsIf { condition, actions } => sp_needs_or(
                sp_needs_test(condition),
                sp_needs_actions(actions, 0),
            ),
            SpAlternative::Else { actions } => sp_needs_actions(actions, 0),
        };
        sp_needs_or(n, sp_needs_alts(alts, i + 1))
    }
}

/// What the whole command list needs, from index `i` on.
pub open spec fn sp_needs_cmds(cmds: Seq<SpCommand>, i: int) -> SpNeeds
    decreases cmds.len() - i,
{
    if i < 0 || i >= cmds.len() {
        sp_needs_none()
    } else {
        let n = match cmds[i] {
            SpCommand::If(b) => sp_needs_or(
                sp_needs_or(sp_needs_test(b.condition), sp_needs_actions(b.actions, 0)),
                sp_needs_alts(b.alternatives, 0),
            ),
            SpCommand::Action(a) => sp_needs_action(a),
            _ => sp_needs_none(),
        };
        sp_needs_or(n, sp_needs_cmds(cmds, i + 1))
    }
}

/// The extension names a needs-set stands for, in sorted order.
pub open spec fn sp_needs_list(n: SpNeeds) -> Seq<Seq<char>> {
    (if n.body {
        seq!["body"@]
    } else {
        Seq::empty()
    }) + (if n.envelope {
        seq!["envelope"@]
    } else {
        Seq::empty()
    }) + (if n.fileinto {
        seq!["fileinto"@]
    } else {
        Seq::empty()
    }) + (if n.imap4flags {
        seq!["imap4flags"@]
    } else {
        Seq::empty()
    }) + (if n.regex {
        seq!["regex"@]
    } else {
        Seq::empty()
    }) + (if n.reject {
        seq!["reject"@]
    } else {
        Seq::empty()
    })
}

/// The `require` extensions a script's AST needs, in sorted order.
pub open spec fn sp_compute_requires(sc: crate::ast::SpScript) -> Seq<Seq<char>> {
    sp_needs_list(sp_needs_cmds(sc.commands, 0))
}

// ---------------------------------------------------------------------------
// Executable emitter
// ---------------------------------------------------------------------------

/// Append an escaped, quoted string literal.
fn push_quoted(out: &mut Vec<char>, s: &String)
    ensures
        final(out)@ == old(out)@ + sp_quote(s@),
{
    out.push('"');
    let ghost mid0 = out@;
    proof {
        assert(s@.skip(0) =~= s@);
    }
    let chars = crate::strutil::to_chars(s.as_str());
    let n = chars.len();
    let mut i: usize = 0;
    while i < n
        invariant
            i <= n,
            n == chars@.len(),
            chars@ == s@,
            mid0 + sp_escape(s@) == out@ + sp_escape(s@.skip(i as int)),
        decreases n - i,
    {
        let c = chars[i];
        let ghost pre = out@;
        if c == '\\' {
            out.push('\\');
            out.push('\\');
        } else if c == '"' {
            out.push('\\');
            out.push('"');
        } else {
            out.push(c);
        }
        proof {
            assert(s@.skip(i as int)[0] == s@[i as int]);
            assert(s@.skip(i as int).drop_first() =~= s@.skip(i + 1));
            assert(sp_escape(s@.skip(i as int)) == sp_esc_char(s@[i as int]) + sp_escape(
                s@.skip(i + 1),
            ));
            assert(out@ =~= pre + sp_esc_char(s@[i as int]));
            assert(pre + (sp_esc_char(s@[i as int]) + sp_escape(s@.skip(i + 1))) =~= out@
                + sp_escape(s@.skip(i + 1)));
        }
        i += 1;
    }
    proof {
        assert(s@.skip(n as int) =~= Seq::<char>::empty());
        assert(sp_escape(Seq::<char>::empty()) =~= Seq::<char>::empty());
        assert(out@ + Seq::<char>::empty() =~= out@);
    }
    out.push('"');
    proof {
        assert(old(out)@ + sp_quote(s@) =~= ((old(out)@ + seq!['"']) + sp_escape(s@)) + seq![
            '"',
        ]);
        assert(final(out)@ =~= old(out)@ + sp_quote(s@));
    }
}

/// Append one quoted string or a bracketed list of them.
fn emit_string_or_list(out: &mut Vec<char>, items: &Vec<String>)
    ensures
        final(out)@ == old(out)@ + sp_emit_sol(view_strings(items@)),
{
    let ghost iv = view_strings(items@);
    let n = items.len();
    if n == 1 {
        push_quoted(out, &items[0]);
        proof {
            assert(iv[0] == items@[0]@);
        }
        return ;
    }
    out.push('[');
    let mut i: usize = 0;
    while i < n
        invariant
            i <= n,
            n == items@.len(),
            iv == view_strings(items@),
            n != 1,
            old(out)@ + seq!['['] + sp_sol_items(iv, 0) == out@ + sp_sol_items(iv, i as int),
        decreases n - i,
    {
        let ghost pre = out@;
        if i > 0 {
            push_str(out, ", ");
        }
        push_quoted(out, &items[i]);
        proof {
            assert(iv[i as int] == items@[i as int]@);
            assert(sp_sol_items(iv, i as int) == (if i > 0 {
                ", "@
            } else {
                Seq::<char>::empty()
            }) + sp_quote(iv[i as int]) + sp_sol_items(iv, i + 1));
            assert(out@ =~= pre + (if i > 0 {
                ", "@
            } else {
                Seq::<char>::empty()
            }) + sp_quote(iv[i as int]));
            assert(pre + sp_sol_items(iv, i as int) =~= out@ + sp_sol_items(iv, i + 1));
        }
        i += 1;
    }
    proof {
        assert(sp_sol_items(iv, n as int) =~= Seq::<char>::empty());
        assert(out@ + Seq::<char>::empty() =~= out@);
    }
    out.push(']');
    proof {
        assert(old(out)@ + sp_emit_sol(iv) =~= ((old(out)@ + seq!['[']) + sp_sol_items(iv, 0))
            + seq![']']);
        assert(final(out)@ =~= old(out)@ + sp_emit_sol(iv));
    }
}

/// Append one action command line.
fn emit_action(out: &mut Vec<char>, action: &ActionCommand, indent: usize)
    ensures
        final(out)@ == old(out)@ + sp_emit_action(action@, indent as int),
{
    let ghost av = action@;
    let mut k: usize = 0;
    while k < indent
        invariant
            k <= indent,
            old(out)@ + sp_indent(indent as int) == out@ + sp_indent(indent as int - k),
        decreases indent - k,
    {
        let ghost pre = out@;
        push_str(out, "    ");
        proof {
            assert(sp_indent(indent as int - k) == "    "@ + sp_indent(indent as int - k - 1));
            assert(pre + sp_indent(indent as int - k) =~= out@ + sp_indent(
                indent as int - (k + 1),
            ));
        }
        k += 1;
    }
    proof {
        assert(sp_indent(0) =~= Seq::<char>::empty());
        assert(out@ + Seq::<char>::empty() =~= out@);
    }
    push_str(out, action.name.as_str());
    let ghost args = av.arguments;
    let n = action.arguments.len();
    let mut i: usize = 0;
    while i < n
        invariant
            i <= n,
            n == action.arguments@.len(),
            args == view_arguments(action.arguments@),
            old(out)@ + sp_indent(indent as int) + action.name@ + sp_emit_args(args, 0) == out@
                + sp_emit_args(args, i as int),
        decreases n - i,
    {
        let ghost pre = out@;
        out.push(' ');
        match &action.arguments[i] {
            Argument::QuotedString(s) => {
                push_quoted(out, s);
            },
            Argument::Number(num) => {
                push_str(out, num.as_str());
            },
            Argument::Tag(t) => {
                push_str(out, t.as_str());
            },
            Argument::StringList(items) => {
                emit_string_or_list(out, items);
            },
        }
        proof {
            assert(args[i as int] == action.arguments@[i as int]@);
            assert(sp_emit_args(args, i as int) == seq![' '] + sp_arg_text(args[i as int])
                + sp_emit_args(args, i + 1));
            assert(out@ =~= pre + seq![' '] + sp_arg_text(args[i as int]));
            assert(pre + sp_emit_args(args, i as int) =~= out@ + sp_emit_args(args, i + 1));
        }
        i += 1;
    }
    proof {
        assert(sp_emit_args(args, n as int) =~= Seq::<char>::empty());
        assert(out@ + Seq::<char>::empty() =~= out@);
    }
    push_str(out, ";\n");
    proof {
        assert(old(out)@ + sp_emit_action(av, indent as int) =~= (((old(out)@ + sp_indent(
            indent as int,
        )) + action.name@) + sp_emit_args(args, 0)) + ";\n"@);
        assert(final(out)@ =~= old(out)@ + sp_emit_action(av, indent as int));
    }
}

/// Append action command lines.
fn emit_actions(out: &mut Vec<char>, actions: &Vec<ActionCommand>, indent: usize)
    ensures
        final(out)@ == old(out)@ + sp_emit_actions(view_actions(actions@), indent as int, 0),
{
    let ghost av = view_actions(actions@);
    let n = actions.len();
    let mut i: usize = 0;
    while i < n
        invariant
            i <= n,
            n == actions@.len(),
            av == view_actions(actions@),
            old(out)@ + sp_emit_actions(av, indent as int, 0) == out@ + sp_emit_actions(
                av,
                indent as int,
                i as int,
            ),
        decreases n - i,
    {
        let ghost pre = out@;
        emit_action(out, &actions[i], indent);
        proof {
            assert(av[i as int] == actions@[i as int]@);
            assert(sp_emit_actions(av, indent as int, i as int) == sp_emit_action(
                av[i as int],
                indent as int,
            ) + sp_emit_actions(av, indent as int, i + 1));
            assert(pre + sp_emit_actions(av, indent as int, i as int) =~= out@ + sp_emit_actions(
                av,
                indent as int,
                i + 1,
            ));
        }
        i += 1;
    }
    proof {
        assert(sp_emit_actions(av, indent as int, n as int) =~= Seq::<char>::empty());
        assert(final(out)@ =~= old(out)@ + sp_emit_actions(av, indent as int, 0));
    }
}

/// Append the text of one test expression.
fn emit_test_expr(out: &mut Vec<char>, expr: &TestExpr)
    ensures
        final(out)@ == old(out)@ + sp_emit_test(view_test(*expr)),
    decreases expr, 0int,
{
    let ghost ev = view_test(*expr);
    match expr {
        TestExpr::AllOf(tests) => {
            push_str(out, "allof (");
            emit_tests_from(out, tests, 0);
            out.push(')');
            proof {
                assert(final(out)@ =~= old(out)@ + sp_emit_test(ev));
            }
        },
        TestExpr::AnyOf(tests) => {
            push_str(out, "anyof (");
            emit_tests_from(out, tests, 0);
            out.push(')');
            proof {
                assert(final(out)@ =~= old(out)@ + sp_emit_test(ev));
            }
        },
        TestExpr::Not(inner) => {
            push_str(out, "not ");
            emit_test_expr(out, inner);
            proof {
                assert(final(out)@ =~= old(out)@ + sp_emit_test(ev));
            }
        },
        TestExpr::Header { match_type, header_names, keys } => {
            push_str(out, "header ");
            push_str(out, match_type.as_str());
            out.push(' ');
            emit_string_or_list(out, header_names);
            out.push(' ');
            emit_string_or_list(out, keys);
            proof {
                assert(final(out)@ =~= old(out)@ + sp_emit_test(ev));
            }
        },
        TestExpr::Address { address_part, match_type, header_names, keys } => {
            push_str(out, "address ");
            push_str(out, match_type.as_str());
            emit_addr_part(out, address_part);
            out.push(' ');
            emit_string_or_list(out, header_names);
            out.push(' ');
            emit_string_or_list(out, keys);
            proof {
                assert(final(out)@ =~= old(out)@ + sp_emit_test(ev));
            }
        },
        TestExpr::Envelope { address_part, match_type, header_names, keys } => {
            push_str(out, "envelope ");
            push_str(out, match_type.as_str());
            emit_addr_part(out, address_part);
            out.push(' ');
            emit_string_or_list(out, header_names);
            out.push(' ');
            emit_string_or_list(out, keys);
            proof {
                assert(final(out)@ =~= old(out)@ + sp_emit_test(ev));
            }
        },
        TestExpr::Size { comparator, limit } => {
            push_str(out, "size ");
            push_str(out, comparator.as_str());
            out.push(' ');
            push_str(out, limit.as_str());
            proof {
                assert(final(out)@ =~= old(out)@ + sp_emit_test(ev));
            }
        },
        TestExpr::Exists { header_names } => {
            push_str(out, "exists ");
            emit_string_or_list(out, header_names);
            proof {
                assert(final(out)@ =~= old(out)@ + sp_emit_test(ev));
            }
        },
        TestExpr::Body { match_type, keys } => {
            push_str(out, "body ");
            push_str(out, match_type.as_str());
            out.push(' ');
            emit_string_or_list(out, keys);
            proof {
                assert(final(out)@ =~= old(out)@ + sp_emit_test(ev));
            }
        },
        TestExpr::True => {
            push_str(out, "true");
        },
        TestExpr::False => {
            push_str(out, "false");
        },
    }
}

/// Append an optional address-part tag; `:all` is the default and omitted.
fn emit_addr_part(out: &mut Vec<char>, ap: &Option<String>)
    ensures
        final(out)@ == old(out)@ + sp_emit_addr_part(crate::ast::view_opt_string(*ap)),
{
    match ap {
        Some(t) => {
            if !str_eq(t.as_str(), ":all") {
                out.push(' ');
                push_str(out, t.as_str());
                proof {
                    assert(final(out)@ =~= old(out)@ + (seq![' '] + t@));
                }
            }
        },
        None => {},
    }
}

/// Append comma-separated test expressions from index `i` on.
fn emit_tests_from(out: &mut Vec<char>, tests: &Vec<TestExpr>, i: usize)
    requires
        i <= tests@.len(),
    ensures
        final(out)@ == old(out)@ + sp_emit_tests(view_tests(tests@), i as int),
    decreases tests, tests@.len() - i,
{
    let ghost tv = view_tests(tests@);
    proof {
        lemma_view_tests(tests@);
    }
    let n = tests.len();
    if i >= n {
        proof {
            assert(old(out)@ + Seq::<char>::empty() =~= old(out)@);
        }
        return ;
    }
    if i > 0 {
        push_str(out, ", ");
    }
    emit_test_expr(out, &tests[i]);
    emit_tests_from(out, tests, i + 1);
    proof {
        assert(tv[i as int] == view_test(tests@[i as int]));
        assert(sp_emit_tests(tv, i as int) == (if i > 0 {
            ", "@
        } else {
            Seq::<char>::empty()
        }) + sp_emit_test(tv[i as int]) + sp_emit_tests(tv, i + 1));
        assert(final(out)@ =~= old(out)@ + sp_emit_tests(tv, i as int));
    }
}

/// Append the elsif/else chain.
fn emit_alternatives(out: &mut Vec<char>, alts: &Vec<Alternative>)
    ensures
        final(out)@ == old(out)@ + sp_emit_alts(view_alternatives(alts@), 0),
{
    let ghost av = view_alternatives(alts@);
    let n = alts.len();
    let mut i: usize = 0;
    while i < n
        invariant
            i <= n,
            n == alts@.len(),
            av == view_alternatives(alts@),
            old(out)@ + sp_emit_alts(av, 0) == out@ + sp_emit_alts(av, i as int),
        decreases n - i,
    {
        let ghost pre = out@;
        match &alts[i] {
            Alternative::ElsIf { condition, actions } => {
                push_str(out, " elsif ");
                emit_test_expr(out, condition);
                push_str(out, " {\n");
                emit_actions(out, actions, 1);
                out.push('}');
            },
            Alternative::Else { actions } => {
                push_str(out, " else {\n");
                emit_actions(out, actions, 1);
                out.push('}');
            },
        }
        proof {
            assert(av[i as int] == alts@[i as int]@);
            assert(sp_emit_alts(av, i as int) == (match av[i as int] {
                SpAlternative::ElsIf { condition, actions } => " elsif "@ + sp_emit_test(condition)
                    + " {\n"@ + sp_emit_actions(actions, 1, 0) + seq!['}'],
                SpAlternative::Else { actions } => " else {\n"@ + sp_emit_actions(actions, 1, 0)
                    + seq!['}'],
            }) + sp_emit_alts(av, i + 1));
            assert(pre + sp_emit_alts(av, i as int) =~= out@ + sp_emit_alts(av, i + 1));
        }
        i += 1;
    }
    proof {
        assert(sp_emit_alts(av, n as int) =~= Seq::<char>::empty());
        assert(final(out)@ =~= old(out)@ + sp_emit_alts(av, 0));
    }
}

/// Append a whole `if` block, metadata comment included.
pub(crate) fn emit_if_block(out: &mut Vec<char>, block: &IfBlock)
    ensures
        final(out)@ == old(out)@ + sp_emit_if(block@),
{
    match &block.name {
        Some(name) => {
            push_str(out, "# Filter: ");
            push_str(out, name.as_str());
            if block.enabled {
                out.push('\n');
            } else {
                push_str(out, " [DISABLED]\n");
            }
            proof {
                assert(out@ =~= old(out)@ + sp_emit_if_header(block@));
            }
        },
        None => {
            proof {
                assert(out@ =~= old(out)@ + sp_emit_if_header(block@));
            }
        },
    }
    push_str(out, "if ");
    emit_test_expr(out, &block.condition);
    push_str(out, " {\n");
    emit_actions(out, &block.actions, 1);
    out.push('}');
    emit_alternatives(out, &block.alternatives);
    out.push('\n');
    proof {
        assert(final(out)@ =~= old(out)@ + sp_emit_if(block@));
    }
}

/// Whether a string vector holds a string with these characters.
fn vec_contains_string(v: &Vec<String>, s: &String) -> (r: bool)
    ensures
        r == view_strings(v@).contains(s@),
{
    let n = v.len();
    let mut i: usize = 0;
    while i < n
        invariant
            i <= n,
            n == v@.len(),
            forall|j: int| 0 <= j < i ==> view_strings(v@)[j] != s@,
        decreases n - i,
    {
        if str_eq(v[i].as_str(), s.as_str()) {
            proof {
                assert(view_strings(v@)[i as int] == s@);
            }
            return true;
        }
        proof {
            assert(view_strings(v@)[i as int] == v@[i as int]@);
        }
        i += 1;
    }
    proof {
        if view_strings(v@).contains(s@) {
            let j = choose|j: int| 0 <= j < view_strings(v@).len() && view_strings(v@)[j] == s@;
            assert(false);
        }
    }
    false
}

/// Add the not-yet-seen extensions of `exts` to `acc`.
fn add_new_requires(acc: &mut Vec<String>, exts: &Vec<String>)
    ensures
        view_strings(final(acc)@) == sp_add_new(view_strings(old(acc)@), view_strings(exts@), 0),
{
    let ghost ev = view_strings(exts@);
    let n = exts.len();
    let mut i: usize = 0;
    while i < n
        invariant
            i <= n,
            n == exts@.len(),
            ev == view_strings(exts@),
            sp_add_new(view_strings(old(acc)@), ev, 0) == sp_add_new(
                view_strings(acc@),
                ev,
                i as int,
            ),
        decreases n - i,
    {
        let ghost pre = view_strings(acc@);
        proof {
            assert(ev[i as int] == exts@[i as int]@);
        }
        if !vec_contains_string(acc, &exts[i]) {
            acc.push(exts[i].clone());
            proof {
                assert(view_strings(acc@) =~= pre.push(exts@[i as int]@));
            }
        }
        proof {
            assert(sp_add_new(pre, ev, i as int) == sp_add_new(view_strings(acc@), ev, i + 1));
        }
        i += 1;
    }
}

/// All `require` extensions of the script, first-seen order, de-duplicated.
pub(crate) fn collect_all_requires(script: &Script) -> (r: Vec<String>)
    ensures
        view_strings(r@) == sp_all_requires(script@.commands, Seq::empty(), 0),
{
    let ghost cv = view_commands(script.commands@);
    let mut acc: Vec<String> = Vec::new();
    proof {
        assert(view_strings(acc@) =~= Seq::<Seq<char>>::empty());
    }
    let n = script.commands.len();
    let mut i: usize = 0;
    while i < n
        invariant
            i <= n,
            n == script.commands@.len(),
            cv == view_commands(script.commands@),
            sp_all_requires(cv, Seq::empty(), 0) == sp_all_requires(
                cv,
                view_strings(acc@),
                i as int,
            ),
        decreases n - i,
    {
        proof {
            assert(cv[i as int] == script.commands@[i as int]@);
        }
        let ghost pre = view_strings(acc@);
        match &script.commands[i] {
            Command::Require(exts) => {
                add_new_requires(&mut acc, exts);
            },
            _ => {},
        }
        proof {
            assert(sp_all_requires(cv, pre, i as int) == sp_all_requires(
                cv,
                view_strings(acc@),
                i + 1,
            ));
        }
        i += 1;
    }
    acc
}

/// Append a require name in quotes, verbatim.
fn push_req_quoted(out: &mut Vec<char>, s: &String)
    ensures
        final(out)@ == old(out)@ + sp_req_quote(s@),
{
    out.push('"');
    push_str(out, s.as_str());
    out.push('"');
    proof {
        assert(final(out)@ =~= old(out)@ + sp_req_quote(s@));
    }
}

/// Append the single merged `require` statement, or nothing.
fn emit_requires(out: &mut Vec<char>, reqs: &Vec<String>)
    ensures
        final(out)@ == old(out)@ + sp_emit_requires(view_strings(reqs@)),
{
    let ghost rv = view_strings(reqs@);
    let n = reqs.len();
    if n == 0 {
        proof {
            assert(old(out)@ + Seq::<char>::empty() =~= old(out)@);
        }
        return ;
    }
    if n == 1 {
        push_str(out, "require ");
        push_req_quoted(out, &reqs[0]);
        push_str(out, ";\n");
        proof {
            assert(rv[0] == reqs@[0]@);
            assert(final(out)@ =~= old(out)@ + sp_emit_requires(rv));
        }
        return ;
    }
    push_str(out, "require [");
    let mut i: usize = 0;
    while i < n
        invariant
            i <= n,
            n == reqs@.len(),
            n > 1,
            rv == view_strings(reqs@),
            old(out)@ + "require ["@ + sp_req_items(rv, 0) == out@ + sp_req_items(rv, i as int),
        decreases n - i,
    {
        let ghost pre = out@;
        if i > 0 {
            push_str(out, ", ");
        }
        push_req_quoted(out, &reqs[i]);
        proof {
            assert(rv[i as int] == reqs@[i as int]@);
            assert(sp_req_items(rv, i as int) == (if i > 0 {
                ", "@
            } else {
                Seq::<char>::empty()
            }) + sp_req_quote(rv[i as int]) + sp_req_items(rv, i + 1));
            assert(out@ =~= pre + (if i > 0 {
                ", "@
            } else {
                Seq::<char>::empty()
            }) + sp_req_quote(rv[i as int]));
            assert(pre + sp_req_items(rv, i as int) =~= out@ + sp_req_items(rv, i + 1));
        }
        i += 1;
    }
    proof {
        assert(sp_req_items(rv, n as int) =~= Seq::<char>::empty());
        assert(out@ + Seq::<char>::empty() =~= out@);
    }
    push_str(out, "];\n");
    proof {
        assert(old(out)@ + sp_emit_requires(rv) =~= ((old(out)@ + "require ["@) + sp_req_items(
            rv,
            0,
        )) + "];\n"@);
        assert(final(out)@ =~= old(out)@ + sp_emit_requires(rv));
    }
}

/// Emit SIEVE script text from an AST.
///
/// Total for any AST; the output is exactly `sp_emit` of the script's view.
pub fn emit(script: &Script) -> (r: String)
    ensures
        r@ == sp_emit(script@),
{
    let ghost cv = view_commands(script.commands@);
    let mut out: Vec<char> = Vec::new();
    let reqs = collect_all_requires(script);
    emit_requires(&mut out, &reqs);
    let first0 = reqs.len() == 0;
    let ghost reqv = view_strings(reqs@);
    let n = script.commands.len();
    let mut i: usize = 0;
    let mut first = first0;
    while i < n
        invariant
            i <= n,
            n == script.commands@.len(),
            cv == view_commands(script.commands@),
            reqv == sp_all_requires(cv, Seq::empty(), 0),
            sp_emit_requires(reqv) + sp_emit_cmds(cv, reqv.len() == 0, 0) == out@ + sp_emit_cmds(
                cv,
                first,
                i as int,
            ),
        decreases n - i,
    {
        proof {
            assert(cv[i as int] == script.commands@[i as int]@);
        }
        let ghost pre = out@;
        let ghost prefirst = first;
        match &script.commands[i] {
            Command::Require(_) => {},
            Command::If(block) => {
                if !first {
                    out.push('\n');
                }
                emit_if_block(&mut out, block);
                first = false;
            },
            Command::Action(action) => {
                emit_action(&mut out, action, 0);
                first = false;
            },
            Command::Comment(text) => {
                push_str(&mut out, "# ");
                push_str(&mut out, text.as_str());
                out.push('\n');
            },
            Command::Raw(text) => {
                if !first {
                    out.push('\n');
                }
                push_str(&mut out, text.as_str());
                out.push('\n');
                first = false;
            },
        }
        proof {
            assert(pre + sp_emit_cmds(cv, prefirst, i as int) =~= out@ + sp_emit_cmds(
                cv,
                first,
                i + 1,
            ));
        }
        i += 1;
    }
    proof {
        assert(sp_emit_cmds(cv, first, n as int) =~= Seq::<char>::empty());
        assert(out@ =~= sp_emit(script@));
    }
    chars_to_string(&out)
}

// ---------------------------------------------------------------------------
// Executable required-extension computation
// ---------------------------------------------------------------------------

pub struct Needs {
    pub fileinto: bool,
    pub reject: bool,
    pub imap4flags: bool,
    pub body: bool,
    pub envelope: bool,
    pub regex: bool,
}

impl View for Needs {
    type V = SpNeeds;

    open spec fn view(&self) -> SpNeeds {
        SpNeeds {
            fileinto: self.fileinto,
            reject: self.reject,
            imap4flags: self.imap4flags,
            body: self.body,
            envelope: self.envelope,
            regex: self.regex,
        }
    }
}

pub(crate) fn needs_none() -> (r: Needs)
    ensures
        r@ == sp_needs_none(),
{
    Needs {
        fileinto: false,
        reject: false,
        imap4flags: false,
        body: false,
        envelope: false,
        regex: false,
    }
}

pub(crate) fn needs_or(a: Needs, b: Needs) -> (r: Needs)
    ensures
        r@ == sp_needs_or(a@, b@),
{
    Needs {
        fileinto: a.fileinto || b.fileinto,
        reject: a.reject || b.reject,
        imap4flags: a.imap4flags || b.imap4flags,
        body: a.body || b.body,
        envelope: a.envelope || b.envelope,
        regex: a.regex || b.regex,
    }
}

fn needs_test(e: &TestExpr) -> (r: Needs)
    ensures
        r@ == sp_needs_test(view_test(*e)),
    decreases e, 0int,
{
    match e {
        TestExpr::AllOf(ts) => needs_tests_from(ts, 0),
        TestExpr::AnyOf(ts) => needs_tests_from(ts, 0),
        TestExpr::Not(inner) => needs_test(inner),
        TestExpr::Envelope { .. } => {
            let mut r = needs_none();
            r.envelope = true;
            r
        },
        TestExpr::Body { .. } => {
            let mut r = needs_none();
            r.body = true;
            r
        },
        TestExpr::Header { match_type, .. } => {
            if str_eq(match_type.as_str(), ":regex") {
                let mut r = needs_none();
                r.regex = true;
                r
            } else {
                needs_none()
            }
        },
        TestExpr::Address { match_type, .. } => {
            if str_eq(match_type.as_str(), ":regex") {
                let mut r = needs_none();
                r.regex = true;
                r
            } else {
                needs_none()
            }
        },
        _ => needs_none(),
    }
}

fn needs_tests_from(ts: &Vec<TestExpr>, i: usize) -> (r: Needs)
    requires
        i <= ts@.len(),
    ensures
        r@ == sp_needs_tests(view_tests(ts@), i as int),
    decreases ts, ts@.len() - i,
{
    proof {
        lemma_view_tests(ts@);
    }
    let n = ts.len();
    if i >= n {
        needs_none()
    } else {
        let a = needs_test(&ts[i]);
        let b = needs_tests_from(ts, i + 1);
        needs_or(a, b)
    }
}

fn needs_action(a: &ActionCommand) -> (r: Needs)
    ensures
        r@ == sp_needs_action(a@),
{
    if str_eq_lower(a.name.as_str(), "fileinto") {
        let mut r = needs_none();
        r.fileinto = true;
        r
    } else if str_eq_lower(a.name.as_str(), "reject") {
        let mut r = needs_none();
        r.reject = true;
        r
    } else if str_eq_lower(a.name.as_str(), "setflag") || str_eq_lower(a.name.as_str(), "addflag")
        || str_eq_lower(a.name.as_str(), "removeflag") {
        let mut r = needs_none();
        r.imap4flags = true;
        r
    } else {
        needs_none()
    }
}

fn needs_actions(acts: &Vec<ActionCommand>) -> (r: Needs)
    ensures
        r@ == sp_needs_actions(view_actions(acts@), 0),
{
    let ghost av = view_actions(acts@);
    let n = acts.len();
    let mut i: usize = n;
    let mut acc = needs_none();
    while i > 0
        invariant
            i <= n,
            n == acts@.len(),
            av == view_actions(acts@),
            acc@ == sp_needs_actions(av, i as int),
        decreases i,
    {
        i -= 1;
        proof {
            assert(av[i as int] == acts@[i as int]@);
        }
        let a = needs_action(&acts[i]);
        acc = needs_or(a, acc);
    }
    acc
}

fn needs_alts(alts: &Vec<Alternative>) -> (r: Needs)
    ensures
        r@ == sp_needs_alts(view_alternatives(alts@), 0),
{
    let ghost av = view_alternatives(alts@);
    let n = alts.len();
    let mut i: usize = n;
    let mut acc = needs_none();
    while i > 0
        invariant
            i <= n,
            n == alts@.len(),
            av == view_alternatives(alts@),
            acc@ == sp_needs_alts(av, i as int),
        decreases i,
    {
        i -= 1;
        proof {
            assert(av[i as int] == alts@[i as int]@);
        }
        let one = match &alts[i] {
            Alternative::ElsIf { condition, actions } => {
                let a = needs_test(condition);
                let b = needs_actions(actions);
                needs_or(a, b)
            },
            Alternative::Else { actions } => needs_actions(actions),
        };
        acc = needs_or(one, acc);
    }
    acc
}

/// Compute what `require` extensions a script's AST needs, sorted.
pub fn compute_requires(script: &Script) -> (r: Vec<String>)
    ensures
        view_strings(r@) == sp_compute_requires(script@),
{
    let ghost cv = view_commands(script.commands@);
    let n = script.commands.len();
    let mut i: usize = n;
    let mut acc = needs_none();
    while i > 0
        invariant
            i <= n,
            n == script.commands@.len(),
            cv == view_commands(script.commands@),
            acc@ == sp_needs_cmds(cv, i as int),
        decreases i,
    {
        i -= 1;
        proof {
            assert(cv[i as int] == script.commands@[i as int]@);
        }
        let one = match &script.commands[i] {
            Command::If(block) => {
                let a = needs_test(&block.condition);
                let b = needs_actions(&block.actions);
                let c = needs_alts(&block.alternatives);
                needs_or(needs_or(a, b), c)
            },
            Command::Action(action) => needs_action(action),
            _ => needs_none(),
        };
        acc = needs_or(one, acc);
    }
    let mut r: Vec<String> = Vec::new();
    if acc.body {
        r.push(str_to_string_local("body"));
    }
    if acc.envelope {
        r.push(str_to_string_local("envelope"));
    }
    if acc.fileinto {
        r.push(str_to_string_local("fileinto"));
    }
    if acc.imap4flags {
        r.push(str_to_string_local("imap4flags"));
    }
    if acc.regex {
        r.push(str_to_string_local("regex"));
    }
    if acc.reject {
        r.push(str_to_string_local("reject"));
    }
    proof {
        assert(view_strings(r@) =~= sp_needs_list(acc@));
    }
    r
}

fn str_to_string_local(s: &str) -> (r: String)
    ensures
        r@ == s@,
{
    crate::strutil::str_to_string(s)
}

} // verus!
