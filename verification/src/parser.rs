//! Recursive descent SIEVE parser.
//!
//! `sp_parse` is the specification: a recursive function from script text to
//! the command sequence of the AST (or a diagnostic message). `parse` and its
//! helpers are the executable parser, proved to return exactly what the
//! specification describes. Unrecognized constructs abort the whole parse;
//! the converter preserves such scripts verbatim instead.

use vstd::prelude::*;
use crate::ast::{
    ActionCommand, Alternative, Argument, Command, IfBlock, Script, SpActionCommand,
    SpAlternative, SpArgument, SpCommand, SpIfBlock, SpTestExpr, TestExpr,
    lemma_view_actions_prepend, lemma_view_alternatives_prepend, lemma_view_arguments_prepend,
    lemma_view_commands_prepend, lemma_view_strings_prepend, lemma_view_tests_prepend,
    view_actions, view_alternatives, view_arguments, view_commands, view_opt_string,
    view_strings, view_test, view_tests,
};
use crate::lexer::{sp_lex, sp_lex_err_msg, tokenize, view_spans, Span, SpSpan, SpTok, Token};
use crate::strutil::{
    chars_to_string, copy_range, copy_trimmed, is_blank, push_str, sp_all_ws, sp_lower, sp_trim,
    str_eq, str_eq_lower, str_to_string, to_chars,
};

verus! {

broadcast use vstd::string::group_string_axioms;

/// The token sequence a span sequence carries.
pub open spec fn sp_toks(spans: Seq<SpSpan>) -> Seq<SpTok> {
    spans.map_values(|s: SpSpan| s.tok)
}

/// The token views of an executable span vector.
pub open spec fn toks_view(spans: Seq<Span>) -> Seq<SpTok> {
    spans.map_values(|s: Span| s.token@)
}

/// A parse error: which rule of the grammar was violated.
pub enum SpParseErr {
    UnknownCommand(Seq<char>),
    UnexpectedTopLevel,
    UnknownTest(Seq<char>),
    ExpectedTest,
    ExpectedTestEof,
    ExpectedLParen,
    ExpectedLBrace,
    EofInBlock,
    ExpectedActionName,
    ExpectedActionNameEof,
}

/// The diagnostic text of a parse error.
pub open spec fn sp_parse_err_msg(e: SpParseErr) -> Seq<char> {
    match e {
        SpParseErr::UnknownCommand(id) => "Unknown command '"@ + id + "' at top level"@,
        SpParseErr::UnexpectedTopLevel => "Unexpected token at top level"@,
        SpParseErr::UnknownTest(id) => "Unknown test '"@ + id + "'"@,
        SpParseErr::ExpectedTest => "Expected test expression"@,
        SpParseErr::ExpectedTestEof => "Expected test expression, got end of input"@,
        SpParseErr::ExpectedLParen => "Expected '(' in test list"@,
        SpParseErr::ExpectedLBrace => "Expected '{' to start action block"@,
        SpParseErr::EofInBlock => "Unexpected end of input in action block"@,
        SpParseErr::ExpectedActionName => "Expected action name"@,
        SpParseErr::ExpectedActionNameEof => "Expected action name, got end of input"@,
    }
}

// ---------------------------------------------------------------------------
// Specification parser
// ---------------------------------------------------------------------------

/// Items of a bracketed quoted-string list, from just after the `[`:
/// quoted strings collected, commas skipped, a closing `]` consumed,
/// anything else ends the list without being consumed.
pub open spec fn sp_p_quoted_items(t: Seq<SpTok>, pos: int) -> (Seq<Seq<char>>, int)
    decreases t.len() - pos,
{
    if pos < 0 || pos >= t.len() {
        (Seq::empty(), pos)
    } else {
        match t[pos] {
            SpTok::QuotedString(s) => {
                let (rest, p) = sp_p_quoted_items(t, pos + 1);
                (seq![s] + rest, p)
            },
            SpTok::Comma => sp_p_quoted_items(t, pos + 1),
            SpTok::RBracket => (Seq::empty(), pos + 1),
            _ => (Seq::empty(), pos),
        }
    }
}

/// One quoted string, or a bracketed list of them; anything else is the
/// empty list (lenient, consumes nothing).
pub open spec fn sp_p_string_or_list(t: Seq<SpTok>, pos: int) -> (Seq<Seq<char>>, int) {
    if 0 <= pos < t.len() {
        match t[pos] {
            SpTok::QuotedString(s) => (seq![s], pos + 1),
            SpTok::LBracket => sp_p_quoted_items(t, pos + 1),
            _ => (Seq::empty(), pos),
        }
    } else {
        (Seq::empty(), pos)
    }
}

/// The extension names of a `require`: one quoted string or a bracketed
/// list, then an optional `;`.
pub open spec fn sp_p_require_args(t: Seq<SpTok>, pos: int) -> (Seq<Seq<char>>, int) {
    let (exts, p) = sp_p_string_or_list(t, pos);
    if 0 <= p < t.len() && t[p] is Semicolon {
        (exts, p + 1)
    } else {
        (exts, p)
    }
}

/// Leading tags of a `header`/`body` test: a `:comparator` tag discards its
/// quoted argument; any other tag becomes the match type.
pub open spec fn sp_p_match_tags(t: Seq<SpTok>, pos: int, mt: Seq<char>) -> (Seq<char>, int)
    decreases t.len() - pos,
{
    if 0 <= pos < t.len() && t[pos] is Tag {
        let tag = t[pos]->Tag_0;
        if tag == ":comparator"@ {
            if pos + 1 < t.len() && t[pos + 1] is QuotedString {
                sp_p_match_tags(t, pos + 2, mt)
            } else {
                sp_p_match_tags(t, pos + 1, mt)
            }
        } else {
            sp_p_match_tags(t, pos + 1, tag)
        }
    } else {
        (mt, pos)
    }
}

/// Leading tags of an `address`/`envelope` test: `:all`/`:localpart`/`:domain`
/// select the address part, `:comparator` discards its argument, any other
/// tag becomes the match type.
pub open spec fn sp_p_addr_tags(
    t: Seq<SpTok>,
    pos: int,
    mt: Seq<char>,
    ap: Option<Seq<char>>,
) -> (Seq<char>, Option<Seq<char>>, int)
    decreases t.len() - pos,
{
    if 0 <= pos < t.len() && t[pos] is Tag {
        let tag = t[pos]->Tag_0;
        if tag == ":comparator"@ {
            if pos + 1 < t.len() && t[pos + 1] is QuotedString {
                sp_p_addr_tags(t, pos + 2, mt, ap)
            } else {
                sp_p_addr_tags(t, pos + 1, mt, ap)
            }
        } else if tag == ":all"@ || tag == ":localpart"@ || tag == ":domain"@ {
            sp_p_addr_tags(t, pos + 1, mt, Some(tag))
        } else {
            sp_p_addr_tags(t, pos + 1, tag, ap)
        }
    } else {
        (mt, ap, pos)
    }
}

/// A `header` test after its keyword: tags, header names, keys.
pub open spec fn sp_p_header_test(t: Seq<SpTok>, pos: int) -> (SpTestExpr, int) {
    let (mt, p1) = sp_p_match_tags(t, pos, ":is"@);
    let (hn, p2) = sp_p_string_or_list(t, p1);
    let (ks, p3) = sp_p_string_or_list(t, p2);
    (SpTestExpr::Header { match_type: mt, header_names: hn, keys: ks }, p3)
}

/// An `address` or `envelope` test after its keyword.
pub open spec fn sp_p_address_test(t: Seq<SpTok>, pos: int, is_envelope: bool) -> (
    SpTestExpr,
    int,
) {
    let (mt, ap, p1) = sp_p_addr_tags(t, pos, ":is"@, None);
    let (hn, p2) = sp_p_string_or_list(t, p1);
    let (ks, p3) = sp_p_string_or_list(t, p2);
    if is_envelope {
        (
            SpTestExpr::Envelope { address_part: ap, match_type: mt, header_names: hn, keys: ks },
            p3,
        )
    } else {
        (
            SpTestExpr::Address { address_part: ap, match_type: mt, header_names: hn, keys: ks },
            p3,
        )
    }
}

/// A `size` test after its keyword: an optional comparator tag and a
/// numeric-or-quoted limit, with defaults `:over` and `"0"`.
pub open spec fn sp_p_size_test(t: Seq<SpTok>, pos: int) -> (SpTestExpr, int) {
    let (cmp, p1) = if 0 <= pos < t.len() && t[pos] is Tag {
        (t[pos]->Tag_0, pos + 1)
    } else {
        (":over"@, pos)
    };
    let (limit, p2) = if 0 <= p1 < t.len() && t[p1] is Number {
        (t[p1]->Number_0, p1 + 1)
    } else if 0 <= p1 < t.len() && t[p1] is QuotedString {
        (t[p1]->QuotedString_0, p1 + 1)
    } else {
        ("0"@, p1)
    };
    (SpTestExpr::Size { comparator: cmp, limit: limit }, p2)
}

/// A `body` test after its keyword: tags and keys.
pub open spec fn sp_p_body_test(t: Seq<SpTok>, pos: int) -> (SpTestExpr, int) {
    let (mt, p1) = sp_p_match_tags(t, pos, ":is"@);
    let (ks, p2) = sp_p_string_or_list(t, p1);
    (SpTestExpr::Body { match_type: mt, keys: ks }, p2)
}

/// One test expression at `pos`, dispatched on the (case-insensitive)
/// test name.
pub open spec fn sp_p_test_expr(t: Seq<SpTok>, pos: int) -> Result<(SpTestExpr, int), SpParseErr>
    decreases t.len() - pos, 0int,
{
    if pos < 0 || pos >= t.len() {
        Err(SpParseErr::ExpectedTestEof)
    } else {
        match t[pos] {
            SpTok::Identifier(ident) => {
                let l = sp_lower(ident);
                if l == "allof"@ {
                    match sp_p_test_list(t, pos + 1) {
                        Err(e) => Err(e),
                        Ok((ts, p2)) => Ok((SpTestExpr::AllOf(ts), p2)),
                    }
                } else if l == "anyof"@ {
                    match sp_p_test_list(t, pos + 1) {
                        Err(e) => Err(e),
                        Ok((ts, p2)) => Ok((SpTestExpr::AnyOf(ts), p2)),
                    }
                } else if l == "not"@ {
                    match sp_p_test_expr(t, pos + 1) {
                        Err(e) => Err(e),
                        Ok((inner, p2)) => Ok((SpTestExpr::Not(Box::new(inner)), p2)),
                    }
                } else if l == "header"@ {
                    Ok(sp_p_header_test(t, pos + 1))
                } else if l == "address"@ {
                    Ok(sp_p_address_test(t, pos + 1, false))
                } else if l == "envelope"@ {
                    Ok(sp_p_address_test(t, pos + 1, true))
                } else if l == "size"@ {
                    Ok(sp_p_size_test(t, pos + 1))
                } else if l == "exists"@ {
                    let (hn, p2) = sp_p_string_or_list(t, pos + 1);
                    Ok((SpTestExpr::Exists { header_names: hn }, p2))
                } else if l == "body"@ {
                    Ok(sp_p_body_test(t, pos + 1))
                } else if l == "true"@ {
                    Ok((SpTestExpr::True, pos + 1))
                } else if l == "false"@ {
                    Ok((SpTestExpr::False, pos + 1))
                } else {
                    Err(SpParseErr::UnknownTest(ident))
                }
            },
            _ => Err(SpParseErr::ExpectedTest),
        }
    }
}

/// A parenthesized, comma-separated test list, starting at the `(`.
pub open spec fn sp_p_test_list(t: Seq<SpTok>, pos: int) -> Result<
    (Seq<SpTestExpr>, int),
    SpParseErr,
>
    decreases t.len() - pos, 0int,
{
    if 0 <= pos < t.len() && t[pos] is LParen {
        sp_p_test_list_items(t, pos + 1, true)
    } else {
        Err(SpParseErr::ExpectedLParen)
    }
}

/// Elements of a test list after the `(`: a closing `)` ends it, a comma
/// (after the first element) is skipped, otherwise a test is parsed.
/// A parsed test always advances the position, so the stalled branch is
/// vacuous.
pub open spec fn sp_p_test_list_items(t: Seq<SpTok>, pos: int, first: bool) -> Result<
    (Seq<SpTestExpr>, int),
    SpParseErr,
>
    decreases t.len() - pos, 1int,
{
    if 0 <= pos < t.len() && t[pos] is RParen {
        Ok((Seq::empty(), pos + 1))
    } else {
        let p1 = if !first && 0 <= pos < t.len() && t[pos] is Comma {
            pos + 1
        } else {
            pos
        };
        if 0 <= p1 < t.len() && t[p1] is RParen {
            Ok((Seq::empty(), p1 + 1))
        } else {
            match sp_p_test_expr(t, p1) {
                Err(e) => Err(e),
                Ok((test, p2)) => if pos < p2 && p2 <= t.len() {
                    match sp_p_test_list_items(t, p2, false) {
                        Err(e) => Err(e),
                        Ok((rest, p3)) => Ok((seq![test] + rest, p3)),
                    }
                } else {
                    Err(SpParseErr::ExpectedTestEof)
                },
            }
        }
    }
}

/// Arguments of an action command, up to and including the terminating `;`
/// (or up to the first token that cannot be an argument). A bracketed list
/// always advances the position, so the stalled branch is vacuous.
pub open spec fn sp_p_action_args(t: Seq<SpTok>, pos: int) -> (Seq<SpArgument>, int)
    decreases t.len() - pos,
{
    if pos < 0 || pos >= t.len() {
        (Seq::empty(), pos)
    } else {
        match t[pos] {
            SpTok::Semicolon => (Seq::empty(), pos + 1),
            SpTok::QuotedString(s) => {
                let (rest, p) = sp_p_action_args(t, pos + 1);
                (seq![SpArgument::QuotedString(s)] + rest, p)
            },
            SpTok::Number(n) => {
                let (rest, p) = sp_p_action_args(t, pos + 1);
                (seq![SpArgument::Number(n)] + rest, p)
            },
            SpTok::Tag(tg) => {
                let (rest, p) = sp_p_action_args(t, pos + 1);
                (seq![SpArgument::Tag(tg)] + rest, p)
            },
            SpTok::LBracket => {
                let (items, p2) = sp_p_quoted_items(t, pos + 1);
                if pos < p2 && p2 <= t.len() {
                    let (rest, p3) = sp_p_action_args(t, p2);
                    (seq![SpArgument::StringList(items)] + rest, p3)
                } else {
                    (seq![SpArgument::StringList(items)], p2)
                }
            },
            _ => (Seq::empty(), pos),
        }
    }
}

/// One action command: an identifier name, then arguments until `;`.
pub open spec fn sp_p_action_command(t: Seq<SpTok>, pos: int) -> Result<
    (SpActionCommand, int),
    SpParseErr,
> {
    if pos < 0 || pos >= t.len() {
        Err(SpParseErr::ExpectedActionNameEof)
    } else {
        match t[pos] {
            SpTok::Identifier(name) => {
                let (args, p2) = sp_p_action_args(t, pos + 1);
                Ok((SpActionCommand { name: name, arguments: args }, p2))
            },
            _ => Err(SpParseErr::ExpectedActionName),
        }
    }
}

/// First position at or after `pos` that is not a comment token.
pub open spec fn sp_skip_comments(t: Seq<SpTok>, pos: int) -> int
    decreases t.len() - pos,
{
    if 0 <= pos < t.len() && (t[pos] is Comment || t[pos] is BlockComment) {
        sp_skip_comments(t, pos + 1)
    } else {
        pos
    }
}

/// Commands of an action block after the `{`: comments are skipped, a `}`
/// ends the block, running out of tokens is an error. A parsed action
/// command always advances the position, so the stalled branch is vacuous.
pub open spec fn sp_p_block_items(t: Seq<SpTok>, pos: int) -> Result<
    (Seq<SpActionCommand>, int),
    SpParseErr,
>
    decreases t.len() - pos,
{
    let p1 = sp_skip_comments(t, pos);
    if 0 <= p1 < t.len() && t[p1] is RBrace {
        Ok((Seq::empty(), p1 + 1))
    } else if p1 >= t.len() {
        Err(SpParseErr::EofInBlock)
    } else {
        match sp_p_action_command(t, p1) {
            Err(e) => Err(e),
            Ok((a, p2)) => if pos < p2 && p2 <= t.len() {
                match sp_p_block_items(t, p2) {
                    Err(e) => Err(e),
                    Ok((rest, p3)) => Ok((seq![a] + rest, p3)),
                }
            } else {
                Err(SpParseErr::EofInBlock)
            },
        }
    }
}

/// An action block: `{`, action commands, `}`.
pub open spec fn sp_p_action_block(t: Seq<SpTok>, pos: int) -> Result<
    (Seq<SpActionCommand>, int),
    SpParseErr,
> {
    if 0 <= pos < t.len() && t[pos] is LBrace {
        sp_p_block_items(t, pos + 1)
    } else {
        Err(SpParseErr::ExpectedLBrace)
    }
}

/// The elsif/else chain after the primary block; `else` is terminal.
/// A parsed branch always advances the position, so the stalled branch is
/// vacuous.
pub open spec fn sp_p_alternatives(t: Seq<SpTok>, pos: int) -> Result<
    (Seq<SpAlternative>, int),
    SpParseErr,
>
    decreases t.len() - pos,
{
    if 0 <= pos < t.len() && t[pos] is Identifier && sp_lower(t[pos]->Identifier_0) == "elsif"@ {
        match sp_p_test_expr(t, pos + 1) {
            Err(e) => Err(e),
            Ok((cond, p1)) => match sp_p_action_block(t, p1) {
                Err(e) => Err(e),
                Ok((acts, p2)) => if pos < p2 && p2 <= t.len() {
                    match sp_p_alternatives(t, p2) {
                        Err(e) => Err(e),
                        Ok((rest, p3)) => Ok(
                            (seq![SpAlternative::ElsIf { condition: cond, actions: acts }] + rest,
                            p3),
                        ),
                    }
                } else {
                    Err(SpParseErr::EofInBlock)
                },
            },
        }
    } else if 0 <= pos < t.len() && t[pos] is Identifier && sp_lower(t[pos]->Identifier_0)
        == "else"@ {
        match sp_p_action_block(t, pos + 1) {
            Err(e) => Err(e),
            Ok((acts, p2)) => Ok((seq![SpAlternative::Else { actions: acts }], p2)),
        }
    } else {
        Ok((Seq::empty(), pos))
    }
}

/// A full `if` block after the `if` keyword: condition, primary action
/// block, elsif/else chain.
pub open spec fn sp_p_if_block(
    t: Seq<SpTok>,
    pos: int,
    name: Option<Seq<char>>,
    enabled: bool,
) -> Result<(SpIfBlock, int), SpParseErr> {
    match sp_p_test_expr(t, pos) {
        Err(e) => Err(e),
        Ok((cond, p1)) => match sp_p_action_block(t, p1) {
            Err(e) => Err(e),
            Ok((acts, p2)) => match sp_p_alternatives(t, p2) {
                Err(e) => Err(e),
                Ok((alts, p3)) => Ok(
                    (
                        SpIfBlock {
                            name: name,
                            enabled: enabled,
                            condition: cond,
                            actions: acts,
                            alternatives: alts,
                        },
                        p3,
                    ),
                ),
            },
        },
    }
}

/// Whether `pat` occurs anywhere in `c`.
pub open spec fn sp_contains(c: Seq<char>, pat: Seq<char>) -> bool {
    exists|i: int| 0 <= i && i + pat.len() <= c.len() && #[trigger] c.subrange(i, i + pat.len()) == pat
}

/// The rule name recovered from a pending `Filter: <name>` comment,
/// with an optional `[DISABLED]` suffix stripped.
pub open spec fn sp_extract_filter_name(comment: Option<Seq<char>>) -> Option<Seq<char>> {
    match comment {
        None => None,
        Some(c) => {
            let tr = sp_trim(c);
            if "Filter:"@.is_prefix_of(tr) {
                let name1 = sp_trim(tr.skip(7));
                let name2 = if "[DISABLED]"@.is_suffix_of(name1) {
                    sp_trim(name1.take(name1.len() - 10))
                } else {
                    name1
                };
                if name2.len() == 0 {
                    None
                } else {
                    Some(name2)
                }
            } else {
                None
            }
        },
    }
}

/// Whether a pending comment leaves the rule enabled: any comment without
/// the `[DISABLED]` marker (or no comment at all) does.
pub open spec fn sp_pending_enabled(comment: Option<Seq<char>>) -> bool {
    match comment {
        None => true,
        Some(c) => !sp_contains(c, "[DISABLED]"@),
    }
}

/// Whether a lowered identifier is one of the known top-level action
/// commands.
pub open spec fn sp_is_action_name(l: Seq<char>) -> bool {
    l == "keep"@ || l == "stop"@ || l == "discard"@ || l == "fileinto"@ || l == "redirect"@ || l
        == "reject"@ || l == "setflag"@ || l == "addflag"@ || l == "removeflag"@
}

/// The top-level command sequence from `pos` on. `pending` is the last
/// unconsumed comment, whose text an `if` may claim as its metadata.
/// Every command parser advances the position, so the stalled branches are
/// vacuous.
pub open spec fn sp_p_commands(t: Seq<SpTok>, pos: int, pending: Option<Seq<char>>) -> Result<
    Seq<SpCommand>,
    SpParseErr,
>
    decreases t.len() - pos,
{
    if pos < 0 || pos >= t.len() {
        Ok(Seq::empty())
    } else {
        match t[pos] {
            SpTok::Comment(text) => sp_p_commands(t, pos + 1, Some(text)),
            SpTok::BlockComment(text) => sp_p_commands(t, pos + 1, pending),
            SpTok::Identifier(ident) => {
                let l = sp_lower(ident);
                if l == "require"@ {
                    let (exts, p2) = sp_p_require_args(t, pos + 1);
                    if pos < p2 && p2 <= t.len() {
                        match sp_p_commands(t, p2, pending) {
                            Err(e) => Err(e),
                            Ok(rest) => Ok(seq![SpCommand::Require(exts)] + rest),
                        }
                    } else {
                        Err(SpParseErr::UnexpectedTopLevel)
                    }
                } else if l == "if"@ {
                    let name = sp_extract_filter_name(pending);
                    let enabled = sp_pending_enabled(pending);
                    match sp_p_if_block(t, pos + 1, name, enabled) {
                        Err(e) => Err(e),
                        Ok((b, p2)) => if pos < p2 && p2 <= t.len() {
                            match sp_p_commands(t, p2, None) {
                                Err(e) => Err(e),
                                Ok(rest) => Ok(seq![SpCommand::If(b)] + rest),
                            }
                        } else {
                            Err(SpParseErr::UnexpectedTopLevel)
                        },
                    }
                } else if sp_is_action_name(l) {
                    match sp_p_action_command(t, pos) {
                        Err(e) => Err(e),
                        Ok((a, p2)) => if pos < p2 && p2 <= t.len() {
                            match sp_p_commands(t, p2, None) {
                                Err(e) => Err(e),
                                Ok(rest) => Ok(seq![SpCommand::Action(a)] + rest),
                            }
                        } else {
                            Err(SpParseErr::UnexpectedTopLevel)
                        },
                    }
                } else {
                    Err(SpParseErr::UnknownCommand(ident))
                }
            },
            _ => Err(SpParseErr::UnexpectedTopLevel),
        }
    }
}

/// The parse of a whole script text: blank text is the empty script; a
/// lexical or grammatical error is its diagnostic message.
pub open spec fn sp_parse(text: Seq<char>) -> Result<Seq<SpCommand>, Seq<char>> {
    if sp_all_ws(text) {
        Ok(Seq::empty())
    } else {
        match sp_lex(text, 0) {
            Err(e) => Err(sp_lex_err_msg(e)),
            Ok(spans) => match sp_p_commands(sp_toks(spans), 0, None) {
                Err(e) => Err(sp_parse_err_msg(e)),
                Ok(cmds) => Ok(cmds),
            },
        }
    }
}


// ---------------------------------------------------------------------------
// Executable parser
// ---------------------------------------------------------------------------

/// Items of a bracketed quoted-string list, from just after the `[`.
fn parse_quoted_items(spans: &Vec<Span>, pos: &mut usize) -> (r: Vec<String>)
    requires
        (*old(pos)) <= spans@.len(),
    ensures
        ({
            let pr = sp_p_quoted_items(toks_view(spans@), (*old(pos)) as int);
            view_strings(r@) == pr.0 && (*final(pos)) as int == pr.1
        }),
        (*old(pos)) <= (*final(pos)) <= spans@.len(),
    decreases spans@.len() - (*old(pos)),
{
    let ghost t = toks_view(spans@);
    let n = spans.len();
    let p0 = *pos;
    if p0 >= n {
        proof {
            assert(view_strings(Seq::<String>::empty()) =~= Seq::<Seq<char>>::empty());
        }
        return Vec::new();
    }
    proof {
        assert(t[p0 as int] == spans@[p0 as int].token@);
    }
    match &spans[p0].token {
        Token::QuotedString(s) => {
            let sc = s.clone();
            *pos = p0 + 1;
            let mut rest = parse_quoted_items(spans, pos);
            let ghost old_rest = rest@;
            rest.insert(0, sc);
            proof {
                assert(rest@ =~= seq![sc] + old_rest);
                lemma_view_strings_prepend(old_rest, sc);
            }
            rest
        },
        Token::Comma => {
            *pos = p0 + 1;
            parse_quoted_items(spans, pos)
        },
        Token::RBracket => {
            *pos = p0 + 1;
            proof {
                assert(view_strings(Seq::<String>::empty()) =~= Seq::<Seq<char>>::empty());
            }
            Vec::new()
        },
        _ => {
            proof {
                assert(view_strings(Seq::<String>::empty()) =~= Seq::<Seq<char>>::empty());
            }
            Vec::new()
        },
    }
}

/// One quoted string or a bracketed list of them; lenient otherwise.
fn parse_string_or_list(spans: &Vec<Span>, pos: &mut usize) -> (r: Vec<String>)
    requires
        (*old(pos)) <= spans@.len(),
    ensures
        ({
            let pr = sp_p_string_or_list(toks_view(spans@), (*old(pos)) as int);
            view_strings(r@) == pr.0 && (*final(pos)) as int == pr.1
        }),
        (*old(pos)) <= (*final(pos)) <= spans@.len(),
{
    let ghost t = toks_view(spans@);
    let n = spans.len();
    let p0 = *pos;
    if p0 >= n {
        proof {
            assert(view_strings(Seq::<String>::empty()) =~= Seq::<Seq<char>>::empty());
        }
        return Vec::new();
    }
    proof {
        assert(t[p0 as int] == spans@[p0 as int].token@);
    }
    match &spans[p0].token {
        Token::QuotedString(s) => {
            let mut r: Vec<String> = Vec::new();
            r.push(s.clone());
            *pos = p0 + 1;
            proof {
                assert(view_strings(r@) =~= seq![s@]);
            }
            r
        },
        Token::LBracket => {
            *pos = p0 + 1;
            parse_quoted_items(spans, pos)
        },
        _ => {
            proof {
                assert(view_strings(Seq::<String>::empty()) =~= Seq::<Seq<char>>::empty());
            }
            Vec::new()
        },
    }
}

/// The extension names of a `require` command, consuming a trailing `;`.
fn parse_require_args(spans: &Vec<Span>, pos: &mut usize) -> (r: Vec<String>)
    requires
        (*old(pos)) <= spans@.len(),
    ensures
        ({
            let pr = sp_p_require_args(toks_view(spans@), (*old(pos)) as int);
            view_strings(r@) == pr.0 && (*final(pos)) as int == pr.1
        }),
        (*old(pos)) <= (*final(pos)) <= spans@.len(),
{
    let ghost t = toks_view(spans@);
    let exts = parse_string_or_list(spans, pos);
    let n = spans.len();
    let p = *pos;
    if p < n {
        proof {
            assert(t[p as int] == spans@[p as int].token@);
        }
        if matches!(&spans[p].token, Token::Semicolon) {
            *pos = p + 1;
        }
    }
    exts
}

/// Leading tags of a `header`/`body` test.
fn parse_match_tags(spans: &Vec<Span>, pos: &mut usize, mt0: String) -> (r: String)
    requires
        (*old(pos)) <= spans@.len(),
    ensures
        ({
            let pr = sp_p_match_tags(toks_view(spans@), (*old(pos)) as int, mt0@);
            r@ == pr.0 && (*final(pos)) as int == pr.1
        }),
        (*old(pos)) <= (*final(pos)) <= spans@.len(),
{
    let ghost t = toks_view(spans@);
    let n = spans.len();
    let mut p = *pos;
    let mut mt = mt0;
    loop
        invariant
            (*old(pos)) <= p <= n,
            n == spans@.len(),
            t == toks_view(spans@),
            sp_p_match_tags(t, (*old(pos)) as int, mt0@) == sp_p_match_tags(t, p as int, mt@),
        decreases n - p,
    {
        if p >= n {
            *pos = p;
            return mt;
        }
        proof {
            assert(t[p as int] == spans@[p as int].token@);
        }
        match &spans[p].token {
            Token::Tag(tag) => {
                if str_eq(tag.as_str(), ":comparator") {
                    p = p + 1;
                    if p < n {
                        proof {
                            assert(t[p as int] == spans@[p as int].token@);
                        }
                        if matches!(&spans[p].token, Token::QuotedString(_)) {
                            p = p + 1;
                        }
                    }
                } else {
                    mt = tag.clone();
                    p = p + 1;
                }
            },
            _ => {
                *pos = p;
                return mt;
            },
        }
    }
}

/// Leading tags of an `address`/`envelope` test.
fn parse_addr_tags(spans: &Vec<Span>, pos: &mut usize, mt0: String, ap0: Option<String>) -> (r: (
    String,
    Option<String>,
))
    requires
        (*old(pos)) <= spans@.len(),
    ensures
        ({
            let pr = sp_p_addr_tags(toks_view(spans@), (*old(pos)) as int, mt0@, view_opt_string(ap0));
            r.0@ == pr.0 && view_opt_string(r.1) == pr.1 && (*final(pos)) as int == pr.2
        }),
        (*old(pos)) <= (*final(pos)) <= spans@.len(),
{
    let ghost t = toks_view(spans@);
    let n = spans.len();
    let mut p = *pos;
    let mut mt = mt0;
    let mut ap = ap0;
    loop
        invariant
            (*old(pos)) <= p <= n,
            n == spans@.len(),
            t == toks_view(spans@),
            sp_p_addr_tags(t, (*old(pos)) as int, mt0@, view_opt_string(ap0)) == sp_p_addr_tags(
                t,
                p as int,
                mt@,
                view_opt_string(ap),
            ),
        decreases n - p,
    {
        if p >= n {
            *pos = p;
            return (mt, ap);
        }
        proof {
            assert(t[p as int] == spans@[p as int].token@);
        }
        match &spans[p].token {
            Token::Tag(tag) => {
                if str_eq(tag.as_str(), ":comparator") {
                    p = p + 1;
                    if p < n {
                        proof {
                            assert(t[p as int] == spans@[p as int].token@);
                        }
                        if matches!(&spans[p].token, Token::QuotedString(_)) {
                            p = p + 1;
                        }
                    }
                } else if str_eq(tag.as_str(), ":all") || str_eq(tag.as_str(), ":localpart")
                    || str_eq(tag.as_str(), ":domain") {
                    ap = Some(tag.clone());
                    p = p + 1;
                } else {
                    mt = tag.clone();
                    p = p + 1;
                }
            },
            _ => {
                *pos = p;
                return (mt, ap);
            },
        }
    }
}

/// A `header` test after its keyword.
fn parse_header_test(spans: &Vec<Span>, pos: &mut usize) -> (r: TestExpr)
    requires
        (*old(pos)) <= spans@.len(),
    ensures
        ({
            let pr = sp_p_header_test(toks_view(spans@), (*old(pos)) as int);
            view_test(r) == pr.0 && (*final(pos)) as int == pr.1
        }),
        (*old(pos)) <= (*final(pos)) <= spans@.len(),
{
    let mt = parse_match_tags(spans, pos, str_to_string(":is"));
    let header_names = parse_string_or_list(spans, pos);
    let keys = parse_string_or_list(spans, pos);
    TestExpr::Header { match_type: mt, header_names, keys }
}

/// An `address` or `envelope` test after its keyword.
fn parse_address_test(spans: &Vec<Span>, pos: &mut usize, is_envelope: bool) -> (r: TestExpr)
    requires
        (*old(pos)) <= spans@.len(),
    ensures
        ({
            let pr = sp_p_address_test(toks_view(spans@), (*old(pos)) as int, is_envelope);
            view_test(r) == pr.0 && (*final(pos)) as int == pr.1
        }),
        (*old(pos)) <= (*final(pos)) <= spans@.len(),
{
    let (mt, ap) = parse_addr_tags(spans, pos, str_to_string(":is"), None);
    let header_names = parse_string_or_list(spans, pos);
    let keys = parse_string_or_list(spans, pos);
    if is_envelope {
        TestExpr::Envelope { address_part: ap, match_type: mt, header_names, keys }
    } else {
        TestExpr::Address { address_part: ap, match_type: mt, header_names, keys }
    }
}

/// A `size` test after its keyword.
fn parse_size_test(spans: &Vec<Span>, pos: &mut usize) -> (r: TestExpr)
    requires
        (*old(pos)) <= spans@.len(),
    ensures
        ({
            let pr = sp_p_size_test(toks_view(spans@), (*old(pos)) as int);
            view_test(r) == pr.0 && (*final(pos)) as int == pr.1
        }),
        (*old(pos)) <= (*final(pos)) <= spans@.len(),
{
    let ghost t = toks_view(spans@);
    let n = spans.len();
    let mut p = *pos;
    let mut comparator = str_to_string(":over");
    if p < n {
        proof {
            assert(t[p as int] == spans@[p as int].token@);
        }
        match &spans[p].token {
            Token::Tag(tag) => {
                comparator = tag.clone();
                p = p + 1;
            },
            _ => {},
        }
    }
    let mut limit = str_to_string("0");
    if p < n {
        proof {
            assert(t[p as int] == spans@[p as int].token@);
        }
        match &spans[p].token {
            Token::Number(num) => {
                limit = num.clone();
                p = p + 1;
            },
            Token::QuotedString(s) => {
                limit = s.clone();
                p = p + 1;
            },
            _ => {},
        }
    }
    *pos = p;
    TestExpr::Size { comparator, limit }
}

/// A `body` test after its keyword.
fn parse_body_test(spans: &Vec<Span>, pos: &mut usize) -> (r: TestExpr)
    requires
        (*old(pos)) <= spans@.len(),
    ensures
        ({
            let pr = sp_p_body_test(toks_view(spans@), (*old(pos)) as int);
            view_test(r) == pr.0 && (*final(pos)) as int == pr.1
        }),
        (*old(pos)) <= (*final(pos)) <= spans@.len(),
{
    let mt = parse_match_tags(spans, pos, str_to_string(":is"));
    let keys = parse_string_or_list(spans, pos);
    TestExpr::Body { match_type: mt, keys }
}

/// The message of `SpParseErr::UnknownTest`.
fn msg_unknown_test(ident: &String) -> (r: String)
    ensures
        r@ == sp_parse_err_msg(SpParseErr::UnknownTest(ident@)),
{
    let mut out: Vec<char> = Vec::new();
    push_str(&mut out, "Unknown test '");
    push_str(&mut out, ident.as_str());
    push_str(&mut out, "'");
    proof {
        assert(out@ =~= "Unknown test '"@ + ident@ + "'"@);
    }
    chars_to_string(&out)
}

/// The message of `SpParseErr::UnknownCommand`.
fn msg_unknown_command(ident: &String) -> (r: String)
    ensures
        r@ == sp_parse_err_msg(SpParseErr::UnknownCommand(ident@)),
{
    let mut out: Vec<char> = Vec::new();
    push_str(&mut out, "Unknown command '");
    push_str(&mut out, ident.as_str());
    push_str(&mut out, "' at top level");
    proof {
        assert(out@ =~= "Unknown command '"@ + ident@ + "' at top level"@);
    }
    chars_to_string(&out)
}

/// One test expression, dispatched on the case-insensitive test name.
fn parse_test_expr(spans: &Vec<Span>, pos: &mut usize) -> (r: Result<TestExpr, String>)
    requires
        (*old(pos)) <= spans@.len(),
    ensures
        ({
            let pr = sp_p_test_expr(toks_view(spans@), (*old(pos)) as int);
            match pr {
                Ok(p) => r matches Ok(e) && view_test(e) == p.0 && (*final(pos)) as int == p.1
                    && (*old(pos)) < (*final(pos)) <= spans@.len(),
                Err(er) => r matches Err(m) && m@ == sp_parse_err_msg(er),
            }
        }),
    decreases spans@.len() - (*old(pos)), 0int,
{
    let ghost t = toks_view(spans@);
    let n = spans.len();
    let p0 = *pos;
    if p0 >= n {
        return Err(str_to_string("Expected test expression, got end of input"));
    }
    proof {
        assert(t[p0 as int] == spans@[p0 as int].token@);
    }
    match &spans[p0].token {
        Token::Identifier(ident) => {
            if str_eq_lower(ident.as_str(), "allof") {
                *pos = p0 + 1;
                match parse_test_list(spans, pos) {
                    Ok(ts) => Ok(TestExpr::AllOf(ts)),
                    Err(m) => Err(m),
                }
            } else if str_eq_lower(ident.as_str(), "anyof") {
                *pos = p0 + 1;
                match parse_test_list(spans, pos) {
                    Ok(ts) => Ok(TestExpr::AnyOf(ts)),
                    Err(m) => Err(m),
                }
            } else if str_eq_lower(ident.as_str(), "not") {
                *pos = p0 + 1;
                match parse_test_expr(spans, pos) {
                    Ok(inner) => Ok(TestExpr::Not(Box::new(inner))),
                    Err(m) => Err(m),
                }
            } else if str_eq_lower(ident.as_str(), "header") {
                *pos = p0 + 1;
                Ok(parse_header_test(spans, pos))
            } else if str_eq_lower(ident.as_str(), "address") {
                *pos = p0 + 1;
                Ok(parse_address_test(spans, pos, false))
            } else if str_eq_lower(ident.as_str(), "envelope") {
                *pos = p0 + 1;
                Ok(parse_address_test(spans, pos, true))
            } else if str_eq_lower(ident.as_str(), "size") {
                *pos = p0 + 1;
                Ok(parse_size_test(spans, pos))
            } else if str_eq_lower(ident.as_str(), "exists") {
                *pos = p0 + 1;
                let header_names = parse_string_or_list(spans, pos);
                Ok(TestExpr::Exists { header_names })
            } else if str_eq_lower(ident.as_str(), "body") {
                *pos = p0 + 1;
                Ok(parse_body_test(spans, pos))
            } else if str_eq_lower(ident.as_str(), "true") {
                *pos = p0 + 1;
                Ok(TestExpr::True)
            } else if str_eq_lower(ident.as_str(), "false") {
                *pos = p0 + 1;
                Ok(TestExpr::False)
            } else {
                Err(msg_unknown_test(ident))
            }
        },
        _ => Err(str_to_string("Expected test expression")),
    }
}

/// A parenthesized, comma-separated test list, starting at the `(`.
fn parse_test_list(spans: &Vec<Span>, pos: &mut usize) -> (r: Result<Vec<TestExpr>, String>)
    requires
        (*old(pos)) <= spans@.len(),
    ensures
        ({
            let pr = sp_p_test_list(toks_view(spans@), (*old(pos)) as int);
            match pr {
                Ok(p) => r matches Ok(ts) && view_tests(ts@) == p.0 && (*final(pos)) as int == p.1
                    && (*old(pos)) < (*final(pos)) <= spans@.len(),
                Err(er) => r matches Err(m) && m@ == sp_parse_err_msg(er),
            }
        }),
    decreases spans@.len() - (*old(pos)), 0int,
{
    let ghost t = toks_view(spans@);
    let n = spans.len();
    let p0 = *pos;
    if p0 < n {
        proof {
            assert(t[p0 as int] == spans@[p0 as int].token@);
        }
        if matches!(&spans[p0].token, Token::LParen) {
            *pos = p0 + 1;
            return parse_test_list_items(spans, pos, true);
        }
    }
    Err(str_to_string("Expected '(' in test list"))
}

/// Elements of a test list after the `(`.
fn parse_test_list_items(spans: &Vec<Span>, pos: &mut usize, first: bool) -> (r: Result<
    Vec<TestExpr>,
    String,
>)
    requires
        (*old(pos)) <= spans@.len(),
    ensures
        ({
            let pr = sp_p_test_list_items(toks_view(spans@), (*old(pos)) as int, first);
            match pr {
                Ok(p) => r matches Ok(ts) && view_tests(ts@) == p.0 && (*final(pos)) as int == p.1
                    && (*old(pos)) < (*final(pos)) <= spans@.len(),
                Err(er) => r matches Err(m) && m@ == sp_parse_err_msg(er),
            }
        }),
    decreases spans@.len() - (*old(pos)), 1int,
{
    let ghost t = toks_view(spans@);
    let n = spans.len();
    let p0 = *pos;
    if p0 < n {
        proof {
            assert(t[p0 as int] == spans@[p0 as int].token@);
        }
        if matches!(&spans[p0].token, Token::RParen) {
            *pos = p0 + 1;
            proof {
                assert(view_tests(Seq::<TestExpr>::empty()) =~= Seq::<SpTestExpr>::empty());
            }
            return Ok(Vec::new());
        }
    }
    if !first && *pos < n {
        proof {
            assert(t[*pos as int] == spans@[*pos as int].token@);
        }
        if matches!(&spans[*pos].token, Token::Comma) {
            *pos = *pos + 1;
        }
    }
    let p1 = *pos;
    if p1 < n {
        proof {
            assert(t[p1 as int] == spans@[p1 as int].token@);
        }
        if matches!(&spans[p1].token, Token::RParen) {
            *pos = p1 + 1;
            proof {
                assert(view_tests(Seq::<TestExpr>::empty()) =~= Seq::<SpTestExpr>::empty());
            }
            return Ok(Vec::new());
        }
    }
    match parse_test_expr(spans, pos) {
        Err(m) => Err(m),
        Ok(test) => {
            match parse_test_list_items(spans, pos, false) {
                Err(m) => Err(m),
                Ok(mut rest) => {
                    let ghost old_rest = rest@;
                    rest.insert(0, test);
                    proof {
                        assert(rest@ =~= seq![test] + old_rest);
                        lemma_view_tests_prepend(old_rest, test);
                    }
                    Ok(rest)
                },
            }
        },
    }
}

/// Arguments of an action command, up to and including the `;`.
fn parse_action_args(spans: &Vec<Span>, pos: &mut usize) -> (r: Vec<Argument>)
    requires
        (*old(pos)) <= spans@.len(),
    ensures
        ({
            let pr = sp_p_action_args(toks_view(spans@), (*old(pos)) as int);
            view_arguments(r@) == pr.0 && (*final(pos)) as int == pr.1
        }),
        (*old(pos)) <= (*final(pos)) <= spans@.len(),
    decreases spans@.len() - (*old(pos)),
{
    let ghost t = toks_view(spans@);
    let n = spans.len();
    let p0 = *pos;
    if p0 >= n {
        proof {
            assert(view_arguments(Seq::<Argument>::empty()) =~= Seq::<SpArgument>::empty());
        }
        return Vec::new();
    }
    proof {
        assert(t[p0 as int] == spans@[p0 as int].token@);
    }
    match &spans[p0].token {
        Token::Semicolon => {
            *pos = p0 + 1;
            proof {
                assert(view_arguments(Seq::<Argument>::empty()) =~= Seq::<SpArgument>::empty());
            }
            Vec::new()
        },
        Token::QuotedString(s) => {
            let arg = Argument::QuotedString(s.clone());
            *pos = p0 + 1;
            let mut rest = parse_action_args(spans, pos);
            let ghost old_rest = rest@;
            rest.insert(0, arg);
            proof {
                assert(rest@ =~= seq![arg] + old_rest);
                lemma_view_arguments_prepend(old_rest, arg);
            }
            rest
        },
        Token::Number(num) => {
            let arg = Argument::Number(num.clone());
            *pos = p0 + 1;
            let mut rest = parse_action_args(spans, pos);
            let ghost old_rest = rest@;
            rest.insert(0, arg);
            proof {
                assert(rest@ =~= seq![arg] + old_rest);
                lemma_view_arguments_prepend(old_rest, arg);
            }
            rest
        },
        Token::Tag(tg) => {
            let arg = Argument::Tag(tg.clone());
            *pos = p0 + 1;
            let mut rest = parse_action_args(spans, pos);
            let ghost old_rest = rest@;
            rest.insert(0, arg);
            proof {
                assert(rest@ =~= seq![arg] + old_rest);
                lemma_view_arguments_prepend(old_rest, arg);
            }
            rest
        },
        Token::LBracket => {
            *pos = p0 + 1;
            let items = parse_quoted_items(spans, pos);
            let arg = Argument::StringList(items);
            let mut rest = parse_action_args(spans, pos);
            let ghost old_rest = rest@;
            rest.insert(0, arg);
            proof {
                assert(rest@ =~= seq![arg] + old_rest);
                lemma_view_arguments_prepend(old_rest, arg);
            }
            rest
        },
        _ => {
            proof {
                assert(view_arguments(Seq::<Argument>::empty()) =~= Seq::<SpArgument>::empty());
            }
            Vec::new()
        },
    }
}

/// One action command: an identifier name, then arguments until `;`.
fn parse_action_command(spans: &Vec<Span>, pos: &mut usize) -> (r: Result<ActionCommand, String>)
    requires
        (*old(pos)) <= spans@.len(),
    ensures
        ({
            let pr = sp_p_action_command(toks_view(spans@), (*old(pos)) as int);
            match pr {
                Ok(p) => r matches Ok(a) && a@ == p.0 && (*final(pos)) as int == p.1 && (*old(pos))
                    < (*final(pos)) <= spans@.len(),
                Err(er) => r matches Err(m) && m@ == sp_parse_err_msg(er),
            }
        }),
{
    let ghost t = toks_view(spans@);
    let n = spans.len();
    let p0 = *pos;
    if p0 >= n {
        return Err(str_to_string("Expected action name, got end of input"));
    }
    proof {
        assert(t[p0 as int] == spans@[p0 as int].token@);
    }
    match &spans[p0].token {
        Token::Identifier(name) => {
            let name_c = name.clone();
            *pos = p0 + 1;
            let arguments = parse_action_args(spans, pos);
            Ok(ActionCommand { name: name_c, arguments })
        },
        _ => Err(str_to_string("Expected action name")),
    }
}

/// Skip comment tokens.
fn skip_comments(spans: &Vec<Span>, pos: &mut usize)
    requires
        (*old(pos)) <= spans@.len(),
    ensures
        (*final(pos)) as int == sp_skip_comments(toks_view(spans@), (*old(pos)) as int),
        (*old(pos)) <= (*final(pos)) <= spans@.len(),
{
    let ghost t = toks_view(spans@);
    let n = spans.len();
    let mut p = *pos;
    loop
        invariant
            (*old(pos)) <= p <= n,
            n == spans@.len(),
            t == toks_view(spans@),
            sp_skip_comments(t, (*old(pos)) as int) == sp_skip_comments(t, p as int),
        decreases n - p,
    {
        if p >= n {
            *pos = p;
            return ;
        }
        proof {
            assert(t[p as int] == spans@[p as int].token@);
        }
        if matches!(&spans[p].token, Token::Comment(_) | Token::BlockComment(_)) {
            p = p + 1;
        } else {
            *pos = p;
            return ;
        }
    }
}

/// Commands of an action block after the `{`.
fn parse_block_items(spans: &Vec<Span>, pos: &mut usize) -> (r: Result<Vec<ActionCommand>, String>)
    requires
        (*old(pos)) <= spans@.len(),
    ensures
        ({
            let pr = sp_p_block_items(toks_view(spans@), (*old(pos)) as int);
            match pr {
                Ok(p) => r matches Ok(a) && view_actions(a@) == p.0 && (*final(pos)) as int == p.1
                    && (*old(pos)) < (*final(pos)) <= spans@.len(),
                Err(er) => r matches Err(m) && m@ == sp_parse_err_msg(er),
            }
        }),
    decreases spans@.len() - (*old(pos)),
{
    let ghost t = toks_view(spans@);
    let n = spans.len();
    skip_comments(spans, pos);
    let p1 = *pos;
    if p1 < n {
        proof {
            assert(t[p1 as int] == spans@[p1 as int].token@);
        }
        if matches!(&spans[p1].token, Token::RBrace) {
            *pos = p1 + 1;
            proof {
                assert(view_actions(Seq::<ActionCommand>::empty())
                    =~= Seq::<SpActionCommand>::empty());
            }
            return Ok(Vec::new());
        }
    }
    if p1 >= n {
        return Err(str_to_string("Unexpected end of input in action block"));
    }
    match parse_action_command(spans, pos) {
        Err(m) => Err(m),
        Ok(a) => {
            match parse_block_items(spans, pos) {
                Err(m) => Err(m),
                Ok(mut rest) => {
                    let ghost old_rest = rest@;
                    rest.insert(0, a);
                    proof {
                        assert(rest@ =~= seq![a] + old_rest);
                        lemma_view_actions_prepend(old_rest, a);
                    }
                    Ok(rest)
                },
            }
        },
    }
}

/// An action block: `{`, action commands, `}`.
fn parse_action_block(spans: &Vec<Span>, pos: &mut usize) -> (r: Result<Vec<ActionCommand>, String>)
    requires
        (*old(pos)) <= spans@.len(),
    ensures
        ({
            let pr = sp_p_action_block(toks_view(spans@), (*old(pos)) as int);
            match pr {
                Ok(p) => r matches Ok(a) && view_actions(a@) == p.0 && (*final(pos)) as int == p.1
                    && (*old(pos)) < (*final(pos)) <= spans@.len(),
                Err(er) => r matches Err(m) && m@ == sp_parse_err_msg(er),
            }
        }),
{
    let ghost t = toks_view(spans@);
    let n = spans.len();
    let p0 = *pos;
    if p0 < n {
        proof {
            assert(t[p0 as int] == spans@[p0 as int].token@);
        }
        if matches!(&spans[p0].token, Token::LBrace) {
            *pos = p0 + 1;
            return parse_block_items(spans, pos);
        }
    }
    Err(str_to_string("Expected '{' to start action block"))
}

/// The elsif/else chain after the primary block; `else` is terminal.
fn parse_alternatives(spans: &Vec<Span>, pos: &mut usize) -> (r: Result<Vec<Alternative>, String>)
    requires
        (*old(pos)) <= spans@.len(),
    ensures
        ({
            let pr = sp_p_alternatives(toks_view(spans@), (*old(pos)) as int);
            match pr {
                Ok(p) => r matches Ok(a) && view_alternatives(a@) == p.0 && (*final(pos)) as int
                    == p.1 && (*old(pos)) <= (*final(pos)) <= spans@.len(),
                Err(er) => r matches Err(m) && m@ == sp_parse_err_msg(er),
            }
        }),
    decreases spans@.len() - (*old(pos)),
{
    let ghost t = toks_view(spans@);
    let n = spans.len();
    let p0 = *pos;
    if p0 >= n {
        proof {
            assert(view_alternatives(Seq::<Alternative>::empty())
                =~= Seq::<SpAlternative>::empty());
        }
        return Ok(Vec::new());
    }
    proof {
        assert(t[p0 as int] == spans@[p0 as int].token@);
    }
    match &spans[p0].token {
        Token::Identifier(word) => {
            if str_eq_lower(word.as_str(), "elsif") {
                *pos = p0 + 1;
                match parse_test_expr(spans, pos) {
                    Err(m) => Err(m),
                    Ok(cond) => match parse_action_block(spans, pos) {
                        Err(m) => Err(m),
                        Ok(acts) => {
                            let alt = Alternative::ElsIf { condition: cond, actions: acts };
                            match parse_alternatives(spans, pos) {
                                Err(m) => Err(m),
                                Ok(mut rest) => {
                                    let ghost old_rest = rest@;
                                    rest.insert(0, alt);
                                    proof {
                                        assert(rest@ =~= seq![alt] + old_rest);
                                        lemma_view_alternatives_prepend(old_rest, alt);
                                    }
                                    Ok(rest)
                                },
                            }
                        },
                    },
                }
            } else if str_eq_lower(word.as_str(), "else") {
                *pos = p0 + 1;
                match parse_action_block(spans, pos) {
                    Err(m) => Err(m),
                    Ok(acts) => {
                        let mut r: Vec<Alternative> = Vec::new();
                        r.push(Alternative::Else { actions: acts });
                        proof {
                            assert(view_alternatives(r@) =~= seq![r@[0]@]);
                        }
                        Ok(r)
                    },
                }
            } else {
                proof {
                    assert(view_alternatives(Seq::<Alternative>::empty())
                        =~= Seq::<SpAlternative>::empty());
                }
                Ok(Vec::new())
            }
        },
        _ => {
            proof {
                assert(view_alternatives(Seq::<Alternative>::empty())
                    =~= Seq::<SpAlternative>::empty());
            }
            Ok(Vec::new())
        },
    }
}

/// A full `if` block after the `if` keyword.
fn parse_if_block(
    spans: &Vec<Span>,
    pos: &mut usize,
    name: Option<String>,
    enabled: bool,
) -> (r: Result<IfBlock, String>)
    requires
        (*old(pos)) <= spans@.len(),
    ensures
        ({
            let pr = sp_p_if_block(
                toks_view(spans@),
                (*old(pos)) as int,
                view_opt_string(name),
                enabled,
            );
            match pr {
                Ok(p) => r matches Ok(b) && b@ == p.0 && (*final(pos)) as int == p.1 && (*old(pos))
                    < (*final(pos)) <= spans@.len(),
                Err(er) => r matches Err(m) && m@ == sp_parse_err_msg(er),
            }
        }),
{
    match parse_test_expr(spans, pos) {
        Err(m) => Err(m),
        Ok(condition) => match parse_action_block(spans, pos) {
            Err(m) => Err(m),
            Ok(actions) => match parse_alternatives(spans, pos) {
                Err(m) => Err(m),
                Ok(alternatives) => Ok(
                    IfBlock { name, enabled, condition, actions, alternatives },
                ),
            },
        },
    }
}

/// Whether `pat` occurs at position `i` of `v`.
fn chars_match_at(v: &Vec<char>, i: usize, p: &str) -> (r: bool)
    requires
        i + p@.len() <= v@.len(),
    ensures
        r == (v@.subrange(i as int, i as int + p@.len()) == p@),
{
    let m = p.unicode_len();
    let n = v.len();
    let mut k: usize = 0;
    while k < m
        invariant
            m == p@.len(),
            n == v@.len(),
            i + m <= n,
            k <= m,
            forall|j: int| 0 <= j < k ==> v@[i + j] == p@[j],
        decreases m - k,
    {
        if v[i + k] != p.get_char(k) {
            proof {
                assert(v@.subrange(i as int, i as int + p@.len())[k as int] == v@[i + k]);
            }
            return false;
        }
        k += 1;
    }
    proof {
        assert(v@.subrange(i as int, i as int + p@.len()) =~= p@);
    }
    true
}

/// Whether `p` is a prefix of `v`.
fn chars_has_prefix(v: &Vec<char>, p: &str) -> (r: bool)
    ensures
        r == p@.is_prefix_of(v@),
{
    let m = p.unicode_len();
    if m > v.len() {
        return false;
    }
    let r = chars_match_at(v, 0, p);
    proof {
        if r {
            assert(p@ =~= v@.subrange(0, p@.len() as int));
        } else {
            if p@.is_prefix_of(v@) {
                assert(v@.subrange(0, p@.len() as int) =~= p@);
            }
        }
    }
    r
}

/// Whether `p` is a suffix of `v`.
fn chars_has_suffix(v: &Vec<char>, p: &str) -> (r: bool)
    ensures
        r == p@.is_suffix_of(v@),
{
    let m = p.unicode_len();
    if m > v.len() {
        return false;
    }
    let d = v.len() - m;
    let r = chars_match_at(v, d, p);
    proof {
        if r {
            assert(p@ =~= v@.subrange(v@.len() - p@.len(), v@.len() as int));
        } else {
            if p@.is_suffix_of(v@) {
                assert(v@.subrange(v@.len() - p@.len(), v@.len() as int) =~= p@);
            }
        }
    }
    r
}

/// Whether the `[DISABLED]` marker occurs anywhere in `c`.
fn contains_disabled(c: &String) -> (r: bool)
    ensures
        r == sp_contains(c@, "[DISABLED]"@),
{
    let v = to_chars(c.as_str());
    let pat = "[DISABLED]";
    proof {
        reveal_strlit("[DISABLED]");
        assert("[DISABLED]"@.len() == 10);
    }
    let m = pat.unicode_len();
    let n = v.len();
    let mut i: usize = 0;
    loop
        invariant
            v@ == c@,
            pat@ == "[DISABLED]"@,
            m == pat@.len(),
            m == 10,
            m == "[DISABLED]"@.len(),
            n == v@.len(),
            i <= n,
            forall|j: int|
                0 <= j < i ==> #[trigger] c@.subrange(j, j + "[DISABLED]"@.len())
                    != "[DISABLED]"@,
        decreases n - i,
    {
        if n - i < m {
            proof {
                assert forall|k: int|
                    !(0 <= k && k + "[DISABLED]"@.len() <= c@.len() && #[trigger] c@.subrange(
                        k,
                        k + "[DISABLED]"@.len(),
                    ) == "[DISABLED]"@) by {
                    if 0 <= k && k + "[DISABLED]"@.len() <= c@.len() {
                        assert(k < i);
                    }
                }
            }
            return false;
        }
        if chars_match_at(&v, i, pat) {
            proof {
                assert(c@.subrange(i as int, i as int + "[DISABLED]"@.len()) == "[DISABLED]"@);
            }
            return true;
        }
        i += 1;
    }
}

/// Recover the rule name from a pending `Filter: <name>` comment.
fn extract_filter_name(comment: &Option<String>) -> (r: Option<String>)
    ensures
        view_opt_string(r) == sp_extract_filter_name(view_opt_string(*comment)),
{
    match comment {
        None => None,
        Some(c) => {
            let cv = to_chars(c.as_str());
            let clen = cv.len();
            let tr = copy_trimmed(&cv, 0, clen);
            proof {
                assert(cv@.subrange(0, clen as int) =~= cv@);
            }
            if chars_has_prefix(&tr, "Filter:") {
                proof {
                    reveal_strlit("Filter:");
                    assert("Filter:"@.len() == 7);
                }
                let rest = copy_range(&tr, 7, tr.len());
                proof {
                    assert(rest@ =~= sp_trim(c@).skip(7));
                }
                let rlen = rest.len();
                let name1 = copy_trimmed(&rest, 0, rlen);
                proof {
                    assert(rest@.subrange(0, rlen as int) =~= rest@);
                }
                let name2 = if chars_has_suffix(&name1, "[DISABLED]") {
                    proof {
                        reveal_strlit("[DISABLED]");
                        assert("[DISABLED]"@.len() == 10);
                    }
                    let n1len = name1.len();
                    let cut = copy_trimmed(&name1, 0, n1len - 10);
                    proof {
                        assert(name1@.subrange(0, n1len - 10) =~= name1@.take(
                            name1@.len() - 10,
                        ));
                    }
                    cut
                } else {
                    name1
                };
                if name2.len() == 0 {
                    None
                } else {
                    Some(chars_to_string(&name2))
                }
            } else {
                None
            }
        },
    }
}

/// Whether a pending comment leaves the rule enabled.
fn pending_enabled(comment: &Option<String>) -> (r: bool)
    ensures
        r == sp_pending_enabled(view_opt_string(*comment)),
{
    match comment {
        None => true,
        Some(c) => !contains_disabled(c),
    }
}

/// Whether an identifier names a known top-level action command.
fn is_action_ident(s: &String) -> (r: bool)
    ensures
        r == sp_is_action_name(sp_lower(s@)),
{
    str_eq_lower(s.as_str(), "keep") || str_eq_lower(s.as_str(), "stop") || str_eq_lower(
        s.as_str(),
        "discard",
    ) || str_eq_lower(s.as_str(), "fileinto") || str_eq_lower(s.as_str(), "redirect")
        || str_eq_lower(s.as_str(), "reject") || str_eq_lower(s.as_str(), "setflag")
        || str_eq_lower(s.as_str(), "addflag") || str_eq_lower(s.as_str(), "removeflag")
}

/// The top-level command sequence from the current position on.
fn parse_commands(spans: &Vec<Span>, pos: &mut usize, pending: Option<String>) -> (r: Result<
    Vec<Command>,
    String,
>)
    requires
        (*old(pos)) <= spans@.len(),
    ensures
        ({
            let pr = sp_p_commands(toks_view(spans@), (*old(pos)) as int, view_opt_string(pending));
            match pr {
                Ok(cmds) => r matches Ok(v) && view_commands(v@) == cmds,
                Err(er) => r matches Err(m) && m@ == sp_parse_err_msg(er),
            }
        }),
    decreases spans@.len() - (*old(pos)),
{
    let ghost t = toks_view(spans@);
    let n = spans.len();
    let p0 = *pos;
    if p0 >= n {
        proof {
            assert(view_commands(Seq::<Command>::empty()) =~= Seq::<SpCommand>::empty());
        }
        return Ok(Vec::new());
    }
    proof {
        assert(t[p0 as int] == spans@[p0 as int].token@);
    }
    match &spans[p0].token {
        Token::Comment(text) => {
            let tc = text.clone();
            *pos = p0 + 1;
            parse_commands(spans, pos, Some(tc))
        },
        Token::BlockComment(_) => {
            *pos = p0 + 1;
            parse_commands(spans, pos, pending)
        },
        Token::Identifier(ident) => {
            if str_eq_lower(ident.as_str(), "require") {
                *pos = p0 + 1;
                let exts = parse_require_args(spans, pos);
                let cmd = Command::Require(exts);
                match parse_commands(spans, pos, pending) {
                    Err(m) => Err(m),
                    Ok(mut rest) => {
                        let ghost old_rest = rest@;
                        rest.insert(0, cmd);
                        proof {
                            assert(rest@ =~= seq![cmd] + old_rest);
                            lemma_view_commands_prepend(old_rest, cmd);
                        }
                        Ok(rest)
                    },
                }
            } else if str_eq_lower(ident.as_str(), "if") {
                *pos = p0 + 1;
                let name = extract_filter_name(&pending);
                let enabled = pending_enabled(&pending);
                match parse_if_block(spans, pos, name, enabled) {
                    Err(m) => Err(m),
                    Ok(b) => {
                        let cmd = Command::If(b);
                        match parse_commands(spans, pos, None) {
                            Err(m) => Err(m),
                            Ok(mut rest) => {
                                let ghost old_rest = rest@;
                                rest.insert(0, cmd);
                                proof {
                                    assert(rest@ =~= seq![cmd] + old_rest);
                                    lemma_view_commands_prepend(old_rest, cmd);
                                }
                                Ok(rest)
                            },
                        }
                    },
                }
            } else if is_action_ident(ident) {
                match parse_action_command(spans, pos) {
                    Err(m) => Err(m),
                    Ok(a) => {
                        let cmd = Command::Action(a);
                        match parse_commands(spans, pos, None) {
                            Err(m) => Err(m),
                            Ok(mut rest) => {
                                let ghost old_rest = rest@;
                                rest.insert(0, cmd);
                                proof {
                                    assert(rest@ =~= seq![cmd] + old_rest);
                                    lemma_view_commands_prepend(old_rest, cmd);
                                }
                                Ok(rest)
                            },
                        }
                    },
                }
            } else {
                Err(msg_unknown_command(ident))
            }
        },
        _ => Err(str_to_string("Unexpected token at top level")),
    }
}

/// Parse SIEVE script text into an AST.
///
/// Blank input yields the empty script. The result is exactly what
/// `sp_parse` describes: the command sequence on success, the diagnostic
/// message of the first lexical or grammatical error otherwise.
pub fn parse(input: &str) -> (r: Result<Script, String>)
    ensures
        ({
            match sp_parse(input@) {
                Ok(cmds) => r matches Ok(sc) && sc@.commands == cmds,
                Err(m) => r matches Err(e) && e@ == m,
            }
        }),
{
    if is_blank(input) {
        let sc = Script { commands: Vec::new() };
        proof {
            assert(view_commands(Seq::<Command>::empty()) =~= Seq::<SpCommand>::empty());
        }
        return Ok(sc);
    }
    let spans = match tokenize(input) {
        Ok(s) => s,
        Err(m) => {
            return Err(m);
        },
    };
    proof {
        assert forall|i: int| 0 <= i < spans@.len() implies sp_toks(view_spans(spans@))[i]
            == toks_view(spans@)[i] by {
            assert(view_spans(spans@)[i] == spans@[i]@);
        }
        assert(sp_toks(view_spans(spans@)) =~= toks_view(spans@));
    }
    let mut pos: usize = 0;
    match parse_commands(&spans, &mut pos, None) {
        Ok(cmds) => Ok(Script { commands: cmds }),
        Err(m) => Err(m),
    }
}

} // verus!
