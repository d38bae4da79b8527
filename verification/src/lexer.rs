//! SIEVE script tokenizer (RFC 5228).
//!
//! `sp_lex` is the specification: a recursive function from a character
//! sequence to the token sequence (or a lexical error). `tokenize` is the
//! executable scanner, proved to return exactly what `sp_lex` describes.

use vstd::prelude::*;
use crate::strutil::{
    chars_to_string, push_dec, push_str, sp_dec, sp_is_ws, sp_lower, sp_lower_char, sp_trim,
    lower_char, to_chars, copy_range, copy_trimmed, is_ws_char,
};

verus! {

broadcast use vstd::string::group_string_axioms;

#[derive(Debug, Clone, PartialEq)]
pub enum Token {
    /// A `:tag` like `:is`, `:contains`, `:over`, `:domain`.
    Tag(String),
    /// An unquoted identifier like `if`, `header`, `allof`, `fileinto`.
    Identifier(String),
    /// A double-quoted string.
    QuotedString(String),
    /// A multi-line string `text:` ... terminated by a lone `.` line.
    MultiLineString(String),
    /// A numeric value, possibly with K/M/G suffix.
    Number(String),
    /// A `# ...` single-line comment.
    Comment(String),
    /// A `/* ... */` block comment.
    BlockComment(String),
    /// `;`
    Semicolon,
    /// `,`
    Comma,
    /// `(`
    LParen,
    /// `)`
    RParen,
    /// `{`
    LBrace,
    /// `}`
    RBrace,
    /// `[`
    LBracket,
    /// `]`
    RBracket,
}

/// Mathematical mirror of `Token`, over character sequences.
pub enum SpTok {
    Tag(Seq<char>),
    Identifier(Seq<char>),
    QuotedString(Seq<char>),
    MultiLineString(Seq<char>),
    Number(Seq<char>),
    Comment(Seq<char>),
    BlockComment(Seq<char>),
    Semicolon,
    Comma,
    LParen,
    RParen,
    LBrace,
    RBrace,
    LBracket,
    RBracket,
}

impl View for Token {
    type V = SpTok;

    open spec fn view(&self) -> SpTok {
        match self {
            Token::Tag(s) => SpTok::Tag(s@),
            Token::Identifier(s) => SpTok::Identifier(s@),
            Token::QuotedString(s) => SpTok::QuotedString(s@),
            Token::MultiLineString(s) => SpTok::MultiLineString(s@),
            Token::Number(s) => SpTok::Number(s@),
            Token::Comment(s) => SpTok::Comment(s@),
            Token::BlockComment(s) => SpTok::BlockComment(s@),
            Token::Semicolon => SpTok::Semicolon,
            Token::Comma => SpTok::Comma,
            Token::LParen => SpTok::LParen,
            Token::RParen => SpTok::RParen,
            Token::LBrace => SpTok::LBrace,
            Token::RBrace => SpTok::RBrace,
            Token::LBracket => SpTok::LBracket,
            Token::RBracket => SpTok::RBracket,
        }
    }
}

#[derive(Debug, Clone)]
pub struct Span {
    pub token: Token,
    pub offset: usize,
    pub len: usize,
}

/// Mathematical mirror of `Span`.
pub struct SpSpan {
    pub tok: SpTok,
    pub offset: int,
    pub len: int,
}

impl View for Span {
    type V = SpSpan;

    open spec fn view(&self) -> SpSpan {
        SpSpan { tok: self.token@, offset: self.offset as int, len: self.len as int }
    }
}

/// The view of a span sequence.
pub open spec fn view_spans(v: Seq<Span>) -> Seq<SpSpan> {
    v.map_values(|sp: Span| sp@)
}

/// A lexical error: the category and the offset of the offending construct.
pub enum SpLexErr {
    UnterminatedBlockComment(int),
    UnterminatedString(int),
    UnterminatedMultiLine(int),
    UnexpectedChar(char, int),
}

/// The diagnostic text of a lexical error.
pub open spec fn sp_lex_err_msg(e: SpLexErr) -> Seq<char> {
    match e {
        SpLexErr::UnterminatedBlockComment(off) => "Unterminated block comment at offset "@
            + sp_dec(off as nat),
        SpLexErr::UnterminatedString(off) => "Unterminated string at offset "@ + sp_dec(off as nat),
        SpLexErr::UnterminatedMultiLine(off) => "Unterminated multi-line string at offset "@
            + sp_dec(off as nat),
        SpLexErr::UnexpectedChar(c, off) => "Unexpected character '"@ + seq![c] + "' at offset "@
            + sp_dec(off as nat),
    }
}

/// A character that may continue a tag, identifier or number word.
pub open spec fn sp_is_word_char(c: char) -> bool {
    ('a' <= c && c <= 'z') || ('A' <= c && c <= 'Z') || ('0' <= c && c <= '9') || c == '_'
}

/// An ASCII decimal digit.
pub open spec fn sp_is_digit(c: char) -> bool {
    '0' <= c && c <= '9'
}

/// An ASCII letter or underscore, starting an identifier.
pub open spec fn sp_is_ident_start(c: char) -> bool {
    ('a' <= c && c <= 'z') || ('A' <= c && c <= 'Z') || c == '_'
}

/// A size-suffix letter after a number.
pub open spec fn sp_is_size_suffix(c: char) -> bool {
    c == 'K' || c == 'k' || c == 'M' || c == 'm' || c == 'G' || c == 'g'
}

/// Index of the next `'\n'` at or after `i`, or the end of the text.
pub open spec fn sp_line_end(s: Seq<char>, i: int) -> int
    decreases s.len() - i,
{
    if i >= s.len() {
        i
    } else if s[i] == '\n' {
        i
    } else {
        sp_line_end(s, i + 1)
    }
}

/// Index of the `'*'` of the next `*/` at or after `i`, if any.
pub open spec fn sp_block_end(s: Seq<char>, i: int) -> Option<int>
    decreases s.len() - i,
{
    if i + 1 >= s.len() {
        None
    } else if s[i] == '*' && s[i + 1] == '/' {
        Some(i)
    } else {
        sp_block_end(s, i + 1)
    }
}

/// Scan a quoted string from just after the opening quote: the unescaped
/// content and the index just past the closing quote, or `None` if the
/// string never closes.
pub open spec fn sp_scan_quoted(s: Seq<char>, i: int) -> Option<(Seq<char>, int)>
    decreases s.len() - i,
{
    if i >= s.len() {
        None
    } else if s[i] == '\\' && i + 1 < s.len() {
        match sp_scan_quoted(s, i + 2) {
            None => None,
            Some((c, j)) => Some((seq![s[i + 1]] + c, j)),
        }
    } else if s[i] == '"' {
        Some((Seq::empty(), i + 1))
    } else {
        match sp_scan_quoted(s, i + 1) {
            None => None,
            Some((c, j)) => Some((seq![s[i]] + c, j)),
        }
    }
}

/// Whether a terminator line (`.` alone, optionally followed by `\r\n`)
/// starts at line-start index `i`.
pub open spec fn sp_is_ml_term(s: Seq<char>, i: int) -> bool {
    i < s.len() && s[i] == '.' && (i + 1 >= s.len() || s[i + 1] == '\n' || (s[i + 1] == '\r' && i
        + 2 < s.len() && s[i + 2] == '\n'))
}

/// Index just past a terminator line starting at `i`: the dot, then an
/// optional `\r`, then an optional `\n`.
pub open spec fn sp_ml_skip(s: Seq<char>, i: int) -> int {
    let a = i + 1;
    let b = if a < s.len() && s[a] == '\r' {
        a + 1
    } else {
        a
    };
    if b < s.len() && s[b] == '\n' {
        b + 1
    } else {
        b
    }
}

/// Scan a multi-line literal body line by line from line start `i`:
/// the terminator line's start and the index just past it, or `None`
/// if the terminator is missing.
pub open spec fn sp_scan_ml(s: Seq<char>, i: int) -> Option<(int, int)>
    decreases s.len() - i,
{
    if i >= s.len() {
        None
    } else if sp_is_ml_term(s, i) {
        Some((i, sp_ml_skip(s, i)))
    } else {
        let le = sp_line_end(s, i);
        if le < i || le >= s.len() {
            None
        } else {
            sp_scan_ml(s, le + 1)
        }
    }
}

/// Index of the first non-word character at or after `i`.
pub open spec fn sp_word_end(s: Seq<char>, i: int) -> int
    decreases s.len() - i,
{
    if i >= s.len() {
        i
    } else if sp_is_word_char(s[i]) {
        sp_word_end(s, i + 1)
    } else {
        i
    }
}

/// Index of the first non-digit character at or after `i`.
pub open spec fn sp_digits_end(s: Seq<char>, i: int) -> int
    decreases s.len() - i,
{
    if i >= s.len() {
        i
    } else if sp_is_digit(s[i]) {
        sp_digits_end(s, i + 1)
    } else {
        i
    }
}

/// The single token starting at `i`, which must hold a non-whitespace
/// character: the token's span and the index where scanning resumes.
pub open spec fn sp_next(s: Seq<char>, i: int) -> Result<(SpSpan, int), SpLexErr> {
    let c = s[i];
    if c == ';' {
        Ok((SpSpan { tok: SpTok::Semicolon, offset: i, len: 1 }, i + 1))
    } else if c == ',' {
        Ok((SpSpan { tok: SpTok::Comma, offset: i, len: 1 }, i + 1))
    } else if c == '(' {
        Ok((SpSpan { tok: SpTok::LParen, offset: i, len: 1 }, i + 1))
    } else if c == ')' {
        Ok((SpSpan { tok: SpTok::RParen, offset: i, len: 1 }, i + 1))
    } else if c == '{' {
        Ok((SpSpan { tok: SpTok::LBrace, offset: i, len: 1 }, i + 1))
    } else if c == '}' {
        Ok((SpSpan { tok: SpTok::RBrace, offset: i, len: 1 }, i + 1))
    } else if c == '[' {
        Ok((SpSpan { tok: SpTok::LBracket, offset: i, len: 1 }, i + 1))
    } else if c == ']' {
        Ok((SpSpan { tok: SpTok::RBracket, offset: i, len: 1 }, i + 1))
    } else if c == '#' {
        let le = sp_line_end(s, i + 1);
        Ok(
            (
                SpSpan {
                    tok: SpTok::Comment(sp_trim(s.subrange(i + 1, le))),
                    offset: i,
                    len: le - i,
                },
                le,
            ),
        )
    } else if c == '/' && i + 1 < s.len() && s[i + 1] == '*' {
        match sp_block_end(s, i + 2) {
            None => Err(SpLexErr::UnterminatedBlockComment(i)),
            Some(j) => Ok(
                (
                    SpSpan {
                        tok: SpTok::BlockComment(sp_trim(s.subrange(i + 2, j))),
                        offset: i,
                        len: j + 2 - i,
                    },
                    j + 2,
                ),
            ),
        }
    } else if c == '"' {
        match sp_scan_quoted(s, i + 1) {
            None => Err(SpLexErr::UnterminatedString(i)),
            Some((content, j)) => Ok(
                (SpSpan { tok: SpTok::QuotedString(content), offset: i, len: j - i }, j),
            ),
        }
    } else if (c == 't' || c == 'T') && i + 5 <= s.len() && sp_lower(s.subrange(i, i + 5))
        == "text:"@ {
        let le = sp_line_end(s, i + 5);
        let body_start = if le < s.len() {
            le + 1
        } else {
            le
        };
        match sp_scan_ml(s, body_start) {
            None => Err(SpLexErr::UnterminatedMultiLine(i)),
            Some((term, next)) => Ok(
                (
                    SpSpan {
                        tok: SpTok::MultiLineString(s.subrange(body_start, term)),
                        offset: i,
                        len: next - i,
                    },
                    next,
                ),
            ),
        }
    } else if c == ':' {
        let j = sp_word_end(s, i + 1);
        Ok((SpSpan { tok: SpTok::Tag(sp_lower(s.subrange(i, j))), offset: i, len: j - i }, j))
    } else if sp_is_digit(c) {
        let j = sp_digits_end(s, i + 1);
        let k = if j < s.len() && sp_is_size_suffix(s[j]) {
            j + 1
        } else {
            j
        };
        Ok((SpSpan { tok: SpTok::Number(s.subrange(i, k)), offset: i, len: k - i }, k))
    } else if sp_is_ident_start(c) {
        let j = sp_word_end(s, i + 1);
        Ok((SpSpan { tok: SpTok::Identifier(s.subrange(i, j)), offset: i, len: j - i }, j))
    } else {
        Err(SpLexErr::UnexpectedChar(c, i))
    }
}

/// The token sequence of `s` from index `i` on, or the first lexical error.
pub open spec fn sp_lex(s: Seq<char>, i: int) -> Result<Seq<SpSpan>, SpLexErr>
    decreases s.len() - i,
{
    if i >= s.len() {
        Ok(Seq::empty())
    } else if sp_is_ws(s[i]) {
        sp_lex(s, i + 1)
    } else {
        match sp_next(s, i) {
            Err(e) => Err(e),
            Ok((span, j)) => if i < j <= s.len() {
                match sp_lex(s, j) {
                    Err(e) => Err(e),
                    Ok(rest) => Ok(seq![span] + rest),
                }
            } else {
                Err(SpLexErr::UnexpectedChar(s[i], i))
            },
        }
    }
}

pub proof fn lemma_line_end_bounds(s: Seq<char>, i: int)
    requires
        0 <= i,
    ensures
        i <= sp_line_end(s, i),
        i <= s.len() ==> sp_line_end(s, i) <= s.len(),
        sp_line_end(s, i) < s.len() ==> s[sp_line_end(s, i)] == '\n',
    decreases s.len() - i,
{
    if i < s.len() && s[i] != '\n' {
        lemma_line_end_bounds(s, i + 1);
    }
}

pub proof fn lemma_block_end_bounds(s: Seq<char>, i: int)
    requires
        0 <= i,
    ensures
        sp_block_end(s, i) matches Some(j) ==> i <= j && j + 2 <= s.len(),
    decreases s.len() - i,
{
    if i + 1 < s.len() && !(s[i] == '*' && s[i + 1] == '/') {
        lemma_block_end_bounds(s, i + 1);
    }
}

pub proof fn lemma_scan_quoted_bounds(s: Seq<char>, i: int)
    requires
        0 <= i,
    ensures
        sp_scan_quoted(s, i) matches Some(p) ==> i < p.1 <= s.len(),
    decreases s.len() - i,
{
    if i < s.len() {
        if s[i] == '\\' && i + 1 < s.len() {
            lemma_scan_quoted_bounds(s, i + 2);
        } else if s[i] != '"' {
            lemma_scan_quoted_bounds(s, i + 1);
        }
    }
}

pub proof fn lemma_scan_ml_bounds(s: Seq<char>, i: int)
    requires
        0 <= i,
    ensures
        sp_scan_ml(s, i) matches Some(p) ==> i <= p.0 && p.0 < p.1 <= s.len(),
    decreases s.len() - i,
{
    if i < s.len() && !sp_is_ml_term(s, i) {
        let le = sp_line_end(s, i);
        lemma_line_end_bounds(s, i);
        if i <= le < s.len() {
            lemma_scan_ml_bounds(s, le + 1);
        }
    }
}

pub proof fn lemma_word_end_bounds(s: Seq<char>, i: int)
    requires
        0 <= i,
    ensures
        i <= sp_word_end(s, i),
        i <= s.len() ==> sp_word_end(s, i) <= s.len(),
    decreases s.len() - i,
{
    if i < s.len() && sp_is_word_char(s[i]) {
        lemma_word_end_bounds(s, i + 1);
    }
}

pub proof fn lemma_digits_end_bounds(s: Seq<char>, i: int)
    requires
        0 <= i,
    ensures
        i <= sp_digits_end(s, i),
        i <= s.len() ==> sp_digits_end(s, i) <= s.len(),
    decreases s.len() - i,
{
    if i < s.len() && sp_is_digit(s[i]) {
        lemma_digits_end_bounds(s, i + 1);
    }
}

/// A successful `sp_next` always advances within the text.
pub proof fn lemma_next_advances(s: Seq<char>, i: int)
    requires
        0 <= i < s.len(),
    ensures
        sp_next(s, i) matches Ok(p) ==> i < p.1 <= s.len(),
{
    lemma_line_end_bounds(s, i + 1);
    lemma_block_end_bounds(s, i + 2);
    lemma_scan_quoted_bounds(s, i + 1);
    lemma_word_end_bounds(s, i + 1);
    lemma_digits_end_bounds(s, i + 1);
    let c = s[i];
    if (c == 't' || c == 'T') && i + 5 <= s.len() && sp_lower(s.subrange(i, i + 5)) == "text:"@ {
        let le = sp_line_end(s, i + 5);
        lemma_line_end_bounds(s, i + 5);
        let body_start = if le < s.len() {
            le + 1
        } else {
            le
        };
        lemma_scan_ml_bounds(s, body_start);
    }
}

// ---------------------------------------------------------------------------
// Executable scanner
// ---------------------------------------------------------------------------

/// Executable lexical error carrying the data its message needs.
pub enum LexErr {
    UnterminatedBlockComment(usize),
    UnterminatedString(usize),
    UnterminatedMultiLine(usize),
    UnexpectedChar(char, usize),
}

impl View for LexErr {
    type V = SpLexErr;

    open spec fn view(&self) -> SpLexErr {
        match self {
            LexErr::UnterminatedBlockComment(off) => SpLexErr::UnterminatedBlockComment(
                *off as int,
            ),
            LexErr::UnterminatedString(off) => SpLexErr::UnterminatedString(*off as int),
            LexErr::UnterminatedMultiLine(off) => SpLexErr::UnterminatedMultiLine(*off as int),
            LexErr::UnexpectedChar(c, off) => SpLexErr::UnexpectedChar(*c, *off as int),
        }
    }
}

fn is_word_char(c: char) -> (r: bool)
    ensures
        r == sp_is_word_char(c),
{
    ('a' <= c && c <= 'z') || ('A' <= c && c <= 'Z') || ('0' <= c && c <= '9') || c == '_'
}

fn is_digit_char(c: char) -> (r: bool)
    ensures
        r == sp_is_digit(c),
{
    '0' <= c && c <= '9'
}

fn is_ident_start_char(c: char) -> (r: bool)
    ensures
        r == sp_is_ident_start(c),
{
    ('a' <= c && c <= 'z') || ('A' <= c && c <= 'Z') || c == '_'
}

fn is_size_suffix_char(c: char) -> (r: bool)
    ensures
        r == sp_is_size_suffix(c),
{
    c == 'K' || c == 'k' || c == 'M' || c == 'm' || c == 'G' || c == 'g'
}

fn find_line_end(s: &Vec<char>, i: usize) -> (r: usize)
    requires
        i <= s@.len(),
    ensures
        r == sp_line_end(s@, i as int),
        i <= r <= s@.len(),
{
    let n = s.len();
    let mut j = i;
    while j < n && s[j] != '\n'
        invariant
            i <= j <= n,
            n == s@.len(),
            sp_line_end(s@, i as int) == sp_line_end(s@, j as int),
        decreases n - j,
    {
        j += 1;
    }
    j
}

fn find_block_end(s: &Vec<char>, i: usize) -> (r: Option<usize>)
    requires
        i <= s@.len(),
    ensures
        match r {
            Some(j) => sp_block_end(s@, i as int) == Some(j as int) && i <= j && j + 2 <= s@.len(),
            None => sp_block_end(s@, i as int) is None,
        },
{
    let n = s.len();
    let mut j = i;
    loop
        invariant
            i <= j <= n,
            n == s@.len(),
            sp_block_end(s@, i as int) == sp_block_end(s@, j as int),
        decreases n - j,
    {
        if n - j < 2 {
            return None;
        }
        if s[j] == '*' && s[j + 1] == '/' {
            return Some(j);
        }
        j += 1;
    }
}

fn scan_quoted(s: &Vec<char>, i: usize) -> (r: Option<(Vec<char>, usize)>)
    requires
        i <= s@.len(),
    ensures
        match r {
            Some(p) => sp_scan_quoted(s@, i as int) == Some((p.0@, p.1 as int)) && i < p.1
                <= s@.len(),
            None => sp_scan_quoted(s@, i as int) is None,
        },
{
    let n = s.len();
    let mut j = i;
    let mut content: Vec<char> = Vec::new();
    proof {
        if let Some((c, e)) = sp_scan_quoted(s@, i as int) {
            assert(Seq::<char>::empty() + c =~= c);
        }
    }
    loop
        invariant
            i <= j <= n,
            n == s@.len(),
            match sp_scan_quoted(s@, j as int) {
                Some((c, e)) => sp_scan_quoted(s@, i as int) == Some((content@ + c, e)),
                None => sp_scan_quoted(s@, i as int) is None,
            },
        decreases n - j,
    {
        if j >= n {
            return None;
        }
        if s[j] == '\\' && j + 1 < n {
            let ghost old_content = content@;
            content.push(s[j + 1]);
            proof {
                if let Some((c, e)) = sp_scan_quoted(s@, j + 2) {
                    assert(sp_scan_quoted(s@, j as int) == Some((seq![s@[j + 1]] + c, e)));
                    assert(content@ + c =~= old_content + (seq![s@[j + 1]] + c));
                }
            }
            j += 2;
        } else if s[j] == '"' {
            proof {
                assert(sp_scan_quoted(s@, j as int) == Some(
                    (Seq::<char>::empty(), j + 1 as int),
                ));
                assert(content@ + Seq::<char>::empty() =~= content@);
                lemma_scan_quoted_bounds(s@, i as int);
            }
            return Some((content, j + 1));
        } else {
            let ghost old_content = content@;
            content.push(s[j]);
            proof {
                if let Some((c, e)) = sp_scan_quoted(s@, j + 1) {
                    assert(sp_scan_quoted(s@, j as int) == Some((seq![s@[j as int]] + c, e)));
                    assert(content@ + c =~= old_content + (seq![s@[j as int]] + c));
                }
            }
            j += 1;
        }
    }
}

fn is_ml_term(s: &Vec<char>, i: usize) -> (r: bool)
    requires
        i <= s@.len(),
    ensures
        r == sp_is_ml_term(s@, i as int),
{
    let n = s.len();
    i < n && s[i] == '.' && (i + 1 >= n || s[i + 1] == '\n' || (s[i + 1] == '\r' && i + 2 < n
        && s[i + 2] == '\n'))
}

fn ml_skip(s: &Vec<char>, i: usize) -> (r: usize)
    requires
        i < s@.len(),
    ensures
        r == sp_ml_skip(s@, i as int),
        i < r,
        r <= s@.len() + 2,
{
    let n = s.len();
    let a = i + 1;
    let b = if a < n && s[a] == '\r' {
        a + 1
    } else {
        a
    };
    if b < n && s[b] == '\n' {
        b + 1
    } else {
        b
    }
}

fn scan_ml(s: &Vec<char>, i: usize) -> (r: Option<(usize, usize)>)
    requires
        i <= s@.len(),
    ensures
        match r {
            Some(p) => sp_scan_ml(s@, i as int) == Some((p.0 as int, p.1 as int)) && i <= p.0
                && p.0 < p.1 <= s@.len(),
            None => sp_scan_ml(s@, i as int) is None,
        },
{
    let n = s.len();
    let mut j = i;
    loop
        invariant
            i <= j <= n,
            n == s@.len(),
            sp_scan_ml(s@, i as int) == sp_scan_ml(s@, j as int),
        decreases n - j,
    {
        proof {
            lemma_scan_ml_bounds(s@, j as int);
        }
        if j >= n {
            return None;
        }
        if is_ml_term(s, j) {
            let next = ml_skip(s, j);
            proof {
                lemma_scan_ml_bounds(s@, j as int);
                assert(sp_scan_ml(s@, j as int) == Some((j as int, sp_ml_skip(s@, j as int))));
            }
            return Some((j, next));
        }
        let le = find_line_end(s, j);
        if le >= n {
            return None;
        }
        j = le + 1;
    }
}

fn find_word_end(s: &Vec<char>, i: usize) -> (r: usize)
    requires
        i <= s@.len(),
    ensures
        r == sp_word_end(s@, i as int),
        i <= r <= s@.len(),
{
    let n = s.len();
    let mut j = i;
    while j < n && is_word_char(s[j])
        invariant
            i <= j <= n,
            n == s@.len(),
            sp_word_end(s@, i as int) == sp_word_end(s@, j as int),
        decreases n - j,
    {
        j += 1;
    }
    j
}

fn find_digits_end(s: &Vec<char>, i: usize) -> (r: usize)
    requires
        i <= s@.len(),
    ensures
        r == sp_digits_end(s@, i as int),
        i <= r <= s@.len(),
{
    let n = s.len();
    let mut j = i;
    while j < n && is_digit_char(s[j])
        invariant
            i <= j <= n,
            n == s@.len(),
            sp_digits_end(s@, i as int) == sp_digits_end(s@, j as int),
        decreases n - j,
    {
        j += 1;
    }
    j
}



/// Whether the five characters at `i` spell `text:`, ASCII-case-insensitively.
fn matches_text_marker(s: &Vec<char>, i: usize) -> (r: bool)
    requires
        i + 5 <= s@.len(),
    ensures
        r == (sp_lower(s@.subrange(i as int, i as int + 5)) == "text:"@),
{
    let n = s.len();
    let r = lower_char(s[i]) == 't' && lower_char(s[i + 1]) == 'e' && lower_char(s[i + 2]) == 'x'
        && lower_char(s[i + 3]) == 't' && s[i + 4] == ':';
    proof {
        reveal_strlit("text:");
        assert("text:"@.len() == 5);
        let sub = s@.subrange(i as int, i as int + 5);
        let low = sp_lower(sub);
        assert(low.len() == 5);
        assert(low[0] == sp_lower_char(s@[i as int]));
        assert(low[1] == sp_lower_char(s@[i as int + 1]));
        assert(low[2] == sp_lower_char(s@[i as int + 2]));
        assert(low[3] == sp_lower_char(s@[i as int + 3]));
        assert(low[4] == sp_lower_char(s@[i as int + 4]));
        assert(sp_lower_char(':') == ':');
        if r {
            assert(low =~= "text:"@);
        } else {
            assert(low != "text:"@);
        }
    }
    r
}

/// ASCII-lower-case copy of `s[a..b]`.
fn copy_lowered(s: &Vec<char>, a: usize, b: usize) -> (r: Vec<char>)
    requires
        a <= b <= s@.len(),
    ensures
        r@ == sp_lower(s@.subrange(a as int, b as int)),
{
    let mut r: Vec<char> = Vec::new();
    let mut k = a;
    while k < b
        invariant
            a <= k <= b <= s@.len(),
            r@.len() == k - a,
            forall|m: int| 0 <= m < k - a ==> r@[m] == sp_lower_char(#[trigger] s@[a + m]),
        decreases b - k,
    {
        r.push(lower_char(s[k]));
        k += 1;
    }
    proof {
        let sub = s@.subrange(a as int, b as int);
        assert forall|m: int| 0 <= m < r@.len() implies r@[m] == sp_lower(sub)[m] by {
            assert(sub[m] == s@[a + m]);
        }
        assert(r@ =~= sp_lower(sub));
    }
    r
}

/// Scan one token starting at the non-whitespace character at `i`.
fn next_token(s: &Vec<char>, i: usize) -> (r: Result<(Span, usize), LexErr>)
    requires
        i < s@.len(),
        !sp_is_ws(s@[i as int]),
    ensures
        match r {
            Ok(p) => sp_next(s@, i as int) == Ok::<(SpSpan, int), SpLexErr>((p.0@, p.1 as int))
                && i < p.1 <= s@.len(),
            Err(e) => sp_next(s@, i as int) == Err::<(SpSpan, int), SpLexErr>(e@),
        },
{
    proof {
        lemma_next_advances(s@, i as int);
    }
    let n = s.len();
    let c = s[i];
    if c == ';' {
        Ok((Span { token: Token::Semicolon, offset: i, len: 1 }, i + 1))
    } else if c == ',' {
        Ok((Span { token: Token::Comma, offset: i, len: 1 }, i + 1))
    } else if c == '(' {
        Ok((Span { token: Token::LParen, offset: i, len: 1 }, i + 1))
    } else if c == ')' {
        Ok((Span { token: Token::RParen, offset: i, len: 1 }, i + 1))
    } else if c == '{' {
        Ok((Span { token: Token::LBrace, offset: i, len: 1 }, i + 1))
    } else if c == '}' {
        Ok((Span { token: Token::RBrace, offset: i, len: 1 }, i + 1))
    } else if c == '[' {
        Ok((Span { token: Token::LBracket, offset: i, len: 1 }, i + 1))
    } else if c == ']' {
        Ok((Span { token: Token::RBracket, offset: i, len: 1 }, i + 1))
    } else if c == '#' {
        let le = find_line_end(s, i + 1);
        let text = copy_trimmed(s, i + 1, le);
        Ok((Span { token: Token::Comment(chars_to_string(&text)), offset: i, len: le - i }, le))
    } else if c == '/' && i + 1 < n && s[i + 1] == '*' {
        match find_block_end(s, i + 2) {
            None => Err(LexErr::UnterminatedBlockComment(i)),
            Some(j) => {
                let text = copy_trimmed(s, i + 2, j);
                Ok(
                    (
                        Span {
                            token: Token::BlockComment(chars_to_string(&text)),
                            offset: i,
                            len: j + 2 - i,
                        },
                        j + 2,
                    ),
                )
            },
        }
    } else if c == '"' {
        match scan_quoted(s, i + 1) {
            None => Err(LexErr::UnterminatedString(i)),
            Some((content, j)) => Ok(
                (
                    Span {
                        token: Token::QuotedString(chars_to_string(&content)),
                        offset: i,
                        len: j - i,
                    },
                    j,
                ),
            ),
        }
    } else if (c == 't' || c == 'T') && n - i >= 5 && matches_text_marker(s, i) {
        let le = find_line_end(s, i + 5);
        let body_start = if le < n {
            le + 1
        } else {
            le
        };
        match scan_ml(s, body_start) {
            None => Err(LexErr::UnterminatedMultiLine(i)),
            Some((term, next)) => {
                let body = copy_range(s, body_start, term);
                Ok(
                    (
                        Span {
                            token: Token::MultiLineString(chars_to_string(&body)),
                            offset: i,
                            len: next - i,
                        },
                        next,
                    ),
                )
            },
        }
    } else if c == ':' {
        let j = find_word_end(s, i + 1);
        let tag = copy_lowered(s, i, j);
        Ok((Span { token: Token::Tag(chars_to_string(&tag)), offset: i, len: j - i }, j))
    } else if is_digit_char(c) {
        let j = find_digits_end(s, i + 1);
        let k = if j < n && is_size_suffix_char(s[j]) {
            j + 1
        } else {
            j
        };
        let num = copy_range(s, i, k);
        Ok((Span { token: Token::Number(chars_to_string(&num)), offset: i, len: k - i }, k))
    } else if is_ident_start_char(c) {
        let j = find_word_end(s, i + 1);
        let word = copy_range(s, i, j);
        Ok((Span { token: Token::Identifier(chars_to_string(&word)), offset: i, len: j - i }, j))
    } else {
        Err(LexErr::UnexpectedChar(c, i))
    }
}

/// The diagnostic string of a lexical error.
fn lex_err_to_string(e: &LexErr) -> (r: String)
    ensures
        r@ == sp_lex_err_msg(e@),
{
    let mut out: Vec<char> = Vec::new();
    match e {
        LexErr::UnterminatedBlockComment(off) => {
            push_str(&mut out, "Unterminated block comment at offset ");
            push_dec(&mut out, *off);
        },
        LexErr::UnterminatedString(off) => {
            push_str(&mut out, "Unterminated string at offset ");
            push_dec(&mut out, *off);
        },
        LexErr::UnterminatedMultiLine(off) => {
            push_str(&mut out, "Unterminated multi-line string at offset ");
            push_dec(&mut out, *off);
        },
        LexErr::UnexpectedChar(c, off) => {
            push_str(&mut out, "Unexpected character '");
            out.push(*c);
            push_str(&mut out, "' at offset ");
            push_dec(&mut out, *off);
            proof {
                assert(sp_lex_err_msg(e@) =~= "Unexpected character '"@ + seq![*c]
                    + "' at offset "@ + sp_dec(*off as nat));
                assert(out@ =~= sp_lex_err_msg(e@));
            }
        },
    }
    chars_to_string(&out)
}

/// Tokenize SIEVE script text.
///
/// Returns exactly the token sequence `sp_lex` describes, or the diagnostic
/// message of the first lexical error.
pub fn tokenize(input: &str) -> (r: Result<Vec<Span>, String>)
    ensures
        sp_lex(input@, 0) matches Ok(toks) ==> r matches Ok(v) && view_spans(v@) == toks,
        sp_lex(input@, 0) matches Err(e) ==> r matches Err(m) && m@ == sp_lex_err_msg(e),
{
    let s = to_chars(input);
    let n = s.len();
    let mut tokens: Vec<Span> = Vec::new();
    let mut i: usize = 0;
    loop
        invariant
            i <= n,
            n == s@.len(),
            s@ == input@,
            match sp_lex(s@, i as int) {
                Ok(rest) => sp_lex(s@, 0) == Ok::<Seq<SpSpan>, SpLexErr>(
                    view_spans(tokens@) + rest,
                ),
                Err(e) => sp_lex(s@, 0) == Err::<Seq<SpSpan>, SpLexErr>(e),
            },
        decreases n - i,
    {
        if i >= n {
            proof {
                assert(view_spans(tokens@) + Seq::<SpSpan>::empty() =~= view_spans(tokens@));
            }
            return Ok(tokens);
        }
        if is_ws_char(s[i]) {
            i += 1;
        } else {
            match next_token(&s, i) {
                Err(e) => {
                    return Err(lex_err_to_string(&e));
                },
                Ok((span, j)) => {
                    proof {
                        let ghost rest0 = sp_lex(s@, i as int);
                        if let Ok(rest) = sp_lex(s@, j as int) {
                            assert(view_spans(tokens@.push(span)) =~= view_spans(tokens@) + seq![
                                span@,
                            ]);
                            assert(view_spans(tokens@) + (seq![span@] + rest) =~= (view_spans(
                                tokens@,
                            ) + seq![span@]) + rest);
                        }
                    }
                    tokens.push(span);
                    i = j;
                },
            }
        }
    }
}

} // verus!
