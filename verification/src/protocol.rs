//! Pure helpers for the ManageSieve (RFC 5804) line protocol.
//!
//! The network client itself does I/O and lives outside this crate; these
//! functions carry its computing parts: reading a quoted string or a
//! literal-size marker out of a response line, classifying a response
//! line, and escaping a script name for a command line.

use vstd::prelude::*;
use crate::emitter::{sp_escape, sp_esc_char};
use crate::strutil::{
    chars_to_string, copy_trimmed, lemma_digits_val_prefix_le, sp_all_digits, sp_digits_val,
    sp_trim, to_chars,
};

verus! {

broadcast use vstd::string::group_string_axioms;

/// Unescape a quoted string's content from index `i` (just after the
/// opening quote): a backslash takes the next character verbatim, a bare
/// closing quote ends the string, and running out of characters (or a
/// trailing backslash) fails.
pub open spec fn sp_unquote_from(t: Seq<char>, i: int) -> Option<Seq<char>>
    decreases t.len() - i,
{
    if i < 0 || i >= t.len() {
        None
    } else if t[i] == '\\' {
        if i + 1 < t.len() {
            match sp_unquote_from(t, i + 2) {
                None => None,
                Some(rest) => Some(seq![t[i + 1]] + rest),
            }
        } else {
            None
        }
    } else if t[i] == '"' {
        Some(Seq::empty())
    } else {
        match sp_unquote_from(t, i + 1) {
            None => None,
            Some(rest) => Some(seq![t[i]] + rest),
        }
    }
}

/// The quoted string at the start of a (trimmed) response line, if any.
pub open spec fn sp_extract_quoted(s: Seq<char>) -> Option<Seq<char>> {
    let t = sp_trim(s);
    if t.len() > 0 && t[0] == '"' {
        sp_unquote_from(t, 1)
    } else {
        None
    }
}

/// Read the quoted string at the start of a response line.
pub fn extract_quoted_string(s: &str) -> (r: Option<String>)
    ensures
        ({
            match sp_extract_quoted(s@) {
                Some(content) => r matches Some(v) && v@ == content,
                None => r is None,
            }
        }),
{
    let cv = to_chars(s);
    let clen = cv.len();
    let t = copy_trimmed(&cv, 0, clen);
    proof {
        assert(cv@.subrange(0, clen as int) =~= cv@);
    }
    let n = t.len();
    if n == 0 || t[0] != '"' {
        return None;
    }
    let mut out: Vec<char> = Vec::new();
    let mut i: usize = 1;
    proof {
        if let Some(rest) = sp_unquote_from(t@, 1) {
            assert(Seq::<char>::empty() + rest =~= rest);
        }
    }
    loop
        invariant
            1 <= i <= n,
            n == t@.len(),
            t@ == sp_trim(s@),
            t@.len() > 0 && t@[0] == '"',
            match sp_unquote_from(t@, i as int) {
                Some(rest) => sp_unquote_from(t@, 1) == Some(out@ + rest),
                None => sp_unquote_from(t@, 1) is None,
            },
        decreases n - i,
    {
        if i >= n {
            return None;
        }
        if t[i] == '\\' {
            if i + 1 < n {
                let ghost pre = out@;
                out.push(t[i + 1]);
                proof {
                    if let Some(rest) = sp_unquote_from(t@, i + 2) {
                        assert(sp_unquote_from(t@, i as int) == Some(seq![t@[i + 1]] + rest));
                        assert(out@ + rest =~= pre + (seq![t@[i + 1]] + rest));
                    }
                }
                i += 2;
            } else {
                return None;
            }
        } else if t[i] == '"' {
            proof {
                assert(sp_unquote_from(t@, i as int) == Some(Seq::<char>::empty()));
                assert(out@ + Seq::<char>::empty() =~= out@);
            }
            return Some(chars_to_string(&out));
        } else {
            let ghost pre = out@;
            out.push(t[i]);
            proof {
                if let Some(rest) = sp_unquote_from(t@, i + 1) {
                    assert(sp_unquote_from(t@, i as int) == Some(seq![t@[i as int]] + rest));
                    assert(out@ + rest =~= pre + (seq![t@[i as int]] + rest));
                }
            }
            i += 1;
        }
    }
}

/// Index of the first `'}'` at or after `i`, or the end of the text.
pub open spec fn sp_brace_pos(s: Seq<char>, i: int) -> int
    decreases s.len() - i,
{
    if i < 0 || i >= s.len() {
        i
    } else if s[i] == '}' {
        i
    } else {
        sp_brace_pos(s, i + 1)
    }
}

/// The sequence with trailing `'+'` characters removed.
pub open spec fn sp_trim_plus_end(s: Seq<char>) -> Seq<char>
    decreases s.len(),
{
    if s.len() > 0 && s[s.len() - 1] == '+' {
        sp_trim_plus_end(s.drop_last())
    } else {
        s
    }
}

/// The value a literal-size digit run parses to, as `usize::parse` would:
/// an optional `+`, then at least one digit, valued at most `usize::MAX`.
pub open spec fn sp_parse_usize(s: Seq<char>) -> Option<usize> {
    let body = if s.len() > 0 && s[0] == '+' {
        s.skip(1)
    } else {
        s
    };
    if body.len() == 0 || !sp_all_digits(body) {
        None
    } else if sp_digits_val(body) > usize::MAX {
        None
    } else {
        Some(sp_digits_val(body) as usize)
    }
}

/// The size of a `{N}` or `{N+}` literal marker at the start of a
/// (trimmed) response line, if any.
pub open spec fn sp_extract_literal_size(s: Seq<char>) -> Option<usize> {
    let t = sp_trim(s);
    if t.len() > 0 && t[0] == '{' {
        let e = sp_brace_pos(t, 0);
        if e >= t.len() {
            None
        } else {
            sp_parse_usize(sp_trim_plus_end(t.subrange(1, e)))
        }
    } else {
        None
    }
}

/// Parse a decimal number as `str::parse::<usize>` would.
fn parse_usize_digits(v: &Vec<char>) -> (r: Option<usize>)
    ensures
        r == sp_parse_usize(v@),
{
    let n = v.len();
    let start: usize = if n > 0 && v[0] == '+' {
        1
    } else {
        0
    };
    let ghost body = if v@.len() > 0 && v@[0] == '+' {
        v@.skip(1)
    } else {
        v@
    };
    proof {
        assert(body =~= v@.subrange(start as int, n as int));
    }
    if start >= n {
        return None;
    }
    let mut acc: usize = 0;
    let mut i = start;
    while i < n
        invariant
            start <= i <= n,
            n == v@.len(),
            body == v@.subrange(start as int, n as int),
            body == (if v@.len() > 0 && v@[0] == '+' {
                v@.skip(1)
            } else {
                v@
            }),
            acc as int == sp_digits_val(body.take(i - start)),
            sp_all_digits(body.take(i - start)),
        decreases n - i,
    {
        let c = v[i];
        if !('0' <= c && c <= '9') {
            proof {
                assert(body[i - start] == c);
                assert(!sp_all_digits(body));
            }
            return None;
        }
        let d: usize = (c as usize) - 48;
        proof {
            assert(body.take(i - start + 1).drop_last() =~= body.take(i - start));
            assert(body[i - start] == c);
            assert(sp_digits_val(body.take(i - start + 1)) == acc as int * 10 + (c as int - 48));
        }
        if acc > (usize::MAX - d) / 10 {
            proof {
                if sp_all_digits(body) {
                    lemma_digits_val_prefix_le(body, i - start + 1);
                }
            }
            return None;
        }
        acc = acc * 10 + d;
        proof {
            assert forall|j: int| 0 <= j < i - start + 1 implies '0' <= #[trigger] body.take(
                i - start + 1,
            )[j] && body.take(i - start + 1)[j] <= '9' by {
                if j < i - start {
                    assert(body.take(i - start + 1)[j] == body.take(i - start)[j]);
                }
            }
        }
        i += 1;
    }
    proof {
        assert(body.take(n - start) =~= body);
    }
    Some(acc)
}

/// Read the size of a `{N}` / `{N+}` literal marker in a response line.
pub fn extract_literal_size(s: &str) -> (r: Option<usize>)
    ensures
        r == sp_extract_literal_size(s@),
{
    let cv = to_chars(s);
    let clen = cv.len();
    let t = copy_trimmed(&cv, 0, clen);
    proof {
        assert(cv@.subrange(0, clen as int) =~= cv@);
    }
    let n = t.len();
    if n == 0 || t[0] != '{' {
        return None;
    }
    let mut e: usize = 0;
    while e < n && t[e] != '}'
        invariant
            e <= n,
            n == t@.len(),
            sp_brace_pos(t@, 0) == sp_brace_pos(t@, e as int),
        decreases n - e,
    {
        e += 1;
    }
    if e >= n {
        return None;
    }
    let mut inner: Vec<char> = Vec::new();
    let mut k: usize = 1;
    while k < e
        invariant
            1 <= k <= e < n,
            n == t@.len(),
            inner@ == t@.subrange(1, k as int),
        decreases e - k,
    {
        inner.push(t[k]);
        proof {
            assert(inner@ =~= t@.subrange(1, k + 1));
        }
        k += 1;
    }
    let mut hi = inner.len();
    proof {
        assert(inner@.take(inner@.len() as int) =~= inner@);
    }
    while hi > 0 && inner[hi - 1] == '+'
        invariant
            hi <= inner@.len(),
            sp_trim_plus_end(inner@) == sp_trim_plus_end(inner@.take(hi as int)),
        decreases hi,
    {
        proof {
            assert(inner@.take(hi as int).drop_last() =~= inner@.take(hi - 1));
            assert(inner@.take(hi as int)[hi - 1] == inner@[hi - 1]);
        }
        hi -= 1;
    }
    let mut digits: Vec<char> = Vec::new();
    let mut m: usize = 0;
    while m < hi
        invariant
            m <= hi <= inner@.len(),
            digits@ == inner@.subrange(0, m as int),
        decreases hi - m,
    {
        digits.push(inner[m]);
        proof {
            assert(digits@ =~= inner@.subrange(0, m + 1));
        }
        m += 1;
    }
    proof {
        let tp = sp_trim_plus_end(inner@.take(hi as int));
        if hi < inner@.len() {
        } else {
            assert(inner@.take(hi as int) =~= inner@);
        }
        assert(sp_trim_plus_end(inner@.take(hi as int)) == inner@.take(hi as int)) by {
            if hi > 0 {
                assert(inner@.take(hi as int)[hi - 1] == inner@[hi - 1]);
            }
        }
        assert(digits@ =~= inner@.take(hi as int));
    }
    parse_usize_digits(&digits)
}

/// Escape a script name or argument for a ManageSieve command line:
/// backslashes and double quotes are backslash-escaped.
pub fn escape_sieve(s: &str) -> (r: String)
    ensures
        r@ == sp_escape(s@),
{
    let v = to_chars(s);
    let n = v.len();
    let mut out: Vec<char> = Vec::new();
    let mut i: usize = 0;
    proof {
        assert(s@.skip(0) =~= s@);
    }
    while i < n
        invariant
            i <= n,
            n == v@.len(),
            v@ == s@,
            sp_escape(s@) == out@ + sp_escape(s@.skip(i as int)),
        decreases n - i,
    {
        let c = v[i];
        let ghost pre = out@;
        if c == '\\' {
            out.push('\\');
            out.push('\\');
        } else if c == '"' {
            out.push('\\');
            out.push('"');
        } else {
            out.push(c);
        }
        proof {
            assert(s@.skip(i as int)[0] == s@[i as int]);
            assert(s@.skip(i as int).drop_first() =~= s@.skip(i + 1));
            assert(sp_escape(s@.skip(i as int)) == sp_esc_char(s@[i as int]) + sp_escape(
                s@.skip(i + 1),
            ));
            assert(out@ =~= pre + sp_esc_char(s@[i as int]));
            assert(pre + (sp_esc_char(s@[i as int]) + sp_escape(s@.skip(i + 1))) =~= out@
                + sp_escape(s@.skip(i + 1)));
        }
        i += 1;
    }
    proof {
        assert(s@.skip(0) =~= s@);
        assert(s@.skip(n as int) =~= Seq::<char>::empty());
        assert(sp_escape(Seq::<char>::empty()) =~= Seq::<char>::empty());
        assert(out@ + Seq::<char>::empty() =~= out@);
    }
    chars_to_string(&out)
}

/// How a response line classifies: `OK` ends a command successfully,
/// `NO` and `BYE` end it with a failure, anything else is payload.
#[derive(Debug, Clone, Copy, PartialEq, Eq, Structural)]
pub enum LineClass {
    Done,
    Failed,
    Payload,
}

/// The class of a (trimmed) response line.
pub open spec fn sp_classify_line(s: Seq<char>) -> LineClass {
    let t = sp_trim(s);
    if "OK"@.is_prefix_of(t) {
        LineClass::Done
    } else if "NO"@.is_prefix_of(t) {
        LineClass::Failed
    } else if "BYE"@.is_prefix_of(t) {
        LineClass::Failed
    } else {
        LineClass::Payload
    }
}

/// Classify one server response line.
pub fn classify_line(s: &str) -> (r: LineClass)
    ensures
        r == sp_classify_line(s@),
{
    let cv = to_chars(s);
    let clen = cv.len();
    let t = copy_trimmed(&cv, 0, clen);
    proof {
        assert(cv@.subrange(0, clen as int) =~= cv@);
    }
    if starts_with_lit(&t, "OK") {
        LineClass::Done
    } else if starts_with_lit(&t, "NO") {
        LineClass::Failed
    } else if starts_with_lit(&t, "BYE") {
        LineClass::Failed
    } else {
        LineClass::Payload
    }
}

/// Whether `p` is a prefix of `v`.
fn starts_with_lit(v: &Vec<char>, p: &str) -> (r: bool)
    ensures
        r == p@.is_prefix_of(v@),
{
    let m = vstd::string::StrSliceExecFns::unicode_len(p);
    if m > v.len() {
        return false;
    }
    let mut k: usize = 0;
    while k < m
        invariant
            k <= m,
            m == p@.len(),
            m <= v@.len(),
            forall|j: int| 0 <= j < k ==> v@[j] == p@[j],
        decreases m - k,
    {
        if v[k] != vstd::string::StrSliceExecFns::get_char(p, k) {
            proof {
                if p@.is_prefix_of(v@) {
                    assert(v@.subrange(0, p@.len() as int)[k as int] == v@[k as int]);
                }
            }
            return false;
        }
        k += 1;
    }
    proof {
        assert(p@ =~= v@.subrange(0, p@.len() as int));
    }
    true
}

} // verus!
