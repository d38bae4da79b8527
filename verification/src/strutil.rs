//! Character-level string helpers shared by the lexer, parser and emitter.
//!
//! All text handling in this crate works over `Seq<char>` in specifications
//! and `Vec<char>` / `&str` in executable code.

use vstd::prelude::*;
use vstd::string::StrSliceExecFns;
use vstd::string::StringExecFns;

verus! {

/// ASCII whitespace, as the lexer understands it.
pub open spec fn sp_is_ws(c: char) -> bool {
    c == ' ' || c == '\t' || c == '\n' || c == '\r' || c == '\x0c'
}

/// Lower-case an ASCII letter; leave every other character alone.
pub open spec fn sp_lower_char(c: char) -> char {
    if 'A' <= c && c <= 'Z' {
        (((c as u32) + 32) as u8) as char
    } else {
        c
    }
}

/// ASCII-lower-case a whole character sequence.
pub open spec fn sp_lower(s: Seq<char>) -> Seq<char> {
    s.map_values(|c: char| sp_lower_char(c))
}

/// Whether every character of `s` is ASCII whitespace.
pub open spec fn sp_all_ws(s: Seq<char>) -> bool {
    forall|i: int| 0 <= i < s.len() ==> sp_is_ws(#[trigger] s[i])
}

/// Index of the first non-whitespace character, or `s.len()` if none.
pub open spec fn sp_trim_start_idx(s: Seq<char>) -> int
    decreases s.len(),
{
    if s.len() == 0 {
        0
    } else if sp_is_ws(s[0]) {
        1 + sp_trim_start_idx(s.drop_first())
    } else {
        0
    }
}

/// One past the index of the last non-whitespace character, or 0 if none.
pub open spec fn sp_trim_end_idx(s: Seq<char>) -> int
    decreases s.len(),
{
    if s.len() == 0 {
        0
    } else if sp_is_ws(s[s.len() - 1]) {
        sp_trim_end_idx(s.drop_last())
    } else {
        s.len() as int
    }
}

/// The sequence with leading and trailing ASCII whitespace removed.
pub open spec fn sp_trim(s: Seq<char>) -> Seq<char> {
    let a = sp_trim_start_idx(s);
    let b = sp_trim_end_idx(s);
    if a <= b {
        s.subrange(a, b)
    } else {
        Seq::empty()
    }
}

pub proof fn lemma_trim_start_idx_bounds(s: Seq<char>)
    ensures
        0 <= sp_trim_start_idx(s) <= s.len(),
        forall|i: int| 0 <= i < sp_trim_start_idx(s) ==> sp_is_ws(#[trigger] s[i]),
        sp_trim_start_idx(s) < s.len() ==> !sp_is_ws(s[sp_trim_start_idx(s)]),
    decreases s.len(),
{
    if s.len() > 0 && sp_is_ws(s[0]) {
        lemma_trim_start_idx_bounds(s.drop_first());
        assert forall|i: int| 0 <= i < sp_trim_start_idx(s) implies sp_is_ws(#[trigger] s[i]) by {
            if i > 0 {
                assert(s[i] == s.drop_first()[i - 1]);
            }
        }
    }
}

pub proof fn lemma_trim_end_idx_bounds(s: Seq<char>)
    ensures
        0 <= sp_trim_end_idx(s) <= s.len(),
        forall|i: int| sp_trim_end_idx(s) <= i < s.len() ==> sp_is_ws(#[trigger] s[i]),
        sp_trim_end_idx(s) > 0 ==> !sp_is_ws(s[sp_trim_end_idx(s) - 1]),
    decreases s.len(),
{
    if s.len() > 0 && sp_is_ws(s[s.len() - 1]) {
        lemma_trim_end_idx_bounds(s.drop_last());
        assert forall|i: int| sp_trim_end_idx(s) <= i < s.len() implies sp_is_ws(
            #[trigger] s[i],
        ) by {
            if i < s.len() - 1 {
                assert(s[i] == s.drop_last()[i]);
            }
        }
    }
}

/// Convert a string slice to a vector of its characters.
pub fn to_chars(s: &str) -> (r: Vec<char>)
    ensures
        r@ == s@,
{
    let n = s.unicode_len();
    let mut r: Vec<char> = Vec::new();
    let mut i: usize = 0;
    while i < n
        invariant
            n == s@.len(),
            i <= n,
            r@ == s@.subrange(0, i as int),
        decreases n - i,
    {
        r.push(s.get_char(i));
        proof {
            assert(r@ =~= s@.subrange(0, i + 1));
        }
        i += 1;
    }
    proof {
        assert(s@.subrange(0, n as int) =~= s@);
    }
    r
}

/// Build an owned `String` from a vector of characters.
///
/// Relies on `String`'s `FromIterator<char>` implementation: collecting
/// characters yields the string with exactly those characters in order.
#[verifier::external_body]
pub fn chars_to_string(v: &Vec<char>) -> (r: String)
    ensures
        r@ == v@,
{
    v.iter().collect()
}

/// Character-wise string equality.
pub fn str_eq(a: &str, b: &str) -> (r: bool)
    ensures
        r == (a@ == b@),
{
    let n = a.unicode_len();
    if n != b.unicode_len() {
        return false;
    }
    let mut i: usize = 0;
    while i < n
        invariant
            n == a@.len(),
            n == b@.len(),
            i <= n,
            forall|j: int| 0 <= j < i ==> a@[j] == b@[j],
        decreases n - i,
    {
        if a.get_char(i) != b.get_char(i) {
            return false;
        }
        i += 1;
    }
    proof {
        assert(a@ =~= b@);
    }
    true
}


/// ASCII-lower-case equality of a string against an (already lower-case)
/// string slice.
pub fn str_eq_lower(a: &str, b: &str) -> (r: bool)
    ensures
        r == (sp_lower(a@) == b@),
{
    let n = a.unicode_len();
    if n != b.unicode_len() {
        proof {
            assert(sp_lower(a@).len() == a@.len());
        }
        return false;
    }
    let mut i: usize = 0;
    while i < n
        invariant
            n == a@.len(),
            n == b@.len(),
            i <= n,
            forall|j: int| 0 <= j < i ==> sp_lower(a@)[j] == b@[j],
        decreases n - i,
    {
        if lower_char(a.get_char(i)) != b.get_char(i) {
            return false;
        }
        i += 1;
    }
    proof {
        assert(sp_lower(a@) =~= b@);
    }
    true
}

/// Executable ASCII lower-casing of one character.
pub fn lower_char(c: char) -> (r: char)
    ensures
        r == sp_lower_char(c),
{
    if 'A' <= c && c <= 'Z' {
        (((c as u32) + 32) as u8) as char
    } else {
        c
    }
}

/// Append every character of a string slice to a character vector.
pub fn push_str(out: &mut Vec<char>, s: &str)
    ensures
        final(out)@ == old(out)@ + s@,
{
    let n = s.unicode_len();
    let mut i: usize = 0;
    while i < n
        invariant
            n == s@.len(),
            i <= n,
            out@ == old(out)@ + s@.subrange(0, i as int),
        decreases n - i,
    {
        out.push(s.get_char(i));
        proof {
            assert(old(out)@ + s@.subrange(0, i as int) + seq![s@[i as int]] =~= old(out)@
                + s@.subrange(0, i + 1));
        }
        i += 1;
    }
    proof {
        assert(s@.subrange(0, n as int) =~= s@);
    }
}


/// Copy a string slice into an owned `String`.
pub fn str_to_string(s: &str) -> (r: String)
    ensures
        r@ == s@,
{
    String::from_str(s)
}

/// Decimal digit sequence of a natural number, most significant digit first.
pub open spec fn sp_dec(n: nat) -> Seq<char>
    decreases n,
{
    let d = ((48 + n % 10) as u8) as char;
    if n < 10 {
        seq![d]
    } else {
        sp_dec(n / 10).push(d)
    }
}

/// Executable decimal rendering of a `usize`, appended to `out`.
pub fn push_dec(out: &mut Vec<char>, n: usize)
    ensures
        final(out)@ == old(out)@ + sp_dec(n as nat),
    decreases n,
{
    let d: char = (((48 + (n % 10)) as u8) as char);
    if n < 10 {
        out.push(d);
        proof {
            assert(old(out)@.push(d) =~= old(out)@ + sp_dec(n as nat));
        }
    } else {
        push_dec(out, n / 10);
        out.push(d);
        proof {
            assert((old(out)@ + sp_dec((n / 10) as nat)).push(d) =~= old(out)@ + sp_dec(
                n as nat,
            ));
        }
    }
}


/// Executable test for ASCII whitespace.
pub fn is_ws_char(c: char) -> (r: bool)
    ensures
        r == sp_is_ws(c),
{
    c == ' ' || c == '\t' || c == '\n' || c == '\r' || c == '\x0c'
}

/// Copy the characters of `s[a..b]`.
pub fn copy_range(s: &Vec<char>, a: usize, b: usize) -> (r: Vec<char>)
    requires
        a <= b <= s@.len(),
    ensures
        r@ == s@.subrange(a as int, b as int),
{
    let mut r: Vec<char> = Vec::new();
    let mut k = a;
    while k < b
        invariant
            a <= k <= b <= s@.len(),
            r@ == s@.subrange(a as int, k as int),
        decreases b - k,
    {
        r.push(s[k]);
        proof {
            assert(r@ =~= s@.subrange(a as int, k + 1));
        }
        k += 1;
    }
    r
}

/// Copy `s[a..b]` with surrounding ASCII whitespace trimmed.
pub fn copy_trimmed(s: &Vec<char>, a: usize, b: usize) -> (r: Vec<char>)
    requires
        a <= b <= s@.len(),
    ensures
        r@ == sp_trim(s@.subrange(a as int, b as int)),
{
    let ghost sub = s@.subrange(a as int, b as int);
    let mut lo = a;
    while lo < b && is_ws_char(s[lo])
        invariant
            a <= lo <= b <= s@.len(),
            sub == s@.subrange(a as int, b as int),
            forall|k: int| 0 <= k < lo - a ==> sp_is_ws(#[trigger] sub[k]),
        decreases b - lo,
    {
        proof {
            assert(sub[lo - a] == s@[lo as int]);
        }
        lo += 1;
    }
    proof {
        lemma_trim_start_idx_bounds(sub);
        let ti = sp_trim_start_idx(sub);
        if ti < lo - a {
            assert(sp_is_ws(sub[ti]));
            assert(false);
        }
        if ti > lo - a {
            assert(sp_is_ws(sub[lo - a]));
            assert(false);
        }
    }
    let mut hi = b;
    while hi > lo && is_ws_char(s[hi - 1])
        invariant
            lo <= hi <= b,
            a <= lo <= b <= s@.len(),
            sub == s@.subrange(a as int, b as int),
            forall|k: int| hi - a <= k < sub.len() ==> sp_is_ws(#[trigger] sub[k]),
        decreases hi,
    {
        proof {
            assert(sub[hi - 1 - a] == s@[hi - 1]);
        }
        hi -= 1;
    }
    proof {
        lemma_trim_end_idx_bounds(sub);
        let te = sp_trim_end_idx(sub);
        if hi > lo {
            // hi - a is one past a non-ws character and everything after is ws
            if te < hi - a {
                assert(sp_is_ws(sub[hi - a - 1]));
                assert(false);
            }
            if te > hi - a {
                assert(sp_is_ws(sub[te - 1]));
                assert(false);
            }
        } else {
            // everything is whitespace from lo on, and everything before lo is ws
            assert(forall|k: int| 0 <= k < sub.len() ==> sp_is_ws(#[trigger] sub[k]));
            if te > 0 {
                assert(sp_is_ws(sub[te - 1]));
                assert(false);
            }
            assert(sp_trim_start_idx(sub) > sp_trim_end_idx(sub) ==> sp_trim(sub)
                == Seq::<char>::empty());
        }
    }
    let r = copy_range(s, lo, hi);
    proof {
        if hi > lo {
            assert(r@ =~= sub.subrange(lo - a, hi - a));
        } else {
            assert(r@ =~= Seq::<char>::empty());
            if sp_trim_start_idx(sub) <= sp_trim_end_idx(sub) {
                assert(sp_trim(sub) =~= Seq::<char>::empty());
            }
        }
    }
    r
}


/// Whether a string is entirely ASCII whitespace (or empty).
pub fn is_blank(s: &str) -> (r: bool)
    ensures
        r == sp_all_ws(s@),
{
    let n = s.unicode_len();
    let mut i: usize = 0;
    while i < n
        invariant
            n == s@.len(),
            i <= n,
            forall|j: int| 0 <= j < i ==> sp_is_ws(#[trigger] s@[j]),
        decreases n - i,
    {
        let c = s.get_char(i);
        if !(c == ' ' || c == '\t' || c == '\n' || c == '\r' || c == '\x0c') {
            return false;
        }
        i += 1;
    }
    true
}

/// The numeric value of a decimal digit run, most significant first.
pub open spec fn sp_digits_val(s: Seq<char>) -> int
    decreases s.len(),
{
    if s.len() == 0 {
        0
    } else {
        sp_digits_val(s.drop_last()) * 10 + (s[s.len() - 1] as int - 48)
    }
}

/// Whether every character is an ASCII decimal digit.
pub open spec fn sp_all_digits(s: Seq<char>) -> bool {
    forall|i: int| 0 <= i < s.len() ==> '0' <= #[trigger] s[i] && s[i] <= '9'
}

/// For a digit run, a longer prefix never has a smaller value.
pub proof fn lemma_digits_val_prefix_le(s: Seq<char>, k: int)
    requires
        0 <= k <= s.len(),
        sp_all_digits(s),
        sp_digits_val(s.take(k)) >= 0,
    ensures
        sp_digits_val(s.take(k)) <= sp_digits_val(s),
    decreases s.len() - k,
{
    if k < s.len() {
        assert(s.take(k + 1).drop_last() =~= s.take(k));
        assert(sp_digits_val(s.take(k + 1)) == sp_digits_val(s.take(k)) * 10 + (s[k] as int
            - 48));
        lemma_digits_val_prefix_le(s, k + 1);
    } else {
        assert(s.take(k) =~= s);
    }
}


} // verus!
