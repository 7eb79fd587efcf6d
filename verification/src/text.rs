//! Character-level building blocks for the rule patterns: character
//! classes, maximal runs, literal prefixes, and the conversions between
//! `String` text and the `Vec<char>` form the engine scans.

use vstd::prelude::*;
use vstd::string::StrSliceExecFns;

verus! {

/// The classes of characters that the rule patterns repeat over.
#[derive(Clone, Copy)]
pub enum CharClass {
    /// ASCII letters, digits and underscore: the handle characters of the
    /// x.com and twitter.com rules.
    Word,
    /// Word characters plus `.`: the handle characters of the tiktok.com
    /// rule.
    Tiktok,
    /// Word characters plus `.` and `-`: the path characters of the
    /// vm.tiktok.com rule.
    VmPath,
    /// ASCII decimal digits: the artwork identifier of the pixiv.net rule.
    Digit,
    /// Any character except a line break: the unconstrained path remainder
    /// of the bsky.app rule.
    Line,
}

/// A word character: ASCII letter, digit or underscore.  The word-boundary
/// check in front of the scheme keeps a rule from firing inside a longer
/// word such as `xhttp://`.
pub open spec fn is_word_char(c: char) -> bool {
    ||| 'a' as u32 <= c as u32 && c as u32 <= 'z' as u32
    ||| 'A' as u32 <= c as u32 && c as u32 <= 'Z' as u32
    ||| '0' as u32 <= c as u32 && c as u32 <= '9' as u32
    ||| c == '_'
}

/// An ASCII decimal digit.
pub open spec fn is_digit_char(c: char) -> bool {
    '0' as u32 <= c as u32 && c as u32 <= '9' as u32
}

/// An ASCII lower-case letter, as in pixiv's two-letter locale segment.
pub open spec fn is_lower_char(c: char) -> bool {
    'a' as u32 <= c as u32 && c as u32 <= 'z' as u32
}

/// Membership of a character in one of the pattern classes.
pub open spec fn in_class(k: CharClass, c: char) -> bool {
    match k {
        CharClass::Word => is_word_char(c),
        CharClass::Tiktok => is_word_char(c) || c == '.',
        CharClass::VmPath => is_word_char(c) || c == '.' || c == '-',
        CharClass::Digit => is_digit_char(c),
        CharClass::Line => c != '\n',
    }
}

/// Runtime test for [`is_word_char`].
pub fn word_char(c: char) -> (b: bool)
    ensures
        b == is_word_char(c),
{
    let u: u32 = c as u32;
    ('a' as u32 <= u && u <= 'z' as u32) || ('A' as u32 <= u && u <= 'Z' as u32) || ('0' as u32
        <= u && u <= '9' as u32) || c == '_'
}

/// Runtime test for [`in_class`].
pub fn class_holds(k: CharClass, c: char) -> (b: bool)
    ensures
        b == in_class(k, c),
{
    match k {
        CharClass::Word => word_char(c),
        CharClass::Tiktok => word_char(c) || c == '.',
        CharClass::VmPath => word_char(c) || c == '.' || c == '-',
        CharClass::Digit => {
            let u: u32 = c as u32;
            '0' as u32 <= u && u <= '9' as u32
        },
        CharClass::Line => c != '\n',
    }
}

/// Length of the maximal run of class-`k` characters starting at `i`.
pub open spec fn run_len(k: CharClass, s: Seq<char>, i: int) -> int
    decreases s.len() - i,
{
    if i < s.len() && in_class(k, s[i]) {
        1 + run_len(k, s, i + 1)
    } else {
        0
    }
}

/// A maximal run is non-negative and stays inside the text.
pub proof fn lemma_run_len_bounds(k: CharClass, s: Seq<char>, i: int)
    requires
        0 <= i <= s.len(),
    ensures
        0 <= run_len(k, s, i),
        i + run_len(k, s, i) <= s.len(),
    decreases s.len() - i,
{
    if i < s.len() && in_class(k, s[i]) {
        lemma_run_len_bounds(k, s, i + 1);
    }
}

/// A run of exactly `n` class-`k` characters followed by the end of the
/// text or a character outside the class has maximal run length `n`.
pub proof fn lemma_run_len_exact(k: CharClass, s: Seq<char>, i: int, n: int)
    requires
        0 <= i,
        0 <= n,
        i + n <= s.len(),
        forall|m: int| i <= m < i + n ==> #[trigger] in_class(k, s[m]),
        i + n == s.len() || !in_class(k, s[i + n]),
    ensures
        run_len(k, s, i) == n,
    decreases n,
{
    if n == 0 {
        assert(run_len(k, s, i) == 0);
    } else {
        assert(in_class(k, s[i]));
        lemma_run_len_exact(k, s, i + 1, n - 1);
    }
}

/// Computes [`run_len`]: scans forward while the class holds.
pub fn run_end(k: CharClass, v: &Vec<char>, i: usize) -> (e: usize)
    requires
        i <= v@.len(),
    ensures
        e - i == run_len(k, v@, i as int),
        i <= e <= v@.len(),
{
    let mut j: usize = i;
    while j < v.len() && class_holds(k, v[j])
        invariant
            i <= j <= v@.len(),
            run_len(k, v@, i as int) == (j - i) + run_len(k, v@, j as int),
        decreases v@.len() - j,
    {
        assert(run_len(k, v@, j as int) == 1 + run_len(k, v@, j + 1));
        j = j + 1;
    }
    assert(run_len(k, v@, j as int) == 0);
    j
}

/// The characters of `p` occur in `s` starting at position `i`.
pub open spec fn has_prefix(s: Seq<char>, i: int, p: Seq<char>) -> bool {
    &&& 0 <= i
    &&& i + p.len() <= s.len()
    &&& forall|m: int| 0 <= m < p.len() ==> s[i + m] == p[m]
}

/// Checks whether the literal `p` occurs in `v` at position `j`; on success
/// returns the position just past it.
pub fn match_lit(v: &Vec<char>, j: usize, p: &str) -> (res: Option<usize>)
    requires
        j <= v@.len(),
    ensures
        match res {
            Some(e) => has_prefix(v@, j as int, p@) && e == j + p@.len() && e <= v@.len(),
            None => !has_prefix(v@, j as int, p@),
        },
{
    let n: usize = p.unicode_len();
    let vl: usize = v.len();
    if n > vl - j {
        return None;
    }
    let mut m: usize = 0;
    while m < n
        invariant
            0 <= m <= n,
            n == p@.len(),
            vl == v@.len(),
            j + n <= vl,
            forall|q: int| 0 <= q < m ==> v@[j + q] == p@[q],
        decreases n - m,
    {
        if v[j + m] != p.get_char(m) {
            return None;
        }
        m = m + 1;
    }
    Some(j + n)
}

/// Appends the characters of the literal `p` to `out`.
pub fn append_lit(out: &mut Vec<char>, p: &str)
    ensures
        final(out)@ == old(out)@ + p@,
{
    let n: usize = p.unicode_len();
    let mut m: usize = 0;
    while m < n
        invariant
            0 <= m <= n,
            n == p@.len(),
            out@ == old(out)@ + p@.subrange(0, m as int),
        decreases n - m,
    {
        out.push(p.get_char(m));
        assert(p@.subrange(0, m as int).push(p@[m as int]) =~= p@.subrange(0, m + 1));
        m = m + 1;
    }
    assert(old(out)@ + p@.subrange(0, n as int) =~= old(out)@ + p@);
}

/// Appends the characters `v[from..to]` to `out`.
pub fn append_range(out: &mut Vec<char>, v: &Vec<char>, from: usize, to: usize)
    requires
        from <= to <= v@.len(),
    ensures
        final(out)@ == old(out)@ + v@.subrange(from as int, to as int),
{
    let mut m: usize = from;
    while m < to
        invariant
            from <= m <= to <= v@.len(),
            out@ == old(out)@ + v@.subrange(from as int, m as int),
        decreases to - m,
    {
        out.push(v[m]);
        assert(v@.subrange(from as int, m as int).push(v@[m as int]) =~= v@.subrange(
            from as int,
            m + 1,
        ));
        m = m + 1;
    }
}

/// The characters of `s`, in order, as a vector.
pub fn chars_of(s: &str) -> (r: Vec<char>)
    ensures
        r@ == s@,
{
    broadcast use vstd::string::group_string_axioms;

    let mut r: Vec<char> = Vec::new();
    for c in it: s.chars()
        invariant
            it.seq() == s@,
            r@.len() == it.index(),
            forall|j: int| 0 <= j < r@.len() ==> r@[j] == it.seq()[j],
    {
        r.push(c);
    }
    assert(r@ =~= s@);
    r
}

/// Relies on `String::push`: appends exactly the given character to the
/// end of the string.
#[verifier::external_body]
fn push_char(s: &mut String, c: char)
    ensures
        final(s)@ == old(s)@.push(c),
{
    s.push(c)
}

/// The characters of `v`, in order, as a string.
pub fn string_of(v: &Vec<char>) -> (r: String)
    ensures
        r@ == v@,
{
    let mut r = String::new();
    let mut i: usize = 0;
    while i < v.len()
        invariant
            0 <= i <= v@.len(),
            r@ == v@.subrange(0, i as int),
        decreases v@.len() - i,
    {
        push_char(&mut r, v[i]);
        assert(v@.subrange(0, i as int).push(v@[i as int]) =~= v@.subrange(0, i + 1));
        i = i + 1;
    }
    assert(v@.subrange(0, v@.len() as int) =~= v@);
    r
}

} // verus!
