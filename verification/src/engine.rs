//! The rewrite engine: applies every rule of the table, in order, to the
//! whole text, replacing all non-overlapping matches of each rule from
//! left to right.

use vstd::prelude::*;

use crate::rules::Rule;
use crate::rules::lemma_match_bounds;
use crate::rules::match_len;
use crate::rules::matches_at;
use crate::rules::replacement;
use crate::rules::try_match;
use crate::text::chars_of;
use crate::text::string_of;

verus! {

/// The text that one pass of rule `r` produces from `s[i..]`: scanning
/// left to right, each match of `r` is replaced and the scan resumes just
/// past it; every other character is kept.
pub open spec fn rewrite_from(r: Rule, s: Seq<char>, i: int) -> Seq<char>
    decreases s.len() - i,
{
    if i < 0 || i >= s.len() {
        Seq::empty()
    } else if matches_at(r, s, i) && i + match_len(r, s, i) <= s.len() && 1 <= match_len(r, s, i) {
        replacement(r, s, i) + rewrite_from(r, s, i + match_len(r, s, i))
    } else {
        seq![s[i]] + rewrite_from(r, s, i + 1)
    }
}

/// One pass of rule `r` over the whole text.
pub open spec fn rewrite(r: Rule, s: Seq<char>) -> Seq<char> {
    rewrite_from(r, s, 0)
}

/// What [`transform`] returns: every rule applied once, in table order,
/// each to the output of the one before it.
pub open spec fn transform_spec(s: Seq<char>) -> Seq<char> {
    rewrite(
        Rule::Bsky,
        rewrite(
            Rule::Pixiv,
            rewrite(Rule::VmTiktok, rewrite(Rule::Tiktok, rewrite(Rule::Twitter, rewrite(Rule::X, s)))),
        ),
    )
}

/// The guards on the match branch of [`rewrite_from`] always hold where a
/// rule matches, so the branch is taken exactly on [`matches_at`].
pub proof fn lemma_rewrite_from_match(r: Rule, s: Seq<char>, i: int)
    requires
        0 <= i < s.len(),
        matches_at(r, s, i),
    ensures
        rewrite_from(r, s, i) == replacement(r, s, i) + rewrite_from(r, s, i + match_len(r, s, i)),
{
    lemma_match_bounds(r, s, i);
}

/// Applies one pass of rule `r` to `v`.
pub fn apply_rule(r: Rule, v: &Vec<char>) -> (out: Vec<char>)
    ensures
        out@ == rewrite(r, v@),
{
    let mut out: Vec<char> = Vec::new();
    let mut i: usize = 0;
    while i < v.len()
        invariant
            0 <= i <= v@.len(),
            rewrite(r, v@) == out@ + rewrite_from(r, v@, i as int),
        decreases v@.len() - i,
    {
        match try_match(r, v, i) {
            Some(m) => {
                proof {
                    lemma_rewrite_from_match(r, v@, i as int);
                }
                let (len, mut rep): (usize, Vec<char>) = m;
                out.append(&mut rep);
                i = i + len;
            },
            None => {
                out.push(v[i]);
                i = i + 1;
            },
        }
    }
    assert(rewrite_from(r, v@, i as int) == Seq::<char>::empty());
    assert(out@ + Seq::<char>::empty() =~= out@);
    out
}

/// Rewrites every recognized URL in `v`, taking the text and giving the
/// result back as characters.
pub fn transform_chars(v: &Vec<char>) -> (out: Vec<char>)
    ensures
        out@ == transform_spec(v@),
{
    let t1 = apply_rule(Rule::X, v);
    let t2 = apply_rule(Rule::Twitter, &t1);
    let t3 = apply_rule(Rule::Tiktok, &t2);
    let t4 = apply_rule(Rule::VmTiktok, &t3);
    let t5 = apply_rule(Rule::Pixiv, &t4);
    apply_rule(Rule::Bsky, &t5)
}

/// Rewrites every recognized URL in `input` into its alternate-host form
/// and returns the new text; text outside the matches comes back
/// unchanged.
pub fn transform(input: &str) -> (r: String)
    ensures
        r@ == transform_spec(input@),
{
    let v = chars_of(input);
    let out = transform_chars(&v);
    string_of(&out)
}

/// No rule matches anywhere in `s`.
pub open spec fn unmatched(s: Seq<char>) -> bool {
    forall|r: Rule, i: int| 0 <= i < s.len() ==> !matches_at(r, s, i)
}

/// Every match any rule finds in `s` is already in the rewritten form:
/// replacing it changes nothing.  Text with no matches at all satisfies
/// this vacuously; so does the normalized pixiv form, which the pixiv
/// rule matches and rewrites to itself.
pub open spec fn self_rewriting(s: Seq<char>) -> bool {
    forall|r: Rule, i: int| 0 <= i < s.len() && #[trigger] matches_at(r, s, i) ==> replacement(
        r,
        s,
        i,
    ) == s.subrange(i, i + match_len(r, s, i))
}

/// One pass of rule `r` gives the text back wherever every match of `r`
/// in it already rewrites to itself.
proof fn lemma_rewrite_from_rule_self(r: Rule, s: Seq<char>, i: int)
    requires
        0 <= i <= s.len(),
        forall|q: int|
            0 <= q < s.len() && #[trigger] matches_at(r, s, q) ==> replacement(r, s, q)
                == s.subrange(q, q + match_len(r, s, q)),
    ensures
        rewrite_from(r, s, i) == s.subrange(i, s.len() as int),
    decreases s.len() - i,
{
    if i >= s.len() {
        assert(rewrite_from(r, s, i) =~= s.subrange(i, s.len() as int));
    } else if matches_at(r, s, i) {
        lemma_match_bounds(r, s, i);
        lemma_rewrite_from_rule_self(r, s, i + match_len(r, s, i));
        assert(replacement(r, s, i) == s.subrange(i, i + match_len(r, s, i)));
        assert(s.subrange(i, i + match_len(r, s, i)) + s.subrange(
            i + match_len(r, s, i),
            s.len() as int,
        ) =~= s.subrange(i, s.len() as int));
    } else {
        lemma_rewrite_from_rule_self(r, s, i + 1);
        assert(seq![s[i]] + s.subrange(i + 1, s.len() as int) =~= s.subrange(i, s.len() as int));
    }
}

/// One pass of rule `r` over text it matches nowhere gives the text back.
pub proof fn lemma_rule_unchanged(r: Rule, s: Seq<char>)
    requires
        forall|q: int| 0 <= q < s.len() ==> !matches_at(r, s, q),
    ensures
        rewrite(r, s) == s,
{
    lemma_rewrite_from_rule_self(r, s, 0);
    assert(s.subrange(0, s.len() as int) =~= s);
}

/// Law: text in which every match already carries its rewritten form is a
/// fixed point of [`transform_spec`].  In particular, text that no rule
/// matches at all comes back unchanged.
pub proof fn lemma_self_rewriting_fixed(s: Seq<char>)
    requires
        self_rewriting(s),
    ensures
        transform_spec(s) == s,
{
    lemma_rewrite_from_rule_self(Rule::X, s, 0);
    assert(s.subrange(0, s.len() as int) =~= s);
    assert(rewrite(Rule::X, s) == s);
    lemma_rewrite_from_rule_self(Rule::Twitter, s, 0);
    lemma_rewrite_from_rule_self(Rule::Tiktok, s, 0);
    lemma_rewrite_from_rule_self(Rule::VmTiktok, s, 0);
    lemma_rewrite_from_rule_self(Rule::Pixiv, s, 0);
    lemma_rewrite_from_rule_self(Rule::Bsky, s, 0);
}

/// Law: for input with no substring matching any rule's pattern, the
/// transform is the identity.
pub proof fn lemma_unmatched_unchanged(s: Seq<char>)
    requires
        unmatched(s),
    ensures
        transform_spec(s) == s,
{
    lemma_self_rewriting_fixed(s);
}

/// Law: the transform is idempotent wherever its output is in rewritten
/// form, as the rule table is authored to guarantee: applying it twice
/// gives what applying it once gives.
pub proof fn lemma_idempotent(s: Seq<char>)
    requires
        self_rewriting(transform_spec(s)),
    ensures
        transform_spec(transform_spec(s)) == transform_spec(s),
{
    lemma_self_rewriting_fixed(transform_spec(s));
}

} // verus!
