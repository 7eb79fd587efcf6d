//! The rule table: which URL forms are recognized, where they match, and
//! what each match is rewritten to.
//!
//! Every rule matches a word-boundary-anchored `http://` or `https://`
//! scheme, a literal host, and a rule-specific path shape, and rewrites
//! the scheme and host to a fixed alternate host while carrying the
//! captured path parts over verbatim.

use vstd::prelude::*;

use crate::text::CharClass;
use crate::text::append_lit;
use crate::text::append_range;
use crate::text::has_prefix;
use crate::text::in_class;
use crate::text::is_digit_char;
use crate::text::is_lower_char;
use crate::text::is_word_char;
use crate::text::lemma_run_len_bounds;
use crate::text::lemma_run_len_exact;
use crate::text::match_lit;
use crate::text::run_end;
use crate::text::run_len;
use crate::text::word_char;

verus! {

/// The rules, in table order.  Order matters: each rule runs on the output
/// of the one before it.
#[derive(Clone, Copy)]
pub enum Rule {
    /// `x.com` status links become `fixvx.com` links.
    X,
    /// `twitter.com` status links become `vxtwitter.com` links.
    Twitter,
    /// `www.tiktok.com` video links become `www.vxtiktok.com` links.
    Tiktok,
    /// `vm.tiktok.com` share links become `vm.vxtiktok.com` links.
    VmTiktok,
    /// `pixiv.net` artwork links are normalized to
    /// `www.pixiv.net/en/artworks/` links.
    Pixiv,
    /// `bsky.app` links become `bskyx.app` links.
    Bsky,
}

/// A match may only start at a word boundary: at the start of the text, or
/// right after a character that is not a word character.
pub open spec fn boundary_ok(s: Seq<char>, i: int) -> bool {
    i == 0 || !is_word_char(s[i - 1])
}

/// An `http://` or `https://` scheme stands at position `i`.
pub open spec fn scheme_ok(s: Seq<char>, i: int) -> bool {
    has_prefix(s, i, "https://"@) || has_prefix(s, i, "http://"@)
}

/// The position just past the scheme.  At most one of the two schemes can
/// stand at `i`, since they differ at their fifth character.
pub open spec fn scheme_end(s: Seq<char>, i: int) -> int {
    if has_prefix(s, i, "https://"@) {
        i + "https://"@.len()
    } else {
        i + "http://"@.len()
    }
}

/// Tail shape shared by the x.com, twitter.com and www.tiktok.com rules:
/// the literal `host`, then a handle of `lo` to `hi` class-`k` characters,
/// then the literal `suffix`.  On a match, returns the matched length from
/// `j` on and the full replacement `alt + handle + suffix`.
pub open spec fn handle_tail(
    s: Seq<char>,
    j: int,
    host: Seq<char>,
    k: CharClass,
    lo: int,
    hi: int,
    suffix: Seq<char>,
    alt: Seq<char>,
) -> Option<(int, Seq<char>)> {
    if has_prefix(s, j, host) {
        let p = j + host.len();
        let l = run_len(k, s, p);
        if lo <= l && l <= hi && has_prefix(s, p + l, suffix) {
            Some(((p + l + suffix.len()) - j, alt + s.subrange(p, p + l) + suffix))
        } else {
            None
        }
    } else {
        None
    }
}

/// Tail shape shared by the vm.tiktok.com and bsky.app rules: the literal
/// `host`, then a run of at least `lo` class-`k` characters reaching to the
/// first character outside the class.  On a match, returns the matched
/// length from `j` on and the full replacement `alt + run`.
pub open spec fn run_tail(
    s: Seq<char>,
    j: int,
    host: Seq<char>,
    k: CharClass,
    lo: int,
    alt: Seq<char>,
) -> Option<(int, Seq<char>)> {
    if has_prefix(s, j, host) {
        let p = j + host.len();
        let l = run_len(k, s, p);
        if lo <= l && p + l <= s.len() {
            Some(((p + l) - j, alt + s.subrange(p, p + l)))
        } else {
            None
        }
    } else {
        None
    }
}

/// A two-letter lower-case locale segment such as `en/` stands at `j`.
pub open spec fn locale_at(s: Seq<char>, j: int) -> bool {
    &&& j + 3 <= s.len()
    &&& is_lower_char(s[j])
    &&& is_lower_char(s[j + 1])
    &&& s[j + 2] == '/'
}

/// Tail of the pixiv rule: an optional `www.`, the literal `pixiv.net/`,
/// an optional locale segment, the literal `artworks/`, and a non-empty
/// run of digits.  The replacement drops the locale and pins the
/// normalized `www.` and `en/` forms.
pub open spec fn pixiv_tail(s: Seq<char>, j: int) -> Option<(int, Seq<char>)> {
    let j2 = if has_prefix(s, j, "www."@) {
        j + "www."@.len()
    } else {
        j
    };
    if has_prefix(s, j2, "pixiv.net/"@) {
        let j3 = j2 + "pixiv.net/"@.len();
        let j4 = if locale_at(s, j3) {
            j3 + 3
        } else {
            j3
        };
        if has_prefix(s, j4, "artworks/"@) {
            let p = j4 + "artworks/"@.len();
            let l = run_len(CharClass::Digit, s, p);
            if 1 <= l && p + l <= s.len() {
                Some(((p + l) - j, "https://www.pixiv.net/en/artworks/"@ + s.subrange(p, p + l)))
            } else {
                None
            }
        } else {
            None
        }
    } else {
        None
    }
}

/// What a rule's pattern asks of the text after the scheme, and what the
/// whole match is replaced with.
pub open spec fn tail_of(r: Rule, s: Seq<char>, j: int) -> Option<(int, Seq<char>)> {
    match r {
        Rule::X => handle_tail(
            s,
            j,
            "x.com/"@,
            CharClass::Word,
            4,
            15,
            "/status"@,
            "https://fixvx.com/"@,
        ),
        Rule::Twitter => handle_tail(
            s,
            j,
            "twitter.com/"@,
            CharClass::Word,
            4,
            15,
            "/status"@,
            "https://vxtwitter.com/"@,
        ),
        Rule::Tiktok => handle_tail(
            s,
            j,
            "www.tiktok.com/@"@,
            CharClass::Tiktok,
            4,
            15,
            "/video"@,
            "https://www.vxtiktok.com/@"@,
        ),
        Rule::VmTiktok => run_tail(
            s,
            j,
            "vm.tiktok.com/"@,
            CharClass::VmPath,
            1,
            "https://vm.vxtiktok.com/"@,
        ),
        Rule::Pixiv => pixiv_tail(s, j),
        Rule::Bsky => run_tail(s, j, "bsky.app/"@, CharClass::Line, 0, "https://bskyx.app/"@),
    }
}

/// Rule `r` matches the text `s` at position `i`.
pub open spec fn matches_at(r: Rule, s: Seq<char>, i: int) -> bool {
    &&& boundary_ok(s, i)
    &&& scheme_ok(s, i)
    &&& tail_of(r, s, scheme_end(s, i)) is Some
}

/// Length of the match of rule `r` at position `i`.
pub open spec fn match_len(r: Rule, s: Seq<char>, i: int) -> int {
    (scheme_end(s, i) - i) + (tail_of(r, s, scheme_end(s, i))->0).0
}

/// The text that replaces the match of rule `r` at position `i`.
pub open spec fn replacement(r: Rule, s: Seq<char>, i: int) -> Seq<char> {
    (tail_of(r, s, scheme_end(s, i))->0).1
}

/// A match is at least one character long and lies inside the text.
pub proof fn lemma_match_bounds(r: Rule, s: Seq<char>, i: int)
    requires
        0 <= i,
        matches_at(r, s, i),
    ensures
        1 <= match_len(r, s, i),
        i + match_len(r, s, i) <= s.len(),
{
    reveal_strlit("https://");
    reveal_strlit("http://");
    let j = scheme_end(s, i);
    match r {
        Rule::X => {
            lemma_run_len_bounds(CharClass::Word, s, j + "x.com/"@.len());
        },
        Rule::Twitter => {
            lemma_run_len_bounds(CharClass::Word, s, j + "twitter.com/"@.len());
        },
        Rule::Tiktok => {
            lemma_run_len_bounds(CharClass::Tiktok, s, j + "www.tiktok.com/@"@.len());
        },
        Rule::VmTiktok => {
        },
        Rule::Pixiv => {
        },
        Rule::Bsky => {
        },
    }
}

/// Law: for a twitter.com status link, the handle alone decides the
/// match.  A handle made of word characters matches the twitter rule
/// exactly when its length lies within the 4 to 15 bound, edges included,
/// and the match then rewrites the link to the vxtwitter.com form with the
/// handle kept verbatim.
pub proof fn lemma_twitter_handle_bounds(h: Seq<char>, rest: Seq<char>)
    requires
        forall|m: int| 0 <= m < h.len() ==> is_word_char(#[trigger] h[m]),
    ensures
        ({
            let s = "https://twitter.com/"@ + h + "/status"@ + rest;
            &&& (matches_at(Rule::Twitter, s, 0) <==> 4 <= h.len() <= 15)
            &&& (4 <= h.len() <= 15 ==> match_len(Rule::Twitter, s, 0) == 27 + h.len())
            &&& (4 <= h.len() <= 15 ==> replacement(Rule::Twitter, s, 0)
                == "https://vxtwitter.com/"@ + h + "/status"@)
        }),
{
    let a = "https://twitter.com/"@;
    let b = "/status"@;
    let ah = a + h;
    let ahb = ah + b;
    let s = ahb + rest;
    reveal_strlit("https://twitter.com/");
    reveal_strlit("https://");
    reveal_strlit("http://");
    reveal_strlit("twitter.com/");
    reveal_strlit("/status");
    assert(a.len() == 20);
    assert(b.len() == 7);
    assert forall|m: int| 0 <= m < 20 implies s[m] == a[m] by {
        assert(s[m] == ahb[m]);
        assert(ahb[m] == ah[m]);
    }
    assert forall|m: int| 0 <= m < h.len() implies s[20 + m] == h[m] by {
        assert(s[20 + m] == ahb[20 + m]);
        assert(ahb[20 + m] == ah[20 + m]);
    }
    assert forall|m: int| 0 <= m < 7 implies s[20 + h.len() as int + m] == b[m] by {
        assert(s[20 + h.len() + m] == ahb[20 + h.len() as int + m]);
    }
    assert(has_prefix(s, 0, "https://"@)) by {
        assert forall|m: int| 0 <= m < 8 implies s[m] == "https://"@[m] by {
            assert(s[m] == a[m]);
        }
    }
    assert(scheme_end(s, 0) == 8);
    assert(has_prefix(s, 8, "twitter.com/"@)) by {
        assert forall|m: int| 0 <= m < 12 implies s[8 + m] == "twitter.com/"@[m] by {
            assert(s[8 + m] == a[8 + m]);
        }
    }
    assert forall|m: int| 20 <= m < 20 + h.len() implies #[trigger] in_class(
        CharClass::Word,
        s[m],
    ) by {
        assert(s[m] == h[m - 20]);
        assert(is_word_char(h[m - 20]));
    }
    assert(s[20 + h.len() as int] == '/');
    lemma_run_len_exact(CharClass::Word, s, 20, h.len() as int);
    assert(has_prefix(s, 20 + h.len() as int, b));
    assert(s.subrange(20, 20 + h.len() as int) =~= h);
    if 4 <= h.len() <= 15 {
        assert(tail_of(Rule::Twitter, s, 8) is Some);
        assert(replacement(Rule::Twitter, s, 0) == "https://vxtwitter.com/"@ + h + b);
    } else {
        assert(tail_of(Rule::Twitter, s, 8) is None);
    }
}

/// Law: for an x.com status link, the handle alone decides the match, as
/// in [`lemma_twitter_handle_bounds`]: word characters, length 4 to 15
/// with the edges included, and the rewrite goes to the fixvx.com form.
pub proof fn lemma_x_handle_bounds(h: Seq<char>, rest: Seq<char>)
    requires
        forall|m: int| 0 <= m < h.len() ==> is_word_char(#[trigger] h[m]),
    ensures
        ({
            let s = "https://x.com/"@ + h + "/status"@ + rest;
            &&& (matches_at(Rule::X, s, 0) <==> 4 <= h.len() <= 15)
            &&& (4 <= h.len() <= 15 ==> match_len(Rule::X, s, 0) == 21 + h.len())
            &&& (4 <= h.len() <= 15 ==> replacement(Rule::X, s, 0) == "https://fixvx.com/"@ + h
                + "/status"@)
        }),
{
    let a = "https://x.com/"@;
    let b = "/status"@;
    let ah = a + h;
    let ahb = ah + b;
    let s = ahb + rest;
    reveal_strlit("https://x.com/");
    reveal_strlit("https://");
    reveal_strlit("http://");
    reveal_strlit("x.com/");
    reveal_strlit("/status");
    assert(a.len() == 14);
    assert(b.len() == 7);
    assert forall|m: int| 0 <= m < 14 implies s[m] == a[m] by {
        assert(s[m] == ahb[m]);
        assert(ahb[m] == ah[m]);
    }
    assert forall|m: int| 0 <= m < h.len() implies s[14 + m] == h[m] by {
        assert(s[14 + m] == ahb[14 + m]);
        assert(ahb[14 + m] == ah[14 + m]);
    }
    assert forall|m: int| 0 <= m < 7 implies s[14 + h.len() as int + m] == b[m] by {
        assert(s[14 + h.len() as int + m] == ahb[14 + h.len() as int + m]);
    }
    assert(has_prefix(s, 0, "https://"@)) by {
        assert forall|m: int| 0 <= m < 8 implies s[m] == "https://"@[m] by {
            assert(s[m] == a[m]);
        }
    }
    assert(scheme_end(s, 0) == 8);
    assert(has_prefix(s, 8, "x.com/"@)) by {
        assert forall|m: int| 0 <= m < 6 implies s[8 + m] == "x.com/"@[m] by {
            assert(s[8 + m] == a[8 + m]);
        }
    }
    assert forall|m: int| 14 <= m < 14 + h.len() implies #[trigger] in_class(
        CharClass::Word,
        s[m],
    ) by {
        assert(s[m] == h[m - 14]);
        assert(is_word_char(h[m - 14]));
    }
    assert(s[14 + h.len() as int] == '/');
    lemma_run_len_exact(CharClass::Word, s, 14, h.len() as int);
    assert(has_prefix(s, 14 + h.len() as int, b));
    assert(s.subrange(14, 14 + h.len() as int) =~= h);
    if 4 <= h.len() <= 15 {
        assert(tail_of(Rule::X, s, 8) is Some);
        assert(replacement(Rule::X, s, 0) == "https://fixvx.com/"@ + h + b);
    } else {
        assert(tail_of(Rule::X, s, 8) is None);
    }
}

/// Law: for a www.tiktok.com video link, the handle alone decides the
/// match: word characters or dots, length 4 to 15 with the edges
/// included, and the rewrite goes to the www.vxtiktok.com form with the
/// handle kept verbatim.
pub proof fn lemma_tiktok_handle_bounds(h: Seq<char>, rest: Seq<char>)
    requires
        forall|m: int| 0 <= m < h.len() ==> in_class(CharClass::Tiktok, #[trigger] h[m]),
    ensures
        ({
            let s = "https://www.tiktok.com/@"@ + h + "/video"@ + rest;
            &&& (matches_at(Rule::Tiktok, s, 0) <==> 4 <= h.len() <= 15)
            &&& (4 <= h.len() <= 15 ==> match_len(Rule::Tiktok, s, 0) == 30 + h.len())
            &&& (4 <= h.len() <= 15 ==> replacement(Rule::Tiktok, s, 0)
                == "https://www.vxtiktok.com/@"@ + h + "/video"@)
        }),
{
    let a = "https://www.tiktok.com/@"@;
    let b = "/video"@;
    let ah = a + h;
    let ahb = ah + b;
    let s = ahb + rest;
    reveal_strlit("https://www.tiktok.com/@");
    reveal_strlit("https://");
    reveal_strlit("http://");
    reveal_strlit("www.tiktok.com/@");
    reveal_strlit("/video");
    assert(a.len() == 24);
    assert(b.len() == 6);
    assert forall|m: int| 0 <= m < 24 implies s[m] == a[m] by {
        assert(s[m] == ahb[m]);
        assert(ahb[m] == ah[m]);
    }
    assert forall|m: int| 0 <= m < h.len() implies s[24 + m] == h[m] by {
        assert(s[24 + m] == ahb[24 + m]);
        assert(ahb[24 + m] == ah[24 + m]);
    }
    assert forall|m: int| 0 <= m < 6 implies s[24 + h.len() as int + m] == b[m] by {
        assert(s[24 + h.len() as int + m] == ahb[24 + h.len() as int + m]);
    }
    assert(has_prefix(s, 0, "https://"@)) by {
        assert forall|m: int| 0 <= m < 8 implies s[m] == "https://"@[m] by {
            assert(s[m] == a[m]);
        }
    }
    assert(scheme_end(s, 0) == 8);
    assert(has_prefix(s, 8, "www.tiktok.com/@"@)) by {
        assert forall|m: int| 0 <= m < 16 implies s[8 + m] == "www.tiktok.com/@"@[m] by {
            assert(s[8 + m] == a[8 + m]);
        }
    }
    assert forall|m: int| 24 <= m < 24 + h.len() implies #[trigger] in_class(
        CharClass::Tiktok,
        s[m],
    ) by {
        assert(s[m] == h[m - 24]);
        assert(in_class(CharClass::Tiktok, h[m - 24]));
    }
    assert(s[24 + h.len() as int] == '/');
    lemma_run_len_exact(CharClass::Tiktok, s, 24, h.len() as int);
    assert(has_prefix(s, 24 + h.len() as int, b));
    assert(s.subrange(24, 24 + h.len() as int) =~= h);
    if 4 <= h.len() <= 15 {
        assert(tail_of(Rule::Tiktok, s, 8) is Some);
        assert(replacement(Rule::Tiktok, s, 0) == "https://www.vxtiktok.com/@"@ + h + b);
    } else {
        assert(tail_of(Rule::Tiktok, s, 8) is None);
    }
}

/// Law: the normalized pixiv form is matched by the pixiv rule and
/// rewritten to exactly itself.  This is the one output form that a rule
/// still matches, and the reason the transform's fixed point is phrased
/// over self-rewriting matches rather than over no matches at all.
pub proof fn lemma_pixiv_normalized_self(d: Seq<char>, rest: Seq<char>)
    requires
        forall|m: int| 0 <= m < d.len() ==> is_digit_char(#[trigger] d[m]),
        1 <= d.len(),
        rest.len() == 0 || !is_digit_char(rest[0]),
    ensures
        ({
            let s = "https://www.pixiv.net/en/artworks/"@ + d + rest;
            &&& matches_at(Rule::Pixiv, s, 0)
            &&& match_len(Rule::Pixiv, s, 0) == 34 + d.len()
            &&& replacement(Rule::Pixiv, s, 0) == s.subrange(0, match_len(Rule::Pixiv, s, 0))
        }),
{
    let a = "https://www.pixiv.net/en/artworks/"@;
    let ad = a + d;
    let s = ad + rest;
    reveal_strlit("https://www.pixiv.net/en/artworks/");
    reveal_strlit("https://");
    reveal_strlit("http://");
    reveal_strlit("www.");
    reveal_strlit("pixiv.net/");
    reveal_strlit("artworks/");
    assert(a.len() == 34);
    assert forall|m: int| 0 <= m < 34 implies s[m] == a[m] by {
        assert(s[m] == ad[m]);
    }
    assert forall|m: int| 0 <= m < d.len() implies s[34 + m] == d[m] by {
        assert(s[34 + m] == ad[34 + m]);
    }
    assert(has_prefix(s, 0, "https://"@)) by {
        assert forall|m: int| 0 <= m < 8 implies s[m] == "https://"@[m] by {
            assert(s[m] == a[m]);
        }
    }
    assert(scheme_end(s, 0) == 8);
    assert(has_prefix(s, 8, "www."@)) by {
        assert forall|m: int| 0 <= m < 4 implies s[8 + m] == "www."@[m] by {
            assert(s[8 + m] == a[8 + m]);
        }
    }
    assert(has_prefix(s, 12, "pixiv.net/"@)) by {
        assert forall|m: int| 0 <= m < 10 implies s[12 + m] == "pixiv.net/"@[m] by {
            assert(s[12 + m] == a[12 + m]);
        }
    }
    assert(locale_at(s, 22)) by {
        assert(s[22] == 'e');
        assert(s[23] == 'n');
        assert(s[24] == '/');
    }
    assert(has_prefix(s, 25, "artworks/"@)) by {
        assert forall|m: int| 0 <= m < 9 implies s[25 + m] == "artworks/"@[m] by {
            assert(s[25 + m] == a[25 + m]);
        }
    }
    assert forall|m: int| 34 <= m < 34 + d.len() implies #[trigger] in_class(
        CharClass::Digit,
        s[m],
    ) by {
        assert(s[m] == d[m - 34]);
        assert(is_digit_char(d[m - 34]));
    }
    if rest.len() > 0 {
        assert(s[34 + d.len() as int] == rest[0]);
    }
    lemma_run_len_exact(CharClass::Digit, s, 34, d.len() as int);
    assert(s.subrange(34, 34 + d.len() as int) =~= d);
    assert(tail_of(Rule::Pixiv, s, 8) is Some);
    assert(replacement(Rule::Pixiv, s, 0) == a + d);
    assert(s.subrange(0, 34 + d.len() as int) =~= a + d);
}

/// Law: a bsky.app link swaps its host for bskyx.app and keeps the whole
/// remainder of the line after the host verbatim, with no constraint on
/// its shape.
pub proof fn lemma_bsky_remainder_kept(t: Seq<char>, rest: Seq<char>)
    requires
        forall|m: int| 0 <= m < t.len() ==> #[trigger] t[m] != '\n',
        rest.len() == 0 || rest[0] == '\n',
    ensures
        ({
            let s = "https://bsky.app/"@ + t + rest;
            &&& matches_at(Rule::Bsky, s, 0)
            &&& match_len(Rule::Bsky, s, 0) == 17 + t.len()
            &&& replacement(Rule::Bsky, s, 0) == "https://bskyx.app/"@ + t
        }),
{
    let a = "https://bsky.app/"@;
    let at = a + t;
    let s = at + rest;
    reveal_strlit("https://bsky.app/");
    reveal_strlit("https://");
    reveal_strlit("http://");
    reveal_strlit("bsky.app/");
    assert(a.len() == 17);
    assert forall|m: int| 0 <= m < 17 implies s[m] == a[m] by {
        assert(s[m] == at[m]);
    }
    assert forall|m: int| 0 <= m < t.len() implies s[17 + m] == t[m] by {
        assert(s[17 + m] == at[17 + m]);
    }
    assert(has_prefix(s, 0, "https://"@)) by {
        assert forall|m: int| 0 <= m < 8 implies s[m] == "https://"@[m] by {
            assert(s[m] == a[m]);
        }
    }
    assert(scheme_end(s, 0) == 8);
    assert(has_prefix(s, 8, "bsky.app/"@)) by {
        assert forall|m: int| 0 <= m < 9 implies s[8 + m] == "bsky.app/"@[m] by {
            assert(s[8 + m] == a[8 + m]);
        }
    }
    assert forall|m: int| 17 <= m < 17 + t.len() implies #[trigger] in_class(
        CharClass::Line,
        s[m],
    ) by {
        assert(s[m] == t[m - 17]);
    }
    if rest.len() > 0 {
        assert(s[17 + t.len() as int] == rest[0]);
    }
    lemma_run_len_exact(CharClass::Line, s, 17, t.len() as int);
    assert(s.subrange(17, 17 + t.len() as int) =~= t);
    assert(tail_of(Rule::Bsky, s, 8) is Some);
    assert(replacement(Rule::Bsky, s, 0) == "https://bskyx.app/"@ + t);
}

/// Runtime test for [`locale_at`].
fn locale_check(v: &Vec<char>, j: usize) -> (b: bool)
    requires
        j <= v@.len(),
    ensures
        b == locale_at(v@, j as int),
{
    if v.len() - j < 3 {
        return false;
    }
    let c0: char = v[j];
    let c1: char = v[j + 1];
    let u0: u32 = c0 as u32;
    let u1: u32 = c1 as u32;
    ('a' as u32 <= u0 && u0 <= 'z' as u32) && ('a' as u32 <= u1 && u1 <= 'z' as u32) && v[j + 2]
        == '/'
}

/// Matcher for [`handle_tail`]-shaped rules.
fn try_tail_handle(
    v: &Vec<char>,
    j: usize,
    host: &str,
    k: CharClass,
    lo: usize,
    hi: usize,
    suffix: &str,
    alt: &str,
) -> (t: Option<(usize, Vec<char>)>)
    requires
        j <= v@.len(),
    ensures
        ({
            let ts = handle_tail(v@, j as int, host@, k, lo as int, hi as int, suffix@, alt@);
            match t {
                Some(te) => ts is Some && te.0 == (ts->0).0 && te.1@ == (ts->0).1 && j + te.0
                    <= v@.len(),
                None => ts is None,
            }
        }),
{
    let p: usize = match match_lit(v, j, host) {
        Some(x) => x,
        None => {
            return None;
        },
    };
    let e: usize = run_end(k, v, p);
    let l: usize = e - p;
    if l < lo || l > hi {
        return None;
    }
    let end: usize = match match_lit(v, e, suffix) {
        Some(x) => x,
        None => {
            return None;
        },
    };
    let mut rep: Vec<char> = Vec::new();
    append_lit(&mut rep, alt);
    append_range(&mut rep, v, p, e);
    append_lit(&mut rep, suffix);
    assert(rep@ =~= alt@ + v@.subrange(p as int, e as int) + suffix@);
    Some((end - j, rep))
}

/// Matcher for [`run_tail`]-shaped rules.
fn try_tail_run(v: &Vec<char>, j: usize, host: &str, k: CharClass, lo: usize, alt: &str) -> (t:
    Option<(usize, Vec<char>)>)
    requires
        j <= v@.len(),
    ensures
        ({
            let ts = run_tail(v@, j as int, host@, k, lo as int, alt@);
            match t {
                Some(te) => ts is Some && te.0 == (ts->0).0 && te.1@ == (ts->0).1 && j + te.0
                    <= v@.len(),
                None => ts is None,
            }
        }),
{
    let p: usize = match match_lit(v, j, host) {
        Some(x) => x,
        None => {
            return None;
        },
    };
    let e: usize = run_end(k, v, p);
    let l: usize = e - p;
    if l < lo {
        return None;
    }
    let mut rep: Vec<char> = Vec::new();
    append_lit(&mut rep, alt);
    append_range(&mut rep, v, p, e);
    assert(rep@ =~= alt@ + v@.subrange(p as int, e as int));
    Some((e - j, rep))
}

/// Matcher for the pixiv rule's tail.
fn try_tail_pixiv(v: &Vec<char>, j: usize) -> (t: Option<(usize, Vec<char>)>)
    requires
        j <= v@.len(),
    ensures
        ({
            let ts = pixiv_tail(v@, j as int);
            match t {
                Some(te) => ts is Some && te.0 == (ts->0).0 && te.1@ == (ts->0).1 && j + te.0
                    <= v@.len(),
                None => ts is None,
            }
        }),
{
    let j2: usize = match match_lit(v, j, "www.") {
        Some(x) => x,
        None => j,
    };
    let j3: usize = match match_lit(v, j2, "pixiv.net/") {
        Some(x) => x,
        None => {
            return None;
        },
    };
    proof {
        vstd::std_specs::vec::axiom_spec_len(v);
    }
    let j4: usize = if locale_check(v, j3) {
        j3 + 3
    } else {
        j3
    };
    let p: usize = match match_lit(v, j4, "artworks/") {
        Some(x) => x,
        None => {
            return None;
        },
    };
    let e: usize = run_end(CharClass::Digit, v, p);
    let l: usize = e - p;
    if l < 1 {
        return None;
    }
    let mut rep: Vec<char> = Vec::new();
    append_lit(&mut rep, "https://www.pixiv.net/en/artworks/");
    append_range(&mut rep, v, p, e);
    assert(rep@ =~= "https://www.pixiv.net/en/artworks/"@ + v@.subrange(p as int, e as int));
    Some((e - j, rep))
}

/// Tries rule `r` at position `i`.  On a match, returns the match length
/// and the replacement text.
pub fn try_match(r: Rule, v: &Vec<char>, i: usize) -> (t: Option<(usize, Vec<char>)>)
    requires
        i < v@.len(),
    ensures
        (match t {
            Some(te) => matches_at(r, v@, i as int) && te.0 == match_len(r, v@, i as int) && te.1@
                == replacement(r, v@, i as int) && 1 <= te.0 && i + te.0 <= v@.len(),
            None => !matches_at(r, v@, i as int),
        }),
{
    proof {
        reveal_strlit("https://");
        reveal_strlit("http://");
    }
    proof {
        vstd::std_specs::vec::axiom_spec_len(v);
    }
    if i > 0 && word_char(v[i - 1]) {
        return None;
    }
    let j: usize = match match_lit(v, i, "https://") {
        Some(x) => x,
        None => {
            match match_lit(v, i, "http://") {
                Some(x) => x,
                None => {
                    return None;
                },
            }
        },
    };
    assert(j == scheme_end(v@, i as int));
    let t = match r {
        Rule::X => try_tail_handle(
            v,
            j,
            "x.com/",
            CharClass::Word,
            4,
            15,
            "/status",
            "https://fixvx.com/",
        ),
        Rule::Twitter => try_tail_handle(
            v,
            j,
            "twitter.com/",
            CharClass::Word,
            4,
            15,
            "/status",
            "https://vxtwitter.com/",
        ),
        Rule::Tiktok => try_tail_handle(
            v,
            j,
            "www.tiktok.com/@",
            CharClass::Tiktok,
            4,
            15,
            "/video",
            "https://www.vxtiktok.com/@",
        ),
        Rule::VmTiktok => try_tail_run(
            v,
            j,
            "vm.tiktok.com/",
            CharClass::VmPath,
            1,
            "https://vm.vxtiktok.com/",
        ),
        Rule::Pixiv => try_tail_pixiv(v, j),
        Rule::Bsky => try_tail_run(v, j, "bsky.app/", CharClass::Line, 0, "https://bskyx.app/"),
    };
    match t {
        Some(te) => Some(((j - i) + te.0, te.1)),
        None => None,
    }
}


/// Law: for a vm.tiktok.com share link, the whole path run after the
/// host is matched and carried over verbatim into the vm.vxtiktok.com
/// form; the path must be non-empty.
pub proof fn lemma_vm_tiktok_path_kept(tl: Seq<char>, rest: Seq<char>)
    requires
        forall|m: int| 0 <= m < tl.len() ==> in_class(CharClass::VmPath, #[trigger] tl[m]),
        1 <= tl.len(),
        rest.len() == 0 || !in_class(CharClass::VmPath, rest[0]),
    ensures
        ({
            let s = "https://vm.tiktok.com/"@ + tl + rest;
            &&& matches_at(Rule::VmTiktok, s, 0)
            &&& match_len(Rule::VmTiktok, s, 0) == 22 + tl.len()
            &&& replacement(Rule::VmTiktok, s, 0) == "https://vm.vxtiktok.com/"@ + tl
        }),
{
    let a = "https://vm.tiktok.com/"@;
    let at = a + tl;
    let s = at + rest;
    reveal_strlit("https://vm.tiktok.com/");
    reveal_strlit("https://");
    reveal_strlit("http://");
    reveal_strlit("vm.tiktok.com/");
    assert(a.len() == 22);
    assert forall|m: int| 0 <= m < 22 implies s[m] == a[m] by {
        assert(s[m] == at[m]);
    }
    assert forall|m: int| 0 <= m < tl.len() implies s[22 + m] == tl[m] by {
        assert(s[22 + m] == at[22 + m]);
    }
    assert(has_prefix(s, 0, "https://"@)) by {
        assert forall|m: int| 0 <= m < 8 implies s[m] == "https://"@[m] by {
            assert(s[m] == a[m]);
        }
    }
    assert(scheme_end(s, 0) == 8);
    assert(has_prefix(s, 8, "vm.tiktok.com/"@)) by {
        assert forall|m: int| 0 <= m < 14 implies s[8 + m] == "vm.tiktok.com/"@[m] by {
            assert(s[8 + m] == a[8 + m]);
        }
    }
    assert forall|m: int| 22 <= m < 22 + tl.len() implies #[trigger] in_class(
        CharClass::VmPath,
        s[m],
    ) by {
        assert(s[m] == tl[m - 22]);
    }
    if rest.len() > 0 {
        assert(s[22 + tl.len() as int] == rest[0]);
    }
    lemma_run_len_exact(CharClass::VmPath, s, 22, tl.len() as int);
    assert(s.subrange(22, 22 + tl.len() as int) =~= tl);
    assert(tail_of(Rule::VmTiktok, s, 8) is Some);
    assert(replacement(Rule::VmTiktok, s, 0) == "https://vm.vxtiktok.com/"@ + tl);
}


/// Law: a pixiv artwork link without the `www.` label and without a
/// locale segment is matched whole and normalized: the replacement pins
/// both the `www.` and the `en/` segments and keeps the artwork number.
pub proof fn lemma_pixiv_bare_match(d: Seq<char>, rest: Seq<char>)
    requires
        forall|m: int| 0 <= m < d.len() ==> is_digit_char(#[trigger] d[m]),
        1 <= d.len(),
        rest.len() == 0 || !is_digit_char(rest[0]),
    ensures
        ({
            let s = "https://pixiv.net/artworks/"@ + d + rest;
            &&& matches_at(Rule::Pixiv, s, 0)
            &&& match_len(Rule::Pixiv, s, 0) == 27 + d.len()
            &&& replacement(Rule::Pixiv, s, 0) == "https://www.pixiv.net/en/artworks/"@ + d
        }),
{
    let a = "https://pixiv.net/artworks/"@;
    let ad = a + d;
    let s = ad + rest;
    reveal_strlit("https://pixiv.net/artworks/");
    reveal_strlit("https://www.pixiv.net/en/artworks/");
    reveal_strlit("https://");
    reveal_strlit("http://");
    reveal_strlit("www.");
    reveal_strlit("pixiv.net/");
    reveal_strlit("artworks/");
    assert(a.len() == 27);
    assert forall|m: int| 0 <= m < 27 implies s[m] == a[m] by {
        assert(s[m] == ad[m]);
    }
    assert forall|m: int| 0 <= m < d.len() implies s[27 + m] == d[m] by {
        assert(s[27 + m] == ad[27 + m]);
    }
    assert(has_prefix(s, 0, "https://"@)) by {
        assert forall|m: int| 0 <= m < 8 implies s[m] == "https://"@[m] by {
            assert(s[m] == a[m]);
        }
    }
    assert(scheme_end(s, 0) == 8);
    assert(s[8] == 'p');
    if has_prefix(s, 8, "www."@) {
        assert(s[8] == "www."@[0]);
    }
    assert(!has_prefix(s, 8, "www."@));
    assert(has_prefix(s, 8, "pixiv.net/"@)) by {
        assert forall|m: int| 0 <= m < 10 implies s[8 + m] == "pixiv.net/"@[m] by {
            assert(s[8 + m] == a[8 + m]);
        }
    }
    assert(s[20] == 't');
    assert(!locale_at(s, 18));
    assert(has_prefix(s, 18, "artworks/"@)) by {
        assert forall|m: int| 0 <= m < 9 implies s[18 + m] == "artworks/"@[m] by {
            assert(s[18 + m] == a[18 + m]);
        }
    }
    assert forall|m: int| 27 <= m < 27 + d.len() implies #[trigger] in_class(
        CharClass::Digit,
        s[m],
    ) by {
        assert(s[m] == d[m - 27]);
        assert(is_digit_char(d[m - 27]));
    }
    if rest.len() > 0 {
        assert(s[27 + d.len() as int] == rest[0]);
    }
    lemma_run_len_exact(CharClass::Digit, s, 27, d.len() as int);
    assert(s.subrange(27, 27 + d.len() as int) =~= d);
    assert(tail_of(Rule::Pixiv, s, 8) is Some);
    assert(replacement(Rule::Pixiv, s, 0) == "https://www.pixiv.net/en/artworks/"@ + d);
}

} // verus!
