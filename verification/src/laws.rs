//! Laws about whole links: which complete URL forms the transform
//! rewrites end to end, and which rewritten forms it leaves alone as
//! fixed points.

use vstd::prelude::*;

use crate::engine::lemma_rewrite_from_match;
use crate::engine::lemma_rule_unchanged;
use crate::engine::lemma_self_rewriting_fixed;
use crate::engine::lemma_unmatched_unchanged;
use crate::engine::rewrite;
use crate::engine::rewrite_from;
use crate::engine::transform_spec;
use crate::engine::unmatched;
use crate::rules::Rule;
use crate::rules::match_len;
use crate::rules::matches_at;
use crate::rules::replacement;

verus! {

/// Law: the normalized pixiv artwork link, standing alone, is a fixed
/// point of the transform: rewriting already-rewritten text of this form
/// changes nothing.  The pixiv rule still matches it, but rewrites it to
/// exactly itself, and no other rule matches it anywhere.
pub proof fn lemma_pixiv_fixed_point(d: Seq<char>)
    requires
        forall|m: int| 0 <= m < d.len() ==> crate::text::is_digit_char(#[trigger] d[m]),
        1 <= d.len(),
    ensures
        transform_spec("https://www.pixiv.net/en/artworks/"@ + d) == "https://www.pixiv.net/en/artworks/"@
            + d,
{
    let a = "https://www.pixiv.net/en/artworks/"@;
    let s = a + d;
    reveal_strlit("https://www.pixiv.net/en/artworks/");
    reveal_strlit("https://");
    reveal_strlit("http://");
    reveal_strlit("x.com/");
    reveal_strlit("twitter.com/");
    reveal_strlit("www.tiktok.com/@");
    reveal_strlit("vm.tiktok.com/");
    reveal_strlit("bsky.app/");
    assert(a.len() == 34);
    assert(s =~= a + d + Seq::<char>::empty());
    crate::rules::lemma_pixiv_normalized_self(d, Seq::empty());
    assert forall|m: int| 0 <= m < 34 implies s[m] == a[m] by {}
    assert forall|m: int| 0 <= m < d.len() implies s[34 + m] == d[m] by {}
    assert forall|r: Rule, i: int|
        0 <= i < s.len() && #[trigger] matches_at(r, s, i) implies replacement(r, s, i)
            == s.subrange(i, i + match_len(r, s, i)) by {
        if crate::text::has_prefix(s, i, "https://"@) {
            assert(s[i] == "https://"@[0]);
        } else {
            assert(crate::text::has_prefix(s, i, "http://"@));
            assert(s[i] == "http://"@[0]);
        }
        assert(s[i] == 'h');
        if i >= 34 {
            assert(s[i] == d[i - 34]);
            assert(crate::text::is_digit_char(d[i - 34]));
            assert(false);
        } else if i >= 1 {
            assert(s[i] == a[i]);
            assert(a[i] != 'h');
            assert(false);
        } else {
            assert(crate::rules::scheme_end(s, 0) == 8);
            match r {
                Rule::X => {
                    assert(s[8] == 'w');
                    if crate::text::has_prefix(s, 8, "x.com/"@) {
                        assert(s[8] == "x.com/"@[0]);
                    }
                    assert(false);
                },
                Rule::Twitter => {
                    assert(s[8] == 'w');
                    if crate::text::has_prefix(s, 8, "twitter.com/"@) {
                        assert(s[8] == "twitter.com/"@[0]);
                    }
                    assert(false);
                },
                Rule::Tiktok => {
                    assert(s[12] == 'p');
                    if crate::text::has_prefix(s, 8, "www.tiktok.com/@"@) {
                        assert(s[12] == "www.tiktok.com/@"@[4]);
                    }
                    assert(false);
                },
                Rule::VmTiktok => {
                    assert(s[8] == 'w');
                    if crate::text::has_prefix(s, 8, "vm.tiktok.com/"@) {
                        assert(s[8] == "vm.tiktok.com/"@[0]);
                    }
                    assert(false);
                },
                Rule::Pixiv => {
                },
                Rule::Bsky => {
                    assert(s[8] == 'w');
                    if crate::text::has_prefix(s, 8, "bsky.app/"@) {
                        assert(s[8] == "bsky.app/"@[0]);
                    }
                    assert(false);
                },
            }
        }
    }
    lemma_self_rewriting_fixed(s);
}

/// No rule's pattern matches the rewritten twitter form
/// `https://vxtwitter.com/<handle>/status` anywhere, whatever the
/// handle's length.
pub proof fn lemma_vxtwitter_unmatched(h: Seq<char>)
    requires
        forall|m: int| 0 <= m < h.len() ==> crate::text::is_word_char(#[trigger] h[m]),
    ensures
        unmatched("https://vxtwitter.com/"@ + h + "/status"@),
{
    let a = "https://vxtwitter.com/"@;
    let b = "/status"@;
    let ah = a + h;
    let s = ah + b;
    reveal_strlit("https://vxtwitter.com/");
    reveal_strlit("/status");
    reveal_strlit("https://");
    reveal_strlit("http://");
    reveal_strlit("x.com/");
    reveal_strlit("twitter.com/");
    reveal_strlit("www.tiktok.com/@");
    reveal_strlit("vm.tiktok.com/");
    reveal_strlit("www.");
    reveal_strlit("pixiv.net/");
    reveal_strlit("bsky.app/");
    assert(a.len() == 22);
    assert(b.len() == 7);
    assert forall|m: int| 0 <= m < 22 implies s[m] == a[m] by {
        assert(s[m] == ah[m]);
    }
    assert forall|m: int| 0 <= m < h.len() implies s[22 + m] == h[m] by {
        assert(s[22 + m] == ah[22 + m]);
    }
    assert forall|m: int| 0 <= m < 7 implies s[22 + h.len() as int + m] == b[m] by {}
    assert forall|p: int| 0 <= p < s.len() && #[trigger] s[p] == ':' implies p == 5 by {
        if p < 22 {
            assert(s[p] == a[p]);
        } else if p < 22 + h.len() {
            assert(s[p] == h[p - 22]);
            assert(crate::text::is_word_char(h[p - 22]));
        } else {
            assert(s[p] == b[p - 22 - h.len()]);
        }
    }
    assert forall|r: Rule, i: int| 0 <= i < s.len() implies !matches_at(r, s, i) by {
        if matches_at(r, s, i) {
            if crate::text::has_prefix(s, i, "http://"@) {
                assert(s[i + 4] == "http://"@[4]);
                assert(s[i + 4] == ':');
                assert(i == 1);
                assert(s[1] == "http://"@[0]);
                assert(false);
            } else {
                assert(crate::text::has_prefix(s, i, "https://"@));
                assert(s[i + 5] == "https://"@[5]);
                assert(s[i + 5] == ':');
                assert(i == 0);
                assert(crate::rules::scheme_end(s, 0) == 8);
                match r {
                    Rule::X => {
                        assert(s[8] == 'v');
                        if crate::text::has_prefix(s, 8, "x.com/"@) {
                            assert(s[8] == "x.com/"@[0]);
                        }
                        assert(false);
                    },
                    Rule::Twitter => {
                        assert(s[8] == 'v');
                        if crate::text::has_prefix(s, 8, "twitter.com/"@) {
                            assert(s[8] == "twitter.com/"@[0]);
                        }
                        assert(false);
                    },
                    Rule::Tiktok => {
                        assert(s[8] == 'v');
                        if crate::text::has_prefix(s, 8, "www.tiktok.com/@"@) {
                            assert(s[8] == "www.tiktok.com/@"@[0]);
                        }
                        assert(false);
                    },
                    Rule::VmTiktok => {
                        assert(s[9] == 'x');
                        if crate::text::has_prefix(s, 8, "vm.tiktok.com/"@) {
                            assert(s[9] == "vm.tiktok.com/"@[1]);
                        }
                        assert(false);
                    },
                    Rule::Pixiv => {
                        assert(s[8] == 'v');
                        if crate::text::has_prefix(s, 8, "www."@) {
                            assert(s[8] == "www."@[0]);
                        }
                        if crate::text::has_prefix(s, 8, "pixiv.net/"@) {
                            assert(s[8] == "pixiv.net/"@[0]);
                        }
                        assert(false);
                    },
                    Rule::Bsky => {
                        assert(s[8] == 'v');
                        if crate::text::has_prefix(s, 8, "bsky.app/"@) {
                            assert(s[8] == "bsky.app/"@[0]);
                        }
                        assert(false);
                    },
                }
            }
        }
    }
}

/// Law: the rewritten twitter form is a fixed point of the transform: no
/// rule's pattern matches it anywhere, whatever the handle's length, so
/// rewriting it again changes nothing.
pub proof fn lemma_twitter_rewritten_fixed_point(h: Seq<char>)
    requires
        forall|m: int| 0 <= m < h.len() ==> crate::text::is_word_char(#[trigger] h[m]),
    ensures
        transform_spec("https://vxtwitter.com/"@ + h + "/status"@) == "https://vxtwitter.com/"@ + h
            + "/status"@,
{
    lemma_vxtwitter_unmatched(h);
    lemma_unmatched_unchanged("https://vxtwitter.com/"@ + h + "/status"@);
}

/// No rule's pattern matches the rewritten x.com form
/// `https://fixvx.com/<handle>/status` anywhere, whatever the handle's
/// length.
pub proof fn lemma_fixvx_unmatched(h: Seq<char>)
    requires
        forall|m: int| 0 <= m < h.len() ==> crate::text::is_word_char(#[trigger] h[m]),
    ensures
        unmatched("https://fixvx.com/"@ + h + "/status"@),
{
    let a = "https://fixvx.com/"@;
    let b = "/status"@;
    let ah = a + h;
    let s = ah + b;
    reveal_strlit("https://fixvx.com/");
    reveal_strlit("/status");
    reveal_strlit("https://");
    reveal_strlit("http://");
    reveal_strlit("x.com/");
    reveal_strlit("twitter.com/");
    reveal_strlit("www.tiktok.com/@");
    reveal_strlit("vm.tiktok.com/");
    reveal_strlit("www.");
    reveal_strlit("pixiv.net/");
    reveal_strlit("bsky.app/");
    assert(a.len() == 18);
    assert(b.len() == 7);
    assert forall|m: int| 0 <= m < 18 implies s[m] == a[m] by {
        assert(s[m] == ah[m]);
    }
    assert forall|m: int| 0 <= m < h.len() implies s[18 + m] == h[m] by {
        assert(s[18 + m] == ah[18 + m]);
    }
    assert forall|m: int| 0 <= m < 7 implies s[18 + h.len() as int + m] == b[m] by {}
    assert forall|p: int| 0 <= p < s.len() && #[trigger] s[p] == ':' implies p == 5 by {
        if p < 18 {
            assert(s[p] == a[p]);
        } else if p < 18 + h.len() {
            assert(s[p] == h[p - 18]);
            assert(crate::text::is_word_char(h[p - 18]));
        } else {
            assert(s[p] == b[p - 18 - h.len()]);
        }
    }
    assert forall|r: Rule, i: int| 0 <= i < s.len() implies !matches_at(r, s, i) by {
        if matches_at(r, s, i) {
            if crate::text::has_prefix(s, i, "http://"@) {
                assert(s[i + 4] == "http://"@[4]);
                assert(s[i + 4] == ':');
                assert(i == 1);
                assert(s[1] == "http://"@[0]);
                assert(false);
            } else {
                assert(crate::text::has_prefix(s, i, "https://"@));
                assert(s[i + 5] == "https://"@[5]);
                assert(s[i + 5] == ':');
                assert(i == 0);
                assert(crate::rules::scheme_end(s, 0) == 8);
                assert(s[8] == 'f');
                match r {
                    Rule::X => {
                        if crate::text::has_prefix(s, 8, "x.com/"@) {
                            assert(s[8] == "x.com/"@[0]);
                        }
                        assert(false);
                    },
                    Rule::Twitter => {
                        if crate::text::has_prefix(s, 8, "twitter.com/"@) {
                            assert(s[8] == "twitter.com/"@[0]);
                        }
                        assert(false);
                    },
                    Rule::Tiktok => {
                        if crate::text::has_prefix(s, 8, "www.tiktok.com/@"@) {
                            assert(s[8] == "www.tiktok.com/@"@[0]);
                        }
                        assert(false);
                    },
                    Rule::VmTiktok => {
                        if crate::text::has_prefix(s, 8, "vm.tiktok.com/"@) {
                            assert(s[8] == "vm.tiktok.com/"@[0]);
                        }
                        assert(false);
                    },
                    Rule::Pixiv => {
                        if crate::text::has_prefix(s, 8, "www."@) {
                            assert(s[8] == "www."@[0]);
                        }
                        if crate::text::has_prefix(s, 8, "pixiv.net/"@) {
                            assert(s[8] == "pixiv.net/"@[0]);
                        }
                        assert(false);
                    },
                    Rule::Bsky => {
                        if crate::text::has_prefix(s, 8, "bsky.app/"@) {
                            assert(s[8] == "bsky.app/"@[0]);
                        }
                        assert(false);
                    },
                }
            }
        }
    }
}

/// Law: the rewritten x.com form is a fixed point of the transform: no
/// rule's pattern matches it anywhere, whatever the handle's length, so
/// rewriting it again changes nothing.
pub proof fn lemma_x_rewritten_fixed_point(h: Seq<char>)
    requires
        forall|m: int| 0 <= m < h.len() ==> crate::text::is_word_char(#[trigger] h[m]),
    ensures
        transform_spec("https://fixvx.com/"@ + h + "/status"@) == "https://fixvx.com/"@ + h
            + "/status"@,
{
    lemma_fixvx_unmatched(h);
    lemma_unmatched_unchanged("https://fixvx.com/"@ + h + "/status"@);
}

/// Law: an x.com status link with an in-bounds handle is rewritten, end
/// to end, to the fixvx.com form with the handle kept verbatim: the
/// x.com rule, first in the table, replaces it whole, and no later rule
/// touches the result.
pub proof fn lemma_transform_x_link(h: Seq<char>)
    requires
        forall|m: int| 0 <= m < h.len() ==> crate::text::is_word_char(#[trigger] h[m]),
        4 <= h.len() <= 15,
    ensures
        transform_spec("https://x.com/"@ + h + "/status"@) == "https://fixvx.com/"@ + h
            + "/status"@,
{
    let s = "https://x.com/"@ + h + "/status"@;
    let t = "https://fixvx.com/"@ + h + "/status"@;
    reveal_strlit("https://x.com/");
    reveal_strlit("https://fixvx.com/");
    reveal_strlit("/status");
    assert(s =~= "https://x.com/"@ + h + "/status"@ + Seq::<char>::empty());
    crate::rules::lemma_x_handle_bounds(h, Seq::empty());
    assert(matches_at(Rule::X, s, 0));
    assert(match_len(Rule::X, s, 0) == s.len());
    lemma_rewrite_from_match(Rule::X, s, 0);
    assert(rewrite_from(Rule::X, s, s.len() as int) == Seq::<char>::empty());
    assert(replacement(Rule::X, s, 0) + Seq::<char>::empty() =~= replacement(Rule::X, s, 0));
    assert(rewrite(Rule::X, s) == t);
    lemma_fixvx_unmatched(h);
    lemma_rule_unchanged(Rule::Twitter, t);
    lemma_rule_unchanged(Rule::Tiktok, t);
    lemma_rule_unchanged(Rule::VmTiktok, t);
    lemma_rule_unchanged(Rule::Pixiv, t);
    lemma_rule_unchanged(Rule::Bsky, t);
}

/// No rule's pattern matches the rewritten tiktok form
/// `https://www.vxtiktok.com/@<handle>/video` anywhere, whatever the
/// handle's length.
pub proof fn lemma_vxtiktok_unmatched(h: Seq<char>)
    requires
        forall|m: int|
            0 <= m < h.len() ==> crate::text::in_class(
                crate::text::CharClass::Tiktok,
                #[trigger] h[m],
            ),
    ensures
        unmatched("https://www.vxtiktok.com/@"@ + h + "/video"@),
{
    let a = "https://www.vxtiktok.com/@"@;
    let b = "/video"@;
    let ah = a + h;
    let s = ah + b;
    reveal_strlit("https://www.vxtiktok.com/@");
    reveal_strlit("/video");
    reveal_strlit("https://");
    reveal_strlit("http://");
    reveal_strlit("x.com/");
    reveal_strlit("twitter.com/");
    reveal_strlit("www.tiktok.com/@");
    reveal_strlit("vm.tiktok.com/");
    reveal_strlit("www.");
    reveal_strlit("pixiv.net/");
    reveal_strlit("bsky.app/");
    assert(a.len() == 26);
    assert(b.len() == 6);
    assert forall|m: int| 0 <= m < 26 implies s[m] == a[m] by {
        assert(s[m] == ah[m]);
    }
    assert forall|m: int| 0 <= m < h.len() implies s[26 + m] == h[m] by {
        assert(s[26 + m] == ah[26 + m]);
    }
    assert forall|m: int| 0 <= m < 6 implies s[26 + h.len() as int + m] == b[m] by {}
    assert forall|p: int| 0 <= p < s.len() && #[trigger] s[p] == ':' implies p == 5 by {
        if p < 26 {
            assert(s[p] == a[p]);
        } else if p < 26 + h.len() {
            assert(s[p] == h[p - 26]);
            assert(crate::text::in_class(crate::text::CharClass::Tiktok, h[p - 26]));
        } else {
            assert(s[p] == b[p - 26 - h.len()]);
        }
    }
    assert forall|r: Rule, i: int| 0 <= i < s.len() implies !matches_at(r, s, i) by {
        if matches_at(r, s, i) {
            if crate::text::has_prefix(s, i, "http://"@) {
                assert(s[i + 4] == "http://"@[4]);
                assert(s[i + 4] == ':');
                assert(i == 1);
                assert(s[1] == "http://"@[0]);
                assert(false);
            } else {
                assert(crate::text::has_prefix(s, i, "https://"@));
                assert(s[i + 5] == "https://"@[5]);
                assert(s[i + 5] == ':');
                assert(i == 0);
                assert(crate::rules::scheme_end(s, 0) == 8);
                match r {
                    Rule::X => {
                        assert(s[8] == 'w');
                        if crate::text::has_prefix(s, 8, "x.com/"@) {
                            assert(s[8] == "x.com/"@[0]);
                        }
                        assert(false);
                    },
                    Rule::Twitter => {
                        assert(s[8] == 'w');
                        if crate::text::has_prefix(s, 8, "twitter.com/"@) {
                            assert(s[8] == "twitter.com/"@[0]);
                        }
                        assert(false);
                    },
                    Rule::Tiktok => {
                        assert(s[12] == 'v');
                        if crate::text::has_prefix(s, 8, "www.tiktok.com/@"@) {
                            assert(s[12] == "www.tiktok.com/@"@[4]);
                        }
                        assert(false);
                    },
                    Rule::VmTiktok => {
                        assert(s[8] == 'w');
                        if crate::text::has_prefix(s, 8, "vm.tiktok.com/"@) {
                            assert(s[8] == "vm.tiktok.com/"@[0]);
                        }
                        assert(false);
                    },
                    Rule::Pixiv => {
                        assert(s[12] == 'v');
                        assert(s[8] == 'w');
                        if crate::text::has_prefix(s, 8, "www."@) {
                            if crate::text::has_prefix(s, 12, "pixiv.net/"@) {
                                assert(s[12] == "pixiv.net/"@[0]);
                            }
                        }
                        if crate::text::has_prefix(s, 8, "pixiv.net/"@) {
                            assert(s[8] == "pixiv.net/"@[0]);
                        }
                        assert(false);
                    },
                    Rule::Bsky => {
                        assert(s[8] == 'w');
                        if crate::text::has_prefix(s, 8, "bsky.app/"@) {
                            assert(s[8] == "bsky.app/"@[0]);
                        }
                        assert(false);
                    },
                }
            }
        }
    }
}

/// Law: the rewritten tiktok form is a fixed point of the transform: no
/// rule's pattern matches it anywhere, whatever the handle's length, so
/// rewriting it again changes nothing.
pub proof fn lemma_tiktok_rewritten_fixed_point(h: Seq<char>)
    requires
        forall|m: int|
            0 <= m < h.len() ==> crate::text::in_class(
                crate::text::CharClass::Tiktok,
                #[trigger] h[m],
            ),
    ensures
        transform_spec("https://www.vxtiktok.com/@"@ + h + "/video"@) == "https://www.vxtiktok.com/@"@
            + h + "/video"@,
{
    lemma_vxtiktok_unmatched(h);
    lemma_unmatched_unchanged("https://www.vxtiktok.com/@"@ + h + "/video"@);
}

/// No rule's pattern matches the rewritten share-link form
/// `https://vm.vxtiktok.com/<path>` anywhere.
pub proof fn lemma_vm_vxtiktok_unmatched(t: Seq<char>)
    requires
        forall|m: int|
            0 <= m < t.len() ==> crate::text::in_class(
                crate::text::CharClass::VmPath,
                #[trigger] t[m],
            ),
    ensures
        unmatched("https://vm.vxtiktok.com/"@ + t),
{
    let a = "https://vm.vxtiktok.com/"@;
    let s = a + t;
    reveal_strlit("https://vm.vxtiktok.com/");
    reveal_strlit("https://");
    reveal_strlit("http://");
    reveal_strlit("x.com/");
    reveal_strlit("twitter.com/");
    reveal_strlit("www.tiktok.com/@");
    reveal_strlit("vm.tiktok.com/");
    reveal_strlit("www.");
    reveal_strlit("pixiv.net/");
    reveal_strlit("bsky.app/");
    assert(a.len() == 24);
    assert forall|m: int| 0 <= m < 24 implies s[m] == a[m] by {}
    assert forall|m: int| 0 <= m < t.len() implies s[24 + m] == t[m] by {}
    assert forall|p: int| 0 <= p < s.len() && #[trigger] s[p] == ':' implies p == 5 by {
        if p < 24 {
            assert(s[p] == a[p]);
        } else {
            assert(s[p] == t[p - 24]);
            assert(crate::text::in_class(crate::text::CharClass::VmPath, t[p - 24]));
        }
    }
    assert forall|r: Rule, i: int| 0 <= i < s.len() implies !matches_at(r, s, i) by {
        if matches_at(r, s, i) {
            if crate::text::has_prefix(s, i, "http://"@) {
                assert(s[i + 4] == "http://"@[4]);
                assert(s[i + 4] == ':');
                assert(i == 1);
                assert(s[1] == "http://"@[0]);
                assert(false);
            } else {
                assert(crate::text::has_prefix(s, i, "https://"@));
                assert(s[i + 5] == "https://"@[5]);
                assert(s[i + 5] == ':');
                assert(i == 0);
                assert(crate::rules::scheme_end(s, 0) == 8);
                match r {
                    Rule::X => {
                        assert(s[8] == 'v');
                        if crate::text::has_prefix(s, 8, "x.com/"@) {
                            assert(s[8] == "x.com/"@[0]);
                        }
                        assert(false);
                    },
                    Rule::Twitter => {
                        assert(s[8] == 'v');
                        if crate::text::has_prefix(s, 8, "twitter.com/"@) {
                            assert(s[8] == "twitter.com/"@[0]);
                        }
                        assert(false);
                    },
                    Rule::Tiktok => {
                        assert(s[8] == 'v');
                        if crate::text::has_prefix(s, 8, "www.tiktok.com/@"@) {
                            assert(s[8] == "www.tiktok.com/@"@[0]);
                        }
                        assert(false);
                    },
                    Rule::VmTiktok => {
                        assert(s[11] == 'v');
                        if crate::text::has_prefix(s, 8, "vm.tiktok.com/"@) {
                            assert(s[11] == "vm.tiktok.com/"@[3]);
                        }
                        assert(false);
                    },
                    Rule::Pixiv => {
                        assert(s[8] == 'v');
                        if crate::text::has_prefix(s, 8, "www."@) {
                            assert(s[8] == "www."@[0]);
                        }
                        if crate::text::has_prefix(s, 8, "pixiv.net/"@) {
                            assert(s[8] == "pixiv.net/"@[0]);
                        }
                        assert(false);
                    },
                    Rule::Bsky => {
                        assert(s[8] == 'v');
                        if crate::text::has_prefix(s, 8, "bsky.app/"@) {
                            assert(s[8] == "bsky.app/"@[0]);
                        }
                        assert(false);
                    },
                }
            }
        }
    }
}

/// Law: the rewritten share-link form is a fixed point of the transform:
/// no rule's pattern matches it anywhere, so rewriting it again changes
/// nothing.
pub proof fn lemma_vm_tiktok_rewritten_fixed_point(t: Seq<char>)
    requires
        forall|m: int|
            0 <= m < t.len() ==> crate::text::in_class(
                crate::text::CharClass::VmPath,
                #[trigger] t[m],
            ),
    ensures
        transform_spec("https://vm.vxtiktok.com/"@ + t) == "https://vm.vxtiktok.com/"@ + t,
{
    lemma_vm_vxtiktok_unmatched(t);
    lemma_unmatched_unchanged("https://vm.vxtiktok.com/"@ + t);
}

/// Law: the rewritten bsky form `https://bskyx.app/<remainder>` is a
/// fixed point of the transform whenever the remainder holds no colon, so
/// no scheme, and with it no rule's pattern, can start inside it.
pub proof fn lemma_bsky_rewritten_fixed_point(t: Seq<char>)
    requires
        forall|m: int| 0 <= m < t.len() ==> #[trigger] t[m] != ':',
    ensures
        transform_spec("https://bskyx.app/"@ + t) == "https://bskyx.app/"@ + t,
{
    let a = "https://bskyx.app/"@;
    let s = a + t;
    reveal_strlit("https://bskyx.app/");
    reveal_strlit("https://");
    reveal_strlit("http://");
    reveal_strlit("x.com/");
    reveal_strlit("twitter.com/");
    reveal_strlit("www.tiktok.com/@");
    reveal_strlit("vm.tiktok.com/");
    reveal_strlit("www.");
    reveal_strlit("pixiv.net/");
    reveal_strlit("bsky.app/");
    assert(a.len() == 18);
    assert forall|m: int| 0 <= m < 18 implies s[m] == a[m] by {}
    assert forall|m: int| 0 <= m < t.len() implies s[18 + m] == t[m] by {}
    assert forall|p: int| 0 <= p < s.len() && #[trigger] s[p] == ':' implies p == 5 by {
        if p < 18 {
            assert(s[p] == a[p]);
        } else {
            assert(s[p] == t[p - 18]);
        }
    }
    assert forall|r: Rule, i: int| 0 <= i < s.len() implies !matches_at(r, s, i) by {
        if matches_at(r, s, i) {
            if crate::text::has_prefix(s, i, "http://"@) {
                assert(s[i + 4] == "http://"@[4]);
                assert(s[i + 4] == ':');
                assert(i == 1);
                assert(s[1] == "http://"@[0]);
                assert(false);
            } else {
                assert(crate::text::has_prefix(s, i, "https://"@));
                assert(s[i + 5] == "https://"@[5]);
                assert(s[i + 5] == ':');
                assert(i == 0);
                assert(crate::rules::scheme_end(s, 0) == 8);
                match r {
                    Rule::X => {
                        assert(s[8] == 'b');
                        if crate::text::has_prefix(s, 8, "x.com/"@) {
                            assert(s[8] == "x.com/"@[0]);
                        }
                        assert(false);
                    },
                    Rule::Twitter => {
                        assert(s[8] == 'b');
                        if crate::text::has_prefix(s, 8, "twitter.com/"@) {
                            assert(s[8] == "twitter.com/"@[0]);
                        }
                        assert(false);
                    },
                    Rule::Tiktok => {
                        assert(s[8] == 'b');
                        if crate::text::has_prefix(s, 8, "www.tiktok.com/@"@) {
                            assert(s[8] == "www.tiktok.com/@"@[0]);
                        }
                        assert(false);
                    },
                    Rule::VmTiktok => {
                        assert(s[8] == 'b');
                        if crate::text::has_prefix(s, 8, "vm.tiktok.com/"@) {
                            assert(s[8] == "vm.tiktok.com/"@[0]);
                        }
                        assert(false);
                    },
                    Rule::Pixiv => {
                        assert(s[8] == 'b');
                        if crate::text::has_prefix(s, 8, "www."@) {
                            assert(s[8] == "www."@[0]);
                        }
                        if crate::text::has_prefix(s, 8, "pixiv.net/"@) {
                            assert(s[8] == "pixiv.net/"@[0]);
                        }
                        assert(false);
                    },
                    Rule::Bsky => {
                        assert(s[12] == 'x');
                        if crate::text::has_prefix(s, 8, "bsky.app/"@) {
                            assert(s[12] == "bsky.app/"@[4]);
                        }
                        assert(false);
                    },
                }
            }
        }
    }
    lemma_unmatched_unchanged(s);
}


/// The x.com rule, which runs before the twitter rule, matches a
/// twitter.com status link nowhere.
proof fn lemma_twitter_input_x_unmatched(h: Seq<char>)
    requires
        forall|m: int| 0 <= m < h.len() ==> crate::text::is_word_char(#[trigger] h[m]),
    ensures
        forall|q: int|
            0 <= q < ("https://twitter.com/"@ + h + "/status"@).len() ==> !matches_at(
                Rule::X,
                "https://twitter.com/"@ + h + "/status"@,
                q,
            ),
{
    let a = "https://twitter.com/"@;
    let b = "/status"@;
    let ah = a + h;
    let s = ah + b;
    reveal_strlit("https://twitter.com/");
    reveal_strlit("/status");
    reveal_strlit("https://");
    reveal_strlit("http://");
    reveal_strlit("x.com/");
    assert(a.len() == 20);
    assert(b.len() == 7);
    assert forall|m: int| 0 <= m < 20 implies s[m] == a[m] by {
        assert(s[m] == ah[m]);
    }
    assert forall|m: int| 0 <= m < h.len() implies s[20 + m] == h[m] by {
        assert(s[20 + m] == ah[20 + m]);
    }
    assert forall|m: int| 0 <= m < 7 implies s[20 + h.len() as int + m] == b[m] by {}
    assert forall|p: int| 0 <= p < s.len() && #[trigger] s[p] == ':' implies p == 5 by {
        if p < 20 {
            assert(s[p] == a[p]);
        } else if p < 20 + h.len() {
            assert(s[p] == h[p - 20]);
            assert(crate::text::is_word_char(h[p - 20]));
        } else {
            assert(s[p] == b[p - 20 - h.len()]);
        }
    }
    assert forall|q: int| 0 <= q < s.len() implies !matches_at(Rule::X, s, q) by {
        if matches_at(Rule::X, s, q) {
            if crate::text::has_prefix(s, q, "http://"@) {
                assert(s[q + 4] == "http://"@[4]);
                assert(s[q + 4] == ':');
                assert(q == 1);
                assert(s[1] == "http://"@[0]);
                assert(false);
            } else {
                assert(crate::text::has_prefix(s, q, "https://"@));
                assert(s[q + 5] == "https://"@[5]);
                assert(s[q + 5] == ':');
                assert(q == 0);
                assert(crate::rules::scheme_end(s, 0) == 8);
                assert(s[8] == 't');
                if crate::text::has_prefix(s, 8, "x.com/"@) {
                    assert(s[8] == "x.com/"@[0]);
                }
                assert(false);
            }
        }
    }
}

/// Law: a twitter.com status link with an in-bounds handle is rewritten,
/// end to end, to the vxtwitter.com form with the handle kept verbatim:
/// the rules before the twitter rule leave it alone, the twitter rule
/// replaces it whole, and no rule after that touches the result.
pub proof fn lemma_transform_twitter_link(h: Seq<char>)
    requires
        forall|m: int| 0 <= m < h.len() ==> crate::text::is_word_char(#[trigger] h[m]),
        4 <= h.len() <= 15,
    ensures
        transform_spec("https://twitter.com/"@ + h + "/status"@) == "https://vxtwitter.com/"@ + h
            + "/status"@,
{
    let s = "https://twitter.com/"@ + h + "/status"@;
    let t = "https://vxtwitter.com/"@ + h + "/status"@;
    reveal_strlit("https://twitter.com/");
    reveal_strlit("https://vxtwitter.com/");
    reveal_strlit("/status");
    lemma_twitter_input_x_unmatched(h);
    lemma_rule_unchanged(Rule::X, s);
    assert(s =~= "https://twitter.com/"@ + h + "/status"@ + Seq::<char>::empty());
    crate::rules::lemma_twitter_handle_bounds(h, Seq::empty());
    assert(matches_at(Rule::Twitter, s, 0));
    assert(match_len(Rule::Twitter, s, 0) == s.len());
    lemma_rewrite_from_match(Rule::Twitter, s, 0);
    assert(rewrite_from(Rule::Twitter, s, s.len() as int) == Seq::<char>::empty());
    assert(replacement(Rule::Twitter, s, 0) + Seq::<char>::empty() =~= replacement(
        Rule::Twitter,
        s,
        0,
    ));
    assert(rewrite(Rule::Twitter, s) == t);
    lemma_vxtwitter_unmatched(h);
    lemma_rule_unchanged(Rule::Tiktok, t);
    lemma_rule_unchanged(Rule::VmTiktok, t);
    lemma_rule_unchanged(Rule::Pixiv, t);
    lemma_rule_unchanged(Rule::Bsky, t);
}


/// The x.com and twitter.com rules, which run before the tiktok rule,
/// match a www.tiktok.com video link nowhere.
proof fn lemma_tiktok_input_earlier_unmatched(h: Seq<char>)
    requires
        forall|m: int|
            0 <= m < h.len() ==> crate::text::in_class(
                crate::text::CharClass::Tiktok,
                #[trigger] h[m],
            ),
    ensures
        forall|q: int|
            0 <= q < ("https://www.tiktok.com/@"@ + h + "/video"@).len() ==> !matches_at(
                Rule::X,
                "https://www.tiktok.com/@"@ + h + "/video"@,
                q,
            ),
        forall|q: int|
            0 <= q < ("https://www.tiktok.com/@"@ + h + "/video"@).len() ==> !matches_at(
                Rule::Twitter,
                "https://www.tiktok.com/@"@ + h + "/video"@,
                q,
            ),
{
    let a = "https://www.tiktok.com/@"@;
    let b = "/video"@;
    let ah = a + h;
    let s = ah + b;
    reveal_strlit("https://www.tiktok.com/@");
    reveal_strlit("/video");
    reveal_strlit("https://");
    reveal_strlit("http://");
    reveal_strlit("x.com/");
    reveal_strlit("twitter.com/");
    assert(a.len() == 24);
    assert(b.len() == 6);
    assert forall|m: int| 0 <= m < 24 implies s[m] == a[m] by {
        assert(s[m] == ah[m]);
    }
    assert forall|m: int| 0 <= m < h.len() implies s[24 + m] == h[m] by {
        assert(s[24 + m] == ah[24 + m]);
    }
    assert forall|m: int| 0 <= m < 6 implies s[24 + h.len() as int + m] == b[m] by {}
    assert forall|p: int| 0 <= p < s.len() && #[trigger] s[p] == ':' implies p == 5 by {
        if p < 24 {
            assert(s[p] == a[p]);
        } else if p < 24 + h.len() {
            assert(s[p] == h[p - 24]);
            assert(crate::text::in_class(crate::text::CharClass::Tiktok, h[p - 24]));
        } else {
            assert(s[p] == b[p - 24 - h.len()]);
        }
    }
    assert forall|r: Rule, q: int|
        0 <= q < s.len() && (r is X || r is Twitter) implies !matches_at(r, s, q) by {
        if matches_at(r, s, q) {
            if crate::text::has_prefix(s, q, "http://"@) {
                assert(s[q + 4] == "http://"@[4]);
                assert(s[q + 4] == ':');
                assert(q == 1);
                assert(s[1] == "http://"@[0]);
                assert(false);
            } else {
                assert(crate::text::has_prefix(s, q, "https://"@));
                assert(s[q + 5] == "https://"@[5]);
                assert(s[q + 5] == ':');
                assert(q == 0);
                assert(crate::rules::scheme_end(s, 0) == 8);
                assert(s[8] == 'w');
                match r {
                    Rule::X => {
                        if crate::text::has_prefix(s, 8, "x.com/"@) {
                            assert(s[8] == "x.com/"@[0]);
                        }
                        assert(false);
                    },
                    Rule::Twitter => {
                        if crate::text::has_prefix(s, 8, "twitter.com/"@) {
                            assert(s[8] == "twitter.com/"@[0]);
                        }
                        assert(false);
                    },
                    _ => {
                    },
                }
            }
        }
    }
}

/// Law: a www.tiktok.com video link with an in-bounds handle is
/// rewritten, end to end, to the www.vxtiktok.com form with the handle
/// kept verbatim: the rules before the tiktok rule leave it alone, the
/// tiktok rule replaces it whole, and no rule after that touches the
/// result.
pub proof fn lemma_transform_tiktok_link(h: Seq<char>)
    requires
        forall|m: int|
            0 <= m < h.len() ==> crate::text::in_class(
                crate::text::CharClass::Tiktok,
                #[trigger] h[m],
            ),
        4 <= h.len() <= 15,
    ensures
        transform_spec("https://www.tiktok.com/@"@ + h + "/video"@) == "https://www.vxtiktok.com/@"@
            + h + "/video"@,
{
    let s = "https://www.tiktok.com/@"@ + h + "/video"@;
    let t = "https://www.vxtiktok.com/@"@ + h + "/video"@;
    reveal_strlit("https://www.tiktok.com/@");
    reveal_strlit("https://www.vxtiktok.com/@");
    reveal_strlit("/video");
    lemma_tiktok_input_earlier_unmatched(h);
    lemma_rule_unchanged(Rule::X, s);
    lemma_rule_unchanged(Rule::Twitter, s);
    assert(s =~= "https://www.tiktok.com/@"@ + h + "/video"@ + Seq::<char>::empty());
    crate::rules::lemma_tiktok_handle_bounds(h, Seq::empty());
    assert(matches_at(Rule::Tiktok, s, 0));
    assert(match_len(Rule::Tiktok, s, 0) == s.len());
    lemma_rewrite_from_match(Rule::Tiktok, s, 0);
    assert(rewrite_from(Rule::Tiktok, s, s.len() as int) == Seq::<char>::empty());
    assert(replacement(Rule::Tiktok, s, 0) + Seq::<char>::empty() =~= replacement(
        Rule::Tiktok,
        s,
        0,
    ));
    assert(rewrite(Rule::Tiktok, s) == t);
    lemma_vxtiktok_unmatched(h);
    lemma_rule_unchanged(Rule::VmTiktok, t);
    lemma_rule_unchanged(Rule::Pixiv, t);
    lemma_rule_unchanged(Rule::Bsky, t);
}


/// The five rules before the bsky rule match a bsky.app link nowhere.
proof fn lemma_bsky_input_earlier_unmatched(t: Seq<char>)
    requires
        forall|m: int| 0 <= m < t.len() ==> #[trigger] t[m] != ':',
    ensures
        forall|r: Rule, q: int|
            0 <= q < ("https://bsky.app/"@ + t).len() && !(r is Bsky) ==> !matches_at(
                r,
                "https://bsky.app/"@ + t,
                q,
            ),
{
    let a = "https://bsky.app/"@;
    let s = a + t;
    reveal_strlit("https://bsky.app/");
    reveal_strlit("https://");
    reveal_strlit("http://");
    reveal_strlit("x.com/");
    reveal_strlit("twitter.com/");
    reveal_strlit("www.tiktok.com/@");
    reveal_strlit("vm.tiktok.com/");
    reveal_strlit("www.");
    reveal_strlit("pixiv.net/");
    assert(a.len() == 17);
    assert forall|m: int| 0 <= m < 17 implies s[m] == a[m] by {}
    assert forall|m: int| 0 <= m < t.len() implies s[17 + m] == t[m] by {}
    assert forall|p: int| 0 <= p < s.len() && #[trigger] s[p] == ':' implies p == 5 by {
        if p < 17 {
            assert(s[p] == a[p]);
        } else {
            assert(s[p] == t[p - 17]);
        }
    }
    assert forall|r: Rule, q: int|
        0 <= q < s.len() && !(r is Bsky) implies !matches_at(r, s, q) by {
        if matches_at(r, s, q) {
            if crate::text::has_prefix(s, q, "http://"@) {
                assert(s[q + 4] == "http://"@[4]);
                assert(s[q + 4] == ':');
                assert(q == 1);
                assert(s[1] == "http://"@[0]);
                assert(false);
            } else {
                assert(crate::text::has_prefix(s, q, "https://"@));
                assert(s[q + 5] == "https://"@[5]);
                assert(s[q + 5] == ':');
                assert(q == 0);
                assert(crate::rules::scheme_end(s, 0) == 8);
                assert(s[8] == 'b');
                match r {
                    Rule::X => {
                        if crate::text::has_prefix(s, 8, "x.com/"@) {
                            assert(s[8] == "x.com/"@[0]);
                        }
                        assert(false);
                    },
                    Rule::Twitter => {
                        if crate::text::has_prefix(s, 8, "twitter.com/"@) {
                            assert(s[8] == "twitter.com/"@[0]);
                        }
                        assert(false);
                    },
                    Rule::Tiktok => {
                        if crate::text::has_prefix(s, 8, "www.tiktok.com/@"@) {
                            assert(s[8] == "www.tiktok.com/@"@[0]);
                        }
                        assert(false);
                    },
                    Rule::VmTiktok => {
                        if crate::text::has_prefix(s, 8, "vm.tiktok.com/"@) {
                            assert(s[8] == "vm.tiktok.com/"@[0]);
                        }
                        assert(false);
                    },
                    Rule::Pixiv => {
                        if crate::text::has_prefix(s, 8, "www."@) {
                            assert(s[8] == "www."@[0]);
                        }
                        if crate::text::has_prefix(s, 8, "pixiv.net/"@) {
                            assert(s[8] == "pixiv.net/"@[0]);
                        }
                        assert(false);
                    },
                    Rule::Bsky => {
                    },
                }
            }
        }
    }
}

/// Law: a bsky.app link whose remainder holds no line break and no colon
/// is rewritten, end to end, to the bskyx.app form with the remainder
/// kept verbatim: the five rules before the bsky rule leave it alone, and
/// the bsky rule, last in the table, replaces it whole.
pub proof fn lemma_transform_bsky_link(t: Seq<char>)
    requires
        forall|m: int| 0 <= m < t.len() ==> #[trigger] t[m] != '\n',
        forall|m: int| 0 <= m < t.len() ==> #[trigger] t[m] != ':',
    ensures
        transform_spec("https://bsky.app/"@ + t) == "https://bskyx.app/"@ + t,
{
    let s = "https://bsky.app/"@ + t;
    let u = "https://bskyx.app/"@ + t;
    reveal_strlit("https://bsky.app/");
    reveal_strlit("https://bskyx.app/");
    lemma_bsky_input_earlier_unmatched(t);
    lemma_rule_unchanged(Rule::X, s);
    lemma_rule_unchanged(Rule::Twitter, s);
    lemma_rule_unchanged(Rule::Tiktok, s);
    lemma_rule_unchanged(Rule::VmTiktok, s);
    lemma_rule_unchanged(Rule::Pixiv, s);
    assert(s =~= "https://bsky.app/"@ + t + Seq::<char>::empty());
    crate::rules::lemma_bsky_remainder_kept(t, Seq::empty());
    assert(matches_at(Rule::Bsky, s, 0));
    assert(match_len(Rule::Bsky, s, 0) == s.len());
    lemma_rewrite_from_match(Rule::Bsky, s, 0);
    assert(rewrite_from(Rule::Bsky, s, s.len() as int) == Seq::<char>::empty());
    assert(replacement(Rule::Bsky, s, 0) + Seq::<char>::empty() =~= replacement(Rule::Bsky, s, 0));
    assert(rewrite(Rule::Bsky, s) == u);
}


/// The x.com, twitter.com and www.tiktok.com rules, which run before the
/// vm.tiktok.com rule, match a vm.tiktok.com share link nowhere.
proof fn lemma_vm_input_earlier_unmatched(tl: Seq<char>)
    requires
        forall|m: int|
            0 <= m < tl.len() ==> crate::text::in_class(
                crate::text::CharClass::VmPath,
                #[trigger] tl[m],
            ),
    ensures
        forall|r: Rule, q: int|
            0 <= q < ("https://vm.tiktok.com/"@ + tl).len() && (r is X || r is Twitter
                || r is Tiktok) ==> !matches_at(r, "https://vm.tiktok.com/"@ + tl, q),
{
    let a = "https://vm.tiktok.com/"@;
    let s = a + tl;
    reveal_strlit("https://vm.tiktok.com/");
    reveal_strlit("https://");
    reveal_strlit("http://");
    reveal_strlit("x.com/");
    reveal_strlit("twitter.com/");
    reveal_strlit("www.tiktok.com/@");
    assert(a.len() == 22);
    assert forall|m: int| 0 <= m < 22 implies s[m] == a[m] by {}
    assert forall|m: int| 0 <= m < tl.len() implies s[22 + m] == tl[m] by {}
    assert forall|p: int| 0 <= p < s.len() && #[trigger] s[p] == ':' implies p == 5 by {
        if p < 22 {
            assert(s[p] == a[p]);
        } else {
            assert(s[p] == tl[p - 22]);
            assert(crate::text::in_class(crate::text::CharClass::VmPath, tl[p - 22]));
        }
    }
    assert forall|r: Rule, q: int|
        0 <= q < s.len() && (r is X || r is Twitter || r is Tiktok) implies !matches_at(
        r,
        s,
        q,
    ) by {
        if matches_at(r, s, q) {
            if crate::text::has_prefix(s, q, "http://"@) {
                assert(s[q + 4] == "http://"@[4]);
                assert(s[q + 4] == ':');
                assert(q == 1);
                assert(s[1] == "http://"@[0]);
                assert(false);
            } else {
                assert(crate::text::has_prefix(s, q, "https://"@));
                assert(s[q + 5] == "https://"@[5]);
                assert(s[q + 5] == ':');
                assert(q == 0);
                assert(crate::rules::scheme_end(s, 0) == 8);
                assert(s[8] == 'v');
                match r {
                    Rule::X => {
                        if crate::text::has_prefix(s, 8, "x.com/"@) {
                            assert(s[8] == "x.com/"@[0]);
                        }
                        assert(false);
                    },
                    Rule::Twitter => {
                        if crate::text::has_prefix(s, 8, "twitter.com/"@) {
                            assert(s[8] == "twitter.com/"@[0]);
                        }
                        assert(false);
                    },
                    Rule::Tiktok => {
                        if crate::text::has_prefix(s, 8, "www.tiktok.com/@"@) {
                            assert(s[8] == "www.tiktok.com/@"@[0]);
                        }
                        assert(false);
                    },
                    _ => {
                    },
                }
            }
        }
    }
}

/// Law: a vm.tiktok.com share link with a non-empty path is rewritten,
/// end to end, to the vm.vxtiktok.com form with the path kept verbatim:
/// the rules before the vm.tiktok.com rule leave it alone, that rule
/// replaces it whole, and no rule after that touches the result.
pub proof fn lemma_transform_vm_tiktok_link(tl: Seq<char>)
    requires
        forall|m: int|
            0 <= m < tl.len() ==> crate::text::in_class(
                crate::text::CharClass::VmPath,
                #[trigger] tl[m],
            ),
        1 <= tl.len(),
    ensures
        transform_spec("https://vm.tiktok.com/"@ + tl) == "https://vm.vxtiktok.com/"@ + tl,
{
    let s = "https://vm.tiktok.com/"@ + tl;
    let u = "https://vm.vxtiktok.com/"@ + tl;
    reveal_strlit("https://vm.tiktok.com/");
    reveal_strlit("https://vm.vxtiktok.com/");
    lemma_vm_input_earlier_unmatched(tl);
    lemma_rule_unchanged(Rule::X, s);
    lemma_rule_unchanged(Rule::Twitter, s);
    lemma_rule_unchanged(Rule::Tiktok, s);
    assert(s =~= "https://vm.tiktok.com/"@ + tl + Seq::<char>::empty());
    crate::rules::lemma_vm_tiktok_path_kept(tl, Seq::empty());
    assert(matches_at(Rule::VmTiktok, s, 0));
    assert(match_len(Rule::VmTiktok, s, 0) == s.len());
    lemma_rewrite_from_match(Rule::VmTiktok, s, 0);
    assert(rewrite_from(Rule::VmTiktok, s, s.len() as int) == Seq::<char>::empty());
    assert(replacement(Rule::VmTiktok, s, 0) + Seq::<char>::empty() =~= replacement(
        Rule::VmTiktok,
        s,
        0,
    ));
    assert(rewrite(Rule::VmTiktok, s) == u);
    lemma_vm_vxtiktok_unmatched(tl);
    lemma_rule_unchanged(Rule::Pixiv, u);
    lemma_rule_unchanged(Rule::Bsky, u);
}


/// The four rules before the pixiv rule match a bare pixiv artwork link
/// nowhere.
proof fn lemma_pixiv_input_earlier_unmatched(d: Seq<char>)
    requires
        forall|m: int| 0 <= m < d.len() ==> crate::text::is_digit_char(#[trigger] d[m]),
    ensures
        forall|r: Rule, q: int|
            0 <= q < ("https://pixiv.net/artworks/"@ + d).len() && (r is X || r is Twitter
                || r is Tiktok || r is VmTiktok) ==> !matches_at(
                r,
                "https://pixiv.net/artworks/"@ + d,
                q,
            ),
{
    let a = "https://pixiv.net/artworks/"@;
    let s = a + d;
    reveal_strlit("https://pixiv.net/artworks/");
    reveal_strlit("https://");
    reveal_strlit("http://");
    reveal_strlit("x.com/");
    reveal_strlit("twitter.com/");
    reveal_strlit("www.tiktok.com/@");
    reveal_strlit("vm.tiktok.com/");
    assert(a.len() == 27);
    assert forall|m: int| 0 <= m < 27 implies s[m] == a[m] by {}
    assert forall|m: int| 0 <= m < d.len() implies s[27 + m] == d[m] by {}
    assert forall|p: int| 0 <= p < s.len() && #[trigger] s[p] == ':' implies p == 5 by {
        if p < 27 {
            assert(s[p] == a[p]);
        } else {
            assert(s[p] == d[p - 27]);
            assert(crate::text::is_digit_char(d[p - 27]));
        }
    }
    assert forall|r: Rule, q: int|
        0 <= q < s.len() && (r is X || r is Twitter || r is Tiktok || r is VmTiktok)
        implies !matches_at(r, s, q) by {
        if matches_at(r, s, q) {
            if crate::text::has_prefix(s, q, "http://"@) {
                assert(s[q + 4] == "http://"@[4]);
                assert(s[q + 4] == ':');
                assert(q == 1);
                assert(s[1] == "http://"@[0]);
                assert(false);
            } else {
                assert(crate::text::has_prefix(s, q, "https://"@));
                assert(s[q + 5] == "https://"@[5]);
                assert(s[q + 5] == ':');
                assert(q == 0);
                assert(crate::rules::scheme_end(s, 0) == 8);
                assert(s[8] == 'p');
                match r {
                    Rule::X => {
                        if crate::text::has_prefix(s, 8, "x.com/"@) {
                            assert(s[8] == "x.com/"@[0]);
                        }
                        assert(false);
                    },
                    Rule::Twitter => {
                        if crate::text::has_prefix(s, 8, "twitter.com/"@) {
                            assert(s[8] == "twitter.com/"@[0]);
                        }
                        assert(false);
                    },
                    Rule::Tiktok => {
                        if crate::text::has_prefix(s, 8, "www.tiktok.com/@"@) {
                            assert(s[8] == "www.tiktok.com/@"@[0]);
                        }
                        assert(false);
                    },
                    Rule::VmTiktok => {
                        if crate::text::has_prefix(s, 8, "vm.tiktok.com/"@) {
                            assert(s[8] == "vm.tiktok.com/"@[0]);
                        }
                        assert(false);
                    },
                    _ => {
                    },
                }
            }
        }
    }
}

/// The bsky rule, which runs after the pixiv rule, matches the
/// normalized pixiv form nowhere.
proof fn lemma_pixiv_normalized_bsky_unmatched(d: Seq<char>)
    requires
        forall|m: int| 0 <= m < d.len() ==> crate::text::is_digit_char(#[trigger] d[m]),
    ensures
        forall|q: int|
            0 <= q < ("https://www.pixiv.net/en/artworks/"@ + d).len() ==> !matches_at(
                Rule::Bsky,
                "https://www.pixiv.net/en/artworks/"@ + d,
                q,
            ),
{
    let a = "https://www.pixiv.net/en/artworks/"@;
    let s = a + d;
    reveal_strlit("https://www.pixiv.net/en/artworks/");
    reveal_strlit("https://");
    reveal_strlit("http://");
    reveal_strlit("bsky.app/");
    assert(a.len() == 34);
    assert forall|m: int| 0 <= m < 34 implies s[m] == a[m] by {}
    assert forall|m: int| 0 <= m < d.len() implies s[34 + m] == d[m] by {}
    assert forall|p: int| 0 <= p < s.len() && #[trigger] s[p] == ':' implies p == 5 by {
        if p < 34 {
            assert(s[p] == a[p]);
        } else {
            assert(s[p] == d[p - 34]);
            assert(crate::text::is_digit_char(d[p - 34]));
        }
    }
    assert forall|q: int| 0 <= q < s.len() implies !matches_at(Rule::Bsky, s, q) by {
        if matches_at(Rule::Bsky, s, q) {
            if crate::text::has_prefix(s, q, "http://"@) {
                assert(s[q + 4] == "http://"@[4]);
                assert(s[q + 4] == ':');
                assert(q == 1);
                assert(s[1] == "http://"@[0]);
                assert(false);
            } else {
                assert(crate::text::has_prefix(s, q, "https://"@));
                assert(s[q + 5] == "https://"@[5]);
                assert(s[q + 5] == ':');
                assert(q == 0);
                assert(crate::rules::scheme_end(s, 0) == 8);
                assert(s[8] == 'w');
                if crate::text::has_prefix(s, 8, "bsky.app/"@) {
                    assert(s[8] == "bsky.app/"@[0]);
                }
                assert(false);
            }
        }
    }
}

/// Law: a pixiv artwork link without the `www.` label and without a
/// locale segment is rewritten, end to end, to the normalized
/// `https://www.pixiv.net/en/artworks/` form with the artwork number
/// kept verbatim.
pub proof fn lemma_transform_pixiv_bare_link(d: Seq<char>)
    requires
        forall|m: int| 0 <= m < d.len() ==> crate::text::is_digit_char(#[trigger] d[m]),
        1 <= d.len(),
    ensures
        transform_spec("https://pixiv.net/artworks/"@ + d) == "https://www.pixiv.net/en/artworks/"@
            + d,
{
    let s = "https://pixiv.net/artworks/"@ + d;
    let u = "https://www.pixiv.net/en/artworks/"@ + d;
    reveal_strlit("https://pixiv.net/artworks/");
    reveal_strlit("https://www.pixiv.net/en/artworks/");
    lemma_pixiv_input_earlier_unmatched(d);
    lemma_rule_unchanged(Rule::X, s);
    lemma_rule_unchanged(Rule::Twitter, s);
    lemma_rule_unchanged(Rule::Tiktok, s);
    lemma_rule_unchanged(Rule::VmTiktok, s);
    assert(s =~= "https://pixiv.net/artworks/"@ + d + Seq::<char>::empty());
    crate::rules::lemma_pixiv_bare_match(d, Seq::empty());
    assert(matches_at(Rule::Pixiv, s, 0));
    assert(match_len(Rule::Pixiv, s, 0) == s.len());
    lemma_rewrite_from_match(Rule::Pixiv, s, 0);
    assert(rewrite_from(Rule::Pixiv, s, s.len() as int) == Seq::<char>::empty());
    assert(replacement(Rule::Pixiv, s, 0) + Seq::<char>::empty() =~= replacement(
        Rule::Pixiv,
        s,
        0,
    ));
    assert(rewrite(Rule::Pixiv, s) == u);
    lemma_pixiv_normalized_bsky_unmatched(d);
    lemma_rule_unchanged(Rule::Bsky, u);
}

} // verus!
