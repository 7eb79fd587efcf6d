use linkfix::transform;
use linkfix::transform_chars;

// --- Rewriting of each recognized URL form ---

#[test]
fn x_com_status_inside_text() {
    assert_eq!(
        transform("check this out http://x.com/someuser/status/12345"),
        "check this out https://fixvx.com/someuser/status/12345"
    );
}

#[test]
fn twitter_status() {
    assert_eq!(
        transform("https://twitter.com/ab_cd/status/999"),
        "https://vxtwitter.com/ab_cd/status/999"
    );
}

#[test]
fn tiktok_video() {
    assert_eq!(
        transform("https://www.tiktok.com/@jane.doe/video/42"),
        "https://www.vxtiktok.com/@jane.doe/video/42"
    );
}

#[test]
fn vm_tiktok_share() {
    assert_eq!(
        transform("https://vm.tiktok.com/ZMabc-1.23"),
        "https://vm.vxtiktok.com/ZMabc-1.23"
    );
}

#[test]
fn pixiv_with_locale() {
    assert_eq!(
        transform("https://www.pixiv.net/en/artworks/555"),
        "https://www.pixiv.net/en/artworks/555"
    );
}

#[test]
fn pixiv_bare() {
    assert_eq!(
        transform("https://pixiv.net/artworks/555"),
        "https://www.pixiv.net/en/artworks/555"
    );
}

#[test]
fn pixiv_other_locale_and_www() {
    assert_eq!(
        transform("http://www.pixiv.net/ja/artworks/77"),
        "https://www.pixiv.net/en/artworks/77"
    );
}

#[test]
fn bsky_post() {
    assert_eq!(
        transform("https://bsky.app/profile/someone/post/abc"),
        "https://bskyx.app/profile/someone/post/abc"
    );
}

#[test]
fn bsky_stops_at_line_break() {
    assert_eq!(
        transform("see https://bsky.app/profile/a/post/b\nrest"),
        "see https://bskyx.app/profile/a/post/b\nrest"
    );
}

#[test]
fn bsky_with_empty_remainder() {
    assert_eq!(transform("https://bsky.app/"), "https://bskyx.app/");
}

#[test]
fn vm_tiktok_consumes_only_first_segment() {
    assert_eq!(
        transform("https://vm.tiktok.com/ZMab/extra"),
        "https://vm.vxtiktok.com/ZMab/extra"
    );
}

// --- Text with no recognized URL comes back unchanged ---

#[test]
fn unchanged_plain_text() {
    assert_eq!(transform("no links here, just text."), "no links here, just text.");
}

#[test]
fn unchanged_empty() {
    assert_eq!(transform(""), "");
}

#[test]
fn unchanged_unknown_host() {
    assert_eq!(
        transform("https://example.com/user/status/1"),
        "https://example.com/user/status/1"
    );
}

#[test]
fn unchanged_mid_word_scheme() {
    assert_eq!(
        transform("xhttp://x.com/user1/status/5"),
        "xhttp://x.com/user1/status/5"
    );
}

#[test]
fn unchanged_upper_case_host() {
    assert_eq!(transform("HTTP://X.COM/user1/status/5"), "HTTP://X.COM/user1/status/5");
}

#[test]
fn unchanged_missing_status_suffix() {
    assert_eq!(
        transform("https://twitter.com/someuser/likes"),
        "https://twitter.com/someuser/likes"
    );
}

// --- Handle length and character bounds ---

#[test]
fn handle_below_minimum_not_rewritten() {
    assert_eq!(
        transform("https://twitter.com/abc/status/1"),
        "https://twitter.com/abc/status/1"
    );
}

#[test]
fn handle_at_minimum_rewritten() {
    assert_eq!(
        transform("https://twitter.com/abcd/status/1"),
        "https://vxtwitter.com/abcd/status/1"
    );
}

#[test]
fn handle_at_maximum_rewritten() {
    assert_eq!(
        transform("https://x.com/abcdefghij_1234/status/1"),
        "https://fixvx.com/abcdefghij_1234/status/1"
    );
}

#[test]
fn handle_above_maximum_not_rewritten() {
    assert_eq!(
        transform("https://x.com/abcdefghij_12345/status/1"),
        "https://x.com/abcdefghij_12345/status/1"
    );
}

#[test]
fn handle_with_disallowed_character_not_rewritten() {
    assert_eq!(
        transform("https://twitter.com/ab-cd/status/9"),
        "https://twitter.com/ab-cd/status/9"
    );
}

#[test]
fn tiktok_handle_with_disallowed_character_not_rewritten() {
    assert_eq!(
        transform("https://www.tiktok.com/@ab-cde/video/1"),
        "https://www.tiktok.com/@ab-cde/video/1"
    );
}

#[test]
fn tiktok_without_www_not_rewritten() {
    assert_eq!(
        transform("https://tiktok.com/@jane.doe/video/42"),
        "https://tiktok.com/@jane.doe/video/42"
    );
}

// --- Idempotence on rewritten forms ---

#[test]
fn rewritten_forms_are_fixed_points() {
    let inputs = [
        "check this out http://x.com/someuser/status/12345",
        "https://twitter.com/ab_cd/status/999",
        "https://www.tiktok.com/@jane.doe/video/42",
        "https://vm.tiktok.com/ZMabc-1.23",
        "https://pixiv.net/artworks/555",
        "https://bsky.app/profile/someone/post/abc",
        "mixed https://twitter.com/user_one/status/1 and text",
    ];
    for input in inputs {
        let once = transform(input);
        let twice = transform(&once);
        assert_eq!(twice, once);
    }
}

// --- Several URLs in one call ---

#[test]
fn several_urls_rewritten_in_one_call() {
    assert_eq!(
        transform("https://twitter.com/user_one/status/1 and https://bsky.app/profile/z/post/9"),
        "https://vxtwitter.com/user_one/status/1 and https://bskyx.app/profile/z/post/9"
    );
}

#[test]
fn same_rule_twice_in_one_call() {
    assert_eq!(
        transform("http://x.com/aaaa/status/1 http://x.com/bbbb/status/2"),
        "https://fixvx.com/aaaa/status/1 https://fixvx.com/bbbb/status/2"
    );
}

// --- No catastrophic slowdown on adversarial input ---

#[test]
fn near_matches_repeated() {
    let input = "http://x.com/abc/statu ".repeat(200);
    assert_eq!(transform(&input), input);
}

#[test]
fn long_runs_of_near_matching_text() {
    let mut text = String::new();
    for _ in 0..500 {
        text.push_str("http://x.com/");
        text.push_str(&"a".repeat(300));
        text.push(' ');
    }
    text.push_str("https://twitter.com/last_one/status/7");
    let input: Vec<char> = text.chars().collect();
    let out = transform_chars(&input);
    let expected: Vec<char> = text
        .replace(
            "https://twitter.com/last_one/status/7",
            "https://vxtwitter.com/last_one/status/7",
        )
        .chars()
        .collect();
    assert_eq!(out, expected);
}
