use fetcher_bot::kind::DownloadKind;
use fetcher_bot::link::{
    contains_http_link, find_download_link, instagram_profile_username, instagram_reel_shortcode,
    is_reserved, select_download_link, should_use_cookies,
};

#[test]
fn finds_instagram_profile_link() {
    let link = find_download_link("https://www.instagram.com/kolka_elf")
        .expect("Instagram profile link should be detected");

    assert!(matches!(link.kind, DownloadKind::InstagramProfile));
    assert_eq!(link.url, "https://www.instagram.com/kolka_elf");
    assert_eq!(instagram_profile_username(link.url), Some("kolka_elf"));
}

#[test]
fn finds_username_prefixed_instagram_reel_link() {
    let link = find_download_link("https://www.instagram.com/kolka_elf/reel/DbHN_ovssLw/")
        .expect("username-prefixed Instagram reel link should be detected");

    assert!(matches!(link.kind, DownloadKind::InstagramReel));
    assert_eq!(
        link.url,
        "https://www.instagram.com/kolka_elf/reel/DbHN_ovssLw/"
    );
    assert_eq!(instagram_reel_shortcode(link.url), Some("DbHN_ovssLw"));
    assert_eq!(
        instagram_reel_shortcode("https://www.instagram.com/reels/DbHN_ovssLw/"),
        Some("DbHN_ovssLw")
    );
}

#[test]
fn instagram_reel_route_is_not_treated_as_a_profile() {
    assert!(find_download_link("https://www.instagram.com/reel/").is_none());
}

#[test]
fn finds_x_video_status_link() {
    let link = find_download_link(
        "watch https://x.com/example_user/status/1800000000000000000?s=46&t=test",
    )
    .expect("x.com status link should be detected");

    assert!(matches!(link.kind, DownloadKind::XVideo));
    assert_eq!(
        link.url,
        "https://x.com/example_user/status/1800000000000000000?s=46&t=test"
    );
}

#[test]
fn x_video_uses_guest_token_instead_of_cookies() {
    assert!(!should_use_cookies(
        "https://x.com/vtchakarova/status/2075991968006439402"
    ));
    assert!(should_use_cookies(
        "https://www.youtube.com/watch?v=Sv5ZZB-M59Q"
    ));
}

#[test]
fn youtube_watch_link_defaults_to_video_menu() {
    let link = find_download_link("watch https://www.youtube.com/watch?v=Sv5ZZB-M59Q")
        .expect("youtube watch link should be detected");

    assert!(matches!(link.kind, DownloadKind::YouTubeVideo));
    assert!(link.kind.is_youtube());
}

#[test]
fn youtube_live_link_defaults_to_video_menu() {
    let link = find_download_link(
        "stream https://www.youtube.com/live/xskUOJfevBU?is=08Tgh2OuqZm5P4pC",
    )
    .expect("youtube live link should be detected");

    assert!(matches!(link.kind, DownloadKind::YouTubeVideo));
    assert!(link.kind.is_youtube());
    assert_eq!(
        link.url,
        "https://www.youtube.com/live/xskUOJfevBU?is=08Tgh2OuqZm5P4pC"
    );
}

#[test]
fn detects_unsupported_http_links() {
    assert!(contains_http_link(
        "download https://www.tiktok.com/@user/video/123"
    ));
    assert!(contains_http_link("try http://example.com/video"));
    assert!(!contains_http_link("hello, no link here"));
}

#[test]
fn shorts_and_short_addresses_are_found() {
    let link = find_download_link("see http://m.youtube.com/shorts/abc_-9?x=1 now").unwrap();
    assert_eq!(link.kind, DownloadKind::YouTubeShort);
    assert_eq!(link.url, "http://m.youtube.com/shorts/abc_-9");

    let link = find_download_link("https://youtu.be/Sv5ZZB-M59Q").unwrap();
    assert_eq!(link.kind, DownloadKind::YouTubeVideo);
    assert_eq!(link.url, "https://youtu.be/Sv5ZZB-M59Q");
}

#[test]
fn every_route_of_the_site_is_reserved_in_any_case() {
    for name in ["reel", "REELS", "p", "P", "Stories", "eXplore"] {
        assert!(is_reserved(name));
        assert!(find_download_link(&format!("https://instagram.com/{name}")).is_none());
    }
    for name in ["", "reelss", "pp", "story", "example"] {
        assert!(!is_reserved(name));
    }
}

#[test]
fn a_route_of_the_site_ends_the_search() {
    let text = "https://instagram.com/p https://youtu.be/Sv5ZZB-M59Q";
    assert!(find_download_link(text).is_none());
    assert!(contains_http_link(text));
}

#[test]
fn reels_come_before_all_other_links() {
    let text = "https://youtu.be/a https://x.com/u/status/1 https://instagram.com/reel/b/";
    let link = find_download_link(text).unwrap();
    assert_eq!(link.kind, DownloadKind::InstagramReel);
    assert_eq!(link.url, "https://instagram.com/reel/b/");
}

#[test]
fn selection_goes_by_rank() {
    let profile = Some(vec![Some("profile"), Some("name")]);
    let chosen = select_download_link(None, &profile, Some("x"), Some("s"), Some("v")).unwrap();
    assert_eq!((chosen.kind, chosen.url), (DownloadKind::InstagramProfile, "profile"));

    let chosen = select_download_link(None, &None, Some("x"), Some("s"), Some("v")).unwrap();
    assert_eq!((chosen.kind, chosen.url), (DownloadKind::XVideo, "x"));

    let chosen = select_download_link(None, &None, None, Some("s"), Some("v")).unwrap();
    assert_eq!((chosen.kind, chosen.url), (DownloadKind::YouTubeShort, "s"));

    let chosen = select_download_link(None, &None, None, None, Some("v")).unwrap();
    assert_eq!((chosen.kind, chosen.url), (DownloadKind::YouTubeVideo, "v"));

    let nameless = Some(vec![Some("profile"), None]);
    assert!(select_download_link(None, &nameless, Some("x"), None, None).is_none());
    assert!(select_download_link(None, &None, None, None, None).is_none());
}

#[test]
fn a_link_that_is_found_is_found_again_in_itself() {
    let texts = [
        "see https://www.instagram.com/kolka_elf/reel/DbHN_ovssLw/?x=1",
        "a http://instagram.com/some.name/tagged b",
        "watch https://mobile.x.com/i/status/18?s=46&t=test now",
        "https://m.youtube.com/shorts/abc_-9?x=1",
        "https://www.youtube.com/watch?list=1&v=Sv5ZZB-M59Q&t=3",
        "https://youtu.be/a?si=b https://youtu.be/c",
        "https://www.youtube.com/watch?u=https://x.com/a/status/1&v=b",
    ];
    for text in texts {
        let link = find_download_link(text).unwrap();
        let again = find_download_link(link.url).unwrap();
        assert_eq!((again.kind, again.url), (link.kind, link.url));
        assert!(text.contains(link.url));
        assert!(link.url.starts_with("http://") || link.url.starts_with("https://"));
        assert!(!link.url.contains(char::is_whitespace));
        assert!(contains_http_link(text));
        assert_eq!(should_use_cookies(link.url), link.kind != DownloadKind::XVideo);
        if link.kind.is_youtube() {
            assert!(should_use_cookies(text));
        }
    }
}

#[test]
fn text_without_media_has_no_link() {
    assert!(find_download_link("").is_none());
    assert!(find_download_link("https://example.com/watch?v=1").is_none());
    assert_eq!(instagram_profile_username("https://example.com/"), None);
    assert_eq!(instagram_reel_shortcode("https://instagram.com/name/"), None);
}
