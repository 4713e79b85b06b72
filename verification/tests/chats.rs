use fetcher_bot::chat::{
    log_line, log_user, plan_callback, plan_link, plan_message, CallbackPlan, DownloadRequest,
    MessagePlan, RequestReply, RequestStep, MENU_EXPIRED, MENU_OUT_OF_REACH, UNSUPPORTED_LINK,
};
use fetcher_bot::inline_query::{answer_inline_query, inline_article};
use fetcher_bot::kind::DownloadKind;
use fetcher_bot::link::DownloadLink;
use fetcher_bot::menu::{
    insert_download_menu, open_youtube_menu, youtube_menu, DownloadMenus, DOWNLOAD_MENU_TTL,
};

// Messages

#[test]
fn messages_are_planned_by_their_links() {
    assert!(matches!(plan_message(None), MessagePlan::Ignore));
    assert!(matches!(plan_message(Some("hello")), MessagePlan::Ignore));
    match plan_message(Some("https://example.com/")) {
        MessagePlan::Answer { text } => assert_eq!(
            text,
            "Unsupported link. Supported: Instagram profiles or Reels, X videos, and YouTube videos or Shorts."
        ),
        other => panic!("no answer: {other:?}"),
    }
    match plan_message(Some("see https://youtu.be/abc please")) {
        MessagePlan::Offer { url } => assert_eq!(url, "https://youtu.be/abc"),
        other => panic!("no offer: {other:?}"),
    }
    match plan_message(Some("https://x.com/u/status/12")) {
        MessagePlan::Download { kind, url } => {
            assert_eq!(kind, DownloadKind::XVideo);
            assert_eq!(url, "https://x.com/u/status/12");
        }
        other => panic!("no download: {other:?}"),
    }
    assert!(matches!(
        plan_message(Some("https://instagram.com/explore")),
        MessagePlan::Answer { text: UNSUPPORTED_LINK }
    ));
}

#[test]
fn a_link_alone_decides_the_plan() {
    let link = DownloadLink { kind: DownloadKind::YouTubeShort, url: "u" };
    assert!(matches!(plan_link(Some(link), false), MessagePlan::Offer { url: "u" }));
    let link = DownloadLink { kind: DownloadKind::InstagramProfile, url: "u" };
    assert!(matches!(
        plan_link(Some(link), true),
        MessagePlan::Download { kind: DownloadKind::InstagramProfile, url: "u" }
    ));
    assert!(matches!(plan_link(None, true), MessagePlan::Answer { .. }));
    assert!(matches!(plan_link(None, false), MessagePlan::Ignore));
}

// Buttons

#[test]
fn a_button_takes_its_link_once() {
    let mut downloads = DownloadMenus::new();
    insert_download_menu(&mut downloads, "m".into(), "https://youtu.be/a".into(), 5);
    match plan_callback(Some("ytv720:m"), true, &mut downloads, 6) {
        CallbackPlan::Download { kind, url } => {
            assert_eq!(kind, DownloadKind::YouTubeVideo720);
            assert_eq!(url, "https://youtu.be/a");
        }
        other => panic!("no download: {other:?}"),
    }
    for data in ["ytv720:m", "yta:m"] {
        assert!(matches!(
            plan_callback(Some(data), true, &mut downloads, 6),
            CallbackPlan::Alert { text: MENU_EXPIRED }
        ));
    }
    assert_eq!(MENU_EXPIRED, "This download menu expired. Send the YouTube link again.");
}

#[test]
fn every_button_of_a_menu_gives_its_link() {
    for pressed in 0..5 {
        let mut downloads = DownloadMenus::new();
        let id = open_youtube_menu(&mut downloads, "https://youtu.be/a", 1);
        let buttons: Vec<String> =
            youtube_menu(&id).into_iter().flatten().map(|button| button.data).collect();
        assert_eq!(buttons.len(), 5);
        match plan_callback(Some(&buttons[pressed]), true, &mut downloads, DOWNLOAD_MENU_TTL) {
            CallbackPlan::Download { kind, url } => {
                assert!(kind.is_youtube());
                assert_eq!(url, "https://youtu.be/a");
            }
            other => panic!("no download: {other:?}"),
        }
        assert!(!downloads.contains_key(&id));
    }
}

#[test]
fn a_button_out_of_reach_takes_nothing() {
    let mut downloads = DownloadMenus::new();
    insert_download_menu(&mut downloads, "m".into(), "u".into(), 5);
    assert!(matches!(
        plan_callback(Some("yta:m"), false, &mut downloads, DOWNLOAD_MENU_TTL * 9),
        CallbackPlan::Alert { text: MENU_OUT_OF_REACH }
    ));
    assert_eq!(
        MENU_OUT_OF_REACH,
        "Cannot access this menu message. Send the YouTube link again."
    );
    for data in [None, Some("ig:m"), Some("")] {
        for reachable in [false, true] {
            assert!(matches!(
                plan_callback(data, reachable, &mut downloads, DOWNLOAD_MENU_TTL * 9),
                CallbackPlan::Ignore
            ));
        }
    }
    assert!(downloads.contains_key("m"));
    assert!(matches!(
        plan_callback(Some("yta:m"), true, &mut downloads, DOWNLOAD_MENU_TTL * 9),
        CallbackPlan::Alert { text: MENU_EXPIRED }
    ));
    assert!(downloads.is_empty());
}

// Requests

fn request_result(request: &DownloadRequest) -> &Result<(), String> {
    match &request.step {
        RequestStep::Finish(result) => result,
        other => panic!("not finished: {other:?}"),
    }
}

fn running(by_button: bool) -> DownloadRequest {
    let mut request = DownloadRequest::new(DownloadKind::YouTubeAudio, by_button);
    for _ in 0..4 {
        request = request.advance(RequestReply::Done);
    }
    assert!(matches!(request.step, RequestStep::Run));
    request
}

#[test]
fn a_request_holds_its_permit_while_it_runs() {
    let request = DownloadRequest::new(DownloadKind::XVideo, false);
    assert!(matches!(
        request.step,
        RequestStep::SendStatus { text: "Downloading X video..." }
    ));
    let request = request.advance(RequestReply::Done);
    assert!(matches!(request.step, RequestStep::Acquire));
    let request = request.advance(RequestReply::Done);
    assert!(matches!(&request.step, RequestStep::Log { name } if name == "x"));
    let request = request.advance(RequestReply::Failed("ignored".into()));
    assert!(matches!(
        request.step,
        RequestStep::ShowDownloading { text: "Downloading X video..." }
    ));
    let request = request.advance(RequestReply::Failed("ignored".into()));
    assert!(matches!(request.step, RequestStep::Run));
    let request = request.advance(RequestReply::Done);
    assert!(matches!(request.step, RequestStep::Release));
    let request = request.advance(RequestReply::Done);
    assert_eq!(request_result(&request), &Ok(()));
}

#[test]
fn a_failure_is_told_after_the_permit_is_given_back() {
    let request = running(true).advance(RequestReply::Failed("private".into()));
    assert!(matches!(request.step, RequestStep::Release));
    let request = request.advance(RequestReply::Done);
    assert!(matches!(
        &request.step,
        RequestStep::ShowFailure { notice } if notice == "Download failed: private"
    ));
    assert_eq!(request_result(&request.advance(RequestReply::Done)), &Ok(()));

    let request = running(false)
        .advance(RequestReply::Failed("private".into()))
        .advance(RequestReply::Done)
        .advance(RequestReply::Failed("offline".into()));
    assert_eq!(request_result(&request), &Err("offline".to_string()));
}

#[test]
fn a_button_is_confirmed_first() {
    let request = DownloadRequest::new(DownloadKind::YouTubeAudio, true);
    assert!(matches!(request.step, RequestStep::Confirm));
    let request = request.advance(RequestReply::Done).advance(RequestReply::Done);
    assert!(matches!(&request.step, RequestStep::Log { name } if name == "callback_youtube"));
    for by_button in [true, false] {
        let request = DownloadRequest::new(DownloadKind::YouTubeAudio, by_button)
            .advance(RequestReply::Failed("offline".into()));
        assert_eq!(request_result(&request), &Err("offline".to_string()));
    }
}

#[test]
fn downloads_are_logged_in_one_line() {
    assert_eq!(log_user(Some(123)), "123");
    assert_eq!(log_user(Some(u64::MAX)), "18446744073709551615");
    assert_eq!(log_user(None), "unknown");
    assert_eq!(log_line(0, "x", "unknown", "u"), "0\tx\tuser=unknown\tu\n");
    assert_eq!(
        log_line(1_700_000_000, "callback_youtube", "7", "https://youtu.be/a"),
        "1700000000\tcallback_youtube\tuser=7\thttps://youtu.be/a\n"
    );
}

// Inline queries

#[test]
fn inline_queries_are_answered_at_once() {
    let article = answer_inline_query("https://youtu.be/abc");
    assert_eq!(article.id, "send-youtube-to-chat");
    assert_eq!(article.title, "Open bot chat to choose quality");
    assert_eq!(
        article.message_text,
        "Send this YouTube link to the bot chat to choose quality or audio:\nhttps://youtu.be/abc"
    );
    assert_eq!(
        article.description,
        "Inline queries answer instantly; downloads run in bot chat."
    );

    let article = answer_inline_query("https://www.instagram.com/name/");
    assert_eq!(article.id, "send-video-to-chat");
    assert_eq!(article.title, "Open bot chat to download");
    assert_eq!(
        article.message_text,
        "Send this link to the bot chat to download it:\nhttps://www.instagram.com/name/"
    );

    let article = answer_inline_query("http://example.com");
    assert_eq!(article.id, "unsupported-link");
    assert_eq!(article.title, "Unsupported link");
    assert_eq!(article.message_text, "This link is not supported.");
    assert_eq!(
        article.description,
        "Supported: Instagram profiles or Reels, X videos, and YouTube videos or Shorts."
    );

    let article = answer_inline_query("");
    assert_eq!(article.id, "help");
    assert_eq!(article.title, "Paste an Instagram profile or video link");
    assert_eq!(
        article.message_text,
        "Paste an Instagram profile or Reel, X video, or YouTube link after the bot username."
    );
    assert_eq!(
        article.description,
        "Example: @fetcher_bot https://www.instagram.com/example/"
    );
}

#[test]
fn an_article_goes_by_the_kind_of_its_link() {
    let link = DownloadLink { kind: DownloadKind::YouTubeAudio, url: "u" };
    assert_eq!(inline_article(Some(link), false).id, "send-youtube-to-chat");
    let link = DownloadLink { kind: DownloadKind::XVideo, url: "u" };
    assert_eq!(inline_article(Some(link), false).id, "send-video-to-chat");
    assert_eq!(inline_article(None, true).id, "unsupported-link");
    assert_eq!(inline_article(None, false).id, "help");
}
