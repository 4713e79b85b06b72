use fetcher_bot::kind::DownloadKind;
use fetcher_bot::menu::{
    insert_download_menu, open_youtube_menu, parse_youtube_download_callback,
    prune_download_menus, settle_youtube_menu, take_download_url, youtube_menu, DownloadMenu,
    DownloadMenus, DOWNLOAD_MENU_TTL, MAX_DOWNLOAD_MENUS, MENU_PROMPT,
};

#[test]
fn parses_youtube_download_callback_choice() {
    let (kind, id) = parse_youtube_download_callback("yta:abc123").unwrap();
    assert!(matches!(kind, DownloadKind::YouTubeAudio));
    assert_eq!(id, "abc123");

    let (kind, id) = parse_youtube_download_callback("ytv720:abc123").unwrap();
    assert!(matches!(kind, DownloadKind::YouTubeVideo720));
    assert_eq!(id, "abc123");

    let (kind, id) = parse_youtube_download_callback("ytv1440:abc123").unwrap();
    assert!(matches!(kind, DownloadKind::YouTubeVideo1440));
    assert_eq!(id, "abc123");

    let (kind, id) = parse_youtube_download_callback("ytv2160:abc123").unwrap();
    assert!(matches!(kind, DownloadKind::YouTubeVideo2160));
    assert_eq!(id, "abc123");

    let (kind, id) = parse_youtube_download_callback("ytv:abc123").unwrap();
    assert!(matches!(kind, DownloadKind::YouTubeVideo1024));
    assert_eq!(id, "abc123");
    assert!(parse_youtube_download_callback("ig:abc123").is_none());
}

#[test]
fn download_menu_store_expires_abandoned_menus() {
    let now = 2 * DOWNLOAD_MENU_TTL;
    let mut downloads = DownloadMenus::new();
    downloads.insert(
        "expired".into(),
        DownloadMenu {
            url: "https://youtu.be/expired".into(),
            created_at: now - DOWNLOAD_MENU_TTL,
        },
    );

    assert_eq!(take_download_url(&mut downloads, "expired", now), None);
    assert!(downloads.is_empty());
}

#[test]
fn download_menu_store_is_capped() {
    let now = 5_000_000_000;
    let mut downloads = DownloadMenus::new();

    for index in 0..=MAX_DOWNLOAD_MENUS {
        insert_download_menu(
            &mut downloads,
            format!("menu-{index}"),
            format!("https://youtu.be/{index}"),
            now,
        );
    }

    assert_eq!(downloads.len(), MAX_DOWNLOAD_MENUS);
    assert!(downloads.contains_key(&format!("menu-{MAX_DOWNLOAD_MENUS}")));
}

#[test]
fn the_oldest_menu_leaves_first() {
    let mut downloads = DownloadMenus::new();
    for index in 0..MAX_DOWNLOAD_MENUS {
        let shown = if index == 700 { 1 } else { 10 + index as u64 };
        insert_download_menu(&mut downloads, format!("menu-{index}"), "u".into(), shown);
    }
    assert_eq!(downloads.len(), MAX_DOWNLOAD_MENUS);
    insert_download_menu(&mut downloads, "new".into(), "u".into(), 5_000);
    assert_eq!(downloads.len(), MAX_DOWNLOAD_MENUS);
    assert!(!downloads.contains_key("menu-700"));
    assert!(downloads.contains_key("menu-0"));
    assert!(downloads.contains_key("new"));
}

#[test]
fn a_menu_is_used_once_and_leaves_the_others() {
    let mut downloads = DownloadMenus::new();
    insert_download_menu(&mut downloads, "a".into(), "https://youtu.be/a".into(), 7);
    insert_download_menu(&mut downloads, "b".into(), "https://youtu.be/b".into(), 8);
    assert_eq!(
        take_download_url(&mut downloads, "a", 9),
        Some("https://youtu.be/a".to_string())
    );
    assert_eq!(take_download_url(&mut downloads, "a", 9), None);
    assert_eq!(
        take_download_url(&mut downloads, "b", 9),
        Some("https://youtu.be/b".to_string())
    );
    assert_eq!(downloads.len(), 0);
}

#[test]
fn a_menu_lasts_just_short_of_its_time() {
    let shown = 100;
    let mut downloads = DownloadMenus::new();
    insert_download_menu(&mut downloads, "a".into(), "u".into(), shown);
    prune_download_menus(&mut downloads, shown + DOWNLOAD_MENU_TTL - 1);
    assert!(downloads.contains_key("a"));
    prune_download_menus(&mut downloads, shown - 1);
    assert!(downloads.contains_key("a"));
    prune_download_menus(&mut downloads, shown + DOWNLOAD_MENU_TTL);
    assert!(!downloads.contains_key("a"));
    prune_download_menus(&mut downloads, shown);
    assert!(downloads.is_empty());
    assert_eq!(DOWNLOAD_MENU_TTL, 1_800_000_000_000);
}

#[test]
fn a_menu_with_a_known_name_is_replaced() {
    let mut downloads = DownloadMenus::new();
    insert_download_menu(&mut downloads, "a".into(), "first".into(), 1);
    insert_download_menu(&mut downloads, "a".into(), "second".into(), 2);
    assert_eq!(downloads.len(), 1);
    assert_eq!(take_download_url(&mut downloads, "a", 3), Some("second".to_string()));
}

#[test]
fn every_button_of_a_menu_is_read_back() {
    assert_eq!(MENU_PROMPT, "Choose quality or audio:");
    let rows = youtube_menu("id-1");
    let labels: Vec<Vec<&str>> =
        rows.iter().map(|row| row.iter().map(|button| button.label).collect()).collect();
    assert_eq!(labels, vec![vec!["480p", "720p"], vec!["1024p", "4K"], vec!["Audio"]]);
    let mut kinds = Vec::new();
    for button in rows.iter().flatten() {
        let (kind, id) = parse_youtube_download_callback(&button.data).unwrap();
        assert_eq!(id, "id-1");
        kinds.push(kind);
    }
    assert_eq!(
        kinds,
        vec![
            DownloadKind::YouTubeVideo480,
            DownloadKind::YouTubeVideo720,
            DownloadKind::YouTubeVideo1024,
            DownloadKind::YouTubeVideo2160,
            DownloadKind::YouTubeAudio,
        ]
    );
}

#[test]
fn identifiers_of_menus_are_random() {
    let mut downloads = DownloadMenus::new();
    let first = open_youtube_menu(&mut downloads, "one", 1);
    let second = open_youtube_menu(&mut downloads, "two", 1);
    assert_ne!(first, second);
    assert_eq!(first.len(), 36);
    for (i, c) in first.chars().enumerate() {
        if i == 8 || i == 13 || i == 18 || i == 23 {
            assert_eq!(c, '-');
        } else {
            assert!(c.is_ascii_digit() || ('a'..='f').contains(&c));
        }
    }
    assert_eq!(first.chars().nth(14), Some('4'));
    assert!(matches!(first.chars().nth(19), Some('8' | '9' | 'a' | 'b')));
    assert_eq!(take_download_url(&mut downloads, &first, 2), Some("one".to_string()));
    assert_eq!(take_download_url(&mut downloads, &second, 2), Some("two".to_string()));
}

#[test]
fn a_menu_that_was_not_sent_is_forgotten() {
    let mut downloads = DownloadMenus::new();
    let id = open_youtube_menu(&mut downloads, "u", 1);
    settle_youtube_menu(&mut downloads, &id, true);
    assert!(downloads.contains_key(&id));
    settle_youtube_menu(&mut downloads, &id, false);
    assert!(downloads.is_empty());
}

#[test]
fn data_of_other_buttons_is_no_choice() {
    for data in ["", "yt", "ytv", "ytv480", "ytv360:a", "Yta:a", " yta:a"] {
        assert!(parse_youtube_download_callback(data).is_none());
    }
    let (kind, id) = parse_youtube_download_callback("ytv480:").unwrap();
    assert_eq!((kind, id), (DownloadKind::YouTubeVideo480, ""));
    let (kind, id) = parse_youtube_download_callback("ytv:480:a").unwrap();
    assert_eq!((kind, id), (DownloadKind::YouTubeVideo1024, "480:a"));
}
