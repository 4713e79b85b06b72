use fetcher_bot::cookies::{
    check_args, cookie_args, cookie_browser, cookie_place, cookie_source_args, hidden_variables,
    hidden_variables_for, instagram_webdriver_cookies, parse_cookie_line, read_check, report_check, CheckOutcome,
    CookiePlace, CHECK_URL, COOKIE_FILE,
};
use fetcher_bot::kind::DownloadKind;
use fetcher_bot::ytdlp::{
    download_args, download_command, download_result, filled_text, metadata_args,
    metadata_command, metadata_value, DownloadProgress, RunOutcome, UPDATE_INTERVAL,
};

// Arguments and results

#[test]
fn a_download_names_its_file_and_link_last() {
    let kind = DownloadKind::YouTubeAudio;
    assert_eq!(
        download_args(kind.format_args(), kind.metadata_args(), "/t/f.mp3", "https://youtu.be/a"),
        vec![
            "-x",
            "--audio-format",
            "mp3",
            "--embed-metadata",
            "--parse-metadata",
            "channel:artist",
            "--newline",
            "--js-runtimes",
            "node",
            "--remote-components",
            "ejs:github",
            "-o",
            "/t/f.mp3",
            "https://youtu.be/a",
        ]
    );
    assert_eq!(
        metadata_args("https://youtu.be/a", "title"),
        vec![
            "--print",
            "title",
            "--no-download",
            "--js-runtimes",
            "node",
            "--remote-components",
            "ejs:github",
            "https://youtu.be/a",
        ]
    );
}

#[test]
fn cookies_follow_but_for_posts_on_x() {
    let post = "https://x.com/vtchakarova/status/2075991968006439402";
    let video = "https://www.youtube.com/watch?v=Sv5ZZB-M59Q";
    for file in [Some("/c.txt"), None] {
        for brave in [false, true] {
            assert!(cookie_args(post, file, brave).is_empty());
            assert_eq!(cookie_args(video, file, brave), cookie_source_args(file, brave));
            assert_eq!(
                download_command(&["-x"], &[], "/t/f", post, file, brave),
                download_args(&["-x"], &[], "/t/f", post)
            );
            assert_eq!(metadata_command(post, "title", file, brave), metadata_args(post, "title"));
        }
    }
    let args = download_command(&["-x"], &["-m"], "/t/f", video, Some("/c.txt"), true);
    assert_eq!(args[..2], ["-x", "-m"]);
    assert_eq!(args[args.len() - 4..], ["/t/f", video, "--cookies", "/c.txt"]);
    let args = metadata_command(video, "channel", None, false);
    assert_eq!(args[..2], ["--print", "channel"]);
    assert_eq!(args[args.len() - 3..], [video, "--cookies-from-browser", "chrome"]);
    assert!(hidden_variables_for(post).is_empty());
    assert_eq!(hidden_variables_for(video), hidden_variables());
}

#[test]
fn a_course_of_lines_keeps_its_distance() {
    let second = 1_000_000_000;
    let mut progress = DownloadProgress::new(0);
    let mut updates = Vec::new();
    let mut notices = 0;
    for tick in 1..=40 {
        let now = tick * second;
        let line = match tick % 4 {
            0 => format!("[ExtractAudio] Destination {tick}"),
            1 => format!("[ffmpeg] Step {tick}"),
            _ => format!("[download]  {tick}.0% of 1MiB"),
        };
        if tick % 5 == 0 && progress.error_printed("[ExtractAudio] x").is_some() {
            notices += 1;
        }
        if let Some(text) = progress.line_printed(&line, now) {
            if text == "Extracting audio..." {
                notices += 1;
            } else {
                updates.push(now);
            }
            progress.updated(now);
        }
    }
    assert_eq!(notices, 1);
    assert!(updates.len() > 5);
    assert!(updates[0] >= UPDATE_INTERVAL);
    assert!(updates.windows(2).all(|pair| pair[1] - pair[0] >= UPDATE_INTERVAL));
}

#[test]
fn metadata_is_trimmed_and_may_be_missing() {
    assert_eq!(metadata_value(b"  My title \n"), Some("My title".to_string()));
    assert_eq!(metadata_value(b"a\xffb\n"), Some("a\u{fffd}b".to_string()));
    assert_eq!(metadata_value(b" \t\n"), None);
    assert_eq!(metadata_value(b""), None);
    for text in ["", " ", "\u{a0}x\u{3000}", "\u{200b}x", "x y", "\u{85}\u{2028}z\u{1680}"] {
        let core = text.trim();
        let expected = if core.is_empty() { None } else { Some(core.to_string()) };
        assert_eq!(filled_text(text), expected);
    }
}

#[test]
fn the_end_of_a_run_decides() {
    assert_eq!(download_result(RunOutcome::Exited(true)), Ok(()));
    assert_eq!(
        download_result(RunOutcome::Exited(false)),
        Err("yt-dlp exited with an error".to_string())
    );
    assert_eq!(
        download_result(RunOutcome::NotStarted("e".into())),
        Err("Failed to run yt-dlp: e".to_string())
    );
    assert_eq!(
        download_result(RunOutcome::Lost("e".into())),
        Err("yt-dlp error: e".to_string())
    );
}

// Progress

#[test]
fn progress_is_shown_when_it_is_due_and_new() {
    assert_eq!(UPDATE_INTERVAL, 3_000_000_000);
    let mut progress = DownloadProgress::new(10);
    let line = "[download]  12.5% of 10MiB";
    assert_eq!(progress.line_printed(line, 10 + UPDATE_INTERVAL - 1), None);
    assert_eq!(progress.line_printed(line, 9), None);
    let now = 10 + UPDATE_INTERVAL;
    assert_eq!(
        progress.line_printed(line, now),
        Some("Downloading...\n12.5% of 10MiB".to_string())
    );
    progress.updated(now);
    assert_eq!(progress.line_printed(line, now + UPDATE_INTERVAL), None);
    assert_eq!(
        progress.line_printed("[download] 100% of 10MiB", now + UPDATE_INTERVAL),
        Some("Downloading...\n100% of 10MiB".to_string())
    );
    assert_eq!(progress.line_printed("[download] Destination: f", u64::MAX), None);
}

#[test]
fn extraction_is_told_once() {
    let mut progress = DownloadProgress::new(0);
    let line = "[ExtractAudio] Destination: f.mp3";
    assert_eq!(progress.line_printed(line, 0), Some("Extracting audio...".to_string()));
    progress.updated(0);
    assert_eq!(progress.line_printed(line, UPDATE_INTERVAL), None);
    assert_eq!(
        progress.line_printed("[ExtractAudio] Other", UPDATE_INTERVAL),
        Some("Converting...\nOther".to_string())
    );
    assert_eq!(progress.error_printed(line), None);

    let mut progress = DownloadProgress::new(0);
    assert_eq!(progress.error_printed("WARNING: x"), None);
    assert_eq!(progress.error_printed(line), Some("Extracting audio..."));
    assert_eq!(progress.error_printed(line), None);
    assert_eq!(progress.line_printed(line, 0), None);
    assert_eq!(
        progress.line_printed(line, UPDATE_INTERVAL),
        Some("Converting...\nDestination: f.mp3".to_string())
    );
}

#[test]
fn conversion_is_shown_like_progress() {
    let mut progress = DownloadProgress::new(0);
    let line = "[ffmpeg] Merging formats";
    assert_eq!(progress.line_printed(line, 1), None);
    assert_eq!(
        progress.line_printed(line, UPDATE_INTERVAL),
        Some("Converting...\nMerging formats".to_string())
    );
    assert_eq!(progress.line_printed("[youtube] x", u64::MAX), None);
    assert_eq!(
        progress.report("any", Some("p"), Some("c"), u64::MAX),
        Some("Downloading...\np".to_string())
    );
    assert_eq!(progress.last_text, "p");
}

// Cookies

const FILE: &str = "# Netscape HTTP Cookie File\n\
    \n\
    #HttpOnly_.instagram.com\tTRUE\t/\tTRUE\t1790000000\tsessionid\tabc\n\
    .instagram.com\tTRUE\t/p\tfalse\t0\tlang\ten us\textra\r\n\
    .youtube.com\tTRUE\t/\tTRUE\t1\tother\tx\n\
    www.instagram.com\tTRUE\t/\ttrue\tnever\tmid\t\n\
    .instagram.com\tTRUE\t/\tTRUE\t1\tshort\n\
    #HttpOnly_# comment\n\
    #HttpOnly_";

#[test]
fn cookies_of_instagram_are_read_from_the_file() {
    let cookies = instagram_webdriver_cookies(FILE);
    assert_eq!(cookies.len(), 3);
    let first = &cookies[0];
    assert_eq!((first.name.as_str(), first.value.as_str()), ("sessionid", "abc"));
    assert_eq!((first.domain.as_str(), first.path.as_str()), (".instagram.com", "/"));
    assert!(first.secure);
    assert_eq!(first.expiry, Some(1_790_000_000));
    let second = &cookies[1];
    assert_eq!((second.name.as_str(), second.value.as_str()), ("lang", "en us"));
    assert_eq!(second.path, "/p");
    assert!(!second.secure);
    assert_eq!(second.expiry, None);
    let third = &cookies[2];
    assert_eq!((third.name.as_str(), third.value.as_str()), ("mid", ""));
    assert!(third.secure);
    assert_eq!(third.expiry, None);
    assert!(cookies.iter().all(|cookie| cookie.domain.ends_with("instagram.com")));
    assert!(instagram_webdriver_cookies("").is_empty());
}

#[test]
fn a_cookie_line_needs_all_its_fields() {
    assert!(parse_cookie_line("").is_none());
    assert!(parse_cookie_line("# .instagram.com\t\t\t\t\t\t").is_none());
    assert!(parse_cookie_line(".instagram.com\t\t\t\t\t").is_none());
    assert!(parse_cookie_line("instagram.com.org\t\t\t\t\t\t").is_none());
    let cookie = parse_cookie_line("instagram.com\t\t\t\t+5\t\t").unwrap();
    assert_eq!(cookie.expiry, Some(5));
    let cookie = parse_cookie_line("instagram.com\t\t\t\t18446744073709551616\t\t").unwrap();
    assert_eq!(cookie.expiry, None);
}

#[test]
fn the_cookie_file_comes_before_the_browser() {
    assert_eq!(COOKIE_FILE, "cookies.txt");
    assert_eq!(cookie_place(true, Some(true)), Some(CookiePlace::WorkingDirectory));
    assert_eq!(cookie_place(false, Some(true)), Some(CookiePlace::BesideProgram));
    assert_eq!(cookie_place(false, Some(false)), None);
    assert_eq!(cookie_place(false, None), None);
    assert_eq!(cookie_source_args(Some("/c.txt"), true), vec!["--cookies", "/c.txt"]);
    assert_eq!(cookie_source_args(None, true), vec!["--cookies-from-browser", "brave"]);
    assert_eq!(cookie_source_args(None, false), vec!["--cookies-from-browser", "chrome"]);
    assert_eq!(cookie_browser(true), "brave");
    assert_eq!(cookie_browser(false), "chrome");
    assert_eq!(
        hidden_variables(),
        vec!["NODE_APP_INSTANCE", "NODE_CHANNEL_FD", "NODE_CHANNEL_SERIALIZATION_MODE"]
    );
}

// The check

#[test]
fn the_check_asks_for_a_title() {
    assert_eq!(
        check_args(Some("/c.txt"), false),
        vec![
            "--print",
            "title",
            "--no-download",
            "--js-runtimes",
            "node",
            "--remote-components",
            "ejs:github",
            "--verbose",
            CHECK_URL,
            "--cookies",
            "/c.txt",
        ]
    );
    assert_eq!(CHECK_URL, "https://www.youtube.com/watch?v=Sv5ZZB-M59Q");
}

#[test]
fn a_check_reports_what_it_found() {
    let report = report_check(&CheckOutcome::Ran {
        success: true,
        printed: b" Title\n".to_vec(),
        errors: b"WARNING: w\n".to_vec(),
    });
    assert!(report.details.is_empty());
    assert_eq!(report.verdict, Ok("yt-dlp cookie check OK: Title".to_string()));

    let report = report_check(&CheckOutcome::Ran {
        success: false,
        printed: Vec::new(),
        errors: b"[debug] JS runtimes: none\nfine\nERROR: \xff\n[x] jsc: y\nlast".to_vec(),
    });
    assert_eq!(
        report.details,
        vec![
            "yt-dlp cookie check detail: [debug] JS runtimes: none",
            "yt-dlp cookie check detail: ERROR: \u{fffd}",
            "yt-dlp cookie check detail: [x] jsc: y",
        ]
    );
    assert_eq!(report.verdict, Err("yt-dlp cookie check failed: last".to_string()));

    let report = read_check(false, "", "");
    assert_eq!(
        report.verdict,
        Err("yt-dlp cookie check failed: yt-dlp exited with an error".to_string())
    );
    let report = read_check(false, "", "no cookies\nWARNING\n");
    assert_eq!(report.details.len(), 2);

    let report = report_check(&CheckOutcome::NotRun("e".into()));
    assert!(report.details.is_empty());
    assert_eq!(report.verdict, Err("yt-dlp cookie check failed to run: e".to_string()));
}
