use fetcher_bot::gather::{
    GatherReply, GatherStep, ReelGather, CHROMEDRIVER, READY_ATTEMPTS, READY_PAUSE_MS,
};
use fetcher_bot::reels::{
    read_page, reels_page_url, PageFindings, ReelScan, ReelScrape, ScrapeReply, ScrapeStep,
    HOME_PAGE, MAX_ROUNDS, ROUND_PAUSE_MS, SCROLL_SCRIPT,
};
use fetcher_bot::webdriver::{
    body_failure, chrome_args, chromedriver_args, driver_url, judge_response, pick_session,
    read_response, request_failure, session_id, session_url,
};

fn page(links: &[&str], height: u64) -> String {
    let list: Vec<String> = links.iter().map(|link| format!("\"{link}\"")).collect();
    format!(
        "{{\"value\":{{\"urls\":[{}],\"height\":{height},\"pageUrl\":\"https://www.instagram.com/u/reels/\"}}}}",
        list.join(",")
    )
}

fn opened() -> ReelScrape {
    let scrape = ReelScrape::new(0);
    let scrape = scrape.advance(ScrapeReply::Done);
    scrape.advance(ScrapeReply::Done)
}

fn error_of(scrape: &ReelScrape) -> &str {
    match &scrape.step {
        ScrapeStep::Finish(Err(error)) => error,
        other => panic!("not an error: {other:?}"),
    }
}

// Responses

#[test]
fn a_good_response_has_no_failure() {
    assert_eq!(read_response("opening", 200, "200 OK", "{\"value\":null}"), None);
    assert_eq!(read_response("opening", 299, "299", "[]"), None);
    assert_eq!(
        read_response("opening", 200, "200 OK", "{\"value\":{\"message\":\"m\"}}"),
        None
    );
    assert_eq!(
        read_response("opening", 200, "200 OK", "{\"value\":{\"error\":7}}"),
        None
    );
}

#[test]
fn a_bad_status_is_reported_with_its_body() {
    for status in [199, 300, 404] {
        assert_eq!(
            read_response("opening", status, "404 Not Found", "no"),
            Some("Browser opening returned HTTP 404 Not Found: no".to_string())
        );
    }
}

#[test]
fn bad_json_is_reported_as_the_parser_puts_it() {
    let body = "{\"value\":";
    let reason = serde_json::from_str::<serde_json::Value>(body).unwrap_err();
    assert_eq!(
        read_response("opening", 200, "200 OK", body),
        Some(format!("Browser opening returned invalid JSON: {reason}"))
    );
}

#[test]
fn an_error_in_a_response_is_reported() {
    assert_eq!(
        read_response("opening", 200, "200 OK", "{\"value\":{\"error\":\"e\",\"message\":\"m\"}}"),
        Some("Browser opening failed: m".to_string())
    );
    assert_eq!(
        read_response("opening", 200, "200 OK", "{\"value\":{\"error\":\"e\"}}"),
        Some("Browser opening failed: e".to_string())
    );
    assert_eq!(
        judge_response("op", 200, "", "", None, Some("e".into()), None),
        Some("Browser op failed: e".to_string())
    );
    assert_eq!(
        judge_response("op", 200, "", "", Some("s".into()), Some("e".into()), None),
        Some("Browser op returned invalid JSON: s".to_string())
    );
    assert_eq!(request_failure("op", "gone"), "Browser op failed: gone");
    assert_eq!(body_failure("op", "gone"), "Cannot read browser op response: gone");
}

#[test]
fn a_session_is_found_in_either_place() {
    assert_eq!(session_id("{\"value\":{\"sessionId\":\"s1\"}}"), Ok("s1".to_string()));
    assert_eq!(session_id("{\"sessionId\":\"s2\",\"value\":{}}"), Ok("s2".to_string()));
    let none = Err("ChromeDriver returned no session ID".to_string());
    assert_eq!(session_id("{\"value\":{\"sessionId\":5},\"sessionId\":\"s3\"}"), none);
    assert_eq!(session_id("{\"value\":{}}"), none);
    assert_eq!(session_id("no JSON"), none);
    assert_eq!(pick_session(true, None, Some("outer".into())), none);
    assert_eq!(pick_session(false, Some("inner".into()), Some("outer".into())), Ok("outer".into()));
}

#[test]
fn the_driver_is_addressed_by_its_port() {
    assert_eq!(chromedriver_args(4444), vec!["--port=4444", "--allowed-ips=127.0.0.1"]);
    assert_eq!(driver_url(65535), "http://127.0.0.1:65535");
    assert_eq!(session_url("http://127.0.0.1:1", "abc"), "http://127.0.0.1:1/session/abc");
}

#[test]
fn chrome_gets_the_extra_words_last() {
    let fixed = vec![
        "--headless=new",
        "--no-sandbox",
        "--disable-dev-shm-usage",
        "--disable-blink-features=AutomationControlled",
        "--window-size=1280,1000",
        "--lang=en-US",
    ];
    assert_eq!(chrome_args(None), fixed);
    assert_eq!(chrome_args(Some("  \t ")), fixed);
    let mut longer = fixed.clone();
    longer.push("--a=1");
    longer.push("--b");
    assert_eq!(chrome_args(Some(" --a=1\u{2003}\n--b ")), longer);
}

// Pages

#[test]
fn a_page_is_read_from_its_response() {
    let body = page(&["https://www.instagram.com/u/reel/AAA/", "https://example.com/"], 900);
    let findings = read_page(&body).unwrap();
    assert_eq!(findings.page_url, "https://www.instagram.com/u/reels/");
    assert_eq!(findings.shortcodes, vec![Some("AAA".to_string()), None]);
    assert_eq!(findings.height, 900);

    let findings = read_page("{\"value\":{\"urls\":[1,\"https://instagram.com/reel/B\"]}}").unwrap();
    assert_eq!(findings.page_url, "");
    assert_eq!(findings.shortcodes, vec![None, Some("B".to_string())]);
    assert_eq!(findings.height, 0);

    let findings = read_page("{\"value\":{\"urls\":\"x\",\"height\":-1,\"pageUrl\":3}}").unwrap();
    assert_eq!(findings.page_url, "");
    assert!(findings.shortcodes.is_empty());
    assert_eq!(findings.height, 0);

    assert!(read_page("{\"other\":1}").is_none());
    assert!(read_page("no JSON").is_none());
}

#[test]
fn a_scan_notes_each_reel_once_in_order() {
    let mut scan = ReelScan::new();
    let shown = vec![Some("b".to_string()), None, Some("a".to_string()), Some("b".to_string())];
    assert!(!scan.record(&shown, 10));
    assert_eq!(scan.shortcodes, vec!["b", "a"]);
    assert_eq!((scan.last_height, scan.unchanged_rounds, scan.rounds), (10, 0, 1));
    let shown = vec![Some("a".to_string()), Some("c".to_string())];
    assert!(!scan.record(&shown, 10));
    assert_eq!(scan.shortcodes, vec!["b", "a", "c"]);
    assert_eq!(scan.unchanged_rounds, 0);
    assert!(!scan.record(&shown, 10));
    assert_eq!(scan.shortcodes, vec!["b", "a", "c"]);
    assert_eq!(scan.unchanged_rounds, 1);
    assert!(!scan.record(&shown, 11));
    assert_eq!((scan.last_height, scan.unchanged_rounds, scan.rounds), (11, 0, 4));
}

#[test]
fn the_page_ends_after_quiet_rounds() {
    let mut scan = ReelScan::new();
    let nothing = Vec::new();
    for round in 1..6 {
        assert!(!scan.record(&nothing, 0));
        assert_eq!(scan.unchanged_rounds, round);
    }
    assert!(scan.record(&nothing, 0));
    assert_eq!(scan.rounds, 6);
}

// Collecting

#[test]
fn reels_are_collected_until_the_page_rests() {
    assert_eq!(HOME_PAGE, "https://www.instagram.com/");
    assert_eq!(reels_page_url("u"), "https://www.instagram.com/u/reels/");
    assert_eq!(ROUND_PAUSE_MS, 1_500);
    assert!(SCROLL_SCRIPT.contains("window.scrollTo(0, height);"));
    let mut scrape = opened();
    assert!(matches!(scrape.step, ScrapeStep::ReadPage));
    let links = ["https://www.instagram.com/u/reel/AAA/", "https://www.instagram.com/reels/BBB"];
    let mut rounds = 0;
    while matches!(scrape.step, ScrapeStep::ReadPage) {
        scrape = scrape.advance(ScrapeReply::Page(page(&links, 400)));
        rounds += 1;
        if matches!(scrape.step, ScrapeStep::Pause) {
            scrape = scrape.advance(ScrapeReply::Done);
        }
    }
    assert_eq!(rounds, 7);
    match scrape.step {
        ScrapeStep::Finish(Ok(urls)) => assert_eq!(
            urls,
            vec![
                "https://www.instagram.com/reel/AAA/",
                "https://www.instagram.com/reel/BBB/",
            ]
        ),
        other => panic!("not finished: {other:?}"),
    }
}

#[test]
fn reels_keep_the_order_of_first_sight() {
    let pages = [
        vec!["https://instagram.com/reel/C/", "https://instagram.com/reel/A/"],
        vec!["https://instagram.com/reel/A/", "https://instagram.com/reel/D/"],
        vec!["https://instagram.com/reel/B/", "https://instagram.com/reel/C/"],
    ];
    let mut scrape = opened();
    let mut round = 0;
    while matches!(scrape.step, ScrapeStep::ReadPage) {
        let links = pages[round.min(2)].as_slice();
        scrape = scrape.advance(ScrapeReply::Page(page(links, 5)));
        round += 1;
        if matches!(scrape.step, ScrapeStep::Pause) {
            scrape = scrape.advance(ScrapeReply::Done);
        }
    }
    assert_eq!(scrape.scan.shortcodes, vec!["C", "A", "D", "B"]);
}

#[test]
fn a_page_that_never_rests_is_refused() {
    let mut scrape = opened();
    let mut rounds = 0;
    while matches!(scrape.step, ScrapeStep::ReadPage) {
        let height = 1 + u64::from(rounds % 2);
        scrape = scrape.absorb(Some(PageFindings {
            page_url: String::new(),
            shortcodes: vec![Some("AAA".to_string())],
            height,
        }));
        rounds += 1;
        scrape = scrape.advance(ScrapeReply::Done);
    }
    assert_eq!(rounds, MAX_ROUNDS);
    assert_eq!(
        error_of(&scrape),
        "Instagram scrolling did not reach a stable bottom; refusing to return a possibly incomplete Reel list"
    );
}

#[test]
fn an_empty_profile_is_an_error() {
    let mut scrape = opened();
    while matches!(scrape.step, ScrapeStep::ReadPage) {
        scrape = scrape.advance(ScrapeReply::Page(page(&[], 0)));
        if matches!(scrape.step, ScrapeStep::Pause) {
            scrape = scrape.advance(ScrapeReply::Done);
        }
    }
    assert_eq!(scrape.scan.rounds, 6);
    assert_eq!(
        error_of(&scrape),
        "No Reel links were found while scrolling this Instagram profile; the profile may be private, unavailable, or require fresh cookies"
    );
}

#[test]
fn the_login_page_and_missing_data_are_errors() {
    let body = "{\"value\":{\"pageUrl\":\"https://www.instagram.com/accounts/login/?next=x\"}}";
    let scrape = opened().advance(ScrapeReply::Page(body.to_string()));
    assert_eq!(
        error_of(&scrape),
        "Instagram opened the login page; refresh the Instagram cookies.txt session"
    );
    let scrape = opened().advance(ScrapeReply::Page("{}".to_string()));
    assert_eq!(error_of(&scrape), "Browser returned no page data");
}

#[test]
fn cookies_that_fail_stop_nothing() {
    let scrape = ReelScrape::new(2);
    assert_eq!(scrape.path(), Some("/url"));
    assert_eq!(scrape.operation(), Some("opening Instagram"));
    let scrape = scrape.advance(ScrapeReply::Done);
    assert!(matches!(scrape.step, ScrapeStep::LoadCookie { index: 0 }));
    assert_eq!(scrape.path(), Some("/cookie"));
    assert_eq!(scrape.operation(), Some("loading an Instagram cookie"));
    let scrape = scrape.advance(ScrapeReply::Failed("no".into()));
    assert!(matches!(scrape.step, ScrapeStep::LoadCookie { index: 1 }));
    let scrape = scrape.advance(ScrapeReply::Done);
    assert!(matches!(scrape.step, ScrapeStep::OpenReels));
    assert_eq!(scrape.path(), Some("/url"));
    assert_eq!(scrape.operation(), Some("opening the Instagram Reels page"));
    let scrape = scrape.advance(ScrapeReply::Done);
    assert_eq!(scrape.path(), Some("/execute/sync"));
    assert_eq!(
        scrape.operation(),
        Some("reading and scrolling the Instagram Reels page")
    );
    let scrape = scrape.advance(ScrapeReply::Failed("lost".into()));
    assert_eq!(error_of(&scrape), "lost");
    assert_eq!(scrape.path(), None);
    assert_eq!(scrape.operation(), None);
}

#[test]
fn a_page_that_cannot_be_opened_is_an_error() {
    let scrape = ReelScrape::new(3).advance(ScrapeReply::Failed("first".into()));
    assert_eq!(error_of(&scrape), "first");
    let scrape = ReelScrape::new(0)
        .advance(ScrapeReply::Done)
        .advance(ScrapeReply::Failed("second".into()));
    assert_eq!(error_of(&scrape), "second");
}

// The run

fn gathered(step: &GatherStep) -> &Result<Vec<String>, String> {
    match step {
        GatherStep::Finish(result) => result,
        other => panic!("not finished: {other:?}"),
    }
}

fn ready() -> ReelGather {
    let mut gather = ReelGather::new();
    for _ in 0..4 {
        gather = gather.advance(GatherReply::Done);
    }
    assert!(matches!(gather.step, GatherStep::CheckReady));
    gather
}

#[test]
fn a_run_ends_by_closing_what_it_opened() {
    assert_eq!(CHROMEDRIVER, "chromedriver");
    assert_eq!(READY_PAUSE_MS, 100);
    let gather = ReelGather::new();
    assert_eq!((gather.path(), gather.operation()), (None, None));
    let gather = ready();
    assert_eq!((gather.path().as_deref(), gather.operation()), (Some("/status"), None));
    let gather = gather.advance(GatherReply::Done);
    assert!(matches!(gather.step, GatherStep::CreateSession));
    assert_eq!(gather.path().as_deref(), Some("/session"));
    assert_eq!(gather.operation(), Some("session creation"));
    let gather =
        gather.advance(GatherReply::Opened("{\"value\":{\"sessionId\":\"s\"}}".to_string()));
    assert!(matches!(&gather.step, GatherStep::Scrape { session } if session == "s"));
    let gather = gather.advance(GatherReply::Collected(vec!["u".to_string()]));
    assert!(matches!(&gather.step, GatherStep::CloseSession { session } if session == "s"));
    assert_eq!(gather.path().as_deref(), Some("/session/s"));
    assert_eq!(gather.operation(), Some("session cleanup"));
    let gather = gather.advance(GatherReply::Failed("ignored".into()));
    assert!(matches!(gather.step, GatherStep::KillDriver));
    let gather = gather.advance(GatherReply::Failed("ignored".into()));
    assert_eq!(gathered(&gather.step), &Ok(vec!["u".to_string()]));
}

#[test]
fn a_failed_collection_still_closes_the_session() {
    let gather = ready()
        .advance(GatherReply::Done)
        .advance(GatherReply::Opened("{\"sessionId\":\"s\"}".to_string()))
        .advance(GatherReply::Failed("broken".into()));
    assert!(matches!(gather.step, GatherStep::CloseSession { .. }));
    let gather = gather.advance(GatherReply::Done).advance(GatherReply::Done);
    assert_eq!(gathered(&gather.step), &Err("broken".to_string()));
}

#[test]
fn a_driver_that_is_never_ready_is_stopped() {
    let mut gather = ready();
    let mut questions = 0;
    while !matches!(gather.step, GatherStep::KillDriver) {
        assert!(matches!(gather.step, GatherStep::CheckReady));
        gather = gather.advance(GatherReply::Failed("not yet".into()));
        questions += 1;
        assert!(matches!(gather.step, GatherStep::Pause));
        gather = gather.advance(GatherReply::Done);
    }
    assert_eq!(questions, READY_ATTEMPTS);
    assert_eq!(READY_ATTEMPTS, 50);
    let gather = gather.advance(GatherReply::Done);
    assert_eq!(gathered(&gather.step), &Err("ChromeDriver did not become ready".to_string()));
}

#[test]
fn a_session_that_is_not_opened_stops_the_driver() {
    let gather = ready().advance(GatherReply::Done).advance(GatherReply::Opened("{}".into()));
    assert!(matches!(gather.step, GatherStep::KillDriver));
    let gather = gather.advance(GatherReply::Done);
    assert_eq!(gathered(&gather.step), &Err("ChromeDriver returned no session ID".to_string()));

    let gather = ready().advance(GatherReply::Done).advance(GatherReply::Failed("refused".into()));
    assert!(matches!(gather.step, GatherStep::KillDriver));
    let gather = gather.advance(GatherReply::Done);
    assert_eq!(gathered(&gather.step), &Err("refused".to_string()));
}

#[test]
fn each_step_before_the_driver_fails_in_its_own_words() {
    let words = [
        "Cannot reserve a ChromeDriver port: e",
        "Cannot read the ChromeDriver port: e",
        "Cannot start ChromeDriver: e",
        "Cannot create browser-control client: e",
    ];
    for (done, text) in words.iter().enumerate() {
        let mut gather = ReelGather::new();
        for _ in 0..done {
            gather = gather.advance(GatherReply::Done);
        }
        let gather = gather.advance(GatherReply::Failed("e".into()));
        assert_eq!(gathered(&gather.step), &Err(text.to_string()));
    }
}
