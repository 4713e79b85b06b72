//! Collecting the Reels of an Instagram profile from its scrolling page.
use vstd::prelude::*;

use crate::link::{instagram_reel_shortcode, reel_shortcode, IG_RE};
use crate::outside::{
    json_has, json_present, json_string, json_string_at, json_strings, json_strings_at, json_u64,
    json_u64_at, regex_captures,
};
use crate::text::{concat3, contains, has_part, same_text};

verus! {

/// After so many rounds in a row with nothing new, the page has come to its end.
pub const QUIET_ROUNDS: u8 = 6;

/// How many times the page is read at most.
pub const MAX_ROUNDS: u32 = 600;

// What a page shows

/// What is read from a page: its address, the shortcode of each link that leads to a Reel, and
/// its height.
#[derive(Debug)]
pub struct PageFindings {
    pub page_url: String,
    pub shortcodes: Vec<Option<String>>,
    pub height: u64,
}

impl DeepView for PageFindings {
    type V = (Seq<char>, Seq<Option<Seq<char>>>, u64);

    open spec fn deep_view(&self) -> (Seq<char>, Seq<Option<Seq<char>>>, u64) {
        (self.page_url@, self.shortcodes.deep_view(), self.height)
    }
}

/// The shortcode of a link, where it is text and leads to a Reel.
pub open spec fn shortcode_of(link: Option<Seq<char>>) -> Option<Seq<char>> {
    match link {
        Some(url) => reel_shortcode(url),
        None => None,
    }
}

/// What a page shows, from what stands in its data. A page without data shows nothing; an
/// address that is no text is empty, links that are no list are none, and a height that is no
/// number is zero.
pub open spec fn findings(
    data: bool,
    page_url: Option<Seq<char>>,
    links: Option<Seq<Option<Seq<char>>>>,
    height: Option<u64>,
) -> Option<(Seq<char>, Seq<Option<Seq<char>>>, u64)> {
    if data {
        Some(
            (
                match page_url {
                    Some(url) => url,
                    None => Seq::empty(),
                },
                match links {
                    Some(list) => list.map_values(|link: Option<Seq<char>>| shortcode_of(link)),
                    None => Seq::empty(),
                },
                match height {
                    Some(h) => h,
                    None => 0,
                },
            ),
        )
    } else {
        None
    }
}

/// What the response `body` shows of a page.
pub open spec fn findings_in(body: Seq<char>) -> Option<
    (Seq<char>, Seq<Option<Seq<char>>>, u64),
> {
    findings(
        json_present(body, "/value"@),
        json_string(body, "/value/pageUrl"@),
        json_strings(body, "/value/urls"@),
        json_u64(body, "/value/height"@),
    )
}

/// The shortcodes of the links, in order.
pub fn shortcodes_of(links: &Vec<Option<String>>) -> (r: Vec<Option<String>>)
    ensures
        r.deep_view() == links.deep_view().map_values(
            |link: Option<Seq<char>>| shortcode_of(link),
        ),
{
    let mut out: Vec<Option<String>> = Vec::new();
    let mut i: usize = 0;
    while i < links.len()
        invariant
            i <= links@.len(),
            out@.len() == i,
            forall|j: int|
                0 <= j < i ==> (#[trigger] out@[j]).deep_view() == shortcode_of(
                    links@[j].deep_view(),
                ),
        decreases links@.len() - i,
    {
        let code = match &links[i] {
            Some(url) => match instagram_reel_shortcode(url.as_str()) {
                Some(code) => Some(code.to_owned()),
                None => None,
            },
            None => None,
        };
        out.push(code);
        i = i + 1;
    }
    assert(out.deep_view() =~= links.deep_view().map_values(
        |link: Option<Seq<char>>| shortcode_of(link),
    ));
    out
}

/// Puts together what a page shows, from what stands in its data.
pub fn gather_findings(
    data: bool,
    page_url: Option<String>,
    links: Option<Vec<Option<String>>>,
    height: Option<u64>,
) -> (r: Option<PageFindings>)
    ensures
        r.deep_view() == findings(data, page_url.deep_view(), links.deep_view(), height),
{
    if !data {
        return None;
    }
    let page_url = match page_url {
        Some(url) => url,
        None => String::new(),
    };
    let ghost list = links.deep_view();
    let shortcodes = match links {
        Some(list) => shortcodes_of(&list),
        None => Vec::new(),
    };
    assert(list is None ==> shortcodes.deep_view() =~= Seq::<Option<Seq<char>>>::empty());
    let height: u64 = match height {
        Some(h) => h,
        None => 0,
    };
    Some(PageFindings { page_url, shortcodes, height })
}

/// Reads what the response `body` shows of a page.
pub fn read_page(body: &str) -> (r: Option<PageFindings>)
    ensures
        r.deep_view() == findings_in(body@),
{
    gather_findings(
        json_has(body, "/value"),
        json_string_at(body, "/value/pageUrl"),
        json_strings_at(body, "/value/urls"),
        json_u64_at(body, "/value/height"),
    )
}

// What was seen so far

/// The shortcodes known after those of a page: each that is new comes behind the others.
pub open spec fn noted(known: Seq<Seq<char>>, found: Seq<Option<Seq<char>>>) -> Seq<Seq<char>>
    decreases found.len(),
{
    if found.len() == 0 {
        known
    } else {
        let before = noted(known, found.drop_last());
        match found.last() {
            Some(code) => if before.contains(code) {
                before
            } else {
                before.push(code)
            },
            None => before,
        }
    }
}

/// What was seen of a page so far.
#[derive(Debug)]
pub struct ReelScan {
    /// The Reels, each once, in the order in which they were seen first.
    pub shortcodes: Vec<String>,
    /// The height of the page when it was read last.
    pub last_height: u64,
    /// How many times in a row the page showed nothing new.
    pub unchanged_rounds: u8,
    /// How many times the page was read.
    pub rounds: u32,
}

/// Whether `after` is what was seen once a page of height `height` showed `found`, and `end`
/// says whether the page has come to its end.
pub open spec fn scans(
    before: ReelScan,
    found: Seq<Option<Seq<char>>>,
    height: u64,
    after: ReelScan,
    end: bool,
) -> bool {
    let codes = noted(before.shortcodes.deep_view(), found);
    let unchanged = codes.len() == before.shortcodes@.len() && height == before.last_height;
    &&& after.shortcodes.deep_view() == codes
    &&& after.unchanged_rounds == if unchanged {
        before.unchanged_rounds + 1
    } else {
        0
    }
    &&& end == (after.unchanged_rounds >= QUIET_ROUNDS)
    &&& after.last_height == if end {
        before.last_height
    } else {
        height
    }
    &&& after.rounds == before.rounds + 1
}

impl ReelScan {
    /// Nothing seen yet.
    pub fn new() -> (r: ReelScan)
        ensures
            r.shortcodes.deep_view() == Seq::<Seq<char>>::empty(),
            r.last_height == 0,
            r.unchanged_rounds == 0,
            r.rounds == 0,
    {
        let r = ReelScan {
            shortcodes: Vec::new(),
            last_height: 0,
            unchanged_rounds: 0,
            rounds: 0,
        };
        assert(r.shortcodes.deep_view() =~= Seq::<Seq<char>>::empty());
        r
    }

    fn knows(&self, code: &str) -> (r: bool)
        ensures
            r == self.shortcodes.deep_view().contains(code@),
    {
        let mut i: usize = 0;
        while i < self.shortcodes.len()
            invariant
                i <= self.shortcodes@.len(),
                forall|j: int| 0 <= j < i ==> self.shortcodes@[j]@ != code@,
            decreases self.shortcodes@.len() - i,
        {
            if same_text(self.shortcodes[i].as_str(), code) {
                assert(self.shortcodes.deep_view()[i as int] == code@);
                return true;
            }
            i = i + 1;
        }
        assert forall|j: int| 0 <= j < self.shortcodes.deep_view().len() implies
            self.shortcodes.deep_view()[j] != code@ by {
            assert(self.shortcodes@[j]@ != code@);
        }
        false
    }

    /// Notes what a page of height `height` showed; says whether the page has come to its end.
    pub fn record(&mut self, found: &Vec<Option<String>>, height: u64) -> (r: bool)
        requires
            old(self).unchanged_rounds < QUIET_ROUNDS,
            old(self).rounds < MAX_ROUNDS,
        ensures
            scans(*old(self), found.deep_view(), height, *final(self), r),
    {
        let before: usize = self.shortcodes.len();
        let mut i: usize = 0;
        let ghost known = self.shortcodes.deep_view();
        let ghost list = found.deep_view();
        assert(list.take(0) =~= Seq::<Option<Seq<char>>>::empty());
        while i < found.len()
            invariant
                list == found.deep_view(),
                i <= found@.len(),
                self.shortcodes.deep_view() == noted(known, list.take(i as int)),
                self.last_height == old(self).last_height,
                self.unchanged_rounds == old(self).unchanged_rounds,
                self.rounds == old(self).rounds,
            decreases found@.len() - i,
        {
            assert(list.take(i + 1).drop_last() =~= list.take(i as int));
            assert(list.take(i + 1).last() == found@[i as int].deep_view());
            match &found[i] {
                Some(code) => {
                    if !self.knows(code.as_str()) {
                        let ghost codes = self.shortcodes.deep_view();
                        self.shortcodes.push(code.clone());
                        assert(self.shortcodes.deep_view() =~= codes.push(code@));
                    }
                },
                None => {},
            }
            i = i + 1;
        }
        assert(list.take(list.len() as int) =~= list);
        self.rounds = self.rounds + 1;
        if self.shortcodes.len() == before && height == self.last_height {
            self.unchanged_rounds = self.unchanged_rounds + 1;
        } else {
            self.unchanged_rounds = 0;
        }
        if self.unchanged_rounds >= QUIET_ROUNDS {
            return true;
        }
        self.last_height = height;
        false
    }
}

/// No Reel is noted twice.
pub proof fn law_reels_are_distinct(known: Seq<Seq<char>>, found: Seq<Option<Seq<char>>>)
    requires
        known.no_duplicates(),
    ensures
        noted(known, found).no_duplicates(),
    decreases found.len(),
{
    if found.len() > 0 {
        law_reels_are_distinct(known, found.drop_last());
    }
}

/// What was known stays, in its order, before what is new.
pub proof fn law_known_reels_stay(known: Seq<Seq<char>>, found: Seq<Option<Seq<char>>>)
    ensures
        known.len() <= noted(known, found).len(),
        noted(known, found).take(known.len() as int) == known,
    decreases found.len(),
{
    if found.len() > 0 {
        law_known_reels_stay(known, found.drop_last());
        let before = noted(known, found.drop_last());
        assert(noted(known, found).take(known.len() as int) =~= before.take(known.len() as int));
    } else {
        assert(known.take(known.len() as int) =~= known);
    }
}

/// A Reel is known after a page just when it was known before or the page showed it.
pub proof fn law_reels_are_complete(
    known: Seq<Seq<char>>,
    found: Seq<Option<Seq<char>>>,
    code: Seq<char>,
)
    ensures
        noted(known, found).contains(code) <==> known.contains(code) || found.contains(Some(code)),
    decreases found.len(),
{
    if found.len() > 0 {
        let rest = found.drop_last();
        law_reels_are_complete(known, rest, code);
        let before = noted(known, rest);
        assert(found =~= rest.push(found.last()));
        if found.last() == Some(code) {
            assert(found[found.len() - 1] == Some(code));
            if !before.contains(code) {
                assert(before.push(code)[before.len() as int] == code);
            }
        }
        if before.contains(code) {
            let i = choose|i: int| 0 <= i < before.len() && before[i] == code;
            assert(noted(known, found)[i] == code);
        }
        if rest.contains(Some(code)) {
            let i = choose|i: int| 0 <= i < rest.len() && rest[i] == Some(code);
            assert(found[i] == Some(code));
        }
        if noted(known, found).contains(code) && !before.contains(code) {
            let all = noted(known, found);
            let i = choose|i: int| 0 <= i < all.len() && all[i] == code;
            if i < before.len() {
                assert(before[i] == code);
            }
        }
        if found.contains(Some(code)) && found.last() != Some(code) {
            let i = choose|i: int| 0 <= i < found.len() && found[i] == Some(code);
            assert(rest[i] == Some(code));
        }
    }
}

/// A page that shows only what is known adds nothing.
pub proof fn law_known_page_adds_nothing(known: Seq<Seq<char>>, found: Seq<Option<Seq<char>>>)
    requires
        forall|i: int|
            0 <= i < found.len() && (#[trigger] found[i]) is Some ==> known.contains(found[i]->0),
    ensures
        noted(known, found) == known,
    decreases found.len(),
{
    if found.len() > 0 {
        let rest = found.drop_last();
        assert forall|i: int| 0 <= i < rest.len() && (#[trigger] rest[i]) is Some implies
            known.contains(rest[i]->0) by {
            assert(rest[i] == found[i]);
        }
        law_known_page_adds_nothing(known, rest);
        assert(found[found.len() - 1] == found.last());
    }
}

// The steps

/// The start page of Instagram.
pub const HOME_PAGE: &'static str = "https://www.instagram.com/";

/// Reads the links, the height, the text and the address of the page, and scrolls to its end.
pub const SCROLL_SCRIPT: &'static str =
    r#"
                    const urls = Array.from(document.querySelectorAll('a[href]'))
                        .map(anchor => anchor.href)
                        .filter(url => /\/(?:[A-Za-z0-9._]+\/)?reels?\/[A-Za-z0-9_-]+\/?/.test(url));
                    const height = Math.max(
                        document.body?.scrollHeight || 0,
                        document.documentElement?.scrollHeight || 0
                    );
                    const text = document.body?.innerText || '';
                    const pageUrl = location.href;
                    window.scrollTo(0, height);
                    return {urls, height, text: text.slice(0, 4000), pageUrl};
                "#;

/// How long the page is left alone between two rounds, in milliseconds.
pub const ROUND_PAUSE_MS: u64 = 1_500;

/// The page with the Reels of `username`.
pub fn reels_page_url(username: &str) -> (r: String)
    ensures
        r@ == "https://www.instagram.com/"@ + username@ + "/reels/"@,
{
    concat3("https://www.instagram.com/", username, "/reels/")
}

/// The address of the Reel `code`.
pub open spec fn reel_address(code: Seq<char>) -> Seq<char> {
    "https://www.instagram.com/reel/"@ + code + "/"@
}

/// The addresses of the Reels, in order.
pub open spec fn reel_addresses(codes: Seq<Seq<char>>) -> Seq<Seq<char>> {
    codes.map_values(|code: Seq<char>| reel_address(code))
}

proof fn lemma_address_names_reel(a: Seq<char>, b: Seq<char>)
    requires
        reel_address(a) == reel_address(b),
    ensures
        a == b,
{
    let start = "https://www.instagram.com/reel/"@;
    let whole = reel_address(a);
    let to = whole.len() - "/"@.len();
    assert(reel_address(a).len() == start.len() + a.len() + "/"@.len());
    assert(reel_address(b).len() == start.len() + b.len() + "/"@.len());
    assert(a =~= whole.subrange(start.len() as int, to));
    assert(b =~= whole.subrange(start.len() as int, to));
}

/// Different Reels have different addresses.
pub proof fn law_reel_addresses_are_distinct(codes: Seq<Seq<char>>)
    requires
        codes.no_duplicates(),
    ensures
        reel_addresses(codes).no_duplicates(),
{
    let urls = reel_addresses(codes);
    assert forall|i: int, j: int|
        0 <= i < urls.len() && 0 <= j < urls.len() && i != j implies urls[i] != urls[j] by {
        if urls[i] == urls[j] {
            lemma_address_names_reel(codes[i], codes[j]);
        }
    }
}

fn addresses_of(codes: &Vec<String>) -> (r: Vec<String>)
    ensures
        r.deep_view() == reel_addresses(codes.deep_view()),
{
    let mut out: Vec<String> = Vec::new();
    let mut i: usize = 0;
    while i < codes.len()
        invariant
            i <= codes@.len(),
            out@.len() == i,
            forall|j: int| 0 <= j < i ==> (#[trigger] out@[j])@ == reel_address(codes@[j]@),
        decreases codes@.len() - i,
    {
        out.push(concat3("https://www.instagram.com/reel/", codes[i].as_str(), "/"));
        i = i + 1;
    }
    assert(out.deep_view() =~= reel_addresses(codes.deep_view()));
    out
}

/// What is to be done next.
#[derive(Debug)]
pub enum ScrapeStep {
    /// Open the start page of Instagram.
    OpenHome,
    /// Load one of the cookies.
    LoadCookie { index: usize },
    /// Open the page with the Reels.
    OpenReels,
    /// Read the page and scroll to its end.
    ReadPage,
    /// Leave the page alone for a while.
    Pause,
    /// Nothing: this is what came of it.
    Finish(Result<Vec<String>, String>),
}

/// What came of a step.
#[derive(Debug)]
pub enum ScrapeReply {
    /// It was done.
    Done,
    /// It failed.
    Failed(String),
    /// The page was read, with this response.
    Page(String),
}

/// The collection of the Reels of a profile.
#[derive(Debug)]
pub struct ReelScrape {
    /// How many cookies there are to load.
    pub cookies: usize,
    pub scan: ReelScan,
    pub step: ScrapeStep,
}

/// The step after `loaded` of `cookies` cookies.
pub open spec fn cookie_step(loaded: nat, cookies: usize) -> ScrapeStep {
    if loaded < cookies {
        ScrapeStep::LoadCookie { index: loaded as usize }
    } else {
        ScrapeStep::OpenReels
    }
}

/// Whether `step` ends the collection with the error `text`.
pub open spec fn fails_with(step: ScrapeStep, text: Seq<char>) -> bool {
    step matches ScrapeStep::Finish(Err(error)) && error@ == text
}

/// Whether `step` is what follows once the page has come to its end.
pub open spec fn concludes(scan: ReelScan, step: ScrapeStep) -> bool {
    if scan.shortcodes@.len() == 0 {
        fails_with(
            step,
            "No Reel links were found while scrolling this Instagram profile; the profile may be private, unavailable, or require fresh cookies"@,
        )
    } else {
        step matches ScrapeStep::Finish(Ok(urls)) && urls.deep_view() == reel_addresses(
            scan.shortcodes.deep_view(),
        )
    }
}

/// Whether `after` follows `before` when the page showed `page`.
pub open spec fn absorbs(
    before: ReelScrape,
    page: Option<(Seq<char>, Seq<Option<Seq<char>>>, u64)>,
    after: ReelScrape,
) -> bool {
    &&& after.cookies == before.cookies
    &&& match page {
        None => after.scan == before.scan && fails_with(
            after.step,
            "Browser returned no page data"@,
        ),
        Some((page_url, found, height)) => if has_part(page_url, "/accounts/login"@) {
            after.scan == before.scan && fails_with(
                after.step,
                "Instagram opened the login page; refresh the Instagram cookies.txt session"@,
            )
        } else if after.scan.unchanged_rounds >= QUIET_ROUNDS {
            scans(before.scan, found, height, after.scan, true) && concludes(after.scan, after.step)
        } else {
            scans(before.scan, found, height, after.scan, false) && after.step is Pause
        },
    }
}

/// Whether `after` follows `before` when `reply` came of its step.
pub open spec fn scrape_advances(
    before: ReelScrape,
    reply: ScrapeReply,
    after: ReelScrape,
) -> bool {
    match (before.step, reply) {
        (ScrapeStep::ReadPage, ScrapeReply::Page(body)) => absorbs(
            before,
            findings_in(body@),
            after,
        ),
        (ScrapeStep::LoadCookie { index }, _) => after == (ReelScrape {
            step: cookie_step((index + 1) as nat, before.cookies),
            ..before
        }),
        (ScrapeStep::Pause, _) => after.cookies == before.cookies && after.scan == before.scan && (
        if before.scan.rounds < MAX_ROUNDS {
            after.step is ReadPage
        } else {
            fails_with(
                after.step,
                "Instagram scrolling did not reach a stable bottom; refusing to return a possibly incomplete Reel list"@,
            )
        }),
        (_, ScrapeReply::Failed(error)) => after == (ReelScrape {
            step: ScrapeStep::Finish(Err(error)),
            ..before
        }),
        (ScrapeStep::OpenHome, _) => after == (ReelScrape {
            step: cookie_step(0, before.cookies),
            ..before
        }),
        (_, _) => after == (ReelScrape { step: ScrapeStep::ReadPage, ..before }),
    }
}

fn after_cookies(loaded: usize, cookies: usize) -> (r: ScrapeStep)
    ensures
        r == cookie_step(loaded as nat, cookies),
{
    if loaded < cookies {
        ScrapeStep::LoadCookie { index: loaded }
    } else {
        ScrapeStep::OpenReels
    }
}

impl ReelScrape {
    /// No Reel is known twice, the page is read no more often than it may be, and Reels are
    /// given back only when the page has come to its end.
    pub open spec fn wf(self) -> bool {
        &&& self.scan.shortcodes.deep_view().no_duplicates()
        &&& self.scan.rounds <= MAX_ROUNDS
        &&& match self.step {
            ScrapeStep::LoadCookie { index } => index < self.cookies && self.scan.rounds == 0
                && self.scan.unchanged_rounds == 0,
            ScrapeStep::OpenHome | ScrapeStep::OpenReels => self.scan.rounds == 0
                && self.scan.unchanged_rounds == 0,
            ScrapeStep::ReadPage => self.scan.rounds < MAX_ROUNDS && self.scan.unchanged_rounds
                < QUIET_ROUNDS,
            ScrapeStep::Pause => self.scan.unchanged_rounds < QUIET_ROUNDS,
            ScrapeStep::Finish(Ok(urls)) => self.scan.unchanged_rounds >= QUIET_ROUNDS
                && urls@.len() > 0 && urls.deep_view() == reel_addresses(
                self.scan.shortcodes.deep_view(),
            ),
            ScrapeStep::Finish(Err(_)) => true,
        }
    }

    /// Whether `reply` can come of the next step.
    pub open spec fn accepts(self, reply: ScrapeReply) -> bool {
        match self.step {
            ScrapeStep::Finish(_) => false,
            ScrapeStep::ReadPage => !(reply is Done),
            _ => !(reply is Page),
        }
    }

    /// A collection that loads `cookies` cookies.
    pub fn new(cookies: usize) -> (r: ReelScrape)
        ensures
            r.wf(),
            r.cookies == cookies,
            r.step is OpenHome,
            r.scan.shortcodes.deep_view() == Seq::<Seq<char>>::empty(),
            r.scan.last_height == 0,
    {
        ReelScrape { cookies, scan: ReelScan::new(), step: ScrapeStep::OpenHome }
    }

    /// Goes on from what the page showed.
    pub fn absorb(self, page: Option<PageFindings>) -> (r: ReelScrape)
        requires
            self.wf(),
            self.step is ReadPage,
        ensures
            r.wf(),
            absorbs(self, page.deep_view(), r),
    {
        let ReelScrape { cookies, mut scan, step } = self;
        let page = match page {
            Some(page) => page,
            None => {
                let step = ScrapeStep::Finish(Err("Browser returned no page data".to_owned()));
                return ReelScrape { cookies, scan, step };
            },
        };
        if contains(page.page_url.as_str(), "/accounts/login") {
            let step = ScrapeStep::Finish(
                Err(
                    "Instagram opened the login page; refresh the Instagram cookies.txt session".to_owned(),
                ),
            );
            return ReelScrape { cookies, scan, step };
        }
        let end = scan.record(&page.shortcodes, page.height);
        proof {
            law_reels_are_distinct(
                self.scan.shortcodes.deep_view(),
                page.shortcodes.deep_view(),
            );
        }
        if !end {
            return ReelScrape { cookies, scan, step: ScrapeStep::Pause };
        }
        let step = if scan.shortcodes.len() == 0 {
            ScrapeStep::Finish(
                Err(
                    "No Reel links were found while scrolling this Instagram profile; the profile may be private, unavailable, or require fresh cookies".to_owned(),
                ),
            )
        } else {
            let urls = addresses_of(&scan.shortcodes);
            assert(urls.deep_view().len() == urls@.len());
            ScrapeStep::Finish(Ok(urls))
        };
        ReelScrape { cookies, scan, step }
    }

    /// Goes on from what came of the step.
    pub fn advance(self, reply: ScrapeReply) -> (r: ReelScrape)
        requires
            self.wf(),
            self.accepts(reply),
        ensures
            r.wf(),
            scrape_advances(self, reply, r),
    {
        if let ScrapeStep::ReadPage = self.step {
            return match reply {
                ScrapeReply::Page(body) => {
                    let page = read_page(body.as_str());
                    self.absorb(page)
                },
                ScrapeReply::Failed(error) => {
                    let ReelScrape { cookies, scan, step } = self;
                    ReelScrape { cookies, scan, step: ScrapeStep::Finish(Err(error)) }
                },
                ScrapeReply::Done => self,
            };
        }
        let ReelScrape { cookies, scan, step } = self;
        let next = match step {
            ScrapeStep::LoadCookie { index } => after_cookies(index + 1, cookies),
            ScrapeStep::Pause => {
                if scan.rounds < MAX_ROUNDS {
                    ScrapeStep::ReadPage
                } else {
                    ScrapeStep::Finish(
                        Err(
                            "Instagram scrolling did not reach a stable bottom; refusing to return a possibly incomplete Reel list".to_owned(),
                        ),
                    )
                }
            },
            ScrapeStep::OpenHome => match reply {
                ScrapeReply::Failed(error) => ScrapeStep::Finish(Err(error)),
                _ => after_cookies(0, cookies),
            },
            _ => match reply {
                ScrapeReply::Failed(error) => ScrapeStep::Finish(Err(error)),
                _ => ScrapeStep::ReadPage,
            },
        };
        ReelScrape { cookies, scan, step: next }
    }

    /// Where below the session the request of the step goes; none for a step without one.
    pub fn path(&self) -> (r: Option<&'static str>)
        ensures
            r.deep_view() == match self.step {
                ScrapeStep::OpenHome | ScrapeStep::OpenReels => Some("/url"@),
                ScrapeStep::LoadCookie { .. } => Some("/cookie"@),
                ScrapeStep::ReadPage => Some("/execute/sync"@),
                _ => None,
            },
    {
        match self.step {
            ScrapeStep::OpenHome | ScrapeStep::OpenReels => Some("/url"),
            ScrapeStep::LoadCookie { .. } => Some("/cookie"),
            ScrapeStep::ReadPage => Some("/execute/sync"),
            _ => None,
        }
    }

    /// What the step is called in errors; none for a step without a request.
    pub fn operation(&self) -> (r: Option<&'static str>)
        ensures
            r.deep_view() == match self.step {
                ScrapeStep::OpenHome => Some("opening Instagram"@),
                ScrapeStep::LoadCookie { .. } => Some("loading an Instagram cookie"@),
                ScrapeStep::OpenReels => Some("opening the Instagram Reels page"@),
                ScrapeStep::ReadPage => Some("reading and scrolling the Instagram Reels page"@),
                _ => None,
            },
    {
        match self.step {
            ScrapeStep::OpenHome => Some("opening Instagram"),
            ScrapeStep::LoadCookie { .. } => Some("loading an Instagram cookie"),
            ScrapeStep::OpenReels => Some("opening the Instagram Reels page"),
            ScrapeStep::ReadPage => Some("reading and scrolling the Instagram Reels page"),
            _ => None,
        }
    }
}

/// Only a page that showed nothing new for the last rounds gives Reels back; one that never
/// comes to rest is refused.
pub proof fn law_reels_only_from_a_page_at_rest(
    before: ReelScrape,
    reply: ScrapeReply,
    after: ReelScrape,
)
    requires
        before.wf(),
        before.accepts(reply),
        scrape_advances(before, reply, after),
        after.step is Finish,
        after.step->Finish_0 is Ok,
    ensures
        before.step is ReadPage,
        after.scan.unchanged_rounds == before.scan.unchanged_rounds + 1 == QUIET_ROUNDS,
        after.scan.shortcodes.deep_view() == before.scan.shortcodes.deep_view(),
{
    if before.step is ReadPage && reply is Page {
        let page = findings_in(reply->Page_0@);
        if let Some((page_url, found, height)) = page {
            law_known_reels_stay(before.scan.shortcodes.deep_view(), found);
            let codes = noted(before.scan.shortcodes.deep_view(), found);
            assert(codes.take(codes.len() as int) =~= codes);
        }
    }
}

/// A cookie that cannot be loaded stops nothing.
pub proof fn law_cookies_are_optional(before: ReelScrape, reply: ScrapeReply, after: ReelScrape)
    requires
        before.wf(),
        before.accepts(reply),
        scrape_advances(before, reply, after),
        before.step is LoadCookie,
    ensures
        after.step is LoadCookie || after.step is OpenReels,
{
}

// Whole runs

/// Whether `jobs` is the run of a collection with these replies.
pub open spec fn is_scrape_run(jobs: Seq<ReelScrape>, replies: Seq<ScrapeReply>) -> bool {
    &&& jobs.len() == replies.len() + 1
    &&& jobs[0].step is OpenHome
    &&& jobs[0].scan.shortcodes.deep_view() == Seq::<Seq<char>>::empty()
    &&& forall|i: int|
        #![trigger replies[i]]
        0 <= i < replies.len() ==> jobs[i].wf() && jobs[i].accepts(replies[i]) && scrape_advances(
            jobs[i],
            replies[i],
            jobs[i + 1],
        )
}

/// Whether `reply` is a page that shows the Reel `code`.
pub open spec fn shows_reel_code(reply: ScrapeReply, code: Seq<char>) -> bool {
    reply matches ScrapeReply::Page(body) && findings_in(body@) matches Some(page) && !has_part(
        page.0,
        "/accounts/login"@,
    ) && page.1.contains(Some(code))
}

proof fn lemma_known_reels_were_shown(
    jobs: Seq<ReelScrape>,
    replies: Seq<ScrapeReply>,
    at: int,
    code: Seq<char>,
)
    requires
        is_scrape_run(jobs, replies),
        0 <= at < jobs.len(),
    ensures
        jobs[at].scan.shortcodes.deep_view().contains(code) <==> exists|k: int|
            0 <= k < at && shows_reel_code(#[trigger] replies[k], code),
    decreases at,
{
    if at > 0 {
        let last = at - 1;
        lemma_known_reels_were_shown(jobs, replies, last, code);
        let before = jobs[last];
        let reply = replies[last];
        assert(scrape_advances(before, reply, jobs[at]));
        if before.step is ReadPage && reply is Page {
            if let Some(page) = findings_in(reply->Page_0@) {
                law_reels_are_complete(before.scan.shortcodes.deep_view(), page.1, code);
            }
        }
        let known = jobs[at].scan.shortcodes.deep_view().contains(code);
        assert(known <==> before.scan.shortcodes.deep_view().contains(code) || shows_reel_code(
            reply,
            code,
        ));
        if known && !shows_reel_code(reply, code) {
            let k = choose|k: int| 0 <= k < last && shows_reel_code(#[trigger] replies[k], code);
            assert(0 <= k < at && shows_reel_code(replies[k], code));
        }
    }
}

/// A collection that succeeds gives back the Reels that its pages showed, all of them and no
/// others, each once.
pub proof fn law_collection_is_what_was_shown(
    jobs: Seq<ReelScrape>,
    replies: Seq<ScrapeReply>,
    urls: Vec<String>,
    code: Seq<char>,
)
    requires
        is_scrape_run(jobs, replies),
        jobs.last().wf(),
        jobs.last().step == ScrapeStep::Finish(Ok(urls)),
    ensures
        urls.deep_view().no_duplicates(),
        urls.deep_view().contains(reel_address(code)) <==> exists|k: int|
            0 <= k < replies.len() && shows_reel_code(#[trigger] replies[k], code),
{
    let at = jobs.len() - 1;
    let codes = jobs[at].scan.shortcodes.deep_view();
    lemma_known_reels_were_shown(jobs, replies, at, code);
    law_reel_addresses_are_distinct(codes);
    let list = reel_addresses(codes);
    if codes.contains(code) {
        let i = choose|i: int| 0 <= i < codes.len() && codes[i] == code;
        assert(list[i] == reel_address(code));
    }
    if list.contains(reel_address(code)) {
        let i = choose|i: int| 0 <= i < list.len() && list[i] == reel_address(code);
        lemma_address_names_reel(codes[i], code);
        assert(codes[i] == code);
    }
}

/// The Reels that a reply shows, in the order of its page.
pub open spec fn sightings_in(reply: ScrapeReply) -> Seq<Option<Seq<char>>> {
    match reply {
        ScrapeReply::Page(body) => match findings_in(body@) {
            Some((page_url, found, _)) => if has_part(page_url, "/accounts/login"@) {
                Seq::empty()
            } else {
                found
            },
            None => Seq::empty(),
        },
        _ => Seq::empty(),
    }
}

/// All that the replies show, page after page.
pub open spec fn sightings(replies: Seq<ScrapeReply>) -> Seq<Option<Seq<char>>>
    decreases replies.len(),
{
    if replies.len() == 0 {
        Seq::empty()
    } else {
        sightings(replies.drop_last()) + sightings_in(replies.last())
    }
}

proof fn lemma_noted_in_turn(
    known: Seq<Seq<char>>,
    first: Seq<Option<Seq<char>>>,
    second: Seq<Option<Seq<char>>>,
)
    ensures
        noted(known, first + second) == noted(noted(known, first), second),
    decreases second.len(),
{
    if second.len() == 0 {
        assert(first + second =~= first);
    } else {
        assert((first + second).drop_last() =~= first + second.drop_last());
        lemma_noted_in_turn(known, first, second.drop_last());
    }
}

proof fn lemma_scan_is_sightings(jobs: Seq<ReelScrape>, replies: Seq<ScrapeReply>, at: int)
    requires
        is_scrape_run(jobs, replies),
        0 <= at < jobs.len(),
    ensures
        jobs[at].scan.shortcodes.deep_view() == noted(Seq::empty(), sightings(replies.take(at))),
    decreases at,
{
    if at > 0 {
        let last = at - 1;
        lemma_scan_is_sightings(jobs, replies, last);
        let before = jobs[last];
        let reply = replies[last];
        assert(scrape_advances(before, reply, jobs[at]));
        assert(before.accepts(reply));
        assert(replies.take(at).drop_last() =~= replies.take(last));
        lemma_noted_in_turn(Seq::empty(), sightings(replies.take(last)), sightings_in(reply));
    }
}

/// Whether `code` was seen before position `p`.
pub open spec fn seen_before(seen: Seq<Option<Seq<char>>>, code: Seq<char>, p: int) -> bool {
    exists|q: int| 0 <= q < p && #[trigger] seen[q] == Some(code)
}

/// Reels are noted in the order of first sight: whenever one is seen, those noted before it were
/// seen already.
pub proof fn law_reels_are_noted_in_order(
    found: Seq<Option<Seq<char>>>,
    i: int,
    j: int,
    p: int,
)
    requires
        0 <= i < j < noted(Seq::empty(), found).len(),
        0 <= p < found.len(),
        found[p] == Some(noted(Seq::empty(), found)[j]),
    ensures
        seen_before(found, noted(Seq::empty(), found)[i], p),
    decreases found.len(),
{
    let none = Seq::<Seq<char>>::empty();
    let rest = found.drop_last();
    let before = noted(none, rest);
    let codes = noted(none, found);
    if j < before.len() && p < rest.len() {
        law_reels_are_noted_in_order(rest, i, j, p);
        let q = choose|q: int| 0 <= q < p && #[trigger] rest[q] == Some(before[i]);
        assert(0 <= q < p && found[q] == Some(codes[i]));
    } else {
        if p < rest.len() {
            assert(rest[p] == Some(codes[j]));
            law_reels_are_complete(none, rest, codes[j]);
            assert(before.contains(codes[j]));
        }
        assert(codes[i] == before[i]);
        law_reels_are_complete(none, rest, codes[i]);
        let q = choose|q: int| 0 <= q < rest.len() && rest[q] == Some(codes[i]);
        assert(found[q] == Some(codes[i]));
    }
}

/// Whether `codes` are in the order of first sight: wherever one of them is seen, those before it
/// were seen already.
pub open spec fn follows_sight(codes: Seq<Seq<char>>, seen: Seq<Option<Seq<char>>>) -> bool {
    forall|i: int, j: int, p: int|
        #![trigger codes[i], codes[j], seen[p]]
        0 <= i < j < codes.len() && 0 <= p < seen.len() && seen[p] == Some(codes[j])
            ==> seen_before(seen, codes[i], p)
}

/// A collection that succeeds gives back the Reels in the order in which its pages first showed
/// them: whenever one of them was shown, those before it in the list had been shown already.
pub proof fn law_collection_is_in_order_of_sight(
    jobs: Seq<ReelScrape>,
    replies: Seq<ScrapeReply>,
    urls: Vec<String>,
)
    requires
        is_scrape_run(jobs, replies),
        jobs.last().wf(),
        jobs.last().step == ScrapeStep::Finish(Ok(urls)),
    ensures
        urls.deep_view() == reel_addresses(noted(Seq::empty(), sightings(replies))),
        follows_sight(noted(Seq::empty(), sightings(replies)), sightings(replies)),
{
    let at = jobs.len() - 1;
    lemma_scan_is_sightings(jobs, replies, at);
    assert(replies.take(at) =~= replies);
    let seen = sightings(replies);
    let codes = noted(Seq::empty(), seen);
    assert forall|i: int, j: int, p: int|
        #![trigger codes[i], codes[j], seen[p]]
        0 <= i < j < codes.len() && 0 <= p < seen.len() && seen[p] == Some(
            codes[j],
        ) implies seen_before(seen, codes[i], p) by {
        law_reels_are_noted_in_order(seen, i, j, p);
    }
}

/// Whether the page is read between `before` and `after` and shows nothing new: no Reel that was
/// not known, at the height of the read before.
pub open spec fn is_quiet_read(before: ReelScrape, reply: ScrapeReply, after: ReelScrape) -> bool {
    &&& before.step is ReadPage
    &&& reply matches ScrapeReply::Page(body) && findings_in(body@) matches Some(page) && page.2
        == before.scan.last_height
    &&& after.scan.shortcodes.deep_view() == before.scan.shortcodes.deep_view()
}

proof fn lemma_reads_were_quiet(
    jobs: Seq<ReelScrape>,
    replies: Seq<ScrapeReply>,
    at: int,
    back: int,
)
    requires
        is_scrape_run(jobs, replies),
        0 < at < jobs.len(),
        jobs[at].step is Pause || jobs[at].step is Finish && jobs[at].step->Finish_0 is Ok,
        0 <= back < jobs[at].scan.unchanged_rounds,
    ensures
        at - 1 - 2 * back >= 0,
        is_quiet_read(
            jobs[at - 1 - 2 * back],
            replies[at - 1 - 2 * back],
            jobs[at - 2 * back],
        ),
    decreases back,
{
    let before = jobs[at - 1];
    let reply = replies[at - 1];
    assert(scrape_advances(before, reply, jobs[at]));
    assert(before.wf() && before.accepts(reply));
    let page = findings_in(reply->Page_0@)->0;
    let known = before.scan.shortcodes.deep_view();
    law_known_reels_stay(known, page.1);
    assert(noted(known, page.1).take(known.len() as int) =~= noted(known, page.1));
    if back > 0 {
        assert(at - 1 > 0);
        let earlier = jobs[at - 2];
        assert(scrape_advances(earlier, replies[at - 2], before));
        assert(earlier.wf() && earlier.accepts(replies[at - 2]));
        assert(earlier.step is Pause);
        assert(at - 2 > 0);
        lemma_reads_were_quiet(jobs, replies, at - 2, back - 1);
    }
}

/// A collection that succeeds has read its page quietly to the end: the last reads, as many as it
/// takes, each showed nothing new, with only a pause between them.
pub proof fn law_collection_ends_quietly(
    jobs: Seq<ReelScrape>,
    replies: Seq<ScrapeReply>,
    back: int,
)
    requires
        is_scrape_run(jobs, replies),
        jobs.last().step is Finish,
        jobs.last().step->Finish_0 is Ok,
        0 <= back < QUIET_ROUNDS,
    ensures
        ({
            let at = replies.len() - 1 - 2 * back;
            &&& at >= 0
            &&& is_quiet_read(jobs[at], replies[at], jobs[at + 1])
            &&& back > 0 ==> jobs[at + 1].step is Pause
        }),
{
    let last = replies.len() - 1;
    law_reels_only_from_a_page_at_rest(jobs[last], replies[last], jobs[last + 1]);
    lemma_reads_were_quiet(jobs, replies, last + 1, back);
    if back > 0 {
        let at = last - 2 * back;
        assert(scrape_advances(jobs[at], replies[at], jobs[at + 1]));
        assert(jobs[at + 1].accepts(replies[at + 1]));
    }
}

// Laws over the responses themselves

/// The Reel that a link leads to: the first group of the expression for Reels, where the link is
/// text and the expression is found in it.
pub open spec fn code_of_link(link: Option<Seq<char>>) -> Option<Seq<char>> {
    match link {
        Some(url) => match regex_captures(IG_RE@, url) {
            Some(groups) => if groups.len() >= 2 {
                groups[1]
            } else {
                None
            },
            None => None,
        },
        None => None,
    }
}

/// The links of a response: the elements of its array of addresses, or none where it has no such
/// array.
pub open spec fn links_of(body: Seq<char>) -> Seq<Option<Seq<char>>> {
    match json_strings(body, "/value/urls"@) {
        Some(list) => list,
        None => Seq::empty(),
    }
}

/// The height that a response gives, or zero where it gives none.
pub open spec fn height_of(body: Seq<char>) -> u64 {
    match json_u64(body, "/value/height"@) {
        Some(height) => height,
        None => 0,
    }
}

/// What is read from a page has one entry for each link of the response, in order, which is the
/// Reel that the link leads to; the height is the one of the response. A response without a value
/// shows no page, and every other one does.
pub proof fn law_page_has_an_entry_for_each_link(body: Seq<char>)
    ensures
        findings_in(body) is Some <==> json_present(body, "/value"@),
        findings_in(body) matches Some(page) ==> {
            &&& page.1.len() == links_of(body).len()
            &&& forall|i: int|
                0 <= i < links_of(body).len() ==> #[trigger] page.1[i] == code_of_link(
                    links_of(body)[i],
                )
            &&& page.2 == height_of(body)
            &&& json_string(body, "/value/pageUrl"@) matches Some(url) ==> page.0 == url
            &&& json_string(body, "/value/pageUrl"@) is None ==> page.0.len() == 0
        },
{
    if let Some(page) = findings_in(body) {
        assert forall|i: int| 0 <= i < links_of(body).len() implies #[trigger] page.1[i]
            == code_of_link(links_of(body)[i]) by {
            lemma_links_lead_to_their_codes(links_of(body)[i]);
        }
    }
}

proof fn lemma_links_lead_to_their_codes(link: Option<Seq<char>>)
    ensures
        shortcode_of(link) == code_of_link(link),
{
}

/// Whether `reply` is a response with a link to the Reel `code`.
pub open spec fn links_to(reply: ScrapeReply, code: Seq<char>) -> bool {
    reply matches ScrapeReply::Page(body) && exists|i: int|
        0 <= i < links_of(body@).len() && code_of_link(#[trigger] links_of(body@)[i]) == Some(code)
}

proof fn lemma_reads_go_on(jobs: Seq<ReelScrape>, replies: Seq<ScrapeReply>, at: int, k: int)
    requires
        is_scrape_run(jobs, replies),
        0 <= k < at < jobs.len(),
        !(jobs[at].step is Finish && jobs[at].step->Finish_0 is Err),
        replies[k] is Page,
    ensures
        jobs[k].step is ReadPage,
        findings_in(replies[k]->Page_0@) is Some,
        !has_part((findings_in(replies[k]->Page_0@)->0).0, "/accounts/login"@),
{
    assert(scrape_advances(jobs[k], replies[k], jobs[k + 1]));
    assert(jobs[k].accepts(replies[k]));
    if k + 1 < at {
        assert(jobs[k + 1].accepts(replies[k + 1]));
    }
}

proof fn lemma_links_are_sightings(reply: ScrapeReply, code: Seq<char>)
    requires
        reply is Page,
        findings_in(reply->Page_0@) is Some,
    ensures
        (findings_in(reply->Page_0@)->0).1.contains(Some(code)) <==> links_to(reply, code),
{
    let body = reply->Page_0@;
    law_page_has_an_entry_for_each_link(body);
    let found = (findings_in(body)->0).1;
    if found.contains(Some(code)) {
        let i = choose|i: int| 0 <= i < found.len() && found[i] == Some(code);
        assert(found[i] == code_of_link(links_of(body)[i]));
        assert(0 <= i < links_of(body).len() && code_of_link(links_of(body)[i]) == Some(code));
    }
    if links_to(reply, code) {
        let i = choose|i: int|
            0 <= i < links_of(body).len() && code_of_link(#[trigger] links_of(body)[i]) == Some(
                code,
            );
        assert(found[i] == Some(code));
    }
}

/// A collection that succeeds holds every Reel that any response linked to, and no other, each
/// once, by its address.
pub proof fn law_collection_holds_every_link(
    jobs: Seq<ReelScrape>,
    replies: Seq<ScrapeReply>,
    urls: Vec<String>,
    code: Seq<char>,
)
    requires
        is_scrape_run(jobs, replies),
        jobs.last().wf(),
        jobs.last().step == ScrapeStep::Finish(Ok(urls)),
    ensures
        urls.deep_view().no_duplicates(),
        urls.deep_view().contains("https://www.instagram.com/reel/"@ + code + "/"@) <==> exists|
            k: int,
        |
            0 <= k < replies.len() && links_to(#[trigger] replies[k], code),
        forall|i: int|
            #![trigger urls@[i]]
            0 <= i < urls@.len() ==> is_linked_reel(urls@[i]@, replies),
{
    let last = jobs.len() - 1;
    law_collection_is_what_was_shown(jobs, replies, urls, code);
    assert forall|c: Seq<char>, k: int| 0 <= k < replies.len() implies (#[trigger] shows_reel_code(
        replies[k],
        c,
    ) <==> links_to(replies[k], c)) by {
        if replies[k] is Page {
            lemma_reads_go_on(jobs, replies, last, k);
            lemma_links_are_sightings(replies[k], c);
        }
    }
    if exists|k: int| 0 <= k < replies.len() && links_to(#[trigger] replies[k], code) {
        let k = choose|k: int| 0 <= k < replies.len() && links_to(#[trigger] replies[k], code);
        assert(shows_reel_code(replies[k], code));
    }
    if exists|k: int| 0 <= k < replies.len() && shows_reel_code(#[trigger] replies[k], code) {
        let k = choose|k: int|
            0 <= k < replies.len() && shows_reel_code(#[trigger] replies[k], code);
        assert(links_to(replies[k], code));
    }
    let codes = jobs[last].scan.shortcodes.deep_view();
    assert forall|i: int|
        #![trigger urls@[i]]
        0 <= i < urls@.len() implies is_linked_reel(urls@[i]@, replies) by {
        assert(urls.deep_view()[i] == urls@[i]@);
        let known = codes[i];
        assert(urls@[i]@ == reel_address(known));
        assert(is_address_of(urls@[i]@, known));
        assert(codes.contains(known));
        lemma_known_reels_were_shown(jobs, replies, last, known);
        let k = choose|k: int|
            0 <= k < last && shows_reel_code(#[trigger] replies[k], known);
        assert(shows_reel_code(replies[k], known));
        assert(links_to(replies[k], known));
        assert(is_linked(known, replies));
    }
}

/// Whether any of the replies links to the Reel `code`.
pub open spec fn is_linked(code: Seq<char>, replies: Seq<ScrapeReply>) -> bool {
    exists|k: int| 0 <= k < replies.len() && links_to(#[trigger] replies[k], code)
}

/// Whether `url` is the address of a Reel that any of the replies links to.
pub open spec fn is_linked_reel(url: Seq<char>, replies: Seq<ScrapeReply>) -> bool {
    exists|code: Seq<char>| #[trigger] is_address_of(url, code) && is_linked(code, replies)
}

/// Whether `url` is the address of the Reel `code`.
pub open spec fn is_address_of(url: Seq<char>, code: Seq<char>) -> bool {
    url == "https://www.instagram.com/reel/"@ + code + "/"@
}

/// The Reels that the responses link to, link after link and response after response.
pub open spec fn linked_codes(replies: Seq<ScrapeReply>) -> Seq<Option<Seq<char>>>
    decreases replies.len(),
{
    if replies.len() == 0 {
        Seq::empty()
    } else {
        linked_codes(replies.drop_last()) + match replies.last() {
            ScrapeReply::Page(body) => links_of(body@).map_values(
                |link: Option<Seq<char>>| code_of_link(link),
            ),
            _ => Seq::empty(),
        }
    }
}

proof fn lemma_sightings_are_links(
    jobs: Seq<ReelScrape>,
    replies: Seq<ScrapeReply>,
    at: int,
)
    requires
        is_scrape_run(jobs, replies),
        0 <= at < jobs.len(),
        !(jobs[at].step is Finish && jobs[at].step->Finish_0 is Err),
    ensures
        sightings(replies.take(at)) == linked_codes(replies.take(at)),
    decreases at,
{
    if at > 0 {
        let last = at - 1;
        if last > 0 {
            assert(jobs[last].accepts(replies[last]));
        }
        assert(jobs[last].accepts(replies[last]));
        lemma_sightings_are_links(jobs, replies, last);
        assert(replies.take(at).drop_last() =~= replies.take(last));
        if let ScrapeReply::Page(body) = replies[last] {
            lemma_reads_go_on(jobs, replies, at, last);
            law_page_has_an_entry_for_each_link(body@);
            assert(sightings_in(replies[last]) =~= links_of(body@).map_values(
                |link: Option<Seq<char>>| code_of_link(link),
            ));
        }
    }
}

/// A collection that succeeds gives the Reels in the order in which the responses first linked to
/// them: wherever one of them is linked to, those before it were linked to already.
pub proof fn law_collection_is_in_order_of_links(
    jobs: Seq<ReelScrape>,
    replies: Seq<ScrapeReply>,
    urls: Vec<String>,
    i: int,
    j: int,
    earlier: Seq<char>,
    later: Seq<char>,
    p: int,
)
    requires
        is_scrape_run(jobs, replies),
        jobs.last().wf(),
        jobs.last().step == ScrapeStep::Finish(Ok(urls)),
        0 <= i < j < urls@.len(),
        is_address_of(urls@[i]@, earlier),
        is_address_of(urls@[j]@, later),
        0 <= p < linked_codes(replies).len(),
        linked_codes(replies)[p] == Some(later),
    ensures
        exists|q: int| 0 <= q < p && #[trigger] linked_codes(replies)[q] == Some(earlier),
{
    let last = jobs.len() - 1;
    law_collection_is_in_order_of_sight(jobs, replies, urls);
    lemma_sightings_are_links(jobs, replies, last);
    assert(replies.take(last) =~= replies);
    let seen = sightings(replies);
    let codes = noted(Seq::empty(), seen);
    assert(urls.deep_view()[i] == urls@[i]@ && urls.deep_view()[j] == urls@[j]@);
    let list = reel_addresses(codes);
    assert(urls.deep_view() == list && list.len() == codes.len() && list.len() == urls@.len());
    assert(list[i] == reel_address(codes[i]) && list[j] == reel_address(codes[j]));
    lemma_address_names_reel(codes[i], earlier);
    lemma_address_names_reel(codes[j], later);
    law_reels_are_noted_in_order(seen, i, j, p);
}

/// A collection that succeeds ends with six reads that bring nothing new: each links only to
/// Reels that responses before it linked to, and gives the height that the read before it gave.
pub proof fn law_collection_ends_when_nothing_is_new(
    jobs: Seq<ReelScrape>,
    replies: Seq<ScrapeReply>,
    back: int,
    code: Seq<char>,
)
    requires
        is_scrape_run(jobs, replies),
        jobs.last().step is Finish,
        jobs.last().step->Finish_0 is Ok,
        0 <= back < 6,
    ensures
        ({
            let at = replies.len() - 1 - 2 * back;
            &&& at >= 0
            &&& jobs[at].step is ReadPage
            &&& replies[at] is Page
            &&& links_to(replies[at], code) ==> exists|k: int|
                0 <= k < at && links_to(#[trigger] replies[k], code)
            &&& at >= 2 && replies[at - 2] is Page ==> height_of(replies[at]->Page_0@) == height_of(
                replies[at - 2]->Page_0@,
            )
        }),
{
    let n = replies.len() as int;
    law_collection_ends_quietly(jobs, replies, back);
    let at = n - 1 - 2 * back;
    lemma_reads_go_on(jobs, replies, n, at);
    law_page_has_an_entry_for_each_link(replies[at]->Page_0@);
    if links_to(replies[at], code) {
        lemma_links_are_sightings(replies[at], code);
        lemma_known_reels_were_shown(jobs, replies, at, code);
        lemma_known_reels_were_shown(jobs, replies, at + 1, code);
        assert(shows_reel_code(replies[at], code));
        assert(jobs[at + 1].scan.shortcodes.deep_view().contains(code));
        let k = choose|k: int| 0 <= k < at && shows_reel_code(#[trigger] replies[k], code);
        lemma_links_are_sightings(replies[k], code);
        assert(links_to(replies[k], code));
    }
    if at >= 2 && replies[at - 2] is Page {
        lemma_reads_go_on(jobs, replies, n, at - 2);
        law_page_has_an_entry_for_each_link(replies[at - 2]->Page_0@);
        assert(scrape_advances(jobs[at - 2], replies[at - 2], jobs[at - 1]));
        assert(scrape_advances(jobs[at - 1], replies[at - 1], jobs[at]));
        assert(jobs[at - 1].accepts(replies[at - 1]));
        assert(jobs[at - 1].wf());
    }
}

/// How many pages were read before `at`.
pub open spec fn pages_read(replies: Seq<ScrapeReply>, at: int) -> int
    decreases at,
{
    if at <= 0 {
        0
    } else {
        pages_read(replies, at - 1) + if replies[at - 1] is Page {
            1int
        } else {
            0
        }
    }
}

proof fn lemma_rounds_are_pages(jobs: Seq<ReelScrape>, replies: Seq<ScrapeReply>, at: int)
    requires
        is_scrape_run(jobs, replies),
        0 <= at < replies.len(),
    ensures
        jobs[at].scan.rounds == pages_read(replies, at),
    decreases at,
{
    if at > 0 {
        assert(jobs[at - 1].accepts(replies[at - 1]));
        assert(jobs[at].accepts(replies[at]));
        lemma_rounds_are_pages(jobs, replies, at - 1);
        assert(scrape_advances(jobs[at - 1], replies[at - 1], jobs[at]));
        if replies[at - 1] is Page {
            lemma_reads_go_on(jobs, replies, at, at - 1);
        }
    } else {
        assert(jobs[0].accepts(replies[0]));
    }
}

/// The page is read again and again until it brings nothing new: after a read that does not end
/// the collection comes a pause, and after the pause the next read, up to six hundred reads. A
/// page that never comes to rest is refused only then.
pub proof fn law_page_is_read_up_to_its_limit(
    jobs: Seq<ReelScrape>,
    replies: Seq<ScrapeReply>,
    at: int,
)
    requires
        is_scrape_run(jobs, replies),
        0 <= at < replies.len(),
        jobs[at].step is Pause,
    ensures
        pages_read(replies, at) < 600 ==> jobs[at + 1].step is ReadPage,
        pages_read(replies, at) >= 600 ==> jobs[at + 1].step is Finish && jobs[at + 1].step->Finish_0
            is Err,
{
    lemma_rounds_are_pages(jobs, replies, at);
    assert(scrape_advances(jobs[at], replies[at], jobs[at + 1]));
}

/// Before a page is read, Instagram was opened, every cookie was loaded, in order, and the page
/// with the Reels was opened.
pub proof fn law_every_cookie_is_loaded(
    jobs: Seq<ReelScrape>,
    replies: Seq<ScrapeReply>,
    at: int,
)
    requires
        is_scrape_run(jobs, replies),
        0 <= at < jobs.len(),
        jobs[at].step is ReadPage || jobs[at].step is Pause,
    ensures
        at >= jobs[0].cookies + 2,
        replies[0] is Done,
        forall|i: int|
            0 <= i < jobs[0].cookies ==> (#[trigger] jobs[1 + i]).step == (ScrapeStep::LoadCookie {
                index: i as usize,
            }),
        jobs[jobs[0].cookies + 1].step is OpenReels,
        replies[jobs[0].cookies + 1] is Done,
{
    lemma_opening_course(jobs, replies, at);
}

proof fn lemma_opening_course(jobs: Seq<ReelScrape>, replies: Seq<ScrapeReply>, at: int)
    requires
        is_scrape_run(jobs, replies),
        0 <= at < jobs.len(),
    ensures
        jobs[at].cookies == jobs[0].cookies || jobs[at].step is Finish,
        jobs[at].step is OpenHome ==> at == 0,
        jobs[at].step matches ScrapeStep::LoadCookie { index } ==> at == index + 1 && replies[0]
            is Done && forall|i: int|
            0 <= i < index ==> (#[trigger] jobs[1 + i]).step == (ScrapeStep::LoadCookie {
                index: i as usize,
            }),
        jobs[at].step is OpenReels || jobs[at].step is ReadPage || jobs[at].step is Pause ==> {
            &&& at >= jobs[0].cookies + 1
            &&& replies[0] is Done
            &&& forall|i: int|
                0 <= i < jobs[0].cookies ==> (#[trigger] jobs[1 + i]).step == (
                ScrapeStep::LoadCookie { index: i as usize })
        },
        jobs[at].step is OpenReels ==> at == jobs[0].cookies + 1,
        jobs[at].step is ReadPage || jobs[at].step is Pause ==> at >= jobs[0].cookies + 2 && jobs[
        jobs[0].cookies + 1].step is OpenReels && replies[jobs[0].cookies + 1] is Done,
    decreases at,
{
    if at > 0 {
        lemma_opening_course(jobs, replies, at - 1);
        assert(scrape_advances(jobs[at - 1], replies[at - 1], jobs[at]));
        assert(jobs[at - 1].wf() && jobs[at - 1].accepts(replies[at - 1]));
        if let ScrapeStep::LoadCookie { index } = jobs[at - 1].step {
            assert(jobs[1 + index as int].step == (ScrapeStep::LoadCookie { index }));
        }
    }
}

/// A page that asks to log in, or a response without a page, ends the collection with an error, and
/// so does a request that fails, but for one that loads a cookie.
pub proof fn law_bad_pages_end_the_collection(
    before: ReelScrape,
    reply: ScrapeReply,
    after: ReelScrape,
)
    requires
        before.wf(),
        before.accepts(reply),
        scrape_advances(before, reply, after),
    ensures
        (reply matches ScrapeReply::Page(body) && (!json_present(body@, "/value"@) || (json_string(
            body@,
            "/value/pageUrl"@,
        ) matches Some(url) && has_part(url, "/accounts/login"@)))) ==> after.step is Finish
            && after.step->Finish_0 is Err,
        reply is Failed && (before.step is OpenHome || before.step is OpenReels || before.step
            is ReadPage) ==> after.step == ScrapeStep::Finish(Err(reply->Failed_0)),
{
    if let ScrapeReply::Page(body) = reply {
        law_page_has_an_entry_for_each_link(body@);
    }
}

proof fn lemma_nothing_new(before: Seq<Seq<char>>, body: Seq<char>)
    requires
        findings_in(body) is Some,
    ensures
        noted(before, (findings_in(body)->0).1).len() == before.len() <==> links_lead_back(
            body,
            before,
        ),
{
    let found = (findings_in(body)->0).1;
    law_page_has_an_entry_for_each_link(body);
    law_known_reels_stay(before, found);
    let after = noted(before, found);
    if links_lead_back(body, before) {
        assert forall|i: int| 0 <= i < found.len() && (#[trigger] found[i]) is Some implies
            before.contains(found[i]->0) by {
            assert(found[i] == code_of_link(links_of(body)[i]));
        }
        law_known_page_adds_nothing(before, found);
    }
    if after.len() == before.len() {
        assert(after.take(before.len() as int) =~= after);
        assert forall|i: int|
            0 <= i < links_of(body).len() && code_of_link(#[trigger] links_of(body)[i]) is Some implies
            before.contains(code_of_link(links_of(body)[i])->0) by {
            let code = code_of_link(links_of(body)[i])->0;
            assert(found[i] == Some(code));
            law_reels_are_complete(before, found, code);
        }
    }
}

/// Whether every Reel that a response links to is among `known`.
pub open spec fn links_lead_back(body: Seq<char>, known: Seq<Seq<char>>) -> bool {
    forall|i: int|
        0 <= i < links_of(body).len() && code_of_link(#[trigger] links_of(body)[i]) is Some
            ==> known.contains(code_of_link(links_of(body)[i])->0)
}

/// What a read of a good page does. It adds the Reels that the response links to, and no others.
/// It is quiet when all of them were known and the height is the one of the read before; quiet
/// reads are counted, and any other read starts the count again. The sixth quiet read in a row ends
/// the collection, with success just when any Reel is known; every other read is followed by a
/// pause.
pub proof fn law_each_read_counts(
    before: ReelScrape,
    body: String,
    after: ReelScrape,
    code: Seq<char>,
)
    requires
        before.wf(),
        before.step is ReadPage,
        scrape_advances(before, ScrapeReply::Page(body), after),
        json_present(body@, "/value"@),
        json_string(body@, "/value/pageUrl"@) matches Some(url) ==> !has_part(
            url,
            "/accounts/login"@,
        ),
    ensures
        ({
            let known = before.scan.shortcodes.deep_view();
            let quiet = links_lead_back(body@, known) && height_of(body@) == before.scan.last_height;
            &&& after.scan.shortcodes.deep_view().contains(code) <==> known.contains(code)
                || links_to(ScrapeReply::Page(body), code)
            &&& after.scan.rounds == before.scan.rounds + 1
            &&& after.scan.unchanged_rounds == if quiet {
                before.scan.unchanged_rounds + 1
            } else {
                0
            }
            &&& after.step is Finish <==> quiet && before.scan.unchanged_rounds >= 5
            &&& after.step is Finish ==> (after.step->Finish_0 is Ok <==> known.len() > 0)
            &&& !(after.step is Finish) ==> after.step is Pause && after.scan.last_height
                == height_of(body@)
        }),
{
    let known = before.scan.shortcodes.deep_view();
    law_page_has_an_entry_for_each_link(body@);
    let page = findings_in(body@)->0;
    reveal_strlit("/accounts/login");
    assert(!has_part(page.0, "/accounts/login"@));
    lemma_nothing_new(known, body@);
    law_reels_are_complete(known, page.1, code);
    lemma_links_are_sightings(ScrapeReply::Page(body), code);
    law_known_reels_stay(known, page.1);
    assert(known.len() == before.scan.shortcodes@.len());
    assert(after.scan.shortcodes@.len() == after.scan.shortcodes.deep_view().len());
}

/// What ends a collection without Reels is told in words that name the cause.
pub proof fn law_collection_failures_have_their_words(
    before: ReelScrape,
    reply: ScrapeReply,
    after: ReelScrape,
)
    requires
        before.wf(),
        before.accepts(reply),
        scrape_advances(before, reply, after),
        after.step is Finish,
        after.step->Finish_0 is Err,
    ensures
        before.step is Pause ==> after.step->Finish_0->Err_0@
            == "Instagram scrolling did not reach a stable bottom; refusing to return a possibly incomplete Reel list"@,
        (reply matches ScrapeReply::Page(body) && !json_present(body@, "/value"@))
            ==> after.step->Finish_0->Err_0@ == "Browser returned no page data"@,
        (reply matches ScrapeReply::Page(body) && json_present(body@, "/value"@) && (json_string(
            body@,
            "/value/pageUrl"@,
        ) matches Some(url) && has_part(url, "/accounts/login"@)))
            ==> after.step->Finish_0->Err_0@
            == "Instagram opened the login page; refresh the Instagram cookies.txt session"@,
        (reply matches ScrapeReply::Page(body) && json_present(body@, "/value"@) && (json_string(
            body@,
            "/value/pageUrl"@,
        ) matches Some(url) ==> !has_part(url, "/accounts/login"@)))
            ==> after.step->Finish_0->Err_0@
            == "No Reel links were found while scrolling this Instagram profile; the profile may be private, unavailable, or require fresh cookies"@,
        reply matches ScrapeReply::Failed(error) ==> before.step is Pause || after.step->Finish_0
            == Err::<Vec<String>, String>(error),
{
    if let ScrapeReply::Page(body) = reply {
        law_page_has_an_entry_for_each_link(body@);
        reveal_strlit("/accounts/login");
    }
}

/// Reading a page, beginning a collection and going on with one do what the laws of collections
/// speak of.
pub proof fn law_collection_functions(
    body: &str,
    page: Option<PageFindings>,
    cookies: usize,
    first: ReelScrape,
    before: ReelScrape,
    reply: ScrapeReply,
    after: ReelScrape,
    username: &str,
    address: String,
    path: Option<&'static str>,
)
    requires
        call_ensures(read_page, (body,), page),
        call_ensures(ReelScrape::new, (cookies,), first),
        call_ensures(ReelScrape::advance, (before, reply), after),
        call_ensures(reels_page_url, (username,), address),
        call_ensures(ReelScrape::path, (&before,), path),
    ensures
        page is Some <==> json_present(body@, "/value"@),
        page matches Some(found) ==> {
            &&& found.shortcodes@.len() == links_of(body@).len()
            &&& forall|i: int|
                0 <= i < links_of(body@).len() ==> (#[trigger] found.shortcodes@[i]).deep_view()
                    == code_of_link(links_of(body@)[i])
            &&& found.height == height_of(body@)
        },
        first.wf() && first.cookies == cookies && first.step is OpenHome && first.scan.shortcodes@.len()
            == 0,
        after.wf() && scrape_advances(before, reply, after),
        address@ == "https://www.instagram.com/"@ + username@ + "/reels/"@,
        path is None <==> before.step is Pause || before.step is Finish,
        before.step is OpenHome || before.step is OpenReels ==> path->0@ == "/url"@,
        before.step is LoadCookie ==> path->0@ == "/cookie"@,
        before.step is ReadPage ==> path->0@ == "/execute/sync"@,
{
    law_page_has_an_entry_for_each_link(body@);
    if let Some(found) = page {
        let shown = findings_in(body@)->0;
        assert(page.deep_view() == Some(found.deep_view()));
        assert(found.shortcodes.deep_view() == shown.1);
        assert forall|i: int| 0 <= i < links_of(body@).len() implies (
        #[trigger] found.shortcodes@[i]).deep_view() == code_of_link(links_of(body@)[i]) by {
            assert(shown.1[i] == code_of_link(links_of(body@)[i]));
            assert(found.shortcodes.deep_view()[i] == found.shortcodes@[i].deep_view());
        }
    }
    assert(first.scan.shortcodes.deep_view().len() == first.scan.shortcodes@.len());
}

/// To record a page is to know what it showed: the Reels that were known stay, in their order, those
/// that it showed come behind them, and no Reel comes twice. A page that showed nothing new at the
/// same height counts as quiet, and the sixth in a row ends the scrolling.
pub proof fn law_recording_notes_the_page(
    scan: &mut ReelScan,
    found: Vec<Option<String>>,
    height: u64,
    end: bool,
    code: Seq<char>,
)
    requires
        old(scan).unchanged_rounds < 6,
        old(scan).rounds < 600,
        call_ensures(ReelScan::record, (scan, &found, height), end),
    ensures
        ({
            let known = old(scan).shortcodes.deep_view();
            let now = final(scan).shortcodes.deep_view();
            let quiet = now.len() == known.len() && height == old(scan).last_height;
            &&& now.contains(code) <==> known.contains(code) || found.deep_view().contains(
                Some(code),
            )
            &&& known.len() <= now.len() && now.take(known.len() as int) == known
            &&& known.no_duplicates() ==> now.no_duplicates()
            &&& final(scan).rounds == old(scan).rounds + 1
            &&& final(scan).unchanged_rounds == if quiet {
                old(scan).unchanged_rounds + 1
            } else {
                0
            }
            &&& end <==> quiet && old(scan).unchanged_rounds == 5
            &&& !end ==> final(scan).last_height == height
        }),
{
    let known = old(scan).shortcodes.deep_view();
    law_reels_are_complete(known, found.deep_view(), code);
    law_known_reels_stay(known, found.deep_view());
    if known.no_duplicates() {
        law_reels_are_distinct(known, found.deep_view());
    }
}

/// A step is named in errors just when it makes a request, and by what it does.
pub proof fn law_requests_have_names(
    job: ReelScrape,
    path: Option<&'static str>,
    operation: Option<&'static str>,
)
    requires
        call_ensures(ReelScrape::path, (&job,), path),
        call_ensures(ReelScrape::operation, (&job,), operation),
    ensures
        operation is Some <==> path is Some,
        job.step is OpenHome ==> operation->0@ == "opening Instagram"@,
        job.step is LoadCookie ==> operation->0@ == "loading an Instagram cookie"@,
        job.step is OpenReels ==> operation->0@ == "opening the Instagram Reels page"@,
        job.step is ReadPage ==> operation->0@
            == "reading and scrolling the Instagram Reels page"@,
{
}

}
