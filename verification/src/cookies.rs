//! The cookies that go to `yt-dlp` and to the browser.
use vstd::prelude::*;

use crate::concat::{last_line, last_line_or};
use crate::link::{should_use_cookies, X_RE};
use crate::outside::{lossy_text, regex_find, regex_is_match, utf8_lossy};
use crate::text::{
    append_all, concat2, contains, decimal, ends_with, eq_ignore_ascii_case, has_part, has_prefix,
    has_suffix, is_trimmed, law_lines_come_apart, law_number_round_trip, law_numbers_are_digits,
    law_pieces_come_apart, law_trimmed_exists, lines, number_value, owned, parse_number, pieces,
    same_ignoring_ascii_case, split_at_char, split_lines, strip_prefix, trim, trimmed,
};

verus! {

// Cookies for the browser

/// A cookie as the browser takes it.
#[derive(Debug)]
pub struct WebDriverCookie {
    pub name: String,
    pub value: String,
    pub path: String,
    pub domain: String,
    pub secure: bool,
    /// When it expires, in seconds since 1970; a cookie of the session has none.
    pub expiry: Option<u64>,
}

/// A line of a cookie file without the mark of a cookie that scripts cannot read.
pub open spec fn unmarked(line: Seq<char>) -> Seq<char> {
    if has_prefix(line, "#HttpOnly_"@) {
        line.skip("#HttpOnly_"@.len() as int)
    } else {
        line
    }
}

/// The fields of a line of a cookie file: domain, subdomains, path, secure, expiry, name, value.
pub open spec fn cookie_fields(line: Seq<char>) -> Seq<Seq<char>> {
    pieces(unmarked(line), '\t')
}

/// Whether a line of a cookie file holds a cookie of Instagram. Empty lines and comments hold
/// none.
pub open spec fn is_cookie_line(line: Seq<char>) -> bool {
    let fields = cookie_fields(line);
    &&& unmarked(line).len() > 0
    &&& unmarked(line)[0] != '#'
    &&& fields.len() >= 7
    &&& has_suffix(fields[0], "instagram.com"@)
}

/// When a cookie expires, from the text of the field: not at all where that is no number or zero.
pub open spec fn expiry_in(field: Seq<char>) -> Option<u64> {
    match number_value(field, u64::MAX as nat) {
        Ok(n) => if n > 0 {
            Some(n as u64)
        } else {
            None
        },
        Err(_) => None,
    }
}

/// Whether `cookie` is the one that a line of a cookie file holds.
pub open spec fn is_cookie_of(cookie: WebDriverCookie, line: Seq<char>) -> bool {
    let fields = cookie_fields(line);
    &&& cookie.name@ == fields[5]
    &&& cookie.value@ == fields[6]
    &&& cookie.path@ == fields[2]
    &&& cookie.domain@ == fields[0]
    &&& cookie.secure == same_ignoring_ascii_case(fields[3], "TRUE"@)
    &&& cookie.expiry == expiry_in(fields[4])
}

/// The lines of a cookie file that hold cookies of Instagram, in order.
pub open spec fn cookie_lines(contents: Seq<char>) -> Seq<Seq<char>> {
    lines(contents).filter(|line: Seq<char>| is_cookie_line(line))
}

fn parse_expiry(field: &str) -> (r: Option<u64>)
    ensures
        r == expiry_in(field@),
{
    match parse_number(field, u64::MAX) {
        Ok(n) => {
            if n > 0 {
                Some(n)
            } else {
                None
            }
        },
        Err(_) => None,
    }
}

fn begins_comment(line: &str) -> (r: bool)
    ensures
        r == (line@.len() > 0 && line@[0] == '#'),
{
    proof {
        reveal_strlit("#");
    }
    let found = strip_prefix(line, "#").is_some();
    assert(line@.len() > 0 ==> line@.take(1)[0] == line@[0]);
    assert(line@.len() > 0 && line@[0] == '#' ==> line@.take(1) =~= "#"@);
    found
}

/// The cookie of Instagram that a line of a cookie file holds.
pub fn parse_cookie_line(line: &str) -> (r: Option<WebDriverCookie>)
    ensures
        match r {
            Some(cookie) => is_cookie_line(line@) && is_cookie_of(cookie, line@),
            None => !is_cookie_line(line@),
        },
{
    let rest = match strip_prefix(line, "#HttpOnly_") {
        Some(rest) => rest,
        None => line,
    };
    if rest.is_empty() || begins_comment(rest) {
        return None;
    }
    let fields = split_at_char(rest, '\t');
    let ghost texts = fields.deep_view();
    assert(forall|i: int| 0 <= i < fields@.len() ==> #[trigger] texts[i] == fields@[i]@);
    if fields.len() < 7 || !ends_with(fields[0], "instagram.com") {
        return None;
    }
    Some(
        WebDriverCookie {
            name: fields[5].to_owned(),
            value: fields[6].to_owned(),
            path: fields[2].to_owned(),
            domain: fields[0].to_owned(),
            secure: eq_ignore_ascii_case(fields[3], "TRUE"),
            expiry: parse_expiry(fields[4]),
        },
    )
}

/// The cookies of Instagram in the cookie file with these contents, in order.
pub fn instagram_webdriver_cookies(contents: &str) -> (r: Vec<WebDriverCookie>)
    ensures
        r@.len() == cookie_lines(contents@).len(),
        forall|i: int|
            0 <= i < r@.len() ==> is_cookie_of(#[trigger] r@[i], cookie_lines(contents@)[i]),
{
    let all = split_lines(contents);
    let ghost texts = all.deep_view();
    let ghost holds = |line: Seq<char>| is_cookie_line(line);
    let mut out: Vec<WebDriverCookie> = Vec::new();
    let mut i: usize = 0;
    proof {
        reveal(Seq::filter);
        assert(texts.take(0) =~= Seq::<Seq<char>>::empty());
    }
    while i < all.len()
        invariant
            texts == all.deep_view(),
            holds == |line: Seq<char>| is_cookie_line(line),
            i <= all@.len(),
            out@.len() == texts.take(i as int).filter(holds).len(),
            forall|j: int|
                0 <= j < out@.len() ==> is_cookie_of(
                    #[trigger] out@[j],
                    texts.take(i as int).filter(holds)[j],
                ),
        decreases all@.len() - i,
    {
        proof {
            reveal(Seq::filter);
            assert(texts.take(i + 1).drop_last() =~= texts.take(i as int));
            assert(texts.take(i + 1).last() == all@[i as int]@);
        }
        match parse_cookie_line(all[i]) {
            Some(cookie) => out.push(cookie),
            None => {},
        }
        i = i + 1;
    }
    assert(texts.take(texts.len() as int) =~= texts);
    out
}

/// Every cookie that is given to the browser is one of Instagram: its domain ends in the name of
/// the site.
pub proof fn law_cookies_are_of_instagram(contents: Seq<char>, i: int, cookie: WebDriverCookie)
    requires
        0 <= i < cookie_lines(contents).len(),
        is_cookie_of(cookie, cookie_lines(contents)[i]),
    ensures
        lines(contents).contains(cookie_lines(contents)[i]),
        has_suffix(cookie.domain@, "instagram.com"@),
{
    let holds = |line: Seq<char>| is_cookie_line(line);
    lines(contents).lemma_filter_pred(holds, i);
    assert(cookie_lines(contents).contains(cookie_lines(contents)[i]));
    lines(contents).lemma_filter_contains_rev(holds, cookie_lines(contents)[i]);
}

// Cookies for yt-dlp

/// The name of a cookie file.
pub const COOKIE_FILE: &'static str = "cookies.txt";

/// Where a cookie file is.
#[derive(Clone, Copy, Debug, PartialEq, Eq, Structural)]
pub enum CookiePlace {
    /// In the working directory.
    WorkingDirectory,
    /// Beside the program.
    BesideProgram,
}

/// Picks the cookie file: the one in the working directory, or else the one beside the program.
/// Where the program is may be unknown.
pub fn cookie_place(in_working_directory: bool, beside_program: Option<bool>) -> (r: Option<
    CookiePlace,
>)
    ensures
        r == if in_working_directory {
            Some(CookiePlace::WorkingDirectory)
        } else if beside_program == Some(true) {
            Some(CookiePlace::BesideProgram)
        } else {
            None
        },
{
    if in_working_directory {
        return Some(CookiePlace::WorkingDirectory);
    }
    match beside_program {
        Some(true) => Some(CookiePlace::BesideProgram),
        _ => None,
    }
}

/// The browser whose cookies are used: Brave where it was found, and Chrome otherwise.
pub open spec fn browser_name(brave_found: bool) -> Seq<char> {
    if brave_found {
        "brave"@
    } else {
        "chrome"@
    }
}

/// The browser whose cookies are used: Brave where it was found, and Chrome otherwise.
pub fn cookie_browser(brave_found: bool) -> (r: &'static str)
    ensures
        r@ == browser_name(brave_found),
{
    if brave_found {
        "brave"
    } else {
        "chrome"
    }
}

/// The arguments that give `yt-dlp` the cookies of the file, or else those of the browser.
pub open spec fn source_list(file: Option<Seq<char>>, brave_found: bool) -> Seq<Seq<char>> {
    match file {
        Some(path) => seq!["--cookies"@, path],
        None => seq!["--cookies-from-browser"@, browser_name(brave_found)],
    }
}

/// The arguments that give `yt-dlp` cookies for `url`: none for a post on X.
pub open spec fn cookie_list(url: Seq<char>, file: Option<Seq<char>>, brave_found: bool) -> Seq<
    Seq<char>,
> {
    if regex_is_match(X_RE@, url) {
        Seq::empty()
    } else {
        source_list(file, brave_found)
    }
}

/// The arguments that give `yt-dlp` the cookies of the file, or else those of the browser.
pub fn cookie_source_args(file: Option<&str>, brave_found: bool) -> (r: Vec<String>)
    ensures
        r.deep_view() == source_list(file.deep_view(), brave_found),
{
    let out = match file {
        Some(path) => owned(&["--cookies", path]),
        None => owned(&["--cookies-from-browser", cookie_browser(brave_found)]),
    };
    assert(out.deep_view() =~= source_list(file.deep_view(), brave_found));
    out
}

/// The arguments that give `yt-dlp` cookies for `url`: none for a post on X, and else those of
/// the file, or of the browser where there is no file.
pub fn cookie_args(url: &str, file: Option<&str>, brave_found: bool) -> (r: Vec<String>)
    ensures
        r.deep_view() == cookie_list(url@, file.deep_view(), brave_found),
{
    if should_use_cookies(url) {
        cookie_source_args(file, brave_found)
    } else {
        let none: Vec<String> = Vec::new();
        assert(none.deep_view() =~= Seq::<Seq<char>>::empty());
        none
    }
}

/// The variables that `yt-dlp` must not see when it gets cookies, as they would change how it
/// runs Node.
pub open spec fn hidden_list() -> Seq<Seq<char>> {
    seq!["NODE_APP_INSTANCE"@, "NODE_CHANNEL_FD"@, "NODE_CHANNEL_SERIALIZATION_MODE"@]
}

/// The variables that `yt-dlp` must not see when it gets cookies.
pub fn hidden_variables() -> (r: Vec<String>)
    ensures
        r.deep_view() == hidden_list(),
{
    let out = owned(&["NODE_APP_INSTANCE", "NODE_CHANNEL_FD", "NODE_CHANNEL_SERIALIZATION_MODE"]);
    assert(out.deep_view() =~= hidden_list());
    out
}

/// The variables that `yt-dlp` must not see for `url`: none where it gets no cookies.
pub fn hidden_variables_for(url: &str) -> (r: Vec<String>)
    ensures
        r.deep_view() == if regex_is_match(X_RE@, url@) {
            Seq::empty()
        } else {
            hidden_list()
        },
{
    if should_use_cookies(url) {
        hidden_variables()
    } else {
        let none: Vec<String> = Vec::new();
        assert(none.deep_view() =~= Seq::<Seq<char>>::empty());
        none
    }
}

// The check at the start

/// The video that the check asks for.
pub const CHECK_URL: &'static str = "https://www.youtube.com/watch?v=Sv5ZZB-M59Q";

/// The arguments of the check, before the cookies.
pub open spec fn check_list() -> Seq<Seq<char>> {
    seq![
        "--print"@,
        "title"@,
        "--no-download"@,
        "--js-runtimes"@,
        "node"@,
        "--remote-components"@,
        "ejs:github"@,
        "--verbose"@,
        CHECK_URL@,
    ]
}

/// The arguments of the check, with the cookies of the file, or else those of the browser, last.
pub fn check_args(file: Option<&str>, brave_found: bool) -> (r: Vec<String>)
    ensures
        r.deep_view() == check_list() + source_list(file.deep_view(), brave_found),
{
    let mut out = owned(
        &[
            "--print",
            "title",
            "--no-download",
            "--js-runtimes",
            "node",
            "--remote-components",
            "ejs:github",
            "--verbose",
            CHECK_URL,
        ],
    );
    assert(out.deep_view() =~= check_list());
    append_all(&mut out, cookie_source_args(file, brave_found));
    out
}

/// How the check ended.
#[derive(Debug)]
pub enum CheckOutcome {
    /// The program could not be run.
    NotRun(String),
    /// It ran with success or without, and printed this, as output and as errors.
    Ran { success: bool, printed: Vec<u8>, errors: Vec<u8> },
}

/// What the check found.
#[derive(Debug)]
pub struct CheckReport {
    /// Lines that help to see what went wrong.
    pub details: Vec<String>,
    /// That the cookies are good, or that they are not.
    pub verdict: Result<String, String>,
}

/// Whether a line of the errors helps to see what went wrong.
pub open spec fn is_telling(line: Seq<char>) -> bool {
    ||| has_part(line, "JS runtimes"@)
    ||| has_part(line, "jsc:"@)
    ||| has_part(line, "cookies"@)
    ||| has_part(line, "WARNING"@)
    ||| has_part(line, "ERROR"@)
}

/// The details that the errors hold: the telling lines, in order.
pub open spec fn check_details(errors: Seq<char>) -> Seq<Seq<char>> {
    lines(errors).filter(|line: Seq<char>| is_telling(line)).map_values(
        |line: Seq<char>| "yt-dlp cookie check detail: "@ + line,
    )
}

/// Whether `report` is what a check found that ran with `success` and printed these texts.
pub open spec fn is_check_report(
    report: CheckReport,
    success: bool,
    printed: Seq<char>,
    errors: Seq<char>,
) -> bool {
    if success {
        &&& report.details@.len() == 0
        &&& report.verdict matches Ok(text) && text@ == "yt-dlp cookie check OK: "@ + trimmed(
            printed,
        )
    } else {
        &&& report.details.deep_view() == check_details(errors)
        &&& report.verdict matches Err(text) && text@ == "yt-dlp cookie check failed: "@
            + last_line_or(errors, "yt-dlp exited with an error"@)
    }
}

fn tells(line: &str) -> (r: bool)
    ensures
        r == is_telling(line@),
{
    contains(line, "JS runtimes") || contains(line, "jsc:") || contains(line, "cookies")
        || contains(line, "WARNING") || contains(line, "ERROR")
}

fn collect_details(errors: &str) -> (r: Vec<String>)
    ensures
        r.deep_view() == check_details(errors@),
{
    let all = split_lines(errors);
    let ghost texts = all.deep_view();
    let ghost telling = |line: Seq<char>| is_telling(line);
    let ghost detail = |line: Seq<char>| "yt-dlp cookie check detail: "@ + line;
    let mut out: Vec<String> = Vec::new();
    let mut i: usize = 0;
    proof {
        reveal(Seq::filter);
        assert(texts.take(0) =~= Seq::<Seq<char>>::empty());
    }
    assert(out.deep_view() =~= texts.take(0).filter(telling).map_values(detail));
    while i < all.len()
        invariant
            texts == all.deep_view(),
            telling == |line: Seq<char>| is_telling(line),
            detail == |line: Seq<char>| "yt-dlp cookie check detail: "@ + line,
            i <= all@.len(),
            out.deep_view() == texts.take(i as int).filter(telling).map_values(detail),
        decreases all@.len() - i,
    {
        let ghost before = out.deep_view();
        proof {
            reveal(Seq::filter);
            assert(texts.take(i + 1).drop_last() =~= texts.take(i as int));
            assert(texts.take(i + 1).last() == all@[i as int]@);
        }
        if tells(all[i]) {
            let line = concat2("yt-dlp cookie check detail: ", all[i]);
            out.push(line);
            assert(out.deep_view() =~= before.push(line@));
        }
        assert(out.deep_view() =~= texts.take(i + 1).filter(telling).map_values(detail));
        i = i + 1;
    }
    assert(texts.take(texts.len() as int) =~= texts);
    out
}

/// What a check found that ran with `success` and printed these texts.
pub fn read_check(success: bool, printed: &str, errors: &str) -> (r: CheckReport)
    ensures
        is_check_report(r, success, printed@, errors@),
{
    if success {
        CheckReport {
            details: Vec::new(),
            verdict: Ok(concat2("yt-dlp cookie check OK: ", trim(printed))),
        }
    } else {
        let last = last_line(errors, "yt-dlp exited with an error");
        CheckReport {
            details: collect_details(errors),
            verdict: Err(concat2("yt-dlp cookie check failed: ", last.as_str())),
        }
    }
}

/// What a check found, from how it ended.
pub fn report_check(outcome: &CheckOutcome) -> (r: CheckReport)
    ensures
        match *outcome {
            CheckOutcome::NotRun(error) => r.details@.len() == 0 && (r.verdict matches Err(text)
                && text@ == "yt-dlp cookie check failed to run: "@ + error@),
            CheckOutcome::Ran { success, printed, errors } => is_check_report(
                r,
                success,
                utf8_lossy(printed@),
                utf8_lossy(errors@),
            ),
        },
{
    match outcome {
        CheckOutcome::NotRun(error) => CheckReport {
            details: Vec::new(),
            verdict: Err(concat2("yt-dlp cookie check failed to run: ", error.as_str())),
        },
        CheckOutcome::Ran { success, printed, errors } => {
            let output = lossy_text(printed.as_slice());
            let complaints = lossy_text(errors.as_slice());
            read_check(*success, output.as_str(), complaints.as_str())
        },
    }
}

// Laws of cookies

/// A line of a cookie file, from its fields.
pub open spec fn joined_line(
    domain: Seq<char>,
    subdomains: Seq<char>,
    path: Seq<char>,
    secure: Seq<char>,
    expiry: Seq<char>,
    name: Seq<char>,
    value: Seq<char>,
) -> Seq<char> {
    let tab = seq!['\t'];
    domain + tab + (subdomains + tab + (path + tab + (secure + tab + (expiry + tab + (name + tab
        + value)))))
}

/// A line that is written with seven fields is read back with them, also behind the mark of a
/// cookie that scripts cannot read: it holds a cookie just when its domain ends in the name of the
/// site, and the cookie has the name, the value, the path and the domain that were written, is
/// secure just when that was written as true, and expires at the number that was written.
pub proof fn law_cookie_is_read_back(
    domain: Seq<char>,
    subdomains: Seq<char>,
    path: Seq<char>,
    secure: Seq<char>,
    expiry: Seq<char>,
    name: Seq<char>,
    value: Seq<char>,
    cookie: WebDriverCookie,
)
    requires
        domain.len() > 0,
        domain[0] != '#',
        !domain.contains('\t'),
        !subdomains.contains('\t'),
        !path.contains('\t'),
        !secure.contains('\t'),
        !expiry.contains('\t'),
        !name.contains('\t'),
        !value.contains('\t'),
    ensures
        ({
            let line = joined_line(domain, subdomains, path, secure, expiry, name, value);
            let marked = "#HttpOnly_"@ + line;
            &&& is_cookie_line(line) <==> has_suffix(domain, "instagram.com"@)
            &&& is_cookie_line(marked) <==> has_suffix(domain, "instagram.com"@)
            &&& is_cookie_of(cookie, line) <==> is_cookie_of(cookie, marked)
            &&& is_cookie_of(cookie, line) ==> cookie.name@ == name && cookie.value@ == value
                && cookie.path@ == path && cookie.domain@ == domain && (cookie.secure
                <==> same_ignoring_ascii_case(secure, "TRUE"@))
            &&& is_cookie_of(cookie, line) ==> cookie.expiry == match number_value(
                expiry,
                u64::MAX as nat,
            ) {
                Ok(n) => if n == 0 {
                    None
                } else {
                    Some(n as u64)
                },
                Err(_) => None,
            }
        }),
{
    reveal_strlit("#HttpOnly_");
    let tab = seq!['\t'];
    let tail5 = name + tab + value;
    let tail4 = expiry + tab + tail5;
    let tail3 = secure + tab + tail4;
    let tail2 = path + tab + tail3;
    let tail1 = subdomains + tab + tail2;
    let line = joined_line(domain, subdomains, path, secure, expiry, name, value);
    let marked = "#HttpOnly_"@ + line;
    assert(line[0] == domain[0]);
    assert(!has_prefix(line, "#HttpOnly_"@)) by {
        if has_prefix(line, "#HttpOnly_"@) {
            assert(line.take("#HttpOnly_"@.len() as int)[0] == line[0]);
        }
    }
    assert(marked.take("#HttpOnly_"@.len() as int) =~= "#HttpOnly_"@);
    assert(marked.skip("#HttpOnly_"@.len() as int) =~= line);
    law_pieces_come_apart(domain, tail1, '\t');
    law_pieces_come_apart(subdomains, tail2, '\t');
    law_pieces_come_apart(path, tail3, '\t');
    law_pieces_come_apart(secure, tail4, '\t');
    law_pieces_come_apart(expiry, tail5, '\t');
    law_pieces_come_apart(name, value, '\t');
    law_pieces_come_apart(value, value, '\t');
    assert(pieces(line, '\t') =~= seq![domain, subdomains, path, secure, expiry, name, value]);
}

/// Comments and empty lines hold no cookie, and neither does a line with too few fields.
pub proof fn law_comments_hold_no_cookie(text: Seq<char>, few: Seq<char>)
    requires
        !has_prefix(seq!['#'] + text, "#HttpOnly_"@),
        !has_prefix(few, "#HttpOnly_"@),
        pieces(few, '\t').len() < 7,
    ensures
        !is_cookie_line(seq!['#'] + text),
        !is_cookie_line(Seq::empty()),
        !is_cookie_line("#HttpOnly_"@),
        !is_cookie_line(few),
{
    reveal_strlit("#HttpOnly_");
    assert((seq!['#'] + text)[0] == '#');
    let mark = "#HttpOnly_"@;
    assert(mark.take(mark.len() as int) =~= mark);
    assert(mark.skip(mark.len() as int).len() == 0);
}

/// A cookie file is read line by line, in order: the first line gives its cookie, if it holds one,
/// and the rest gives the rest.
pub proof fn law_cookie_file_is_read_in_order(first: Seq<char>, rest: Seq<char>)
    requires
        !first.contains('\n'),
        first.len() == 0 || first.last() != '\r',
    ensures
        cookie_lines(first + seq!['\n'] + rest) == if is_cookie_line(first) {
            seq![first] + cookie_lines(rest)
        } else {
            cookie_lines(rest)
        },
        cookie_lines(Seq::empty()) == Seq::<Seq<char>>::empty(),
{
    let holds = |line: Seq<char>| is_cookie_line(line);
    law_lines_come_apart(first, rest);
    Seq::filter_distributes_over_add(seq![first], lines(rest), holds);
    reveal(Seq::filter);
    assert(seq![first].drop_last() =~= Seq::<Seq<char>>::empty());
    reveal_with_fuel(Seq::filter, 3);
    assert(seq![first].filter(holds) =~= if is_cookie_line(first) {
        seq![first]
    } else {
        Seq::empty()
    });
    assert(Seq::<Seq<char>>::empty() + cookie_lines(rest) =~= cookie_lines(rest));
}

/// When a cookie expires is the number that is written, however it is written; nothing but digits,
/// and no zero, is a time.
pub proof fn law_expiry_is_the_number_written(n: nat, field: Seq<char>)
    requires
        0 < n <= u64::MAX,
    ensures
        expiry_in(decimal(n)) == Some(n as u64),
        expiry_in(decimal(0)) is None,
        expiry_in(field) matches Some(t) ==> t > 0 && forall|i: int|
            0 < i < field.len() ==> '0' <= #[trigger] field[i] <= '9',
{
    law_number_round_trip(n, u64::MAX as nat);
    law_number_round_trip(0, u64::MAX as nat);
    law_numbers_are_digits(field, u64::MAX as nat);
}

/// Posts on X get no cookies; everything else gets those of the file, and those of the browser only
/// where there is no file. Brave comes before Chrome.
pub proof fn law_cookies_go_by_link_and_source(
    url: Seq<char>,
    file: Option<Seq<char>>,
    brave_found: bool,
)
    ensures
        regex_find(X_RE@, url) is Some ==> cookie_list(url, file, brave_found).len() == 0,
        regex_find(X_RE@, url) is None ==> cookie_list(url, file, brave_found) == match file {
            Some(path) => seq!["--cookies"@, path],
            None => seq![
                "--cookies-from-browser"@,
                if brave_found {
                    "brave"@
                } else {
                    "chrome"@
                },
            ],
        },
        source_list(file, brave_found) == match file {
            Some(path) => seq!["--cookies"@, path],
            None => seq![
                "--cookies-from-browser"@,
                if brave_found {
                    "brave"@
                } else {
                    "chrome"@
                },
            ],
        },
{
}

/// A line of the errors helps just when it speaks of runtimes, of cookies, or of a warning or an
/// error.
pub proof fn law_telling_lines(line: Seq<char>)
    ensures
        is_telling(line) <==> has_part(line, "JS runtimes"@) || has_part(line, "jsc:"@) || has_part(
            line,
            "cookies"@,
        ) || has_part(line, "WARNING"@) || has_part(line, "ERROR"@),
{
}

/// The details of a failed check are its telling lines, in order, each whole behind the same words.
pub proof fn law_details_are_the_telling_lines(first: Seq<char>, rest: Seq<char>)
    requires
        !first.contains('\n'),
        first.len() == 0 || first.last() != '\r',
    ensures
        check_details(first + seq!['\n'] + rest) == if is_telling(first) {
            seq!["yt-dlp cookie check detail: "@ + first] + check_details(rest)
        } else {
            check_details(rest)
        },
        check_details(Seq::empty()) == Seq::<Seq<char>>::empty(),
{
    let telling = |line: Seq<char>| is_telling(line);
    let detail = |line: Seq<char>| "yt-dlp cookie check detail: "@ + line;
    law_lines_come_apart(first, rest);
    Seq::filter_distributes_over_add(seq![first], lines(rest), telling);
    reveal(Seq::filter);
    assert(seq![first].drop_last() =~= Seq::<Seq<char>>::empty());
    reveal_with_fuel(Seq::filter, 3);
    let own = seq![first].filter(telling);
    let others = lines(rest).filter(telling);
    assert(own =~= if is_telling(first) {
        seq![first]
    } else {
        Seq::empty()
    });
    assert((own + others).map_values(detail) =~= own.map_values(detail) + others.map_values(detail));
    assert(is_telling(first) ==> own.map_values(detail) =~= seq![
        "yt-dlp cookie check detail: "@ + first,
    ]);
    assert(!is_telling(first) ==> own.map_values(detail) + others.map_values(detail)
        =~= others.map_values(detail));
    assert(check_details(Seq::empty()) =~= Seq::<Seq<char>>::empty());
}

/// A check passes just when the program succeeded, and says the title; one that fails says the last
/// line of the errors.
pub proof fn law_check_passes_with_the_program(
    report: CheckReport,
    success: bool,
    printed: Seq<char>,
    errors: Seq<char>,
)
    requires
        is_check_report(report, success, printed, errors),
    ensures
        report.verdict is Ok <==> success,
        report.verdict matches Ok(text) ==> exists|title: Seq<char>|
            is_trimmed(printed, title) && #[trigger] has_suffix(text@, title),
        (report.verdict is Err && lines(errors).len() > 0) ==> has_suffix(
            report.verdict->Err_0@,
            lines(errors).last(),
        ),
        success ==> report.details@.len() == 0,
{
    let title = trimmed(printed);
    law_trimmed_exists(printed);
    let good = "yt-dlp cookie check OK: "@ + title;
    assert(good.skip(good.len() - title.len()) =~= title);
    assert(has_suffix(good, title));
    if lines(errors).len() > 0 {
        let last = lines(errors).last();
        let bad = "yt-dlp cookie check failed: "@ + last;
        assert(bad.skip(bad.len() - last.len()) =~= last);
    }
}

/// The check asks for a title without a download, and speaks of all it does.
pub proof fn law_check_only_looks()
    ensures
        check_list() == seq![
            "--print"@,
            "title"@,
            "--no-download"@,
            "--js-runtimes"@,
            "node"@,
            "--remote-components"@,
            "ejs:github"@,
            "--verbose"@,
            "https://www.youtube.com/watch?v=Sv5ZZB-M59Q"@,
        ],
{
}

/// The functions of cookies do what their laws speak of. A cookie file in the working directory
/// comes before the one beside the program. The variables that would change how Node runs are
/// hidden just where cookies are given. A check that could not be run says so.
pub proof fn law_cookie_functions(
    line: &str,
    cookie: Option<WebDriverCookie>,
    contents: &str,
    cookies: Vec<WebDriverCookie>,
    here: bool,
    beside: Option<bool>,
    place: Option<CookiePlace>,
    url: &str,
    file: Option<&str>,
    brave_found: bool,
    arguments: Vec<String>,
    question: Vec<String>,
    hidden: Vec<String>,
    outcome: CheckOutcome,
    report: CheckReport,
)
    requires
        call_ensures(parse_cookie_line, (line,), cookie),
        call_ensures(instagram_webdriver_cookies, (contents,), cookies),
        call_ensures(cookie_place, (here, beside), place),
        call_ensures(cookie_args, (url, file, brave_found), arguments),
        call_ensures(check_args, (file, brave_found), question),
        call_ensures(hidden_variables_for, (url,), hidden),
        call_ensures(report_check, (&outcome,), report),
    ensures
        cookie is Some <==> is_cookie_line(line@),
        cookie matches Some(held) ==> is_cookie_of(held, line@),
        cookies@.len() == cookie_lines(contents@).len(),
        forall|i: int|
            0 <= i < cookies@.len() ==> is_cookie_of(
                #[trigger] cookies@[i],
                cookie_lines(contents@)[i],
            ),
        here ==> place == Some(CookiePlace::WorkingDirectory),
        !here && beside == Some(true) ==> place == Some(CookiePlace::BesideProgram),
        !here && beside != Some(true) ==> place is None,
        arguments.deep_view() == cookie_list(url@, file.deep_view(), brave_found),
        question.deep_view() == check_list() + source_list(file.deep_view(), brave_found),
        regex_find(X_RE@, url@) is Some ==> hidden@.len() == 0,
        regex_find(X_RE@, url@) is None ==> hidden.deep_view() == seq![
            "NODE_APP_INSTANCE"@,
            "NODE_CHANNEL_FD"@,
            "NODE_CHANNEL_SERIALIZATION_MODE"@,
        ],
        outcome matches CheckOutcome::NotRun(error) ==> report.details@.len() == 0 && (
        report.verdict matches Err(text) && text@ == "yt-dlp cookie check failed to run: "@ + error@),
        outcome matches CheckOutcome::Ran { success, printed, errors } ==> is_check_report(
            report,
            success,
            utf8_lossy(printed@),
            utf8_lossy(errors@),
        ),
{
    assert(hidden.deep_view().len() == hidden@.len());
}

/// What a check says is said in these words.
pub proof fn law_check_has_its_words(
    report: CheckReport,
    success: bool,
    printed: Seq<char>,
    errors: Seq<char>,
)
    requires
        is_check_report(report, success, printed, errors),
    ensures
        success ==> report.verdict is Ok && has_prefix(
            report.verdict->Ok_0@,
            "yt-dlp cookie check OK: "@,
        ) && is_trimmed(
            printed,
            report.verdict->Ok_0@.skip("yt-dlp cookie check OK: "@.len() as int),
        ),
        !success ==> report.verdict is Err && report.verdict->Err_0@
            == "yt-dlp cookie check failed: "@ + if lines(errors).len() == 0 {
            "yt-dlp exited with an error"@
        } else {
            lines(errors).last()
        },
        !success ==> report.details.deep_view() == check_details(errors),
{
    let start = "yt-dlp cookie check OK: "@;
    let title = trimmed(printed);
    law_trimmed_exists(printed);
    assert((start + title).take(start.len() as int) =~= start);
    assert((start + title).skip(start.len() as int) =~= title);
}

/// More fields than seven change nothing: what follows the value is not read.
pub proof fn law_more_fields_do_not_count(
    line: Seq<char>,
    more: Seq<char>,
    cookie: WebDriverCookie,
)
    requires
        pieces(line, '\t').len() == 7,
        !has_prefix(line, "#HttpOnly_"@),
        !has_prefix(line + seq!['\t'] + more, "#HttpOnly_"@),
        line.len() > 0,
    ensures
        is_cookie_line(line + seq!['\t'] + more) <==> is_cookie_line(line),
        is_cookie_of(cookie, line + seq!['\t'] + more) <==> is_cookie_of(cookie, line),
{
    let longer = line + seq!['\t'] + more;
    lemma_pieces_before(line, more);
    let short = pieces(line, '\t');
    let long = pieces(longer, '\t');
    assert(longer[0] == line[0]);
    assert(forall|i: int| 0 <= i < 7 ==> long.take(7)[i] == long[i]);
    assert(long[0] == short[0] && long[2] == short[2] && long[3] == short[3] && long[4] == short[4]
        && long[5] == short[5] && long[6] == short[6]);
}

proof fn lemma_pieces_before(line: Seq<char>, more: Seq<char>)
    ensures
        pieces(line + seq!['\t'] + more, '\t').len() >= pieces(line, '\t').len(),
        pieces(line + seq!['\t'] + more, '\t').take(pieces(line, '\t').len() as int) == pieces(
            line,
            '\t',
        ),
    decreases line.len(),
{
    let longer = line + seq!['\t'] + more;
    if line.contains('\t') {
        let at = line.index_of_first('\t')->0;
        line.index_of_first_ensures('\t');
        let head = line.take(at);
        let rest = line.skip(at + 1);
        assert(!head.contains('\t')) by {
            if head.contains('\t') {
                let i = choose|i: int| 0 <= i < head.len() && head[i] == '\t';
                assert(line[i] == '\t');
            }
        }
        assert(line =~= head + seq!['\t'] + rest);
        assert(longer =~= head + seq!['\t'] + (rest + seq!['\t'] + more));
        law_pieces_come_apart(head, rest, '\t');
        law_pieces_come_apart(head, rest + seq!['\t'] + more, '\t');
        lemma_pieces_before(rest, more);
        let tail = pieces(rest + seq!['\t'] + more, '\t');
        let n = pieces(rest, '\t').len() as int;
        assert((seq![head] + tail).take(n + 1) =~= seq![head] + tail.take(n));
    } else {
        law_pieces_come_apart(line, more, '\t');
        assert(pieces(longer, '\t').take(1) =~= seq![line]);
    }
}

}
