//! The conversation with a WebDriver.
use vstd::prelude::*;
use vstd::string::StringExecFns;

use crate::outside::{json_error, json_error_of, json_has, json_present, json_string, json_string_at};
use crate::text::{
    concat2, concat3, concat4, concat5, decimal, decimal_text, has_part, has_prefix, has_suffix,
    occurs_at, owned, push_all, split_words, words,
};

verus! {

// Responses

/// Whether a response with this status code reports success.
pub open spec fn is_success(status: u16) -> bool {
    200 <= status < 300
}

/// That `operation` could not be asked for.
pub fn request_failure(operation: &str, error: &str) -> (r: String)
    ensures
        r@ == "Browser "@ + operation@ + " failed: "@ + error@,
{
    concat4("Browser ", operation, " failed: ", error)
}

/// That the response to `operation` could not be read.
pub fn body_failure(operation: &str, error: &str) -> (r: String)
    ensures
        r@ == "Cannot read browser "@ + operation@ + " response: "@ + error@,
{
    concat4("Cannot read browser ", operation, " response: ", error)
}

/// What is wrong with a response, from its status and text, the error in its JSON syntax, and
/// the error and message that it reports.
pub open spec fn response_failure(
    operation: Seq<char>,
    status: u16,
    status_text: Seq<char>,
    body: Seq<char>,
    syntax: Option<Seq<char>>,
    error: Option<Seq<char>>,
    message: Option<Seq<char>>,
) -> Option<Seq<char>> {
    if !is_success(status) {
        Some("Browser "@ + operation + " returned HTTP "@ + status_text + ": "@ + body)
    } else {
        match (syntax, error, message) {
            (Some(reason), _, _) => Some(
                "Browser "@ + operation + " returned invalid JSON: "@ + reason,
            ),
            (None, Some(_), Some(reason)) => Some("Browser "@ + operation + " failed: "@ + reason),
            (None, Some(reason), None) => Some("Browser "@ + operation + " failed: "@ + reason),
            (None, None, _) => None,
        }
    }
}

/// Judges a response, from its status and text, the error in its JSON syntax, and the error and
/// message that it reports.
pub fn judge_response(
    operation: &str,
    status: u16,
    status_text: &str,
    body: &str,
    syntax: Option<String>,
    error: Option<String>,
    message: Option<String>,
) -> (r: Option<String>)
    ensures
        r.deep_view() == response_failure(
            operation@,
            status,
            status_text@,
            body@,
            syntax.deep_view(),
            error.deep_view(),
            message.deep_view(),
        ),
{
    if status < 200 || status >= 300 {
        let mut text = concat5("Browser ", operation, " returned HTTP ", status_text, ": ");
        text.append(body);
        return Some(text);
    }
    match syntax {
        Some(reason) => {
            return Some(
                concat4("Browser ", operation, " returned invalid JSON: ", reason.as_str()),
            );
        },
        None => {},
    }
    match error {
        Some(reason) => match message {
            Some(text) => Some(request_failure(operation, text.as_str())),
            None => Some(request_failure(operation, reason.as_str())),
        },
        None => None,
    }
}

/// What is wrong with a response.
pub open spec fn failure_of_response(
    operation: Seq<char>,
    status: u16,
    status_text: Seq<char>,
    body: Seq<char>,
) -> Option<Seq<char>> {
    response_failure(
        operation,
        status,
        status_text,
        body,
        json_error(body),
        json_string(body, "/value/error"@),
        json_string(body, "/value/message"@),
    )
}

/// Reads the response to `operation`; gives back what is wrong with it, if anything is.
pub fn read_response(operation: &str, status: u16, status_text: &str, body: &str) -> (r: Option<
    String,
>)
    ensures
        r.deep_view() == failure_of_response(operation@, status, status_text@, body@),
{
    judge_response(
        operation,
        status,
        status_text,
        body,
        json_error_of(body),
        json_string_at(body, "/value/error"),
        json_string_at(body, "/value/message"),
    )
}

// Addresses

/// The arguments of a ChromeDriver that listens on `port`.
pub fn chromedriver_args(port: u16) -> (r: Vec<String>)
    ensures
        r.deep_view() == seq!["--port="@ + decimal(port as nat), "--allowed-ips=127.0.0.1"@],
{
    let mut out: Vec<String> = Vec::new();
    out.push(concat2("--port=", decimal_text(port as u64).as_str()));
    push_all(&mut out, &["--allowed-ips=127.0.0.1"]);
    assert(out.deep_view() =~= seq![
        "--port="@ + decimal(port as nat),
        "--allowed-ips=127.0.0.1"@,
    ]);
    out
}

/// Where a ChromeDriver on `port` is reached.
pub fn driver_url(port: u16) -> (r: String)
    ensures
        r@ == "http://127.0.0.1:"@ + decimal(port as nat),
{
    concat2("http://127.0.0.1:", decimal_text(port as u64).as_str())
}

/// Where the session `id` of the driver at `driver` is reached.
pub fn session_url(driver: &str, id: &str) -> (r: String)
    ensures
        r@ == driver@ + "/session/"@ + id@,
{
    concat3(driver, "/session/", id)
}

/// The arguments that Chrome always gets.
pub open spec fn fixed_chrome_args() -> Seq<Seq<char>> {
    seq![
        "--headless=new"@,
        "--no-sandbox"@,
        "--disable-dev-shm-usage"@,
        "--disable-blink-features=AutomationControlled"@,
        "--window-size=1280,1000"@,
        "--lang=en-US"@,
    ]
}

/// The arguments of Chrome: the fixed ones, then the words of `extra`.
pub fn chrome_args(extra: Option<&str>) -> (r: Vec<String>)
    ensures
        r.deep_view() == fixed_chrome_args() + match extra {
            Some(text) => words(text@),
            None => Seq::empty(),
        },
{
    let mut out = owned(
        &[
            "--headless=new",
            "--no-sandbox",
            "--disable-dev-shm-usage",
            "--disable-blink-features=AutomationControlled",
            "--window-size=1280,1000",
            "--lang=en-US",
        ],
    );
    assert(out.deep_view() =~= fixed_chrome_args());
    match extra {
        Some(text) => {
            let parts = split_words(text);
            let list = parts.as_slice();
            assert(list.deep_view() =~= parts.deep_view());
            push_all(&mut out, list);
        },
        None => {
            assert(out.deep_view() =~= fixed_chrome_args() + Seq::<Seq<char>>::empty());
        },
    }
    out
}

/// The session that a response opened: the one within its value, or beside it where the value
/// names none.
pub open spec fn session_in(
    named: bool,
    inner: Option<Seq<char>>,
    outer: Option<Seq<char>>,
) -> Option<Seq<char>> {
    if named {
        inner
    } else {
        outer
    }
}

/// Picks the session that a response opened, from whether its value names one and what the two
/// places hold.
pub fn pick_session(named: bool, inner: Option<String>, outer: Option<String>) -> (r: Result<
    String,
    String,
>)
    ensures
        match session_in(named, inner.deep_view(), outer.deep_view()) {
            Some(id) => r matches Ok(text) && text@ == id,
            None => r matches Err(text) && text@ == "ChromeDriver returned no session ID"@,
        },
{
    let found = if named {
        inner
    } else {
        outer
    };
    match found {
        Some(id) => Ok(id),
        None => Err("ChromeDriver returned no session ID".to_owned()),
    }
}

/// The session that the response `body` opened.
pub open spec fn session_of(body: Seq<char>) -> Option<Seq<char>> {
    session_in(
        json_present(body, "/value/sessionId"@),
        json_string(body, "/value/sessionId"@),
        json_string(body, "/sessionId"@),
    )
}

/// Reads the session that the response `body` opened.
pub fn session_id(body: &str) -> (r: Result<String, String>)
    ensures
        match session_of(body@) {
            Some(id) => r matches Ok(text) && text@ == id,
            None => r matches Err(text) && text@ == "ChromeDriver returned no session ID"@,
        },
{
    pick_session(
        json_has(body, "/value/sessionId"),
        json_string_at(body, "/value/sessionId"),
        json_string_at(body, "/sessionId"),
    )
}

// Laws of responses

/// A response is good just when its status is one of success, it is JSON, and it reports no error.
pub proof fn law_good_responses(
    operation: Seq<char>,
    status: u16,
    status_text: Seq<char>,
    body: Seq<char>,
)
    ensures
        failure_of_response(operation, status, status_text, body) is None <==> 200 <= status <= 299
            && json_error(body) is None && json_string(body, "/value/error"@) is None,
{
}

/// What is wrong with a response is told with the operation first and the cause last: the body
/// where the status is bad, what the parser says where the body is no JSON, and else the message
/// of the browser, or its error where it gives no message.
pub proof fn law_failures_name_their_cause(
    operation: Seq<char>,
    status: u16,
    status_text: Seq<char>,
    body: Seq<char>,
)
    ensures
        failure_of_response(operation, status, status_text, body) matches Some(text) ==> {
            let cause = if !(200 <= status <= 299) {
                body
            } else if json_error(body) is Some {
                json_error(body)->0
            } else if json_string(body, "/value/message"@) is Some {
                json_string(body, "/value/message"@)->0
            } else {
                json_string(body, "/value/error"@)->0
            };
            &&& has_prefix(text, "Browser "@ + operation)
            &&& has_suffix(text, cause)
            &&& !(200 <= status <= 299) ==> has_part(text, status_text)
        },
{
    let start = "Browser "@ + operation;
    let failure = failure_of_response(operation, status, status_text, body);
    if !is_success(status) {
        let middle = " returned HTTP "@ + status_text + ": "@;
        lemma_framed(start, middle, body);
        assert(start + middle + body =~= failure->0);
        let at = (start + " returned HTTP "@).len() as int;
        assert(failure->0.subrange(at, at + status_text.len()) =~= status_text);
        assert(occurs_at(failure->0, status_text, at));
    } else {
        if let Some(reason) = json_error(body) {
            lemma_framed(start, " returned invalid JSON: "@, reason);
        }
        if let Some(reason) = json_string(body, "/value/message"@) {
            lemma_framed(start, " failed: "@, reason);
        }
        if let Some(reason) = json_string(body, "/value/error"@) {
            lemma_framed(start, " failed: "@, reason);
        }
    }
}

proof fn lemma_framed(a: Seq<char>, b: Seq<char>, c: Seq<char>)
    ensures
        has_prefix(a + b + c, a),
        has_suffix(a + b + c, c),
{
    let all = a + b + c;
    assert(all.take(a.len() as int) =~= a);
    assert(all.skip(all.len() - c.len()) =~= c);
}

/// The session is the one that the value of a response names; only where it names none at all, the
/// one beside the value.
pub proof fn law_session_is_the_one_named(body: Seq<char>)
    ensures
        json_present(body, "/value/sessionId"@) ==> session_of(body) == json_string(
            body,
            "/value/sessionId"@,
        ),
        !json_present(body, "/value/sessionId"@) ==> session_of(body) == json_string(
            body,
            "/sessionId"@,
        ),
{
}

/// Chrome runs without a window, in English, at a fixed size, and does not say that it is driven.
pub proof fn law_chrome_runs_headless()
    ensures
        fixed_chrome_args() == seq![
            "--headless=new"@,
            "--no-sandbox"@,
            "--disable-dev-shm-usage"@,
            "--disable-blink-features=AutomationControlled"@,
            "--window-size=1280,1000"@,
            "--lang=en-US"@,
        ],
{
}

/// The functions of the conversation do what its laws speak of. The driver is reached at the port
/// that it was told to listen on, on this machine alone; a session is reached below its driver.
pub proof fn law_webdriver_functions(
    port: u16,
    arguments: Vec<String>,
    address: String,
    driver: &str,
    id: &str,
    session: String,
    operation: &str,
    error: &str,
    failure: String,
    unread: String,
    status: u16,
    status_text: &str,
    body: &str,
    judged: Option<String>,
    opened: Result<String, String>,
    extra: Option<&str>,
    chrome: Vec<String>,
)
    requires
        call_ensures(chromedriver_args, (port,), arguments),
        call_ensures(driver_url, (port,), address),
        call_ensures(session_url, (driver, id), session),
        call_ensures(request_failure, (operation, error), failure),
        call_ensures(body_failure, (operation, error), unread),
        call_ensures(read_response, (operation, status, status_text, body), judged),
        call_ensures(session_id, (body,), opened),
        call_ensures(chrome_args, (extra,), chrome),
    ensures
        arguments.deep_view() == seq![
            "--port="@ + decimal(port as nat),
            "--allowed-ips=127.0.0.1"@,
        ],
        address@ == "http://127.0.0.1:"@ + decimal(port as nat),
        session@ == driver@ + "/session/"@ + id@,
        failure@ == "Browser "@ + operation@ + " failed: "@ + error@,
        unread@ == "Cannot read browser "@ + operation@ + " response: "@ + error@,
        judged is None <==> 200 <= status <= 299 && json_error(body@) is None && json_string(
            body@,
            "/value/error"@,
        ) is None,
        judged.deep_view() == failure_of_response(operation@, status, status_text@, body@),
        opened matches Ok(text) ==> Some(text@) == if json_present(body@, "/value/sessionId"@) {
            json_string(body@, "/value/sessionId"@)
        } else {
            json_string(body@, "/sessionId"@)
        },
        opened matches Err(text) ==> text@ == "ChromeDriver returned no session ID"@ && (
        json_present(body@, "/value/sessionId"@) && json_string(body@, "/value/sessionId"@) is None
            || !json_present(body@, "/value/sessionId"@) && json_string(body@, "/sessionId"@)
            is None),
        chrome.deep_view().take(6) == fixed_chrome_args(),
        chrome.deep_view().skip(6) == match extra {
            Some(text) => words(text@),
            None => Seq::empty(),
        },
{
    law_good_responses(operation@, status, status_text@, body@);
    law_session_is_the_one_named(body@);
    assert(chrome.deep_view().take(6) =~= fixed_chrome_args());
    assert(chrome.deep_view().skip(6) =~= match extra {
        Some(text) => words(text@),
        None => Seq::empty(),
    });
}

/// What is wrong with a response is told in these words.
pub proof fn law_response_failures_have_their_words(
    operation: Seq<char>,
    status: u16,
    status_text: Seq<char>,
    body: Seq<char>,
)
    ensures
        failure_of_response(operation, status, status_text, body) matches Some(text) ==> text
            == "Browser "@ + operation + if !(200 <= status <= 299) {
            " returned HTTP "@ + status_text + ": "@ + body
        } else if json_error(body) is Some {
            " returned invalid JSON: "@ + json_error(body)->0
        } else if json_string(body, "/value/message"@) is Some {
            " failed: "@ + json_string(body, "/value/message"@)->0
        } else {
            " failed: "@ + json_string(body, "/value/error"@)->0
        },
{
    if let Some(text) = failure_of_response(operation, status, status_text, body) {
        assert(text =~= "Browser "@ + operation + if !(200 <= status <= 299) {
            " returned HTTP "@ + status_text + ": "@ + body
        } else if json_error(body) is Some {
            " returned invalid JSON: "@ + json_error(body)->0
        } else if json_string(body, "/value/message"@) is Some {
            " failed: "@ + json_string(body, "/value/message"@)->0
        } else {
            " failed: "@ + json_string(body, "/value/error"@)->0
        });
    }
}

}
