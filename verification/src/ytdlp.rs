//! Running `yt-dlp`: its arguments, what it prints, and how it ends.
use vstd::prelude::*;

use crate::cookies::{cookie_args, cookie_list};
use crate::link::{group, group_text};
use crate::outside::{captures, lossy_text, regex_captures, utf8_lossy};
use crate::text::{
    append_all, concat2, contains, has_part, is_trimmed, is_white_space, law_trim_takes_the_ends,
    law_trimmed_exists, owned, push_all, same_text, trim, trimmed,
};

verus! {

// Arguments

/// The arguments that download `url` into the file `output`.
pub open spec fn download_list(
    format: Seq<Seq<char>>,
    metadata: Seq<Seq<char>>,
    output: Seq<char>,
    url: Seq<char>,
) -> Seq<Seq<char>> {
    format + metadata + seq![
        "--newline"@,
        "--js-runtimes"@,
        "node"@,
        "--remote-components"@,
        "ejs:github"@,
        "-o"@,
        output,
        url,
    ]
}

/// The arguments that download `url` into the file `output`, with those that choose the format
/// and embed metadata first.
pub fn download_args(format: &[&str], metadata: &[&str], output: &str, url: &str) -> (r: Vec<
    String,
>)
    ensures
        r.deep_view() == download_list(format.deep_view(), metadata.deep_view(), output@, url@),
{
    let mut out = owned(format);
    push_all(&mut out, metadata);
    push_all(
        &mut out,
        &[
            "--newline",
            "--js-runtimes",
            "node",
            "--remote-components",
            "ejs:github",
            "-o",
            output,
            url,
        ],
    );
    assert(out.deep_view() =~= download_list(
        format.deep_view(),
        metadata.deep_view(),
        output@,
        url@,
    ));
    out
}

/// All arguments of a download: those that download `url` into `output`, and then those that
/// give cookies, which a post on X gets none of.
pub fn download_command(
    format: &[&str],
    metadata: &[&str],
    output: &str,
    url: &str,
    cookie_file: Option<&str>,
    brave_found: bool,
) -> (r: Vec<String>)
    ensures
        r.deep_view() == download_list(format.deep_view(), metadata.deep_view(), output@, url@)
            + cookie_list(url@, cookie_file.deep_view(), brave_found),
{
    let mut out = download_args(format, metadata, output, url);
    append_all(&mut out, cookie_args(url, cookie_file, brave_found));
    out
}

/// The arguments that print the metadata field of `url`.
pub open spec fn metadata_list(url: Seq<char>, field: Seq<char>) -> Seq<Seq<char>> {
    seq![
        "--print"@,
        field,
        "--no-download"@,
        "--js-runtimes"@,
        "node"@,
        "--remote-components"@,
        "ejs:github"@,
        url,
    ]
}

/// The arguments that print the metadata field of `url`.
pub fn metadata_args(url: &str, field: &str) -> (r: Vec<String>)
    ensures
        r.deep_view() == metadata_list(url@, field@),
{
    let out = owned(
        &[
            "--print",
            field,
            "--no-download",
            "--js-runtimes",
            "node",
            "--remote-components",
            "ejs:github",
            url,
        ],
    );
    assert(out.deep_view() =~= metadata_list(url@, field@));
    out
}

/// All arguments that print the metadata field of `url`, those that give cookies last; a post on
/// X gets none of these.
pub fn metadata_command(
    url: &str,
    field: &str,
    cookie_file: Option<&str>,
    brave_found: bool,
) -> (r: Vec<String>)
    ensures
        r.deep_view() == metadata_list(url@, field@) + cookie_list(
            url@,
            cookie_file.deep_view(),
            brave_found,
        ),
{
    let mut out = metadata_args(url, field);
    append_all(&mut out, cookie_args(url, cookie_file, brave_found));
    out
}

// Metadata

/// A text without white space at its ends, where anything is left.
pub open spec fn filled(text: Seq<char>) -> Option<Seq<char>> {
    if trimmed(text).len() == 0 {
        None
    } else {
        Some(trimmed(text))
    }
}

/// The text without white space at its ends, where anything is left.
pub fn filled_text(text: &str) -> (r: Option<String>)
    ensures
        r.deep_view() == filled(text@),
{
    let core = trim(text);
    if core.is_empty() {
        None
    } else {
        Some(core.to_owned())
    }
}

/// The metadata field that was printed, where there is one.
pub fn metadata_value(printed: &[u8]) -> (r: Option<String>)
    ensures
        r.deep_view() == filled(utf8_lossy(printed@)),
{
    filled_text(lossy_text(printed).as_str())
}

// The end of a run

/// How a run ended.
#[derive(Debug)]
pub enum RunOutcome {
    /// The program could not be started.
    NotStarted(String),
    /// It was lost track of.
    Lost(String),
    /// It ended, with success or without.
    Exited(bool),
}

/// What came of a download, from how the run ended.
pub fn download_result(outcome: RunOutcome) -> (r: Result<(), String>)
    ensures
        match outcome {
            RunOutcome::NotStarted(error) => r matches Err(text) && text@ == "Failed to run yt-dlp: "@
                + error@,
            RunOutcome::Lost(error) => r matches Err(text) && text@ == "yt-dlp error: "@ + error@,
            RunOutcome::Exited(success) => if success {
                r is Ok
            } else {
                r matches Err(text) && text@ == "yt-dlp exited with an error"@
            },
        },
{
    match outcome {
        RunOutcome::NotStarted(error) => Err(concat2("Failed to run yt-dlp: ", error.as_str())),
        RunOutcome::Lost(error) => Err(concat2("yt-dlp error: ", error.as_str())),
        RunOutcome::Exited(success) => {
            if success {
                Ok(())
            } else {
                Err("yt-dlp exited with an error".to_owned())
            }
        },
    }
}

// Progress

/// A line that tells how far the download is, with that as group 1.
pub const PROGRESS_RE: &'static str = r"\[download\]\s+(\d+\.?\d*%\s+.*)";

/// A line that tells of a conversion, with what it says as group 1.
pub const CONVERSION_RE: &'static str = r"\[(?:ExtractAudio|ffmpeg)\]\s+(.+)$";

/// How long the user is left alone between two updates, in nanoseconds.
pub const UPDATE_INTERVAL: u64 = 3 * 1_000_000_000;

/// What the user was told of a download, and when, in nanoseconds on a clock that does not run
/// backwards.
#[derive(Debug)]
pub struct DownloadProgress {
    /// What the last update said.
    pub last_text: String,
    /// When the last update was made.
    pub last_update: u64,
    /// Whether the user was told that audio is extracted.
    pub extract_notified: bool,
}

/// Whether an update is due at `now`.
pub open spec fn is_due(progress: DownloadProgress, now: u64) -> bool {
    now >= progress.last_update && now - progress.last_update >= UPDATE_INTERVAL
}

/// Whether `line` says that audio is extracted.
pub open spec fn tells_extraction(line: Seq<char>) -> bool {
    has_part(line, "[ExtractAudio]"@)
}

/// Whether `shown` is what the user is told of `line`, which tells of progress or of a
/// conversion or of neither, and `after` what is known then.
pub open spec fn reports(
    before: DownloadProgress,
    line: Seq<char>,
    progress: Option<Seq<char>>,
    conversion: Option<Seq<char>>,
    now: u64,
    shown: Option<Seq<char>>,
    after: DownloadProgress,
) -> bool {
    &&& after.last_update == before.last_update
    &&& match (progress, conversion) {
        (Some(text), _) => {
            &&& after.extract_notified == before.extract_notified
            &&& if is_due(before, now) && text != before.last_text@ {
                shown == Some("Downloading...\n"@ + text) && after.last_text@ == text
            } else {
                shown is None && after.last_text == before.last_text
            }
        },
        (None, Some(text)) => if tells_extraction(line) && !before.extract_notified {
            shown == Some("Extracting audio..."@) && after.last_text@ == text
                && after.extract_notified
        } else {
            &&& after.extract_notified == before.extract_notified
            &&& if is_due(before, now) && text != before.last_text@ {
                shown == Some("Converting...\n"@ + text) && after.last_text@ == text
            } else {
                shown is None && after.last_text == before.last_text
            }
        },
        (None, None) => shown is None && after == before,
    }
}

/// Whether `shown` is what the user is told of an error `line`, and `after` what is known then:
/// once, that audio is extracted.
pub open spec fn reports_error(
    before: DownloadProgress,
    line: Seq<char>,
    shown: Option<Seq<char>>,
    after: DownloadProgress,
) -> bool {
    &&& after == (DownloadProgress {
        extract_notified: before.extract_notified || tells_extraction(line),
        ..before
    })
    &&& shown == if tells_extraction(line) && !before.extract_notified {
        Some("Extracting audio..."@)
    } else {
        None
    }
}

impl DownloadProgress {
    /// A download that begins at `now`.
    pub fn new(now: u64) -> (r: DownloadProgress)
        ensures
            r.last_text@ == Seq::<char>::empty(),
            r.last_update == now,
            !r.extract_notified,
    {
        DownloadProgress { last_text: String::new(), last_update: now, extract_notified: false }
    }

    /// Decides what the user is told of a line, from what it tells of progress or of a conversion.
    pub fn report(
        &mut self,
        line: &str,
        progress: Option<&str>,
        conversion: Option<&str>,
        now: u64,
    ) -> (r: Option<String>)
        ensures
            reports(
                *old(self),
                line@,
                progress.deep_view(),
                conversion.deep_view(),
                now,
                r.deep_view(),
                *final(self),
            ),
    {
        let due = now >= self.last_update && now - self.last_update >= UPDATE_INTERVAL;
        match progress {
            Some(text) => {
                if due && !same_text(text, self.last_text.as_str()) {
                    self.last_text = text.to_owned();
                    return Some(concat2("Downloading...\n", text));
                }
                return None;
            },
            None => {},
        }
        match conversion {
            Some(text) => {
                if contains(line, "[ExtractAudio]") && !self.extract_notified {
                    self.extract_notified = true;
                    self.last_text = text.to_owned();
                    return Some("Extracting audio...".to_owned());
                }
                if due && !same_text(text, self.last_text.as_str()) {
                    self.last_text = text.to_owned();
                    return Some(concat2("Converting...\n", text));
                }
                None
            },
            None => None,
        }
    }

    /// Decides what the user is told of a line that was printed.
    pub fn line_printed(&mut self, line: &str, now: u64) -> (r: Option<String>)
        ensures
            reports(
                *old(self),
                line@,
                group_text(regex_captures(PROGRESS_RE@, line@), 1),
                group_text(regex_captures(CONVERSION_RE@, line@), 1),
                now,
                r.deep_view(),
                *final(self),
            ),
    {
        let progress = group(&captures(PROGRESS_RE, line), 1);
        let conversion = group(&captures(CONVERSION_RE, line), 1);
        self.report(line, progress, conversion, now)
    }

    /// Decides what the user is told of a line that was printed as an error: once, that audio is
    /// extracted.
    pub fn error_printed(&mut self, line: &str) -> (r: Option<&'static str>)
        ensures
            reports_error(*old(self), line@, r.deep_view(), *final(self)),
    {
        if contains(line, "[ExtractAudio]") && !self.extract_notified {
            self.extract_notified = true;
            return Some("Extracting audio...");
        }
        None
    }

    /// Notes that an update was made at `now`.
    pub fn updated(&mut self, now: u64)
        ensures
            *final(self) == (DownloadProgress { last_update: now, ..*old(self) }),
    {
        self.last_update = now;
    }
}

/// That audio is extracted is told once: never again after the first time.
pub proof fn law_extraction_is_told_once(
    before: DownloadProgress,
    line: Seq<char>,
    progress: Option<Seq<char>>,
    conversion: Option<Seq<char>>,
    now: u64,
    shown: Option<Seq<char>>,
    after: DownloadProgress,
)
    requires
        reports(before, line, progress, conversion, now, shown, after),
    ensures
        before.extract_notified ==> after.extract_notified && shown != Some(
            "Extracting audio..."@,
        ),
        shown == Some("Extracting audio..."@) ==> !before.extract_notified
            && after.extract_notified,
{
    reveal_strlit("Extracting audio...");
    reveal_strlit("Downloading...\n");
    reveal_strlit("Converting...\n");
    if let Some(text) = progress {
        assert(("Downloading...\n"@ + text)[0] == 'D');
    }
    if let Some(text) = conversion {
        assert(("Converting...\n"@ + text)[0] == 'C');
    }
    assert("Extracting audio..."@[0] == 'E');
}

/// What was told of a line is not told again of the same line, at whatever time, as long as
/// nothing else was told in between.
pub proof fn law_nothing_is_repeated(
    first: DownloadProgress,
    line: Seq<char>,
    progress: Option<Seq<char>>,
    conversion: Option<Seq<char>>,
    now: u64,
    told: Option<Seq<char>>,
    second: DownloadProgress,
    later: DownloadProgress,
    later_now: u64,
    shown: Option<Seq<char>>,
    last: DownloadProgress,
)
    requires
        reports(first, line, progress, conversion, now, told, second),
        told is Some,
        later.last_text == second.last_text,
        second.extract_notified ==> later.extract_notified,
        reports(later, line, progress, conversion, later_now, shown, last),
    ensures
        shown is None,
{
}

/// But for the word that audio is extracted, an update comes only when the last one is old
/// enough.
pub proof fn law_updates_keep_their_distance(
    before: DownloadProgress,
    line: Seq<char>,
    progress: Option<Seq<char>>,
    conversion: Option<Seq<char>>,
    now: u64,
    shown: Option<Seq<char>>,
    after: DownloadProgress,
)
    requires
        reports(before, line, progress, conversion, now, shown, after),
        shown is Some,
        shown != Some("Extracting audio..."@),
    ensures
        is_due(before, now),
{
}

// Whole runs

/// What happens while a download runs.
pub enum ProgressEvent {
    /// A line is printed, which tells of progress or of a conversion or of neither, and of which
    /// the user is told what is shown.
    Line {
        line: Seq<char>,
        progress: Option<Seq<char>>,
        conversion: Option<Seq<char>>,
        now: u64,
        shown: Option<Seq<char>>,
    },
    /// A line is printed as an error, of which the user is told what is shown.
    ErrorLine { line: Seq<char>, shown: Option<Seq<char>> },
    /// An update is noted as made.
    Update { now: u64 },
}

/// Whether `after` follows `before` when `event` happens.
pub open spec fn progress_advances(
    before: DownloadProgress,
    event: ProgressEvent,
    after: DownloadProgress,
) -> bool {
    match event {
        ProgressEvent::Line { line, progress, conversion, now, shown } => reports(
            before,
            line,
            progress,
            conversion,
            now,
            shown,
            after,
        ),
        ProgressEvent::ErrorLine { line, shown } => reports_error(before, line, shown, after),
        ProgressEvent::Update { now } => after == (DownloadProgress { last_update: now, ..before }),
    }
}

/// What the user is told at an event.
pub open spec fn told_at(event: ProgressEvent) -> Option<Seq<char>> {
    match event {
        ProgressEvent::Line { shown, .. } => shown,
        ProgressEvent::ErrorLine { shown, .. } => shown,
        ProgressEvent::Update { .. } => None,
    }
}

/// When an event happens, where that matters.
pub open spec fn time_of(event: ProgressEvent) -> Option<u64> {
    match event {
        ProgressEvent::Line { now, .. } => Some(now),
        ProgressEvent::ErrorLine { .. } => None,
        ProgressEvent::Update { now } => Some(now),
    }
}

/// Whether the user is told of progress or of a conversion at an event.
pub open spec fn is_update(event: ProgressEvent) -> bool {
    event is Line && told_at(event) is Some && told_at(event) != Some("Extracting audio..."@)
}

/// Whether `states` is the course of a download that began at `start`, with these events. The
/// clock does not run backwards, and what the user is told of a line is noted as an update before
/// the next line is printed.
pub open spec fn is_progress_run(
    states: Seq<DownloadProgress>,
    events: Seq<ProgressEvent>,
    start: u64,
) -> bool {
    &&& states.len() == events.len() + 1
    &&& states[0].last_update == start
    &&& !states[0].extract_notified
    &&& forall|i: int|
        #![trigger events[i]]
        0 <= i < events.len() ==> progress_advances(states[i], events[i], states[i + 1])
    &&& forall|i: int|
        #![trigger events[i]]
        0 <= i < events.len() && time_of(events[i]) is Some ==> start <= time_of(events[i])->0
    &&& forall|i: int, j: int|
        #![trigger events[i], events[j]]
        0 <= i < j < events.len() && time_of(events[i]) is Some && time_of(events[j]) is Some
            ==> time_of(events[i])->0 <= time_of(events[j])->0
    &&& forall|i: int, j: int|
        #![trigger events[i], events[j]]
        0 <= i < j < events.len() && events[i] is Line && told_at(events[i]) is Some && events[j]
            is Line ==> exists|k: int| i < k < j && (#[trigger] events[k]) is Update
}

proof fn lemma_told_stays_told(
    states: Seq<DownloadProgress>,
    events: Seq<ProgressEvent>,
    start: u64,
    from: int,
    to: int,
)
    requires
        is_progress_run(states, events, start),
        0 <= from <= to < states.len(),
        states[from].extract_notified,
    ensures
        states[to].extract_notified,
    decreases to - from,
{
    if from < to {
        lemma_told_stays_told(states, events, start, from, to - 1);
        assert(progress_advances(states[to - 1], events[to - 1], states[to]));
    }
}

proof fn lemma_extraction_is_noted(
    before: DownloadProgress,
    event: ProgressEvent,
    after: DownloadProgress,
)
    requires
        progress_advances(before, event, after),
        told_at(event) == Some("Extracting audio..."@),
    ensures
        !before.extract_notified,
        after.extract_notified,
{
    if let ProgressEvent::Line { line, progress, conversion, now, shown } = event {
        law_extraction_is_told_once(before, line, progress, conversion, now, shown, after);
    }
}

/// In the whole course of a download, the user is told once at most that audio is extracted.
pub proof fn law_run_tells_extraction_once(
    states: Seq<DownloadProgress>,
    events: Seq<ProgressEvent>,
    start: u64,
    i: int,
    j: int,
)
    requires
        is_progress_run(states, events, start),
        0 <= i < events.len(),
        0 <= j < events.len(),
        told_at(events[i]) == Some("Extracting audio..."@),
        told_at(events[j]) == Some("Extracting audio..."@),
    ensures
        i == j,
{
    lemma_extraction_is_noted(states[i], events[i], states[i + 1]);
    lemma_extraction_is_noted(states[j], events[j], states[j + 1]);
    if i < j {
        lemma_told_stays_told(states, events, start, i + 1, j);
    }
    if j < i {
        lemma_told_stays_told(states, events, start, j + 1, i);
    }
}

proof fn lemma_last_update_is_late(
    states: Seq<DownloadProgress>,
    events: Seq<ProgressEvent>,
    start: u64,
    at: int,
)
    requires
        is_progress_run(states, events, start),
        0 <= at < states.len(),
    ensures
        states[at].last_update >= start,
        forall|k: int|
            0 <= k < at && (#[trigger] events[k]) is Update ==> states[at].last_update
                >= events[k]->Update_now,
    decreases at,
{
    if at > 0 {
        lemma_last_update_is_late(states, events, start, at - 1);
        let last = events[at - 1];
        assert(progress_advances(states[at - 1], last, states[at]));
        assert(time_of(last) is Some ==> start <= time_of(last)->0);
        assert forall|k: int| 0 <= k < at && (#[trigger] events[k]) is Update implies states[at].last_update
            >= events[k]->Update_now by {
            if k < at - 1 && last is Update {
                assert(time_of(events[k])->0 <= time_of(events[at - 1])->0);
            }
        }
    }
}

/// In the whole course of a download, an update on progress or on a conversion comes no sooner
/// than the interval after the start, and after whatever the user was told of a line before.
pub proof fn law_run_keeps_its_distance(
    states: Seq<DownloadProgress>,
    events: Seq<ProgressEvent>,
    start: u64,
    j: int,
)
    requires
        is_progress_run(states, events, start),
        0 <= j < events.len(),
        is_update(events[j]),
    ensures
        events[j]->Line_now >= start + UPDATE_INTERVAL,
        forall|i: int|
            0 <= i < j && (#[trigger] events[i]) is Line && told_at(events[i]) is Some
                ==> events[j]->Line_now >= events[i]->Line_now + UPDATE_INTERVAL,
{
    assert(progress_advances(states[j], events[j], states[j + 1]));
    if let ProgressEvent::Line { line, progress, conversion, now, shown } = events[j] {
        law_updates_keep_their_distance(
            states[j],
            line,
            progress,
            conversion,
            now,
            shown,
            states[j + 1],
        );
    }
    lemma_last_update_is_late(states, events, start, j);
    assert forall|i: int|
        0 <= i < j && (#[trigger] events[i]) is Line && told_at(events[i]) is Some implies
        events[j]->Line_now >= events[i]->Line_now + UPDATE_INTERVAL by {
        let k = choose|k: int| i < k < j && (#[trigger] events[k]) is Update;
        assert(time_of(events[i])->0 <= time_of(events[k])->0);
    }
}

// Laws of what is shown and asked

/// What a line tells is shown: the first word of extraction at once, and progress or a conversion
/// when three seconds have passed since the last update and the text is not the one shown last.
/// Else nothing is shown.
pub proof fn law_news_are_shown_when_due(
    before: DownloadProgress,
    line: Seq<char>,
    progress: Option<Seq<char>>,
    conversion: Option<Seq<char>>,
    now: u64,
    shown: Option<Seq<char>>,
    after: DownloadProgress,
)
    requires
        reports(before, line, progress, conversion, now, shown, after),
    ensures
        ({
            let due = now >= before.last_update + 3_000_000_000;
            let notice = progress is None && conversion is Some && has_part(
                line,
                "[ExtractAudio]"@,
            ) && !before.extract_notified;
            &&& notice ==> shown == Some("Extracting audio..."@)
            &&& !notice && progress is Some && due && progress->0 != before.last_text@ ==> shown
                == Some("Downloading...\n"@ + progress->0) && after.last_text@ == progress->0
            &&& !notice && progress is None && conversion is Some && due && conversion->0
                != before.last_text@ ==> shown == Some("Converting...\n"@ + conversion->0)
                && after.last_text@ == conversion->0
            &&& !notice && !due ==> shown is None
            &&& progress is None && conversion is None ==> shown is None
            &&& shown is None ==> after == before
        }),
{
}

/// An error line shows the word of extraction where it speaks of it and the user does not know yet,
/// and else nothing; it changes nothing about other updates.
pub proof fn law_error_lines_show_extraction_only(
    before: DownloadProgress,
    line: Seq<char>,
    shown: Option<Seq<char>>,
    after: DownloadProgress,
)
    requires
        reports_error(before, line, shown, after),
    ensures
        shown is Some <==> has_part(line, "[ExtractAudio]"@) && !before.extract_notified,
        shown is Some ==> shown == Some("Extracting audio..."@),
        after.last_update == before.last_update && after.last_text == before.last_text,
        after.extract_notified <==> before.extract_notified || shown is Some,
{
}

/// A download asks for its format first, then for its metadata, then for the file and the link,
/// which come last and in this order, and for progress line by line.
pub proof fn law_download_asks_for_its_link(
    format: Seq<Seq<char>>,
    metadata: Seq<Seq<char>>,
    output: Seq<char>,
    url: Seq<char>,
)
    ensures
        ({
            let list = download_list(format, metadata, output, url);
            let n = list.len() as int;
            &&& n == format.len() + metadata.len() + 8
            &&& list.take(format.len() as int) == format
            &&& list.subrange(format.len() as int, (format.len() + metadata.len()) as int)
                == metadata
            &&& list[n - 1] == url
            &&& list[n - 2] == output
            &&& list[n - 3] == "-o"@
            &&& list.subrange(n - 8, n - 3) == seq![
                "--newline"@,
                "--js-runtimes"@,
                "node"@,
                "--remote-components"@,
                "ejs:github"@,
            ]
        }),
{
    let list = download_list(format, metadata, output, url);
    let n = list.len() as int;
    assert(list.take(format.len() as int) =~= format);
    assert(list.subrange(format.len() as int, (format.len() + metadata.len()) as int) =~= metadata);
    assert(list.subrange(n - 8, n - 3) =~= seq![
        "--newline"@,
        "--js-runtimes"@,
        "node"@,
        "--remote-components"@,
        "ejs:github"@,
    ]);
}

/// A field is asked for by its name, without a download, and of the link that comes last.
pub proof fn law_metadata_is_only_printed(url: Seq<char>, field: Seq<char>)
    ensures
        ({
            let list = metadata_list(url, field);
            &&& list.len() == 8
            &&& list[0] == "--print"@
            &&& list[1] == field
            &&& list[2] == "--no-download"@
            &&& list.subrange(3, 7) == seq![
                "--js-runtimes"@,
                "node"@,
                "--remote-components"@,
                "ejs:github"@,
            ]
            &&& list[7] == url
        }),
{
    assert(metadata_list(url, field).subrange(3, 7) =~= seq![
        "--js-runtimes"@,
        "node"@,
        "--remote-components"@,
        "ejs:github"@,
    ]);
}

/// A field has the text that was printed, without the white space around it; there is none just
/// when nothing but white space was printed.
pub proof fn law_field_is_what_was_printed(left: Seq<char>, core: Seq<char>, right: Seq<char>)
    requires
        forall|i: int| 0 <= i < left.len() ==> is_white_space(#[trigger] left[i]),
        forall|i: int| 0 <= i < right.len() ==> is_white_space(#[trigger] right[i]),
        core.len() > 0 ==> !is_white_space(core[0]) && !is_white_space(core.last()),
    ensures
        filled(left + core + right) == if core.len() == 0 {
            None
        } else {
            Some(core)
        },
{
    law_trim_takes_the_ends(left, core, right);
}

/// What the expressions for printed lines take: the percentage with all that follows it, and all
/// that is said of a conversion.
pub proof fn law_lines_are_taken_whole()
    ensures
        PROGRESS_RE@ == r"\[download\]"@ + r"\s+"@ + r"(\d+\.?\d*%"@ + r"\s+"@ + ".*)"@,
        CONVERSION_RE@ == r"\[(?:ExtractAudio|ffmpeg)\]"@ + r"\s+"@ + "(.+)$"@,
{
    reveal_strlit(r"\[download\]");
    reveal_strlit(r"\s+");
    reveal_strlit(r"(\d+\.?\d*%");
    reveal_strlit(".*)");
    reveal_strlit(r"\[(?:ExtractAudio|ffmpeg)\]");
    reveal_strlit("(.+)$");
    reveal_strlit(r"\[download\]\s+(\d+\.?\d*%\s+.*)");
    reveal_strlit(r"\[(?:ExtractAudio|ffmpeg)\]\s+(.+)$");
}

/// The functions around a download do what the laws speak of. What gives cookies comes behind all
/// other arguments; a download succeeds just when its program does.
pub proof fn law_ytdlp_functions(
    format: &[&str],
    metadata: &[&str],
    output: &str,
    url: &str,
    field: &str,
    file: Option<&str>,
    brave_found: bool,
    command: Vec<String>,
    question: Vec<String>,
    printed: &[u8],
    value: Option<String>,
    outcome: RunOutcome,
    result: Result<(), String>,
    now: u64,
    start: DownloadProgress,
)
    requires
        call_ensures(download_command, (format, metadata, output, url, file, brave_found), command),
        call_ensures(metadata_command, (url, field, file, brave_found), question),
        call_ensures(metadata_value, (printed,), value),
        call_ensures(download_result, (outcome,), result),
        call_ensures(DownloadProgress::new, (now,), start),
    ensures
        command.deep_view() == download_list(format.deep_view(), metadata.deep_view(), output@, url@)
            + cookie_list(url@, file.deep_view(), brave_found),
        question.deep_view() == metadata_list(url@, field@) + cookie_list(
            url@,
            file.deep_view(),
            brave_found,
        ),
        value matches Some(text) ==> text@.len() > 0 && is_trimmed(utf8_lossy(printed@), text@),
        value is None ==> is_trimmed(utf8_lossy(printed@), Seq::empty()),
        result is Ok <==> outcome == RunOutcome::Exited(true),
        outcome matches RunOutcome::NotStarted(error) ==> (result matches Err(text) && text@
            == "Failed to run yt-dlp: "@ + error@),
        outcome matches RunOutcome::Lost(error) ==> (result matches Err(text) && text@
            == "yt-dlp error: "@ + error@),
        outcome == RunOutcome::Exited(false) ==> (result matches Err(text) && text@
            == "yt-dlp exited with an error"@),
        start.last_text@.len() == 0 && start.last_update == now && !start.extract_notified,
{
    let text = utf8_lossy(printed@);
    law_trimmed_exists(text);
    if value is None {
        assert(trimmed(text) =~= Seq::empty());
    } else {
        assert(value.deep_view() == Some(value->0@));
    }
}

/// A line that was printed is read by its expressions: what it says of progress is shown before what
/// it says of a conversion, each when it is due and new, and the word of extraction at once.
pub proof fn law_printed_lines_are_read(
    state: &mut DownloadProgress,
    line: &str,
    now: u64,
    shown: Option<String>,
)
    requires
        call_ensures(DownloadProgress::line_printed, (state, line, now), shown),
    ensures
        ({
            let due = now >= old(state).last_update + 3_000_000_000;
            let progress = group_text(regex_captures(PROGRESS_RE@, line@), 1);
            let conversion = group_text(regex_captures(CONVERSION_RE@, line@), 1);
            let notice = progress is None && conversion is Some && has_part(
                line@,
                "[ExtractAudio]"@,
            ) && !old(state).extract_notified;
            &&& final(state).last_update == old(state).last_update
            &&& notice ==> (shown matches Some(text) && text@ == "Extracting audio..."@)
                && final(state).extract_notified
            &&& !notice && progress is Some && due && progress->0 != old(state).last_text@ ==> (
            shown matches Some(text) && text@ == "Downloading...\n"@ + progress->0)
            &&& !notice && progress is None && conversion is Some && due && conversion->0
                != old(state).last_text@ ==> (shown matches Some(text) && text@
                == "Converting...\n"@ + conversion->0)
            &&& shown is Some ==> notice || due && (progress is Some && progress->0
                != old(state).last_text@ || progress is None && conversion is Some && conversion->0
                != old(state).last_text@)
        }),
{
    if shown is Some {
        assert(shown.deep_view() == Some(shown->0@));
    }
}

/// A line that was printed as an error gives the word of extraction, once, and nothing else; an
/// update that was made is noted with its time, and nothing else.
pub proof fn law_errors_and_updates_are_noted(
    state: &mut DownloadProgress,
    line: &str,
    shown: Option<&'static str>,
    other: &mut DownloadProgress,
    now: u64,
)
    requires
        call_ensures(DownloadProgress::error_printed, (state, line), shown),
        call_ensures(DownloadProgress::updated, (other, now), ()),
    ensures
        shown is Some <==> has_part(line@, "[ExtractAudio]"@) && !old(state).extract_notified,
        shown matches Some(text) ==> text@ == "Extracting audio..."@,
        final(state).extract_notified <==> old(state).extract_notified || shown is Some,
        final(state).last_text == old(state).last_text,
        final(state).last_update == old(state).last_update,
        final(other).last_update == now,
        final(other).last_text == old(other).last_text,
        final(other).extract_notified == old(other).extract_notified,
{
    if shown is Some {
        assert(shown.deep_view() == Some(shown->0@));
    }
}

}
