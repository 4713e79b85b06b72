//! What the bot does with messages and pressed buttons.
use vstd::prelude::*;
use vstd::string::StringExecFns;

use crate::kind::{law_kinds_are_consistent, named_for_youtube, DownloadKind};
use crate::link::{contains_http_link, find_download_link, link_in, DownloadLink, HTTP_LINK_RE};
use crate::menu::{
    callback_choice, choice_tags, fresh_menus, law_choices_go_by_their_tag,
    law_menu_buttons_are_choices, law_menu_lasts_half_an_hour, menu_rows,
    parse_youtube_download_callback, take_download_url, taken_url, DownloadMenus,
    DOWNLOAD_MENU_TTL,
};
use crate::outside::regex_is_match;
use crate::text::{
    concat2, concat5, decimal, decimal_text, law_decimal_is_digits, law_pieces_come_apart, pieces,
};

verus! {

// Plans

/// What is to be done about a message.
#[derive(Clone, Copy, Debug)]
pub enum MessagePlan<'a> {
    /// Nothing.
    Ignore,
    /// Answer with the text.
    Answer { text: &'static str },
    /// Offer the link in several qualities.
    Offer { url: &'a str },
    /// Download the link.
    Download { kind: DownloadKind, url: &'a str },
}

/// What is said of a link that leads to no media.
pub const UNSUPPORTED_LINK: &'static str =
    "Unsupported link. Supported: Instagram profiles or Reels, X videos, and YouTube videos or Shorts.";

/// Whether `plan` is right for a message with this link to media, or with `any_link` or none at
/// all.
pub open spec fn is_plan_for(
    plan: MessagePlan<'_>,
    link: Option<(DownloadKind, Seq<char>)>,
    any_link: bool,
) -> bool {
    match link {
        Some((kind, url)) => if kind.on_youtube() {
            plan matches MessagePlan::Offer { url: offered } && offered@ == url
        } else {
            plan matches MessagePlan::Download { kind: k, url: u } && k == kind && u@ == url
        },
        None => if any_link {
            plan matches MessagePlan::Answer { text } && text@ == UNSUPPORTED_LINK@
        } else {
            plan is Ignore
        },
    }
}

/// Decides about a message with this link to media, or with `any_link` or none at all.
pub fn plan_link<'a>(link: Option<DownloadLink<'a>>, any_link: bool) -> (r: MessagePlan<'a>)
    ensures
        is_plan_for(r, link.deep_view(), any_link),
{
    match link {
        Some(link) => {
            if link.kind.is_youtube() {
                MessagePlan::Offer { url: link.url }
            } else {
                MessagePlan::Download { kind: link.kind, url: link.url }
            }
        },
        None => {
            if any_link {
                MessagePlan::Answer { text: UNSUPPORTED_LINK }
            } else {
                MessagePlan::Ignore
            }
        },
    }
}

/// Decides about a message. One without text is ignored.
pub fn plan_message<'a>(text: Option<&'a str>) -> (r: MessagePlan<'a>)
    ensures
        match text {
            Some(words) => is_plan_for(
                r,
                link_in(words@),
                regex_is_match(HTTP_LINK_RE@, words@),
            ),
            None => r is Ignore,
        },
{
    match text {
        Some(words) => plan_link(find_download_link(words), contains_http_link(words)),
        None => MessagePlan::Ignore,
    }
}

/// What is to be done about a pressed button.
#[derive(Debug)]
pub enum CallbackPlan {
    /// Nothing.
    Ignore,
    /// Alert the user with the text.
    Alert { text: &'static str },
    /// Download the link of the menu.
    Download { kind: DownloadKind, url: String },
}

/// What is said where the message with the menu cannot be reached.
pub const MENU_OUT_OF_REACH: &'static str =
    "Cannot access this menu message. Send the YouTube link again.";

/// What is said where the menu can no longer be used.
pub const MENU_EXPIRED: &'static str = "This download menu expired. Send the YouTube link again.";

/// Whether `plan` is right for a button that asks for `choice`, where the message can be reached
/// or not, and `after` are the menus that are then kept of `before`.
pub open spec fn settles(
    before: Map<Seq<char>, (Seq<char>, u64)>,
    choice: Option<(DownloadKind, Seq<char>)>,
    reachable: bool,
    now: u64,
    plan: CallbackPlan,
    after: Map<Seq<char>, (Seq<char>, u64)>,
) -> bool {
    match choice {
        None => plan is Ignore && after == before,
        Some((kind, id)) => if !reachable {
            after == before && (plan matches CallbackPlan::Alert { text } && text@
                == MENU_OUT_OF_REACH@)
        } else {
            &&& after == fresh_menus(before, now).remove(id)
            &&& match taken_url(before, id, now) {
                Some(link) => plan matches CallbackPlan::Download { kind: k, url } && k == kind
                    && url@ == link,
                None => plan matches CallbackPlan::Alert { text } && text@ == MENU_EXPIRED@,
            }
        },
    }
}

/// The choice that a pressed button asks for; one without data asks for none.
pub open spec fn choice_of(data: Option<Seq<char>>) -> Option<(DownloadKind, Seq<char>)> {
    match data {
        Some(text) => callback_choice(text),
        None => None,
    }
}

/// Decides about a pressed button, and takes the link out of its menu.
pub fn plan_callback(
    data: Option<&str>,
    reachable: bool,
    downloads: &mut DownloadMenus,
    now: u64,
) -> (r: CallbackPlan)
    requires
        old(downloads).wf(),
    ensures
        final(downloads).wf(),
        settles(
            old(downloads)@,
            choice_of(data.deep_view()),
            reachable,
            now,
            r,
            final(downloads)@,
        ),
{
    let text = match data {
        Some(text) => text,
        None => return CallbackPlan::Ignore,
    };
    let (kind, id) = match parse_youtube_download_callback(text) {
        Some(choice) => choice,
        None => return CallbackPlan::Ignore,
    };
    if !reachable {
        return CallbackPlan::Alert { text: MENU_OUT_OF_REACH };
    }
    match take_download_url(downloads, id, now) {
        Some(url) => CallbackPlan::Download { kind, url },
        None => CallbackPlan::Alert { text: MENU_EXPIRED },
    }
}

/// Every button of a menu that was just kept, pressed within the time of the menu, gives a
/// download of the link that the menu is for.
pub proof fn law_button_gives_its_link(
    kept: Map<Seq<char>, (Seq<char>, u64)>,
    id: Seq<char>,
    link: Seq<char>,
    shown: u64,
    row: int,
    column: int,
    now: u64,
    plan: CallbackPlan,
    after: Map<Seq<char>, (Seq<char>, u64)>,
)
    requires
        0 <= row < menu_rows(id).len(),
        0 <= column < menu_rows(id)[row].len(),
        shown <= now,
        now - shown < DOWNLOAD_MENU_TTL,
        settles(
            kept.insert(id, (link, shown)),
            callback_choice(menu_rows(id)[row][column].1),
            true,
            now,
            plan,
            after,
        ),
    ensures
        plan matches CallbackPlan::Download { kind, url } && url@ == link && kind.on_youtube(),
        !after.contains_key(id),
{
    law_menu_buttons_are_choices(id, row, column);
}

/// A menu gives a download once: whatever button of it is pressed next, at whatever time, the
/// user is told that the menu expired.
pub proof fn law_menu_gives_one_download(
    first: Map<Seq<char>, (Seq<char>, u64)>,
    kind: DownloadKind,
    id: Seq<char>,
    now: u64,
    plan: CallbackPlan,
    second: Map<Seq<char>, (Seq<char>, u64)>,
    next_kind: DownloadKind,
    later: u64,
    next_plan: CallbackPlan,
    third: Map<Seq<char>, (Seq<char>, u64)>,
)
    requires
        settles(first, Some((kind, id)), true, now, plan, second),
        settles(second, Some((next_kind, id)), true, later, next_plan, third),
    ensures
        next_plan is Alert,
{
}

// Requests

/// What is to be done next for a download that was asked for.
#[derive(Debug)]
pub enum RequestStep {
    /// Send the message that shows the status, with the text.
    SendStatus { text: &'static str },
    /// Confirm that the button was pressed.
    Confirm,
    /// Get a permit to download.
    Acquire,
    /// Write the download to the log under this name.
    Log { name: String },
    /// Show the user the text: the download begins.
    ShowDownloading { text: &'static str },
    /// Download the link and send what it leads to.
    Run,
    /// Give the permit back.
    Release,
    /// Show the user the notice: it failed.
    ShowFailure { notice: String },
    /// Nothing: this is what came of the messages to the user.
    Finish(Result<(), String>),
}

/// What came of a step.
#[derive(Debug)]
pub enum RequestReply {
    /// It was done.
    Done,
    /// It failed.
    Failed(String),
}

/// A download that was asked for by a message or by a button.
#[derive(Debug)]
pub struct DownloadRequest {
    pub kind: DownloadKind,
    /// Whether a button asked for it.
    pub by_button: bool,
    /// What came of the download, once it was run.
    pub outcome: Result<(), String>,
    pub step: RequestStep,
}

/// The name of a download in the log.
pub open spec fn log_name(kind: DownloadKind, by_button: bool) -> Seq<char> {
    if by_button {
        "callback_"@ + kind.log_name()
    } else {
        kind.log_name()
    }
}

/// What the user is told of a download that failed.
pub open spec fn failure_text(error: Seq<char>) -> Seq<char> {
    "Download failed: "@ + error
}

/// Whether `after` follows `before` when `reply` came of its step.
pub open spec fn request_advances(
    before: DownloadRequest,
    reply: RequestReply,
    after: DownloadRequest,
) -> bool {
    &&& after.kind == before.kind
    &&& after.by_button == before.by_button
    &&& match (before.step, reply) {
        (
            RequestStep::SendStatus { .. } | RequestStep::Confirm | RequestStep::ShowFailure { .. },
            RequestReply::Failed(error),
        ) => after.step == RequestStep::Finish(Err(error)),
        (RequestStep::SendStatus { .. } | RequestStep::Confirm, RequestReply::Done) => after.step
            is Acquire,
        (RequestStep::Acquire, _) => after.step matches RequestStep::Log { name } && name@
            == log_name(before.kind, before.by_button),
        (RequestStep::Log { .. }, _) => after.step matches RequestStep::ShowDownloading { text }
            && text@ == before.kind.downloading_text(),
        (RequestStep::ShowDownloading { .. }, _) => after.step is Run,
        (RequestStep::Run, RequestReply::Done) => after.step is Release && after.outcome is Ok,
        (RequestStep::Run, RequestReply::Failed(error)) => after.step is Release && after.outcome
            == Err::<(), String>(error),
        (RequestStep::Release, _) => match before.outcome {
            Ok(_) => after.step == RequestStep::Finish(Ok(())),
            Err(error) => after.step matches RequestStep::ShowFailure { notice } && notice@
                == failure_text(error@),
        },
        (RequestStep::ShowFailure { .. }, RequestReply::Done) => after.step == RequestStep::Finish(
            Ok(()),
        ),
        (RequestStep::Finish(_), _) => false,
    }
}

impl DownloadRequest {
    /// Whether anything can come of the next step.
    pub open spec fn goes_on(self) -> bool {
        !(self.step is Finish)
    }

    /// A download of `kind` that a message or a button asked for.
    pub fn new(kind: DownloadKind, by_button: bool) -> (r: DownloadRequest)
        ensures
            r.kind == kind,
            r.by_button == by_button,
            if by_button {
                r.step is Confirm
            } else {
                r.step matches RequestStep::SendStatus { text } && text@ == kind.downloading_text()
            },
    {
        let step = if by_button {
            RequestStep::Confirm
        } else {
            RequestStep::SendStatus { text: kind.downloading_message() }
        };
        DownloadRequest { kind, by_button, outcome: Ok(()), step }
    }

    /// Goes on from what came of the step.
    pub fn advance(self, reply: RequestReply) -> (r: DownloadRequest)
        requires
            self.goes_on(),
        ensures
            request_advances(self, reply, r),
    {
        let DownloadRequest { kind, by_button, outcome, step } = self;
        let failure: Option<String> = match reply {
            RequestReply::Done => None,
            RequestReply::Failed(error) => Some(error),
        };
        let mut outcome = outcome;
        let next = match step {
            RequestStep::SendStatus { .. } | RequestStep::Confirm => match failure {
                Some(error) => RequestStep::Finish(Err(error)),
                None => RequestStep::Acquire,
            },
            RequestStep::Acquire => {
                let name = if by_button {
                    concat2("callback_", kind.log_kind())
                } else {
                    kind.log_kind().to_owned()
                };
                RequestStep::Log { name }
            },
            RequestStep::Log { .. } => RequestStep::ShowDownloading {
                text: kind.downloading_message(),
            },
            RequestStep::ShowDownloading { .. } => RequestStep::Run,
            RequestStep::Run => {
                outcome = match failure {
                    Some(error) => Err(error),
                    None => Ok(()),
                };
                RequestStep::Release
            },
            RequestStep::Release => match &outcome {
                Ok(_) => RequestStep::Finish(Ok(())),
                Err(error) => RequestStep::ShowFailure {
                    notice: concat2("Download failed: ", error.as_str()),
                },
            },
            RequestStep::ShowFailure { .. } => match failure {
                Some(error) => RequestStep::Finish(Err(error)),
                None => RequestStep::Finish(Ok(())),
            },
            RequestStep::Finish(result) => RequestStep::Finish(result),
        };
        DownloadRequest { kind, by_button, outcome, step: next }
    }
}

/// Whether the permit is held before this step.
pub open spec fn holds_permit(step: RequestStep) -> bool {
    step is Log || step is ShowDownloading || step is Run || step is Release
}

/// The permit is held from when it was asked for until it is given back, whatever comes of the
/// steps between: nothing else ends it, and the download runs only with it.
pub proof fn law_permit_is_given_back(
    before: DownloadRequest,
    reply: RequestReply,
    after: DownloadRequest,
)
    requires
        before.goes_on(),
        request_advances(before, reply, after),
    ensures
        holds_permit(after.step) <==> before.step is Acquire || holds_permit(before.step) && !(
        before.step is Release),
        after.step is Run ==> holds_permit(before.step),
{
}

/// Whether `jobs` is the run of a request with these replies.
pub open spec fn is_request_run(jobs: Seq<DownloadRequest>, replies: Seq<RequestReply>) -> bool {
    &&& jobs.len() == replies.len() + 1
    &&& jobs[0].step is SendStatus || jobs[0].step is Confirm
    &&& forall|i: int|
        #![trigger replies[i]]
        0 <= i < replies.len() ==> jobs[i].goes_on() && request_advances(
            jobs[i],
            replies[i],
            jobs[i + 1],
        )
}

proof fn lemma_permit_is_held(
    jobs: Seq<DownloadRequest>,
    replies: Seq<RequestReply>,
    from: int,
    to: int,
)
    requires
        is_request_run(jobs, replies),
        0 <= from < to < jobs.len(),
        jobs[from].step is Acquire,
    ensures
        holds_permit(jobs[to].step) || exists|k: int|
            from < k < to && (#[trigger] jobs[k]).step is Release,
    decreases to - from,
{
    assert(request_advances(jobs[to - 1], replies[to - 1], jobs[to]));
    if from + 1 < to {
        lemma_permit_is_held(jobs, replies, from, to - 1);
        if holds_permit(jobs[to - 1].step) {
            law_permit_is_given_back(jobs[to - 1], replies[to - 1], jobs[to]);
        } else {
            let k = choose|k: int| from < k < to - 1 && (#[trigger] jobs[k]).step is Release;
            assert(from < k < to && jobs[k].step is Release);
        }
    }
}

/// A request that asked for a permit and has ended gave the permit back in between.
pub proof fn law_run_gives_its_permit_back(
    jobs: Seq<DownloadRequest>,
    replies: Seq<RequestReply>,
    at: int,
)
    requires
        is_request_run(jobs, replies),
        0 <= at < replies.len(),
        jobs[at].step is Acquire,
        jobs.last().step is Finish,
    ensures
        exists|k: int| at < k < replies.len() && (#[trigger] jobs[k]).step is Release,
{
    lemma_permit_is_held(jobs, replies, at, jobs.len() - 1);
}

/// A download that failed is told to the user, after the permit was given back; one that
/// succeeded is not.
pub proof fn law_failure_is_told(
    first: DownloadRequest,
    reply: RequestReply,
    second: DownloadRequest,
    next_reply: RequestReply,
    third: DownloadRequest,
)
    requires
        first.step is Run,
        request_advances(first, reply, second),
        request_advances(second, next_reply, third),
    ensures
        second.step is Release,
        match reply {
            RequestReply::Done => third.step == RequestStep::Finish(Ok(())),
            RequestReply::Failed(error) => third.step matches RequestStep::ShowFailure { notice }
                && notice@ == failure_text(error@),
        },
{
}

// The log

/// The user in the log, by number where it is known.
pub fn log_user(id: Option<u64>) -> (r: String)
    ensures
        r@ == match id {
            Some(number) => decimal(number as nat),
            None => "unknown"@,
        },
{
    match id {
        Some(number) => decimal_text(number),
        None => "unknown".to_owned(),
    }
}

/// The line of the log for a download, `seconds` after the start of 1970.
pub open spec fn log_line_of(
    seconds: nat,
    name: Seq<char>,
    user: Seq<char>,
    url: Seq<char>,
) -> Seq<char> {
    decimal(seconds) + "\t"@ + name + "\tuser="@ + user + "\t"@ + url + "\n"@
}

/// The line of the log for a download, `seconds` after the start of 1970.
pub fn log_line(seconds: u64, name: &str, user: &str, url: &str) -> (r: String)
    ensures
        r@ == log_line_of(seconds as nat, name@, user@, url@),
{
    let mut line = concat5(decimal_text(seconds).as_str(), "\t", name, "\tuser=", user);
    line.append("\t");
    line.append(url);
    line.append("\n");
    line
}

// Laws of messages and requests

/// A message is offered in several qualities just when its link leads to YouTube, and downloaded at
/// once where it leads elsewhere, in both cases with its link as it is. Without a link to media the
/// user is answered where there is any link, and left alone where there is none.
pub proof fn law_plan_goes_by_the_link(
    plan: MessagePlan<'_>,
    link: Option<(DownloadKind, Seq<char>)>,
    any_link: bool,
)
    requires
        is_plan_for(plan, link, any_link),
    ensures
        plan is Offer <==> (link matches Some((kind, url)) && named_for_youtube(kind)),
        plan is Download <==> (link matches Some((kind, url)) && !named_for_youtube(kind)),
        plan is Answer <==> link is None && any_link,
        plan is Ignore <==> link is None && !any_link,
        plan matches MessagePlan::Offer { url } ==> url@ == (link->0).1,
        plan matches MessagePlan::Download { kind, url } ==> (kind, url@) == link->0,
{
    if let Some((kind, url)) = link {
        law_kinds_are_consistent(kind);
    }
}

/// A pressed button gives a download just when it is a choice, its message can be reached, and its
/// menu was shown less than half an hour ago and not used; it is the download of the link of the
/// menu, in the quality of the button. Who cannot be served is told; what is no choice is ignored.
pub proof fn law_button_goes_by_its_menu(
    before: Map<Seq<char>, (Seq<char>, u64)>,
    kind: DownloadKind,
    id: Seq<char>,
    reachable: bool,
    now: u64,
    plan: CallbackPlan,
    after: Map<Seq<char>, (Seq<char>, u64)>,
)
    requires
        settles(before, Some((kind, id)), reachable, now, plan, after),
    ensures
        plan is Download <==> reachable && before.contains_key(id) && before[id].1
            + 1_800_000_000_000 > now,
        plan matches CallbackPlan::Download { kind: asked, url } ==> asked == kind && url@
            == before[id].0,
        !(plan is Download) ==> plan is Alert,
        !reachable ==> after == before,
        reachable ==> !after.contains_key(id),
{
    law_menu_lasts_half_an_hour(before, id, now);
}

/// What a button does to one menu leaves the others: every other menu that has not expired stays as
/// it is, and data that is no choice changes nothing.
pub proof fn law_buttons_leave_other_menus(
    before: Map<Seq<char>, (Seq<char>, u64)>,
    choice: Option<(DownloadKind, Seq<char>)>,
    reachable: bool,
    now: u64,
    plan: CallbackPlan,
    after: Map<Seq<char>, (Seq<char>, u64)>,
    other: Seq<char>,
)
    requires
        settles(before, choice, reachable, now, plan, after),
    ensures
        choice is None ==> plan is Ignore && after == before,
        choice matches Some((kind, id)) ==> (other != id && before.contains_key(other)
            && before[other].1 + 1_800_000_000_000 > now ==> after.contains_key(other)
            && after[other] == before[other]),
        after.contains_key(other) ==> before.contains_key(other) && after[other] == before[other],
{
}

proof fn lemma_request_course(
    jobs: Seq<DownloadRequest>,
    replies: Seq<RequestReply>,
    at: int,
)
    requires
        is_request_run(jobs, replies),
        0 <= at < jobs.len(),
    ensures
        jobs[at].kind == jobs[0].kind && jobs[at].by_button == jobs[0].by_button,
        jobs[at].step is SendStatus || jobs[at].step is Confirm ==> at == 0,
        jobs[at].step is Acquire ==> at == 1 && replies[0] is Done,
        jobs[at].step matches RequestStep::Log { name } ==> at == 2 && jobs[1].step is Acquire
            && name@ == if jobs[0].by_button {
            "callback_"@ + jobs[0].kind.log_name()
        } else {
            jobs[0].kind.log_name()
        },
        jobs[at].step matches RequestStep::ShowDownloading { text } ==> at == 3 && jobs[1].step
            is Acquire && jobs[2].step is Log && text@ == jobs[0].kind.downloading_text(),
        jobs[at].step is Run ==> at == 4 && jobs[1].step is Acquire && jobs[2].step is Log,
        jobs[at].step is Release ==> at == 5 && jobs[4].step is Run && (replies[4] is Done
            <==> jobs[5].outcome is Ok) && (replies[4] matches RequestReply::Failed(error)
            ==> jobs[5].outcome == Err::<(), String>(error)),
        jobs[at].step matches RequestStep::ShowFailure { notice } ==> at == 6 && jobs[4].step is Run
            && (replies[4] matches RequestReply::Failed(error) && notice@ == "Download failed: "@
            + error@),
    decreases at,
{
    if at > 0 {
        lemma_request_course(jobs, replies, at - 1);
        assert(request_advances(jobs[at - 1], replies[at - 1], jobs[at]));
        assert(jobs[at - 1].goes_on());
    }
}

/// A request is run once, only with a permit and after it was logged under its name, and what goes
/// wrong with it is told in the words of the failure; nothing is told of one that succeeds.
pub proof fn law_request_is_logged_run_and_told(
    jobs: Seq<DownloadRequest>,
    replies: Seq<RequestReply>,
    at: int,
)
    requires
        is_request_run(jobs, replies),
        0 <= at < jobs.len(),
    ensures
        jobs[at].step matches RequestStep::Log { name } ==> name@ == if jobs[0].by_button {
            "callback_"@ + jobs[0].kind.log_name()
        } else {
            jobs[0].kind.log_name()
        },
        jobs[at].step matches RequestStep::ShowDownloading { text } ==> text@
            == jobs[0].kind.downloading_text(),
        jobs[at].step is Run ==> at == 4 && jobs[1].step is Acquire && jobs[2].step is Log,
        jobs[at].step matches RequestStep::ShowFailure { notice } ==> jobs[4].step is Run && (
        replies[4] matches RequestReply::Failed(error) && notice@ == "Download failed: "@ + error@),
{
    lemma_request_course(jobs, replies, at);
}

/// A request that ends well ran its download, and told of its failure if it failed; one that ends
/// with an error could not reach the user, and ends with that error.
pub proof fn law_request_ends_when_all_is_told(
    jobs: Seq<DownloadRequest>,
    replies: Seq<RequestReply>,
)
    requires
        is_request_run(jobs, replies),
        jobs.last().step is Finish,
    ensures
        match jobs.last().step->Finish_0 {
            Ok(_) => replies.len() >= 6 && jobs[4].step is Run && (replies[4] is Failed
                ==> replies.len() == 7 && jobs[6].step is ShowFailure && replies[6] is Done),
            Err(error) => replies.last() == RequestReply::Failed(error) && (replies.len() == 1
                || replies.len() == 7 && jobs[6].step is ShowFailure),
        },
{
    let n = replies.len() as int;
    lemma_request_course(jobs, replies, n - 1);
    assert(request_advances(jobs[n - 1], replies[n - 1], jobs[n]));
    assert(jobs[n - 1].goes_on());
    if jobs[n - 1].step is ShowFailure {
        lemma_request_course(jobs, replies, 5);
    }
}

/// A line of the log has four fields between tabs: the time, the name, the user and the link, each
/// as it was given, and ends the line.
pub proof fn law_log_line_has_its_fields(
    seconds: nat,
    name: Seq<char>,
    user: Seq<char>,
    url: Seq<char>,
)
    requires
        !name.contains('\t'),
        !user.contains('\t'),
        !url.contains('\t'),
    ensures
        pieces(log_line_of(seconds, name, user, url), '\t') == seq![
            decimal(seconds),
            name,
            "user="@ + user,
            url + "\n"@,
        ],
{
    reveal_strlit("\t");
    reveal_strlit("\tuser=");
    reveal_strlit("user=");
    reveal_strlit("\n");
    let tab = seq!['\t'];
    let who = "user="@ + user;
    let end = url + "\n"@;
    law_decimal_is_digits(seconds);
    assert forall|i: int| 0 <= i < who.len() implies who[i] != '\t' by {
        if i >= 5 {
            assert(user.contains(user[i - 5]));
        }
    }
    assert forall|i: int| 0 <= i < end.len() implies end[i] != '\t' by {
        if i < url.len() {
            assert(url.contains(url[i]));
        }
    }
    assert(!decimal(seconds).contains('\t'));
    assert(!who.contains('\t') && !end.contains('\t'));
    let line = log_line_of(seconds, name, user, url);
    assert(line =~= decimal(seconds) + tab + (name + tab + (who + tab + end)));
    law_pieces_come_apart(decimal(seconds), name + tab + (who + tab + end), '\t');
    law_pieces_come_apart(name, who + tab + end, '\t');
    law_pieces_come_apart(who, end, '\t');
    law_pieces_come_apart(end, end, '\t');
    assert(pieces(line, '\t') =~= seq![decimal(seconds), name, who, end]);
}

/// Who is answered, and not served, reads why: the link is not supported, the message with the menu
/// cannot be reached, or the menu expired.
pub proof fn law_answers_name_their_reason(
    plan: MessagePlan<'_>,
    link: Option<(DownloadKind, Seq<char>)>,
    any_link: bool,
    before: Map<Seq<char>, (Seq<char>, u64)>,
    choice: Option<(DownloadKind, Seq<char>)>,
    reachable: bool,
    now: u64,
    callback: CallbackPlan,
    after: Map<Seq<char>, (Seq<char>, u64)>,
)
    requires
        is_plan_for(plan, link, any_link),
        settles(before, choice, reachable, now, callback, after),
    ensures
        plan matches MessagePlan::Answer { text } ==> text@
            == "Unsupported link. Supported: Instagram profiles or Reels, X videos, and YouTube videos or Shorts."@,
        callback matches CallbackPlan::Alert { text } ==> text@ == if reachable {
            "This download menu expired. Send the YouTube link again."@
        } else {
            "Cannot access this menu message. Send the YouTube link again."@
        },
{
}

/// The functions of the chat do what its laws speak of. A request by a message shows its status
/// first, and one by a button confirms the button. A user without a number is unknown in the log.
pub proof fn law_chat_functions<'a>(
    text: Option<&'a str>,
    plan: MessagePlan<'a>,
    kind: DownloadKind,
    by_button: bool,
    first: DownloadRequest,
    before: DownloadRequest,
    reply: RequestReply,
    after: DownloadRequest,
    id: Option<u64>,
    user: String,
    seconds: u64,
    name: &str,
    who: &str,
    url: &str,
    line: String,
)
    requires
        call_ensures(plan_message, (text,), plan),
        call_ensures(DownloadRequest::new, (kind, by_button), first),
        before.goes_on(),
        call_ensures(DownloadRequest::advance, (before, reply), after),
        call_ensures(log_user, (id,), user),
        call_ensures(log_line, (seconds, name, who, url), line),
    ensures
        text is None ==> plan is Ignore,
        text matches Some(words) ==> {
            let link = link_in(words@);
            &&& plan is Offer <==> (link matches Some((k, u)) && named_for_youtube(k))
            &&& plan is Download <==> (link matches Some((k, u)) && !named_for_youtube(k))
            &&& plan is Answer <==> link is None && regex_is_match(HTTP_LINK_RE@, words@)
            &&& plan matches MessagePlan::Offer { url: offered } ==> offered@ == (link->0).1
            &&& plan matches MessagePlan::Download { kind: k, url: u } ==> (k, u@) == link->0
        },
        first.kind == kind && first.by_button == by_button,
        by_button ==> first.step is Confirm,
        !by_button ==> (first.step matches RequestStep::SendStatus { text: status } && status@
            == kind.downloading_text()),
        request_advances(before, reply, after),
        id matches Some(number) ==> user@ == decimal(number as nat),
        id is None ==> user@ == "unknown"@,
        line@ == decimal(seconds as nat) + "\t"@ + name@ + "\tuser="@ + who@ + "\t"@ + url@ + "\n"@,
{
    if let Some(words) = text {
        law_plan_goes_by_the_link(plan, link_in(words@), regex_is_match(HTTP_LINK_RE@, words@));
    }
}

/// A pressed button takes the link out of its menu and gives the download of it in the quality of
/// the button; what is no choice, or cannot be reached, takes nothing.
pub proof fn law_pressing_a_button(
    data: Option<&str>,
    reachable: bool,
    downloads: &mut DownloadMenus,
    now: u64,
    plan: CallbackPlan,
    t: int,
    id: Seq<char>,
)
    requires
        old(downloads).wf(),
        call_ensures(plan_callback, (data, reachable, downloads, now), plan),
        0 <= t < 7,
    ensures
        final(downloads).wf(),
        data is None ==> plan is Ignore && final(downloads)@ == old(downloads)@,
        data matches Some(text) ==> (text@ == choice_tags()[t].0 + id ==> {
            let usable = old(downloads)@.contains_key(id) && old(downloads)@[id].1
                + 1_800_000_000_000 > now;
            &&& reachable && usable <==> plan is Download
            &&& plan matches CallbackPlan::Download { kind, url } ==> kind == choice_tags()[t].1
                && url@ == old(downloads)@[id].0
            &&& plan matches CallbackPlan::Alert { text: words } ==> words@ == if reachable {
                "This download menu expired. Send the YouTube link again."@
            } else {
                "Cannot access this menu message. Send the YouTube link again."@
            }
            &&& !(plan is Ignore)
            &&& reachable ==> !final(downloads)@.contains_key(id)
            &&& !reachable ==> final(downloads)@ == old(downloads)@
        }),
{
    if let Some(text) = data {
        assert(data.deep_view() == Some(text@));
        law_choices_go_by_their_tag(text@, t, id);
        law_menu_lasts_half_an_hour(old(downloads)@, id, now);
    }
}

}
