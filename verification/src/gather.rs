//! The run of a browser that gathers the Reels of an Instagram profile.
use vstd::prelude::*;

use crate::outside::{json_present, json_string};
use crate::text::{concat2, has_suffix};
use crate::webdriver::{law_session_is_the_one_named, session_id, session_of};

verus! {

/// How many times the driver is asked whether it is ready.
pub const READY_ATTEMPTS: u32 = 50;

/// How long to wait between two such questions, in milliseconds.
pub const READY_PAUSE_MS: u64 = 100;

/// The program that is run as ChromeDriver where no other is given.
pub const CHROMEDRIVER: &'static str = "chromedriver";

/// What is to be done next.
#[derive(Debug)]
pub enum GatherStep {
    /// Reserve a port for the driver.
    ReservePort,
    /// Read which port it is.
    ReadPort,
    /// Start the driver.
    StartDriver,
    /// Make the client that controls the browser.
    BuildClient,
    /// Ask the driver whether it is ready.
    CheckReady,
    /// Wait before the next such question.
    Pause,
    /// Open a session.
    CreateSession,
    /// Collect the Reels in the session.
    Scrape { session: String },
    /// Close the session.
    CloseSession { session: String },
    /// Stop the driver.
    KillDriver,
    /// Nothing: this is what came of it.
    Finish(Result<Vec<String>, String>),
}

/// What came of a step.
#[derive(Debug)]
pub enum GatherReply {
    /// It was done; asked whether it is ready, the driver said so.
    Done,
    /// It failed; asked whether it is ready, the driver did not say so.
    Failed(String),
    /// The session was opened, with this response.
    Opened(String),
    /// The Reels were collected.
    Collected(Vec<String>),
}

/// The run of a browser.
#[derive(Debug)]
pub struct ReelGather {
    /// How many times the driver was not ready.
    pub attempts: u32,
    /// What will have come of it once all is cleaned up.
    pub outcome: Result<Vec<String>, String>,
    pub step: GatherStep,
}

/// Whether `step` ends the run with the error `text`.
pub open spec fn gather_fails(step: GatherStep, text: Seq<char>) -> bool {
    step matches GatherStep::Finish(Err(error)) && error@ == text
}

/// Whether `after` stops the driver and then fails with `text`.
pub open spec fn gives_up(after: ReelGather, text: Seq<char>) -> bool {
    after.step is KillDriver && (after.outcome matches Err(error) && error@ == text)
}

/// Whether `after` follows `before` when `reply` came of its step.
pub open spec fn gather_advances(before: ReelGather, reply: GatherReply, after: ReelGather) -> bool {
    match (before.step, reply) {
        (GatherStep::ReservePort, GatherReply::Failed(error)) => gather_fails(
            after.step,
            "Cannot reserve a ChromeDriver port: "@ + error@,
        ),
        (GatherStep::ReservePort, _) => after == (ReelGather {
            step: GatherStep::ReadPort,
            ..before
        }),
        (GatherStep::ReadPort, GatherReply::Failed(error)) => gather_fails(
            after.step,
            "Cannot read the ChromeDriver port: "@ + error@,
        ),
        (GatherStep::ReadPort, _) => after == (ReelGather {
            step: GatherStep::StartDriver,
            ..before
        }),
        (GatherStep::StartDriver, GatherReply::Failed(error)) => gather_fails(
            after.step,
            "Cannot start ChromeDriver: "@ + error@,
        ),
        (GatherStep::StartDriver, _) => after == (ReelGather {
            step: GatherStep::BuildClient,
            ..before
        }),
        (GatherStep::BuildClient, GatherReply::Failed(error)) => gather_fails(
            after.step,
            "Cannot create browser-control client: "@ + error@,
        ),
        (GatherStep::BuildClient, _) => after == (ReelGather {
            step: GatherStep::CheckReady,
            ..before
        }),
        (GatherStep::CheckReady, GatherReply::Failed(_)) => after == (ReelGather {
            attempts: (before.attempts + 1) as u32,
            step: GatherStep::Pause,
            ..before
        }),
        (GatherStep::CheckReady, _) => after == (ReelGather {
            step: GatherStep::CreateSession,
            ..before
        }),
        (GatherStep::Pause, _) => if before.attempts < READY_ATTEMPTS {
            after == (ReelGather { step: GatherStep::CheckReady, ..before })
        } else {
            gives_up(after, "ChromeDriver did not become ready"@)
        },
        (GatherStep::CreateSession, GatherReply::Opened(body)) => match session_of(body@) {
            Some(id) => (after.step matches GatherStep::Scrape { session } && session@ == id),
            None => gives_up(after, "ChromeDriver returned no session ID"@),
        },
        (GatherStep::CreateSession, GatherReply::Failed(error)) => gives_up(after, error@),
        (GatherStep::Scrape { session }, GatherReply::Collected(urls)) => after.step
            == (GatherStep::CloseSession { session }) && after.outcome == Ok::<
            Vec<String>,
            String,
        >(urls),
        (GatherStep::Scrape { session }, GatherReply::Failed(error)) => after.step
            == (GatherStep::CloseSession { session }) && after.outcome == Err::<
            Vec<String>,
            String,
        >(error),
        (GatherStep::CloseSession { .. }, _) => after == (ReelGather {
            step: GatherStep::KillDriver,
            ..before
        }),
        (GatherStep::KillDriver, _) => after.step == GatherStep::Finish(before.outcome),
        (_, _) => false,
    }
}

impl ReelGather {
    /// The driver was asked no more often than it may be.
    pub open spec fn wf(self) -> bool {
        &&& self.attempts <= READY_ATTEMPTS
        &&& self.step is CheckReady ==> self.attempts < READY_ATTEMPTS
        &&& (self.step is ReservePort || self.step is ReadPort || self.step is StartDriver
            || self.step is BuildClient) ==> self.attempts == 0
    }

    /// Whether `reply` can come of the next step.
    pub open spec fn accepts(self, reply: GatherReply) -> bool {
        match self.step {
            GatherStep::Finish(_) => false,
            GatherStep::CreateSession => reply is Opened || reply is Failed,
            GatherStep::Scrape { .. } => reply is Collected || reply is Failed,
            _ => reply is Done || reply is Failed,
        }
    }

    /// A run that has not begun.
    pub fn new() -> (r: ReelGather)
        ensures
            r.wf(),
            r.attempts == 0,
            r.outcome matches Ok(urls) && urls@ == Seq::<String>::empty(),
            r.step is ReservePort,
    {
        ReelGather { attempts: 0, outcome: Ok(Vec::new()), step: GatherStep::ReservePort }
    }

    /// Goes on from what came of the step.
    pub fn advance(self, reply: GatherReply) -> (r: ReelGather)
        requires
            self.wf(),
            self.accepts(reply),
        ensures
            r.wf(),
            gather_advances(self, reply, r),
    {
        let ReelGather { mut attempts, mut outcome, step } = self;
        let failure: Option<String> = match &reply {
            GatherReply::Failed(error) => Some(error.clone()),
            _ => None,
        };
        let next = match step {
            GatherStep::ReservePort => match failure {
                Some(error) => GatherStep::Finish(
                    Err(concat2("Cannot reserve a ChromeDriver port: ", error.as_str())),
                ),
                None => GatherStep::ReadPort,
            },
            GatherStep::ReadPort => match failure {
                Some(error) => GatherStep::Finish(
                    Err(concat2("Cannot read the ChromeDriver port: ", error.as_str())),
                ),
                None => GatherStep::StartDriver,
            },
            GatherStep::StartDriver => match failure {
                Some(error) => GatherStep::Finish(
                    Err(concat2("Cannot start ChromeDriver: ", error.as_str())),
                ),
                None => GatherStep::BuildClient,
            },
            GatherStep::BuildClient => match failure {
                Some(error) => GatherStep::Finish(
                    Err(concat2("Cannot create browser-control client: ", error.as_str())),
                ),
                None => GatherStep::CheckReady,
            },
            GatherStep::CheckReady => match failure {
                Some(error) => {
                    attempts = attempts + 1;
                    GatherStep::Pause
                },
                None => GatherStep::CreateSession,
            },
            GatherStep::Pause => {
                if attempts < READY_ATTEMPTS {
                    GatherStep::CheckReady
                } else {
                    outcome = Err("ChromeDriver did not become ready".to_owned());
                    GatherStep::KillDriver
                }
            },
            GatherStep::CreateSession => match reply {
                GatherReply::Opened(body) => match session_id(body.as_str()) {
                    Ok(session) => GatherStep::Scrape { session },
                    Err(error) => {
                        outcome = Err(error);
                        GatherStep::KillDriver
                    },
                },
                GatherReply::Failed(error) => {
                    outcome = Err(error);
                    GatherStep::KillDriver
                },
                _ => GatherStep::KillDriver,
            },
            GatherStep::Scrape { session } => {
                match reply {
                    GatherReply::Collected(urls) => {
                        outcome = Ok(urls);
                    },
                    GatherReply::Failed(error) => {
                        outcome = Err(error);
                    },
                    _ => {},
                }
                GatherStep::CloseSession { session }
            },
            GatherStep::CloseSession { session } => GatherStep::KillDriver,
            GatherStep::KillDriver => {
                return ReelGather {
                    attempts,
                    outcome: Ok(Vec::new()),
                    step: GatherStep::Finish(outcome),
                };
            },
            GatherStep::Finish(result) => GatherStep::Finish(result),
        };
        ReelGather { attempts, outcome, step: next }
    }

    /// Where at the driver the request of the step goes; none for a step without one. The requests
    /// within a session go their own ways.
    pub fn path(&self) -> (r: Option<String>)
        ensures
            r.deep_view() == match self.step {
                GatherStep::CheckReady => Some("/status"@),
                GatherStep::CreateSession => Some("/session"@),
                GatherStep::CloseSession { session } => Some("/session/"@ + session@),
                _ => None,
            },
    {
        match &self.step {
            GatherStep::CheckReady => Some("/status".to_owned()),
            GatherStep::CreateSession => Some("/session".to_owned()),
            GatherStep::CloseSession { session } => Some(concat2("/session/", session.as_str())),
            _ => None,
        }
    }

    /// What the step is called in errors; none for a step whose response is not judged.
    pub fn operation(&self) -> (r: Option<&'static str>)
        ensures
            r.deep_view() == match self.step {
                GatherStep::CreateSession => Some("session creation"@),
                GatherStep::CloseSession { .. } => Some("session cleanup"@),
                _ => None,
            },
    {
        match self.step {
            GatherStep::CreateSession => Some("session creation"),
            GatherStep::CloseSession { .. } => Some("session cleanup"),
            _ => None,
        }
    }
}

/// Once the driver runs and its client is there, the run ends only by stopping the driver, and
/// gives back what had come of it.
pub proof fn law_driver_is_stopped(before: ReelGather, reply: GatherReply, after: ReelGather)
    requires
        before.wf(),
        before.accepts(reply),
        gather_advances(before, reply, after),
        after.step is Finish,
    ensures
        before.step is KillDriver && after.step->Finish_0 == before.outcome || (before.step is ReservePort
            || before.step is ReadPort || before.step is StartDriver || before.step is BuildClient)
            && reply is Failed && after.step->Finish_0 is Err,
{
}

/// A session that was opened is closed before the driver is stopped, whatever came of it, and
/// what came of it is kept.
pub proof fn law_session_is_closed(
    first: ReelGather,
    reply: GatherReply,
    second: ReelGather,
    next_reply: GatherReply,
    third: ReelGather,
)
    requires
        first.wf(),
        first.accepts(reply),
        gather_advances(first, reply, second),
        second.accepts(next_reply),
        gather_advances(second, next_reply, third),
        first.step is Scrape,
    ensures
        second.step == (GatherStep::CloseSession { session: first.step->Scrape_session }),
        third.step is KillDriver,
        third.outcome == second.outcome,
        reply is Collected ==> third.outcome == Ok::<Vec<String>, String>(reply->Collected_0),
        reply is Failed ==> third.outcome == Err::<Vec<String>, String>(reply->Failed_0),
{
}

/// Whether `jobs` is the run of a browser with these replies.
pub open spec fn is_gather_run(jobs: Seq<ReelGather>, replies: Seq<GatherReply>) -> bool {
    &&& jobs.len() == replies.len() + 1
    &&& jobs[0].step is ReservePort
    &&& forall|i: int|
        #![trigger replies[i]]
        0 <= i < replies.len() ==> jobs[i].wf() && jobs[i].accepts(replies[i]) && gather_advances(
            jobs[i],
            replies[i],
            jobs[i + 1],
        )
}

/// Whether the driver runs, and its client is there, before this step.
pub open spec fn drives(step: GatherStep) -> bool {
    !(step is ReservePort || step is ReadPort || step is StartDriver || step is BuildClient
        || step is Finish)
}

proof fn lemma_driver_runs_on(
    jobs: Seq<ReelGather>,
    replies: Seq<GatherReply>,
    from: int,
    to: int,
)
    requires
        is_gather_run(jobs, replies),
        0 <= from <= to < replies.len(),
        drives(jobs[from].step),
    ensures
        drives(jobs[to].step),
    decreases to - from,
{
    if from < to {
        lemma_driver_runs_on(jobs, replies, from, to - 1);
        assert(gather_advances(jobs[to - 1], replies[to - 1], jobs[to]));
        assert(jobs[to].accepts(replies[to]));
    }
}

/// A run in which the driver got ready to be asked ends by stopping it, and gives back just what
/// had come of the run then.
pub proof fn law_run_stops_its_driver(
    jobs: Seq<ReelGather>,
    replies: Seq<GatherReply>,
    at: int,
)
    requires
        is_gather_run(jobs, replies),
        0 <= at < replies.len(),
        drives(jobs[at].step),
        jobs.last().step is Finish,
    ensures
        jobs[replies.len() - 1].step is KillDriver,
        jobs.last().step == GatherStep::Finish(jobs[replies.len() - 1].outcome),
{
    let last = replies.len() - 1;
    lemma_driver_runs_on(jobs, replies, at, last);
    law_driver_is_stopped(jobs[last], replies[last], jobs[last + 1]);
}

// Laws of whole runs

proof fn lemma_gather_course(jobs: Seq<ReelGather>, replies: Seq<GatherReply>, at: int)
    requires
        is_gather_run(jobs, replies),
        0 <= at < jobs.len(),
    ensures
        jobs[at].step is ReservePort ==> at == 0,
        jobs[at].step is ReadPort ==> at == 1,
        jobs[at].step is StartDriver ==> at == 2,
        jobs[at].step is BuildClient ==> at == 3,
        jobs[at].step is CheckReady ==> at == 4 + 2 * jobs[at].attempts,
        jobs[at].step is Pause ==> at == 3 + 2 * jobs[at].attempts && jobs[at - 1].step is CheckReady
            && replies[at - 1] is Failed,
        jobs[at].step is CreateSession ==> at >= 5 && jobs[at - 1].step is CheckReady && replies[at
            - 1] is Done,
        jobs[at].step is Scrape ==> at >= 6 && jobs[at - 1].step is CreateSession && replies[at - 1]
            is Opened,
        jobs[at].step is CloseSession ==> at >= 7 && jobs[at - 1].step is Scrape,
        !(jobs[at].step is Finish || jobs[at].step is ReservePort) ==> replies[0] is Done,
    decreases at,
{
    if at > 0 {
        lemma_gather_course(jobs, replies, at - 1);
        assert(gather_advances(jobs[at - 1], replies[at - 1], jobs[at]));
        assert(jobs[at - 1].wf() && jobs[at - 1].accepts(replies[at - 1]));
    } else if replies.len() > 0 {
        assert(jobs[0].accepts(replies[0]));
    }
}

/// A session is opened only after the driver said that it is ready, and Reels are collected only in
/// the session that the driver then named.
pub proof fn law_reels_are_collected_in_the_named_session(
    jobs: Seq<ReelGather>,
    replies: Seq<GatherReply>,
    at: int,
)
    requires
        is_gather_run(jobs, replies),
        0 <= at < jobs.len(),
    ensures
        jobs[at].step is CreateSession ==> at >= 1 && jobs[at - 1].step is CheckReady && replies[at
            - 1] is Done,
        jobs[at].step matches GatherStep::Scrape { session } ==> at >= 1 && jobs[at - 1].step
            is CreateSession && (replies[at - 1] matches GatherReply::Opened(body) && Some(session@)
            == if json_present(body@, "/value/sessionId"@) {
            json_string(body@, "/value/sessionId"@)
        } else {
            json_string(body@, "/sessionId"@)
        }),
{
    lemma_gather_course(jobs, replies, at);
    if jobs[at].step is Scrape {
        assert(gather_advances(jobs[at - 1], replies[at - 1], jobs[at]));
        law_session_is_the_one_named(replies[at - 1]->Opened_0@);
    }
}

/// The driver is asked fifty times before it is given up: as long as fewer questions were answered
/// with no, the next thing after a pause is to ask again, and after the fiftieth it is stopped.
pub proof fn law_driver_is_asked_fifty_times(
    jobs: Seq<ReelGather>,
    replies: Seq<GatherReply>,
    at: int,
)
    requires
        is_gather_run(jobs, replies),
        0 <= at < replies.len(),
        jobs[at].step is Pause,
    ensures
        at >= 5,
        (at - 3) / 2 < 50 ==> jobs[at + 1].step is CheckReady,
        (at - 3) / 2 >= 50 ==> jobs[at + 1].step is KillDriver && jobs[at + 1].outcome is Err,
{
    lemma_gather_course(jobs, replies, at);
    lemma_gather_course(jobs, replies, at - 1);
    assert(gather_advances(jobs[at], replies[at], jobs[at + 1]));
}

/// A run that succeeds gives back just what was collected, after the session was closed and the
/// driver stopped; a collection that fails ends the run with that failure.
pub proof fn law_run_gives_what_was_collected(
    jobs: Seq<ReelGather>,
    replies: Seq<GatherReply>,
)
    requires
        is_gather_run(jobs, replies),
        jobs.last().step is Finish,
    ensures
        jobs.last().step matches GatherStep::Finish(Ok(urls)) ==> replies.len() >= 3
            && jobs[replies.len() - 3].step is Scrape && replies[replies.len() - 3]
            == GatherReply::Collected(urls) && jobs[replies.len() - 2].step is CloseSession
            && jobs[replies.len() - 1].step is KillDriver,
        replies.len() >= 3 && jobs[replies.len() - 3].step is Scrape && replies[replies.len() - 3]
            is Failed ==> jobs.last().step == GatherStep::Finish(
            Err(replies[replies.len() - 3]->Failed_0),
        ),
{
    let n = replies.len() as int;
    lemma_gather_course(jobs, replies, n - 1);
    assert(gather_advances(jobs[n - 1], replies[n - 1], jobs[n]));
    assert(jobs[n - 1].accepts(replies[n - 1]));
    if n >= 2 {
        lemma_gather_course(jobs, replies, n - 2);
        assert(gather_advances(jobs[n - 2], replies[n - 2], jobs[n - 1]));
        assert(jobs[n - 2].accepts(replies[n - 2]));
    }
    if n >= 3 {
        lemma_gather_course(jobs, replies, n - 3);
        assert(gather_advances(jobs[n - 3], replies[n - 3], jobs[n - 2]));
        assert(jobs[n - 3].accepts(replies[n - 3]));
    }
}

/// What keeps a run from its driver is told in the words of the failure.
pub proof fn law_failure_to_start_is_told(
    before: ReelGather,
    reply: GatherReply,
    after: ReelGather,
)
    requires
        before.wf(),
        before.accepts(reply),
        gather_advances(before, reply, after),
        reply is Failed,
    ensures
        before.step is ReservePort || before.step is ReadPort || before.step is StartDriver
            || before.step is BuildClient ==> (after.step matches GatherStep::Finish(Err(text))
            && has_suffix(text@, reply->Failed_0@)),
        before.step is CreateSession ==> after.step is KillDriver && (after.outcome matches Err(text)
            && text@ == reply->Failed_0@),
{
    let error = reply->Failed_0@;
    lemma_told("Cannot reserve a ChromeDriver port: "@, error);
    lemma_told("Cannot read the ChromeDriver port: "@, error);
    lemma_told("Cannot start ChromeDriver: "@, error);
    lemma_told("Cannot create browser-control client: "@, error);
}

proof fn lemma_told(a: Seq<char>, b: Seq<char>)
    ensures
        has_suffix(a + b, b),
{
    assert((a + b).skip((a + b).len() - b.len()) =~= b);
}

/// A run goes wrong only for a cause: a step that failed, a driver that was not ready fifty times, or
/// a response that names no session. Everything else goes on to the next step.
pub proof fn law_run_fails_only_for_a_cause(
    before: ReelGather,
    reply: GatherReply,
    after: ReelGather,
)
    requires
        before.wf(),
        before.accepts(reply),
        gather_advances(before, reply, after),
    ensures
        after.step is KillDriver ==> before.step is CloseSession || before.step is Pause
            && before.attempts >= 50 || before.step is CreateSession && (reply is Failed || (
        reply matches GatherReply::Opened(body) && if json_present(body@, "/value/sessionId"@) {
            json_string(body@, "/value/sessionId"@) is None
        } else {
            json_string(body@, "/sessionId"@) is None
        })),
        before.step is ReservePort && reply is Done ==> after.step is ReadPort,
        before.step is ReadPort && reply is Done ==> after.step is StartDriver,
        before.step is StartDriver && reply is Done ==> after.step is BuildClient,
        before.step is BuildClient && reply is Done ==> after.step is CheckReady && after.attempts
            == before.attempts,
        before.step is CheckReady && reply is Done ==> after.step is CreateSession,
        before.step is CheckReady && reply is Failed ==> after.step is Pause && after.attempts
            == before.attempts + 1,
        before.step is Pause && before.attempts < 50 ==> after.step is CheckReady && after.attempts
            == before.attempts,
        before.step is Scrape ==> after.step is CloseSession && after.step->CloseSession_session
            == before.step->Scrape_session,
        before.step is CloseSession ==> after.step is KillDriver,
{
    if let GatherReply::Opened(body) = reply {
        law_session_is_the_one_named(body@);
    }
}

/// What goes wrong with a run is told in words that name the step.
pub proof fn law_run_failures_have_their_words(
    before: ReelGather,
    reply: GatherReply,
    after: ReelGather,
)
    requires
        before.wf(),
        before.accepts(reply),
        gather_advances(before, reply, after),
    ensures
        reply matches GatherReply::Failed(error) ==> {
            &&& before.step is ReservePort ==> gather_error(after) == Some(
                "Cannot reserve a ChromeDriver port: "@ + error@,
            )
            &&& before.step is ReadPort ==> gather_error(after) == Some(
                "Cannot read the ChromeDriver port: "@ + error@,
            )
            &&& before.step is StartDriver ==> gather_error(after) == Some(
                "Cannot start ChromeDriver: "@ + error@,
            )
            &&& before.step is BuildClient ==> gather_error(after) == Some(
                "Cannot create browser-control client: "@ + error@,
            )
        },
        before.step is Pause && after.step is KillDriver ==> (after.outcome matches Err(text)
            && text@ == "ChromeDriver did not become ready"@),
        reply is Opened && after.step is KillDriver ==> (after.outcome matches Err(text) && text@
            == "ChromeDriver returned no session ID"@),
{
}

/// The error that a run ended with, where it ended with one.
pub open spec fn gather_error(job: ReelGather) -> Option<Seq<char>> {
    match job.step {
        GatherStep::Finish(Err(text)) => Some(text@),
        _ => None,
    }
}

/// The functions of a run do what its laws speak of.
pub proof fn law_gather_functions(
    first: ReelGather,
    before: ReelGather,
    reply: GatherReply,
    after: ReelGather,
    path: Option<String>,
    operation: Option<&'static str>,
)
    requires
        call_ensures(ReelGather::new, (), first),
        call_ensures(ReelGather::advance, (before, reply), after),
        call_ensures(ReelGather::path, (&before,), path),
        call_ensures(ReelGather::operation, (&before,), operation),
    ensures
        first.wf() && first.attempts == 0 && first.step is ReservePort,
        after.wf() && gather_advances(before, reply, after),
        path is Some <==> before.step is CheckReady || before.step is CreateSession || before.step
            is CloseSession,
        before.step is CheckReady ==> path->0@ == "/status"@,
        before.step is CreateSession ==> path->0@ == "/session"@ && operation->0@
            == "session creation"@,
        before.step matches GatherStep::CloseSession { session } ==> path->0@ == "/session/"@
            + session@ && operation->0@ == "session cleanup"@,
        operation is Some <==> before.step is CreateSession || before.step is CloseSession,
{
}

}
