//! The download of one link and its way to the user.
use vstd::prelude::*;

use crate::kind::DownloadKind;
use crate::outside::{is_random_id, random_id};
use crate::text::concat3;

verus! {

/// What is to be done next.
#[derive(Debug)]
pub enum MediaStep {
    /// Download and send all Reels of the profile.
    RunProfile,
    /// Ask for the metadata field that becomes the title.
    FetchTitle { field: &'static str },
    /// Ask for the metadata field that becomes the caption.
    FetchCaption { field: &'static str },
    /// Download the media.
    Download,
    /// Show the user the text: the media are sent.
    ShowSending { text: &'static str },
    /// Send the file as a video.
    SendVideo { title: String },
    /// Send the file as audio.
    SendAudio { title: String, channel: Option<String> },
    /// Remove the file.
    RemoveFile,
    /// Delete the message that shows the status.
    DeleteStatus,
    /// Nothing: this is what came of it.
    Finish(Result<(), String>),
}

/// What came of a step.
#[derive(Debug)]
pub enum MediaReply {
    /// It was done.
    Done,
    /// It failed.
    Failed(String),
    /// The metadata field has this value, if any.
    Field(Option<String>),
}

/// The download of one link.
#[derive(Debug)]
pub struct MediaJob {
    pub kind: DownloadKind,
    pub title: String,
    pub channel: Option<String>,
    /// What will have come of it once all is cleaned up.
    pub outcome: Result<(), String>,
    pub step: MediaStep,
}

/// The name of the file that media of `kind` are downloaded to.
pub fn media_file_name(kind: DownloadKind) -> (r: String)
    ensures
        exists|id: Seq<char>|
            is_random_id(id) && #[trigger] media_file(id, kind) == r@,
{
    let id = random_id();
    let name = media_file_with(id.as_str(), kind);
    assert(media_file(id@, kind) == name@);
    name
}

/// The name of the file for `id` that media of `kind` are downloaded to.
pub open spec fn media_file(id: Seq<char>, kind: DownloadKind) -> Seq<char> {
    id + "."@ + kind.extension()
}

/// The name of the file for `id` that media of `kind` are downloaded to.
pub fn media_file_with(id: &str, kind: DownloadKind) -> (r: String)
    ensures
        r@ == media_file(id@, kind),
{
    concat3(id, ".", kind.output_extension())
}

/// Whether `after` follows `before` when `reply` came of its step.
pub open spec fn media_advances(before: MediaJob, reply: MediaReply, after: MediaJob) -> bool {
    &&& after.kind == before.kind
    &&& match (before.step, reply) {
        (MediaStep::RunProfile, MediaReply::Failed(error)) => after.step == MediaStep::Finish(
            Err(error),
        ),
        (MediaStep::RunProfile, _) => after.step is DeleteStatus && after.outcome is Ok,
        (MediaStep::FetchTitle { .. }, MediaReply::Field(title)) => {
            &&& after.channel == before.channel
            &&& match title {
                Some(text) => after.title == text,
                None => after.title@ == if before.kind is YouTubeAudio {
                    "audio"@
                } else {
                    "video"@
                },
            }
            &&& if before.kind is YouTubeAudio {
                after.step matches MediaStep::FetchCaption { field } && field@ == "channel"@
            } else {
                after.step is Download
            }
        },
        (MediaStep::FetchCaption { .. }, MediaReply::Field(channel)) => after.title == before.title
            && after.channel == channel && after.step is Download,
        (MediaStep::Download, MediaReply::Done) => after.title == before.title && after.channel
            == before.channel && (after.step matches MediaStep::ShowSending { text } && text@
            == before.kind.sending_text()),
        (MediaStep::ShowSending { .. }, _) => if before.kind is YouTubeAudio {
            after.step == (MediaStep::SendAudio { title: before.title, channel: before.channel })
        } else {
            after.step == (MediaStep::SendVideo { title: before.title })
        },
        (MediaStep::RemoveFile, _) => match before.outcome {
            Ok(_) => after.step is DeleteStatus && after.outcome is Ok,
            Err(_) => after.step == MediaStep::Finish(before.outcome),
        },
        (MediaStep::DeleteStatus, _) => after.step == MediaStep::Finish(before.outcome),
        (_, MediaReply::Done) => after.step is RemoveFile && after.outcome is Ok,
        (_, MediaReply::Failed(error)) => after.step is RemoveFile && after.outcome == Err::<
            (),
            String,
        >(error),
        (_, _) => false,
    }
}

impl MediaJob {
    /// The status is deleted only after a success.
    pub open spec fn wf(self) -> bool {
        self.step is DeleteStatus ==> self.outcome is Ok
    }

    /// Whether `reply` can come of the next step.
    pub open spec fn accepts(self, reply: MediaReply) -> bool {
        match self.step {
            MediaStep::Finish(_) => false,
            MediaStep::FetchTitle { .. } | MediaStep::FetchCaption { .. } => reply is Field,
            _ => !(reply is Field),
        }
    }

    /// The download of a link of `kind`.
    pub fn new(kind: DownloadKind) -> (r: MediaJob)
        ensures
            r.wf(),
            r.kind == kind,
            r.channel is None,
            if kind is InstagramProfile {
                r.step is RunProfile
            } else {
                r.step matches MediaStep::FetchTitle { field } && field@ == "title"@
            },
    {
        let step = match kind {
            DownloadKind::InstagramProfile => MediaStep::RunProfile,
            _ => MediaStep::FetchTitle { field: "title" },
        };
        MediaJob { kind, title: String::new(), channel: None, outcome: Ok(()), step }
    }

    /// Goes on from what came of the step.
    pub fn advance(self, reply: MediaReply) -> (r: MediaJob)
        requires
            self.wf(),
            self.accepts(reply),
        ensures
            r.wf(),
            media_advances(self, reply, r),
    {
        let MediaJob { kind, title, channel, outcome, step } = self;
        match step {
            MediaStep::RunProfile => match reply {
                MediaReply::Failed(error) => MediaJob {
                    kind,
                    title,
                    channel,
                    outcome,
                    step: MediaStep::Finish(Err(error)),
                },
                _ => MediaJob {
                    kind,
                    title,
                    channel,
                    outcome: Ok(()),
                    step: MediaStep::DeleteStatus,
                },
            },
            MediaStep::FetchTitle { .. } => {
                let title = match reply {
                    MediaReply::Field(Some(text)) => text,
                    _ => kind.title_fallback().to_owned(),
                };
                let step = match kind.caption_field() {
                    Some(field) => MediaStep::FetchCaption { field },
                    None => MediaStep::Download,
                };
                MediaJob { kind, title, channel, outcome, step }
            },
            MediaStep::FetchCaption { field } => {
                let channel = match reply {
                    MediaReply::Field(value) => value,
                    _ => None,
                };
                MediaJob { kind, title, channel, outcome, step: MediaStep::Download }
            },
            MediaStep::Download => match reply {
                MediaReply::Failed(error) => MediaJob {
                    kind,
                    title,
                    channel,
                    outcome: Err(error),
                    step: MediaStep::RemoveFile,
                },
                _ => MediaJob {
                    kind,
                    title,
                    channel,
                    outcome,
                    step: MediaStep::ShowSending { text: kind.sending_message() },
                },
            },
            MediaStep::ShowSending { text } => {
                let step = if kind.is_inline_video() {
                    MediaStep::SendVideo { title }
                } else {
                    MediaStep::SendAudio { title, channel }
                };
                MediaJob { kind, title: String::new(), channel: None, outcome, step }
            },
            MediaStep::RemoveFile => match outcome {
                Ok(_) => MediaJob {
                    kind,
                    title,
                    channel,
                    outcome: Ok(()),
                    step: MediaStep::DeleteStatus,
                },
                Err(error) => MediaJob {
                    kind,
                    title,
                    channel,
                    outcome: Ok(()),
                    step: MediaStep::Finish(Err(error)),
                },
            },
            MediaStep::DeleteStatus => MediaJob {
                kind,
                title,
                channel,
                outcome: Ok(()),
                step: MediaStep::Finish(outcome),
            },
            MediaStep::Finish(result) => MediaJob {
                kind,
                title,
                channel,
                outcome,
                step: MediaStep::Finish(result),
            },
            _ => {
                let outcome = match reply {
                    MediaReply::Failed(error) => Err(error),
                    _ => Ok(()),
                };
                MediaJob { kind, title, channel, outcome, step: MediaStep::RemoveFile }
            },
        }
    }
}

/// Whatever comes of a download or of sending its file, the file is removed; the job ends after
/// that, or after the status is deleted too.
pub proof fn law_file_is_removed(before: MediaJob, reply: MediaReply, after: MediaJob)
    requires
        before.wf(),
        before.accepts(reply),
        media_advances(before, reply, after),
        after.step is Finish || after.step is DeleteStatus,
    ensures
        before.step is RemoveFile || before.step is DeleteStatus || before.step is RunProfile,
{
}

/// The status is deleted just when the media were sent; otherwise it stays for the failure to be
/// shown.
pub proof fn law_status_goes_only_on_success(
    before: MediaJob,
    reply: MediaReply,
    after: MediaJob,
)
    requires
        before.wf(),
        before.accepts(reply),
        media_advances(before, reply, after),
        after.step is Finish,
    ensures
        before.step is DeleteStatus <==> after.step->Finish_0 is Ok,
{
}

/// Audio goes out as audio, and every other kind as a video.
pub proof fn law_sent_as_its_kind(before: MediaJob, reply: MediaReply, after: MediaJob)
    requires
        before.wf(),
        before.accepts(reply),
        media_advances(before, reply, after),
    ensures
        after.step is SendAudio ==> before.kind is YouTubeAudio,
        after.step is SendVideo ==> !(before.kind is YouTubeAudio),
{
}

/// Whether `jobs` is the run of a download with these replies.
pub open spec fn is_media_run(jobs: Seq<MediaJob>, replies: Seq<MediaReply>) -> bool {
    &&& jobs.len() == replies.len() + 1
    &&& jobs[0].step is FetchTitle || jobs[0].step is RunProfile
    &&& forall|i: int|
        #![trigger replies[i]]
        0 <= i < replies.len() ==> jobs[i].wf() && jobs[i].accepts(replies[i]) && media_advances(
            jobs[i],
            replies[i],
            jobs[i + 1],
        )
}

/// A download that ends has removed its file as the last thing but for the status, whatever came
/// of it; only a profile, which has its own directory, has none to remove.
pub proof fn law_run_removes_its_file(jobs: Seq<MediaJob>, replies: Seq<MediaReply>)
    requires
        is_media_run(jobs, replies),
        jobs[0].step is FetchTitle,
        jobs.last().step is Finish,
    ensures
        jobs[replies.len() - 1].step is RemoveFile || replies.len() >= 2 && jobs[replies.len()
            - 1].step is DeleteStatus && jobs[replies.len() - 2].step is RemoveFile,
{
    let last = replies.len() - 1;
    assert(media_advances(jobs[last], replies[last], jobs[last + 1]));
    assert(jobs[last].accepts(replies[last]));
    if last > 0 {
        assert(media_advances(jobs[last - 1], replies[last - 1], jobs[last]));
        assert(jobs[last - 1].accepts(replies[last - 1]));
        if last > 1 {
            assert(media_advances(jobs[last - 2], replies[last - 2], jobs[last - 1]));
            assert(jobs[last - 2].accepts(replies[last - 2]));
        }
    }
}

// Laws of whole runs

/// Media are sent only after they were downloaded, whatever the kind: before the user is told of
/// the sending, and before the sending, the download was run and was done.
pub proof fn law_sent_only_after_download(
    jobs: Seq<MediaJob>,
    replies: Seq<MediaReply>,
    at: int,
)
    requires
        is_media_run(jobs, replies),
        jobs[0].step is FetchTitle,
        0 <= at < jobs.len(),
    ensures
        jobs[at].step is ShowSending ==> at >= 1 && jobs[at - 1].step is Download && replies[at - 1]
            is Done,
        jobs[at].step is SendVideo || jobs[at].step is SendAudio ==> at >= 2 && jobs[at - 1].step
            is ShowSending && jobs[at - 2].step is Download && replies[at - 2] is Done,
{
    if at > 0 {
        assert(media_advances(jobs[at - 1], replies[at - 1], jobs[at]));
        assert(jobs[at - 1].accepts(replies[at - 1]));
        if at > 1 {
            assert(media_advances(jobs[at - 2], replies[at - 2], jobs[at - 1]));
            assert(jobs[at - 2].accepts(replies[at - 2]));
        }
    }
}

/// The title that a run gives the media: the field that was asked for first, or the word for the
/// kind where there is none.
pub open spec fn title_of_run(kind: DownloadKind, replies: Seq<MediaReply>) -> Seq<char> {
    match replies[0] {
        MediaReply::Field(Some(text)) => text@,
        _ => if kind is YouTubeAudio {
            "audio"@
        } else {
            "video"@
        },
    }
}

proof fn lemma_media_course(jobs: Seq<MediaJob>, replies: Seq<MediaReply>, at: int)
    requires
        is_media_run(jobs, replies),
        jobs[0].step is FetchTitle,
        0 <= at < jobs.len(),
    ensures
        jobs[at].kind == jobs[0].kind,
        !(jobs[at].step is RunProfile),
        jobs[at].step is FetchTitle ==> at == 0,
        jobs[at].step matches MediaStep::FetchCaption { field } ==> at == 1 && jobs[0].kind
            is YouTubeAudio && field@ == "channel"@,
        jobs[at].step is Download ==> at == if jobs[0].kind is YouTubeAudio {
            2int
        } else {
            1int
        },
        jobs[at].step is FetchCaption || jobs[at].step is Download || jobs[at].step is ShowSending
            ==> jobs[at].title@ == title_of_run(jobs[0].kind, replies),
        jobs[0].kind is YouTubeAudio && (jobs[at].step is Download || jobs[at].step is ShowSending)
            ==> replies[1] == MediaReply::Field(jobs[at].channel),
        jobs[at].step matches MediaStep::SendVideo { title } ==> !(jobs[0].kind is YouTubeAudio)
            && title@ == title_of_run(jobs[0].kind, replies),
        jobs[at].step matches MediaStep::SendAudio { title, channel } ==> jobs[0].kind
            is YouTubeAudio && title@ == title_of_run(jobs[0].kind, replies) && replies[1]
            == MediaReply::Field(channel),
    decreases at,
{
    if at > 0 {
        lemma_media_course(jobs, replies, at - 1);
        assert(media_advances(jobs[at - 1], replies[at - 1], jobs[at]));
        assert(jobs[at - 1].accepts(replies[at - 1]));
    }
}

/// Media go out under the title that was asked for first, or else under the word for their kind;
/// audio goes out as audio, with the channel that was asked for next, and everything else as a
/// video.
pub proof fn law_media_go_out_under_their_title(
    jobs: Seq<MediaJob>,
    replies: Seq<MediaReply>,
    at: int,
)
    requires
        is_media_run(jobs, replies),
        jobs[0].step is FetchTitle,
        0 <= at < jobs.len(),
    ensures
        jobs[at].step matches MediaStep::SendVideo { title } ==> !(jobs[0].kind is YouTubeAudio)
            && title@ == title_of_run(jobs[0].kind, replies),
        jobs[at].step matches MediaStep::SendAudio { title, channel } ==> jobs[0].kind
            is YouTubeAudio && title@ == title_of_run(jobs[0].kind, replies) && replies[1]
            == MediaReply::Field(channel),
        jobs[at].step matches MediaStep::FetchCaption { field } ==> field@ == "channel"@,
{
    lemma_media_course(jobs, replies, at);
}

/// Whether `job` downloads or sends the media.
pub open spec fn does_the_work(job: MediaJob) -> bool {
    job.step is Download || job.step is SendVideo || job.step is SendAudio
}

/// A run ends with what came of the sending, or of the download where that failed: with success
/// just when the media were sent, and else with the failure as it was told.
pub proof fn law_result_is_what_came_of_it(jobs: Seq<MediaJob>, replies: Seq<MediaReply>)
    requires
        is_media_run(jobs, replies),
        jobs[0].step is FetchTitle,
        jobs.last().step is Finish,
    ensures
        match jobs.last().step->Finish_0 {
            Ok(_) => replies.len() >= 3 && replies[replies.len() - 3] is Done && (
            jobs[replies.len() - 3].step is SendVideo || jobs[replies.len() - 3].step is SendAudio),
            Err(error) => replies.len() >= 2 && does_the_work(jobs[replies.len() - 2])
                && replies[replies.len() - 2] == MediaReply::Failed(error),
        },
{
    let n = replies.len() as int;
    lemma_media_course(jobs, replies, n - 1);
    assert(media_advances(jobs[n - 1], replies[n - 1], jobs[n]));
    assert(jobs[n - 1].accepts(replies[n - 1]));
    assert(n >= 2);
    lemma_media_course(jobs, replies, n - 2);
    assert(media_advances(jobs[n - 2], replies[n - 2], jobs[n - 1]));
    assert(jobs[n - 2].accepts(replies[n - 2]));
    if jobs[n - 1].step is DeleteStatus {
        assert(n >= 3);
        lemma_media_course(jobs, replies, n - 3);
        assert(media_advances(jobs[n - 3], replies[n - 3], jobs[n - 2]));
        assert(jobs[n - 3].accepts(replies[n - 3]));
    }
}

/// A profile is run as one, and ends with what came of it.
pub proof fn law_profile_ends_with_its_result(
    before: MediaJob,
    reply: MediaReply,
    after: MediaJob,
)
    requires
        before.wf(),
        before.accepts(reply),
        media_advances(before, reply, after),
        before.step is RunProfile,
    ensures
        reply is Done ==> after.step is DeleteStatus && after.outcome is Ok,
        reply matches MediaReply::Failed(error) ==> after.step == MediaStep::Finish(Err(error)),
{
}

/// The file of a download ends in the extension of its kind, after its identifier and a dot.
pub proof fn law_file_has_its_extension(id: Seq<char>, kind: DownloadKind)
    ensures
        media_file(id, kind) == id + if kind is YouTubeAudio {
            ".mp3"@
        } else {
            ".mp4"@
        },
{
    reveal_strlit(".");
    reveal_strlit("mp3");
    reveal_strlit("mp4");
    reveal_strlit(".mp3");
    reveal_strlit(".mp4");
    assert("."@ + "mp3"@ =~= ".mp3"@);
    assert("."@ + "mp4"@ =~= ".mp4"@);
    assert(id + "."@ + kind.extension() =~= id + ("."@ + kind.extension()));
}

/// The functions of a download do what its laws speak of: a profile is run as one, and every other
/// link begins with its title; the user is told of the sending in the words for the kind.
pub proof fn law_media_functions(
    kind: DownloadKind,
    first: MediaJob,
    before: MediaJob,
    reply: MediaReply,
    after: MediaJob,
    id: &str,
    name: String,
)
    requires
        call_ensures(MediaJob::new, (kind,), first),
        before.wf(),
        before.accepts(reply),
        call_ensures(MediaJob::advance, (before, reply), after),
        call_ensures(media_file_with, (id, kind), name),
    ensures
        first.wf() && first.kind == kind && first.channel is None,
        first.step is RunProfile <==> kind is InstagramProfile,
        !(kind is InstagramProfile) ==> (first.step matches MediaStep::FetchTitle { field } && field@
            == "title"@),
        after.wf() && media_advances(before, reply, after),
        after.step matches MediaStep::ShowSending { text } ==> text@ == if before.kind is YouTubeAudio {
            "Sending audio..."@
        } else {
            "Sending video..."@
        },
        name@ == id@ + if kind is YouTubeAudio {
            ".mp3"@
        } else {
            ".mp4"@
        },
{
    law_file_has_its_extension(id@, kind);
}

}
