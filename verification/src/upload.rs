//! Sending a file to the user, whole or in parts.
use vstd::prelude::*;

use crate::kind::{law_kinds_are_consistent, promised_height, DownloadKind};
use crate::text::{concat2, concat4, decimal, decimal_text, has_suffix};

verus! {

/// The size up to which a file is sent whole.
pub const MAX_TG_SIZE: u64 = 49 * 1024 * 1024;

/// Why Telegram refused an upload.
#[derive(Debug)]
pub enum UploadFailure {
    /// The upload was too large.
    RequestEntityTooLarge { text: String },
    /// Anything else.
    Other { text: String },
}

impl UploadFailure {
    /// What the error says.
    pub open spec fn wording(self) -> Seq<char> {
        match self {
            UploadFailure::RequestEntityTooLarge { text } => text@,
            UploadFailure::Other { text } => text@,
        }
    }

    /// What the error says.
    pub fn text(&self) -> (r: &str)
        ensures
            r@ == self.wording(),
    {
        match self {
            UploadFailure::RequestEntityTooLarge { text } => text.as_str(),
            UploadFailure::Other { text } => text.as_str(),
        }
    }
}

/// Whether the upload was refused for its size.
pub fn is_request_entity_too_large(failure: &UploadFailure) -> (r: bool)
    ensures
        r == (*failure is RequestEntityTooLarge),
{
    matches!(failure, UploadFailure::RequestEntityTooLarge { .. })
}

/// The title of part `index` of `total`; one part alone has the title of the whole.
pub open spec fn part_title(title: Seq<char>, index: nat, total: nat) -> Seq<char> {
    if total > 1 {
        title + " (part "@ + decimal(index + 1) + ")"@
    } else {
        title
    }
}

/// The title of part `index` of `total`.
pub fn part_label(title: &str, index: usize, total: usize) -> (r: String)
    requires
        index < total,
    ensures
        r@ == part_title(title@, index as nat, total as nat),
{
    if total > 1 {
        concat4(title, " (part ", decimal_text(index as u64 + 1).as_str(), ")")
    } else {
        title.to_owned()
    }
}

/// That part `index` could not be sent.
pub open spec fn part_error(index: nat, wording: Seq<char>) -> Seq<char> {
    "Telegram API error on chunk "@ + decimal(index + 1) + ": "@ + wording
}

fn part_failure(index: usize, failure: &UploadFailure) -> (r: String)
    requires
        index < usize::MAX,
    ensures
        r@ == part_error(index as nat, failure.wording()),
{
    concat4(
        "Telegram API error on chunk ",
        decimal_text(index as u64 + 1).as_str(),
        ": ",
        failure.text(),
    )
}

/// What came of a step.
#[derive(Debug)]
pub enum UploadReply {
    /// It was done; the upload was taken.
    Done,
    /// It failed.
    Failed(String),
    /// The file has this size.
    Size(u64),
    /// The upload was refused.
    Refused(UploadFailure),
    /// The file was split into so many parts.
    Parts(usize),
}

// Video

/// What is to be done next with a video.
#[derive(Debug)]
pub enum VideoStep {
    /// Read the size of the file.
    ReadSize,
    /// Send the file as a video.
    SendVideo { file_name: String },
    /// Send the file as a document, as it was refused as a video.
    SendInstead { file_name: String },
    /// Send the file as a document, as it is large.
    SendLarge { file_name: String },
    /// Split the file into parts with this extension.
    Split { ext: &'static str },
    /// Send a part as a video.
    SendPart { index: usize, file_name: String },
    /// Send a part as a document, as it was refused as a video.
    SendPartInstead { index: usize, file_name: String },
    /// Remove the parts.
    RemoveParts,
    /// Nothing: this is what came of it.
    Finish(Result<(), String>),
}

/// The sending of a video.
#[derive(Debug)]
pub struct VideoUpload {
    pub title: String,
    pub kind: DownloadKind,
    /// How many parts there are, once the file is split.
    pub parts: usize,
    pub step: VideoStep,
}

/// Whether `step` is what follows when the parts before `index` are sent.
pub open spec fn sends_part(step: VideoStep, title: Seq<char>, index: nat, total: nat) -> bool {
    if index < total {
        step matches VideoStep::SendPart { index: i, file_name } && i == index && file_name@
            == part_title(title, index, total) + ".mp4"@
    } else {
        step is RemoveParts
    }
}

/// Whether `step` splits the file as a video.
pub open spec fn splits_video(step: VideoStep) -> bool {
    step matches VideoStep::Split { ext } && ext@ == "mp4"@
}

/// Whether `step` ends the sending with the error `text`.
pub open spec fn video_fails(step: VideoStep, text: Seq<char>) -> bool {
    step matches VideoStep::Finish(Err(error)) && error@ == text
}

/// Whether `after` follows `before` when `reply` came of its step.
pub open spec fn video_advances(before: VideoUpload, reply: UploadReply, after: VideoUpload) -> bool {
    let whole = before.title@ + ".mp4"@;
    &&& after.title == before.title
    &&& after.kind == before.kind
    &&& match (before.step, reply) {
        (VideoStep::ReadSize, UploadReply::Size(size)) => if size <= MAX_TG_SIZE {
            after.step matches VideoStep::SendVideo { file_name } && file_name@ == whole
        } else if before.kind.max_height() is Some {
            after.step matches VideoStep::SendLarge { file_name } && file_name@ == whole
        } else {
            splits_video(after.step)
        },
        (VideoStep::ReadSize, UploadReply::Failed(error)) => video_fails(
            after.step,
            "Cannot read downloaded file: "@ + error@,
        ),
        (VideoStep::SendVideo { file_name }, UploadReply::Refused(failure)) => if failure is RequestEntityTooLarge {
            after.step == (VideoStep::SendInstead { file_name })
        } else {
            video_fails(after.step, "Telegram API error sending file: "@ + failure.wording())
        },
        (VideoStep::SendInstead { .. }, UploadReply::Refused(failure)) => video_fails(
            after.step,
            "Telegram API error sending file: "@ + failure.wording(),
        ),
        (VideoStep::SendLarge { .. }, UploadReply::Refused(failure)) => if failure is RequestEntityTooLarge {
            splits_video(after.step)
        } else {
            video_fails(after.step, "Telegram API error sending file: "@ + failure.wording())
        },
        (
            VideoStep::SendVideo { .. } | VideoStep::SendInstead { .. } | VideoStep::SendLarge { .. },
            _,
        ) => after.step == VideoStep::Finish(Ok(())),
        (VideoStep::Split { .. }, UploadReply::Failed(error)) => after.step == VideoStep::Finish(
            Err(error),
        ),
        (VideoStep::Split { .. }, UploadReply::Parts(total)) => after.parts == total && sends_part(
            after.step,
            before.title@,
            0,
            total as nat,
        ),
        (VideoStep::SendPart { index, file_name }, UploadReply::Refused(failure)) => after.parts
            == before.parts && if failure is RequestEntityTooLarge {
            after.step == (VideoStep::SendPartInstead { index, file_name })
        } else {
            video_fails(after.step, part_error(index as nat, failure.wording()))
        },
        (VideoStep::SendPartInstead { index, .. }, UploadReply::Refused(failure)) => video_fails(
            after.step,
            part_error(index as nat, failure.wording()),
        ),
        (VideoStep::SendPart { index, .. }, _) => after.parts == before.parts && sends_part(
            after.step,
            before.title@,
            (index + 1) as nat,
            before.parts as nat,
        ),
        (VideoStep::SendPartInstead { index, .. }, _) => after.parts == before.parts && sends_part(
            after.step,
            before.title@,
            (index + 1) as nat,
            before.parts as nat,
        ),
        (VideoStep::RemoveParts, _) => after.step == VideoStep::Finish(Ok(())),
        (_, _) => false,
    }
}

fn send_part(title: &str, index: usize, total: usize) -> (r: VideoStep)
    ensures
        sends_part(r, title@, index as nat, total as nat),
{
    if index < total {
        let label = part_label(title, index, total);
        VideoStep::SendPart { index, file_name: concat2(label.as_str(), ".mp4") }
    } else {
        VideoStep::RemoveParts
    }
}

fn file_refused(failure: &UploadFailure) -> (r: VideoStep)
    ensures
        video_fails(r, "Telegram API error sending file: "@ + failure.wording()),
{
    VideoStep::Finish(Err(concat2("Telegram API error sending file: ", failure.text())))
}

impl VideoUpload {
    /// A part that is being sent is one of those there are.
    pub open spec fn wf(self) -> bool {
        match self.step {
            VideoStep::SendPart { index, .. } => index < self.parts,
            VideoStep::SendPartInstead { index, .. } => index < self.parts,
            _ => true,
        }
    }

    /// Whether `reply` can come of the next step.
    pub open spec fn accepts(self, reply: UploadReply) -> bool {
        match self.step {
            VideoStep::Finish(_) => false,
            VideoStep::ReadSize => reply is Size || reply is Failed,
            VideoStep::Split { .. } => reply is Parts || reply is Failed,
            VideoStep::RemoveParts => reply is Done,
            _ => reply is Done || reply is Refused,
        }
    }

    /// The sending of a video of `kind` under `title`.
    pub fn new(title: &str, kind: DownloadKind) -> (r: VideoUpload)
        ensures
            r.wf(),
            r.title@ == title@,
            r.kind == kind,
            r.step is ReadSize,
    {
        VideoUpload { title: title.to_owned(), kind, parts: 0, step: VideoStep::ReadSize }
    }

    /// Goes on from what came of the step.
    pub fn advance(self, reply: UploadReply) -> (r: VideoUpload)
        requires
            self.wf(),
            self.accepts(reply),
        ensures
            r.wf(),
            video_advances(self, reply, r),
    {
        let VideoUpload { title, kind, parts, step } = self;
        let mut total: usize = parts;
        let next = match step {
            VideoStep::ReadSize => match reply {
                UploadReply::Size(size) => {
                    if size <= MAX_TG_SIZE {
                        VideoStep::SendVideo { file_name: concat2(title.as_str(), ".mp4") }
                    } else if kind.is_youtube_video() {
                        VideoStep::SendLarge { file_name: concat2(title.as_str(), ".mp4") }
                    } else {
                        VideoStep::Split { ext: "mp4" }
                    }
                },
                UploadReply::Failed(error) => VideoStep::Finish(
                    Err(concat2("Cannot read downloaded file: ", error.as_str())),
                ),
                _ => VideoStep::ReadSize,
            },
            VideoStep::SendVideo { file_name } => match reply {
                UploadReply::Refused(failure) => {
                    if is_request_entity_too_large(&failure) {
                        VideoStep::SendInstead { file_name }
                    } else {
                        file_refused(&failure)
                    }
                },
                _ => VideoStep::Finish(Ok(())),
            },
            VideoStep::SendInstead { file_name } => match reply {
                UploadReply::Refused(failure) => file_refused(&failure),
                _ => VideoStep::Finish(Ok(())),
            },
            VideoStep::SendLarge { file_name } => match reply {
                UploadReply::Refused(failure) => {
                    if is_request_entity_too_large(&failure) {
                        VideoStep::Split { ext: "mp4" }
                    } else {
                        file_refused(&failure)
                    }
                },
                _ => VideoStep::Finish(Ok(())),
            },
            VideoStep::Split { ext } => match reply {
                UploadReply::Parts(count) => {
                    total = count;
                    send_part(title.as_str(), 0, count)
                },
                UploadReply::Failed(error) => VideoStep::Finish(Err(error)),
                _ => VideoStep::Split { ext },
            },
            VideoStep::SendPart { index, file_name } => match reply {
                UploadReply::Refused(failure) => {
                    if is_request_entity_too_large(&failure) {
                        VideoStep::SendPartInstead { index, file_name }
                    } else {
                        VideoStep::Finish(Err(part_failure(index, &failure)))
                    }
                },
                _ => send_part(title.as_str(), index + 1, parts),
            },
            VideoStep::SendPartInstead { index, file_name } => match reply {
                UploadReply::Refused(failure) => VideoStep::Finish(
                    Err(part_failure(index, &failure)),
                ),
                _ => send_part(title.as_str(), index + 1, parts),
            },
            VideoStep::RemoveParts => VideoStep::Finish(Ok(())),
            VideoStep::Finish(result) => VideoStep::Finish(result),
        };
        VideoUpload { title, kind, parts: total, step: next }
    }
}

/// A video that is refused for its size is not given up: it goes out as a document instead, and
/// what is refused as a document goes out in parts.
pub proof fn law_too_large_is_tried_again(
    before: VideoUpload,
    text: String,
    after: VideoUpload,
)
    requires
        before.wf(),
        before.accepts(UploadReply::Refused(UploadFailure::RequestEntityTooLarge { text })),
        video_advances(
            before,
            UploadReply::Refused(UploadFailure::RequestEntityTooLarge { text }),
            after,
        ),
    ensures
        before.step is SendVideo ==> after.step is SendInstead,
        before.step is SendLarge ==> after.step is Split,
        before.step is SendPart ==> after.step is SendPartInstead,
{
}

/// A file within the limit is never split, and one beyond it is never sent as a video whole.
pub proof fn law_limit_decides(before: VideoUpload, size: u64, after: VideoUpload)
    requires
        before.wf(),
        before.step is ReadSize,
        video_advances(before, UploadReply::Size(size), after),
    ensures
        size <= MAX_TG_SIZE <==> after.step is SendVideo,
        after.step is Split ==> size > MAX_TG_SIZE,
{
}

/// Parts go out in their order, each once, and the sending succeeds only after the last.
pub proof fn law_parts_go_out_in_order(before: VideoUpload, after: VideoUpload)
    requires
        before.wf(),
        before.step is SendPart || before.step is SendPartInstead,
        video_advances(before, UploadReply::Done, after),
    ensures
        ({
            let index = match before.step {
                VideoStep::SendPart { index, .. } => index,
                VideoStep::SendPartInstead { index, .. } => index,
                _ => 0,
            };
            if index + 1 < before.parts {
                after.step matches VideoStep::SendPart { index: next, .. } && next == index + 1
            } else {
                after.step is RemoveParts
            }
        }),
{
}

/// Whether `jobs` is the run of a sending with these replies.
pub open spec fn is_video_run(jobs: Seq<VideoUpload>, replies: Seq<UploadReply>) -> bool {
    &&& jobs.len() == replies.len() + 1
    &&& jobs[0].step is ReadSize
    &&& forall|i: int|
        #![trigger replies[i]]
        0 <= i < replies.len() ==> jobs[i].wf() && jobs[i].accepts(replies[i]) && video_advances(
            jobs[i],
            replies[i],
            jobs[i + 1],
        )
}

/// Whether the whole file is sent at this point, and taken.
pub open spec fn whole_is_taken(job: VideoUpload, reply: UploadReply) -> bool {
    reply is Done && (job.step is SendVideo || job.step is SendInstead || job.step is SendLarge)
}

/// Whether part `index` is sent at this point, and taken.
pub open spec fn part_is_taken(job: VideoUpload, reply: UploadReply, index: int) -> bool {
    reply is Done && match job.step {
        VideoStep::SendPart { index: i, .. } => i == index,
        VideoStep::SendPartInstead { index: i, .. } => i == index,
        _ => false,
    }
}

/// Whether part `index` was sent at some point before `at`, and taken.
pub open spec fn part_was_taken(
    jobs: Seq<VideoUpload>,
    replies: Seq<UploadReply>,
    index: int,
    at: int,
) -> bool {
    exists|k: int| 0 <= k < at && part_is_taken(jobs[k], #[trigger] replies[k], index)
}

/// How many parts were sent when an upload is at `step`.
pub open spec fn parts_done(step: VideoStep, total: usize) -> int {
    match step {
        VideoStep::SendPart { index, .. } => index as int,
        VideoStep::SendPartInstead { index, .. } => index as int,
        VideoStep::RemoveParts => total as int,
        _ => 0,
    }
}

proof fn lemma_parts_were_taken(
    jobs: Seq<VideoUpload>,
    replies: Seq<UploadReply>,
    at: int,
    index: int,
)
    requires
        is_video_run(jobs, replies),
        0 <= at < jobs.len(),
        0 <= index < parts_done(jobs[at].step, jobs[at].parts),
    ensures
        part_was_taken(jobs, replies, index, at),
    decreases at,
{
    let last = at - 1;
    let before = jobs[last];
    let reply = replies[last];
    assert(video_advances(before, reply, jobs[at]));
    assert(before.wf() && before.accepts(reply));
    if index < parts_done(before.step, before.parts) {
        lemma_parts_were_taken(jobs, replies, last, index);
        let k = choose|k: int| 0 <= k < last && part_is_taken(jobs[k], #[trigger] replies[k], index);
        assert(0 <= k < at && part_is_taken(jobs[k], replies[k], index));
    } else {
        assert(part_is_taken(jobs[last], replies[last], index));
    }
}

/// A sending that succeeds got the video through: the whole file was taken, or each of its parts,
/// which were then removed.
pub proof fn law_success_means_sent(jobs: Seq<VideoUpload>, replies: Seq<UploadReply>)
    requires
        is_video_run(jobs, replies),
        jobs.last().step is Finish,
        jobs.last().step->Finish_0 is Ok,
    ensures
        ({
            let before = jobs[replies.len() - 1];
            ||| whole_is_taken(before, replies.last())
            ||| before.step is RemoveParts && forall|index: int|
                0 <= index < before.parts ==> #[trigger] part_was_taken(
                    jobs,
                    replies,
                    index,
                    replies.len() - 1,
                )
        }),
{
    let last = replies.len() - 1;
    assert(video_advances(jobs[last], replies[last], jobs[last + 1]));
    if jobs[last].step is RemoveParts {
        assert forall|index: int| 0 <= index < jobs[last].parts implies #[trigger] part_was_taken(
            jobs,
            replies,
            index,
            last,
        ) by {
            lemma_parts_were_taken(jobs, replies, last, index);
        }
    }
}

// Audio

/// Who audio is credited to: the performer and the caption, where there are any.
#[derive(Debug)]
pub struct AudioCredit {
    pub performer: Option<String>,
    pub caption: Option<String>,
}

/// Whether `credit` names the channel as performer and as caption, and neither where there is no
/// channel.
pub open spec fn credits(credit: AudioCredit, channel: Option<Seq<char>>) -> bool {
    credit.performer.deep_view() == channel && credit.caption.deep_view() == channel
}

/// Credits audio to its channel.
pub fn audio_credit(channel: &Option<String>) -> (r: AudioCredit)
    ensures
        credits(r, channel.deep_view()),
{
    match channel {
        Some(name) => AudioCredit { performer: Some(name.clone()), caption: Some(name.clone()) },
        None => AudioCredit { performer: None, caption: None },
    }
}

/// What is to be done next with audio.
#[derive(Debug)]
pub enum AudioStep {
    /// Read the size of the file.
    ReadSize,
    /// Send the file under the title, with the credit.
    SendWhole { file_name: String, title: String, credit: AudioCredit },
    /// Split the file into parts with this extension.
    Split { ext: &'static str },
    /// Send a part under the title, with the credit.
    SendPart { index: usize, file_name: String, title: String, credit: AudioCredit },
    /// Remove the parts.
    RemoveParts,
    /// Nothing: this is what came of it.
    Finish(Result<(), String>),
}

/// The sending of audio.
#[derive(Debug)]
pub struct AudioUpload {
    pub title: String,
    /// The channel that the audio is from, if it is known.
    pub channel: Option<String>,
    /// How many parts there are, once the file is split.
    pub parts: usize,
    pub step: AudioStep,
}

/// Whether `step` is what follows when the parts before `index` are sent.
pub open spec fn sends_audio_part(
    step: AudioStep,
    title: Seq<char>,
    channel: Option<Seq<char>>,
    index: nat,
    total: nat,
) -> bool {
    if index < total {
        step matches AudioStep::SendPart { index: i, file_name, title: label, credit } && i == index
            && credits(credit, channel) && label@ == part_title(title, index, total) && file_name@ == part_title(
            title,
            index,
            total,
        ) + ".mp3"@
    } else {
        step is RemoveParts
    }
}

/// Whether `step` splits the file as audio.
pub open spec fn splits_audio(step: AudioStep) -> bool {
    step matches AudioStep::Split { ext } && ext@ == "mp3"@
}

/// Whether `step` ends the sending with the error `text`.
pub open spec fn audio_fails(step: AudioStep, text: Seq<char>) -> bool {
    step matches AudioStep::Finish(Err(error)) && error@ == text
}

/// Whether `after` follows `before` when `reply` came of its step.
pub open spec fn audio_advances(before: AudioUpload, reply: UploadReply, after: AudioUpload) -> bool {
    &&& after.title == before.title
    &&& after.channel == before.channel
    &&& match (before.step, reply) {
        (AudioStep::ReadSize, UploadReply::Size(size)) => if size <= MAX_TG_SIZE {
            after.step matches AudioStep::SendWhole { file_name, title, credit } && file_name@
                == before.title@ + ".mp3"@ && title@ == before.title@ && credits(
                credit,
                before.channel.deep_view(),
            )
        } else {
            splits_audio(after.step)
        },
        (AudioStep::ReadSize, UploadReply::Failed(error)) => audio_fails(
            after.step,
            "Cannot read downloaded file: "@ + error@,
        ),
        (AudioStep::SendWhole { .. }, UploadReply::Refused(failure)) => audio_fails(
            after.step,
            "Telegram API error: "@ + failure.wording(),
        ),
        (AudioStep::SendWhole { .. }, _) => after.step == AudioStep::Finish(Ok(())),
        (AudioStep::Split { .. }, UploadReply::Failed(error)) => after.step == AudioStep::Finish(
            Err(error),
        ),
        (AudioStep::Split { .. }, UploadReply::Parts(total)) => after.parts == total && sends_audio_part(
            after.step,
            before.title@,
            before.channel.deep_view(),
            0,
            total as nat,
        ),
        (AudioStep::SendPart { index, .. }, UploadReply::Refused(failure)) => audio_fails(
            after.step,
            part_error(index as nat, failure.wording()),
        ),
        (AudioStep::SendPart { index, .. }, _) => after.parts == before.parts && sends_audio_part(
            after.step,
            before.title@,
            before.channel.deep_view(),
            (index + 1) as nat,
            before.parts as nat,
        ),
        (AudioStep::RemoveParts, _) => after.step == AudioStep::Finish(Ok(())),
        (_, _) => false,
    }
}

fn send_audio_part(title: &str, channel: &Option<String>, index: usize, total: usize) -> (r:
    AudioStep)
    ensures
        sends_audio_part(r, title@, channel.deep_view(), index as nat, total as nat),
{
    if index < total {
        let label = part_label(title, index, total);
        AudioStep::SendPart {
            index,
            file_name: concat2(label.as_str(), ".mp3"),
            title: label,
            credit: audio_credit(channel),
        }
    } else {
        AudioStep::RemoveParts
    }
}

impl AudioUpload {
    /// A part that is being sent is one of those there are.
    pub open spec fn wf(self) -> bool {
        match self.step {
            AudioStep::SendPart { index, .. } => index < self.parts,
            _ => true,
        }
    }

    /// Whether `reply` can come of the next step.
    pub open spec fn accepts(self, reply: UploadReply) -> bool {
        match self.step {
            AudioStep::Finish(_) => false,
            AudioStep::ReadSize => reply is Size || reply is Failed,
            AudioStep::Split { .. } => reply is Parts || reply is Failed,
            AudioStep::RemoveParts => reply is Done,
            _ => reply is Done || reply is Refused,
        }
    }

    /// The sending of audio of `channel` under `title`.
    pub fn new(title: &str, channel: Option<&str>) -> (r: AudioUpload)
        ensures
            r.wf(),
            r.title@ == title@,
            r.channel.deep_view() == channel.deep_view(),
            r.step is ReadSize,
    {
        let channel = match channel {
            Some(name) => Some(name.to_owned()),
            None => None,
        };
        AudioUpload { title: title.to_owned(), channel, parts: 0, step: AudioStep::ReadSize }
    }

    /// Goes on from what came of the step.
    pub fn advance(self, reply: UploadReply) -> (r: AudioUpload)
        requires
            self.wf(),
            self.accepts(reply),
        ensures
            r.wf(),
            audio_advances(self, reply, r),
    {
        let AudioUpload { title, channel, parts, step } = self;
        let mut total: usize = parts;
        let next = match step {
            AudioStep::ReadSize => match reply {
                UploadReply::Size(size) => {
                    if size <= MAX_TG_SIZE {
                        AudioStep::SendWhole {
                            file_name: concat2(title.as_str(), ".mp3"),
                            title: title.clone(),
                            credit: audio_credit(&channel),
                        }
                    } else {
                        AudioStep::Split { ext: "mp3" }
                    }
                },
                UploadReply::Failed(error) => AudioStep::Finish(
                    Err(concat2("Cannot read downloaded file: ", error.as_str())),
                ),
                _ => AudioStep::ReadSize,
            },
            AudioStep::SendWhole { .. } => match reply {
                UploadReply::Refused(failure) => AudioStep::Finish(
                    Err(concat2("Telegram API error: ", failure.text())),
                ),
                _ => AudioStep::Finish(Ok(())),
            },
            AudioStep::Split { ext } => match reply {
                UploadReply::Parts(count) => {
                    total = count;
                    send_audio_part(title.as_str(), &channel, 0, count)
                },
                UploadReply::Failed(error) => AudioStep::Finish(Err(error)),
                _ => AudioStep::Split { ext },
            },
            AudioStep::SendPart { index, .. } => match reply {
                UploadReply::Refused(failure) => AudioStep::Finish(
                    Err(part_failure(index, &failure)),
                ),
                _ => send_audio_part(title.as_str(), &channel, index + 1, parts),
            },
            AudioStep::RemoveParts => AudioStep::Finish(Ok(())),
            AudioStep::Finish(result) => AudioStep::Finish(result),
        };
        AudioUpload { title, channel, parts: total, step: next }
    }
}

/// Every upload of audio is credited to its channel, and to nobody where there is none.
pub proof fn law_audio_is_credited(before: AudioUpload, reply: UploadReply, after: AudioUpload)
    requires
        before.wf(),
        before.accepts(reply),
        audio_advances(before, reply, after),
    ensures
        after.step matches AudioStep::SendWhole { credit, .. } ==> credits(
            credit,
            before.channel.deep_view(),
        ),
        after.step matches AudioStep::SendPart { credit, .. } ==> credits(
            credit,
            before.channel.deep_view(),
        ),
{
}

/// Whether `jobs` is the run of a sending of audio with these replies.
pub open spec fn is_audio_run(jobs: Seq<AudioUpload>, replies: Seq<UploadReply>) -> bool {
    &&& jobs.len() == replies.len() + 1
    &&& jobs[0].step is ReadSize
    &&& forall|i: int|
        #![trigger replies[i]]
        0 <= i < replies.len() ==> jobs[i].wf() && jobs[i].accepts(replies[i]) && audio_advances(
            jobs[i],
            replies[i],
            jobs[i + 1],
        )
}

/// Whether part `index` of the audio is sent at this point, and taken.
pub open spec fn audio_part_is_taken(job: AudioUpload, reply: UploadReply, index: int) -> bool {
    reply is Done && (job.step matches AudioStep::SendPart { index: i, .. } && i == index)
}

/// Whether part `index` of the audio was sent at some point before `at`, and taken.
pub open spec fn audio_part_was_taken(
    jobs: Seq<AudioUpload>,
    replies: Seq<UploadReply>,
    index: int,
    at: int,
) -> bool {
    exists|k: int| 0 <= k < at && audio_part_is_taken(jobs[k], #[trigger] replies[k], index)
}

/// How many parts were sent when an upload of audio is at `step`.
pub open spec fn audio_parts_done(step: AudioStep, total: usize) -> int {
    match step {
        AudioStep::SendPart { index, .. } => index as int,
        AudioStep::RemoveParts => total as int,
        _ => 0,
    }
}

proof fn lemma_audio_parts_were_taken(
    jobs: Seq<AudioUpload>,
    replies: Seq<UploadReply>,
    at: int,
    index: int,
)
    requires
        is_audio_run(jobs, replies),
        0 <= at < jobs.len(),
        0 <= index < audio_parts_done(jobs[at].step, jobs[at].parts),
    ensures
        audio_part_was_taken(jobs, replies, index, at),
    decreases at,
{
    let last = at - 1;
    let before = jobs[last];
    let reply = replies[last];
    assert(audio_advances(before, reply, jobs[at]));
    assert(before.wf() && before.accepts(reply));
    if index < audio_parts_done(before.step, before.parts) {
        lemma_audio_parts_were_taken(jobs, replies, last, index);
        let k = choose|k: int|
            0 <= k < last && audio_part_is_taken(jobs[k], #[trigger] replies[k], index);
        assert(0 <= k < at && audio_part_is_taken(jobs[k], replies[k], index));
    } else {
        assert(audio_part_is_taken(jobs[last], replies[last], index));
    }
}

/// A sending of audio that succeeds got it through: the whole file was taken, or each of its
/// parts, which were then removed.
pub proof fn law_audio_success_means_sent(jobs: Seq<AudioUpload>, replies: Seq<UploadReply>)
    requires
        is_audio_run(jobs, replies),
        jobs.last().step is Finish,
        jobs.last().step->Finish_0 is Ok,
    ensures
        ({
            let before = jobs[replies.len() - 1];
            ||| before.step is SendWhole && replies.last() is Done
            ||| before.step is RemoveParts && forall|index: int|
                0 <= index < before.parts ==> #[trigger] audio_part_was_taken(
                    jobs,
                    replies,
                    index,
                    replies.len() - 1,
                )
        }),
{
    let last = replies.len() - 1;
    assert(audio_advances(jobs[last], replies[last], jobs[last + 1]));
    if jobs[last].step is RemoveParts {
        assert forall|index: int|
            0 <= index < jobs[last].parts implies #[trigger] audio_part_was_taken(
            jobs,
            replies,
            index,
            last,
        ) by {
            lemma_audio_parts_were_taken(jobs, replies, last, index);
        }
    }
}

// Laws of whole runs

/// The name of part `index` of `total` of a file with this title and extension: the title alone
/// where there is one part, and else with the number of the part, which counts from one.
pub open spec fn part_file(
    title: Seq<char>,
    index: int,
    total: int,
    extension: Seq<char>,
) -> Seq<char> {
    if total == 1 {
        title + extension
    } else {
        title + " (part "@ + decimal((index + 1) as nat) + ")"@ + extension
    }
}

proof fn lemma_video_course(jobs: Seq<VideoUpload>, replies: Seq<UploadReply>, at: int)
    requires
        is_video_run(jobs, replies),
        0 <= at < jobs.len(),
    ensures
        jobs[at].title == jobs[0].title,
        jobs[at].kind == jobs[0].kind,
        jobs[at].step is ReadSize ==> at == 0,
        jobs[at].step matches VideoStep::SendVideo { file_name } ==> at == 1 && replies[0] is Size
            && replies[0]->Size_0 <= 51_380_224 && file_name@ == jobs[0].title@ + ".mp4"@,
        jobs[at].step matches VideoStep::SendLarge { file_name } ==> at == 1 && replies[0] is Size
            && replies[0]->Size_0 > 51_380_224 && jobs[0].kind.max_height() is Some && file_name@
            == jobs[0].title@ + ".mp4"@,
        jobs[at].step matches VideoStep::SendInstead { file_name } ==> at == 2 && jobs[1].step
            is SendVideo && was_too_large(replies[1]) && file_name@ == jobs[0].title@ + ".mp4"@,
        jobs[at].step matches VideoStep::Split { ext } ==> ext@ == "mp4"@ && replies[0] is Size
            && replies[0]->Size_0 > 51_380_224 && if jobs[0].kind.max_height() is Some {
            at == 2 && jobs[1].step is SendLarge && was_too_large(replies[1])
        } else {
            at == 1
        },
        jobs[at].step matches VideoStep::SendPart { index, file_name } ==> index < jobs[at].parts
            && was_split_into(jobs, replies, jobs[at].parts, at) && file_name@ == part_file(
            jobs[0].title@,
            index as int,
            jobs[at].parts as int,
            ".mp4"@,
        ),
        jobs[at].step matches VideoStep::SendPartInstead { index, file_name } ==> index
            < jobs[at].parts && was_split_into(jobs, replies, jobs[at].parts, at) && jobs[at
            - 1].step == (VideoStep::SendPart { index, file_name }) && was_too_large(replies[at - 1])
            && file_name@ == part_file(
            jobs[0].title@,
            index as int,
            jobs[at].parts as int,
            ".mp4"@,
        ),
        jobs[at].step is RemoveParts ==> was_split_into(jobs, replies, jobs[at].parts, at),
    decreases at,
{
    if at > 0 {
        let last = at - 1;
        lemma_video_course(jobs, replies, last);
        assert(video_advances(jobs[last], replies[last], jobs[at]));
        assert(jobs[last].wf() && jobs[last].accepts(replies[last]));
        if was_split_into(jobs, replies, jobs[last].parts, last) {
            let k = choose|k: int|
                0 <= k < last && jobs[k].step is Split && #[trigger] replies[k]
                    == UploadReply::Parts(jobs[last].parts);
            assert(0 <= k < at && jobs[k].step is Split && replies[k] == UploadReply::Parts(
                jobs[last].parts,
            ));
        }
        if jobs[last].step is Split && replies[last] is Parts {
            assert(replies[last] == UploadReply::Parts(jobs[at].parts));
            assert(was_split_into(jobs, replies, jobs[at].parts, at));
        }
    }
}

/// Whether `reply` refuses an upload for its size.
pub open spec fn was_too_large(reply: UploadReply) -> bool {
    reply matches UploadReply::Refused(failure) && failure is RequestEntityTooLarge
}

/// Whether the file was split into `count` parts before `at`.
pub open spec fn was_split_into(
    jobs: Seq<VideoUpload>,
    replies: Seq<UploadReply>,
    count: usize,
    at: int,
) -> bool {
    exists|k: int|
        0 <= k < at && jobs[k].step is Split && #[trigger] replies[k] == UploadReply::Parts(count)
}

/// How a video goes out. Up to 49 MiB it goes whole, as a video, and as a document where it is
/// refused for its size. A larger one goes whole as a document where its height was chosen, and in
/// parts where that is refused for its size; every other one goes in parts at once. A part goes as
/// a video first, and as a document where it is refused for its size. All go by the title, parts
/// with their number.
pub proof fn law_video_goes_out_by_its_size(
    jobs: Seq<VideoUpload>,
    replies: Seq<UploadReply>,
    at: int,
)
    requires
        is_video_run(jobs, replies),
        0 <= at < jobs.len(),
    ensures
        jobs[at].step matches VideoStep::SendVideo { file_name } ==> replies[0] is Size
            && replies[0]->Size_0 <= 51_380_224 && file_name@ == jobs[0].title@ + ".mp4"@,
        jobs[at].step matches VideoStep::SendInstead { file_name } ==> jobs[1].step is SendVideo
            && was_too_large(replies[1]) && file_name@ == jobs[0].title@ + ".mp4"@,
        jobs[at].step matches VideoStep::SendLarge { file_name } ==> replies[0] is Size
            && replies[0]->Size_0 > 51_380_224 && promised_height(jobs[0].kind) is Some
            && file_name@ == jobs[0].title@ + ".mp4"@,
        jobs[at].step matches VideoStep::Split { ext } ==> ext@ == "mp4"@ && replies[0] is Size
            && replies[0]->Size_0 > 51_380_224 && (promised_height(jobs[0].kind) is Some ==> jobs[1].step
            is SendLarge && was_too_large(replies[1])),
        jobs[at].step matches VideoStep::SendPart { index, file_name } ==> was_split_into(
            jobs,
            replies,
            jobs[at].parts,
            at,
        ) && index < jobs[at].parts && file_name@ == part_file(
            jobs[0].title@,
            index as int,
            jobs[at].parts as int,
            ".mp4"@,
        ),
        jobs[at].step matches VideoStep::SendPartInstead { index, file_name } ==> at >= 1 && jobs[at
            - 1].step == (VideoStep::SendPart { index, file_name }) && was_too_large(replies[at - 1]),
{
    lemma_video_course(jobs, replies, at);
    law_kinds_are_consistent(jobs[0].kind);
}

/// A video of a size that was read always has a way out: whole, as a document, or in parts.
pub proof fn law_video_has_a_way_out(before: VideoUpload, size: u64, after: VideoUpload)
    requires
        before.wf(),
        before.step is ReadSize,
        video_advances(before, UploadReply::Size(size), after),
    ensures
        size <= 51_380_224 ==> after.step is SendVideo,
        size > 51_380_224 && promised_height(before.kind) is Some ==> after.step is SendLarge,
        size > 51_380_224 && promised_height(before.kind) is None ==> after.step is Split,
{
    law_kinds_are_consistent(before.kind);
}

/// A sending that succeeds in parts got each part through that the file was split into, no fewer.
pub proof fn law_every_part_is_sent(jobs: Seq<VideoUpload>, replies: Seq<UploadReply>)
    requires
        is_video_run(jobs, replies),
        jobs.last().step is Finish,
        jobs.last().step->Finish_0 is Ok,
    ensures
        whole_is_taken(jobs[replies.len() - 1], replies.last()) || exists|k: int|
            0 <= k < replies.len() && jobs[k].step is Split && (#[trigger] replies[k]) is Parts
                && forall|index: int|
                0 <= index < replies[k]->Parts_0 ==> #[trigger] part_was_taken(
                    jobs,
                    replies,
                    index,
                    replies.len() - 1,
                ),
{
    let last = replies.len() - 1;
    law_success_means_sent(jobs, replies);
    lemma_video_course(jobs, replies, last);
    if !whole_is_taken(jobs[last], replies.last()) {
        let count = jobs[last].parts;
        let k = choose|k: int|
            0 <= k < last && jobs[k].step is Split && #[trigger] replies[k] == UploadReply::Parts(
                count,
            );
        assert(0 <= k < replies.len() && replies[k] == UploadReply::Parts(count));
    }
}

/// An upload that is refused, but not for its size, ends the sending with the words of the refusal;
/// so does one that is refused for its size when nothing else is left to try.
pub proof fn law_refusals_are_told(before: VideoUpload, failure: UploadFailure, after: VideoUpload)
    requires
        before.wf(),
        before.accepts(UploadReply::Refused(failure)),
        video_advances(before, UploadReply::Refused(failure), after),
    ensures
        !(failure is RequestEntityTooLarge) || before.step is SendInstead || before.step
            is SendPartInstead ==> (after.step matches VideoStep::Finish(Err(text)) && has_suffix(
            text@,
            match failure {
                UploadFailure::RequestEntityTooLarge { text } => text@,
                UploadFailure::Other { text } => text@,
            },
        )),
{
    let words = failure.wording();
    lemma_said("Telegram API error sending file: "@, words);
    match before.step {
        VideoStep::SendPart { index, .. } => {
            lemma_said(
                "Telegram API error on chunk "@ + decimal(index as nat + 1) + ": "@,
                words,
            );
        },
        VideoStep::SendPartInstead { index, .. } => {
            lemma_said(
                "Telegram API error on chunk "@ + decimal(index as nat + 1) + ": "@,
                words,
            );
        },
        _ => {},
    }
}

/// What cannot be read or split ends the sending with the words of the failure.
pub proof fn law_upload_failures_are_told(
    before: VideoUpload,
    error: String,
    after: VideoUpload,
    first: AudioUpload,
    second: AudioUpload,
)
    requires
        before.accepts(UploadReply::Failed(error)),
        video_advances(before, UploadReply::Failed(error), after),
        first.accepts(UploadReply::Failed(error)),
        audio_advances(first, UploadReply::Failed(error), second),
    ensures
        after.step matches VideoStep::Finish(Err(text)) && has_suffix(text@, error@),
        second.step matches AudioStep::Finish(Err(text)) && has_suffix(text@, error@),
{
    lemma_said("Cannot read downloaded file: "@, error@);
    lemma_said(Seq::empty(), error@);
    assert(Seq::<char>::empty() + error@ =~= error@);
}

proof fn lemma_said(a: Seq<char>, b: Seq<char>)
    ensures
        has_suffix(a + b, b),
{
    assert((a + b).skip((a + b).len() - b.len()) =~= b);
}

/// Whether the audio was split into `count` parts before `at`.
pub open spec fn audio_was_split_into(
    jobs: Seq<AudioUpload>,
    replies: Seq<UploadReply>,
    count: usize,
    at: int,
) -> bool {
    exists|k: int|
        0 <= k < at && jobs[k].step is Split && #[trigger] replies[k] == UploadReply::Parts(count)
}

proof fn lemma_audio_course(jobs: Seq<AudioUpload>, replies: Seq<UploadReply>, at: int)
    requires
        is_audio_run(jobs, replies),
        0 <= at < jobs.len(),
    ensures
        jobs[at].title == jobs[0].title,
        jobs[at].channel == jobs[0].channel,
        jobs[at].step is ReadSize ==> at == 0,
        jobs[at].step matches AudioStep::SendWhole { file_name, title, credit } ==> at == 1
            && replies[0] is Size && replies[0]->Size_0 <= 51_380_224 && file_name@
            == jobs[0].title@ + ".mp3"@ && title@ == jobs[0].title@ && credit.performer.deep_view()
            == jobs[0].channel.deep_view() && credit.caption.deep_view()
            == jobs[0].channel.deep_view(),
        jobs[at].step matches AudioStep::Split { ext } ==> at == 1 && ext@ == "mp3"@ && replies[0]
            is Size && replies[0]->Size_0 > 51_380_224,
        jobs[at].step matches AudioStep::SendPart { index, file_name, title, credit } ==> {
            &&& audio_was_split_into(jobs, replies, jobs[at].parts, at)
            &&& index < jobs[at].parts
            &&& title@ == part_file(
                jobs[0].title@,
                index as int,
                jobs[at].parts as int,
                Seq::empty(),
            )
            &&& file_name@ == part_file(
                jobs[0].title@,
                index as int,
                jobs[at].parts as int,
                ".mp3"@,
            )
            &&& credit.performer.deep_view() == jobs[0].channel.deep_view()
            &&& credit.caption.deep_view() == jobs[0].channel.deep_view()
        },
        jobs[at].step is RemoveParts ==> audio_was_split_into(jobs, replies, jobs[at].parts, at),
    decreases at,
{
    if at > 0 {
        let last = at - 1;
        lemma_audio_course(jobs, replies, last);
        assert(audio_advances(jobs[last], replies[last], jobs[at]));
        assert(jobs[last].wf() && jobs[last].accepts(replies[last]));
        if audio_was_split_into(jobs, replies, jobs[last].parts, last) {
            let k = choose|k: int|
                0 <= k < last && jobs[k].step is Split && #[trigger] replies[k]
                    == UploadReply::Parts(jobs[last].parts);
            assert(0 <= k < at && jobs[k].step is Split && replies[k] == UploadReply::Parts(
                jobs[last].parts,
            ));
        }
        if jobs[last].step is Split && replies[last] is Parts {
            assert(replies[last] == UploadReply::Parts(jobs[at].parts));
            assert(audio_was_split_into(jobs, replies, jobs[at].parts, at));
        }
        if let AudioStep::SendPart { index, title, .. } = jobs[at].step {
            let label = part_title(jobs[0].title@, index as nat, jobs[at].parts as nat);
            assert(label + Seq::<char>::empty() =~= label);
        }
    }
}

/// How audio goes out: whole up to 49 MiB, in parts beyond, by its title, parts with their number,
/// and with its channel, where it has one, as performer and caption each time.
pub proof fn law_audio_goes_out_by_its_size(
    jobs: Seq<AudioUpload>,
    replies: Seq<UploadReply>,
    at: int,
)
    requires
        is_audio_run(jobs, replies),
        0 <= at < jobs.len(),
    ensures
        jobs[at].step matches AudioStep::SendWhole { file_name, title, credit } ==> replies[0]
            is Size && replies[0]->Size_0 <= 51_380_224 && file_name@ == jobs[0].title@ + ".mp3"@
            && title@ == jobs[0].title@ && credit.performer.deep_view()
            == jobs[0].channel.deep_view() && credit.caption.deep_view()
            == jobs[0].channel.deep_view(),
        jobs[at].step matches AudioStep::Split { ext } ==> ext@ == "mp3"@ && replies[0] is Size
            && replies[0]->Size_0 > 51_380_224,
        jobs[at].step matches AudioStep::SendPart { index, file_name, title, credit } ==> {
            &&& audio_was_split_into(jobs, replies, jobs[at].parts, at)
            &&& index < jobs[at].parts
            &&& title@ == part_file(
                jobs[0].title@,
                index as int,
                jobs[at].parts as int,
                Seq::empty(),
            )
            &&& file_name@ == part_file(
                jobs[0].title@,
                index as int,
                jobs[at].parts as int,
                ".mp3"@,
            )
            &&& credit.performer.deep_view() == jobs[0].channel.deep_view()
            &&& credit.caption.deep_view() == jobs[0].channel.deep_view()
        },
{
    lemma_audio_course(jobs, replies, at);
}

/// A sending of audio that succeeds in parts got each part through that the file was split into.
pub proof fn law_every_audio_part_is_sent(jobs: Seq<AudioUpload>, replies: Seq<UploadReply>)
    requires
        is_audio_run(jobs, replies),
        jobs.last().step is Finish,
        jobs.last().step->Finish_0 is Ok,
    ensures
        jobs[replies.len() - 1].step is SendWhole && replies.last() is Done || exists|k: int|
            0 <= k < replies.len() && jobs[k].step is Split && (#[trigger] replies[k]) is Parts
                && forall|index: int|
                0 <= index < replies[k]->Parts_0 ==> #[trigger] audio_part_was_taken(
                    jobs,
                    replies,
                    index,
                    replies.len() - 1,
                ),
{
    let last = replies.len() - 1;
    law_audio_success_means_sent(jobs, replies);
    lemma_audio_course(jobs, replies, last);
    if jobs[last].step is RemoveParts {
        let count = jobs[last].parts;
        let k = choose|k: int|
            0 <= k < last && jobs[k].step is Split && #[trigger] replies[k] == UploadReply::Parts(
                count,
            );
        assert(0 <= k < replies.len() && replies[k] == UploadReply::Parts(count));
    }
}

/// Audio of a size that was read goes whole or in parts, and a refusal ends the sending with its
/// words.
pub proof fn law_audio_has_a_way_out(before: AudioUpload, reply: UploadReply, after: AudioUpload)
    requires
        before.wf(),
        before.accepts(reply),
        audio_advances(before, reply, after),
    ensures
        reply matches UploadReply::Size(size) ==> if size <= 51_380_224 {
            after.step is SendWhole
        } else {
            after.step is Split
        },
        reply matches UploadReply::Refused(failure) ==> (after.step matches AudioStep::Finish(
            Err(text),
        ) && has_suffix(
            text@,
            match failure {
                UploadFailure::RequestEntityTooLarge { text } => text@,
                UploadFailure::Other { text } => text@,
            },
        )),
{
    if let UploadReply::Refused(failure) = reply {
        let words = failure.wording();
        lemma_said("Telegram API error: "@, words);
        if let AudioStep::SendPart { index, .. } = before.step {
            lemma_said(
                "Telegram API error on chunk "@ + decimal(index as nat + 1) + ": "@,
                words,
            );
        }
    }
}

/// A sending fails only for a cause: something that failed, or a refusal. A file that was split goes
/// out from its first part on.
pub proof fn law_sending_fails_only_for_a_cause(
    before: VideoUpload,
    reply: UploadReply,
    after: VideoUpload,
    first: AudioUpload,
    second: AudioUpload,
)
    requires
        before.wf(),
        before.accepts(reply),
        video_advances(before, reply, after),
        first.wf(),
        first.accepts(reply),
        audio_advances(first, reply, second),
    ensures
        after.step is Finish && after.step->Finish_0 is Err ==> reply is Failed || reply is Refused,
        second.step is Finish && second.step->Finish_0 is Err ==> reply is Failed || reply is Refused,
        reply matches UploadReply::Parts(count) ==> after.parts == count && second.parts == count && (
        count > 0 ==> (after.step matches VideoStep::SendPart { index, .. } && index == 0) && (
        second.step matches AudioStep::SendPart { index, .. } && index == 0)) && (count == 0
            ==> after.step is RemoveParts && second.step is RemoveParts),
{
}

/// What goes wrong with a sending is told in words that name the file, or the part by its number.
pub proof fn law_sending_failures_have_their_words(
    before: VideoUpload,
    failure: UploadFailure,
    after: VideoUpload,
    first: AudioUpload,
    second: AudioUpload,
)
    requires
        before.wf(),
        before.accepts(UploadReply::Refused(failure)),
        video_advances(before, UploadReply::Refused(failure), after),
        first.wf(),
        first.accepts(UploadReply::Refused(failure)),
        audio_advances(first, UploadReply::Refused(failure), second),
    ensures
        ({
            let words = match failure {
                UploadFailure::RequestEntityTooLarge { text } => text@,
                UploadFailure::Other { text } => text@,
            };
            &&& after.step matches VideoStep::Finish(Err(text)) ==> text@ == match before.step {
                VideoStep::SendPart { index, .. } => "Telegram API error on chunk "@ + decimal(
                    index as nat + 1,
                ) + ": "@ + words,
                VideoStep::SendPartInstead { index, .. } => "Telegram API error on chunk "@
                    + decimal(index as nat + 1) + ": "@ + words,
                _ => "Telegram API error sending file: "@ + words,
            }
            &&& second.step matches AudioStep::Finish(Err(text)) && text@ == match first.step {
                AudioStep::SendPart { index, .. } => "Telegram API error on chunk "@ + decimal(
                    index as nat + 1,
                ) + ": "@ + words,
                _ => "Telegram API error: "@ + words,
            }
        }),
{
}

/// The functions of a sending do what its laws speak of.
pub proof fn law_upload_functions(
    title: &str,
    kind: DownloadKind,
    video: VideoUpload,
    channel: Option<&str>,
    audio: AudioUpload,
    before: VideoUpload,
    reply: UploadReply,
    after: VideoUpload,
    first: AudioUpload,
    second: AudioUpload,
    failure: UploadFailure,
    too_large: bool,
    words: &str,
    owner: Option<String>,
    credit: AudioCredit,
    index: usize,
    total: usize,
    label: String,
)
    requires
        call_ensures(VideoUpload::new, (title, kind), video),
        call_ensures(AudioUpload::new, (title, channel), audio),
        call_ensures(VideoUpload::advance, (before, reply), after),
        call_ensures(AudioUpload::advance, (first, reply), second),
        call_ensures(is_request_entity_too_large, (&failure,), too_large),
        call_ensures(UploadFailure::text, (&failure,), words),
        call_ensures(audio_credit, (&owner,), credit),
        index < total,
        call_ensures(part_label, (title, index, total), label),
    ensures
        video.wf() && video.title@ == title@ && video.kind == kind && video.step is ReadSize,
        audio.wf() && audio.title@ == title@ && audio.channel.deep_view() == channel.deep_view()
            && audio.step is ReadSize,
        after.wf() && video_advances(before, reply, after),
        second.wf() && audio_advances(first, reply, second),
        too_large <==> failure is RequestEntityTooLarge,
        failure matches UploadFailure::RequestEntityTooLarge { text } ==> words@ == text@,
        failure matches UploadFailure::Other { text } ==> words@ == text@,
        credit.performer.deep_view() == owner.deep_view(),
        credit.caption.deep_view() == owner.deep_view(),
        label@ == part_file(title@, index as int, total as int, Seq::empty()),
{
    let numbered = title@ + " (part "@ + decimal((index + 1) as nat) + ")"@;
    assert(numbered + Seq::<char>::empty() =~= numbered);
    assert(title@ + Seq::<char>::empty() =~= title@);
}

}
