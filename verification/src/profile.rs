//! The download of all Reels of an Instagram profile as one video.
use vstd::prelude::*;

use crate::kind::DownloadKind;
use crate::link::{group_text, instagram_profile_username, IG_PROFILE_RE};
use crate::outside::{is_random_id, random_id, regex_captures};
use crate::text::{
    concat2, concat3, concat5, decimal, decimal_text, digits_value, has_suffix,
    law_padded_injective, law_padded_round_trip, zero_padded, zero_padded_text, NumberError,
};

verus! {

/// The file within the directory of a profile that holds all its Reels.
pub const REELS_FILE: &'static str = "reels.mp4";

/// What is to be done next.
#[derive(Debug)]
pub enum ProfileStep {
    /// Create the directory with this name.
    CreateDir { name: String },
    /// Show the user the text: the page is scrolled.
    ShowScrolling { text: String },
    /// Gather the addresses of the Reels of the user.
    Gather { username: String },
    /// Show the user the text: a Reel is downloaded.
    ShowDownloading { index: usize, text: String },
    /// Download a Reel into the file, in the format of the kind.
    Download { index: usize, url: String, file: String, kind: DownloadKind },
    /// Show the user the text: the Reels are put together.
    ShowConcatenating { text: String },
    /// Put the Reels in the files together, in this order, as the output.
    Concatenate { files: Vec<String>, output: &'static str },
    /// Show the user the text: the video is sent.
    ShowSending { text: String },
    /// Send the video in the output under the title, as one of the kind.
    Send { output: &'static str, title: String, kind: DownloadKind },
    /// Remove the directory.
    RemoveDir,
    /// Nothing: this is what came of it.
    Finish(Result<(), String>),
}

/// What came of a step.
#[derive(Debug)]
pub enum ProfileReply {
    /// It was done.
    Done,
    /// It failed.
    Failed(String),
    /// The addresses of the Reels were gathered.
    Gathered(Vec<String>),
}

/// The download of a profile.
#[derive(Debug)]
pub struct ProfileJob {
    pub username: String,
    /// The addresses of the Reels, once they are gathered.
    pub urls: Vec<String>,
    /// What will have come of it once the directory is removed.
    pub outcome: Result<(), String>,
    pub step: ProfileStep,
}

/// The file of the Reel `index`.
pub open spec fn reel_file(index: nat) -> Seq<char> {
    zero_padded(index, 5) + ".mp4"@
}

/// The file of the Reel `index`.
pub fn reel_file_name(index: usize) -> (r: String)
    ensures
        r@ == reel_file(index as nat),
{
    concat2(zero_padded_text(index as u64, 5).as_str(), ".mp4")
}

/// The files of the first `count` Reels, in order.
pub open spec fn reel_files(count: nat) -> Seq<Seq<char>> {
    Seq::new(count, |i: int| reel_file(i as nat))
}

/// The files of the first `count` Reels, in order.
pub fn reel_file_names(count: usize) -> (r: Vec<String>)
    ensures
        r.deep_view() == reel_files(count as nat),
{
    let mut out: Vec<String> = Vec::new();
    let mut i: usize = 0;
    while i < count
        invariant
            i <= count,
            out@.len() == i,
            forall|j: int| 0 <= j < i ==> (#[trigger] out@[j])@ == reel_file(j as nat),
        decreases count - i,
    {
        out.push(reel_file_name(i));
        i = i + 1;
    }
    assert(out.deep_view() =~= reel_files(count as nat));
    out
}

/// What the user reads while the Reel `index` of `total` is downloaded.
pub open spec fn reel_progress(index: nat, total: nat) -> Seq<char> {
    "Downloading Reel "@ + decimal(index + 1) + "/"@ + decimal(total) + "..."@
}

/// Whether `step` is what follows when the Reels before `index` are downloaded.
pub open spec fn shows_reel(step: ProfileStep, index: nat, total: nat) -> bool {
    if index < total {
        step matches ProfileStep::ShowDownloading { index: i, text } && i == index && text@
            == reel_progress(index, total)
    } else {
        step matches ProfileStep::ShowConcatenating { text } && text@ == "Concatenating "@
            + decimal(total) + " Reels..."@
    }
}

/// Whether `job` removes the directory and then ends with `outcome`.
pub open spec fn cleans_up(job: ProfileJob, outcome: Result<(), String>) -> bool {
    job.step is RemoveDir && job.outcome == outcome
}

/// Whether `after` follows `before` when `reply` came of its step.
pub open spec fn profile_advances(
    before: ProfileJob,
    reply: ProfileReply,
    after: ProfileJob,
) -> bool {
    let total = before.urls@.len();
    let same = after.username == before.username && after.urls == before.urls;
    match (before.step, reply) {
        (ProfileStep::CreateDir { .. }, ProfileReply::Failed(error)) => after.step matches ProfileStep::Finish(
            Err(text),
        ) && text@ == "Cannot create temporary directory: "@ + error@,
        (ProfileStep::CreateDir { .. }, _) => same && (
        after.step matches ProfileStep::ShowScrolling { text } && text@
            == "Scrolling profile Reels..."@),
        (ProfileStep::ShowScrolling { .. }, _) => same && (
        after.step matches ProfileStep::Gather { username } && username@ == before.username@),
        (ProfileStep::Gather { .. }, ProfileReply::Gathered(urls)) => after.username
            == before.username && after.urls == urls && shows_reel(after.step, 0, urls@.len()),
        (ProfileStep::ShowDownloading { index, .. }, _) => same && (
        after.step matches ProfileStep::Download { index: i, url, file, kind } && i == index && url@
            == before.urls@[index as int]@ && file@ == reel_file(index as nat) && kind
            == DownloadKind::InstagramReel),
        (ProfileStep::Download { index, .. }, ProfileReply::Done) => same && shows_reel(
            after.step,
            (index + 1) as nat,
            total,
        ),
        (ProfileStep::ShowConcatenating { .. }, _) => same && (
        after.step matches ProfileStep::Concatenate { files, output } && files.deep_view()
            == reel_files(total) && output@ == REELS_FILE@),
        (ProfileStep::Concatenate { .. }, ProfileReply::Done) => same && (
        after.step matches ProfileStep::ShowSending { text } && text@ == "Sending video..."@),
        (ProfileStep::ShowSending { .. }, _) => same && (
        after.step matches ProfileStep::Send { output, title, kind } && output@ == REELS_FILE@
            && title@ == before.username@
            + " reels"@ && kind == DownloadKind::InstagramProfile),
        (ProfileStep::Send { .. }, ProfileReply::Done) => same && cleans_up(after, Ok(())),
        (ProfileStep::RemoveDir, _) => same && after.step == ProfileStep::Finish(before.outcome),
        (_, ProfileReply::Failed(error)) => same && cleans_up(after, Err(error)),
        (_, _) => false,
    }
}

fn show_reel(index: usize, total: usize) -> (r: ProfileStep)
    requires
        index <= total,
    ensures
        shows_reel(r, index as nat, total as nat),
{
    let count = decimal_text(total as u64);
    if index < total {
        let number = decimal_text(index as u64 + 1);
        let text = concat5("Downloading Reel ", number.as_str(), "/", count.as_str(), "...");
        ProfileStep::ShowDownloading { index, text }
    } else {
        ProfileStep::ShowConcatenating {
            text: concat3("Concatenating ", count.as_str(), " Reels..."),
        }
    }
}

impl ProfileJob {
    /// A Reel that is being downloaded is one of those gathered.
    pub open spec fn wf(self) -> bool {
        match self.step {
            ProfileStep::ShowDownloading { index, .. } => index < self.urls@.len(),
            ProfileStep::Download { index, .. } => index < self.urls@.len(),
            _ => true,
        }
    }

    /// Whether `reply` can come of the next step.
    pub open spec fn accepts(self, reply: ProfileReply) -> bool {
        match self.step {
            ProfileStep::Finish(_) => false,
            ProfileStep::Gather { .. } => !(reply is Done),
            _ => !(reply is Gathered),
        }
    }

    /// Whether `job` is the download of the profile of `username`, in the directory of `id`.
    pub open spec fn begins(job: ProfileJob, username: Option<Seq<char>>, id: Seq<char>) -> bool {
        match username {
            Some(name) => job.username@ == name && (job.step matches ProfileStep::CreateDir {
                name: dir,
            } && dir@ == "instagram-profile-"@ + id),
            None => job.step matches ProfileStep::Finish(Err(text)) && text@
                == "Cannot determine the Instagram username"@,
        }
    }

    /// The download of the profile of `username`, in the directory of `id`.
    pub fn with_username(username: Option<&str>, id: &str) -> (r: ProfileJob)
        ensures
            r.wf(),
            Self::begins(r, username.deep_view(), id@),
    {
        match username {
            Some(name) => ProfileJob {
                username: name.to_owned(),
                urls: Vec::new(),
                outcome: Ok(()),
                step: ProfileStep::CreateDir { name: concat2("instagram-profile-", id) },
            },
            None => ProfileJob {
                username: String::new(),
                urls: Vec::new(),
                outcome: Ok(()),
                step: ProfileStep::Finish(Err("Cannot determine the Instagram username".to_owned())),
            },
        }
    }

    /// The download of the profile at `url`, in a directory with a random name.
    pub fn new(url: &str) -> (r: ProfileJob)
        ensures
            r.wf(),
            exists|id: Seq<char>|
                is_random_id(id) && #[trigger] Self::begins(
                    r,
                    group_text(regex_captures(IG_PROFILE_RE@, url@), 1),
                    id,
                ),
    {
        let id = random_id();
        let job = Self::with_username(instagram_profile_username(url), id.as_str());
        assert(Self::begins(job, group_text(regex_captures(IG_PROFILE_RE@, url@), 1), id@));
        job
    }

    /// Goes on from what came of the step.
    pub fn advance(self, reply: ProfileReply) -> (r: ProfileJob)
        requires
            self.wf(),
            self.accepts(reply),
        ensures
            r.wf(),
            profile_advances(self, reply, r),
    {
        let ProfileJob { username, urls, outcome, step } = self;
        let total: usize = urls.len();
        let (gathered, failure): (Option<Vec<String>>, Option<String>) = match reply {
            ProfileReply::Done => (None, None),
            ProfileReply::Failed(error) => (None, Some(error)),
            ProfileReply::Gathered(list) => (Some(list), None),
        };
        let next = match step {
            ProfileStep::CreateDir { name } => match failure {
                Some(error) => ProfileStep::Finish(
                    Err(concat2("Cannot create temporary directory: ", error.as_str())),
                ),
                None => ProfileStep::ShowScrolling { text: "Scrolling profile Reels...".to_owned() },
            },
            ProfileStep::ShowScrolling { text } => ProfileStep::Gather {
                username: username.clone(),
            },
            ProfileStep::Gather { username: name } => match (gathered, failure) {
                (Some(list), _) => {
                    let step = show_reel(0, list.len());
                    return ProfileJob { username, urls: list, outcome, step };
                },
                (None, Some(error)) => {
                    return ProfileJob {
                        username,
                        urls,
                        outcome: Err(error),
                        step: ProfileStep::RemoveDir,
                    };
                },
                (None, None) => ProfileStep::RemoveDir,
            },
            ProfileStep::ShowDownloading { index, text } => ProfileStep::Download {
                index,
                url: urls[index].clone(),
                file: reel_file_name(index),
                kind: DownloadKind::InstagramReel,
            },
            ProfileStep::Download { index, .. } => match failure {
                Some(error) => {
                    return ProfileJob {
                        username,
                        urls,
                        outcome: Err(error),
                        step: ProfileStep::RemoveDir,
                    };
                },
                None => show_reel(index + 1, total),
            },
            ProfileStep::ShowConcatenating { text } => ProfileStep::Concatenate {
                files: reel_file_names(total),
                output: REELS_FILE,
            },
            ProfileStep::Concatenate { .. } => match failure {
                Some(error) => {
                    return ProfileJob {
                        username,
                        urls,
                        outcome: Err(error),
                        step: ProfileStep::RemoveDir,
                    };
                },
                None => ProfileStep::ShowSending { text: "Sending video...".to_owned() },
            },
            ProfileStep::ShowSending { text } => ProfileStep::Send {
                output: REELS_FILE,
                title: concat2(username.as_str(), " reels"),
                kind: DownloadKind::InstagramProfile,
            },
            ProfileStep::Send { .. } => {
                let outcome = match failure {
                    Some(error) => Err(error),
                    None => Ok(()),
                };
                return ProfileJob { username, urls, outcome, step: ProfileStep::RemoveDir };
            },
            ProfileStep::RemoveDir => {
                return ProfileJob {
                    username,
                    urls,
                    outcome: Ok(()),
                    step: ProfileStep::Finish(outcome),
                };
            },
            ProfileStep::Finish(result) => ProfileStep::Finish(result),
        };
        ProfileJob { username, urls, outcome, step: next }
    }
}

/// Once the directory was created, the job ends only by removing it, and gives back what had
/// come of it.
pub proof fn law_directory_is_removed(before: ProfileJob, reply: ProfileReply, after: ProfileJob)
    requires
        before.wf(),
        before.accepts(reply),
        profile_advances(before, reply, after),
        after.step is Finish,
    ensures
        before.step is RemoveDir && after.step->Finish_0 == before.outcome || before.step is CreateDir
            && reply is Failed && after.step->Finish_0 is Err,
{
}

/// A failure on the way ends the job with that failure, after the directory is removed.
pub proof fn law_first_failure_counts(
    first: ProfileJob,
    error: String,
    second: ProfileJob,
    reply: ProfileReply,
    third: ProfileJob,
)
    requires
        first.wf(),
        first.accepts(ProfileReply::Failed(error)),
        profile_advances(first, ProfileReply::Failed(error), second),
        second.accepts(reply),
        profile_advances(second, reply, third),
        first.step is Gather || first.step is Download || first.step is Concatenate
            || first.step is Send,
    ensures
        second.step is RemoveDir,
        third.step == ProfileStep::Finish(Err(error)),
{
}

/// The Reels are downloaded in their order, each once, and put together only after the last.
pub proof fn law_reels_are_downloaded_in_order(
    before: ProfileJob,
    after: ProfileJob,
    index: nat,
)
    requires
        before.wf(),
        before.step is Download,
        before.step->Download_index == index,
        profile_advances(before, ProfileReply::Done, after),
    ensures
        index + 1 < before.urls@.len() ==> (after.step matches ProfileStep::ShowDownloading {
            index: next,
            ..
        } && next == index + 1),
        index + 1 >= before.urls@.len() ==> after.step is ShowConcatenating,
{
}

/// Different Reels have different files.
pub proof fn law_reel_files_are_distinct(a: nat, b: nat)
    requires
        reel_file(a) == reel_file(b),
    ensures
        a == b,
{
    let x = zero_padded(a, 5);
    let y = zero_padded(b, 5);
    assert(reel_file(a).len() == x.len() + ".mp4"@.len());
    assert(reel_file(b).len() == y.len() + ".mp4"@.len());
    assert(x =~= reel_file(a).take(x.len() as int));
    assert(y =~= reel_file(b).take(y.len() as int));
    law_padded_injective(a, b, 5);
}

// Whole runs

/// Whether `jobs` is the run of a download with these replies.
pub open spec fn is_profile_run(jobs: Seq<ProfileJob>, replies: Seq<ProfileReply>) -> bool {
    &&& jobs.len() == replies.len() + 1
    &&& jobs[0].step is CreateDir
    &&& forall|i: int|
        #![trigger replies[i]]
        0 <= i < replies.len() ==> jobs[i].wf() && jobs[i].accepts(replies[i]) && profile_advances(
            jobs[i],
            replies[i],
            jobs[i + 1],
        )
}

/// Whether `job` downloads the Reel `index` at `url` into its file, as a Reel, and `reply` says
/// that it did.
pub open spec fn downloads_reel(
    job: ProfileJob,
    reply: ProfileReply,
    index: nat,
    url: Seq<char>,
) -> bool {
    reply is Done && (job.step matches ProfileStep::Download { index: i, url: link, file, kind }
        && i == index && link@ == url && file@ == reel_file(index) && kind
        == DownloadKind::InstagramReel)
}

/// Whether the Reels before `count` were downloaded before `at`, each at some point of the run.
pub open spec fn downloaded_before(
    jobs: Seq<ProfileJob>,
    replies: Seq<ProfileReply>,
    urls: Seq<Seq<char>>,
    count: int,
    at: int,
) -> bool {
    forall|index: int|
        #![trigger urls[index]]
        0 <= index < count ==> exists|k: int|
            0 <= k < at && downloads_reel(jobs[k], #[trigger] replies[k], index as nat, urls[index])
}

/// How many Reels were downloaded when a job is at `step`.
pub open spec fn reels_done(step: ProfileStep, total: nat) -> nat {
    match step {
        ProfileStep::ShowDownloading { index, .. } => index as nat,
        ProfileStep::Download { index, .. } => index as nat,
        ProfileStep::ShowConcatenating { .. } | ProfileStep::Concatenate { .. }
        | ProfileStep::ShowSending { .. } | ProfileStep::Send { .. } => total,
        _ => 0,
    }
}

proof fn lemma_reels_were_downloaded(
    jobs: Seq<ProfileJob>,
    replies: Seq<ProfileReply>,
    at: int,
)
    requires
        is_profile_run(jobs, replies),
        0 <= at < jobs.len(),
    ensures
        downloaded_before(
            jobs,
            replies,
            jobs[at].urls.deep_view(),
            reels_done(jobs[at].step, jobs[at].urls@.len()) as int,
            at,
        ),
        jobs[at].step matches ProfileStep::Download { index, url, file, kind } ==> url@
            == jobs[at].urls@[index as int]@ && file@ == reel_file(index as nat) && kind
            == DownloadKind::InstagramReel,
        jobs[at].step matches ProfileStep::Concatenate { files, output } ==> files.deep_view()
            == reel_files(jobs[at].urls@.len()) && output@ == REELS_FILE@,
        jobs[at].step is RemoveDir && jobs[at].outcome is Ok ==> downloaded_before(
            jobs,
            replies,
            jobs[at].urls.deep_view(),
            jobs[at].urls@.len() as int,
            at,
        ),
    decreases at,
{
    if at > 0 {
        let last = at - 1;
        lemma_reels_were_downloaded(jobs, replies, last);
        let before = jobs[last];
        let reply = replies[last];
        let after = jobs[at];
        assert(profile_advances(before, reply, after));
        assert(before.wf() && before.accepts(reply));
        let urls = before.urls.deep_view();
        let done = reels_done(before.step, before.urls@.len());
        assert forall|count: int| #[trigger]
            downloaded_before(jobs, replies, urls, count, last) implies downloaded_before(
            jobs,
            replies,
            urls,
            count,
            at,
        ) by {
            assert forall|index: int|
                #![trigger urls[index]]
                0 <= index < count implies exists|k: int|
                0 <= k < at && downloads_reel(
                    jobs[k],
                    #[trigger] replies[k],
                    index as nat,
                    urls[index],
                ) by {
                let k = choose|k: int|
                    0 <= k < last && downloads_reel(
                        jobs[k],
                        #[trigger] replies[k],
                        index as nat,
                        urls[index],
                    );
                assert(0 <= k < at && downloads_reel(jobs[k], replies[k], index as nat, urls[index]));
            }
        }
        assert(downloaded_before(jobs, replies, urls, done as int, at));
        if before.step is Download && reply is Done {
            let index = before.step->Download_index;
            assert(urls[index as int] == before.urls@[index as int]@);
            assert(downloads_reel(before, replies[last], index as nat, urls[index as int]));
            assert forall|i: int|
                #![trigger urls[i]]
                0 <= i < index + 1 implies exists|k: int|
                0 <= k < at && downloads_reel(
                    jobs[k],
                    #[trigger] replies[k],
                    i as nat,
                    urls[i],
                ) by {
                if i == index {
                    assert(0 <= last < at && downloads_reel(
                        jobs[last],
                        replies[last],
                        i as nat,
                        urls[i],
                    ));
                }
            }
            assert(downloaded_before(jobs, replies, urls, index + 1, at));
        }
    }
}

/// What is put together is the file of each Reel, in the order of the Reels, and each was
/// downloaded before.
pub proof fn law_reels_are_joined_in_order(
    jobs: Seq<ProfileJob>,
    replies: Seq<ProfileReply>,
    at: int,
)
    requires
        is_profile_run(jobs, replies),
        0 <= at < jobs.len(),
        jobs[at].step is Concatenate,
    ensures
        jobs[at].step->Concatenate_files.deep_view() == reel_files(jobs[at].urls@.len()),
        downloaded_before(
            jobs,
            replies,
            jobs[at].urls.deep_view(),
            jobs[at].urls@.len() as int,
            at,
        ),
{
    lemma_reels_were_downloaded(jobs, replies, at);
}

/// A profile that was sent was sent whole: each of its Reels was downloaded into its own file.
pub proof fn law_every_reel_is_downloaded(
    jobs: Seq<ProfileJob>,
    replies: Seq<ProfileReply>,
)
    requires
        is_profile_run(jobs, replies),
        jobs.last().step is Finish,
        jobs.last().step->Finish_0 is Ok,
    ensures
        downloaded_before(
            jobs,
            replies,
            jobs.last().urls.deep_view(),
            jobs.last().urls@.len() as int,
            replies.len() as int,
        ),
{
    let last = replies.len() - 1;
    assert(jobs.len() >= 2);
    lemma_reels_were_downloaded(jobs, replies, last);
    law_directory_is_removed(jobs[last], replies[last], jobs[last + 1]);
    let urls = jobs[last].urls.deep_view();
    assert(downloaded_before(jobs, replies, urls, jobs[last].urls@.len() as int, last));
    assert forall|index: int|
        #![trigger urls[index]]
        0 <= index < urls.len() implies exists|k: int|
        0 <= k < replies.len() && downloads_reel(
            jobs[k],
            #[trigger] replies[k],
            index as nat,
            urls[index],
        ) by {
        let k = choose|k: int|
            0 <= k < last && downloads_reel(
                jobs[k],
                #[trigger] replies[k],
                index as nat,
                urls[index],
            );
        assert(0 <= k < replies.len() && downloads_reel(
            jobs[k],
            replies[k],
            index as nat,
            urls[index],
        ));
    }
}

proof fn lemma_profile_course(jobs: Seq<ProfileJob>, replies: Seq<ProfileReply>, at: int)
    requires
        is_profile_run(jobs, replies),
        0 <= at < jobs.len(),
    ensures
        jobs[at].step is Finish || jobs[at].username == jobs[0].username,
        jobs[at].step is CreateDir ==> at == 0,
        jobs[at].step matches ProfileStep::Gather { username } ==> username@ == jobs[0].username@,
        jobs[at].step is Download ==> at >= 1 && jobs[at - 1].step is ShowDownloading,
        jobs[at].step is ShowSending ==> at >= 1 && jobs[at - 1].step is Concatenate && replies[at
            - 1] is Done,
        jobs[at].step matches ProfileStep::Send { output, title, kind } ==> at >= 2 && jobs[at
            - 1].step is ShowSending && jobs[at - 2].step is Concatenate && replies[at - 2] is Done
            && title@ == jobs[0].username@ + " reels"@ && kind == DownloadKind::InstagramProfile
            && output@ == "reels.mp4"@,
    decreases at,
{
    if at > 0 {
        lemma_profile_course(jobs, replies, at - 1);
        assert(profile_advances(jobs[at - 1], replies[at - 1], jobs[at]));
        assert(jobs[at - 1].wf() && jobs[at - 1].accepts(replies[at - 1]));
    }
}

/// The video of a profile is sent only after its Reels were put together, into the file that is
/// sent, under the name of the user whose Reels were gathered.
pub proof fn law_profile_is_sent_when_it_is_joined(
    jobs: Seq<ProfileJob>,
    replies: Seq<ProfileReply>,
    at: int,
)
    requires
        is_profile_run(jobs, replies),
        0 <= at < jobs.len(),
    ensures
        jobs[at].step matches ProfileStep::Gather { username } ==> username@ == jobs[0].username@,
        jobs[at].step matches ProfileStep::Send { output, title, kind } ==> {
            &&& at >= 2
            &&& jobs[at - 2].step matches ProfileStep::Concatenate { output: joined, .. } && joined@
                == output@
            &&& replies[at - 2] is Done
            &&& title@ == jobs[0].username@ + " reels"@
            &&& kind == DownloadKind::InstagramProfile
        },
{
    lemma_profile_course(jobs, replies, at);
    if jobs[at].step is Send {
        lemma_reels_were_downloaded(jobs, replies, at - 2);
    }
}

/// Whether `job` does a part of the work whose failure ends it.
pub open spec fn can_fail(job: ProfileJob) -> bool {
    job.step is Gather || job.step is Download || job.step is Concatenate || job.step is Send
}

/// A profile ends with success just when its video was sent, and else with the first failure, as it
/// was told.
pub proof fn law_profile_ends_with_what_came_of_it(
    jobs: Seq<ProfileJob>,
    replies: Seq<ProfileReply>,
)
    requires
        is_profile_run(jobs, replies),
        jobs.last().step is Finish,
    ensures
        match jobs.last().step->Finish_0 {
            Ok(_) => replies.len() >= 2 && jobs[replies.len() - 2].step is Send && replies[replies.len()
                - 2] is Done,
            Err(error) => {
                ||| replies.len() >= 2 && can_fail(jobs[replies.len() - 2]) && replies[replies.len()
                    - 2] == ProfileReply::Failed(error)
                ||| replies.len() == 1 && (replies[0] matches ProfileReply::Failed(cause)
                    && has_suffix(error@, cause@))
            },
        },
{
    let n = replies.len() as int;
    assert(profile_advances(jobs[n - 1], replies[n - 1], jobs[n]));
    assert(jobs[n - 1].accepts(replies[n - 1]));
    lemma_profile_course(jobs, replies, n - 1);
    if jobs[n - 1].step is CreateDir {
        let cause = replies[0]->Failed_0@;
        let text = "Cannot create temporary directory: "@ + cause;
        assert(text.skip(text.len() - cause.len()) =~= cause);
    } else {
        assert(n >= 2);
        assert(profile_advances(jobs[n - 2], replies[n - 2], jobs[n - 1]));
        assert(jobs[n - 2].accepts(replies[n - 2]));
    }
}

/// The Reels that are downloaded are those that were gathered: once gathered, the addresses stay,
/// the first Reel comes next, and each Reel comes with its number out of all of them.
pub proof fn law_gathered_reels_are_downloaded(
    before: ProfileJob,
    reply: ProfileReply,
    after: ProfileJob,
)
    requires
        before.wf(),
        before.accepts(reply),
        profile_advances(before, reply, after),
    ensures
        reply matches ProfileReply::Gathered(urls) ==> after.urls == urls && (urls@.len() > 0 ==> (
        after.step matches ProfileStep::ShowDownloading { index, .. } && index == 0)) && (urls@.len()
            == 0 ==> after.step is ShowConcatenating),
        !(reply is Gathered) && !(after.step is Finish) ==> after.urls == before.urls,
        after.step matches ProfileStep::ShowDownloading { index, text } ==> text@
            == "Downloading Reel "@ + decimal((index + 1) as nat) + "/"@ + decimal(
            after.urls@.len(),
        ) + "..."@,
        after.step matches ProfileStep::ShowConcatenating { text } ==> text@ == "Concatenating "@
            + decimal(after.urls@.len()) + " Reels..."@,
        after.step matches ProfileStep::Download { index, url, .. } ==> url@
            == before.urls@[index as int]@,
{
}

/// The file of a Reel is its number, in five digits or more, before the extension.
pub proof fn law_reel_file_holds_its_number(index: nat)
    ensures
        ({
            let file = reel_file(index);
            let digits = file.take(file.len() - 4);
            &&& file.len() >= 9
            &&& has_suffix(file, ".mp4"@)
            &&& digits_value(digits, 0, index) == Ok::<nat, NumberError>(index)
        }),
{
    reveal_strlit(".mp4");
    let digits = zero_padded(index, 5);
    let file = reel_file(index);
    assert(file.take(file.len() - 4) =~= digits);
    assert(file.skip(file.len() - 4) =~= ".mp4"@);
    law_padded_round_trip(index, 5, index);
}

/// A download of a profile begins in a directory of its own, and one without a name does not begin.
pub proof fn law_profile_begins_in_its_directory(
    job: ProfileJob,
    username: Option<Seq<char>>,
    id: Seq<char>,
)
    requires
        ProfileJob::begins(job, username, id),
    ensures
        username matches Some(name) ==> job.username@ == name && (
        job.step matches ProfileStep::CreateDir { name: dir } && has_suffix(dir@, id)),
        username is None ==> job.step is Finish && job.step->Finish_0 is Err,
{
    let dir = "instagram-profile-"@ + id;
    assert(dir.skip(dir.len() - id.len()) =~= id);
}

/// What is put together is one file for each Reel that was gathered, in their order: file `i` is
/// the one that the Reel at address `i` was downloaded into.
pub proof fn law_files_are_those_downloaded(
    jobs: Seq<ProfileJob>,
    replies: Seq<ProfileReply>,
    at: int,
    i: int,
)
    requires
        is_profile_run(jobs, replies),
        0 <= at < jobs.len(),
        jobs[at].step is Concatenate,
        0 <= i < jobs[at].urls@.len(),
    ensures
        jobs[at].step->Concatenate_files@.len() == jobs[at].urls@.len(),
        exists|k: int|
            0 <= k < at && (#[trigger] replies[k]) is Done && (
            jobs[k].step matches ProfileStep::Download { index, url, file, kind } && index == i
                && url@ == jobs[at].urls@[i]@ && file@ == jobs[at].step->Concatenate_files@[i]@
                && kind == DownloadKind::InstagramReel),
{
    law_reels_are_joined_in_order(jobs, replies, at);
    let files = jobs[at].step->Concatenate_files;
    let urls = jobs[at].urls.deep_view();
    assert(files.deep_view().len() == files@.len());
    assert(files.deep_view()[i] == files@[i]@);
    assert(reel_files(jobs[at].urls@.len())[i] == reel_file(i as nat));
    assert(urls[i] == jobs[at].urls@[i]@);
    let k = choose|k: int|
        0 <= k < at && downloads_reel(jobs[k], #[trigger] replies[k], i as nat, urls[i]);
    assert(0 <= k < at && replies[k] is Done);
}

/// The user reads what is going on: the scrolling before the Reels are gathered, the sending before
/// the video is sent. A failure before all is told in words that name the directory.
pub proof fn law_profile_tells_what_it_does(
    before: ProfileJob,
    reply: ProfileReply,
    after: ProfileJob,
)
    requires
        before.wf(),
        before.accepts(reply),
        profile_advances(before, reply, after),
    ensures
        after.step is Gather ==> before.step is ShowScrolling,
        after.step matches ProfileStep::ShowScrolling { text } ==> text@
            == "Scrolling profile Reels..."@,
        after.step is Send ==> before.step is ShowSending,
        after.step matches ProfileStep::ShowSending { text } ==> text@ == "Sending video..."@,
        before.step is CreateDir && reply is Done ==> after.step is ShowScrolling,
        before.step is ShowScrolling ==> after.step is Gather,
        before.step is ShowConcatenating ==> after.step is Concatenate,
        before.step is ShowSending ==> after.step is Send,
        before.step is Concatenate && reply is Done ==> after.step is ShowSending,
        before.step matches ProfileStep::ShowDownloading { index, .. } ==> (
        after.step matches ProfileStep::Download { index: i, .. } && i == index),
        before.step is CreateDir ==> (reply matches ProfileReply::Failed(error) ==> (
        after.step matches ProfileStep::Finish(Err(text)) && text@
            == "Cannot create temporary directory: "@ + error@)),
{
}

/// The functions of a profile do what its laws speak of.
pub proof fn law_profile_functions(
    username: Option<&str>,
    id: &str,
    first: ProfileJob,
    before: ProfileJob,
    reply: ProfileReply,
    after: ProfileJob,
    count: usize,
    files: Vec<String>,
    i: int,
)
    requires
        call_ensures(ProfileJob::with_username, (username, id), first),
        call_ensures(ProfileJob::advance, (before, reply), after),
        call_ensures(reel_file_names, (count,), files),
        0 <= i < count,
    ensures
        first.wf(),
        username matches Some(name) ==> first.username@ == name@ && (
        first.step matches ProfileStep::CreateDir { name: dir } && dir@ == "instagram-profile-"@
            + id@),
        username is None ==> (first.step matches ProfileStep::Finish(Err(text)) && text@
            == "Cannot determine the Instagram username"@),
        after.wf() && profile_advances(before, reply, after),
        files@.len() == count,
        digits_value(files@[i]@.take(files@[i]@.len() - 4), 0, i as nat) == Ok::<
            nat,
            NumberError,
        >(i as nat),
        has_suffix(files@[i]@, ".mp4"@),
{
    assert(files.deep_view().len() == files@.len());
    assert(reel_files(count as nat).len() == count);
    assert(files.deep_view()[i] == files@[i]@);
    law_reel_file_holds_its_number(i as nat);
}

}
