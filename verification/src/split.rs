//! Splitting a file into parts that can be sent.
use vstd::prelude::*;

use crate::outside::{is_random_id, lossy_text, random_id, utf8_lossy};
use crate::text::{
    concat2, concat3, concat4, concat5, digits_value, has_part, has_suffix, is_trimmed,
    law_padded_injective, law_padded_round_trip, law_padding_is_zeros, law_trimmed_exists, occurs_at,
    owned, trim, trimmed, zero_padded, zero_padded_text, NumberError,
};
use crate::upload::MAX_TG_SIZE;

verus! {

// How many parts

/// Whether `count` is the least number of chunks of `max_size`, one at least, that hold
/// `file_size`.
pub open spec fn is_chunk_count(count: int, file_size: int, max_size: int) -> bool {
    &&& count >= 1
    &&& count * max_size >= file_size
    &&& count > 1 ==> (count - 1) * max_size < file_size
}

/// The least number of chunks of `max_size`, one at least, that hold `file_size`.
pub fn chunk_count(file_size: u64, max_size: u64) -> (r: u64)
    requires
        max_size > 0,
    ensures
        is_chunk_count(r as int, file_size as int, max_size as int),
{
    let whole: u64 = file_size / max_size;
    let rest: u64 = file_size % max_size;
    let ghost size = file_size as int;
    let ghost max = max_size as int;
    let ghost n = whole as int;
    proof {
        vstd::arithmetic::div_mod::lemma_fundamental_div_mod(size, max);
        assert(size == max * n + rest);
        assert(n * max == max * n) by (nonlinear_arith);
        assert((n + 1) * max == n * max + max) by (nonlinear_arith);
        assert((n - 1) * max == n * max - max) by (nonlinear_arith);
        assert(n <= n * max) by (nonlinear_arith)
            requires
                max >= 1,
                n >= 0,
        ;
    }
    if rest > 0 {
        whole + 1
    } else if whole > 0 {
        whole
    } else {
        1
    }
}

/// There is one such number only.
pub proof fn law_chunk_count_is_unique(a: int, b: int, file_size: int, max_size: int)
    requires
        max_size > 0,
        is_chunk_count(a, file_size, max_size),
        is_chunk_count(b, file_size, max_size),
    ensures
        a == b,
{
    if a < b {
        assert(a * max_size <= (b - 1) * max_size) by (nonlinear_arith)
            requires
                a <= b - 1,
                max_size > 0,
        ;
    }
    if b < a {
        assert(b * max_size <= (a - 1) * max_size) by (nonlinear_arith)
            requires
                b <= a - 1,
                max_size > 0,
        ;
    }
}

/// A larger file needs no fewer chunks.
pub proof fn law_chunk_count_grows(
    a: int,
    b: int,
    file_size: int,
    larger_size: int,
    max_size: int,
)
    requires
        max_size > 0,
        file_size <= larger_size,
        is_chunk_count(a, file_size, max_size),
        is_chunk_count(b, larger_size, max_size),
    ensures
        a <= b,
{
    if b < a {
        assert(b * max_size <= (a - 1) * max_size) by (nonlinear_arith)
            requires
                b <= a - 1,
                max_size > 0,
        ;
    }
}

// Names and arguments

/// A name that the parts of one file share.
pub fn new_stem() -> (r: String)
    ensures
        is_random_id(r@),
{
    random_id()
}

/// The pattern of the names of the parts.
pub fn chunk_pattern(stem: &str, ext: &str) -> (r: String)
    ensures
        r@ == stem@ + "_%03d."@ + ext@,
{
    concat3(stem, "_%03d.", ext)
}

/// The name of part `index`.
pub open spec fn part_name(stem: Seq<char>, index: nat, ext: Seq<char>) -> Seq<char> {
    stem + "_"@ + zero_padded(index, 3) + "."@ + ext
}

/// The name of part `index`.
pub fn chunk_name(stem: &str, index: u32, ext: &str) -> (r: String)
    ensures
        r@ == part_name(stem@, index as nat, ext@),
{
    concat5(stem, "_", zero_padded_text(index as u64, 3).as_str(), ".", ext)
}

/// Different parts have different names.
pub proof fn law_part_names_are_distinct(stem: Seq<char>, a: nat, b: nat, ext: Seq<char>)
    requires
        part_name(stem, a, ext) == part_name(stem, b, ext),
    ensures
        a == b,
{
    let x = zero_padded(a, 3);
    let y = zero_padded(b, 3);
    let before = stem + "_"@;
    let after = "."@ + ext;
    let whole = part_name(stem, a, ext);
    assert(whole =~= before + x + after);
    assert(part_name(stem, b, ext) =~= before + y + after);
    assert(whole.len() == before.len() + x.len() + after.len());
    assert(whole.len() == before.len() + y.len() + after.len());
    assert(x =~= whole.subrange(before.len() as int, (before.len() + x.len()) as int));
    assert(y =~= whole.subrange(before.len() as int, (before.len() + y.len()) as int));
    law_padded_injective(a, b, 3);
}

/// The arguments of `ffprobe` that ask for the duration of the file at `path`.
pub fn probe_args(path: &str) -> (r: Vec<String>)
    ensures
        r.deep_view() == seq![
            "-v"@,
            "error"@,
            "-show_entries"@,
            "format=duration"@,
            "-of"@,
            "default=noprint_wrappers=1:nokey=1"@,
            path@,
        ],
{
    let out = owned(
        &[
            "-v",
            "error",
            "-show_entries",
            "format=duration",
            "-of",
            "default=noprint_wrappers=1:nokey=1",
            path,
        ],
    );
    assert(out.deep_view() =~= seq![
        "-v"@,
        "error"@,
        "-show_entries"@,
        "format=duration"@,
        "-of"@,
        "default=noprint_wrappers=1:nokey=1"@,
        path@,
    ]);
    out
}

/// The arguments of `ffmpeg` that split the file at `path` into parts of `segment_time` seconds.
pub fn split_args(path: &str, segment_time: &str, pattern: &str) -> (r: Vec<String>)
    ensures
        r.deep_view() == seq![
            "-i"@,
            path@,
            "-f"@,
            "segment"@,
            "-segment_time"@,
            segment_time@,
            "-c"@,
            "copy"@,
            "-reset_timestamps"@,
            "1"@,
            pattern@,
        ],
{
    let out = owned(
        &[
            "-i",
            path,
            "-f",
            "segment",
            "-segment_time",
            segment_time,
            "-c",
            "copy",
            "-reset_timestamps",
            "1",
            pattern,
        ],
    );
    assert(out.deep_view() =~= seq![
        "-i"@,
        path@,
        "-f"@,
        "segment"@,
        "-segment_time"@,
        segment_time@,
        "-c"@,
        "copy"@,
        "-reset_timestamps"@,
        "1"@,
        pattern@,
    ]);
    out
}

// The steps

/// What is to be done next.
#[derive(Debug)]
pub enum SplitStep {
    /// Read the size of the file.
    ReadSize,
    /// Ask for the duration of the file.
    Probe,
    /// Read the duration as a number of seconds, and divide it by the number of chunks.
    DivideDuration { duration: String },
    /// Split the file into parts of so many seconds.
    Split { segment_time: String },
    /// See whether this part is there.
    CheckChunk { index: u32 },
    /// Read the size of this part.
    ReadChunkSize { index: u32 },
    /// Remove the parts.
    RemoveChunks,
    /// Nothing: so many parts there are, or this went wrong.
    Finish(Result<u32, String>),
}

/// What came of a step.
#[derive(Debug)]
pub enum SplitReply {
    /// It was done.
    Done,
    /// It failed.
    Failed(String),
    /// The file has this size.
    Size(u64),
    /// The duration was printed.
    Printed(Vec<u8>),
    /// A part lasts so many seconds.
    Seconds(String),
    /// The program ran, and whether it succeeded.
    Exited(bool),
    /// Whether the part is there.
    Found(bool),
    /// The part at this path has this size, which is so many megabytes.
    ChunkSize { path: String, size: u64, megabytes: String },
    /// The part at this path cannot be read.
    ChunkUnreadable { path: String, error: String },
}

/// The splitting of a file.
#[derive(Debug)]
pub struct SplitJob {
    /// How many chunks of the largest size hold the file, once its size is read.
    pub chunks: u64,
    /// How many parts were found so far.
    pub found: u32,
    /// What went wrong, once the parts are to be removed.
    pub problem: String,
    pub step: SplitStep,
}

/// Whether `step` ends the splitting with the error `text`.
pub open spec fn split_fails(step: SplitStep, text: Seq<char>) -> bool {
    step matches SplitStep::Finish(Err(error)) && error@ == text
}

/// Whether `after` follows `before` when `reply` came of its step.
pub open spec fn split_advances(before: SplitJob, reply: SplitReply, after: SplitJob) -> bool {
    match (before.step, reply) {
        (SplitStep::ReadSize, SplitReply::Size(size)) => after.step is Probe && is_chunk_count(
            after.chunks as int,
            size as int,
            MAX_TG_SIZE as int,
        ),
        (SplitStep::ReadSize, SplitReply::Failed(error)) => split_fails(
            after.step,
            "Cannot read file: "@ + error@,
        ),
        (SplitStep::Probe, SplitReply::Printed(words)) => after.chunks == before.chunks && (
        after.step matches SplitStep::DivideDuration { duration } && duration@ == trimmed(
            utf8_lossy(words@),
        )),
        (SplitStep::Probe, SplitReply::Failed(error)) => split_fails(
            after.step,
            "Failed to run ffprobe: "@ + error@,
        ),
        (SplitStep::DivideDuration { .. }, SplitReply::Seconds(text)) => after.step
            == (SplitStep::Split { segment_time: text }),
        (SplitStep::DivideDuration { duration }, SplitReply::Failed(_)) => split_fails(
            after.step,
            "Failed to parse duration: "@ + duration@,
        ),
        (SplitStep::Split { .. }, SplitReply::Failed(error)) => split_fails(
            after.step,
            "Failed to run ffmpeg: "@ + error@,
        ),
        (SplitStep::Split { .. }, SplitReply::Exited(success)) => if success {
            after.step == (SplitStep::CheckChunk { index: 0 })
        } else {
            split_fails(after.step, "ffmpeg split failed"@)
        },
        (SplitStep::CheckChunk { index }, SplitReply::Found(there)) => if there {
            after.step == (SplitStep::CheckChunk { index: (index + 1) as u32 })
        } else if index == 0 {
            split_fails(after.step, "No chunks produced by ffmpeg"@)
        } else {
            after.found == index && after.step == (SplitStep::ReadChunkSize { index: 0 })
        },
        (
            SplitStep::ReadChunkSize { index },
            SplitReply::ChunkSize { path, size, megabytes },
        ) => after.found == before.found && (if size > MAX_TG_SIZE {
            after.step is RemoveChunks && after.problem@ == "Split chunk "@ + path@
                + " is too large ("@ + megabytes@ + "MB)"@
        } else if index + 1 < before.found {
            after.step == (SplitStep::ReadChunkSize { index: (index + 1) as u32 })
        } else {
            after.step == SplitStep::Finish(Ok(before.found))
        }),
        (SplitStep::ReadChunkSize { .. }, SplitReply::ChunkUnreadable { path, error }) => after.found
            == before.found && after.step is RemoveChunks && after.problem@
            == "Cannot read split chunk "@ + path@ + ": "@ + error@,
        (SplitStep::RemoveChunks, _) => after.step == SplitStep::Finish(Err(before.problem)),
        (_, _) => false,
    }
}

impl SplitJob {
    /// There are parts when their sizes are read, and the one that is looked at is among them.
    pub open spec fn wf(self) -> bool {
        &&& self.chunks >= 1
        &&& match self.step {
            SplitStep::ReadChunkSize { index } => index < self.found,
            SplitStep::Finish(Ok(count)) => count >= 1,
            _ => true,
        }
    }

    /// Whether `reply` can come of the next step.
    pub open spec fn accepts(self, reply: SplitReply) -> bool {
        match self.step {
            SplitStep::ReadSize => reply is Size || reply is Failed,
            SplitStep::Probe => reply is Printed || reply is Failed,
            SplitStep::DivideDuration { .. } => reply is Seconds || reply is Failed,
            SplitStep::Split { .. } => reply is Exited || reply is Failed,
            SplitStep::CheckChunk { index } => reply is Found && index < u32::MAX,
            SplitStep::ReadChunkSize { .. } => reply is ChunkSize || reply is ChunkUnreadable,
            SplitStep::RemoveChunks => reply is Done,
            SplitStep::Finish(_) => false,
        }
    }

    /// The splitting of a file.
    pub fn new() -> (r: SplitJob)
        ensures
            r.wf(),
            r.step is ReadSize,
    {
        SplitJob { chunks: 1, found: 0, problem: String::new(), step: SplitStep::ReadSize }
    }

    /// Goes on from what came of the step.
    pub fn advance(self, reply: SplitReply) -> (r: SplitJob)
        requires
            self.wf(),
            self.accepts(reply),
        ensures
            r.wf(),
            split_advances(self, reply, r),
    {
        let SplitJob { mut chunks, mut found, mut problem, step } = self;
        let next = match step {
            SplitStep::ReadSize => match reply {
                SplitReply::Size(size) => {
                    chunks = chunk_count(size, MAX_TG_SIZE);
                    SplitStep::Probe
                },
                SplitReply::Failed(error) => SplitStep::Finish(
                    Err(concat2("Cannot read file: ", error.as_str())),
                ),
                _ => SplitStep::ReadSize,
            },
            SplitStep::Probe => match reply {
                SplitReply::Printed(words) => {
                    let text = lossy_text(words.as_slice());
                    SplitStep::DivideDuration { duration: trim(text.as_str()).to_owned() }
                },
                SplitReply::Failed(error) => SplitStep::Finish(
                    Err(concat2("Failed to run ffprobe: ", error.as_str())),
                ),
                _ => SplitStep::Probe,
            },
            SplitStep::DivideDuration { duration } => match reply {
                SplitReply::Seconds(segment_time) => SplitStep::Split { segment_time },
                _ => SplitStep::Finish(
                    Err(concat2("Failed to parse duration: ", duration.as_str())),
                ),
            },
            SplitStep::Split { segment_time } => match reply {
                SplitReply::Failed(error) => SplitStep::Finish(
                    Err(concat2("Failed to run ffmpeg: ", error.as_str())),
                ),
                SplitReply::Exited(success) => {
                    if success {
                        SplitStep::CheckChunk { index: 0 }
                    } else {
                        SplitStep::Finish(Err("ffmpeg split failed".to_owned()))
                    }
                },
                _ => SplitStep::Split { segment_time },
            },
            SplitStep::CheckChunk { index } => match reply {
                SplitReply::Found(there) => {
                    if there {
                        SplitStep::CheckChunk { index: index + 1 }
                    } else if index == 0 {
                        SplitStep::Finish(Err("No chunks produced by ffmpeg".to_owned()))
                    } else {
                        found = index;
                        SplitStep::ReadChunkSize { index: 0 }
                    }
                },
                _ => SplitStep::CheckChunk { index },
            },
            SplitStep::ReadChunkSize { index } => match reply {
                SplitReply::ChunkSize { path, size, megabytes } => {
                    if size > MAX_TG_SIZE {
                        problem = concat5(
                            "Split chunk ",
                            path.as_str(),
                            " is too large (",
                            megabytes.as_str(),
                            "MB)",
                        );
                        SplitStep::RemoveChunks
                    } else if index + 1 < found {
                        SplitStep::ReadChunkSize { index: index + 1 }
                    } else {
                        SplitStep::Finish(Ok(found))
                    }
                },
                SplitReply::ChunkUnreadable { path, error } => {
                    problem = concat4(
                        "Cannot read split chunk ",
                        path.as_str(),
                        ": ",
                        error.as_str(),
                    );
                    SplitStep::RemoveChunks
                },
                _ => SplitStep::ReadChunkSize { index },
            },
            SplitStep::RemoveChunks => {
                return SplitJob {
                    chunks,
                    found,
                    problem: String::new(),
                    step: SplitStep::Finish(Err(problem)),
                };
            },
            SplitStep::Finish(result) => SplitStep::Finish(result),
        };
        SplitJob { chunks, found, problem, step: next }
    }
}

/// Whether `jobs` is the run of a splitting with these replies.
pub open spec fn is_split_run(jobs: Seq<SplitJob>, replies: Seq<SplitReply>) -> bool {
    &&& jobs.len() == replies.len() + 1
    &&& jobs[0].step is ReadSize
    &&& forall|i: int|
        #![trigger replies[i]]
        0 <= i < replies.len() ==> jobs[i].wf() && jobs[i].accepts(replies[i]) && split_advances(
            jobs[i],
            replies[i],
            jobs[i + 1],
        )
}

/// Whether `reply` says that a part is within the limit.
pub open spec fn fits(reply: SplitReply) -> bool {
    reply matches SplitReply::ChunkSize { size, .. } && size <= MAX_TG_SIZE
}

proof fn lemma_parts_fit(jobs: Seq<SplitJob>, replies: Seq<SplitReply>, at: int)
    requires
        is_split_run(jobs, replies),
        0 <= at < jobs.len(),
    ensures
        jobs[at].step matches SplitStep::ReadChunkSize { index } ==> index <= at && forall|k: int|
            at - index <= k < at ==> fits(#[trigger] replies[k]),
        jobs[at].step matches SplitStep::Finish(Ok(count)) ==> count <= at && forall|k: int|
            at - count <= k < at ==> fits(#[trigger] replies[k]),
    decreases at,
{
    if at > 0 {
        lemma_parts_fit(jobs, replies, at - 1);
        let before = jobs[at - 1];
        let reply = replies[at - 1];
        assert(split_advances(before, reply, jobs[at]));
        if before.step is ReadChunkSize && !(jobs[at].step is RemoveChunks) {
            assert(fits(reply));
        }
    }
}

/// A splitting that succeeds with so many parts has found each of them, one after the other, to
/// be within the limit.
pub proof fn law_no_part_is_too_large(jobs: Seq<SplitJob>, replies: Seq<SplitReply>, count: u32)
    requires
        is_split_run(jobs, replies),
        jobs.last().step == SplitStep::Finish(Ok(count)),
    ensures
        count <= replies.len(),
        forall|k: int| replies.len() - count <= k < replies.len() ==> fits(#[trigger] replies[k]),
{
    lemma_parts_fit(jobs, replies, jobs.len() - 1);
}

/// Parts that cannot be used are removed before the splitting fails.
pub proof fn law_useless_parts_are_removed(
    before: SplitJob,
    reply: SplitReply,
    after: SplitJob,
)
    requires
        before.wf(),
        before.accepts(reply),
        split_advances(before, reply, after),
        before.step is ReadChunkSize,
    ensures
        after.step is RemoveChunks <==> reply is ChunkUnreadable || reply->ChunkSize_size
            > MAX_TG_SIZE,
        !(after.step is Finish && after.step->Finish_0 is Err),
{
}

// Laws of whole runs

/// Whether part `index` was asked for before `at`, and was there or not.
pub open spec fn part_was_looked_for(
    jobs: Seq<SplitJob>,
    replies: Seq<SplitReply>,
    index: int,
    there: bool,
    at: int,
) -> bool {
    exists|k: int|
        0 <= k < at && (#[trigger] replies[k]) == SplitReply::Found(there) && (
        jobs[k].step matches SplitStep::CheckChunk { index: i } && i == index)
}

/// Whether the size of part `index` was read before `at`, and is within 49 MiB.
pub open spec fn part_was_measured(
    jobs: Seq<SplitJob>,
    replies: Seq<SplitReply>,
    index: int,
    at: int,
) -> bool {
    exists|k: int|
        0 <= k < at && (#[trigger] replies[k] matches SplitReply::ChunkSize { size, .. } && size
            <= 51_380_224) && (jobs[k].step matches SplitStep::ReadChunkSize { index: i } && i
            == index)
}

proof fn lemma_split_course(jobs: Seq<SplitJob>, replies: Seq<SplitReply>, at: int)
    requires
        is_split_run(jobs, replies),
        0 <= at < jobs.len(),
    ensures
        jobs[at].step is ReadSize ==> at == 0,
        jobs[at].step is Probe ==> at == 1,
        jobs[at].step is DivideDuration ==> at == 2,
        jobs[at].step is Split ==> at == 3,
        jobs[at].step matches SplitStep::CheckChunk { index } ==> at == 4 + index && forall|i: int|
            0 <= i < index ==> #[trigger] part_was_looked_for(jobs, replies, i, true, at),
        jobs[at].step matches SplitStep::ReadChunkSize { index } ==> {
            &&& forall|i: int|
                0 <= i < jobs[at].found ==> #[trigger] part_was_looked_for(
                    jobs,
                    replies,
                    i,
                    true,
                    at,
                )
            &&& part_was_looked_for(jobs, replies, jobs[at].found as int, false, at)
            &&& forall|i: int|
                0 <= i < index ==> #[trigger] part_was_measured(jobs, replies, i, at)
        },
        jobs[at].step matches SplitStep::Finish(Ok(count)) ==> {
            &&& forall|i: int|
                0 <= i < count ==> #[trigger] part_was_looked_for(jobs, replies, i, true, at)
            &&& part_was_looked_for(jobs, replies, count as int, false, at)
            &&& forall|i: int|
                0 <= i < count ==> #[trigger] part_was_measured(jobs, replies, i, at)
        },
    decreases at,
{
    if at > 0 {
        let last = at - 1;
        lemma_split_course(jobs, replies, last);
        let before = jobs[last];
        let reply = replies[last];
        assert(split_advances(before, reply, jobs[at]));
        assert(before.wf() && before.accepts(reply));
        assert forall|i: int, there: bool| #[trigger]
            part_was_looked_for(jobs, replies, i, there, last) implies part_was_looked_for(
            jobs,
            replies,
            i,
            there,
            at,
        ) by {
            let k = choose|k: int|
                0 <= k < last && (#[trigger] replies[k]) == SplitReply::Found(there) && (
                jobs[k].step matches SplitStep::CheckChunk { index } && index == i);
            assert(0 <= k < at && replies[k] == SplitReply::Found(there));
        }
        assert forall|i: int| #[trigger]
            part_was_measured(jobs, replies, i, last) implies part_was_measured(
            jobs,
            replies,
            i,
            at,
        ) by {
            let k = choose|k: int|
                0 <= k < last && (#[trigger] replies[k] matches SplitReply::ChunkSize { size, .. }
                    && size <= 51_380_224) && (jobs[k].step matches SplitStep::ReadChunkSize {
                    index,
                } && index == i);
            assert(0 <= k < at && replies[k] is ChunkSize);
        }
        if let SplitStep::CheckChunk { index } = before.step {
            let there = reply->Found_0;
            assert(replies[last] == SplitReply::Found(there));
            assert(part_was_looked_for(jobs, replies, index as int, there, at));
            if there {
                assert forall|i: int| 0 <= i < index + 1 implies #[trigger] part_was_looked_for(
                    jobs,
                    replies,
                    i,
                    true,
                    at,
                ) by {
                    if i < index {
                        assert(part_was_looked_for(jobs, replies, i, true, last));
                    }
                }
            } else {
                assert forall|i: int| 0 <= i < index implies #[trigger] part_was_looked_for(
                    jobs,
                    replies,
                    i,
                    true,
                    at,
                ) by {
                    assert(part_was_looked_for(jobs, replies, i, true, last));
                }
            }
        }
        if let SplitStep::ReadChunkSize { index } = before.step {
            assert forall|i: int| 0 <= i < before.found implies #[trigger] part_was_looked_for(
                jobs,
                replies,
                i,
                true,
                at,
            ) by {
                assert(part_was_looked_for(jobs, replies, i, true, last));
            }
            assert(part_was_looked_for(jobs, replies, before.found as int, false, last));
            if reply is ChunkSize && reply->ChunkSize_size <= 51_380_224 {
                assert(replies[last] is ChunkSize);
                assert(part_was_measured(jobs, replies, index as int, at));
                assert forall|i: int| 0 <= i < index + 1 implies #[trigger] part_was_measured(
                    jobs,
                    replies,
                    i,
                    at,
                ) by {
                    if i < index {
                        assert(part_was_measured(jobs, replies, i, last));
                    }
                }
            }
        }
    }
}

/// A splitting that succeeds counts all parts there are: each up to the count was looked for and
/// was there, the next one was looked for and was not, and each was measured and is within 49 MiB.
pub proof fn law_every_part_is_counted(
    jobs: Seq<SplitJob>,
    replies: Seq<SplitReply>,
    count: u32,
)
    requires
        is_split_run(jobs, replies),
        jobs.last().step == SplitStep::Finish(Ok(count)),
    ensures
        forall|i: int|
            0 <= i < count ==> #[trigger] part_was_looked_for(
                jobs,
                replies,
                i,
                true,
                replies.len() as int,
            ),
        part_was_looked_for(jobs, replies, count as int, false, replies.len() as int),
        forall|i: int|
            0 <= i < count ==> #[trigger] part_was_measured(
                jobs,
                replies,
                i,
                replies.len() as int,
            ),
{
    lemma_split_course(jobs, replies, jobs.len() - 1);
}

/// The duration that is divided is what was printed, without the white space around it, and it is
/// divided by the least number of chunks of 49 MiB that hold the file whose size was read.
pub proof fn law_duration_is_divided_by_size(
    jobs: Seq<SplitJob>,
    replies: Seq<SplitReply>,
    at: int,
)
    requires
        is_split_run(jobs, replies),
        0 <= at < jobs.len(),
        jobs[at].step is DivideDuration,
    ensures
        at == 2,
        replies[1] is Printed,
        is_trimmed(
            utf8_lossy(replies[1]->Printed_0@),
            jobs[at].step->DivideDuration_duration@,
        ),
        replies[0] is Size,
        jobs[at].chunks >= 1,
        jobs[at].chunks * 51_380_224 >= replies[0]->Size_0,
        jobs[at].chunks > 1 ==> (jobs[at].chunks - 1) * 51_380_224 < replies[0]->Size_0,
{
    lemma_split_course(jobs, replies, at);
    assert(split_advances(jobs[0], replies[0], jobs[1]));
    assert(jobs[0].accepts(replies[0]));
    assert(jobs[1].accepts(replies[1]));
    assert(split_advances(jobs[1], replies[1], jobs[2]));
    lemma_split_course(jobs, replies, 1);
    law_trimmed_exists(utf8_lossy(replies[1]->Printed_0@));
}

/// The file is split by the seconds that came of the division, and the parts are looked for only
/// after the splitting program succeeded.
pub proof fn law_split_goes_by_the_division(
    jobs: Seq<SplitJob>,
    replies: Seq<SplitReply>,
    at: int,
)
    requires
        is_split_run(jobs, replies),
        0 <= at < jobs.len(),
    ensures
        jobs[at].step matches SplitStep::Split { segment_time } ==> at == 3 && replies[2]
            == SplitReply::Seconds(segment_time),
        jobs[at].step is CheckChunk ==> at >= 4 && jobs[3].step is Split && replies[3]
            == SplitReply::Exited(true),
    decreases at,
{
    lemma_split_course(jobs, replies, at);
    if at > 0 {
        assert(split_advances(jobs[at - 1], replies[at - 1], jobs[at]));
        assert(jobs[at - 1].accepts(replies[at - 1]));
        lemma_split_course(jobs, replies, at - 1);
        law_split_goes_by_the_division(jobs, replies, at - 1);
    }
}

/// What went wrong is told: where a step fails, or a part cannot be used, the error that the
/// splitting ends with holds the words of the failure.
pub proof fn law_split_failure_is_told(before: SplitJob, reply: SplitReply, after: SplitJob)
    requires
        before.wf(),
        before.accepts(reply),
        split_advances(before, reply, after),
    ensures
        reply matches SplitReply::Failed(error) ==> (after.step matches SplitStep::Finish(Err(text))
            && (before.step is DivideDuration || has_suffix(text@, error@))),
        before.step is DivideDuration && reply is Failed ==> (after.step matches SplitStep::Finish(
            Err(text),
        ) && has_suffix(text@, before.step->DivideDuration_duration@)),
        reply matches SplitReply::ChunkUnreadable { path, error } ==> after.step is RemoveChunks
            && has_suffix(after.problem@, error@) && has_part(after.problem@, path@),
        reply is ChunkSize && reply->ChunkSize_size > 51_380_224 ==> after.step is RemoveChunks && has_part(after.problem@, reply->ChunkSize_path@) && has_part(
            after.problem@,
            reply->ChunkSize_megabytes@,
        ),
        before.step is RemoveChunks ==> after.step == SplitStep::Finish(Err(before.problem)),
        reply == SplitReply::Exited(false) ==> after.step is Finish && after.step->Finish_0 is Err,
{
    match reply {
        SplitReply::Failed(error) => {
            lemma_suffix("Cannot read file: "@, error@);
            lemma_suffix("Failed to run ffprobe: "@, error@);
            lemma_suffix("Failed to run ffmpeg: "@, error@);
            if let SplitStep::DivideDuration { duration } = before.step {
                lemma_suffix("Failed to parse duration: "@, duration@);
            }
        },
        SplitReply::ChunkUnreadable { path, error } => {
            let start = "Cannot read split chunk "@;
            lemma_suffix(start + path@ + ": "@, error@);
            lemma_part(start, path@, ": "@ + error@);
            assert(start + path@ + (": "@ + error@) =~= start + path@ + ": "@ + error@);
        },
        SplitReply::ChunkSize { path, size, megabytes } => {
            let start = "Split chunk "@;
            let middle = " is too large ("@;
            let end = "MB)"@;
            lemma_part(start, path@, middle + megabytes@ + end);
            lemma_part(start + path@ + middle, megabytes@, end);
            assert(start + path@ + (middle + megabytes@ + end) =~= start + path@ + middle
                + megabytes@ + end);
        },
        _ => {},
    }
}

proof fn lemma_suffix(a: Seq<char>, b: Seq<char>)
    ensures
        has_suffix(a + b, b),
{
    assert((a + b).skip((a + b).len() - b.len()) =~= b);
}

proof fn lemma_part(a: Seq<char>, b: Seq<char>, c: Seq<char>)
    ensures
        has_part(a + b + c, b),
{
    let at = a.len() as int;
    assert((a + b + c).subrange(at, at + b.len()) =~= b);
    assert(occurs_at(a + b + c, b, at));
}

/// A splitting goes wrong only for a cause: a step that failed, a program without success, no part
/// at all, or a part that is too large or cannot be read. Everything else goes on.
pub proof fn law_split_fails_only_for_a_cause(before: SplitJob, reply: SplitReply, after: SplitJob)
    requires
        before.wf(),
        before.accepts(reply),
        split_advances(before, reply, after),
    ensures
        after.step is Finish && after.step->Finish_0 is Err ==> before.step is RemoveChunks || reply
            is Failed || reply == SplitReply::Exited(false) || before.step == (
        SplitStep::CheckChunk { index: 0 }) && reply == SplitReply::Found(false),
        after.step is RemoveChunks ==> before.step is ReadChunkSize && (reply is ChunkUnreadable
            || reply->ChunkSize_size > 51_380_224),
        before.step is ReadSize && reply is Size ==> after.step is Probe,
        before.step is Probe && reply is Printed ==> after.step is DivideDuration,
        before.step is DivideDuration && reply is Seconds ==> after.step is Split,
        reply == SplitReply::Exited(true) ==> after.step == (SplitStep::CheckChunk { index: 0 }),
        before.step matches SplitStep::CheckChunk { index } ==> (reply == SplitReply::Found(true)
            ==> (after.step matches SplitStep::CheckChunk { index: next } && next == index + 1)) && (
        reply == SplitReply::Found(false) && index > 0 ==> after.found == index && after.step == (
        SplitStep::ReadChunkSize { index: 0 })),
{
}

/// What goes wrong with a splitting is told in words that name the step.
pub proof fn law_split_failures_have_their_words(
    before: SplitJob,
    reply: SplitReply,
    after: SplitJob,
)
    requires
        before.wf(),
        before.accepts(reply),
        split_advances(before, reply, after),
    ensures
        reply matches SplitReply::Failed(error) ==> (after.step matches SplitStep::Finish(Err(text))
            && text@ == match before.step {
            SplitStep::ReadSize => "Cannot read file: "@ + error@,
            SplitStep::Probe => "Failed to run ffprobe: "@ + error@,
            SplitStep::DivideDuration { duration } => "Failed to parse duration: "@ + duration@,
            _ => "Failed to run ffmpeg: "@ + error@,
        }),
        reply == SplitReply::Exited(false) ==> (after.step matches SplitStep::Finish(Err(text))
            && text@ == "ffmpeg split failed"@),
        before.step == (SplitStep::CheckChunk { index: 0 }) && reply == SplitReply::Found(false)
            ==> (after.step matches SplitStep::Finish(Err(text)) && text@
            == "No chunks produced by ffmpeg"@),
        reply matches SplitReply::ChunkUnreadable { path, error } ==> after.problem@
            == "Cannot read split chunk "@ + path@ + ": "@ + error@,
        reply is ChunkSize && reply->ChunkSize_size > 51_380_224 ==> after.problem@
            == "Split chunk "@ + reply->ChunkSize_path@ + " is too large ("@
            + reply->ChunkSize_megabytes@ + "MB)"@,
{
}

/// The functions of the splitting do what its laws speak of. The parts have names after one
/// pattern: the number in it is written with three digits, or more where it takes more. The whole
/// file is split, as it is, by time, and the duration that is asked for is the one of the file.
pub proof fn law_split_functions(
    stem: &str,
    ext: &str,
    index: u32,
    pattern: String,
    name: String,
    path: &str,
    probe: Vec<String>,
    segment_time: &str,
    form: &str,
    command: Vec<String>,
    file_size: u64,
    max_size: u64,
    count: u64,
    first: SplitJob,
    before: SplitJob,
    reply: SplitReply,
    after: SplitJob,
)
    requires
        call_ensures(chunk_pattern, (stem, ext), pattern),
        call_ensures(chunk_name, (stem, index, ext), name),
        call_ensures(probe_args, (path,), probe),
        call_ensures(split_args, (path, segment_time, form), command),
        max_size > 0,
        call_ensures(chunk_count, (file_size, max_size), count),
        call_ensures(SplitJob::new, (), first),
        call_ensures(SplitJob::advance, (before, reply), after),
    ensures
        exists|number: Seq<char>|
            number.len() >= 3 && digits_value(number, 0, u32::MAX as nat) == Ok::<
                nat,
                NumberError,
            >(index as nat) && #[trigger] framed(stem@ + "_"@, number, "."@ + ext@) == name@,
        framed(stem@ + "_"@, "%03d"@, "."@ + ext@) == pattern@,
        probe.deep_view() == seq![
            "-v"@,
            "error"@,
            "-show_entries"@,
            "format=duration"@,
            "-of"@,
            "default=noprint_wrappers=1:nokey=1"@,
            path@,
        ],
        command.deep_view() == seq![
            "-i"@,
            path@,
            "-f"@,
            "segment"@,
            "-segment_time"@,
            segment_time@,
            "-c"@,
            "copy"@,
            "-reset_timestamps"@,
            "1"@,
            form@,
        ],
        count >= 1 && count * max_size >= file_size && (count > 1 ==> (count - 1) * max_size
            < file_size),
        first.wf() && first.step is ReadSize,
        after.wf() && split_advances(before, reply, after),
{
    reveal_strlit("_");
    reveal_strlit(".");
    reveal_strlit("%03d");
    reveal_strlit("_%03d.");
    let number = zero_padded(index as nat, 3);
    law_padded_round_trip(index as nat, 3, u32::MAX as nat);
    law_padding_is_zeros(index as nat, 3);
    assert(framed(stem@ + "_"@, number, "."@ + ext@) =~= name@);
    assert(framed(stem@ + "_"@, "%03d"@, "."@ + ext@) =~= pattern@);
}

/// A text between two others.
pub open spec fn framed(before: Seq<char>, core: Seq<char>, after: Seq<char>) -> Seq<char> {
    before + core + after
}

}
