//! Putting several videos together.
use vstd::prelude::*;
use vstd::string::StringExecFns;

use crate::outside::{lossy_text, utf8_lossy};
use crate::text::{
    concat2, concat3, has_suffix, law_line_ends_at_the_feed, law_lines_come_apart, lines, owned,
    split_lines,
};

verus! {

/// The line of the list that names one file.
pub open spec fn list_line(path: Seq<char>) -> Seq<char> {
    "file '"@ + path + "'\n"@
}

/// The list that names the files, in order.
pub open spec fn list_text(paths: Seq<Seq<char>>) -> Seq<char>
    decreases paths.len(),
{
    if paths.len() == 0 {
        Seq::empty()
    } else {
        list_text(paths.drop_last()) + list_line(paths.last())
    }
}

/// Writes the list that names the files, in order.
pub fn concat_list(paths: &Vec<String>) -> (r: String)
    ensures
        r@ == list_text(paths.deep_view()),
{
    let mut out = String::new();
    let mut i: usize = 0;
    let ghost all = paths.deep_view();
    assert(all.take(0) =~= Seq::<Seq<char>>::empty());
    while i < paths.len()
        invariant
            all == paths.deep_view(),
            i <= paths@.len(),
            out@ == list_text(all.take(i as int)),
        decreases paths@.len() - i,
    {
        let line = concat3("file '", paths[i].as_str(), "'\n");
        out.append(line.as_str());
        assert(all.take(i + 1).drop_last() =~= all.take(i as int));
        i = i + 1;
    }
    assert(all.take(all.len() as int) =~= all);
    out
}

/// The arguments of `ffmpeg` before the list.
pub fn concat_input_args() -> (r: Vec<String>)
    ensures
        r.deep_view() == seq!["-y"@, "-f"@, "concat"@, "-safe"@, "0"@, "-i"@],
{
    let out = owned(&["-y", "-f", "concat", "-safe", "0", "-i"]);
    assert(out.deep_view() =~= seq!["-y"@, "-f"@, "concat"@, "-safe"@, "0"@, "-i"@]);
    out
}

/// The arguments of `ffmpeg` between the list and the output.
pub fn concat_output_args() -> (r: Vec<String>)
    ensures
        r.deep_view() == seq!["-c"@, "copy"@, "-movflags"@, "+faststart"@],
{
    let out = owned(&["-c", "copy", "-movflags", "+faststart"]);
    assert(out.deep_view() =~= seq!["-c"@, "copy"@, "-movflags"@, "+faststart"@]);
    out
}

/// The last line of a text, or `otherwise` where it has none.
pub open spec fn last_line_or(text: Seq<char>, otherwise: Seq<char>) -> Seq<char> {
    if lines(text).len() == 0 {
        otherwise
    } else {
        lines(text).last()
    }
}

/// The last line of `text`, or `otherwise` where it has none.
pub fn last_line(text: &str, otherwise: &str) -> (r: String)
    ensures
        r@ == last_line_or(text@, otherwise@),
{
    let all = split_lines(text);
    let ghost views = all.deep_view();
    if all.len() == 0 {
        otherwise.to_owned()
    } else {
        let last: usize = all.len() - 1;
        assert(views[last as int] == all@[last as int]@);
        all[last].to_owned()
    }
}

/// What is to be done next.
#[derive(Debug)]
pub enum ConcatStep {
    /// Copy the only video.
    Copy,
    /// Write the list of the videos.
    WriteList,
    /// Run `ffmpeg` on the list.
    RunFfmpeg,
    /// Remove the list.
    RemoveList,
    /// Nothing: this is what came of it.
    Finish(Result<(), String>),
}

/// What came of a step.
#[derive(Debug)]
pub enum ConcatReply {
    /// It was done.
    Done,
    /// It failed.
    Failed(String),
    /// The program ran, and failed with these words.
    Rejected(Vec<u8>),
}

/// The joining of several videos.
#[derive(Debug)]
pub struct ConcatJob {
    /// What will have come of it once the list is removed.
    pub outcome: Result<(), String>,
    pub step: ConcatStep,
}

/// Whether `result` is the error `text`.
pub open spec fn is_error(result: Result<(), String>, text: Seq<char>) -> bool {
    result matches Err(error) && error@ == text
}

/// Whether `after` follows `before` when `reply` came of its step.
pub open spec fn concat_advances(before: ConcatJob, reply: ConcatReply, after: ConcatJob) -> bool {
    match (before.step, reply) {
        (ConcatStep::Copy, ConcatReply::Failed(error)) => after.step is Finish && is_error(
            after.step->Finish_0,
            "Cannot copy the downloaded Reel: "@ + error@,
        ),
        (ConcatStep::Copy, _) => after.step == ConcatStep::Finish(Ok(())),
        (ConcatStep::WriteList, ConcatReply::Failed(error)) => after.step is Finish && is_error(
            after.step->Finish_0,
            "Cannot create ffmpeg concat list: "@ + error@,
        ),
        (ConcatStep::WriteList, _) => after.step is RunFfmpeg,
        (ConcatStep::RunFfmpeg, ConcatReply::Done) => after.step is RemoveList && after.outcome is Ok,
        (ConcatStep::RunFfmpeg, ConcatReply::Failed(error)) => after.step is RemoveList && is_error(
            after.outcome,
            "Failed to run ffmpeg: "@ + error@,
        ),
        (ConcatStep::RunFfmpeg, ConcatReply::Rejected(words)) => after.step is RemoveList
            && is_error(
            after.outcome,
            "ffmpeg concat failed: "@ + last_line_or(
                utf8_lossy(words@),
                "ffmpeg exited with an error"@,
            ),
        ),
        (ConcatStep::RemoveList, _) => after.step == ConcatStep::Finish(before.outcome),
        (_, _) => false,
    }
}

impl ConcatJob {
    /// Whether `reply` can come of the next step.
    pub open spec fn accepts(self, reply: ConcatReply) -> bool {
        match self.step {
            ConcatStep::Finish(_) => false,
            ConcatStep::RunFfmpeg => true,
            _ => !(reply is Rejected),
        }
    }

    /// The joining of `count` videos: one alone is copied.
    pub fn new(count: usize) -> (r: ConcatJob)
        ensures
            if count == 1 {
                r.step is Copy
            } else {
                r.step is WriteList
            },
    {
        let step = if count == 1 {
            ConcatStep::Copy
        } else {
            ConcatStep::WriteList
        };
        ConcatJob { outcome: Ok(()), step }
    }

    /// Goes on from what came of the step.
    pub fn advance(self, reply: ConcatReply) -> (r: ConcatJob)
        requires
            self.accepts(reply),
        ensures
            concat_advances(self, reply, r),
    {
        let ConcatJob { outcome, step } = self;
        match step {
            ConcatStep::Copy => {
                let result = match reply {
                    ConcatReply::Failed(error) => Err(
                        concat2("Cannot copy the downloaded Reel: ", error.as_str()),
                    ),
                    _ => Ok(()),
                };
                ConcatJob { outcome, step: ConcatStep::Finish(result) }
            },
            ConcatStep::WriteList => {
                let step = match reply {
                    ConcatReply::Failed(error) => ConcatStep::Finish(
                        Err(concat2("Cannot create ffmpeg concat list: ", error.as_str())),
                    ),
                    _ => ConcatStep::RunFfmpeg,
                };
                ConcatJob { outcome, step }
            },
            ConcatStep::RunFfmpeg => {
                let outcome = match reply {
                    ConcatReply::Done => Ok(()),
                    ConcatReply::Failed(error) => Err(
                        concat2("Failed to run ffmpeg: ", error.as_str()),
                    ),
                    ConcatReply::Rejected(words) => {
                        let text = lossy_text(words.as_slice());
                        let details = last_line(text.as_str(), "ffmpeg exited with an error");
                        Err(concat2("ffmpeg concat failed: ", details.as_str()))
                    },
                };
                ConcatJob { outcome, step: ConcatStep::RemoveList }
            },
            ConcatStep::RemoveList => ConcatJob {
                outcome: Ok(()),
                step: ConcatStep::Finish(outcome),
            },
            ConcatStep::Finish(result) => ConcatJob { outcome, step: ConcatStep::Finish(result) },
        }
    }
}

/// A list that was written is removed before the end, whatever came of it.
pub proof fn law_list_is_removed(before: ConcatJob, reply: ConcatReply, after: ConcatJob)
    requires
        before.accepts(reply),
        concat_advances(before, reply, after),
    ensures
        before.step is RunFfmpeg ==> after.step is RemoveList,
        before.step is RemoveList ==> after.step == ConcatStep::Finish(before.outcome),
{
}

/// The list of files that come one after the other is their lists one after the other, and the list
/// of one file is one line that names it in quotes: so every file is named, once, in order.
pub proof fn law_list_names_each_file(
    first: Seq<Seq<char>>,
    second: Seq<Seq<char>>,
    path: Seq<char>,
)
    ensures
        list_text(first + second) == list_text(first) + list_text(second),
        list_text(seq![path]) == "file '"@ + path + "'\n"@,
        list_text(Seq::empty()) == Seq::<char>::empty(),
    decreases second.len(),
{
    assert(seq![path].drop_last() =~= Seq::<Seq<char>>::empty());
    reveal_with_fuel(list_text, 2);
    assert(list_text(seq![path]) =~= "file '"@ + path + "'\n"@);
    if second.len() == 0 {
        assert(first + second =~= first);
        assert(list_text(first) + list_text(second) =~= list_text(first));
    } else {
        assert((first + second).drop_last() =~= first + second.drop_last());
        law_list_names_each_file(first, second.drop_last(), path);
        assert(list_text(first + second) =~= list_text(first) + list_text(second));
    }
}

/// The last line is what follows the last line feed, or the whole text where there is none; a line
/// feed at the very end does not count, and an empty text has none.
pub proof fn law_last_line_follows_the_last_feed(
    before: Seq<char>,
    line: Seq<char>,
    otherwise: Seq<char>,
)
    requires
        !line.contains('\n'),
        line.len() > 0,
        line.last() != '\r',
    ensures
        last_line_or(line, otherwise) == line,
        last_line_or(line + seq!['\n'], otherwise) == line,
        last_line_or(before + seq!['\n'] + line, otherwise) == line,
        last_line_or(Seq::empty(), otherwise) == otherwise,
{
    let none = Seq::<char>::empty();
    law_lines_come_apart(line, none);
    assert(line + seq!['\n'] + none =~= line + seq!['\n']);
    lemma_lines_end_with(before, line);
}

proof fn lemma_lines_end_with(before: Seq<char>, line: Seq<char>)
    requires
        !line.contains('\n'),
        line.len() > 0,
    ensures
        lines(before + seq!['\n'] + line).len() > 0,
        lines(before + seq!['\n'] + line).last() == line,
    decreases before.len(),
{
    let all = before + seq!['\n'] + line;
    law_lines_come_apart(line, line);
    if before.contains('\n') {
        let at = before.index_of_first('\n')->0;
        before.index_of_first_ensures('\n');
        let head = before.take(at);
        let rest = before.skip(at + 1);
        lemma_lines_end_with(rest, line);
        assert(all =~= head + seq!['\n'] + (rest + seq!['\n'] + line));
        lemma_line_apart(head, rest + seq!['\n'] + line);
    } else {
        lemma_line_apart(before, line);
    }
}

proof fn lemma_line_apart(head: Seq<char>, rest: Seq<char>)
    requires
        !head.contains('\n'),
        lines(rest).len() > 0,
    ensures
        lines(head + seq!['\n'] + rest).len() > 0,
        lines(head + seq!['\n'] + rest).last() == lines(rest).last(),
{
    law_line_ends_at_the_feed(head, rest);
    let all = lines(head + seq!['\n'] + rest);
    assert(all.skip(1).last() == all.last());
}

/// The joining ends with success just when the copy was made or the program succeeded, and else
/// with the failure: in its own words, or in the last that the program printed.
pub proof fn law_joining_ends_with_what_came_of_it(
    before: ConcatJob,
    reply: ConcatReply,
    after: ConcatJob,
)
    requires
        before.accepts(reply),
        concat_advances(before, reply, after),
    ensures
        before.step is Copy ==> after.step is Finish && (after.step->Finish_0 is Ok <==> reply is Done),
        before.step is WriteList ==> (reply is Done <==> after.step is RunFfmpeg) && (reply is Failed
            <==> after.step is Finish && after.step->Finish_0 is Err),
        before.step is RunFfmpeg ==> after.step is RemoveList && (after.outcome is Ok <==> reply
            is Done),
        (before.step is Copy || before.step is WriteList) && reply is Failed ==> has_suffix(
            after.step->Finish_0->Err_0@,
            reply->Failed_0@,
        ),
        before.step is RunFfmpeg && reply is Failed ==> has_suffix(
            after.outcome->Err_0@,
            reply->Failed_0@,
        ),
        before.step is RunFfmpeg && reply is Rejected && lines(
            utf8_lossy(reply->Rejected_0@),
        ).len() > 0 ==> has_suffix(
            after.outcome->Err_0@,
            lines(utf8_lossy(reply->Rejected_0@)).last(),
        ),
{
    if let ConcatReply::Failed(error) = reply {
        lemma_ends("Cannot copy the downloaded Reel: "@, error@);
        lemma_ends("Cannot create ffmpeg concat list: "@, error@);
        lemma_ends("Failed to run ffmpeg: "@, error@);
    }
    if let ConcatReply::Rejected(words) = reply {
        lemma_ends("ffmpeg concat failed: "@, lines(utf8_lossy(words@)).last());
    }
}

proof fn lemma_ends(a: Seq<char>, b: Seq<char>)
    ensures
        has_suffix(a + b, b),
{
    assert((a + b).skip((a + b).len() - b.len()) =~= b);
}

/// What goes wrong with a joining is told in words that name the step.
pub proof fn law_joining_failures_have_their_words(
    before: ConcatJob,
    reply: ConcatReply,
    after: ConcatJob,
)
    requires
        before.accepts(reply),
        concat_advances(before, reply, after),
    ensures
        before.step is Copy ==> (reply matches ConcatReply::Failed(error) ==> (
        after.step matches ConcatStep::Finish(Err(text)) && text@
            == "Cannot copy the downloaded Reel: "@ + error@)),
        before.step is WriteList ==> (reply matches ConcatReply::Failed(error) ==> (
        after.step matches ConcatStep::Finish(Err(text)) && text@
            == "Cannot create ffmpeg concat list: "@ + error@)),
        before.step is RunFfmpeg ==> (reply matches ConcatReply::Failed(error) ==> (
        after.outcome matches Err(text) && text@ == "Failed to run ffmpeg: "@ + error@)),
        before.step is RunFfmpeg ==> (reply matches ConcatReply::Rejected(words) ==> (
        after.outcome matches Err(text) && text@ == "ffmpeg concat failed: "@ + if lines(
            utf8_lossy(words@),
        ).len() == 0 {
            "ffmpeg exited with an error"@
        } else {
            lines(utf8_lossy(words@)).last()
        })),
{
}

/// The functions of a joining do what its laws speak of: one video alone is copied, and all others
/// are joined by their list, as they are, so that the video can be played while it loads.
pub proof fn law_joining_functions(
    count: usize,
    first: ConcatJob,
    before: ConcatJob,
    reply: ConcatReply,
    after: ConcatJob,
    input: Vec<String>,
    output: Vec<String>,
    paths: Vec<String>,
    list: String,
)
    requires
        call_ensures(ConcatJob::new, (count,), first),
        call_ensures(ConcatJob::advance, (before, reply), after),
        call_ensures(concat_input_args, (), input),
        call_ensures(concat_output_args, (), output),
        call_ensures(concat_list, (&paths,), list),
    ensures
        first.step is Copy <==> count == 1,
        first.step is WriteList <==> count != 1,
        concat_advances(before, reply, after),
        input.deep_view() == seq!["-y"@, "-f"@, "concat"@, "-safe"@, "0"@, "-i"@],
        output.deep_view() == seq!["-c"@, "copy"@, "-movflags"@, "+faststart"@],
        list@ == list_text(paths.deep_view()),
{
}

}
