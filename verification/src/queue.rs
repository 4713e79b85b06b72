//! The queue of downloads: how many run at once, and who waits.
use std::sync::Arc;

use tokio::sync::{OwnedSemaphorePermit, Semaphore};
use vstd::prelude::*;

use crate::outside::{new_semaphore, permit_home, permit_limit, try_acquire, PermitAttempt};
use crate::text::{
    concat2, decimal, decimal_text, law_number_round_trip, law_numbers_are_digits,
    number_value, parse_number, NumberError,
};

verus! {

/// The downloads that may run, as permits of a semaphore, and the number that wait for one.
pub struct DownloadQueue {
    pub semaphore: Arc<Semaphore>,
    pub waiting: usize,
}

/// What becomes of a download that asks to run.
pub enum Admission {
    /// It runs, and holds the permit until it is done.
    Start(OwnedSemaphorePermit),
    /// It waits; the user reads the text.
    Wait { position: usize, text: String },
    /// The queue was closed, which never happens while the bot runs.
    Closed,
}

/// Reads how many downloads may run at once: a number greater than zero.
pub fn parse_max_concurrent_downloads(value: &str) -> (r: Result<usize, String>)
    ensures
        match number_value(value@, usize::MAX as nat) {
            Ok(n) => if n == 0 {
                r matches Err(message) && message@ == "must be greater than zero"@
            } else {
                r == Ok::<usize, String>(n as usize)
            },
            Err(error) => r matches Err(message) && message@ == "must be a positive integer: "@
                + error.wording(),
        },
{
    match parse_number(value, usize::MAX as u64) {
        Ok(n) => {
            if n == 0 {
                Err("must be greater than zero".to_owned())
            } else {
                Ok(n as usize)
            }
        },
        Err(error) => Err(concat2("must be a positive integer: ", error.describe())),
    }
}

/// A queue in which nothing waits and up to `max_concurrent` downloads run at once.
pub fn new_download_queue(max_concurrent: usize) -> (r: DownloadQueue)
    requires
        max_concurrent <= usize::MAX / 8,
    ensures
        permit_limit(*r.semaphore) == max_concurrent,
        r.waiting == 0,
{
    DownloadQueue { semaphore: new_semaphore(max_concurrent), waiting: 0 }
}

/// Whether one more download waits in `after` than in `before`, in the last place.
pub open spec fn joins(before: DownloadQueue, position: nat, after: DownloadQueue) -> bool {
    &&& position == before.waiting + 1
    &&& after.waiting == before.waiting + 1
    &&& after.semaphore == before.semaphore
}

/// Whether one download less waits in `after` than in `before`.
pub open spec fn leaves(before: DownloadQueue, after: DownloadQueue) -> bool {
    &&& before.waiting == after.waiting + 1
    &&& after.semaphore == before.semaphore
}

/// Lets one more download wait and gives its place.
pub fn register_waiting_download(queue: &mut DownloadQueue) -> (r: usize)
    requires
        old(queue).waiting < usize::MAX,
    ensures
        joins(*old(queue), r as nat, *final(queue)),
{
    queue.waiting = queue.waiting + 1;
    queue.waiting
}

/// Ends the wait of one download.
pub fn release_waiting_download(queue: &mut DownloadQueue)
    requires
        old(queue).waiting > 0,
    ensures
        leaves(*old(queue), *final(queue)),
{
    queue.waiting = queue.waiting - 1;
}

/// What the user reads while the download waits.
pub open spec fn queued_text(position: nat) -> Seq<char> {
    "Queued… Position: "@ + decimal(position)
}

/// What becomes of a download, from what came of the attempt to get a permit for it.
pub open spec fn admits(
    before: DownloadQueue,
    attempt: PermitAttempt,
    admission: Admission,
    after: DownloadQueue,
) -> bool {
    match attempt {
        PermitAttempt::Acquired(permit) => admission == Admission::Start(permit) && after == before,
        PermitAttempt::NoPermits => admission matches Admission::Wait { position, text } && joins(
            before,
            position as nat,
            after,
        ) && text@ == queued_text(position as nat),
        PermitAttempt::Closed => admission is Closed && after == before,
    }
}

/// Decides what becomes of a download, from what came of the attempt to get a permit for it.
pub fn admit_download(queue: &mut DownloadQueue, attempt: PermitAttempt) -> (r: Admission)
    requires
        old(queue).waiting < usize::MAX,
    ensures
        admits(*old(queue), attempt, r, *final(queue)),
{
    match attempt {
        PermitAttempt::Acquired(permit) => Admission::Start(permit),
        PermitAttempt::NoPermits => {
            let position: usize = register_waiting_download(queue);
            let text = concat2("Queued… Position: ", decimal_text(position as u64).as_str());
            Admission::Wait { position, text }
        },
        PermitAttempt::Closed => Admission::Closed,
    }
}

/// Asks for a permit at once, and queues the download where none is free.
pub fn request_download(queue: &mut DownloadQueue) -> (r: Admission)
    requires
        old(queue).waiting < usize::MAX,
    ensures
        exists|attempt: PermitAttempt| #[trigger] admits(*old(queue), attempt, r, *final(queue)),
        r matches Admission::Start(permit) ==> permit_home(permit) == *old(queue).semaphore,
{
    let ghost before = *queue;
    let attempt = try_acquire(&queue.semaphore);
    let admission = admit_download(queue, attempt);
    assert(admits(before, attempt, admission, *queue));
    admission
}

/// The place of a download that stops waiting goes to the next one that comes.
pub proof fn law_released_place_is_free(
    first: DownloadQueue,
    place: nat,
    second: DownloadQueue,
    third: DownloadQueue,
    next_place: nat,
    fourth: DownloadQueue,
)
    requires
        joins(first, place, second),
        leaves(second, third),
        joins(third, next_place, fourth),
    ensures
        next_place == place,
        third == first,
{
}

/// Downloads that come one after the other wait in places that follow each other.
pub proof fn law_places_follow(
    first: DownloadQueue,
    place: nat,
    second: DownloadQueue,
    next_place: nat,
    third: DownloadQueue,
)
    requires
        joins(first, place, second),
        joins(second, next_place, third),
    ensures
        next_place == place + 1,
{
}

/// A download waits just when no permit was free: it is then last in line, behind all that wait,
/// and is told its place. Who gets a permit waits for nothing, and nobody else moves.
pub proof fn law_who_waits_is_last(
    before: DownloadQueue,
    attempt: PermitAttempt,
    admission: Admission,
    after: DownloadQueue,
)
    requires
        admits(before, attempt, admission, after),
    ensures
        admission is Wait <==> attempt is NoPermits,
        admission is Start <==> attempt is Acquired,
        admission matches Admission::Wait { position, text } ==> position == before.waiting + 1
            && after.waiting == before.waiting + 1 && text@ == "Queued… Position: "@ + decimal(
            position as nat,
        ),
        attempt matches PermitAttempt::Acquired(permit) ==> admission == Admission::Start(permit),
        !(attempt is NoPermits) ==> after.waiting == before.waiting,
        after.semaphore == before.semaphore,
{
}

/// How many downloads may run at once is the number that is written, which must be greater than
/// zero; what is wrong with it is told.
pub proof fn law_limit_is_the_number_written(value: &str, limit: Result<usize, String>)
    requires
        call_ensures(parse_max_concurrent_downloads, (value,), limit),
    ensures
        limit matches Ok(n) ==> n > 0 && number_value(value@, usize::MAX as nat) == Ok::<
            nat,
            NumberError,
        >(n as nat),
        number_value(value@, usize::MAX as nat) == Ok::<nat, NumberError>(0) ==> (limit matches Err(
            text,
        ) && text@ == "must be greater than zero"@),
        number_value(value@, usize::MAX as nat) matches Err(error) ==> (limit matches Err(text)
            && text@ == "must be a positive integer: "@ + match error {
            NumberError::Empty => "cannot parse integer from empty string"@,
            NumberError::InvalidDigit => "invalid digit found in string"@,
            NumberError::TooLarge => "number too large to fit in target type"@,
        }),
        limit is Err ==> number_value(value@, usize::MAX as nat) is Err || number_value(
            value@,
            usize::MAX as nat,
        ) == Ok::<nat, NumberError>(0),
{
    law_numbers_are_digits(value@, usize::MAX as nat);
}

/// Every number greater than zero that fits is a limit, as it is written.
pub proof fn law_every_positive_number_is_a_limit(
    n: usize,
    value: &str,
    limit: Result<usize, String>,
)
    requires
        n > 0,
        value@ == decimal(n as nat),
        call_ensures(parse_max_concurrent_downloads, (value,), limit),
    ensures
        limit == Ok::<usize, String>(n),
{
    law_number_round_trip(n as nat, usize::MAX as nat);
}

/// To wait is to come last: the place is one behind all that wait, and one more waits then.
pub proof fn law_registering_takes_the_last_place(queue: &mut DownloadQueue, place: usize)
    requires
        old(queue).waiting < usize::MAX,
        call_ensures(register_waiting_download, (queue,), place),
    ensures
        place == old(queue).waiting + 1,
        final(queue).waiting == old(queue).waiting + 1,
        final(queue).semaphore == old(queue).semaphore,
{
}

/// Who stops waiting leaves one place free, and no other.
pub proof fn law_releasing_frees_one_place(queue: &mut DownloadQueue)
    requires
        old(queue).waiting > 0,
        call_ensures(release_waiting_download, (queue,), ()),
    ensures
        final(queue).waiting == old(queue).waiting - 1,
        final(queue).semaphore == old(queue).semaphore,
{
}

/// A download that asks to run starts with the permit that was free, and else waits in the last
/// place and is told which that is.
pub proof fn law_admission_goes_by_the_attempt(
    queue: &mut DownloadQueue,
    attempt: PermitAttempt,
    admission: Admission,
)
    requires
        old(queue).waiting < usize::MAX,
        call_ensures(admit_download, (queue, attempt), admission),
    ensures
        attempt matches PermitAttempt::Acquired(permit) ==> admission == Admission::Start(permit)
            && final(queue).waiting == old(queue).waiting,
        attempt is NoPermits ==> (admission matches Admission::Wait { position, text } && position
            == old(queue).waiting + 1 && text@ == "Queued… Position: "@ + decimal(position as nat))
            && final(queue).waiting == old(queue).waiting + 1,
        attempt is Closed ==> admission is Closed && final(queue).waiting == old(queue).waiting,
        final(queue).semaphore == old(queue).semaphore,
{
    law_who_waits_is_last(*old(queue), attempt, admission, *final(queue));
}

}
