//! The calls into other crates and into `std` that the logic rests on.
//!
//! Verus takes the contracts of this module without proof. The names declared here stand for
//! what a call gives back as a function of its arguments.
use std::sync::Arc;

use regex::Regex;
use serde_json::Value;
use tokio::sync::{OwnedSemaphorePermit, Semaphore, TryAcquireError};
use uuid::Uuid;
use vstd::prelude::*;
use vstd::utf8::*;

verus! {

// Regular expressions

/// The text that `Regex::find` finds first in `text` for the expression `pattern`.
pub uninterp spec fn regex_find(pattern: Seq<char>, text: Seq<char>) -> Option<Seq<char>>;

/// The texts of the groups that `Regex::captures` finds in `text` for the expression `pattern`,
/// with the whole match as group 0 and `None` for a group that took no part.
pub uninterp spec fn regex_captures(pattern: Seq<char>, text: Seq<char>) -> Option<
    Seq<Option<Seq<char>>>,
>;

/// Whether the expression `pattern` is found anywhere in `text`.
pub open spec fn regex_is_match(pattern: Seq<char>, text: Seq<char>) -> bool {
    regex_find(pattern, text) is Some
}

/// Whether `part` stands in `text` in one piece.
pub open spec fn is_substring(part: Seq<char>, text: Seq<char>) -> bool {
    exists|from: int, to: int|
        0 <= from <= to <= text.len() && #[trigger] text.subrange(from, to) == part
}

/// `Regex::is_match`: whether the expression matches anywhere in `text`, which is when
/// `Regex::find` finds something. An expression that does not compile matches nowhere.
#[verifier::external_body]
pub(crate) fn is_match(pattern: &str, text: &str) -> (r: bool)
    ensures
        r == regex_is_match(pattern@, text@),
{
    Regex::new(pattern).is_ok_and(|re| re.is_match(text))
}

/// `Regex::find`: the first match of the expression in `text`, which is a part of `text`. An
/// expression that does not compile is found nowhere.
#[verifier::external_body]
pub(crate) fn find<'a>(pattern: &str, text: &'a str) -> (r: Option<&'a str>)
    ensures
        r.deep_view() == regex_find(pattern@, text@),
        r matches Some(found) ==> is_substring(found@, text@),
{
    Regex::new(pattern).ok()?.find(text).map(|m| m.as_str())
}

/// `Regex::captures`: the groups of the first match of the expression in `text`. There are some
/// when `Regex::find` finds something, which is then group 0, and each group that took part is a
/// part of `text`. An expression that does not compile has none.
#[verifier::external_body]
pub(crate) fn captures<'a>(pattern: &str, text: &'a str) -> (r: Option<Vec<Option<&'a str>>>)
    ensures
        r.deep_view() == regex_captures(pattern@, text@),
        r is Some <==> regex_find(pattern@, text@) is Some,
        r matches Some(groups) ==> groups@.len() >= 1 && groups@[0].deep_view() == regex_find(
            pattern@,
            text@,
        ),
        r matches Some(groups) ==> forall|i: int|
            0 <= i < groups@.len() && (#[trigger] groups@[i]) is Some ==> is_substring(
                groups@[i]->0@,
                text@,
            ),
{
    let found = Regex::new(pattern).ok()?.captures(text)?;
    Some(found.iter().map(|m| m.map(|m| m.as_str())).collect())
}

// JSON

/// The error that `serde_json::from_str` reports on `text`, where it does.
pub uninterp spec fn json_error(text: Seq<char>) -> Option<Seq<char>>;

/// Whether `Value::pointer` finds anything at `pointer` in the JSON document `text`.
pub uninterp spec fn json_present(text: Seq<char>, pointer: Seq<char>) -> bool;

/// The string (`Value::as_str`) at `pointer` in the JSON document `text`.
pub uninterp spec fn json_string(text: Seq<char>, pointer: Seq<char>) -> Option<Seq<char>>;

/// The number (`Value::as_u64`) at `pointer` in the JSON document `text`.
pub uninterp spec fn json_u64(text: Seq<char>, pointer: Seq<char>) -> Option<u64>;

/// The array (`Value::as_array`) at `pointer` in the JSON document `text`, each element by its
/// string, where it is one.
pub uninterp spec fn json_strings(text: Seq<char>, pointer: Seq<char>) -> Option<
    Seq<Option<Seq<char>>>,
>;

/// `serde_json::from_str`: the error that it reports on `text`.
#[verifier::external_body]
pub(crate) fn json_error_of(text: &str) -> (r: Option<String>)
    ensures
        r.deep_view() == json_error(text@),
{
    serde_json::from_str::<Value>(text).err().map(|e| e.to_string())
}

/// `Value::pointer` on the parsed document: whether there is anything at `pointer`. Where `text`
/// is no JSON document there is not.
#[verifier::external_body]
pub(crate) fn json_has(text: &str, pointer: &str) -> (r: bool)
    ensures
        r == json_present(text@, pointer@),
{
    serde_json::from_str::<Value>(text).is_ok_and(|v| v.pointer(pointer).is_some())
}

/// `Value::as_str` on what `Value::pointer` finds in the parsed document. Where `text` is no JSON
/// document there is none, and a string is there only if anything is.
#[verifier::external_body]
pub(crate) fn json_string_at(text: &str, pointer: &str) -> (r: Option<String>)
    ensures
        r.deep_view() == json_string(text@, pointer@),
        r is Some ==> json_present(text@, pointer@),
{
    let document = serde_json::from_str::<Value>(text).ok()?;
    document.pointer(pointer)?.as_str().map(|s| s.to_owned())
}

/// `Value::as_u64` on what `Value::pointer` finds in the parsed document.
#[verifier::external_body]
pub(crate) fn json_u64_at(text: &str, pointer: &str) -> (r: Option<u64>)
    ensures
        r == json_u64(text@, pointer@),
{
    serde_json::from_str::<Value>(text).ok()?.pointer(pointer)?.as_u64()
}

/// `Value::as_array` on what `Value::pointer` finds in the parsed document, with `Value::as_str`
/// on each element.
#[verifier::external_body]
pub(crate) fn json_strings_at(text: &str, pointer: &str) -> (r: Option<Vec<Option<String>>>)
    ensures
        r.deep_view() == json_strings(text@, pointer@),
{
    let document = serde_json::from_str::<Value>(text).ok()?;
    let array = document.pointer(pointer)?.as_array()?;
    Some(array.iter().map(|v| v.as_str().map(|s| s.to_owned())).collect())
}

// Random identifiers

/// Whether `c` is a small hexadecimal digit.
pub open spec fn is_hex_digit(c: char) -> bool {
    '0' <= c <= '9' || 'a' <= c <= 'f'
}

/// Whether `s` is written as a random identifier: 32 hexadecimal digits in groups of 8, 4, 4, 4
/// and 12 with hyphens between them, with the version 4 and the variant in their places.
pub open spec fn is_random_id(s: Seq<char>) -> bool {
    &&& s.len() == 36
    &&& forall|i: int|
        0 <= i < 36 ==> if i == 8 || i == 13 || i == 18 || i == 23 {
            (#[trigger] s[i]) == '-'
        } else {
            is_hex_digit(s[i])
        }
    &&& s[14] == '4'
    &&& s[19] == '8' || s[19] == '9' || s[19] == 'a' || s[19] == 'b'
}

/// `Uuid::new_v4`, written by its `Display`: the text has the form of a random identifier. Which
/// digits it has is left to chance.
#[verifier::external_body]
pub(crate) fn random_id() -> (r: String)
    ensures
        is_random_id(r@),
{
    Uuid::new_v4().to_string()
}

// Semaphores

/// A `tokio` semaphore, which hands out permits.
#[verifier::external_type_specification]
#[verifier::external_body]
pub struct ExSemaphore(Semaphore);

/// A permit of a `tokio` semaphore, given back when it is dropped.
#[verifier::external_type_specification]
#[verifier::external_body]
pub struct ExOwnedSemaphorePermit(OwnedSemaphorePermit);

/// What an attempt to get a permit at once comes to.
pub enum PermitAttempt {
    /// A permit was free.
    Acquired(OwnedSemaphorePermit),
    /// No permit is free now.
    NoPermits,
    /// The semaphore was closed.
    Closed,
}

/// How many permits a semaphore was made with.
pub uninterp spec fn permit_limit(semaphore: Semaphore) -> nat;

/// The semaphore that a permit is given back to.
pub uninterp spec fn permit_home(permit: OwnedSemaphorePermit) -> Semaphore;

/// `Semaphore::new`, which does not take more permits than `Semaphore::MAX_PERMITS`. The
/// semaphore is made with `permits` permits.
#[verifier::external_body]
pub(crate) fn new_semaphore(permits: usize) -> (r: Arc<Semaphore>)
    requires
        permits <= usize::MAX / 8,
    ensures
        permit_limit(*r) == permits,
{
    Arc::new(Semaphore::new(permits))
}

/// `Semaphore::try_acquire_owned`: a permit that it gives is one of this semaphore. Whether it
/// gives one depends on who holds permits at that moment, which is left unsaid.
#[verifier::external_body]
pub(crate) fn try_acquire(semaphore: &Arc<Semaphore>) -> (r: PermitAttempt)
    ensures
        r matches PermitAttempt::Acquired(permit) ==> permit_home(permit) == **semaphore,
{
    match Arc::clone(semaphore).try_acquire_owned() {
        Ok(permit) => PermitAttempt::Acquired(permit),
        Err(TryAcquireError::NoPermits) => PermitAttempt::NoPermits,
        Err(TryAcquireError::Closed) => PermitAttempt::Closed,
    }
}

// Strings

/// `String::push`: the character is appended at the end.
pub assume_specification[ String::push ](s: &mut String, c: char)
    ensures
        final(s)@ == old(s)@.push(c),
;

/// The text that `String::from_utf8_lossy` makes of `bytes`.
pub uninterp spec fn utf8_lossy(bytes: Seq<u8>) -> Seq<char>;

/// `String::from_utf8_lossy`: the text of the bytes, which is what they encode where they are
/// valid UTF-8.
#[verifier::external_body]
pub(crate) fn lossy_text(bytes: &[u8]) -> (r: String)
    ensures
        r@ == utf8_lossy(bytes@),
        valid_utf8(bytes@) ==> r@ == decode_utf8(bytes@),
{
    String::from_utf8_lossy(bytes).into_owned()
}

}
