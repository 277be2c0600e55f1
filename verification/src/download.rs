//! The rules of a download that can be taken up again: where an attempt
//! starts, how large the file is going to be, when it is complete, and what
//! follows an attempt that failed.
//!
//! The transfer itself is the caller's part.

use vstd::prelude::*;
use crate::number::{decimal_digits, decimal_text, parse_decimal, parsed_decimal};
use crate::text::{from_chars, push_all, push_str, slice_chars, text_of, to_chars};

verus! {

/// The seconds to wait before the next attempt.
pub const RETRY_WAIT_SECS: u64 = 10;

/// The seconds to wait before the next attempt where the file could not be
/// opened.
pub const FILE_RETRY_WAIT_SECS: u64 = 5;

/// The file is flushed whenever this many bytes more are in it.
pub const FLUSH_EVERY_BYTES: u64 = 10485760;

/// The file is flushed once more than this many nanoseconds have passed
/// since the last flush.
pub const FLUSH_AFTER_NANOS: u128 = 5000000000;

/// The status of a response that holds a part of the file.
pub const PARTIAL_CONTENT: u16 = 206;

/// What went wrong in an attempt.
#[derive(Debug, Clone, Copy, PartialEq, Eq, Structural)]
pub enum Failure {
    /// The request could not be sent.
    Request,
    /// The server answered with a status that holds no file.
    Status,
    /// The file could not be opened.
    OpenFile,
    /// The transfer broke off, or fewer bytes came than were announced.
    Incomplete,
}

/// What follows an attempt that failed.
#[derive(Debug, Clone, Copy, PartialEq, Eq, Structural)]
pub enum Next {
    /// Wait, then try again.
    Retry { wait_secs: u64 },
    /// Give up and report the failure; remove what is there of the file
    /// where `remove_partial` says so.
    GiveUp { remove_partial: bool },
}

/// The byte at which an attempt takes the file up: the length of what is
/// there of it from the second attempt on, zero in the first attempt and
/// where nothing is there.
pub open spec fn resume_from(attempt: usize, existing_len: Option<u64>) -> u64 {
    if attempt > 1 {
        match existing_len {
            Some(len) => len,
            None => 0,
        }
    } else {
        0
    }
}

/// The range to ask for when the file is taken up at `offset`.
pub open spec fn range_from(offset: u64) -> Seq<char> {
    "bytes="@ + decimal_digits(offset as nat) + "-"@
}

/// The status says that the response holds the file or a part of it.
pub open spec fn is_usable(status: u16) -> bool {
    200 <= status < 300
}

/// The position of the first `/` of `text`, or its length where it holds
/// none.
pub open spec fn first_slash(text: Seq<char>) -> nat
    decreases text.len(),
{
    if text.len() == 0 || text[0] == '/' {
        0
    } else {
        1 + first_slash(text.skip(1))
    }
}

/// What stands between the first `/` of `text` and the next one, or the end
/// of the text: nothing where the text holds no `/`.
pub open spec fn after_first_slash(text: Seq<char>) -> Option<Seq<char>> {
    let at = first_slash(text) as int;
    if at >= text.len() {
        None
    } else {
        let rest = text.skip(at + 1);
        Some(rest.take(first_slash(rest) as int))
    }
}

/// The larger of the sum of two lengths and the largest length that can be
/// counted.
pub open spec fn capped_sum(left: u64, right: u64) -> u64 {
    if left + right > u64::MAX {
        u64::MAX
    } else {
        (left + right) as u64
    }
}

/// The length that an optional length stands for: zero where it is missing.
pub open spec fn length_or_zero(length: Option<u64>) -> u64 {
    match length {
        Some(len) => len,
        None => 0,
    }
}

/// The size that the file is going to have, zero where the server does not
/// say.
///
/// A whole file has the length that the response announces. For a part of
/// the file, the size is the number after the `/` of the content range,
/// zero where that is no number; without a content range, or one without a
/// `/`, it is the announced length and the bytes that were there before.
pub open spec fn expected_size(
    status: u16,
    content_range: Option<Seq<char>>,
    content_length: Option<u64>,
    offset: u64,
) -> u64 {
    if status == PARTIAL_CONTENT {
        match content_range {
            Some(range) => match after_first_slash(range) {
                Some(total) => length_or_zero(parsed_decimal(total)),
                None => capped_sum(length_or_zero(content_length), offset),
            },
            None => capped_sum(length_or_zero(content_length), offset),
        }
    } else {
        length_or_zero(content_length)
    }
}

/// The attempt brought the whole file: nothing failed while writing, and
/// as many bytes are there as were expected, or the size was not known.
pub open spec fn complete(written: bool, total_size: u64, downloaded: u64) -> bool {
    written && (total_size == 0 || downloaded >= total_size)
}

/// The file is to be flushed: a whole number of flush units is in it, or
/// the time since the last flush is up.
pub open spec fn flush_due(downloaded: u64, nanos_since_flush: u128) -> bool {
    downloaded % FLUSH_EVERY_BYTES == 0 || nanos_since_flush > FLUSH_AFTER_NANOS
}

/// What follows a failure in attempt `attempt` of `max_retries`: after the
/// last attempt the download is given up, and what is there of the file is
/// removed where the transfer was incomplete; before that, another attempt
/// follows after a wait.
pub open spec fn next_after(attempt: usize, max_retries: usize, failure: Failure) -> Next {
    if attempt == max_retries {
        Next::GiveUp { remove_partial: failure == Failure::Incomplete }
    } else if failure == Failure::OpenFile {
        Next::Retry { wait_secs: FILE_RETRY_WAIT_SECS }
    } else {
        Next::Retry { wait_secs: RETRY_WAIT_SECS }
    }
}

/// What is reported when the last attempt was incomplete.
pub open spec fn incomplete_text(max_retries: usize, downloaded: u64, total_size: u64) -> Seq<
    char,
> {
    "Download incomplete after "@ + decimal_digits(max_retries as nat)
        + " attempts. Last attempt downloaded "@ + decimal_digits(downloaded as nat) + " of "@
        + decimal_digits(total_size as nat) + " bytes"@
}

/// The byte at which attempt `attempt` takes the file up, given the length
/// of what is there of the file, if anything is.
pub fn resume_offset(attempt: usize, existing_len: Option<u64>) -> (offset: u64)
    ensures
        offset == resume_from(attempt, existing_len),
{
    if attempt > 1 {
        match existing_len {
            Some(len) => len,
            None => 0,
        }
    } else {
        0
    }
}

/// The range to ask the server for: nothing where the file is taken from
/// its start.
pub fn range_header(offset: u64) -> (range: Option<String>)
    ensures
        offset == 0 ==> range is None,
        offset > 0 ==> (range matches Some(text) && text@ == range_from(offset)),
{
    if offset == 0 {
        return None;
    }
    let mut out = to_chars("bytes=");
    let digits = decimal_text(offset);
    push_all(&mut out, &digits);
    push_str(&mut out, "-");
    Some(from_chars(&out))
}

/// Whether the status says that the response holds the file or a part of it.
pub fn status_is_usable(status: u16) -> (usable: bool)
    ensures
        usable == is_usable(status),
{
    200 <= status && status < 300
}

/// The position of the first `/` in `text` from `from` on, or the length of
/// the text.
fn find_slash(text: &Vec<char>, from: usize) -> (at: usize)
    requires
        from <= text.len(),
    ensures
        from <= at <= text.len(),
        at - from == first_slash(text@.skip(from as int)),
{
    let mut i: usize = from;
    while i < text.len() && text[i] != '/'
        invariant
            from <= i <= text.len(),
            first_slash(text@.skip(from as int)) == (i - from) + first_slash(text@.skip(i as int)),
        decreases text.len() - i,
    {
        proof {
            assert(text@.skip(i as int)[0] == text@[i as int]);
            assert(text@.skip(i as int).skip(1) =~= text@.skip(i + 1));
        }
        i += 1;
    }
    proof {
        if i < text.len() {
            assert(text@.skip(i as int)[0] == text@[i as int]);
        }
    }
    i
}

/// The size that the file is going to have, zero where the server does not
/// say.
///
/// `content_range` is the content range of the response, where it has one
/// that is text; `content_length` the length that it announces, and
/// `offset` the byte at which the attempt took the file up.
pub fn total_size(
    status: u16,
    content_range: Option<&str>,
    content_length: Option<u64>,
    offset: u64,
) -> (size: u64)
    ensures
        size == expected_size(status, text_of(content_range), content_length, offset),
{
    let announced: u64 = match content_length {
        Some(len) => len,
        None => 0,
    };
    if status != PARTIAL_CONTENT {
        return announced;
    }
    let with_offset: u64 = if announced > u64::MAX - offset {
        u64::MAX
    } else {
        announced + offset
    };
    let range = match content_range {
        Some(range) => to_chars(range),
        None => {
            return with_offset;
        },
    };
    proof {
        assert(range@.skip(0) =~= range@);
    }
    let slash = find_slash(&range, 0);
    if slash >= range.len() {
        return with_offset;
    }
    let end = find_slash(&range, slash + 1);
    let total = slice_chars(&range, slash + 1, end);
    proof {
        let rest = range@.skip(slash + 1);
        assert(rest.take(end - slash - 1) =~= range@.subrange(slash + 1, end as int));
    }
    match parse_decimal(&total) {
        Some(value) => value,
        None => 0,
    }
}

/// Whether the attempt brought the whole file.
pub fn is_complete(written: bool, total_size: u64, downloaded: u64) -> (done: bool)
    ensures
        done == complete(written, total_size, downloaded),
{
    written && (total_size == 0 || downloaded >= total_size)
}

/// Whether the file is to be flushed after a chunk.
pub fn should_flush(downloaded: u64, nanos_since_flush: u128) -> (due: bool)
    ensures
        due == flush_due(downloaded, nanos_since_flush),
{
    downloaded % FLUSH_EVERY_BYTES == 0 || nanos_since_flush > FLUSH_AFTER_NANOS
}

/// What follows a failure in attempt `attempt` of `max_retries`.
pub fn after_failure(attempt: usize, max_retries: usize, failure: Failure) -> (next: Next)
    ensures
        next == next_after(attempt, max_retries, failure),
{
    if attempt == max_retries {
        match failure {
            Failure::Incomplete => Next::GiveUp { remove_partial: true },
            _ => Next::GiveUp { remove_partial: false },
        }
    } else {
        match failure {
            Failure::OpenFile => Next::Retry { wait_secs: FILE_RETRY_WAIT_SECS },
            _ => Next::Retry { wait_secs: RETRY_WAIT_SECS },
        }
    }
}

/// What is reported when the last attempt was incomplete.
pub fn incomplete_message(max_retries: usize, downloaded: u64, total_size: u64) -> (text: String)
    ensures
        text@ == incomplete_text(max_retries, downloaded, total_size),
{
    let mut out = to_chars("Download incomplete after ");
    let attempts = decimal_text(max_retries as u64);
    push_all(&mut out, &attempts);
    push_str(&mut out, " attempts. Last attempt downloaded ");
    let got = decimal_text(downloaded);
    push_all(&mut out, &got);
    push_str(&mut out, " of ");
    let wanted = decimal_text(total_size);
    push_all(&mut out, &wanted);
    push_str(&mut out, " bytes");
    from_chars(&out)
}

} // verus!
