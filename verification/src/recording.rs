//! Recordings on disk: which files are videos, and whether two recordings
//! that follow each other belong to one continuous take.

use crate::text::{chars_of, ends_with, has_suffix};
use crate::time::Timestamp;
use vstd::prelude::*;

verus! {

/// The suffixes by which a file name is known to be a video.
pub const VIDEO_EXTENSIONS: [&'static str; 2] = [".mp4", ".mkv"];

/// How a recording's file name begins: the time at which the recording
/// started, in `chrono`'s format syntax.
pub const FMT_GAME_RECORDING_DATE: &'static str = "%Y-%m-%d_%H-%M-%S";

/// How far, in nanoseconds, the start of a recording may lie from the last
/// write to the recording before it for the two to count as one take.
pub const GAME_RECORDING_CONCAT_THRESHOLD: i128 = 5_000_000_000;

/// Whether two recordings should be joined.
#[derive(Debug, Clone, Copy, PartialEq, Eq, Structural, Hash)]
pub enum Concat {
    /// The second continues the first.
    Yes,
    /// The second is a take of its own.
    No,
    /// The times contradict each other.
    Unsure,
}

/// Why two recordings could not be compared.
#[derive(Debug, Clone, Copy, PartialEq, Eq, Structural, Hash)]
pub enum ConcatError {
    /// The later file's name does not begin with a time.
    NextNameHasNoTimestamp,
    /// The earlier file's name does not begin with a time.
    PrevNameHasNoTimestamp,
}

/// Whether a file of this name is a video: the name ends in one of
/// `VIDEO_EXTENSIONS`.
pub open spec fn video_name(name: Seq<char>) -> bool {
    has_suffix(name, ".mp4"@) || has_suffix(name, ".mkv"@)
}

/// Whether a file of this name is a video.
pub fn is_video_file(file_name: &str) -> (yes: bool)
    ensures
        yes == video_name(file_name@),
{
    let name = chars_of(file_name);
    let mp4 = chars_of(".mp4");
    let mkv = chars_of(".mkv");
    ends_with(&name, &mp4) || ends_with(&name, &mkv)
}

/// The date and time that `chrono` reads at the beginning of `text` under
/// `format`, without a time zone; `None` where it reads none.
pub uninterp spec fn parsed_datetime(text: Seq<char>, format: Seq<char>) -> Option<Timestamp>;

/// `chrono::ParseError`: why a text is no date and time. Nothing is said of
/// what it holds.
#[verifier::external_type_specification]
#[verifier::external_body]
pub struct ExChronoParseError(chrono::ParseError);

/// Reads a date and time with `chrono::NaiveDateTime::parse_and_remainder`,
/// and takes its seconds and nanoseconds with `DateTime::timestamp` and
/// `DateTime::timestamp_subsec_nanos`.
///
/// Trusted: what comes back is `parsed_datetime` of the two texts.
#[verifier::external_body]
fn parse_datetime_prefix(text: &str, format: &str) -> (found: Result<Timestamp, chrono::ParseError>)
    ensures
        found matches Ok(at) ==> parsed_datetime(text@, format@) == Some(at),
        found is Err ==> parsed_datetime(text@, format@) is None,
{
    let (at, _) = chrono::NaiveDateTime::parse_and_remainder(text, format)?;
    Ok(Timestamp { secs: at.and_utc().timestamp(), nanos: at.and_utc().timestamp_subsec_nanos() })
}

/// What is to be said of two recordings, from the time in the earlier file's name,
/// the time at which that file was last written, and the time in the later
/// file's name.
///
/// A file written before its own name says it began is not to be trusted.
/// Otherwise the later recording continues the earlier one where it began
/// within the threshold of the earlier one's last write; it is a new take
/// where it began later than that, and suspect where it began earlier.
pub open spec fn decision(
    prev_start: Timestamp,
    prev_mtime: Timestamp,
    next_start: Timestamp,
) -> Concat {
    let delta = next_start@ - prev_mtime@;
    if prev_mtime@ < prev_start@ {
        Concat::Unsure
    } else if delta > GAME_RECORDING_CONCAT_THRESHOLD {
        Concat::No
    } else if delta >= -GAME_RECORDING_CONCAT_THRESHOLD {
        Concat::Yes
    } else {
        Concat::Unsure
    }
}

/// The outcome of comparing two recordings whose names gave these times.
/// The later file's name is looked at first.
pub open spec fn outcome(
    prev_start: Option<Timestamp>,
    next_start: Option<Timestamp>,
    prev_mtime: Timestamp,
) -> Result<Concat, ConcatError> {
    match next_start {
        None => Err(ConcatError::NextNameHasNoTimestamp),
        Some(next) => match prev_start {
            None => Err(ConcatError::PrevNameHasNoTimestamp),
            Some(prev) => Ok(decision(prev, prev_mtime, next)),
        },
    }
}

/// Decides whether the later of two recordings continues the earlier.
pub fn concat_decision(prev_start: Timestamp, prev_mtime: Timestamp, next_start: Timestamp) -> (c:
    Concat)
    ensures
        c == decision(prev_start, prev_mtime, next_start),
{
    let since_start = prev_mtime.since(&prev_start);
    if since_start.nanos < 0 {
        return Concat::Unsure;
    }
    let delta = next_start.since(&prev_mtime);
    if delta.nanos > GAME_RECORDING_CONCAT_THRESHOLD {
        Concat::No
    } else if delta.nanos >= -GAME_RECORDING_CONCAT_THRESHOLD {
        Concat::Yes
    } else {
        Concat::Unsure
    }
}

/// Compares two recordings whose names gave these times, if they gave any.
pub fn concat_from_starts(
    prev_start: Option<Timestamp>,
    next_start: Option<Timestamp>,
    prev_mtime: Timestamp,
) -> (r: Result<Concat, ConcatError>)
    ensures
        r == outcome(prev_start, next_start, prev_mtime),
{
    match next_start {
        None => Err(ConcatError::NextNameHasNoTimestamp),
        Some(next) => match prev_start {
            None => Err(ConcatError::PrevNameHasNoTimestamp),
            Some(prev) => Ok(concat_decision(prev, prev_mtime, next)),
        },
    }
}

/// Decides whether the recording in the file named `next_name` continues the
/// one in the file named `prev_name`, which was last written at `prev_mtime`
/// (local time, as the names are).
///
/// Each name is read with `FMT_GAME_RECORDING_DATE`; the result is
/// `concat_from_starts` of the two times read.
pub fn should_concat(prev_name: &str, next_name: &str, prev_mtime: Timestamp) -> (r: Result<
    Concat,
    ConcatError,
>)
    ensures
        r == outcome(
            parsed_datetime(prev_name@, FMT_GAME_RECORDING_DATE@),
            parsed_datetime(next_name@, FMT_GAME_RECORDING_DATE@),
            prev_mtime,
        ),
{
    let next_start = recording_start(next_name);
    let prev_start = recording_start(prev_name);
    concat_from_starts(prev_start, next_start, prev_mtime)
}

/// The time at which the recording in the file named `name` began.
pub fn recording_start(name: &str) -> (at: Option<Timestamp>)
    ensures
        at == parsed_datetime(name@, FMT_GAME_RECORDING_DATE@),
{
    match parse_datetime_prefix(name, FMT_GAME_RECORDING_DATE) {
        Ok(at) => Some(at),
        Err(_) => None,
    }
}

/// A recording that was last written before its own name says it began is
/// never joined to the next and never told apart from it, however far the
/// next lies from it.
pub proof fn lemma_unsure_when_written_before_start(
    prev_start: Timestamp,
    prev_mtime: Timestamp,
    next_start: Timestamp,
)
    requires
        prev_mtime@ < prev_start@,
    ensures
        decision(prev_start, prev_mtime, next_start) == Concat::Unsure,
{
}

} // verus!
