//! The time that an encode took, on the wall clock.

use crate::interval::DurationInterval;
use crate::time::Timestamp;
use vstd::prelude::*;

verus! {

/// The time of an encode that is under way: when it started, and when it
/// was paused.
#[derive(Debug, PartialEq, Eq)]
pub struct EncodingTime {
    pub start: Timestamp,
    pub time_paused: Vec<DurationInterval>,
}

/// The time of an encode that is over: from when to when it ran, in
/// nanoseconds since 1970-01-01 00:00:00, and when it was paused.
#[derive(Debug, PartialEq, Eq)]
pub struct EncodedTime {
    duration: DurationInterval,
    time_paused: Vec<DurationInterval>,
}

/// Why an encode cannot have ended when it is said to.
#[derive(Debug, Clone, Copy, PartialEq, Eq, Structural, Hash)]
pub enum EncodedTimeError {
    /// The end does not come after the start.
    EndNotAfterStart,
}

impl EncodedTime {
    /// The time of an encode that ended at `end`. The end must come after the
    /// start; where it does not, the time of the encode is handed back.
    pub fn new(encoding_time: EncodingTime, end: Timestamp) -> (made: Result<
        EncodedTime,
        (EncodedTimeError, EncodingTime),
    >)
        ensures
            match made {
                Ok(time) => {
                    &&& encoding_time.start@ < end@
                    &&& time.spec_duration()@ == (encoding_time.start@, end@)
                    &&& time.spec_time_paused() == encoding_time.time_paused
                },
                Err((e, back)) => {
                    &&& end@ <= encoding_time.start@
                    &&& e == EncodedTimeError::EndNotAfterStart
                    &&& back == encoding_time
                },
            },
    {
        let zero = Timestamp::new(0, 0);
        let from = encoding_time.start.since(&zero);
        let to = end.since(&zero);
        if to.nanos <= from.nanos {
            return Err((EncodedTimeError::EndNotAfterStart, encoding_time));
        }
        let duration = match DurationInterval::new(from, to) {
            Ok(duration) => duration,
            Err(_) => unreached(),
        };
        Ok(EncodedTime { duration, time_paused: encoding_time.time_paused })
    }

    /// From when to when the encode ran.
    pub closed spec fn spec_duration(&self) -> DurationInterval {
        self.duration
    }

    /// When the encode was paused.
    pub closed spec fn spec_time_paused(&self) -> Vec<DurationInterval> {
        self.time_paused
    }

    /// From when to when the encode ran.
    pub fn duration(&self) -> (duration: DurationInterval)
        ensures
            duration == self.spec_duration(),
    {
        self.duration
    }

    /// When the encode was paused.
    pub fn time_paused(&self) -> (pauses: &Vec<DurationInterval>)
        ensures
            *pauses == self.spec_time_paused(),
    {
        &self.time_paused
    }
}

} // verus!
