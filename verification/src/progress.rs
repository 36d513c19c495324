//! The telemetry parser: one line of encoder output becomes a partial
//! snapshot of the encode's progress.
//!
//! The line is searched with six regular expressions, one per field. What a
//! search finds is then turned into numbers by `progress_from_captures`; a
//! field whose text does not convert is left unset.

use crate::pattern::{group, group_chars, group_number, regex_captures, search};
use crate::text::{
    all_digits, append_digits, decimal_value, find_char, first_index_of,
    lemma_append_digits_grows, numeral_value, pow10, read_digits,
};
use crate::time::TimeSpan;
use vstd::arithmetic::div_mod::{lemma_basic_div, lemma_div_denominator};
use vstd::prelude::*;

verus! {

/// Finds the frame count.
pub const FRAME_PATTERN: &'static str = r"frame=(\d+)";

/// Finds the frames per second.
pub const FPS_PATTERN: &'static str = r"fps=(\d+(\.\d+)?)";

/// Finds the output size in kibibytes.
pub const SIZE_PATTERN: &'static str = r"size=\s*(\d+)KiB";

/// Finds the elapsed time as hours, minutes, seconds and a fraction.
pub const TIME_PATTERN: &'static str = r"time=(\d+):(\d+):(\d+).(\d+)";

/// Finds the bitrate in kbit/s.
pub const BITRATE_PATTERN: &'static str = r"bitrate=(\d+(\.\d+)?)kbit/s";

/// Finds the speed multiplier.
pub const SPEED_PATTERN: &'static str = r"speed=(\d+(\.\d+)?)x";

/// Below this count of kibibytes, 2^53, a size in bytes is exact.
pub const EXACT_KIB_LIMIT: u64 = 0x20_0000_0000_0000;

/// The largest value that one part of the elapsed time may have.
pub const TIME_PART_MAX: u64 = 65_535;

/// A non-negative decimal number: `mantissa` divided by ten to the `scale`.
#[derive(Clone, Copy, Debug, PartialEq, Eq, Structural, Hash)]
pub struct Decimal {
    pub mantissa: u64,
    pub scale: usize,
}

/// What an encoder reported in one line. A field is `None` where the line
/// did not report it.
#[derive(Clone, Copy, Debug, PartialEq, Eq)]
pub struct EncodeProgress {
    /// Frames encoded so far.
    pub frame: Option<u64>,
    /// Frames per second.
    pub fps: Option<Decimal>,
    /// Multiple of real time at which the encode runs.
    pub speed: Option<Decimal>,
    /// Position reached in the output.
    pub time: Option<TimeSpan>,
    /// Bytes written so far.
    pub size: Option<i64>,
    /// Kilobits per second of output.
    pub bitrate: Option<Decimal>,
}

impl EncodeProgress {
    /// The snapshot that reports nothing.
    pub open spec fn spec_empty() -> EncodeProgress {
        EncodeProgress {
            frame: None,
            fps: None,
            speed: None,
            time: None,
            size: None,
            bitrate: None,
        }
    }

    /// The snapshot that reports nothing.
    pub fn empty() -> (p: EncodeProgress)
        ensures
            p == Self::spec_empty(),
    {
        EncodeProgress { frame: None, fps: None, speed: None, time: None, size: None, bitrate: None }
    }

    /// Whether the snapshot reports nothing.
    pub fn is_empty(&self) -> (yes: bool)
        ensures
            yes == (*self == Self::spec_empty()),
    {
        self.frame.is_none() && self.fps.is_none() && self.speed.is_none() && self.time.is_none()
            && self.size.is_none() && self.bitrate.is_none()
    }
}

impl Default for EncodeProgress {
    fn default() -> (p: EncodeProgress)
        ensures
            p == EncodeProgress::spec_empty(),
    {
        EncodeProgress::empty()
    }
}

/// The byte count that the `size` crate gives to `kib` kibibytes.
pub uninterp spec fn size_from_kib(kib: u64) -> i64;

/// Converts kibibytes to bytes with `size::Size::from_kib` and `Size::bytes`.
///
/// Trusted: the result is `size_from_kib`, which is `kib * 1024` wherever
/// `kib` is below 2^53 (the crate multiplies in 64-bit floating point, which
/// is exact there).
#[verifier::external_body]
fn kib_to_bytes(kib: u64) -> (bytes: i64)
    ensures
        bytes == size_from_kib(kib),
        kib < EXACT_KIB_LIMIT ==> bytes == kib * 1024,
{
    size::Size::from_kib(kib).bytes()
}

/// The decimal number that `s` denotes: digits, then optionally a point and
/// more digits. `None` where `s` has another shape or its digits, read as
/// one number, do not fit in 64 bits.
pub open spec fn decimal_number(s: Seq<char>) -> Option<Decimal> {
    let dot = first_index_of(s, '.');
    let whole = s.take(dot);
    let fraction = if dot < s.len() {
        s.skip(dot + 1)
    } else {
        Seq::<char>::empty()
    };
    let mantissa = append_digits(decimal_value(whole), fraction);
    if whole.len() > 0 && all_digits(whole) && all_digits(fraction) && (dot < s.len()
        ==> fraction.len() > 0) && mantissa <= u64::MAX {
        Some(Decimal { mantissa: mantissa as u64, scale: fraction.len() as usize })
    } else {
        None
    }
}

/// A fraction of a second written with `digits` digits that read `value`, in
/// whole nanoseconds.
pub open spec fn fraction_nanos(value: nat, digits: nat) -> nat {
    if digits <= 9 {
        value * pow10((9 - digits) as nat)
    } else {
        value / pow10((digits - 9) as nat)
    }
}

/// The elapsed time that the groups of a search with `TIME_PATTERN` report:
/// hours, minutes and seconds, each at most `TIME_PART_MAX`, and a decimal
/// fraction of a second whose digits read at most `TIME_PART_MAX`.
pub open spec fn elapsed_time(groups: Option<Seq<Option<Seq<char>>>>) -> Option<TimeSpan> {
    match (group(groups, 1), group(groups, 2), group(groups, 3), group(groups, 4)) {
        (Some(h), Some(m), Some(s), Some(f)) => match (
            numeral_value(h, TIME_PART_MAX as nat),
            numeral_value(m, TIME_PART_MAX as nat),
            numeral_value(s, TIME_PART_MAX as nat),
            numeral_value(f, TIME_PART_MAX as nat),
        ) {
            (Some(hours), Some(minutes), Some(seconds), Some(fraction)) => Some(
                TimeSpan {
                    nanos: ((hours * 3600 + minutes * 60 + seconds) * 1_000_000_000
                        + fraction_nanos(fraction as nat, f.len())) as i128,
                },
            ),
            _ => None,
        },
        _ => None,
    }
}

/// The whole number that group 1 reports.
pub open spec fn whole_number(groups: Option<Seq<Option<Seq<char>>>>) -> Option<u64> {
    match group(groups, 1) {
        Some(text) => numeral_value(text, u64::MAX as nat),
        None => None,
    }
}

/// The decimal number that group 1 reports.
pub open spec fn decimal_field(groups: Option<Seq<Option<Seq<char>>>>) -> Option<Decimal> {
    match group(groups, 1) {
        Some(text) => decimal_number(text),
        None => None,
    }
}

/// The size in bytes that group 1, a count of kibibytes, reports.
pub open spec fn size_field(groups: Option<Seq<Option<Seq<char>>>>) -> Option<i64> {
    match whole_number(groups) {
        Some(kib) => Some(size_from_kib(kib)),
        None => None,
    }
}

/// The snapshot that six searches of one line report. Each field depends on
/// its own search alone.
pub open spec fn progress_of(
    frame: Option<Seq<Option<Seq<char>>>>,
    fps: Option<Seq<Option<Seq<char>>>>,
    size: Option<Seq<Option<Seq<char>>>>,
    time: Option<Seq<Option<Seq<char>>>>,
    bitrate: Option<Seq<Option<Seq<char>>>>,
    speed: Option<Seq<Option<Seq<char>>>>,
) -> EncodeProgress {
    EncodeProgress {
        frame: whole_number(frame),
        fps: decimal_field(fps),
        speed: decimal_field(speed),
        time: elapsed_time(time),
        size: size_field(size),
        bitrate: decimal_field(bitrate),
    }
}

/// The snapshot that `line` reports.
pub open spec fn line_progress(line: Seq<char>) -> EncodeProgress {
    progress_of(
        regex_captures(FRAME_PATTERN@, line),
        regex_captures(FPS_PATTERN@, line),
        regex_captures(SIZE_PATTERN@, line),
        regex_captures(TIME_PATTERN@, line),
        regex_captures(BITRATE_PATTERN@, line),
        regex_captures(SPEED_PATTERN@, line),
    )
}

/// Ten to the power `n` does not shrink as `n` grows, and is positive.
pub proof fn lemma_pow10_grows(a: nat, b: nat)
    requires
        a <= b,
    ensures
        0 < pow10(a) <= pow10(b),
    decreases b,
{
    if b == 0 {
    } else if a == b {
        lemma_pow10_grows((a - 1) as nat, (b - 1) as nat);
    } else {
        lemma_pow10_grows(a, (b - 1) as nat);
    }
}

/// Reads a decimal number: digits, then optionally a point and more digits.
pub fn parse_decimal_number(chars: &Vec<char>) -> (out: Option<Decimal>)
    ensures
        out == decimal_number(chars@),
{
    let n = chars.len();
    proof {
        assert(chars@.subrange(0, n as int) =~= chars@);
    }
    let dot = find_char(chars, 0, n, '.');
    if dot == 0 {
        return None;
    }
    if dot < n && dot + 1 == n {
        proof {
            assert(chars@.skip(dot + 1).len() == 0);
        }
        return None;
    }
    let from = if dot < n {
        dot + 1
    } else {
        n
    };
    let ghost whole = chars@.take(dot as int);
    let ghost fraction = if dot < n {
        chars@.skip(dot + 1)
    } else {
        Seq::<char>::empty()
    };
    proof {
        assert(chars@.subrange(0, dot as int) =~= whole);
        assert(chars@.subrange(from as int, n as int) =~= fraction);
    }
    match read_digits(chars, 0, dot, 0) {
        None => {
            proof {
                if all_digits(whole) && all_digits(fraction) {
                    lemma_append_digits_grows(decimal_value(whole), fraction, 0);
                    assert(fraction.take(0) =~= Seq::<char>::empty());
                }
            }
            None
        },
        Some(w) => match read_digits(chars, from, n, w) {
            Some(m) => Some(Decimal { mantissa: m, scale: n - from }),
            None => None,
        },
    }
}

/// A fraction of a second in nanoseconds, from its digits read as a number
/// and their count.
pub fn scale_fraction(value: u64, digits: usize) -> (nanos: u64)
    requires
        value <= TIME_PART_MAX,
    ensures
        nanos == fraction_nanos(value as nat, digits as nat),
        nanos <= TIME_PART_MAX * 1_000_000_000,
{
    proof {
        reveal_with_fuel(pow10, 10);
        assert(pow10(9) == 1_000_000_000);
    }
    if digits <= 9 {
        let mut p: u64 = 1;
        let mut j: usize = 0;
        while j < 9 - digits
            invariant
                digits <= 9,
                j <= 9 - digits,
                p == pow10(j as nat),
                p <= 1_000_000_000,
                pow10(9) == 1_000_000_000,
            decreases 9 - digits - j,
        {
            proof {
                lemma_pow10_grows((j + 1) as nat, 9);
            }
            p = p * 10;
            j = j + 1;
        }
        assert(value * p <= 65_535 * 1_000_000_000) by (nonlinear_arith)
            requires
                value <= 65_535,
                p <= 1_000_000_000,
        ;
        value * p
    } else {
        let steps: usize = digits - 9;
        let mut v: u64 = value;
        let mut j: usize = 0;
        assert(pow10(0) == 1);
        while j < steps && v > 0
            invariant
                j <= steps,
                v == value as int / pow10(j as nat) as int,
                v <= value,
            decreases steps - j,
        {
            proof {
                lemma_pow10_grows(0, j as nat);
                lemma_div_denominator(value as int, pow10(j as nat) as int, 10);
                assert(pow10(j as nat) * 10 == pow10((j + 1) as nat));
            }
            v = v / 10;
            j = j + 1;
        }
        proof {
            if j < steps {
                lemma_pow10_grows(j as nat, steps as nat);
                vstd::arithmetic::div_mod::lemma_small_div_converse(
                    value as int,
                    pow10(j as nat) as int,
                );
                lemma_basic_div(value as int, pow10(steps as nat) as int);
            }
        }
        v
    }
}

/// Turns what six searches of one line found into a snapshot.
///
/// Each argument holds the groups of one search, group 0 first, or `None`
/// where the search found nothing. A field is set exactly where its search
/// matched and the matched text converts: a missing group, a numeral with a
/// character that is no ASCII digit, or a number out of range leaves the
/// field unset and touches no other field.
pub fn progress_from_captures(
    frame: &Option<Vec<Option<String>>>,
    fps: &Option<Vec<Option<String>>>,
    size: &Option<Vec<Option<String>>>,
    time: &Option<Vec<Option<String>>>,
    bitrate: &Option<Vec<Option<String>>>,
    speed: &Option<Vec<Option<String>>>,
) -> (p: EncodeProgress)
    ensures
        p == progress_of(
            frame.deep_view(),
            fps.deep_view(),
            size.deep_view(),
            time.deep_view(),
            bitrate.deep_view(),
            speed.deep_view(),
        ),
        whole_number(size.deep_view()) matches Some(kib) ==> (kib < EXACT_KIB_LIMIT ==> p.size
            == Some((kib * 1024) as i64)),
{
    EncodeProgress {
        frame: whole_field(frame),
        fps: decimal_of_group(fps),
        speed: decimal_of_group(speed),
        time: elapsed_of_groups(time),
        size: match whole_field(size) {
            Some(kib) => Some(kib_to_bytes(kib)),
            None => None,
        },
        bitrate: decimal_of_group(bitrate),
    }
}

/// The whole number that group 1 reports.
fn whole_field(groups: &Option<Vec<Option<String>>>) -> (out: Option<u64>)
    ensures
        out == whole_number(groups.deep_view()),
{
    match group_number(groups, 1, u64::MAX) {
        Some(found) => Some(found.0),
        None => None,
    }
}

/// The decimal number that group 1 reports.
fn decimal_of_group(groups: &Option<Vec<Option<String>>>) -> (out: Option<Decimal>)
    ensures
        out == decimal_field(groups.deep_view()),
{
    match group_chars(groups, 1) {
        Some(chars) => {
            proof {
                assert(chars.deep_view() =~= chars@);
            }
            parse_decimal_number(&chars)
        },
        None => None,
    }
}

/// The elapsed time that groups 1 to 4 report: hours, minutes, seconds and
/// the digits of a fraction of a second.
pub fn elapsed_of_groups(groups: &Option<Vec<Option<String>>>) -> (out: Option<TimeSpan>)
    ensures
        out == elapsed_time(groups.deep_view()),
{
    let h = group_number(groups, 1, TIME_PART_MAX);
    let m = group_number(groups, 2, TIME_PART_MAX);
    let s = group_number(groups, 3, TIME_PART_MAX);
    let f = group_number(groups, 4, TIME_PART_MAX);
    let ghost found = groups.deep_view();
    match (h, m, s, f) {
        (Some(h), Some(m), Some(s), Some(f)) => {
            let whole: u64 = h.0 * 3600 + m.0 * 60 + s.0;
            let fraction = scale_fraction(f.0, f.1);
            let nanos: i128 = (whole as i128) * 1_000_000_000 + (fraction as i128);
            proof {
                assert(group(found, 1) is Some);
                assert(group(found, 2) is Some);
                assert(group(found, 3) is Some);
                assert(group(found, 4) is Some);
                assert(f.1 == group(found, 4)->0.len());
            }
            Some(TimeSpan { nanos })
        },
        _ => {
            proof {
                assert(h is None || m is None || s is None || f is None);
            }
            None
        },
    }
}

/// Reads one line of encoder output.
///
/// The line is searched once with each of the six patterns, and the result
/// is `progress_from_captures` of what the searches found. A line that no
/// pattern matches gives the empty snapshot.
pub fn parse_progress(line: &str) -> (p: EncodeProgress)
    ensures
        p == line_progress(line@),
        whole_number(regex_captures(SIZE_PATTERN@, line@)) matches Some(kib) ==> (kib
            < EXACT_KIB_LIMIT ==> p.size == Some((kib * 1024) as i64)),
{
    let frame = search(FRAME_PATTERN, line);
    let fps = search(FPS_PATTERN, line);
    let size = search(SIZE_PATTERN, line);
    let time = search(TIME_PATTERN, line);
    let bitrate = search(BITRATE_PATTERN, line);
    let speed = search(SPEED_PATTERN, line);
    progress_from_captures(&frame, &fps, &size, &time, &bitrate, &speed)
}

} // verus!
