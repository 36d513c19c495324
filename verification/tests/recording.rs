#![allow(non_snake_case)]

use chrono::{Duration, NaiveDateTime};
use recording_encoder::recording::{
    concat_decision, concat_from_starts, is_video_file, recording_start, should_concat, Concat,
    ConcatError, FMT_GAME_RECORDING_DATE, VIDEO_EXTENSIONS,
};
use recording_encoder::time::Timestamp;

fn timestamp(at: NaiveDateTime) -> Timestamp {
    Timestamp::new(at.and_utc().timestamp(), at.and_utc().timestamp_subsec_nanos())
}

#[test]
fn time_fmt_specifier() {
    assert_eq!(
        chrono::NaiveDate::from_ymd_opt(2024, 9, 1)
            .expect("could not create static date")
            .and_hms_opt(9, 7, 6)
            .expect("could not create static time")
            .format(FMT_GAME_RECORDING_DATE)
            .to_string(),
        "2024-09-01_09-07-06"
    );
}

/// Compares the first file with each of the others, once for each offset: the
/// first file counts as last written at the later file's time plus the offset.
fn should_concat__helper(files: &[&str], offsets: &[Duration]) -> Vec<Concat> {
    let prev = files[0];
    let mut answers = Vec::new();
    for next in &files[1..] {
        let next_date = NaiveDateTime::parse_and_remainder(next, FMT_GAME_RECORDING_DATE)
            .expect("a time in the name")
            .0;
        for offset in offsets {
            let mtime = timestamp(next_date + *offset);
            answers.push(should_concat(prev, next, mtime).expect("two names with times"));
        }
    }
    answers
}

const SHOULD_CONCAT_FILES: [&str; 7] = [
    "2024-09-30_19-17-16 [Hogwarts Legacy].mkv",
    "2024-09-30_19-27-14 [Hogwarts Legacy].mkv",
    "2024-09-30_19-27-16 [Hogwarts Legacy].mkv",
    "2024-09-30_19-27-17 [Hogwarts Legacy].mkv",
    "2024-09-30_19-27-22 [Hogwarts Legacy].mkv",
    "2024-09-30_19-34-49 [Hogwarts Legacy].mkv",
    "2024-09-30_20-11-35 [Hogwarts Legacy].mkv",
];

#[test]
fn should_concat__yes() {
    let offsets: Vec<Duration> = [-5, -2, 1, 3, 5].into_iter().map(Duration::seconds).collect();
    let answers = should_concat__helper(&SHOULD_CONCAT_FILES, &offsets);
    assert_eq!(answers.len(), 30);
    assert!(answers.into_iter().all(|result| result == Concat::Yes));
}

#[test]
fn should_concat__no() {
    let files = &[
        "2024-09-27_19-17-16 [Hogwarts Legacy].mkv",
        "2024-09-30_20-11-35 [Hogwarts Legacy].mkv",
    ];
    let offsets: Vec<Duration> =
        [-10, -500, -4000, -3600 * 47].into_iter().map(Duration::seconds).collect();
    let answers = should_concat__helper(files, &offsets);
    assert_eq!(answers.len(), 4);
    assert!(answers.into_iter().all(|result| result == Concat::No));
}

#[test]
fn should_concat__unsure() {
    let offsets: Vec<Duration> =
        [10, 300, 3600 * 24 + 5000, -3600 * 48].into_iter().map(Duration::seconds).collect();
    let answers = should_concat__helper(&SHOULD_CONCAT_FILES, &offsets);
    assert_eq!(answers.len(), 24);
    assert!(answers.into_iter().all(|result| result == Concat::Unsure));
}

#[test]
fn five_minutes_apart_and_written_to_the_end() {
    let prev = "2024-09-30_19-17-16 [Hogwarts Legacy].mkv";
    let next = "2024-09-30_19-22-16 [Hogwarts Legacy].mkv";
    let next_start = recording_start(next).expect("a time in the name");
    for (offset, expected) in [(3, Concat::Yes), (-3, Concat::Yes), (-10, Concat::No), (10, Concat::Unsure)]
    {
        let mtime = Timestamp::new(next_start.secs + offset, 0);
        assert_eq!(should_concat(prev, next, mtime), Ok(expected));
    }
}

#[test]
fn a_file_written_before_its_own_start_is_suspect() {
    let start = Timestamp::new(1_000_000, 0);
    for mtime_back in [1, 60, 86_400] {
        for next_ahead in [-86_400, 0, 3, 86_400] {
            let mtime = Timestamp::new(start.secs - mtime_back, 0);
            let next = Timestamp::new(mtime.secs + next_ahead, 0);
            assert_eq!(concat_decision(start, mtime, next), Concat::Unsure);
        }
    }
    let just_before = Timestamp::new(start.secs - 1, 999_999_999);
    assert_eq!(concat_decision(start, just_before, start), Concat::Unsure);
}

#[test]
fn the_threshold_is_five_seconds_to_the_nanosecond() {
    let start = Timestamp::new(100, 0);
    let mtime = Timestamp::new(200, 500);
    assert_eq!(concat_decision(start, mtime, Timestamp::new(205, 500)), Concat::Yes);
    assert_eq!(concat_decision(start, mtime, Timestamp::new(205, 501)), Concat::No);
    assert_eq!(concat_decision(start, mtime, Timestamp::new(195, 500)), Concat::Yes);
    assert_eq!(concat_decision(start, mtime, Timestamp::new(195, 499)), Concat::Unsure);
    assert_eq!(concat_decision(start, start, start), Concat::Yes);
}

#[test]
fn names_without_a_time_are_errors() {
    let mtime = Timestamp::new(0, 0);
    let good = "2024-09-30_19-17-16 [Hogwarts Legacy].mkv";
    assert_eq!(
        should_concat(good, "holiday.mkv", mtime),
        Err(ConcatError::NextNameHasNoTimestamp)
    );
    assert_eq!(
        should_concat("holiday.mkv", good, mtime),
        Err(ConcatError::PrevNameHasNoTimestamp)
    );
    assert_eq!(
        should_concat("holiday.mkv", "other.mkv", mtime),
        Err(ConcatError::NextNameHasNoTimestamp)
    );
    assert_eq!(
        concat_from_starts(None, Some(mtime), mtime),
        Err(ConcatError::PrevNameHasNoTimestamp)
    );
    assert_eq!(concat_from_starts(Some(mtime), Some(mtime), mtime), Ok(Concat::Yes));
}

#[test]
fn the_start_of_a_recording_is_read_from_its_name() {
    let at = recording_start("2024-09-30_19-17-16 [Hogwarts Legacy].mkv").expect("a time");
    assert_eq!(at, Timestamp::new(1_727_723_836, 0));
    assert_eq!(recording_start("1970-01-01_00-00-00"), Some(Timestamp::new(0, 0)));
    assert_eq!(recording_start("2024-09-30 19-17-16.mkv"), None);
    assert_eq!(recording_start("2024-13-30_19-17-16.mkv"), None);
    assert_eq!(recording_start(""), None);
}

#[test]
fn the_span_between_two_instants() {
    let a = Timestamp::new(10, 250);
    let b = Timestamp::new(7, 999_999_999);
    assert_eq!(a.since(&b).nanos, 2_000_000_251);
    assert_eq!(b.since(&a).nanos, -2_000_000_251);
    assert_eq!(
        Timestamp::new(i64::MAX, u32::MAX).since(&Timestamp::new(i64::MIN, 0)).nanos,
        (i64::MAX as i128 - i64::MIN as i128) * 1_000_000_000 + u32::MAX as i128
    );
}

#[test]
fn videos_are_known_by_their_suffix() {
    assert!(is_video_file("2024-09-30_19-17-16 [Hogwarts Legacy].mkv"));
    assert!(is_video_file("clip.mp4"));
    assert!(is_video_file(".mp4"));
    assert!(!is_video_file("clip.mp4.part"));
    assert!(!is_video_file("clip.MKV"));
    assert!(!is_video_file("mkv"));
    assert!(!is_video_file(""));
    assert!(!is_video_file("notes.txt"));
    for suffix in VIDEO_EXTENSIONS {
        assert!(is_video_file(&format!("a{suffix}")));
    }
}
