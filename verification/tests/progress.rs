use recording_encoder::progress::{
    parse_decimal_number, parse_progress, progress_from_captures, scale_fraction, Decimal,
    EncodeProgress,
};
use recording_encoder::time::TimeSpan;

fn decimal(mantissa: u64, scale: usize) -> Option<Decimal> {
    Some(Decimal { mantissa, scale })
}

fn groups(texts: &[Option<&str>]) -> Option<Vec<Option<String>>> {
    Some(texts.iter().map(|t| t.map(|s| s.to_string())).collect())
}

fn chars(text: &str) -> Vec<char> {
    text.chars().collect()
}

#[test]
fn a_full_line() {
    let line = "frame=120 fps=30.0 size=2048KiB time=00:00:04.00 bitrate=4096.0kbit/s speed=1.0x";
    assert_eq!(
        parse_progress(line),
        EncodeProgress {
            frame: Some(120),
            fps: decimal(300, 1),
            speed: decimal(10, 1),
            time: Some(TimeSpan::seconds(4)),
            size: Some(2_097_152),
            bitrate: decimal(40960, 1),
        }
    );
}

#[test]
fn a_line_that_reports_nothing() {
    assert_eq!(parse_progress(""), EncodeProgress::empty());
    assert_eq!(parse_progress("Press [q] to stop, [?] for help"), EncodeProgress::default());
    assert!(parse_progress("frame= fps= size=KiB time= bitrate=kbit/s speed=x").is_empty());
    assert!(!parse_progress("frame=1").is_empty());
    assert!(EncodeProgress::empty().is_empty());
}

#[test]
fn each_field_is_read_on_its_own() {
    let empty = EncodeProgress::empty();
    assert_eq!(parse_progress("frame=7"), EncodeProgress { frame: Some(7), ..empty });
    assert_eq!(parse_progress("x fps=23.976 y"), EncodeProgress { fps: decimal(23976, 3), ..empty });
    assert_eq!(parse_progress("fps=24"), EncodeProgress { fps: decimal(24, 0), ..empty });
    assert_eq!(parse_progress("size=   3KiB"), EncodeProgress { size: Some(3072), ..empty });
    assert_eq!(
        parse_progress("time=01:02:03.5"),
        EncodeProgress { time: Some(TimeSpan::milliseconds(3_723_500)), ..empty }
    );
    assert_eq!(
        parse_progress("bitrate=0.5kbit/s"),
        EncodeProgress { bitrate: decimal(5, 1), ..empty }
    );
    assert_eq!(parse_progress("speed=12x"), EncodeProgress { speed: decimal(12, 0), ..empty });
    assert_eq!(
        parse_progress("speed=2.50x frame=0"),
        EncodeProgress { frame: Some(0), speed: decimal(250, 2), ..empty }
    );
}

#[test]
fn the_first_match_of_a_pattern_counts() {
    assert_eq!(parse_progress("frame=1 frame=2").frame, Some(1));
    assert_eq!(parse_progress("frame=x frame=2").frame, Some(2));
    assert_eq!(parse_progress("fps=1.x").fps, decimal(1, 0));
    assert_eq!(parse_progress("size=5MiB size=6KiB").size, Some(6144));
}

#[test]
fn a_number_that_does_not_convert_leaves_its_field_unset() {
    let line = "frame=99999999999999999999 fps=30.0 size=2048KiB time=00:00:04.00 speed=1.0x";
    assert_eq!(
        parse_progress(line),
        EncodeProgress {
            frame: None,
            fps: decimal(300, 1),
            speed: decimal(10, 1),
            time: Some(TimeSpan::seconds(4)),
            size: Some(2_097_152),
            bitrate: None,
        }
    );
    assert_eq!(parse_progress("frame=18446744073709551615").frame, Some(u64::MAX));
    assert_eq!(parse_progress("frame=18446744073709551616").frame, None);
    assert_eq!(parse_progress("frame=٣٤").frame, None);
    assert_eq!(parse_progress("fps=٣٤.٥").fps, None);
    assert_eq!(parse_progress("time=00:00:65536.0").time, None);
    assert_eq!(parse_progress("time=65536:00:00.0").time, None);
    assert_eq!(parse_progress("time=00:00:04.65536").time, None);
    assert_eq!(parse_progress("fps=1.00000000000000000000").fps, None);
}

#[test]
fn the_parts_of_the_elapsed_time() {
    let nanos = |line: &str| parse_progress(line).time.map(|t| t.nanos);
    assert_eq!(nanos("time=00:00:00.00"), Some(0));
    assert_eq!(nanos("time=00:00:04.00"), Some(4_000_000_000));
    assert_eq!(nanos("time=00:01:00.25"), Some(60_250_000_000));
    assert_eq!(nanos("time=10:00:00.000001"), Some(36_000_000_001_000));
    assert_eq!(nanos("time=0:0:0.000000001"), Some(1));
    assert_eq!(nanos("time=0:0:0.0000000019"), Some(1));
    assert_eq!(nanos("time=0:0:0.00000000009"), Some(0));
    assert_eq!(nanos("time=0:90:75.5"), Some((90 * 60 + 75) * 1_000_000_000 + 500_000_000));
    assert_eq!(
        nanos("time=65535:65535:65535.65535"),
        Some((65535 * 3600 + 65535 * 60 + 65535) * 1_000_000_000 + 655_350_000)
    );
    assert_eq!(nanos("time=00:00:04,50"), Some(4_500_000_000));
    assert_eq!(nanos("time=00:00:04"), None);
    assert_eq!(nanos("time=00:04.00"), None);
}

#[test]
fn a_fraction_of_a_second() {
    assert_eq!(scale_fraction(0, 0), 0);
    assert_eq!(scale_fraction(5, 1), 500_000_000);
    assert_eq!(scale_fraction(5, 2), 50_000_000);
    assert_eq!(scale_fraction(65_535, 5), 655_350_000);
    assert_eq!(scale_fraction(123, 9), 123);
    assert_eq!(scale_fraction(123, 10), 12);
    assert_eq!(scale_fraction(123, 11), 1);
    assert_eq!(scale_fraction(123, 12), 0);
    assert_eq!(scale_fraction(65_535, 13), 6);
    assert_eq!(scale_fraction(65_535, 14), 0);
    assert_eq!(scale_fraction(65_535, usize::MAX), 0);
    assert_eq!(scale_fraction(65_535, 0), 65_535_000_000_000);
}

#[test]
fn decimal_numbers() {
    assert_eq!(parse_decimal_number(&chars("30.0")), decimal(300, 1));
    assert_eq!(parse_decimal_number(&chars("0")), decimal(0, 0));
    assert_eq!(parse_decimal_number(&chars("007.250")), decimal(7250, 3));
    assert_eq!(parse_decimal_number(&chars("18446744073709551615")), decimal(u64::MAX, 0));
    assert_eq!(parse_decimal_number(&chars("1844674407370955161.5")), decimal(u64::MAX, 1));
    assert_eq!(parse_decimal_number(&chars("18446744073709551616")), None);
    assert_eq!(parse_decimal_number(&chars("1844674407370955161.6")), None);
    assert_eq!(parse_decimal_number(&chars("")), None);
    assert_eq!(parse_decimal_number(&chars(".5")), None);
    assert_eq!(parse_decimal_number(&chars("5.")), None);
    assert_eq!(parse_decimal_number(&chars("1.2.3")), None);
    assert_eq!(parse_decimal_number(&chars("1e3")), None);
    assert_eq!(parse_decimal_number(&chars("-1")), None);
    assert_eq!(parse_decimal_number(&chars("+1")), None);
}

#[test]
fn what_the_searches_found_becomes_a_snapshot() {
    let none: Option<Vec<Option<String>>> = None;
    assert_eq!(
        progress_from_captures(&none, &none, &none, &none, &none, &none),
        EncodeProgress::empty()
    );
    let p = progress_from_captures(
        &groups(&[Some("frame=12"), Some("12")]),
        &groups(&[Some("fps=1.5"), Some("1.5"), Some(".5")]),
        &groups(&[Some("size=1KiB"), Some("1")]),
        &groups(&[Some("time=1:2:3.4"), Some("1"), Some("2"), Some("3"), Some("4")]),
        &groups(&[Some("bitrate=8kbit/s"), Some("8"), None]),
        &none,
    );
    assert_eq!(
        p,
        EncodeProgress {
            frame: Some(12),
            fps: decimal(15, 1),
            speed: None,
            time: Some(TimeSpan::milliseconds(3_723_400)),
            size: Some(1024),
            bitrate: decimal(8, 0),
        }
    );
    let q = progress_from_captures(
        &groups(&[Some("frame=12")]),
        &groups(&[Some("fps"), None]),
        &groups(&[Some("size"), Some("")]),
        &groups(&[Some("time"), Some("1"), Some("2"), Some("3"), None]),
        &groups(&[]),
        &groups(&[Some("speed"), Some("x")]),
    );
    assert_eq!(q, EncodeProgress::empty());
}

#[test]
fn sizes_are_kibibytes() {
    assert_eq!(parse_progress("size=0KiB").size, Some(0));
    assert_eq!(parse_progress("size=1KiB").size, Some(1024));
    assert_eq!(parse_progress("size=2048KiB").size, Some(2_097_152));
    assert_eq!(parse_progress("size=9007199254740991KiB").size, Some(9_007_199_254_740_991 * 1024));
}
