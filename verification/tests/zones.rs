use recording_encoder::interval::{DurationInterval, DurationIntervalError};
use recording_encoder::params::EncodeSettings;
use recording_encoder::stats::{EncodedTime, EncodedTimeError, EncodingTime};
use recording_encoder::time::{TimeSpan, Timestamp};
use recording_encoder::zones::{
    chapter_line_from_captures, chapter_name, chapters_from_lines, parse_chapter_line, split_lines,
    Chapter, ChapterLine, Zone, ZoneImportError, Zones,
};

fn ms(millis: i64) -> TimeSpan {
    TimeSpan::milliseconds(millis)
}

fn stretch(from: i64, to: i64) -> DurationInterval {
    DurationInterval::new(ms(from), ms(to)).expect("start <= end")
}

fn zone(name: &str) -> Zone {
    Zone { name: name.to_string(), settings: EncodeSettings::Av1Svt }
}

fn chapter(start: i64, name: &str) -> Chapter {
    Chapter { start: ms(start), name: name.to_string() }
}

fn start(number: u64, at: i64) -> ChapterLine {
    ChapterLine::Start { number, at: ms(at) }
}

fn name(number: u64, name: &str) -> ChapterLine {
    ChapterLine::Name { number, name: name.to_string() }
}

fn contents(zones: &Zones) -> Vec<(DurationInterval, Zone)> {
    (0..zones.len()).map(|i| (zones.stretch_at(i), zones.zone_at(i).clone())).collect()
}

fn groups(texts: &[Option<&str>]) -> Option<Vec<Option<String>>> {
    Some(texts.iter().map(|t| t.map(|s| s.to_string())).collect())
}

#[test]
fn zones_do_not_overlap() {
    let mut zones = Zones::new();
    assert_eq!(zones.len(), 0);
    assert_eq!(zones.try_insert(stretch(10, 20), zone("b")), Ok(()));
    assert_eq!(zones.try_insert(stretch(0, 10), zone("a")), Ok(()));
    assert_eq!(
        zones.try_insert(stretch(5, 15), zone("c")),
        Err(DurationIntervalError::IntervalsOverlap(stretch(0, 10), stretch(5, 15)))
    );
    assert_eq!(contents(&zones), vec![(stretch(0, 10), zone("a")), (stretch(10, 20), zone("b"))]);
}

#[test]
fn the_lines_of_a_text() {
    let lines = |text: &str| split_lines(text);
    assert_eq!(lines(""), Vec::<String>::new());
    assert_eq!(lines("a"), vec!["a"]);
    assert_eq!(lines("a\n"), vec!["a"]);
    assert_eq!(lines("a\nb"), vec!["a", "b"]);
    assert_eq!(lines("a\r\nb\r\n"), vec!["a", "b"]);
    assert_eq!(lines("\n"), vec![""]);
    assert_eq!(lines("\n\na\n\n"), vec!["", "", "a", ""]);
    assert_eq!(lines("a\rb\r"), vec!["a\rb"]);
    assert_eq!(lines("\r\n\r"), vec!["", ""]);
    assert_eq!(lines("ä∕\nö"), vec!["ä∕", "ö"]);
}

#[test]
fn what_a_line_says() {
    assert_eq!(parse_chapter_line("CHAPTER01=00:00:00.000"), Some(start(1, 0)));
    assert_eq!(parse_chapter_line("CHAPTER02=00:05:30.500"), Some(start(2, 330_500)));
    assert_eq!(parse_chapter_line("CHAPTER7=1:0:0.0"), Some(start(7, 3_600_000)));
    assert_eq!(parse_chapter_line("CHAPTER01NAME=Intro"), Some(name(1, "Intro")));
    assert_eq!(parse_chapter_line("CHAPTER99NAME="), Some(name(99, "")));
    assert_eq!(parse_chapter_line("CHAPTER03NAME=a=b c"), Some(name(3, "a=b c")));
    assert_eq!(parse_chapter_line("  CHAPTER04NAME=End  "), Some(name(4, "End  ")));

    assert_eq!(parse_chapter_line(""), None);
    assert_eq!(parse_chapter_line("CHAPTER=00:00:00.000"), None);
    assert_eq!(parse_chapter_line("CHAPTER001=00:00:00.000"), None);
    assert_eq!(parse_chapter_line("CHAPTER01=soon"), None);
    assert_eq!(parse_chapter_line("CHAPTER01=00:00:00"), None);
    assert_eq!(parse_chapter_line("CHAPTER01= 00:00:00.000"), None);
    assert_eq!(parse_chapter_line("CHAPTER01=00:00:00.000 "), None);
    assert_eq!(parse_chapter_line("CHAPTER01=00:00:70000.000"), None);
    assert_eq!(parse_chapter_line("CHAPTER٠١NAME=x"), None);
    assert_eq!(parse_chapter_line("chapter01name=x"), None);
}

#[test]
fn what_the_searches_of_a_line_say() {
    let time = groups(&[Some("0:0:1.5"), Some("0"), Some("0"), Some("1"), Some("5")]);
    assert_eq!(
        chapter_line_from_captures(&groups(&[Some("x"), Some("05"), None, Some("0:0:1.5")]), &time),
        Some(start(5, 1500))
    );
    assert_eq!(
        chapter_line_from_captures(
            &groups(&[Some("x"), Some("05"), Some("NAME"), Some("0:0:1.5")]),
            &time
        ),
        Some(name(5, "0:0:1.5"))
    );
    assert_eq!(
        chapter_line_from_captures(&groups(&[Some("x"), Some("05"), None, Some("0:0:1.5")]), &None),
        None
    );
    assert_eq!(
        chapter_line_from_captures(&groups(&[Some("x"), Some("100"), None, Some("t")]), &time),
        None
    );
    assert_eq!(
        chapter_line_from_captures(&groups(&[Some("x"), Some("1"), Some("NAME"), None]), &time),
        None
    );
    assert_eq!(chapter_line_from_captures(&groups(&[Some("x"), Some("1")]), &time), None);
    assert_eq!(chapter_line_from_captures(&None, &time), None);
}

#[test]
fn chapters_get_the_first_name_that_is_given_them() {
    let lines = vec![
        name(2, "two"),
        start(1, 0),
        start(3, 500),
        name(1, "one"),
        start(2, 200),
        name(1, "uno"),
        start(1, 900),
    ];
    assert_eq!(chapter_name(&lines, 1), "one");
    assert_eq!(chapter_name(&lines, 2), "two");
    assert_eq!(chapter_name(&lines, 3), "");
    assert_eq!(chapter_name(&Vec::new(), 1), "");
    assert_eq!(
        chapters_from_lines(&lines),
        vec![chapter(0, "one"), chapter(500, ""), chapter(200, "two"), chapter(900, "one")]
    );
    assert_eq!(chapters_from_lines(&vec![name(1, "x")]), Vec::new());
}

#[test]
fn each_chapter_reaches_to_the_next() {
    let chapters = vec![chapter(0, "Intro"), chapter(330_500, "Level 1"), chapter(900_000, "")];
    let zones = Zones::from_chapters(&chapters, ms(1_000_000), EncodeSettings::Av1Svt)
        .expect("chapters in order");
    assert_eq!(
        contents(&zones),
        vec![
            (stretch(0, 330_500), zone("Intro")),
            (stretch(330_500, 900_000), zone("Level 1")),
            (stretch(900_000, 1_000_000), zone("")),
        ]
    );
    let none = Zones::from_chapters(&Vec::new(), ms(5), EncodeSettings::X265).expect("no chapters");
    assert_eq!(none.len(), 0);
}

#[test]
fn chapters_must_stand_in_order() {
    let settings = EncodeSettings::Av1Aom;
    assert_eq!(
        Zones::from_chapters(&vec![chapter(0, "a"), chapter(20, "b"), chapter(10, "c")], ms(30), settings)
            .map(|z| z.len()),
        Err(ZoneImportError::OutOfOrder { chapter: 1 })
    );
    assert_eq!(
        Zones::from_chapters(&vec![chapter(0, "a"), chapter(20, "b")], ms(19), settings)
            .map(|z| z.len()),
        Err(ZoneImportError::OutOfOrder { chapter: 1 })
    );
    let same = Zones::from_chapters(&vec![chapter(5, "a"), chapter(5, "b"), chapter(5, "c")], ms(5), settings)
        .expect("chapters of no length");
    assert_eq!(
        contents(&same),
        vec![(stretch(5, 5), Zone { name: "c".to_string(), settings })]
    );
}

#[test]
fn zones_from_a_text_of_chapters() {
    let ogm = "CHAPTER01=00:00:00.000\r\n\
               CHAPTER01NAME=Intro\r\n\
               ; a remark\r\n\
               CHAPTER02=00:05:30.500\r\n\
               CHAPTER02NAME=Level 1\r\n\
               CHAPTER03=00:15:00.000\r\n";
    let zones =
        Zones::from_ogm(ogm, ms(1_000_000), EncodeSettings::Av1Svt).expect("chapters in order");
    assert_eq!(
        contents(&zones),
        vec![
            (stretch(0, 330_500), zone("Intro")),
            (stretch(330_500, 900_000), zone("Level 1")),
            (stretch(900_000, 1_000_000), zone("")),
        ]
    );
    assert_eq!(Zones::from_ogm("", ms(1), EncodeSettings::X265).map(|z| z.len()), Ok(0));
    assert_eq!(
        Zones::from_ogm("no chapters\nat all", ms(1), EncodeSettings::X265).map(|z| z.len()),
        Ok(0)
    );
    assert_eq!(
        Zones::from_ogm("CHAPTER01=00:00:02.0\nCHAPTER02=00:00:01.0", ms(9000), EncodeSettings::X265)
            .map(|z| z.len()),
        Err(ZoneImportError::OutOfOrder { chapter: 0 })
    );
}

#[test]
fn an_encode_ends_after_it_started() {
    let pauses = vec![DurationInterval::new(ms(1), ms(2)).expect("start <= end")];
    let running = || EncodingTime { start: Timestamp::new(100, 5), time_paused: pauses.clone() };

    let done = EncodedTime::new(running(), Timestamp::new(100, 6)).expect("the end is later");
    assert_eq!(
        done.duration(),
        DurationInterval::new(
            TimeSpan::nanoseconds(100_000_000_005),
            TimeSpan::nanoseconds(100_000_000_006)
        )
        .expect("start <= end")
    );
    assert_eq!(done.time_paused(), &pauses);

    assert_eq!(
        EncodedTime::new(running(), Timestamp::new(100, 5)),
        Err((EncodedTimeError::EndNotAfterStart, running()))
    );
    assert_eq!(
        EncodedTime::new(running(), Timestamp::new(99, 999_999_999)),
        Err((EncodedTimeError::EndNotAfterStart, running()))
    );
    let early = EncodedTime::new(
        EncodingTime { start: Timestamp::new(-5, 0), time_paused: Vec::new() },
        Timestamp::new(-4, 0),
    )
    .expect("the end is later");
    assert_eq!(early.duration().length(), 1_000_000_000);
}
