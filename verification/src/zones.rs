//! Zones: named stretches of a video, each encoded with settings of its own.
//!
//! Zones can be read from the chapter marks of a video, written as OGM
//! chapters: for each chapter a line `CHAPTER01=00:05:30.500` with the time at
//! which it begins, and a line `CHAPTER01NAME=Level 1` with its name. Each
//! chapter becomes the zone from its beginning to the beginning of the
//! chapter after it; the last one reaches to the end of the video.

use crate::interval::{DurationInterval, DurationIntervalError, DurationIntervalMetadata};
use crate::interval_set::{
    inserted, lemma_first_overlap_is, lemma_inserted_keeps_order, lemma_rank, placed, rank,
    IntervalsView, NonOverlappingSortedDurationIntervals,
};
use crate::params::EncodeSettings;
use crate::pattern::{group, group_number, regex_captures, search};
use crate::progress::{elapsed_of_groups, elapsed_time};
use crate::text::{chars_of, find_char, first_index_of, numeral_value};
use crate::time::TimeSpan;
use vstd::prelude::*;
use vstd::string::*;

verus! {

/// Finds a chapter's number, whether the line names the chapter, and what
/// stands behind the `=`.
pub const CHAPTER_PATTERN: &'static str = r"CHAPTER(\d{1,2})(NAME)?=(.*)";

/// Reads the time at which a chapter begins: hours, minutes, seconds and a
/// fraction of a second, and nothing else.
pub const CHAPTER_TIME_PATTERN: &'static str = r"^(\d+):(\d+):(\d+)\.(\d+)$";

/// The greatest number that a chapter may have.
pub const CHAPTER_NUMBER_MAX: u64 = 99;

/// What a zone is called, and what it is encoded with.
#[derive(Debug, PartialEq, Eq)]
pub struct Zone {
    pub name: String,
    pub settings: EncodeSettings,
}

/// A zone over the view of its name.
pub struct ZoneView {
    pub name: Seq<char>,
    pub settings: EncodeSettings,
}

impl View for Zone {
    type V = ZoneView;

    open spec fn view(&self) -> ZoneView {
        ZoneView { name: self.name@, settings: self.settings }
    }
}

impl Clone for Zone {
    fn clone(&self) -> (copy: Zone)
        ensures
            copy == *self,
    {
        Zone { name: self.name.clone(), settings: self.settings }
    }
}

/// One line of a list of chapters.
#[derive(Debug, PartialEq, Eq)]
pub enum ChapterLine {
    /// Chapter `number` begins at `at`.
    Start { number: u64, at: TimeSpan },
    /// Chapter `number` is called `name`.
    Name { number: u64, name: String },
}

/// A line over the view of its name.
pub enum ChapterLineView {
    Start { number: u64, at: int },
    Name { number: u64, name: Seq<char> },
}

impl View for ChapterLine {
    type V = ChapterLineView;

    open spec fn view(&self) -> ChapterLineView {
        match self {
            ChapterLine::Start { number, at } => ChapterLineView::Start { number: *number, at: at@ },
            ChapterLine::Name { number, name } => ChapterLineView::Name {
                number: *number,
                name: name@,
            },
        }
    }
}

/// A chapter: where it begins, and what it is called.
#[derive(Debug, PartialEq, Eq)]
pub struct Chapter {
    pub start: TimeSpan,
    pub name: String,
}

/// A chapter over the view of its name.
pub struct ChapterView {
    pub start: int,
    pub name: Seq<char>,
}

impl View for Chapter {
    type V = ChapterView;

    open spec fn view(&self) -> ChapterView {
        ChapterView { start: self.start@, name: self.name@ }
    }
}

/// Why chapters do not make zones.
#[derive(Debug, Clone, Copy, PartialEq, Eq, Structural, Hash)]
pub enum ZoneImportError {
    /// The chapter at this place in the list begins after the chapter that
    /// follows it, or after the end of the video.
    OutOfOrder { chapter: usize },
}

/// A line without the carriage return at its end, if it has one.
pub open spec fn without_return(line: Seq<char>) -> Seq<char> {
    if line.len() > 0 && line.last() == '\r' {
        line.drop_last()
    } else {
        line
    }
}

/// The lines of a text. A line ends at a line feed, or at the end of the
/// text; the carriage return before its end is not part of it. A text that
/// ends in a line feed has no empty line after it.
pub open spec fn lines_of(text: Seq<char>) -> Seq<Seq<char>>
    decreases text.len(),
{
    let end = first_index_of(text, '\n');
    if text.len() == 0 {
        Seq::empty()
    } else if 0 <= end < text.len() {
        seq![without_return(text.take(end))] + lines_of(text.skip(end + 1))
    } else {
        seq![without_return(text)]
    }
}

/// What a line says, from what `CHAPTER_PATTERN` found in it and what
/// `CHAPTER_TIME_PATTERN` found in what stands behind its `=`.
///
/// The number has one or two digits. A line with `NAME` names its chapter;
/// one without must give a time. Any other line says nothing.
pub open spec fn chapter_line(
    groups: Option<Seq<Option<Seq<char>>>>,
    time_groups: Option<Seq<Option<Seq<char>>>>,
) -> Option<ChapterLineView> {
    match (group(groups, 1), group(groups, 3)) {
        (Some(digits), Some(text)) => match numeral_value(digits, CHAPTER_NUMBER_MAX as nat) {
            Some(number) => if group(groups, 2) is Some {
                Some(ChapterLineView::Name { number, name: text })
            } else {
                match elapsed_time(time_groups) {
                    Some(at) => Some(ChapterLineView::Start { number, at: at@ }),
                    None => None,
                }
            },
            None => None,
        },
        _ => None,
    }
}

/// What the line `line` says.
pub open spec fn line_chapter(line: Seq<char>) -> Option<ChapterLineView> {
    let groups = regex_captures(CHAPTER_PATTERN@, line);
    chapter_line(
        groups,
        match group(groups, 3) {
            Some(text) => regex_captures(CHAPTER_TIME_PATTERN@, text),
            None => None,
        },
    )
}

/// What the lines say, in their order; lines that say nothing are left out.
pub open spec fn chapter_lines(lines: Seq<Seq<char>>) -> Seq<ChapterLineView>
    decreases lines.len(),
{
    if lines.len() == 0 {
        Seq::empty()
    } else {
        match line_chapter(lines.last()) {
            Some(line) => chapter_lines(lines.drop_last()).push(line),
            None => chapter_lines(lines.drop_last()),
        }
    }
}

/// The name that the first line that names chapter `number` gives it; the
/// empty name where no line names it.
pub open spec fn name_of(lines: Seq<ChapterLineView>, number: u64) -> Seq<char>
    decreases lines.len(),
{
    if lines.len() == 0 {
        Seq::empty()
    } else {
        match lines[0] {
            ChapterLineView::Name { number: n, name } if n == number => name,
            _ => name_of(lines.drop_first(), number),
        }
    }
}

/// The chapters that the first `upto` lines begin, in the order of those
/// lines, each with the name that `lines` give it.
pub open spec fn chapters_upto(lines: Seq<ChapterLineView>, upto: int) -> Seq<ChapterView>
    decreases upto,
{
    if upto <= 0 || upto > lines.len() {
        Seq::empty()
    } else {
        match lines[upto - 1] {
            ChapterLineView::Start { number, at } => chapters_upto(lines, upto - 1).push(
                ChapterView { start: at, name: name_of(lines, number) },
            ),
            _ => chapters_upto(lines, upto - 1),
        }
    }
}

/// The chapters that the lines tell of, in the order in which they begin in
/// the list.
pub open spec fn chapters_of(lines: Seq<ChapterLineView>) -> Seq<ChapterView> {
    chapters_upto(lines, lines.len() as int)
}

/// A set of zones over the views of the zones.
pub open spec fn zone_views(set: IntervalsView<Zone>) -> IntervalsView<ZoneView> {
    IntervalsView {
        intervals: set.intervals,
        payloads: set.payloads.map_values(|zone: Zone| zone@),
    }
}

/// The zones that have been made when the chapters from place `from` on have
/// joined `set`, or the failure of the first chapter that cannot join.
///
/// A chapter makes the zone from its beginning to the beginning of the
/// chapter that follows it in the list, or to `end` where none follows. It
/// cannot join where that beginning lies after that end.
pub open spec fn imported(
    set: IntervalsView<ZoneView>,
    chapters: Seq<ChapterView>,
    from: int,
    end: int,
    settings: EncodeSettings,
) -> Result<IntervalsView<ZoneView>, ZoneImportError>
    decreases chapters.len() - from,
{
    if from < 0 || from >= chapters.len() {
        Ok(set)
    } else {
        let start = chapters[from].start;
        let stop = if from + 1 < chapters.len() {
            chapters[from + 1].start
        } else {
            end
        };
        if start > stop {
            Err(ZoneImportError::OutOfOrder { chapter: from as usize })
        } else {
            imported(
                placed(set, (start, stop), ZoneView { name: chapters[from].name, settings }),
                chapters,
                from + 1,
                end,
                settings,
            )
        }
    }
}

/// No zones.
pub open spec fn no_zones() -> IntervalsView<ZoneView> {
    IntervalsView { intervals: Seq::empty(), payloads: Seq::empty() }
}

/// The views of a list of chapters.
pub open spec fn chapter_views(chapters: Seq<Chapter>) -> Seq<ChapterView> {
    Seq::new(chapters.len(), |i: int| chapters[i]@)
}

/// The views of a list of lines.
pub open spec fn line_views(lines: Seq<ChapterLine>) -> Seq<ChapterLineView> {
    Seq::new(lines.len(), |i: int| lines[i]@)
}

/// The zones that a text of chapters makes: its lines, what they say, the
/// chapters that they tell of, and the zones of those.
pub open spec fn zones_of_ogm(ogm: Seq<char>, end: int, settings: EncodeSettings) -> Result<
    IntervalsView<ZoneView>,
    ZoneImportError,
> {
    imported(no_zones(), chapters_of(chapter_lines(lines_of(ogm))), 0, end, settings)
}

/// Placing a zone in a set of zones is placing its view in the view of the
/// set.
pub proof fn lemma_placed_view(set: IntervalsView<Zone>, x: (int, int), zone: Zone)
    requires
        set.intervals.len() == set.payloads.len(),
    ensures
        placed(zone_views(set), x, zone@) == zone_views(placed(set, x, zone)),
{
    let view = |zone: Zone| zone@;
    let place = rank(set.intervals, x);
    lemma_rank(set.intervals, x);
    if place < set.intervals.len() && set.intervals[place] == x {
        assert(set.payloads.update(place, zone).map_values(view) =~= set.payloads.map_values(
            view,
        ).update(place, zone@));
    } else {
        assert(set.payloads.insert(place, zone).map_values(view) =~= set.payloads.map_values(
            view,
        ).insert(place, zone@));
    }
}

/// The lines of a text.
pub fn split_lines(text: &str) -> (lines: Vec<String>)
    ensures
        lines.deep_view() == lines_of(text@),
{
    let chars = chars_of(text);
    let n = chars.len();
    let mut lines: Vec<String> = Vec::new();
    let mut at: usize = 0;
    proof {
        assert(chars@.skip(0) =~= chars@);
        assert(lines.deep_view() =~= Seq::<Seq<char>>::empty());
        assert(Seq::<Seq<char>>::empty() + lines_of(chars@) =~= lines_of(chars@));
    }
    while at < n
        invariant
            chars@ == text@,
            n == chars.len(),
            at <= n,
            lines_of(chars@) == lines.deep_view() + lines_of(chars@.skip(at as int)),
        decreases n - at,
    {
        let ghost rest = chars@.skip(at as int);
        let ghost before = lines.deep_view();
        proof {
            assert(chars@.subrange(at as int, n as int) =~= rest);
        }
        let end = find_char(&chars, at, n, '\n');
        let stop = if end > at && chars[end - 1] == '\r' {
            end - 1
        } else {
            end
        };
        lines.push(text.substring_char(at, stop).to_owned());
        proof {
            let raw = rest.take(end - at);
            assert(raw =~= chars@.subrange(at as int, end as int));
            if raw.len() > 0 {
                assert(raw.last() == chars@[end - 1]);
            }
            assert(without_return(raw) =~= chars@.subrange(at as int, stop as int));
            assert(lines.deep_view() =~= before.push(without_return(raw)));
            if end < n {
                assert(rest.skip(end - at + 1) =~= chars@.skip(end + 1));
                assert(before + (seq![without_return(raw)] + lines_of(chars@.skip(end + 1)))
                    =~= before.push(without_return(raw)) + lines_of(chars@.skip(end + 1)));
            } else {
                assert(raw =~= rest);
                assert(chars@.skip(n as int) =~= Seq::<char>::empty());
                assert(before + seq![without_return(raw)] =~= before.push(without_return(raw))
                    + lines_of(chars@.skip(n as int)));
            }
        }
        at = if end < n {
            end + 1
        } else {
            n
        };
    }
    proof {
        assert(chars@.skip(n as int) =~= Seq::<char>::empty());
        assert(lines.deep_view() + Seq::<Seq<char>>::empty() =~= lines.deep_view());
    }
    lines
}

/// Turns what the two searches of one line found into what the line says.
pub fn chapter_line_from_captures(
    groups: &Option<Vec<Option<String>>>,
    time_groups: &Option<Vec<Option<String>>>,
) -> (line: Option<ChapterLine>)
    ensures
        match line {
            Some(l) => chapter_line(groups.deep_view(), time_groups.deep_view()) == Some(l@),
            None => chapter_line(groups.deep_view(), time_groups.deep_view()) is None,
        },
{
    let number = match group_number(groups, 1, CHAPTER_NUMBER_MAX) {
        Some(found) => found.0,
        None => {
            return None;
        },
    };
    let text = match group_text(groups, 3) {
        Some(text) => text,
        None => {
            return None;
        },
    };
    match group_text(groups, 2) {
        Some(_) => Some(ChapterLine::Name { number, name: text }),
        None => match elapsed_of_groups(time_groups) {
            Some(at) => Some(ChapterLine::Start { number, at }),
            None => None,
        },
    }
}

/// The text of group `index`, where it took part in the match.
fn group_text(groups: &Option<Vec<Option<String>>>, index: usize) -> (out: Option<String>)
    ensures
        out.deep_view() == group(groups.deep_view(), index as int),
{
    match groups {
        Some(g) => {
            if index < g.len() {
                proof {
                    assert(g.deep_view()[index as int] == g@[index as int].deep_view());
                }
                match &g[index] {
                    Some(text) => Some(text.clone()),
                    None => None,
                }
            } else {
                None
            }
        },
        None => None,
    }
}

/// Reads what one line says.
pub fn parse_chapter_line(line: &str) -> (said: Option<ChapterLine>)
    ensures
        match said {
            Some(l) => line_chapter(line@) == Some(l@),
            None => line_chapter(line@) is None,
        },
{
    let groups = search(CHAPTER_PATTERN, line);
    let time_groups = match group_text(&groups, 3) {
        Some(text) => search(CHAPTER_TIME_PATTERN, text.as_str()),
        None => None,
    };
    chapter_line_from_captures(&groups, &time_groups)
}

/// The name that the lines give to chapter `number`.
pub fn chapter_name(lines: &Vec<ChapterLine>, number: u64) -> (name: String)
    ensures
        name@ == name_of(line_views(lines@), number),
{
    let ghost all = line_views(lines@);
    let mut i: usize = 0;
    proof {
        assert(all.skip(0) =~= all);
    }
    while i < lines.len()
        invariant
            i <= lines.len(),
            all == line_views(lines@),
            name_of(all, number) == name_of(all.skip(i as int), number),
        decreases lines.len() - i,
    {
        proof {
            assert(all.skip(i as int)[0] == lines@[i as int]@);
            assert(all.skip(i as int).drop_first() =~= all.skip(i + 1));
        }
        match &lines[i] {
            ChapterLine::Name { number: n, name } => {
                if *n == number {
                    return name.clone();
                }
            },
            _ => {},
        }
        i = i + 1;
    }
    String::new()
}

/// The chapters that the lines tell of.
pub fn chapters_from_lines(lines: &Vec<ChapterLine>) -> (chapters: Vec<Chapter>)
    ensures
        chapter_views(chapters@) == chapters_of(line_views(lines@)),
{
    let ghost all = line_views(lines@);
    let mut chapters: Vec<Chapter> = Vec::new();
    let mut i: usize = 0;
    proof {
        assert(chapter_views(chapters@) =~= Seq::<ChapterView>::empty());
    }
    while i < lines.len()
        invariant
            i <= lines.len(),
            all == line_views(lines@),
            chapter_views(chapters@) == chapters_upto(all, i as int),
        decreases lines.len() - i,
    {
        let ghost before = chapter_views(chapters@);
        proof {
            assert(all[i as int] == lines@[i as int]@);
        }
        match &lines[i] {
            ChapterLine::Start { number, at } => {
                let name = chapter_name(lines, *number);
                chapters.push(Chapter { start: *at, name });
                proof {
                    assert(chapter_views(chapters@) =~= before.push(
                        ChapterView { start: at@, name: name_of(all, *number) },
                    ));
                }
            },
            _ => {
                proof {
                    assert(chapter_views(chapters@) =~= before);
                }
            },
        }
        i = i + 1;
    }
    chapters
}

/// The zones of one video: stretches of it of which no two overlap, in
/// order.
pub struct Zones {
    zones: NonOverlappingSortedDurationIntervals<Zone>,
}

/// What is known of a video before it is encoded.
pub struct InputStats {
    pub zones: Zones,
}

impl View for Zones {
    type V = IntervalsView<Zone>;

    closed spec fn view(&self) -> IntervalsView<Zone> {
        self.zones@
    }
}

impl Zones {
    /// Whether the zones are what every value made by `new` and changed by
    /// `try_insert` is.
    pub closed spec fn wf(&self) -> bool {
        self.zones.wf()
    }

    /// Zones that are well formed have a zone for each stretch; the
    /// stretches stand in order, and no two of them overlap.
    pub proof fn lemma_wf(&self)
        requires
            self.wf(),
        ensures
            self@.intervals.len() == self@.payloads.len(),
            crate::interval_set::well_ordered(self@.intervals),
            crate::interval_set::disjoint(self@.intervals),
            crate::interval_set::sorted(self@.intervals),
    {
        self.zones.lemma_wf();
    }

    /// No zones.
    pub fn new() -> (zones: Zones)
        ensures
            zones.wf(),
            zones@.intervals == Seq::<(int, int)>::empty(),
            zones@.payloads == Seq::<Zone>::empty(),
    {
        Zones { zones: NonOverlappingSortedDurationIntervals::new() }
    }

    /// Adds a zone, unless its stretch overlaps that of a zone that is there.
    pub fn try_insert(&mut self, stretch: DurationInterval, zone: Zone) -> (r: Result<
        (),
        DurationIntervalError,
    >)
        requires
            old(self).wf(),
        ensures
            final(self).wf(),
            match r {
                Ok(()) => inserted(old(self)@, stretch@, zone) == Ok::<
                    _,
                    ((int, int), (int, int)),
                >(final(self)@),
                Err(DurationIntervalError::IntervalsOverlap(existing, new)) => {
                    &&& inserted(old(self)@, stretch@, zone) == Err::<IntervalsView<Zone>, _>(
                        (existing@, new@),
                    )
                    &&& final(self)@ == old(self)@
                },
            },
    {
        self.zones.try_insert(DurationIntervalMetadata((stretch, zone)))
    }

    /// The number of zones.
    pub fn len(&self) -> (n: usize)
        ensures
            n == self@.intervals.len(),
    {
        self.zones.len()
    }

    /// The stretch of the zone at `index`, counted from the first.
    pub fn stretch_at(&self, index: usize) -> (stretch: DurationInterval)
        requires
            self.wf(),
            index < self@.intervals.len(),
        ensures
            stretch@ == self@.intervals[index as int],
    {
        self.zones.interval_at(index)
    }

    /// The zone at `index`, counted from the first.
    pub fn zone_at(&self, index: usize) -> (zone: &Zone)
        requires
            self.wf(),
            index < self@.intervals.len(),
        ensures
            *zone == self@.payloads[index as int],
    {
        self.zones.payload_at(index)
    }

    /// Makes zones of chapters: each chapter reaches to the beginning of the
    /// next, the last one to `end`, and all are encoded with `settings`.
    ///
    /// It fails at the first chapter that begins after the next, or after
    /// `end`. Zones that are made so never overlap.
    pub fn from_chapters(chapters: &Vec<Chapter>, end: TimeSpan, settings: EncodeSettings) -> (r:
        Result<Zones, ZoneImportError>)
        ensures
            match r {
                Ok(zones) => zones.wf() && imported(
                    no_zones(),
                    chapter_views(chapters@),
                    0,
                    end@,
                    settings,
                ) == Ok::<_, ZoneImportError>(zone_views(zones@)),
                Err(e) => imported(no_zones(), chapter_views(chapters@), 0, end@, settings) == Err::<
                    IntervalsView<ZoneView>,
                    _,
                >(e),
            },
    {
        let ghost all = chapter_views(chapters@);
        let mut zones = Zones::new();
        let mut i: usize = 0;
        proof {
            assert(zone_views(zones@).payloads =~= Seq::<ZoneView>::empty());
        }
        while i < chapters.len()
            invariant
                i <= chapters.len(),
                all == chapter_views(chapters@),
                zones.wf(),
                imported(no_zones(), all, 0, end@, settings) == imported(
                    zone_views(zones@),
                    all,
                    i as int,
                    end@,
                    settings,
                ),
                forall|k: int|
                    0 <= k < zones@.intervals.len() && i < chapters.len() ==> (
                    #[trigger] zones@.intervals[k]).1 <= chapters@[i as int].start@,
            decreases chapters.len() - i,
        {
            let start = chapters[i].start;
            let stop = if i + 1 < chapters.len() {
                chapters[i + 1].start
            } else {
                end
            };
            proof {
                assert(all[i as int] == chapters@[i as int]@);
                if i + 1 < chapters.len() {
                    assert(all[i + 1] == chapters@[i + 1]@);
                }
            }
            let stretch = match DurationInterval::new(start, stop) {
                Ok(stretch) => stretch,
                Err(_) => {
                    return Err(ZoneImportError::OutOfOrder { chapter: i });
                },
            };
            let zone = Zone { name: chapters[i].name.clone(), settings };
            let ghost before = zones@;
            proof {
                zones.lemma_wf();
                lemma_placed_view(before, stretch@, zone);
                lemma_first_overlap_is(
                    before.intervals,
                    stretch@,
                    before.intervals.len() as int,
                );
                lemma_inserted_keeps_order(before, stretch@, zone);
            }
            match zones.try_insert(stretch, zone) {
                Ok(()) => {},
                Err(_) => {
                    proof {
                        assert(false);
                    }
                },
            }
            proof {
                assert forall|k: int|
                    0 <= k < zones@.intervals.len() && i + 1 < chapters.len() implies (
                #[trigger] zones@.intervals[k]).1 <= chapters@[i + 1].start@ by {
                    let at = zones@.intervals[k];
                    if at != stretch@ {
                        let j = choose|j: int|
                            0 <= j < before.intervals.len() && before.intervals[j] == at;
                        assert(before.intervals[j].1 <= start@);
                    }
                }
            }
            i = i + 1;
        }
        Ok(zones)
    }

    /// Reads zones from a text of OGM chapters.
    ///
    /// Lines that are no chapter lines are passed over. A chapter is called
    /// what the first line that names it says, and has no name where none
    /// does. The chapters make zones in the order in which their times stand
    /// in the text, as `from_chapters` makes them.
    pub fn from_ogm(ogm: &str, end: TimeSpan, settings: EncodeSettings) -> (r: Result<
        Zones,
        ZoneImportError,
    >)
        ensures
            match r {
                Ok(zones) => zones.wf() && zones_of_ogm(ogm@, end@, settings) == Ok::<
                    _,
                    ZoneImportError,
                >(zone_views(zones@)),
                Err(e) => zones_of_ogm(ogm@, end@, settings) == Err::<IntervalsView<ZoneView>, _>(
                    e,
                ),
            },
    {
        let lines = split_lines(ogm);
        let ghost texts = lines.deep_view();
        let mut said: Vec<ChapterLine> = Vec::new();
        let mut i: usize = 0;
        proof {
            assert(texts.take(0) =~= Seq::<Seq<char>>::empty());
            assert(line_views(said@) =~= Seq::<ChapterLineView>::empty());
        }
        while i < lines.len()
            invariant
                i <= lines.len(),
                texts == lines.deep_view(),
                line_views(said@) == chapter_lines(texts.take(i as int)),
            decreases lines.len() - i,
        {
            let ghost before = line_views(said@);
            proof {
                assert(texts.take(i + 1).drop_last() =~= texts.take(i as int));
                assert(texts.take(i + 1).last() == lines@[i as int]@);
            }
            match parse_chapter_line(lines[i].as_str()) {
                Some(line) => {
                    let ghost view = line@;
                    said.push(line);
                    proof {
                        assert(line_views(said@) =~= before.push(view));
                    }
                },
                None => {
                    proof {
                        assert(line_views(said@) =~= before);
                    }
                },
            }
            i = i + 1;
        }
        proof {
            assert(texts.take(lines.len() as int) =~= texts);
        }
        let chapters = chapters_from_lines(&said);
        Self::from_chapters(&chapters, end, settings)
    }
}

} // verus!
