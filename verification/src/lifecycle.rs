//! The life of one encode: waiting, running, paused, and at last completed
//! or failed.
//!
//! A job is told the time with every change. Its clock is whatever clock its
//! owner reads, as long as it never runs backwards. The pauses of a job are
//! kept as a set of intervals on that clock.

use crate::interval::{overlap, DurationInterval, DurationIntervalMetadata};
use crate::interval_set::{
    disjoint, lemma_first_overlap_is, lemma_rank_is, lemma_total_bounded, sorted, total,
    well_ordered, NonOverlappingSortedDurationIntervals,
};
use crate::progress::{Decimal, EncodeProgress};
use crate::supervisor::{EncodeStatusUpdate, UpdateView};
use crate::time::TimeSpan;
use vstd::prelude::*;

verus! {

/// Why a job cannot be paused.
#[derive(Debug, Clone, Copy, PartialEq, Eq, Structural, Hash)]
pub enum PauseError {
    /// The job is not running: it has not started, or it has ended.
    NotStarted,
    /// The job is paused already.
    AlreadyPaused,
}

/// Why a job cannot be resumed.
#[derive(Debug, Clone, Copy, PartialEq, Eq, Structural, Hash)]
pub enum ResumeError {
    /// The job is not paused: it has not started, or it has ended.
    NotStarted,
    /// The job is running already.
    AlreadyRunning,
}

/// Why a job cannot be started.
#[derive(Debug, Clone, Copy, PartialEq, Eq, Structural, Hash)]
pub enum StartError {
    /// The job was started before. A job is started once.
    AlreadyStarted,
}

/// Why an encode failed.
#[derive(Debug, PartialEq, Eq)]
pub enum EncodingError {
    /// The encoder exited without success. Holds the lines of its error
    /// stream.
    EncoderFailed { stderr: Vec<String> },
    /// The job was cancelled.
    Cancelled,
}

/// Where a job stands.
#[derive(Debug, PartialEq, Eq)]
pub enum EncodingStatus {
    WaitingForStart,
    Running(EncodeProgress),
    Completed,
    Failed(EncodingError),
    Paused,
}

/// How a job ended.
#[derive(Debug, Clone, Copy, PartialEq, Eq, Structural, Hash)]
pub enum EncodingResult {
    Completed,
    Errored,
}

/// A failure over the views of its lines.
pub enum ErrorView {
    EncoderFailed { stderr: Seq<Seq<char>> },
    Cancelled,
}

/// A status over the views of its lines.
pub enum StatusView {
    WaitingForStart,
    Running(EncodeProgress),
    Completed,
    Failed(ErrorView),
    Paused,
}

impl View for EncodingError {
    type V = ErrorView;

    open spec fn view(&self) -> ErrorView {
        match self {
            EncodingError::EncoderFailed { stderr } => ErrorView::EncoderFailed {
                stderr: stderr.deep_view(),
            },
            EncodingError::Cancelled => ErrorView::Cancelled,
        }
    }
}

impl View for EncodingStatus {
    type V = StatusView;

    open spec fn view(&self) -> StatusView {
        match self {
            EncodingStatus::WaitingForStart => StatusView::WaitingForStart,
            EncodingStatus::Running(progress) => StatusView::Running(*progress),
            EncodingStatus::Completed => StatusView::Completed,
            EncodingStatus::Failed(error) => StatusView::Failed(error@),
            EncodingStatus::Paused => StatusView::Paused,
        }
    }
}

/// What is known of a job. Times are nanoseconds on the job's clock.
pub struct JobView {
    pub status: StatusView,
    /// When the job was started.
    pub started: Option<int>,
    /// When the job ended.
    pub ended: Option<int>,
    /// When the pause began that the job is in.
    pub pause_started: Option<int>,
    /// What the encoder reported last.
    pub progress: EncodeProgress,
    /// The pauses that are over, in order.
    pub pauses: Seq<(int, int)>,
    /// The latest time that the job was told.
    pub latest: int,
}

/// What a set of pauses is after the pause `x`, which began when all of them
/// were over, has joined them: `x` comes last. A pause of no length that is
/// there already is not there twice.
pub open spec fn with_pause(pauses: Seq<(int, int)>, x: (int, int)) -> Seq<(int, int)> {
    if pauses.len() > 0 && pauses.last() == x {
        pauses
    } else {
        pauses.push(x)
    }
}

/// The job as it is when nothing has happened yet.
pub open spec fn detected() -> JobView {
    JobView {
        status: StatusView::WaitingForStart,
        started: None,
        ended: None,
        pause_started: None,
        progress: EncodeProgress::spec_empty(),
        pauses: Seq::empty(),
        latest: 0,
    }
}

/// Whether the job has been started and has not ended.
pub open spec fn alive(job: JobView) -> bool {
    job.status is Running || job.status is Paused
}

/// The job after `start` at `now`: a job that waits runs; any other was
/// started already and stays as it is.
pub open spec fn after_start(job: JobView, now: int) -> Result<JobView, StartError> {
    if job.status is WaitingForStart {
        Ok(
            JobView {
                status: StatusView::Running(EncodeProgress::spec_empty()),
                started: Some(now),
                latest: now,
                ..job
            },
        )
    } else {
        Err(StartError::AlreadyStarted)
    }
}

/// The job after `pause` at `now`: a running job is paused, and its pause
/// begins at `now`; any other stays as it is.
pub open spec fn after_pause(job: JobView, now: int) -> Result<JobView, PauseError> {
    match job.status {
        StatusView::Running(_) => Ok(
            JobView { status: StatusView::Paused, pause_started: Some(now), latest: now, ..job },
        ),
        StatusView::Paused => Err(PauseError::AlreadyPaused),
        _ => Err(PauseError::NotStarted),
    }
}

/// The job with the pause that it is in, if any, closed at `now`.
pub open spec fn pause_closed(job: JobView, now: int) -> JobView {
    match job.pause_started {
        Some(began) => JobView {
            pause_started: None,
            pauses: with_pause(job.pauses, (began, now)),
            ..job
        },
        None => job,
    }
}

/// The job after `resume` at `now`: a paused job runs again, and its pause,
/// which ends at `now`, joins the pauses that are over; any other stays as
/// it is.
pub open spec fn after_resume(job: JobView, now: int) -> Result<JobView, ResumeError> {
    match job.status {
        StatusView::Paused => Ok(
            JobView {
                status: StatusView::Running(job.progress),
                latest: now,
                ..pause_closed(job, now)
            },
        ),
        StatusView::Running(_) => Err(ResumeError::AlreadyRunning),
        _ => Err(ResumeError::NotStarted),
    }
}

/// The job after its supervisor's `update` arrived at `now`.
///
/// A job that has not started or has ended takes no notice. Progress is
/// kept, and shown while the job runs. A terminal update ends the job, and
/// the pause that it is in: `Finished` completes it, `Error` and
/// `Cancelled` fail it.
pub open spec fn after_update(job: JobView, update: UpdateView, now: int) -> JobView {
    if !alive(job) {
        job
    } else {
        match update {
            UpdateView::Progress(progress) => JobView {
                status: if job.status is Running {
                    StatusView::Running(progress)
                } else {
                    job.status
                },
                progress,
                latest: now,
                ..job
            },
            UpdateView::Finished => JobView {
                status: StatusView::Completed,
                ended: Some(now),
                latest: now,
                ..pause_closed(job, now)
            },
            UpdateView::Cancelled => JobView {
                status: StatusView::Failed(ErrorView::Cancelled),
                ended: Some(now),
                latest: now,
                ..pause_closed(job, now)
            },
            UpdateView::Error(lines) => JobView {
                status: StatusView::Failed(ErrorView::EncoderFailed { stderr: lines }),
                ended: Some(now),
                latest: now,
                ..pause_closed(job, now)
            },
        }
    }
}

/// What holds of every job that was made by `EncodeJob::new` and told the
/// time in order: the times it keeps fit its status and lie in order, and
/// its pauses lie side by side between its start and the latest time.
pub open spec fn consistent(job: JobView) -> bool {
    &&& job.status is WaitingForStart <==> job.started is None
    &&& job.status is Paused <==> job.pause_started is Some
    &&& (job.status is Completed || job.status is Failed) <==> job.ended is Some
    &&& job.started matches Some(began) ==> began <= job.latest
    &&& job.ended matches Some(end) ==> end == job.latest
    &&& job.pause_started matches Some(began) ==> began <= job.latest
    &&& job.pause_started matches Some(began) ==> (job.started matches Some(start) && start
        <= began)
    &&& job.status is WaitingForStart ==> job.pauses.len() == 0
    &&& well_ordered(job.pauses)
    &&& sorted(job.pauses)
    &&& disjoint(job.pauses)
    &&& forall|i: int|
        0 <= i < job.pauses.len() ==> (#[trigger] job.pauses[i]).1 <= (match job.pause_started {
            Some(began) => began,
            None => job.latest,
        })
    &&& forall|i: int|
        0 <= i < job.pauses.len() ==> (job.started matches Some(began) && began
            <= (#[trigger] job.pauses[i]).0)
}

/// A job that has ended stays as it is: it cannot be started, paused or
/// resumed, and takes no notice of updates.
pub proof fn lemma_ended_is_absorbing(job: JobView, update: UpdateView, now: int)
    requires
        job.status is Completed || job.status is Failed,
    ensures
        after_start(job, now) == Err::<JobView, _>(StartError::AlreadyStarted),
        after_pause(job, now) == Err::<JobView, _>(PauseError::NotStarted),
        after_resume(job, now) == Err::<JobView, _>(ResumeError::NotStarted),
        after_update(job, update, now) == job,
{
}

/// Closing the pause that a job is in keeps its pauses side by side.
pub proof fn lemma_pause_closed(job: JobView, now: int)
    requires
        consistent(job),
        now >= job.latest,
    ensures
        well_ordered(pause_closed(job, now).pauses),
        sorted(pause_closed(job, now).pauses),
        disjoint(pause_closed(job, now).pauses),
        forall|i: int|
            0 <= i < pause_closed(job, now).pauses.len() ==> (#[trigger] pause_closed(
                job,
                now,
            ).pauses[i]).1 <= now,
        forall|i: int|
            0 <= i < pause_closed(job, now).pauses.len() ==> (job.started matches Some(began)
                && began <= (#[trigger] pause_closed(job, now).pauses[i]).0),
{
    match job.pause_started {
        None => {
            assert forall|i: int| 0 <= i < job.pauses.len() implies (job.started matches Some(
                began,
            ) && began <= (#[trigger] job.pauses[i]).0) by {}
        },
        Some(began) => {
            let x = (began, now);
            let old = job.pauses;
            let new = with_pause(old, x);
            if old.len() > 0 && old.last() == x {
            } else {
                assert forall|i: int| 0 <= i < new.len() implies (#[trigger] new[i]).0
                    <= new[i].1 && new[i].1 <= now && (job.started matches Some(start) && start
                    <= new[i].0) by {
                    if i < old.len() {
                        assert(new[i] == old[i]);
                    }
                }
                assert forall|i: int, j: int| 0 <= i < j < new.len() implies (#[trigger] new[i]).0
                    < (#[trigger] new[j]).0 || (new[i].0 == new[j].0 && new[i].1 < new[j].1) by {
                    assert(new[i] == old[i]);
                    if j < old.len() {
                        assert(new[j] == old[j]);
                    } else {
                        assert(old[i].0 <= old[i].1);
                        assert(old[i].1 <= began);
                        if old[i] == x {
                            assert(i < old.len() - 1);
                            let last = old[old.len() - 1];
                            assert(last.0 <= last.1);
                            assert(last.1 <= began);
                        }
                    }
                }
                assert forall|i: int, j: int|
                    0 <= i < new.len() && 0 <= j < new.len() && i != j implies !overlap(
                    #[trigger] new[i],
                    #[trigger] new[j],
                ) by {
                    if i < old.len() {
                        assert(new[i] == old[i]);
                        assert(old[i].1 <= began);
                    }
                    if j < old.len() {
                        assert(new[j] == old[j]);
                        assert(old[j].1 <= began);
                    }
                }
            }
        },
    }
}

/// Whatever is done to a consistent job at a time that is not before the
/// latest that it was told, it stays consistent.
pub proof fn lemma_changes_keep_consistent(job: JobView, update: UpdateView, now: int)
    requires
        consistent(job),
        now >= job.latest,
    ensures
        after_start(job, now) matches Ok(next) ==> consistent(next),
        after_pause(job, now) matches Ok(next) ==> consistent(next),
        after_resume(job, now) matches Ok(next) ==> consistent(next),
        consistent(after_update(job, update, now)),
{
    lemma_pause_closed(job, now);
}

/// What a job that completed tells of itself. Spans are in nanoseconds.
#[derive(Debug, Clone, Copy, PartialEq, Eq)]
pub struct JobStats {
    /// The time from the start of the job to its end.
    pub wall_clock: u128,
    /// The time that the job spent paused; `None` where it was never paused.
    pub paused: Option<u128>,
    /// The time that the job spent running: the whole time but the pauses.
    pub active: u128,
    /// The size of the output in bytes, as the encoder reported it last.
    pub size: Option<i64>,
    /// The bitrate in kbit/s, as the encoder reported it last.
    pub bitrate: Option<Decimal>,
}

/// The stats of a job, where it completed.
pub open spec fn stats_of(job: JobView) -> Option<JobStats> {
    if job.status is Completed && job.started is Some && job.ended is Some {
        Some(
            JobStats {
                wall_clock: (job.ended->0 - job.started->0) as u128,
                paused: if job.pauses.len() == 0 {
                    None
                } else {
                    Some(total(job.pauses) as u128)
                },
                active: (job.ended->0 - job.started->0 - total(job.pauses)) as u128,
                size: job.progress.size,
                bitrate: job.progress.bitrate,
            },
        )
    } else {
        None
    }
}

/// One encode.
pub struct EncodeJob {
    status: EncodingStatus,
    started: Option<TimeSpan>,
    ended: Option<TimeSpan>,
    pause_started: Option<TimeSpan>,
    progress: EncodeProgress,
    pauses: NonOverlappingSortedDurationIntervals<()>,
    latest: TimeSpan,
}

/// The time, if any, as a number.
pub open spec fn time_view(at: Option<TimeSpan>) -> Option<int> {
    match at {
        Some(t) => Some(t@),
        None => None,
    }
}

impl View for EncodeJob {
    type V = JobView;

    closed spec fn view(&self) -> JobView {
        JobView {
            status: self.status@,
            started: time_view(self.started),
            ended: time_view(self.ended),
            pause_started: time_view(self.pause_started),
            progress: self.progress,
            pauses: self.pauses@.intervals,
            latest: self.latest@,
        }
    }
}

impl EncodeJob {
    /// Whether the job is what every job made by `new` and changed by the
    /// functions of this type is.
    pub closed spec fn wf(&self) -> bool {
        &&& self.pauses.wf()
        &&& consistent(self@)
    }

    /// A job that is well formed is consistent.
    pub proof fn lemma_wf(&self)
        requires
            self.wf(),
        ensures
            consistent(self@),
    {
    }

    /// A job that waits for its start.
    pub fn new() -> (job: EncodeJob)
        ensures
            job.wf(),
            job@ == detected(),
    {
        EncodeJob {
            status: EncodingStatus::WaitingForStart,
            started: None,
            ended: None,
            pause_started: None,
            progress: EncodeProgress::empty(),
            pauses: NonOverlappingSortedDurationIntervals::new(),
            latest: TimeSpan::zero(),
        }
    }

    /// Where the job stands.
    pub fn status(&self) -> (status: &EncodingStatus)
        ensures
            status@ == self@.status,
    {
        &self.status
    }

    /// The latest time that the job was told.
    pub fn latest(&self) -> (at: TimeSpan)
        ensures
            at@ == self@.latest,
    {
        self.latest
    }

    /// What the encoder reported last.
    pub fn progress(&self) -> (progress: EncodeProgress)
        ensures
            progress == self@.progress,
    {
        self.progress
    }

    /// How the job ended, if it has.
    pub fn result(&self) -> (result: Option<EncodingResult>)
        ensures
            result == match self@.status {
                StatusView::Completed => Some(EncodingResult::Completed),
                StatusView::Failed(_) => Some(EncodingResult::Errored),
                _ => None,
            },
    {
        match &self.status {
            EncodingStatus::Completed => Some(EncodingResult::Completed),
            EncodingStatus::Failed(_) => Some(EncodingResult::Errored),
            _ => None,
        }
    }

    /// Starts the job at `now`. Only a job that waits can be started.
    pub fn start(&mut self, now: TimeSpan) -> (r: Result<(), StartError>)
        requires
            old(self).wf(),
            now@ >= old(self)@.latest,
        ensures
            final(self).wf(),
            match r {
                Ok(()) => after_start(old(self)@, now@) == Ok::<_, StartError>(final(self)@),
                Err(e) => after_start(old(self)@, now@) == Err::<JobView, _>(e) && final(self)@
                    == old(self)@,
            },
    {
        match &self.status {
            EncodingStatus::WaitingForStart => {
                self.status = EncodingStatus::Running(EncodeProgress::empty());
                self.started = Some(now);
                self.latest = now;
                Ok(())
            },
            _ => Err(StartError::AlreadyStarted),
        }
    }

    /// Pauses the job at `now`. Only a running job can be paused.
    pub fn pause(&mut self, now: TimeSpan) -> (r: Result<(), PauseError>)
        requires
            old(self).wf(),
            now@ >= old(self)@.latest,
        ensures
            final(self).wf(),
            match r {
                Ok(()) => after_pause(old(self)@, now@) == Ok::<_, PauseError>(final(self)@),
                Err(e) => after_pause(old(self)@, now@) == Err::<JobView, _>(e) && final(self)@
                    == old(self)@,
            },
    {
        match &self.status {
            EncodingStatus::Running(_) => {
                self.status = EncodingStatus::Paused;
                self.pause_started = Some(now);
                self.latest = now;
                Ok(())
            },
            EncodingStatus::Paused => Err(PauseError::AlreadyPaused),
            _ => Err(PauseError::NotStarted),
        }
    }

    /// Closes the pause that the job is in, if any, at `now`.
    fn close_pause(&mut self, now: TimeSpan)
        requires
            old(self).wf(),
            now@ >= old(self)@.latest,
        ensures
            final(self).pauses.wf(),
            final(self)@ == pause_closed(old(self)@, now@),
            well_ordered(final(self)@.pauses),
            sorted(final(self)@.pauses),
            disjoint(final(self)@.pauses),
            forall|i: int|
                0 <= i < final(self)@.pauses.len() ==> (#[trigger] final(self)@.pauses[i]).1
                    <= now@,
            forall|i: int|
                0 <= i < final(self)@.pauses.len() ==> (old(self)@.started matches Some(began)
                    && began <= (#[trigger] final(self)@.pauses[i]).0),
    {
        proof {
            self.pauses.lemma_wf();
        }
        match self.pause_started {
            None => {
                proof {
                    let job = self@;
                    assert forall|i: int| 0 <= i < job.pauses.len() implies (
                    job.started matches Some(began) && began <= (#[trigger] job.pauses[i]).0) by {
                        assert(consistent(job));
                    }
                }
            },
            Some(began) => {
                let ghost before = self.pauses@;
                let ghost x = (began@, now@);
                let interval = match DurationInterval::new(began, now) {
                    Ok(interval) => interval,
                    Err(_) => unreached(),
                };
                proof {
                    let n = before.intervals.len() as int;
                    assert forall|i: int| 0 <= i < n implies !overlap(
                        #[trigger] before.intervals[i],
                        x,
                    ) by {}
                    lemma_first_overlap_is(before.intervals, x, n);
                    if n > 0 && before.intervals[n - 1] == x {
                        assert forall|i: int| 0 <= i < n - 1 implies (
                        #[trigger] before.intervals[i]).0 < x.0 || (before.intervals[i].0 == x.0
                            && before.intervals[i].1 < x.1) by {
                            assert(sorted(before.intervals));
                        }
                        lemma_rank_is(before.intervals, x, n - 1);
                    } else {
                        assert forall|i: int| 0 <= i < n implies (#[trigger] before.intervals[i]).0
                            < x.0 || (before.intervals[i].0 == x.0 && before.intervals[i].1
                            < x.1) by {
                            let p = before.intervals[i];
                            assert(p.0 <= p.1);
                            assert(p.1 <= x.0);
                            if p.0 == x.0 && p.1 == x.1 {
                                assert(sorted(before.intervals));
                                if i < n - 1 {
                                    let q = before.intervals[n - 1];
                                    assert(q.0 <= q.1);
                                    assert(q.1 <= x.0);
                                }
                            }
                        }
                        lemma_rank_is(before.intervals, x, n);
                    }
                }
                match self.pauses.try_insert(DurationIntervalMetadata((interval, ()))) {
                    Ok(()) => {},
                    Err(_) => {
                        proof {
                            assert(false);
                        }
                    },
                }
                self.pause_started = None;
                proof {
                    self.pauses.lemma_wf();
                    let n = before.intervals.len() as int;
                    if n > 0 && before.intervals[n - 1] == x {
                        assert(self.pauses@.intervals =~= before.intervals);
                    } else {
                        assert(before.intervals.insert(n, x) =~= before.intervals.push(x));
                    }
                    assert(self.pauses@.intervals == with_pause(before.intervals, x));
                }
            },
        }
    }

    /// Resumes the job at `now`. Only a paused job can be resumed; the pause
    /// that ends joins the job's pauses.
    pub fn resume(&mut self, now: TimeSpan) -> (r: Result<(), ResumeError>)
        requires
            old(self).wf(),
            now@ >= old(self)@.latest,
        ensures
            final(self).wf(),
            match r {
                Ok(()) => after_resume(old(self)@, now@) == Ok::<_, ResumeError>(final(self)@),
                Err(e) => after_resume(old(self)@, now@) == Err::<JobView, _>(e) && final(self)@
                    == old(self)@,
            },
    {
        match &self.status {
            EncodingStatus::Paused => {
                self.close_pause(now);
                self.status = EncodingStatus::Running(self.progress);
                self.latest = now;
                Ok(())
            },
            EncodingStatus::Running(_) => Err(ResumeError::AlreadyRunning),
            _ => Err(ResumeError::NotStarted),
        }
    }

    /// Takes note of an update that the job's supervisor sent at `now`.
    pub fn on_update(&mut self, update: EncodeStatusUpdate, now: TimeSpan)
        requires
            old(self).wf(),
            now@ >= old(self)@.latest,
        ensures
            final(self).wf(),
            final(self)@ == after_update(old(self)@, update@, now@),
    {
        let alive = match &self.status {
            EncodingStatus::Running(_) => true,
            EncodingStatus::Paused => true,
            _ => false,
        };
        if !alive {
            return ;
        }
        match update {
            EncodeStatusUpdate::Progress(progress) => {
                let running = match &self.status {
                    EncodingStatus::Running(_) => true,
                    _ => false,
                };
                if running {
                    self.status = EncodingStatus::Running(progress);
                }
                self.progress = progress;
                self.latest = now;
            },
            EncodeStatusUpdate::Finished => {
                self.close_pause(now);
                self.status = EncodingStatus::Completed;
                self.ended = Some(now);
                self.latest = now;
            },
            EncodeStatusUpdate::Cancelled => {
                self.close_pause(now);
                self.status = EncodingStatus::Failed(EncodingError::Cancelled);
                self.ended = Some(now);
                self.latest = now;
            },
            EncodeStatusUpdate::Error(lines) => {
                self.close_pause(now);
                self.status = EncodingStatus::Failed(EncodingError::EncoderFailed { stderr: lines });
                self.ended = Some(now);
                self.latest = now;
            },
        }
    }

    /// The number of pauses that are over.
    pub fn pause_count(&self) -> (n: usize)
        ensures
            n == self@.pauses.len(),
    {
        self.pauses.len()
    }

    /// The pause at `index`, counted from the first.
    pub fn pause_at(&self, index: usize) -> (pause: DurationInterval)
        requires
            self.wf(),
            index < self@.pauses.len(),
        ensures
            pause@ == self@.pauses[index as int],
    {
        self.pauses.interval_at(index)
    }

    /// What the job tells of itself once it has completed.
    pub fn stats(&self) -> (stats: Option<JobStats>)
        requires
            self.wf(),
        ensures
            stats == stats_of(self@),
    {
        match (&self.status, self.started, self.ended) {
            (EncodingStatus::Completed, Some(started), Some(ended)) => {
                let paused = self.pauses.total_length();
                let wall_clock = crate::interval::distance(started.nanos, ended.nanos);
                proof {
                    let job = self@;
                    if job.pauses.len() > 0 {
                        lemma_total_bounded(job.pauses);
                        assert(job.started->0 <= job.pauses[0].0);
                        assert(job.pauses.last().1 <= job.latest);
                    }
                }
                let active = match paused {
                    Some(nanos) => wall_clock - nanos,
                    None => wall_clock,
                };
                Some(
                    JobStats {
                        wall_clock,
                        paused,
                        active,
                        size: self.progress.size,
                        bitrate: self.progress.bitrate,
                    },
                )
            },
            _ => None,
        }
    }
}

/// What every encode can be asked: where it stands, and to start, to pause
/// and to resume.
pub trait Encoder {
    /// What is known of the encode.
    spec fn job(&self) -> JobView;

    /// Whether the encode is what every encode of this type is.
    spec fn ready(&self) -> bool;

    /// Where the encode stands.
    fn status(&self) -> (status: &EncodingStatus)
        requires
            self.ready(),
        ensures
            status@ == self.job().status,
    ;

    /// Starts the encode at `now`. Only an encode that waits can be started.
    fn start(&mut self, now: TimeSpan) -> (r: Result<(), StartError>)
        requires
            old(self).ready(),
            now@ >= old(self).job().latest,
        ensures
            final(self).ready(),
            match r {
                Ok(()) => after_start(old(self).job(), now@) == Ok::<_, StartError>(
                    final(self).job(),
                ),
                Err(e) => {
                    &&& after_start(old(self).job(), now@) == Err::<JobView, _>(e)
                    &&& final(self).job() == old(self).job()
                },
            },
    ;

    /// Pauses the encode at `now`. Only a running encode can be paused.
    fn pause(&mut self, now: TimeSpan) -> (r: Result<(), PauseError>)
        requires
            old(self).ready(),
            now@ >= old(self).job().latest,
        ensures
            final(self).ready(),
            match r {
                Ok(()) => after_pause(old(self).job(), now@) == Ok::<_, PauseError>(
                    final(self).job(),
                ),
                Err(e) => {
                    &&& after_pause(old(self).job(), now@) == Err::<JobView, _>(e)
                    &&& final(self).job() == old(self).job()
                },
            },
    ;

    /// Resumes the encode at `now`. Only a paused encode can be resumed.
    fn resume(&mut self, now: TimeSpan) -> (r: Result<(), ResumeError>)
        requires
            old(self).ready(),
            now@ >= old(self).job().latest,
        ensures
            final(self).ready(),
            match r {
                Ok(()) => after_resume(old(self).job(), now@) == Ok::<_, ResumeError>(
                    final(self).job(),
                ),
                Err(e) => {
                    &&& after_resume(old(self).job(), now@) == Err::<JobView, _>(e)
                    &&& final(self).job() == old(self).job()
                },
            },
    ;
}

impl Encoder for EncodeJob {
    open spec fn job(&self) -> JobView {
        self@
    }

    open spec fn ready(&self) -> bool {
        self.wf()
    }

    fn status(&self) -> (status: &EncodingStatus) {
        EncodeJob::status(self)
    }

    fn start(&mut self, now: TimeSpan) -> (r: Result<(), StartError>) {
        EncodeJob::start(self, now)
    }

    fn pause(&mut self, now: TimeSpan) -> (r: Result<(), PauseError>) {
        EncodeJob::pause(self, now)
    }

    fn resume(&mut self, now: TimeSpan) -> (r: Result<(), ResumeError>) {
        EncodeJob::resume(self, now)
    }
}

} // verus!
