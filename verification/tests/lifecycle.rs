use recording_encoder::interval::DurationInterval;
use recording_encoder::lifecycle::{
    EncodeJob, EncodingError, EncodingResult, EncodingStatus, JobStats, PauseError, ResumeError,
    StartError,
};
use recording_encoder::progress::{Decimal, EncodeProgress};
use recording_encoder::supervisor::EncodeStatusUpdate;
use recording_encoder::time::TimeSpan;

fn at(seconds: i64) -> TimeSpan {
    TimeSpan::seconds(seconds)
}

fn pause(start: i64, end: i64) -> DurationInterval {
    DurationInterval::new(at(start), at(end)).expect("start <= end")
}

fn pauses(job: &EncodeJob) -> Vec<DurationInterval> {
    (0..job.pause_count()).map(|i| job.pause_at(i)).collect()
}

fn running_job() -> EncodeJob {
    let mut job = EncodeJob::new();
    job.start(at(100)).expect("a job that waits");
    job
}

const S: u128 = 1_000_000_000;

#[test]
fn a_new_job_waits_for_its_start() {
    let job = EncodeJob::new();
    assert_eq!(job.status(), &EncodingStatus::WaitingForStart);
    assert_eq!(job.result(), None);
    assert_eq!(job.stats(), None);
    assert_eq!(job.pause_count(), 0);
    assert_eq!(job.latest(), at(0));
    assert_eq!(job.progress(), EncodeProgress::empty());
}

#[test]
fn a_job_is_started_once() {
    let mut job = EncodeJob::new();
    assert_eq!(job.start(at(5)), Ok(()));
    assert_eq!(job.status(), &EncodingStatus::Running(EncodeProgress::empty()));
    assert_eq!(job.latest(), at(5));
    assert_eq!(job.start(at(6)), Err(StartError::AlreadyStarted));
    assert_eq!(job.latest(), at(5));
    job.pause(at(7)).expect("a running job");
    assert_eq!(job.start(at(8)), Err(StartError::AlreadyStarted));
    job.on_update(EncodeStatusUpdate::Finished, at(9));
    assert_eq!(job.start(at(10)), Err(StartError::AlreadyStarted));
    assert_eq!(job.status(), &EncodingStatus::Completed);
}

#[test]
fn only_a_running_job_is_paused() {
    let mut job = EncodeJob::new();
    assert_eq!(job.pause(at(1)), Err(PauseError::NotStarted));
    assert_eq!(job.status(), &EncodingStatus::WaitingForStart);
    assert_eq!(job.latest(), at(0));

    job.start(at(2)).expect("a job that waits");
    assert_eq!(job.pause(at(3)), Ok(()));
    assert_eq!(job.status(), &EncodingStatus::Paused);
    assert_eq!(job.pause(at(4)), Err(PauseError::AlreadyPaused));
    assert_eq!(job.status(), &EncodingStatus::Paused);
    assert_eq!(job.latest(), at(3));

    job.on_update(EncodeStatusUpdate::Error(vec!["boom".to_string()]), at(5));
    assert_eq!(job.pause(at(6)), Err(PauseError::NotStarted));
}

#[test]
fn only_a_paused_job_is_resumed() {
    let mut job = EncodeJob::new();
    assert_eq!(job.resume(at(1)), Err(ResumeError::NotStarted));
    job.start(at(2)).expect("a job that waits");
    assert_eq!(job.resume(at(3)), Err(ResumeError::AlreadyRunning));
    assert_eq!(job.latest(), at(2));
    job.pause(at(4)).expect("a running job");
    assert_eq!(job.resume(at(9)), Ok(()));
    assert_eq!(job.status(), &EncodingStatus::Running(EncodeProgress::empty()));
    assert_eq!(pauses(&job), vec![pause(4, 9)]);
    assert_eq!(job.resume(at(10)), Err(ResumeError::AlreadyRunning));
    job.on_update(EncodeStatusUpdate::Finished, at(11));
    assert_eq!(job.resume(at(12)), Err(ResumeError::NotStarted));
    assert_eq!(pauses(&job), vec![pause(4, 9)]);
}

#[test]
fn pauses_are_kept_in_order() {
    let mut job = running_job();
    for (from, to) in [(110, 120), (120, 120), (120, 120), (120, 125), (300, 301)] {
        assert_eq!(job.pause(at(from)), Ok(()));
        assert_eq!(job.resume(at(to)), Ok(()));
    }
    assert_eq!(
        pauses(&job),
        vec![pause(110, 120), pause(120, 120), pause(120, 125), pause(300, 301)]
    );
    job.on_update(EncodeStatusUpdate::Finished, at(400));
    assert_eq!(
        job.stats(),
        Some(JobStats {
            wall_clock: 300 * S,
            paused: Some(16 * S),
            active: 284 * S,
            size: None,
            bitrate: None,
        })
    );
}

#[test]
fn progress_is_shown_while_the_job_runs() {
    let first = EncodeProgress { frame: Some(10), ..EncodeProgress::empty() };
    let second = EncodeProgress { frame: Some(20), size: Some(4096), ..EncodeProgress::empty() };
    let mut job = running_job();
    job.on_update(EncodeStatusUpdate::Progress(first), at(101));
    assert_eq!(job.status(), &EncodingStatus::Running(first));
    assert_eq!(job.latest(), at(101));

    job.pause(at(102)).expect("a running job");
    job.on_update(EncodeStatusUpdate::Progress(second), at(103));
    assert_eq!(job.status(), &EncodingStatus::Paused);
    assert_eq!(job.progress(), second);
    job.resume(at(104)).expect("a paused job");
    assert_eq!(job.status(), &EncodingStatus::Running(second));
}

#[test]
fn updates_before_the_start_and_after_the_end_are_ignored() {
    let progress = EncodeProgress { frame: Some(10), ..EncodeProgress::empty() };
    let mut job = EncodeJob::new();
    job.on_update(EncodeStatusUpdate::Progress(progress), at(1));
    job.on_update(EncodeStatusUpdate::Finished, at(2));
    assert_eq!(job.status(), &EncodingStatus::WaitingForStart);
    assert_eq!(job.latest(), at(0));

    job.start(at(3)).expect("a job that waits");
    job.on_update(EncodeStatusUpdate::Cancelled, at(4));
    assert_eq!(job.status(), &EncodingStatus::Failed(EncodingError::Cancelled));
    assert_eq!(job.result(), Some(EncodingResult::Errored));
    job.on_update(EncodeStatusUpdate::Finished, at(5));
    job.on_update(EncodeStatusUpdate::Progress(progress), at(6));
    assert_eq!(job.status(), &EncodingStatus::Failed(EncodingError::Cancelled));
    assert_eq!(job.progress(), EncodeProgress::empty());
    assert_eq!(job.latest(), at(4));
    assert_eq!(job.stats(), None);
}

#[test]
fn a_failure_keeps_the_error_stream() {
    let mut job = running_job();
    let lines = vec!["one".to_string(), "two".to_string()];
    job.on_update(EncodeStatusUpdate::Error(lines.clone()), at(150));
    assert_eq!(
        job.status(),
        &EncodingStatus::Failed(EncodingError::EncoderFailed { stderr: lines })
    );
    assert_eq!(job.result(), Some(EncodingResult::Errored));
    assert_eq!(job.stats(), None);
}

#[test]
fn the_end_of_a_job_ends_its_pause() {
    let mut job = running_job();
    job.pause(at(130)).expect("a running job");
    job.on_update(EncodeStatusUpdate::Finished, at(190));
    assert_eq!(job.status(), &EncodingStatus::Completed);
    assert_eq!(pauses(&job), vec![pause(130, 190)]);
    assert_eq!(
        job.stats(),
        Some(JobStats {
            wall_clock: 90 * S,
            paused: Some(60 * S),
            active: 30 * S,
            size: None,
            bitrate: None,
        })
    );
}

#[test]
fn what_a_completed_job_tells() {
    let last = EncodeProgress {
        size: Some(2_097_152),
        bitrate: Some(Decimal { mantissa: 40960, scale: 1 }),
        ..EncodeProgress::empty()
    };
    let mut job = running_job();
    assert_eq!(job.stats(), None);
    job.on_update(EncodeStatusUpdate::Progress(last), at(101));
    job.on_update(EncodeStatusUpdate::Finished, at(104));
    assert_eq!(
        job.stats(),
        Some(JobStats {
            wall_clock: 4 * S,
            paused: None,
            active: 4 * S,
            size: Some(2_097_152),
            bitrate: Some(Decimal { mantissa: 40960, scale: 1 }),
        })
    );

    let mut instant = running_job();
    instant.pause(at(100)).expect("a running job");
    instant.resume(at(100)).expect("a paused job");
    instant.on_update(EncodeStatusUpdate::Finished, at(100));
    assert_eq!(
        instant.stats(),
        Some(JobStats { wall_clock: 0, paused: Some(0), active: 0, size: None, bitrate: None })
    );
}
