use recording_encoder::lifecycle::{EncodeJob, EncodingResult, EncodingStatus};
use recording_encoder::progress::{Decimal, EncodeProgress};
use recording_encoder::supervisor::{
    EncodeStatusUpdate, Supervisor, SupervisorAction, SupervisorEvent,
};
use recording_encoder::time::TimeSpan;

fn nothing() -> SupervisorAction {
    SupervisorAction { kill: false, emit: None }
}

fn emit(update: EncodeStatusUpdate) -> SupervisorAction {
    SupervisorAction { kill: false, emit: Some(update) }
}

fn out(line: &str) -> SupervisorEvent {
    SupervisorEvent::StdoutLine(line.to_string())
}

fn err(line: &str) -> SupervisorEvent {
    SupervisorEvent::StderrLine(line.to_string())
}

/// The updates that a fresh supervisor sends while the events happen.
fn run(events: Vec<SupervisorEvent>) -> Vec<EncodeStatusUpdate> {
    let mut supervisor = Supervisor::new();
    events.into_iter().filter_map(|event| supervisor.step(event).emit).collect()
}

fn is_terminal(update: &EncodeStatusUpdate) -> bool {
    !matches!(update, EncodeStatusUpdate::Progress(_))
}

#[test]
fn one_line_and_a_clean_exit() {
    let line = "frame=120 fps=30.0 size=2048KiB time=00:00:04.00 bitrate=4096.0kbit/s speed=1.0x";
    let snapshot = EncodeProgress {
        frame: Some(120),
        fps: Some(Decimal { mantissa: 300, scale: 1 }),
        speed: Some(Decimal { mantissa: 10, scale: 1 }),
        time: Some(TimeSpan::seconds(4)),
        size: Some(2_097_152),
        bitrate: Some(Decimal { mantissa: 40960, scale: 1 }),
    };

    let mut supervisor = Supervisor::new();
    let mut job = EncodeJob::new();
    assert_eq!(job.start(TimeSpan::seconds(0)), Ok(()));
    let mut sent = Vec::new();
    let events = vec![
        out(line),
        SupervisorEvent::StdoutClosed,
        SupervisorEvent::StderrClosed,
        SupervisorEvent::Exited { success: true },
    ];
    for (second, event) in events.into_iter().enumerate() {
        let action = supervisor.step(event);
        assert!(!action.kill);
        if let Some(update) = action.emit {
            sent.push(format!("{update:?}"));
            job.on_update(update, TimeSpan::seconds(second as i64 + 1));
        }
        if second == 0 {
            assert_eq!(job.status(), &EncodingStatus::Running(snapshot));
        }
    }
    assert_eq!(
        sent,
        vec![
            format!("{:?}", EncodeStatusUpdate::Progress(snapshot)),
            format!("{:?}", EncodeStatusUpdate::Finished),
        ]
    );
    assert!(supervisor.is_done());
    assert_eq!(job.status(), &EncodingStatus::Completed);
    assert_eq!(job.result(), Some(EncodingResult::Completed));
}

#[test]
fn the_job_ends_when_the_process_and_both_streams_have() {
    let closes = || {
        vec![
            SupervisorEvent::StdoutClosed,
            SupervisorEvent::StderrClosed,
            SupervisorEvent::Exited { success: true },
        ]
    };
    for order in [[0, 1, 2], [0, 2, 1], [1, 0, 2], [1, 2, 0], [2, 0, 1], [2, 1, 0]] {
        let mut supervisor = Supervisor::new();
        let mut events = closes();
        let mut taken: Vec<Option<SupervisorEvent>> = events.drain(..).map(Some).collect();
        for (n, index) in order.into_iter().enumerate() {
            let event = taken[index].take().expect("each event once");
            let action = supervisor.step(event);
            if n < 2 {
                assert_eq!(action, nothing());
                assert!(!supervisor.is_done());
            } else {
                assert_eq!(action, emit(EncodeStatusUpdate::Finished));
                assert!(supervisor.is_done());
            }
        }
    }
}

#[test]
fn a_failed_encoder_hands_out_its_error_stream() {
    assert_eq!(
        run(vec![
            err("Unknown encoder 'libsvtav2'"),
            out("frame=1"),
            SupervisorEvent::Exited { success: false },
            err("Conversion failed!"),
            SupervisorEvent::StderrClosed,
            SupervisorEvent::StdoutClosed,
        ]),
        vec![
            EncodeStatusUpdate::Progress(EncodeProgress { frame: Some(1), ..EncodeProgress::empty() }),
            EncodeStatusUpdate::Error(vec![
                "Unknown encoder 'libsvtav2'".to_string(),
                "Conversion failed!".to_string(),
            ]),
        ]
    );
    assert_eq!(
        run(vec![
            SupervisorEvent::StdoutClosed,
            SupervisorEvent::StderrClosed,
            SupervisorEvent::Exited { success: false },
        ]),
        vec![EncodeStatusUpdate::Error(Vec::new())]
    );
}

#[test]
fn error_lines_of_a_clean_exit_are_dropped() {
    assert_eq!(
        run(vec![
            err("ffmpeg version 7.0"),
            SupervisorEvent::StderrClosed,
            SupervisorEvent::StdoutClosed,
            SupervisorEvent::Exited { success: true },
        ]),
        vec![EncodeStatusUpdate::Finished]
    );
}

#[test]
fn every_line_of_output_is_sent_as_progress() {
    assert_eq!(
        run(vec![out("frame=1"), out("nothing to see"), out("frame=3 speed=2x")]),
        vec![
            EncodeStatusUpdate::Progress(EncodeProgress { frame: Some(1), ..EncodeProgress::empty() }),
            EncodeStatusUpdate::Progress(EncodeProgress::empty()),
            EncodeStatusUpdate::Progress(EncodeProgress {
                frame: Some(3),
                speed: Some(Decimal { mantissa: 2, scale: 0 }),
                ..EncodeProgress::empty()
            }),
        ]
    );
}

#[test]
fn cancelling_kills_and_ends_the_job() {
    let mut supervisor = Supervisor::new();
    assert_eq!(supervisor.step(out("frame=1")).emit.map(|u| is_terminal(&u)), Some(false));
    assert_eq!(
        supervisor.step(SupervisorEvent::CancelRequested),
        SupervisorAction { kill: true, emit: Some(EncodeStatusUpdate::Cancelled) }
    );
    assert!(supervisor.is_done());
    for event in [
        out("frame=2"),
        err("Exiting normally, received signal 15."),
        SupervisorEvent::StdoutClosed,
        SupervisorEvent::StderrClosed,
        SupervisorEvent::Exited { success: false },
        SupervisorEvent::CancelRequested,
    ] {
        assert_eq!(supervisor.step(event), nothing());
    }
}

#[test]
fn a_process_that_has_exited_is_not_killed() {
    let mut supervisor = Supervisor::new();
    assert_eq!(supervisor.step(SupervisorEvent::Exited { success: true }), nothing());
    assert_eq!(
        supervisor.step(SupervisorEvent::CancelRequested),
        SupervisorAction { kill: false, emit: Some(EncodeStatusUpdate::Cancelled) }
    );
}

#[test]
fn nothing_follows_the_terminal_update() {
    let mut supervisor = Supervisor::new();
    for event in [
        SupervisorEvent::StdoutClosed,
        SupervisorEvent::StderrClosed,
        SupervisorEvent::Exited { success: true },
    ] {
        supervisor.step(event);
    }
    assert!(supervisor.is_done());
    for event in [
        out("frame=2"),
        err("late"),
        SupervisorEvent::Exited { success: false },
        SupervisorEvent::CancelRequested,
        SupervisorEvent::StdoutClosed,
    ] {
        assert_eq!(supervisor.step(event), nothing());
    }
}

#[test]
fn at_most_one_terminal_update_and_it_comes_last() {
    let pool = || {
        vec![
            out("frame=1"),
            err("warning"),
            SupervisorEvent::StdoutClosed,
            SupervisorEvent::StderrClosed,
            SupervisorEvent::Exited { success: true },
            SupervisorEvent::Exited { success: false },
            SupervisorEvent::CancelRequested,
        ]
    };
    let mut seed: u32 = 0x2545_f491;
    for _ in 0..500 {
        let mut events = Vec::new();
        for _ in 0..12 {
            seed ^= seed << 13;
            seed ^= seed >> 17;
            seed ^= seed << 5;
            events.push(pool().swap_remove(seed as usize % 7));
        }
        let sent = run(events);
        let terminal = sent.iter().filter(|u| is_terminal(u)).count();
        assert!(terminal <= 1);
        if terminal == 1 {
            assert!(is_terminal(sent.last().expect("at least the terminal update")));
        }
    }
}
