//! The supervisor of one encoder process, as a state machine.
//!
//! Whoever runs the process reports what happens to it, event by event: a
//! line on either stream, the end of either stream, the exit of the process,
//! a request to cancel. `Supervisor::step` answers each event with what is
//! to be done: whether to kill the process, and which update to send on the
//! job's channel.
//!
//! A job ends with exactly one terminal update, and nothing follows it:
//! - `Cancelled`, as soon as cancelling is requested;
//! - else `Finished` or `Error`, once the process has exited and both
//!   streams have ended: `Finished` where it exited with success, `Error`
//!   with the lines of its error stream otherwise.

use crate::progress::{line_progress, parse_progress, EncodeProgress};
use vstd::prelude::*;

verus! {

/// What a job tells of itself.
#[derive(Debug, PartialEq)]
pub enum EncodeStatusUpdate {
    /// What a line of output reported.
    Progress(EncodeProgress),
    /// The encoder exited with success.
    Finished,
    /// The job was cancelled.
    Cancelled,
    /// The encoder failed. Holds the lines of its error stream.
    Error(Vec<String>),
}

/// An update over the views of its lines.
pub enum UpdateView {
    Progress(EncodeProgress),
    Finished,
    Cancelled,
    Error(Seq<Seq<char>>),
}

impl View for EncodeStatusUpdate {
    type V = UpdateView;

    open spec fn view(&self) -> UpdateView {
        match self {
            EncodeStatusUpdate::Progress(p) => UpdateView::Progress(*p),
            EncodeStatusUpdate::Finished => UpdateView::Finished,
            EncodeStatusUpdate::Cancelled => UpdateView::Cancelled,
            EncodeStatusUpdate::Error(lines) => UpdateView::Error(lines.deep_view()),
        }
    }
}

/// Whether the update ends the job.
pub open spec fn is_terminal(update: UpdateView) -> bool {
    !(update is Progress)
}

/// What happened to the encoder process.
#[derive(Debug, PartialEq)]
pub enum SupervisorEvent {
    /// A line was read from the output stream.
    StdoutLine(String),
    /// A line was read from the error stream.
    StderrLine(String),
    /// The output stream ended.
    StdoutClosed,
    /// The error stream ended.
    StderrClosed,
    /// The process exited.
    Exited { success: bool },
    /// The job's owner asked for the job to be cancelled.
    CancelRequested,
}

/// An event over the views of its lines.
pub enum EventView {
    StdoutLine(Seq<char>),
    StderrLine(Seq<char>),
    StdoutClosed,
    StderrClosed,
    Exited { success: bool },
    CancelRequested,
}

impl View for SupervisorEvent {
    type V = EventView;

    open spec fn view(&self) -> EventView {
        match self {
            SupervisorEvent::StdoutLine(line) => EventView::StdoutLine(line@),
            SupervisorEvent::StderrLine(line) => EventView::StderrLine(line@),
            SupervisorEvent::StdoutClosed => EventView::StdoutClosed,
            SupervisorEvent::StderrClosed => EventView::StderrClosed,
            SupervisorEvent::Exited { success } => EventView::Exited { success: *success },
            SupervisorEvent::CancelRequested => EventView::CancelRequested,
        }
    }
}

/// What is to be done after an event.
#[derive(Debug, PartialEq)]
pub struct SupervisorAction {
    /// Whether the process is to be killed.
    pub kill: bool,
    /// The update to send, if any.
    pub emit: Option<EncodeStatusUpdate>,
}

/// An action over the view of its update.
pub struct ActionView {
    pub kill: bool,
    pub emit: Option<UpdateView>,
}

impl View for SupervisorAction {
    type V = ActionView;

    open spec fn view(&self) -> ActionView {
        ActionView {
            kill: self.kill,
            emit: match self.emit {
                Some(update) => Some(update@),
                None => None,
            },
        }
    }
}

/// What the supervisor knows of its process.
pub struct SupervisorView {
    /// Whether the output stream has not ended yet.
    pub stdout_open: bool,
    /// Whether the error stream has not ended yet.
    pub stderr_open: bool,
    /// Whether the process has exited, and with success.
    pub exit: Option<bool>,
    /// Whether the terminal update has been sent.
    pub done: bool,
    /// The lines of the error stream so far.
    pub diagnostics: Seq<Seq<char>>,
}

/// To do nothing.
pub open spec fn nothing() -> ActionView {
    ActionView { kill: false, emit: None }
}

/// Ends the job if the process has exited and both streams have ended.
pub open spec fn settle(state: SupervisorView) -> (SupervisorView, ActionView) {
    if !state.stdout_open && !state.stderr_open && state.exit is Some {
        (
            SupervisorView { done: true, diagnostics: Seq::empty(), ..state },
            ActionView {
                kill: false,
                emit: Some(
                    if state.exit == Some(true) {
                        UpdateView::Finished
                    } else {
                        UpdateView::Error(state.diagnostics)
                    },
                ),
            },
        )
    } else {
        (state, nothing())
    }
}

/// The state after an event, and what is to be done.
///
/// - Once the job has ended, nothing changes and nothing is done.
/// - A line of output is parsed and sent as progress.
/// - A line of the error stream is kept.
/// - The end of a stream and the exit of the process are noted, and end the
///   job once all three have happened.
/// - A request to cancel ends the job at once; the process is killed if it
///   has not exited yet.
pub open spec fn next(state: SupervisorView, event: EventView) -> (SupervisorView, ActionView) {
    if state.done {
        (state, nothing())
    } else {
        match event {
            EventView::StdoutLine(line) => (
                state,
                ActionView { kill: false, emit: Some(UpdateView::Progress(line_progress(line))) },
            ),
            EventView::StderrLine(line) => (
                SupervisorView { diagnostics: state.diagnostics.push(line), ..state },
                nothing(),
            ),
            EventView::StdoutClosed => settle(SupervisorView { stdout_open: false, ..state }),
            EventView::StderrClosed => settle(SupervisorView { stderr_open: false, ..state }),
            EventView::Exited { success } => settle(
                SupervisorView { exit: Some(success), ..state },
            ),
            EventView::CancelRequested => (
                SupervisorView { done: true, diagnostics: Seq::empty(), ..state },
                ActionView { kill: state.exit is None, emit: Some(UpdateView::Cancelled) },
            ),
        }
    }
}

/// The updates sent while `events` happen one after the other.
pub open spec fn updates(state: SupervisorView, events: Seq<EventView>) -> Seq<UpdateView>
    decreases events.len(),
{
    if events.len() == 0 {
        Seq::empty()
    } else {
        let (after, action) = next(state, events[0]);
        let rest = updates(after, events.drop_first());
        match action.emit {
            Some(update) => seq![update] + rest,
            None => rest,
        }
    }
}

/// The state after `events` have happened one after the other.
pub open spec fn state_after(state: SupervisorView, events: Seq<EventView>) -> SupervisorView
    decreases events.len(),
{
    if events.len() == 0 {
        state
    } else {
        state_after(next(state, events[0]).0, events.drop_first())
    }
}

/// A terminal update is sent exactly when the job ends.
pub proof fn lemma_terminal_ends_job(state: SupervisorView, event: EventView)
    ensures
        ({
            let (after, action) = next(state, event);
            &&& (action.emit matches Some(update) && is_terminal(update)) <==> (!state.done
                && after.done)
            &&& state.done ==> after == state && action == nothing()
            &&& action.emit == Some(UpdateView::Finished) ==> !after.stdout_open
                && !after.stderr_open && after.exit == Some(true)
            &&& action.emit matches Some(UpdateView::Error(lines)) ==> !after.stdout_open
                && !after.stderr_open && after.exit == Some(false) && lines == state.diagnostics
        }),
{
}

/// After the job has ended, no update is sent.
pub proof fn lemma_silent_when_done(state: SupervisorView, events: Seq<EventView>)
    requires
        state.done,
    ensures
        updates(state, events) == Seq::<UpdateView>::empty(),
        state_after(state, events) == state,
    decreases events.len(),
{
    if events.len() > 0 {
        lemma_silent_when_done(state, events.drop_first());
    }
}

/// Whatever happens, at most one terminal update is sent, and it is the last
/// update: every update before the last is progress, and the last is
/// terminal exactly where the job has ended.
pub proof fn lemma_one_terminal_update(state: SupervisorView, events: Seq<EventView>)
    requires
        !state.done,
    ensures
        ({
            let sent = updates(state, events);
            &&& forall|i: int| 0 <= i < sent.len() - 1 ==> !is_terminal(#[trigger] sent[i])
            &&& state_after(state, events).done <==> sent.len() > 0 && is_terminal(sent.last())
        }),
    decreases events.len(),
{
    if events.len() > 0 {
        let (after, action) = next(state, events[0]);
        let rest = updates(after, events.drop_first());
        lemma_terminal_ends_job(state, events[0]);
        if after.done {
            lemma_silent_when_done(after, events.drop_first());
        } else {
            lemma_one_terminal_update(after, events.drop_first());
            let sent = updates(state, events);
            match action.emit {
                Some(update) => {
                    assert forall|i: int| 0 <= i < sent.len() - 1 implies !is_terminal(
                        #[trigger] sent[i],
                    ) by {
                        if i > 0 {
                            assert(sent[i] == rest[i - 1]);
                        }
                    }
                    if rest.len() > 0 {
                        assert(sent.last() == rest.last());
                    }
                },
                None => {},
            }
        }
    }
}

/// The supervisor of one encoder process.
#[derive(Debug)]
pub struct Supervisor {
    stdout_open: bool,
    stderr_open: bool,
    exit: Option<bool>,
    done: bool,
    diagnostics: Vec<String>,
}

impl View for Supervisor {
    type V = SupervisorView;

    closed spec fn view(&self) -> SupervisorView {
        SupervisorView {
            stdout_open: self.stdout_open,
            stderr_open: self.stderr_open,
            exit: self.exit,
            done: self.done,
            diagnostics: self.diagnostics.deep_view(),
        }
    }
}

/// The supervisor of a process that has just been started.
pub open spec fn started() -> SupervisorView {
    SupervisorView {
        stdout_open: true,
        stderr_open: true,
        exit: None,
        done: false,
        diagnostics: Seq::empty(),
    }
}

impl Supervisor {
    /// The supervisor of a process that has just been started: both streams
    /// are open, and nothing was read yet.
    pub fn new() -> (supervisor: Supervisor)
        ensures
            supervisor@ == started(),
    {
        let supervisor = Supervisor {
            stdout_open: true,
            stderr_open: true,
            exit: None,
            done: false,
            diagnostics: Vec::new(),
        };
        proof {
            assert(supervisor.diagnostics.deep_view() =~= Seq::<Seq<char>>::empty());
        }
        supervisor
    }

    /// Whether the terminal update has been sent.
    pub fn is_done(&self) -> (done: bool)
        ensures
            done == self@.done,
    {
        self.done
    }

    /// Ends the job if the process has exited and both streams have ended.
    fn settle(&mut self) -> (action: SupervisorAction)
        requires
            !old(self)@.done,
        ensures
            (final(self)@, action@) == settle(old(self)@),
    {
        if !self.stdout_open && !self.stderr_open && self.exit.is_some() {
            let mut lines: Vec<String> = Vec::new();
            std::mem::swap(&mut lines, &mut self.diagnostics);
            self.done = true;
            proof {
                assert(self.diagnostics.deep_view() =~= Seq::<Seq<char>>::empty());
            }
            let update = match self.exit {
                Some(true) => EncodeStatusUpdate::Finished,
                _ => EncodeStatusUpdate::Error(lines),
            };
            SupervisorAction { kill: false, emit: Some(update) }
        } else {
            SupervisorAction { kill: false, emit: None }
        }
    }

    /// Takes note of an event and says what is to be done.
    pub fn step(&mut self, event: SupervisorEvent) -> (action: SupervisorAction)
        ensures
            (final(self)@, action@) == next(old(self)@, event@),
    {
        if self.done {
            return SupervisorAction { kill: false, emit: None };
        }
        match event {
            SupervisorEvent::StdoutLine(line) => {
                let progress = parse_progress(line.as_str());
                SupervisorAction { kill: false, emit: Some(EncodeStatusUpdate::Progress(progress)) }
            },
            SupervisorEvent::StderrLine(line) => {
                let ghost before = self.diagnostics.deep_view();
                let ghost text = line@;
                self.diagnostics.push(line);
                proof {
                    assert(self.diagnostics.deep_view() =~= before.push(text));
                }
                SupervisorAction { kill: false, emit: None }
            },
            SupervisorEvent::StdoutClosed => {
                self.stdout_open = false;
                self.settle()
            },
            SupervisorEvent::StderrClosed => {
                self.stderr_open = false;
                self.settle()
            },
            SupervisorEvent::Exited { success } => {
                self.exit = Some(success);
                self.settle()
            },
            SupervisorEvent::CancelRequested => {
                self.done = true;
                self.diagnostics = Vec::new();
                proof {
                    assert(self.diagnostics.deep_view() =~= Seq::<Seq<char>>::empty());
                }
                SupervisorAction {
                    kill: self.exit.is_none(),
                    emit: Some(EncodeStatusUpdate::Cancelled),
                }
            },
        }
    }
}

} // verus!
