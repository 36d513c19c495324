//! The encoders: what an encode is made with, and where it stands.
//!
//! Each encoder holds the parameters that it knows, in the order in which
//! they were given, and the job that it runs as. All of them can be asked
//! the same things, through `Encoder`.

use crate::argument::{argument_views, Argument};
use crate::lifecycle::{
    after_update, detected, stats_of, EncodeJob, Encoder, EncodingResult, EncodingStatus, JobStats,
    JobView, PauseError, ResumeError, StartError, StatusView,
};
use crate::params::{in_mainline, parameter_arguments, to_arguments, Param, ParamKind};
use crate::supervisor::EncodeStatusUpdate;
use crate::time::TimeSpan;
use vstd::prelude::*;

verus! {

/// A parameter that the encoder does not know.
#[derive(Clone, Copy, Debug, PartialEq, Eq, Structural, Hash)]
pub struct UnknownParam(pub ParamKind);

/// An encode with SVT-AV1: its parameters, in the order in which they were
/// given, and where it stands.
pub struct SvtAV1 {
    params: Vec<Param>,
    job: EncodeJob,
}

impl View for SvtAV1 {
    type V = Seq<Param>;

    /// The parameters.
    closed spec fn view(&self) -> Seq<Param> {
        self.params@
    }
}

impl SvtAV1 {
    /// Whether the encode is what every encode made by `new` and changed by
    /// the functions of this type is: its job is well formed, and each of
    /// its parameters is of a kind that SVT-AV1 itself knows.
    pub closed spec fn wf(&self) -> bool {
        &&& self.job.wf()
        &&& forall|i: int|
            0 <= i < self.params@.len() ==> in_mainline((#[trigger] self.params@[i])@.0)
    }

    /// An encode without parameters that waits for its start.
    pub fn new() -> (encoder: SvtAV1)
        ensures
            encoder.wf(),
            encoder@ == Seq::<Param>::empty(),
            encoder.job() == detected(),
    {
        SvtAV1 { params: Vec::new(), job: EncodeJob::new() }
    }

    /// This encode with `param` after its other parameters, unless `param`
    /// is of a kind that only the PSY fork knows.
    pub fn with(self, param: Param) -> (r: Result<SvtAV1, UnknownParam>)
        requires
            self.wf(),
        ensures
            match r {
                Ok(encoder) => {
                    &&& in_mainline(param@.0)
                    &&& encoder.wf()
                    &&& encoder@ == self@.push(param)
                    &&& encoder.job() == self.job()
                },
                Err(e) => !in_mainline(param@.0) && e == UnknownParam(param@.0),
            },
    {
        if param.kind().is_mainline() {
            let mut params = self.params;
            params.push(param);
            Ok(SvtAV1 { params, job: self.job })
        } else {
            Err(UnknownParam(param.kind()))
        }
    }

    /// The parameters, in the order in which they were given; each is of a
    /// kind that SVT-AV1 itself knows.
    pub fn params(&self) -> (params: &Vec<Param>)
        requires
            self.wf(),
        ensures
            params@ == self@,
            forall|i: int| 0 <= i < self@.len() ==> in_mainline((#[trigger] self@[i])@.0),
    {
        &self.params
    }

    /// The parameters as arguments of a command.
    pub fn arguments(&self) -> (args: Vec<Argument>)
        ensures
            argument_views(args@) == parameter_arguments(self@),
    {
        to_arguments(&self.params)
    }

    /// Takes note of an update that the encode's supervisor sent at `now`.
    pub fn on_update(&mut self, update: EncodeStatusUpdate, now: TimeSpan)
        requires
            old(self).wf(),
            now@ >= old(self).job().latest,
        ensures
            final(self).wf(),
            final(self)@ == old(self)@,
            final(self).job() == after_update(old(self).job(), update@, now@),
    {
        self.job.on_update(update, now);
    }

    /// The latest time that the encode was told.
    pub fn latest(&self) -> (at: TimeSpan)
        ensures
            at@ == self.job().latest,
    {
        self.job.latest()
    }

    /// How the encode ended, if it has.
    pub fn result(&self) -> (result: Option<EncodingResult>)
        ensures
            result == match self.job().status {
                StatusView::Completed => Some(EncodingResult::Completed),
                StatusView::Failed(_) => Some(EncodingResult::Errored),
                _ => None,
            },
    {
        self.job.result()
    }

    /// What the encode tells of itself once it has completed.
    pub fn stats(&self) -> (stats: Option<JobStats>)
        requires
            self.wf(),
        ensures
            stats == stats_of(self.job()),
    {
        self.job.stats()
    }
}

impl Encoder for SvtAV1 {
    closed spec fn job(&self) -> JobView {
        self.job@
    }

    open spec fn ready(&self) -> bool {
        self.wf()
    }

    fn status(&self) -> (status: &EncodingStatus) {
        self.job.status()
    }

    fn start(&mut self, now: TimeSpan) -> (r: Result<(), StartError>)
        ensures
            final(self)@ == old(self)@,
    {
        self.job.start(now)
    }

    fn pause(&mut self, now: TimeSpan) -> (r: Result<(), PauseError>)
        ensures
            final(self)@ == old(self)@,
    {
        self.job.pause(now)
    }

    fn resume(&mut self, now: TimeSpan) -> (r: Result<(), ResumeError>)
        ensures
            final(self)@ == old(self)@,
    {
        self.job.resume(now)
    }
}

/// An encode with the PSY fork of SVT-AV1: its parameters, in the order in
/// which they were given, and where it stands.
pub struct SvtAV1Psy {
    params: Vec<Param>,
    job: EncodeJob,
}

impl View for SvtAV1Psy {
    type V = Seq<Param>;

    /// The parameters.
    closed spec fn view(&self) -> Seq<Param> {
        self.params@
    }
}

impl SvtAV1Psy {
    /// Whether the encode is what every encode made by `new` and changed by
    /// the functions of this type is: its job is well formed.
    pub closed spec fn wf(&self) -> bool {
        &&& self.job.wf()
    }

    /// An encode without parameters that waits for its start.
    pub fn new() -> (encoder: SvtAV1Psy)
        ensures
            encoder.wf(),
            encoder@ == Seq::<Param>::empty(),
            encoder.job() == detected(),
    {
        SvtAV1Psy { params: Vec::new(), job: EncodeJob::new() }
    }

    /// This encode with `param` after its other parameters.
    pub fn with(self, param: Param) -> (encoder: SvtAV1Psy)
        requires
            self.wf(),
        ensures
            encoder.wf(),
            encoder@ == self@.push(param),
            encoder.job() == self.job(),
    {
        let mut params = self.params;
        params.push(param);
        SvtAV1Psy { params, job: self.job }
    }

    /// The parameters, in the order in which they were given.
    pub fn params(&self) -> (params: &Vec<Param>)
        ensures
            params@ == self@,
    {
        &self.params
    }

    /// The parameters as arguments of a command.
    pub fn arguments(&self) -> (args: Vec<Argument>)
        ensures
            argument_views(args@) == parameter_arguments(self@),
    {
        to_arguments(&self.params)
    }

    /// Takes note of an update that the encode's supervisor sent at `now`.
    pub fn on_update(&mut self, update: EncodeStatusUpdate, now: TimeSpan)
        requires
            old(self).wf(),
            now@ >= old(self).job().latest,
        ensures
            final(self).wf(),
            final(self)@ == old(self)@,
            final(self).job() == after_update(old(self).job(), update@, now@),
    {
        self.job.on_update(update, now);
    }

    /// The latest time that the encode was told.
    pub fn latest(&self) -> (at: TimeSpan)
        ensures
            at@ == self.job().latest,
    {
        self.job.latest()
    }

    /// How the encode ended, if it has.
    pub fn result(&self) -> (result: Option<EncodingResult>)
        ensures
            result == match self.job().status {
                StatusView::Completed => Some(EncodingResult::Completed),
                StatusView::Failed(_) => Some(EncodingResult::Errored),
                _ => None,
            },
    {
        self.job.result()
    }

    /// What the encode tells of itself once it has completed.
    pub fn stats(&self) -> (stats: Option<JobStats>)
        requires
            self.wf(),
        ensures
            stats == stats_of(self.job()),
    {
        self.job.stats()
    }
}

impl Encoder for SvtAV1Psy {
    closed spec fn job(&self) -> JobView {
        self.job@
    }

    open spec fn ready(&self) -> bool {
        self.wf()
    }

    fn status(&self) -> (status: &EncodingStatus) {
        self.job.status()
    }

    fn start(&mut self, now: TimeSpan) -> (r: Result<(), StartError>)
        ensures
            final(self)@ == old(self)@,
    {
        self.job.start(now)
    }

    fn pause(&mut self, now: TimeSpan) -> (r: Result<(), PauseError>)
        ensures
            final(self)@ == old(self)@,
    {
        self.job.pause(now)
    }

    fn resume(&mut self, now: TimeSpan) -> (r: Result<(), ResumeError>)
        ensures
            final(self)@ == old(self)@,
    {
        self.job.resume(now)
    }
}

} // verus!
