//! The job driver: the decisions of the page and row loop, as a state
//! machine that is told what was read and whether the job was cancelled,
//! and answers with the bytes to send and what to read next.
use vstd::prelude::*;
use crate::halftone::halftone;
use crate::ppd::{OptionModel, PpdFile};
use crate::text::push_bytes;
use crate::tspl::{
    end_page, output_line, page_end_text, page_start, setup, start_page, JobError, JobErrorModel,
    PageHeader, BEEPRT,
};

verus! {

/// Where the job stands.
#[derive(Clone, Copy)]
pub enum Phase {
    /// Waiting for the next page header.
    AwaitingHeader,
    /// Inside a page, waiting for row `row`.
    InPage { header: PageHeader, row: u32 },
    /// The job is over.
    Stopped,
}

/// What the driver was told.
pub enum Event {
    /// A page header was read.
    Header(PageHeader),
    /// The raster input has no more pages.
    EndOfStream,
    /// A row of pixel data was read.
    Row(Vec<u8>),
    /// The page has no more rows.
    RowsExhausted,
}

/// A progress report for the diagnostic channel.
#[derive(Clone, Copy, Debug, PartialEq, Eq, Structural)]
pub struct Progress {
    pub page: u64,
    pub percent: u32,
}

/// What the driver asks for next.
pub enum Request {
    ReadHeader,
    ReadRow,
    Finish(Result<(), JobError>),
}

pub ghost enum RequestModel {
    ReadHeader,
    ReadRow,
    Finish(Result<(), JobErrorModel>),
}

impl View for Request {
    type V = RequestModel;

    open spec fn view(&self) -> RequestModel {
        match self {
            Request::ReadHeader => RequestModel::ReadHeader,
            Request::ReadRow => RequestModel::ReadRow,
            Request::Finish(Ok(())) => RequestModel::Finish(Ok(())),
            Request::Finish(Err(e)) => RequestModel::Finish(Err(e@)),
        }
    }
}

/// What one step hands back: bytes for the printer, perhaps a progress
/// report, and the next request.
pub struct Step {
    pub output: Vec<u8>,
    pub progress: Option<Progress>,
    pub request: Request,
}

/// The state of a job: its phase and how many pages were begun and
/// completed.
pub struct Job {
    pub phase: Phase,
    pub pages_started: u64,
    pub pages_completed: u64,
}

/// The mathematical form of a step: the job after it and what it hands
/// back.
pub ghost struct Transition {
    pub phase: Phase,
    pub started: u64,
    pub completed: u64,
    pub output: Seq<u8>,
    pub progress: Option<Progress>,
    pub request: RequestModel,
}

/// How a job ends once it stops: successfully where at least one page was
/// completed, with `ZeroPages` otherwise.
pub open spec fn stop_result(completed: u64) -> Result<(), JobErrorModel> {
    if completed > 0 {
        Ok(())
    } else {
        Err(JobErrorModel::ZeroPages)
    }
}

pub open spec fn count_up(n: u64) -> u64 {
    if n < u64::MAX {
        (n + 1) as u64
    } else {
        n
    }
}

/// Stopping without sending anything more.
pub open spec fn stop(started: u64, completed: u64) -> Transition {
    Transition {
        phase: Phase::Stopped,
        started,
        completed,
        output: Seq::empty(),
        progress: None,
        request: RequestModel::Finish(stop_result(completed)),
    }
}

/// Failing with `e`.
pub open spec fn fail(started: u64, completed: u64, e: JobErrorModel) -> Transition {
    Transition {
        phase: Phase::Stopped,
        started,
        completed,
        output: Seq::empty(),
        progress: None,
        request: RequestModel::Finish(Err(e)),
    }
}

/// Ending a page: the page is printed and counted, then the job stops if
/// it was cancelled and asks for the next header otherwise.
pub open spec fn end_of_page(model: i32, started: u64, completed: u64, cancelled: bool) -> Transition {
    if model != BEEPRT {
        fail(started, completed, JobErrorModel::UnsupportedModel(model))
    } else if cancelled {
        Transition {
            output: page_end_text(),
            ..stop(started, count_up(completed))
        }
    } else {
        Transition {
            phase: Phase::AwaitingHeader,
            started,
            completed: count_up(completed),
            output: page_end_text(),
            progress: None,
            request: RequestModel::ReadHeader,
        }
    }
}

/// The progress report before row `row` of a page of `height` rows: one
/// every sixteen rows, from the first.
pub open spec fn progress_at(page: u64, row: int, height: int) -> Option<Progress> {
    if row % 16 == 0 {
        Some(Progress { page, percent: (100 * row / height) as u32 })
    } else {
        None
    }
}

/// The decision before row `row` of a page: past the last row the page
/// ends; a cancelled job stops there, leaving the page unprinted;
/// otherwise the row is asked for.
pub open spec fn at_row(
    model: i32,
    h: PageHeader,
    row: int,
    started: u64,
    completed: u64,
    cancelled: bool,
) -> Transition {
    if row >= h.height {
        end_of_page(model, started, completed, cancelled)
    } else if cancelled {
        stop(started, completed)
    } else {
        Transition {
            phase: Phase::InPage { header: h, row: row as u32 },
            started,
            completed,
            output: Seq::empty(),
            progress: progress_at(started, row, h.height as int),
            request: RequestModel::ReadRow,
        }
    }
}

/// Bytes sent before a decision.
pub open spec fn after(out: Seq<u8>, t: Transition) -> Transition {
    Transition { output: out + t.output, ..t }
}

/// One step of the job.
pub open spec fn transition(
    model: i32,
    opts: Seq<OptionModel>,
    phase: Phase,
    started: u64,
    completed: u64,
    event: Event,
    cancelled: bool,
) -> Transition {
    let unchanged = Transition {
        phase,
        started,
        completed,
        output: Seq::empty(),
        progress: None,
        request: RequestModel::ReadHeader,
    };
    match phase {
        Phase::Stopped => stop(started, completed),
        Phase::AwaitingHeader => match event {
            Event::EndOfStream => stop(started, completed),
            Event::Header(h) => if cancelled {
                stop(started, completed)
            } else {
                match page_start(model, opts, h) {
                    Err(e) => fail(count_up(started), completed, e),
                    Ok(text) => after(
                        text,
                        at_row(model, h, 0, count_up(started), completed, cancelled),
                    ),
                }
            },
            _ => unchanged,
        },
        Phase::InPage { header, row } => match event {
            Event::Row(bytes) => if model != BEEPRT {
                fail(started, completed, JobErrorModel::UnsupportedModel(model))
            } else {
                after(
                    halftone(bytes@),
                    at_row(model, header, row + 1, started, completed, cancelled),
                )
            },
            Event::RowsExhausted => end_of_page(model, started, completed, cancelled),
            _ => Transition { request: RequestModel::ReadRow, ..unchanged },
        },
    }
}

impl Job {
    /// Starts a job for the device description: fails unless it names the
    /// supported model.
    pub fn new(ppd: &PpdFile) -> (r: Result<Job, JobError>)
        ensures
            ppd.model_number == BEEPRT ==> r is Ok && r->Ok_0.phase == Phase::AwaitingHeader
                && r->Ok_0.pages_started == 0 && r->Ok_0.pages_completed == 0,
            ppd.model_number != BEEPRT ==> r is Err && r->Err_0@ == JobErrorModel::UnsupportedModel(
                ppd.model_number,
            ),
    {
        match setup(ppd) {
            Ok(()) => Ok(Job { phase: Phase::AwaitingHeader, pages_started: 0, pages_completed: 0 }),
            Err(e) => Err(e),
        }
    }

    fn stop_now(&mut self) -> (r: Step)
        ensures
            final(self).phase == Phase::Stopped,
            final(self).pages_started == old(self).pages_started,
            final(self).pages_completed == old(self).pages_completed,
            r.output@ == Seq::<u8>::empty(),
            r.progress is None,
            r.request@ == RequestModel::Finish(stop_result(old(self).pages_completed)),
    {
        self.phase = Phase::Stopped;
        let result = if self.pages_completed > 0 {
            Ok(())
        } else {
            Err(JobError::ZeroPages)
        };
        Step { output: Vec::new(), progress: None, request: Request::Finish(result) }
    }

    fn fail_now(&mut self, e: JobError) -> (r: Step)
        ensures
            final(self).phase == Phase::Stopped,
            final(self).pages_started == old(self).pages_started,
            final(self).pages_completed == old(self).pages_completed,
            r.output@ == Seq::<u8>::empty(),
            r.progress is None,
            r.request@ == RequestModel::Finish(Err(e@)),
    {
        self.phase = Phase::Stopped;
        Step { output: Vec::new(), progress: None, request: Request::Finish(Err(e)) }
    }

    fn finish_page(&mut self, ppd: &PpdFile, header: &PageHeader, cancelled: bool) -> (r: Step)
        ensures
            ({
                let t = end_of_page(
                    ppd.model_number,
                    old(self).pages_started,
                    old(self).pages_completed,
                    cancelled,
                );
                final(self).phase == t.phase && final(self).pages_started == t.started
                    && final(self).pages_completed == t.completed && r.output@ == t.output
                    && r.progress == t.progress && r.request@ == t.request
            }),
    {
        match end_page(ppd, header) {
            Err(e) => self.fail_now(e),
            Ok(text) => {
                if self.pages_completed < u64::MAX {
                    self.pages_completed = self.pages_completed + 1;
                }
                if cancelled {
                    let s = self.stop_now();
                    Step { output: text, progress: s.progress, request: s.request }
                } else {
                    self.phase = Phase::AwaitingHeader;
                    Step { output: text, progress: None, request: Request::ReadHeader }
                }
            },
        }
    }

    fn decide_row(&mut self, ppd: &PpdFile, header: &PageHeader, row: u64, cancelled: bool) -> (r: Step)
        ensures
            ({
                let t = at_row(
                    ppd.model_number,
                    *header,
                    row as int,
                    old(self).pages_started,
                    old(self).pages_completed,
                    cancelled,
                );
                final(self).phase == t.phase && final(self).pages_started == t.started
                    && final(self).pages_completed == t.completed && r.output@ == t.output
                    && r.progress == t.progress && r.request@ == t.request
            }),
    {
        if row >= header.height as u64 {
            self.finish_page(ppd, header, cancelled)
        } else if cancelled {
            self.stop_now()
        } else {
            self.phase = Phase::InPage { header: *header, row: row as u32 };
            let progress = if row % 16 == 0 {
                Some(
                    Progress { page: self.pages_started, percent: (100 * row / header.height as u64) as u32 },
                )
            } else {
                None
            };
            Step { output: Vec::new(), progress, request: Request::ReadRow }
        }
    }

    /// Takes one event of the job: what was read, and whether termination
    /// was requested since the last step.
    pub fn handle(&mut self, ppd: &PpdFile, event: Event, cancelled: bool) -> (r: Step)
        ensures
            ({
                let t = transition(
                    ppd.model_number,
                    ppd.options_view(),
                    old(self).phase,
                    old(self).pages_started,
                    old(self).pages_completed,
                    event,
                    cancelled,
                );
                final(self).phase == t.phase && final(self).pages_started == t.started
                    && final(self).pages_completed == t.completed && r.output@ == t.output
                    && r.progress == t.progress && r.request@ == t.request
            }),
    {
        match self.phase {
            Phase::Stopped => self.stop_now(),
            Phase::AwaitingHeader => match event {
                Event::EndOfStream => self.stop_now(),
                Event::Header(h) => {
                    if cancelled {
                        return self.stop_now();
                    }
                    if self.pages_started < u64::MAX {
                        self.pages_started = self.pages_started + 1;
                    }
                    match start_page(ppd, &h) {
                        Err(e) => self.fail_now(e),
                        Ok(text) => {
                            let s = self.decide_row(ppd, &h, 0, cancelled);
                            let mut out = text;
                            push_bytes(&mut out, s.output.as_slice());
                            Step { output: out, progress: s.progress, request: s.request }
                        },
                    }
                },
                _ => Step { output: Vec::new(), progress: None, request: Request::ReadHeader },
            },
            Phase::InPage { header, row } => match event {
                Event::Row(bytes) => match output_line(ppd, &header, row, bytes.as_slice()) {
                    Err(e) => self.fail_now(e),
                    Ok(line) => {
                        let s = self.decide_row(ppd, &header, row as u64 + 1, cancelled);
                        let mut out = line;
                        push_bytes(&mut out, s.output.as_slice());
                        Step { output: out, progress: s.progress, request: s.request }
                    },
                },
                Event::RowsExhausted => self.finish_page(ppd, &header, cancelled),
                _ => Step { output: Vec::new(), progress: None, request: Request::ReadRow },
            },
        }
    }
}

} // verus!
