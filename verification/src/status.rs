//! The states of a job and the values that clients and workers exchange.

use vstd::prelude::*;
use crate::command::CommandLine;
use crate::fd_table::FdTable;
use crate::fd_table::Streams;

verus! {

/// How a process ended.
#[derive(Clone, Copy, Debug, PartialEq, Eq, Structural)]
pub enum ExitStatus {
    Success,
    Failure { error_code: i8 },
}

/// A job that a worker holds: still running, or ended.
#[derive(Debug)]
pub enum RunStatus<Running> {
    Running(Running),
    Stopped { status: ExitStatus },
}

/// The life cycle of a job as a client sees it.
#[derive(Debug)]
pub enum JobStatus<Running> {
    Waiting,
    Lost,
    Run(RunStatus<Running>),
}

/// A request that reaches a running job outside its streams.
#[derive(Clone, Copy, Debug, PartialEq, Eq, Structural)]
pub enum Signal {
    Kill,
}

/// Stream bytes that a job has freshly produced.
#[derive(Debug)]
pub struct Output {
    pub output: FdTable,
}

impl View for Output {
    type V = Streams;

    open spec fn view(&self) -> Streams {
        self.output@
    }
}

/// The one instruction that a worker receives in answer to a report.
#[derive(Debug)]
pub enum Interaction {
    Input(FdTable),
    Signal(Vec<Signal>),
}

/// The mathematical content of an [`Interaction`].
pub enum InteractionView {
    Input(Streams),
    Signal(Seq<Signal>),
}

impl View for Interaction {
    type V = InteractionView;

    open spec fn view(&self) -> InteractionView {
        match self {
            Interaction::Input(table) => InteractionView::Input(table@),
            Interaction::Signal(signals) => InteractionView::Signal(signals@),
        }
    }
}

impl Interaction {
    /// The table that the instruction carries, if any, is well formed.
    pub open spec fn wf(&self) -> bool {
        match self {
            Interaction::Input(table) => table.wf(),
            Interaction::Signal(_) => true,
        }
    }
}

impl View for RunStatus<Output> {
    type V = RunStatus<Streams>;

    open spec fn view(&self) -> RunStatus<Streams> {
        match self {
            RunStatus::Running(output) => RunStatus::Running(output@),
            RunStatus::Stopped { status } => RunStatus::Stopped { status: *status },
        }
    }
}

impl RunStatus<Output> {
    /// The output that the status carries, if any, is well formed.
    pub open spec fn wf(&self) -> bool {
        match self {
            RunStatus::Running(output) => output.output.wf(),
            RunStatus::Stopped { .. } => true,
        }
    }
}

impl View for JobStatus<Output> {
    type V = JobStatus<Streams>;

    open spec fn view(&self) -> JobStatus<Streams> {
        match self {
            JobStatus::Waiting => JobStatus::Waiting,
            JobStatus::Lost => JobStatus::Lost,
            JobStatus::Run(run) => JobStatus::Run(run@),
        }
    }
}

impl JobStatus<Output> {
    /// The output that the status carries, if any, is well formed.
    pub open spec fn wf(&self) -> bool {
        match self {
            JobStatus::Run(run) => run.wf(),
            _ => true,
        }
    }
}

/// The mathematical content of the answer to a report.
pub open spec fn answer_view(next: Option<Interaction>) -> Option<InteractionView> {
    match next {
        Some(interaction) => Some(interaction@),
        None => None,
    }
}

/// A job handed to one worker: what to run, and the handle to report on it.
#[derive(Debug)]
pub struct Query<Run> {
    pub command_line: CommandLine,
    pub run: Run,
}

} // verus!
