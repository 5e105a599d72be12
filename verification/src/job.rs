//! The record of one job and the transitions that clients and workers apply to it.

use vstd::prelude::*;
use crate::command::CommandLine;
use crate::command::CommandLineView;
use crate::fd_table::all_empty;
use crate::fd_table::appended;
use crate::fd_table::drained;
use crate::fd_table::FdTable;
use crate::fd_table::Streams;
use crate::status::ExitStatus;
use crate::status::Interaction;
use crate::status::answer_view;
use crate::status::InteractionView;
use crate::status::JobStatus;
use crate::status::Output;
use crate::status::RunStatus;
use crate::status::Signal;

verus! {

/// The mathematical content of a job record.
pub struct JobView {
    pub command_line: CommandLineView,
    pub status: JobStatus<()>,
    pub input: Streams,
    pub output: Streams,
    pub cancelled: bool,
    pub signals: Seq<Signal>,
}

/// The record of a job that was just submitted: waiting, with an empty input
/// stream 0, empty output streams 1 and 2, and nothing asked of it.
pub open spec fn fresh_job(command_line: CommandLineView) -> JobView {
    JobView {
        command_line,
        status: JobStatus::Waiting,
        input: Map::<i32, Seq<u8>>::empty().insert(0, Seq::<u8>::empty()),
        output: Map::<i32, Seq<u8>>::empty().insert(1, Seq::<u8>::empty()).insert(2, Seq::<u8>::empty()),
        cancelled: false,
        signals: Seq::<Signal>::empty(),
    }
}

/// Whether a worker is bound to `j` and has not reported its end.
pub open spec fn is_running(j: JobView) -> bool {
    j.status matches JobStatus::Run(RunStatus::Running(_))
}

/// Whether a watch on `j` hands out output rather than a bare status.
pub open spec fn watch_drains(j: JobView) -> bool {
    match j.status {
        JobStatus::Run(RunStatus::Running(_)) => true,
        JobStatus::Run(RunStatus::Stopped { .. }) => !all_empty(j.output),
        _ => false,
    }
}

/// What a watch on `j` tells the client.
pub open spec fn watch_reply(j: JobView) -> JobStatus<Streams> {
    match j.status {
        JobStatus::Waiting => JobStatus::Waiting,
        JobStatus::Lost => JobStatus::Lost,
        JobStatus::Run(RunStatus::Running(_)) => JobStatus::Run(RunStatus::Running(j.output)),
        JobStatus::Run(RunStatus::Stopped { status }) => if all_empty(j.output) {
            JobStatus::Run(RunStatus::Stopped { status })
        } else {
            JobStatus::Run(RunStatus::Running(j.output))
        },
    }
}

/// The record `j` after a watch that brought `input`.
pub open spec fn watch_next(j: JobView, input: Streams) -> JobView {
    JobView {
        status: if j.status is Lost { JobStatus::Waiting } else { j.status },
        input: appended(j.input, input),
        output: if watch_drains(j) { drained(j.output) } else { j.output },
        ..j
    }
}

/// What a report of `feedback` on `j` tells the worker. A worker whose job
/// is not running any more is told nothing, which ends its reporting.
pub open spec fn report_reply(j: JobView, feedback: RunStatus<Streams>) -> Option<InteractionView> {
    if !is_running(j) {
        None
    } else {
        match feedback {
            RunStatus::Stopped { .. } => None,
            RunStatus::Running(_) => if j.signals.len() > 0 {
                Some(InteractionView::Signal(j.signals))
            } else {
                Some(InteractionView::Input(j.input))
            },
        }
    }
}

/// The record `j` after a report of `feedback`. Only a running job takes a
/// report: a job that waits, is lost or has stopped stays as it is.
pub open spec fn report_next(j: JobView, feedback: RunStatus<Streams>) -> JobView {
    if !is_running(j) {
        j
    } else {
        match feedback {
            RunStatus::Stopped { status } => JobView {
                status: JobStatus::Run(RunStatus::Stopped { status }),
                ..j
            },
            RunStatus::Running(output) => if j.signals.len() > 0 {
                JobView { output: appended(j.output, output), signals: Seq::<Signal>::empty(), ..j }
            } else {
                JobView { output: appended(j.output, output), input: drained(j.input), ..j }
            },
        }
    }
}

/// The client's side of a job.
pub trait Job {
    /// The job is in a state that its operations can work on.
    spec fn valid(&self) -> bool;

    /// The job is valid and has a stream for everything that `input` brings.
    spec fn takes_input(&self, input: FdTable) -> bool;

    /// Hands `input` to the job and tells how the job is doing.
    fn watch(&mut self, input: FdTable) -> (status: JobStatus<Output>)
        requires
            old(self).takes_input(input),
    ;

    /// Leaves `signal` for the worker to collect.
    fn signal(&mut self, signal: Signal)
        requires
            old(self).valid(),
    ;

    /// Notes that the client wants the job cancelled.
    fn cancel(&mut self)
        requires
            old(self).valid(),
    ;
}

/// The worker's side of a job.
pub trait Run {
    /// The job is valid and has a stream for everything that `feedback` brings.
    spec fn takes_feedback(&self, feedback: RunStatus<Output>) -> bool;

    /// Hands the worker's news to the job and fetches the next instruction.
    fn report(&mut self, feedback: RunStatus<Output>) -> (next: Option<Interaction>)
        requires
            old(self).takes_feedback(feedback),
    ;
}

/// One submitted command line with its state, shared by client and worker.
#[derive(Debug)]
pub struct JobRecord {
    command_line: CommandLine,
    status: JobStatus<()>,
    input_fds: FdTable,
    output_fds: FdTable,
    cancelled: bool,
    signals: Vec<Signal>,
}

impl View for JobRecord {
    type V = JobView;

    closed spec fn view(&self) -> JobView {
        JobView {
            command_line: self.command_line@,
            status: self.status,
            input: self.input_fds@,
            output: self.output_fds@,
            cancelled: self.cancelled,
            signals: self.signals@,
        }
    }
}

impl JobRecord {
    /// Both stream tables are well formed.
    pub closed spec fn wf(&self) -> bool {
        self.input_fds.wf() && self.output_fds.wf()
    }

    /// The record of a job that was just submitted.
    pub fn new(command_line: CommandLine) -> (job: Self)
        ensures
            job.wf(),
            job@ == fresh_job(command_line@),
    {
        let mut input_fds = FdTable::new();
        let mut output_fds = FdTable::new();
        input_fds.add_empty(0);
        output_fds.add_empty(1);
        output_fds.add_empty(2);
        JobRecord {
            command_line,
            status: JobStatus::Waiting,
            input_fds,
            output_fds,
            cancelled: false,
            signals: Vec::new(),
        }
    }

    /// Binds a waiting job to a worker: it is running from now on.
    pub fn start(&mut self)
        requires
            old(self).wf(),
            old(self)@.status is Waiting,
        ensures
            final(self).wf(),
            final(self)@ == (JobView { status: JobStatus::Run(RunStatus::Running(())), ..old(self)@ }),
    {
        self.status = JobStatus::Run(RunStatus::Running(()));
    }

    /// Notes that the worker of a running job has disappeared. A job that is
    /// not running stays as it is.
    pub fn mark_lost(&mut self) -> (lost: bool)
        requires
            old(self).wf(),
        ensures
            final(self).wf(),
            lost == is_running(old(self)@),
            final(self)@ == (JobView {
                status: if lost { JobStatus::Lost } else { old(self)@.status },
                ..old(self)@
            }),
    {
        match self.status {
            JobStatus::Run(RunStatus::Running(())) => {
                self.status = JobStatus::Lost;
                true
            },
            _ => false,
        }
    }

    /// The command line that was submitted.
    pub fn command_line(&self) -> (c: &CommandLine)
        ensures
            c@ == self@.command_line,
    {
        &self.command_line
    }

    /// Whether the job has a stream for everything that `input` brings, so
    /// that a watch can take it.
    pub fn accepts_input(&self, input: &FdTable) -> (b: bool)
        requires
            self.wf(),
            input.wf(),
        ensures
            b == self.takes_input(*input),
    {
        self.input_fds.covers(input)
    }

    /// Whether the job has a stream for everything that `feedback` brings,
    /// so that a report can take it.
    pub fn accepts_feedback(&self, feedback: &RunStatus<Output>) -> (b: bool)
        requires
            self.wf(),
            feedback.wf(),
        ensures
            b == self.takes_feedback(*feedback),
    {
        match feedback {
            RunStatus::Running(output) => self.output_fds.covers(&output.output),
            RunStatus::Stopped { .. } => true,
        }
    }

    /// Where the job stands in its life cycle.
    pub fn status(&self) -> (s: &JobStatus<()>)
        ensures
            *s == self@.status,
    {
        &self.status
    }

    /// Whether the client asked for the job to be cancelled.
    pub fn is_cancelled(&self) -> (b: bool)
        ensures
            b == self@.cancelled,
    {
        self.cancelled
    }
}

impl Job for JobRecord {
    open spec fn valid(&self) -> bool {
        self.wf()
    }

    open spec fn takes_input(&self, input: FdTable) -> bool {
        self.wf() && input.wf() && input@.dom().subset_of(self@.input.dom())
    }

    fn watch(&mut self, input: FdTable) -> (status: JobStatus<Output>)
        ensures
            final(self).wf(),
            status.wf(),
            status@ == watch_reply(old(self)@),
            final(self)@ == watch_next(old(self)@, input@),
    {
        self.input_fds.append(input);
        match self.status {
            JobStatus::Run(RunStatus::Running(())) => {
                JobStatus::Run(RunStatus::Running(Output { output: self.output_fds.flush() }))
            },
            JobStatus::Run(RunStatus::Stopped { status }) => {
                if self.output_fds.is_empty() {
                    JobStatus::Run(RunStatus::Stopped { status })
                } else {
                    JobStatus::Run(RunStatus::Running(Output { output: self.output_fds.flush() }))
                }
            },
            JobStatus::Waiting => JobStatus::Waiting,
            JobStatus::Lost => {
                self.status = JobStatus::Waiting;
                JobStatus::Lost
            },
        }
    }

    fn signal(&mut self, signal: Signal)
        ensures
            final(self).wf(),
            final(self)@ == (JobView { signals: old(self)@.signals.push(signal), ..old(self)@ }),
    {
        self.signals.push(signal);
    }

    fn cancel(&mut self)
        ensures
            final(self).wf(),
            final(self)@ == (JobView { cancelled: true, ..old(self)@ }),
    {
        self.cancelled = true;
    }
}

impl Run for JobRecord {
    open spec fn takes_feedback(&self, feedback: RunStatus<Output>) -> bool {
        &&& self.wf()
        &&& feedback.wf()
        &&& feedback matches RunStatus::Running(output) ==> output@.dom().subset_of(self@.output.dom())
    }

    fn report(&mut self, feedback: RunStatus<Output>) -> (next: Option<Interaction>)
        ensures
            final(self).wf(),
            next matches Some(interaction) ==> interaction.wf(),
            answer_view(next) == report_reply(old(self)@, feedback@),
            final(self)@ == report_next(old(self)@, feedback@),
    {
        match self.status {
            JobStatus::Run(RunStatus::Running(())) => match feedback {
                RunStatus::Stopped { status } => {
                    self.status = JobStatus::Run(RunStatus::Stopped { status });
                    None
                },
                RunStatus::Running(output) => {
                    self.output_fds.append(output.output);
                    if self.signals.len() == 0 {
                        Some(Interaction::Input(self.input_fds.flush()))
                    } else {
                        let mut signals: Vec<Signal> = Vec::new();
                        std::mem::swap(&mut signals, &mut self.signals);
                        Some(Interaction::Signal(signals))
                    }
                },
            },
            _ => None,
        }
    }
}

/// The record `j` after one watch for each table of `inputs`, first to last.
pub open spec fn watched(j: JobView, inputs: Seq<Streams>) -> JobView
    decreases inputs.len(),
{
    if inputs.len() == 0 {
        j
    } else {
        watch_next(watched(j, inputs.drop_last()), inputs.last())
    }
}

/// A stopped job is reported as stopped only when no output is left: a watch
/// that finds output hands it out as running output and leaves the job
/// stopped and drained, and after any watch every further watch reports the
/// terminal status.
pub proof fn lemma_output_before_terminal(j: JobView, status: ExitStatus, inputs: Seq<Streams>)
    requires
        j.status == JobStatus::<()>::Run(RunStatus::Stopped { status }),
    ensures
        !all_empty(j.output) ==> watch_reply(j) == JobStatus::Run(RunStatus::Running(j.output)),
        all_empty(j.output) ==> watch_reply(j) == JobStatus::<Streams>::Run(RunStatus::Stopped { status }),
        watched(j, inputs).status == j.status,
        inputs.len() > 0 ==> all_empty(watched(j, inputs).output),
        inputs.len() > 0 ==> watch_reply(watched(j, inputs)) == JobStatus::<Streams>::Run(
            RunStatus::Stopped { status },
        ),
    decreases inputs.len(),
{
    if inputs.len() > 0 {
        lemma_output_before_terminal(j, status, inputs.drop_last());
    }
}

/// A lost job is reported as lost by exactly one watch: that watch puts the
/// job back to waiting, and no later watch reports the loss again.
pub proof fn lemma_lost_observed_once(j: JobView, input: Streams, later: Seq<Streams>)
    requires
        j.status is Lost,
    ensures
        watch_reply(j) is Lost,
        watch_next(j, input).status is Waiting,
        watched(watch_next(j, input), later).status is Waiting,
        watch_reply(watched(watch_next(j, input), later)) is Waiting,
    decreases later.len(),
{
    if later.len() > 0 {
        lemma_lost_observed_once(j, input, later.drop_last());
    }
}

/// A stopped job stays stopped: no watch and no report moves it to another
/// status, and a report leaves the whole record as it is.
pub proof fn lemma_stopped_is_terminal(
    j: JobView,
    status: ExitStatus,
    input: Streams,
    feedback: RunStatus<Streams>,
)
    requires
        j.status == JobStatus::<()>::Run(RunStatus::Stopped { status }),
    ensures
        watch_next(j, input).status == j.status,
        report_next(j, feedback) == j,
        report_reply(j, feedback) is None,
        !is_running(j),
{
}

/// Signals go before input: a report of a running job that finds signals
/// pending gets all of them and no input, the buffered input stays, and the
/// report after it gets that input.
pub proof fn lemma_signal_priority(j: JobView, output: Streams, next_output: Streams)
    requires
        is_running(j),
        j.signals.len() > 0,
    ensures
        report_reply(j, RunStatus::Running(output)) == Some(InteractionView::Signal(j.signals)),
        report_next(j, RunStatus::Running(output)).input == j.input,
        report_next(j, RunStatus::Running(output)).signals.len() == 0,
        report_reply(report_next(j, RunStatus::Running(output)), RunStatus::Running(next_output)) == Some(
            InteractionView::Input(j.input),
        ),
{
}

} // verus!
