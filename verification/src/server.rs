//! The rendezvous between submitted jobs and the workers that ask for one.

use std::collections::VecDeque;
use vstd::prelude::*;
use crate::command::CommandLine;
use crate::command::CommandLineView;
use crate::fd_table::FdTable;
use crate::fd_table::Streams;
use crate::job::fresh_job;
use crate::job::is_running;
use crate::job::report_next;
use crate::job::report_reply;
use crate::job::watch_next;
use crate::job::watch_reply;
use crate::job::Job;
use crate::job::JobRecord;
use crate::job::JobView;
use crate::job::Run;
use crate::status::answer_view;
use crate::status::Interaction;
use crate::status::JobStatus;
use crate::status::Output;
use crate::status::Query;
use crate::status::RunStatus;
use crate::status::Signal;

verus! {

/// Names the worker request that a query was made for.
pub type Ticket = u64;

/// The client's handle on a job of a [`MatchingQueue`].
#[derive(Clone, Copy, Debug, PartialEq, Eq)]
pub struct JobHandle {
    pub id: usize,
}

/// The worker's handle on a job of a [`MatchingQueue`].
#[derive(Clone, Copy, Debug, PartialEq, Eq)]
pub struct RunHandle {
    pub id: usize,
}

/// The mathematical content of a matching queue: every job ever submitted,
/// the jobs that wait for a worker, oldest first, and the worker requests
/// that wait for a job, oldest first.
pub struct QueueView {
    pub jobs: Seq<JobView>,
    pub pending_jobs: Seq<usize>,
    pub pending_queries: Seq<Ticket>,
}

/// The record `j` once a worker is bound to it.
pub open spec fn started(j: JobView) -> JobView {
    JobView { status: JobStatus::Run(RunStatus::Running(())), ..j }
}

/// The worker request that a newly submitted job is bound to at once, if any:
/// the oldest one waiting.
pub open spec fn queue_match(q: QueueView) -> Option<Ticket> {
    if q.pending_queries.len() > 0 {
        Some(q.pending_queries[0])
    } else {
        None
    }
}

/// The queue `q` after the command line `c` was submitted.
pub open spec fn queue_next(q: QueueView, c: CommandLineView) -> QueueView {
    if q.pending_queries.len() > 0 {
        QueueView {
            jobs: q.jobs.push(started(fresh_job(c))),
            pending_queries: q.pending_queries.subrange(1, q.pending_queries.len() as int),
            ..q
        }
    } else {
        QueueView {
            jobs: q.jobs.push(fresh_job(c)),
            pending_jobs: q.pending_jobs.push(q.jobs.len() as usize),
            ..q
        }
    }
}

/// The queue `q` after the job `id` entered the matching pool: bound to the
/// oldest waiting worker request, or last in the line of waiting jobs.
pub open spec fn placed(q: QueueView, id: usize) -> QueueView {
    if q.pending_queries.len() > 0 {
        QueueView {
            jobs: q.jobs.update(id as int, started(q.jobs[id as int])),
            pending_queries: q.pending_queries.subrange(1, q.pending_queries.len() as int),
            ..q
        }
    } else {
        QueueView { pending_jobs: q.pending_jobs.push(id), ..q }
    }
}

/// The queue `q` after a watch on the job `id` that brought `input`: the
/// record moves on, and a job that was seen lost enters the matching pool again.
pub open spec fn watch_queue_next(q: QueueView, id: usize, input: Streams) -> QueueView {
    let moved = QueueView { jobs: q.jobs.update(id as int, watch_next(q.jobs[id as int], input)), ..q };
    if q.jobs[id as int].status is Lost {
        placed(moved, id)
    } else {
        moved
    }
}

/// The job that a worker request is bound to at once, if any: the oldest one waiting.
pub open spec fn query_match(q: QueueView) -> Option<usize> {
    if q.pending_jobs.len() > 0 {
        Some(q.pending_jobs[0])
    } else {
        None
    }
}

/// The queue `q` after the worker request `ticket` arrived.
pub open spec fn query_next(q: QueueView, ticket: Ticket) -> QueueView {
    if q.pending_jobs.len() > 0 {
        QueueView {
            jobs: q.jobs.update(q.pending_jobs[0] as int, started(q.jobs[q.pending_jobs[0] as int])),
            pending_jobs: q.pending_jobs.subrange(1, q.pending_jobs.len() as int),
            ..q
        }
    } else {
        QueueView { pending_queries: q.pending_queries.push(ticket), ..q }
    }
}

/// The waiting line of jobs is in order: every job in it exists, is waiting
/// and stands there once, and jobs and worker requests never wait at the
/// same time.
pub open spec fn pool_sound(q: QueueView) -> bool {
    &&& forall|k: int| 0 <= k < q.pending_jobs.len() ==> (#[trigger] q.pending_jobs[k]) < q.jobs.len()
    &&& forall|k: int|
        0 <= k < q.pending_jobs.len() ==> q.jobs[(#[trigger] q.pending_jobs[k]) as int].status is Waiting
    &&& forall|a: int, b: int|
        0 <= a < q.pending_jobs.len() && 0 <= b < q.pending_jobs.len() && q.pending_jobs[a]
            == q.pending_jobs[b] ==> a == b
    &&& q.pending_jobs.len() == 0 || q.pending_queries.len() == 0
}

/// What accepts command lines from clients and requests for work from workers.
pub trait Server: Sized {
    type Job;

    type Run;

    /// The server is in a state that its operations can work on.
    spec fn valid(&self) -> bool;

    /// What submitting `command_line` does: `after` is the server after the
    /// call and `r` what the call returned.
    spec fn queued(
        &self,
        command_line: CommandLine,
        after: Self,
        r: (Self::Job, Option<(Ticket, Query<Self::Run>)>),
    ) -> bool;

    /// What the worker request `ticket` does: `after` is the server after
    /// the call and `r` what the call returned.
    spec fn queried(&self, ticket: Ticket, after: Self, r: Option<Query<Self::Run>>) -> bool;

    /// Submits a command line. Returns the handle of the new job and, where a
    /// worker request was waiting, that request with the query that answers it.
    fn queue(&mut self, command_line: CommandLine) -> (r: (Self::Job, Option<(Ticket, Query<Self::Run>)>))
        requires
            old(self).valid(),
        ensures
            final(self).valid(),
            old(self).queued(command_line, *final(self), r),
    ;

    /// Asks for a job on behalf of the request `ticket`. Returns the query at
    /// once where a job was waiting; otherwise the request waits.
    fn query(&mut self, ticket: Ticket) -> (r: Option<Query<Self::Run>>)
        requires
            old(self).valid(),
        ensures
            final(self).valid(),
            old(self).queried(ticket, *final(self), r),
    ;
}

/// An in-memory server: the job records and the two waiting lines.
#[derive(Debug)]
pub struct MatchingQueue {
    jobs: Vec<JobRecord>,
    pending_jobs: VecDeque<usize>,
    pending_queries: VecDeque<Ticket>,
}

impl View for MatchingQueue {
    type V = QueueView;

    closed spec fn view(&self) -> QueueView {
        QueueView {
            jobs: Seq::new(self.jobs@.len(), |i: int| self.jobs@[i]@),
            pending_jobs: self.pending_jobs@,
            pending_queries: self.pending_queries@,
        }
    }
}

impl MatchingQueue {
    /// Every record is well formed and the waiting line of jobs is in order.
    pub closed spec fn wf(&self) -> bool {
        &&& forall|i: int| 0 <= i < self.jobs@.len() ==> (#[trigger] self.jobs@[i]).wf()
        &&& pool_sound(self@)
    }

    /// A server without jobs or worker requests.
    pub fn new() -> (server: Self)
        ensures
            server.wf(),
            server@.jobs.len() == 0,
            server@.pending_jobs.len() == 0,
            server@.pending_queries.len() == 0,
    {
        MatchingQueue { jobs: Vec::new(), pending_jobs: VecDeque::new(), pending_queries: VecDeque::new() }
    }

    /// In a well-formed queue the waiting line of jobs is in order.
    pub proof fn lemma_pool_is_sound(&self)
        requires
            self.wf(),
        ensures
            pool_sound(self@),
    {
    }

    /// Binds the job `id` to a worker and makes the query that the worker gets.
    fn run(&mut self, id: usize) -> (query: Query<RunHandle>)
        requires
            forall|i: int| 0 <= i < old(self).jobs@.len() ==> (#[trigger] old(self).jobs@[i]).wf(),
            id < old(self).jobs@.len(),
            old(self)@.jobs[id as int].status is Waiting,
        ensures
            final(self).jobs@.len() == old(self).jobs@.len(),
            final(self).pending_jobs == old(self).pending_jobs,
            final(self).pending_queries == old(self).pending_queries,
            forall|i: int| 0 <= i < final(self).jobs@.len() ==> (#[trigger] final(self).jobs@[i]).wf(),
            final(self)@.jobs == old(self)@.jobs.update(id as int, started(old(self)@.jobs[id as int])),
            query.command_line@ == old(self)@.jobs[id as int].command_line,
            query.run.id == id,
    {
        let command_line = self.jobs[id].command_line().duplicate();
        self.jobs[id].start();
        assert(self@.jobs =~= old(self)@.jobs.update(id as int, started(old(self)@.jobs[id as int])));
        Query { command_line, run: RunHandle { id } }
    }

    /// Puts the job `id` into the matching pool: binds it to the oldest
    /// waiting worker request, or lets it wait behind the jobs that wait.
    fn place(&mut self, id: usize) -> (bound: Option<(Ticket, Query<RunHandle>)>)
        requires
            old(self).wf(),
            id < old(self).jobs@.len(),
            old(self)@.jobs[id as int].status is Waiting,
            forall|k: int| 0 <= k < old(self)@.pending_jobs.len() ==> old(self)@.pending_jobs[k] != id,
        ensures
            final(self).wf(),
            final(self)@ == placed(old(self)@, id),
            match bound {
                Some((ticket, query)) => {
                    &&& queue_match(old(self)@) == Some(ticket)
                    &&& query.command_line@ == old(self)@.jobs[id as int].command_line
                    &&& query.run.id == id
                },
                None => queue_match(old(self)@) is None,
            },
    {
        match self.pending_queries.pop_front() {
            None => {
                self.pending_jobs.push_back(id);
                None
            },
            Some(ticket) => Some((ticket, self.run(id))),
        }
    }

    /// The number of jobs submitted so far; the handles of these jobs carry the ids below it.
    pub fn job_count(&self) -> (n: usize)
        ensures
            n == self@.jobs.len(),
    {
        self.jobs.len()
    }

    /// The number of jobs that wait for a worker.
    pub fn waiting_jobs(&self) -> (n: usize)
        ensures
            n == self@.pending_jobs.len(),
    {
        self.pending_jobs.len()
    }

    /// The number of worker requests that wait for a job.
    pub fn waiting_queries(&self) -> (n: usize)
        ensures
            n == self@.pending_queries.len(),
    {
        self.pending_queries.len()
    }

    /// The record of the job `id`, if there is one.
    pub fn job(&self, id: usize) -> (r: Option<&JobRecord>)
        requires
            self.wf(),
        ensures
            match r {
                Some(record) => id < self@.jobs.len() && record@ == self@.jobs[id as int] && record.wf(),
                None => id >= self@.jobs.len(),
            },
    {
        if id < self.jobs.len() {
            Some(&self.jobs[id])
        } else {
            None
        }
    }

    /// Hands `input` to the job and tells the client how the job is doing. A
    /// job that is seen lost enters the matching pool again; where a worker
    /// request was waiting, that request comes back with the query that
    /// answers it.
    pub fn watch(&mut self, job: &JobHandle, input: FdTable) -> (r: (
        JobStatus<Output>,
        Option<(Ticket, Query<RunHandle>)>,
    ))
        requires
            old(self).wf(),
            input.wf(),
            job.id < old(self)@.jobs.len(),
            input@.dom().subset_of(old(self)@.jobs[job.id as int].input.dom()),
        ensures
            final(self).wf(),
            r.0.wf(),
            r.0@ == watch_reply(old(self)@.jobs[job.id as int]),
            final(self)@ == watch_queue_next(old(self)@, job.id, input@),
            match r.1 {
                Some((ticket, query)) => {
                    &&& old(self)@.jobs[job.id as int].status is Lost
                    &&& queue_match(old(self)@) == Some(ticket)
                    &&& query.command_line@ == old(self)@.jobs[job.id as int].command_line
                    &&& query.run.id == job.id
                },
                None => !(old(self)@.jobs[job.id as int].status is Lost) || queue_match(old(self)@) is None,
            },
    {
        let status = self.jobs[job.id].watch(input);
        assert(self@.jobs =~= old(self)@.jobs.update(
            job.id as int,
            watch_next(old(self)@.jobs[job.id as int], input@),
        ));
        let bound = match status {
            JobStatus::Lost => self.place(job.id),
            _ => None,
        };
        (status, bound)
    }

    /// Leaves `signal` for the worker of the job to collect.
    pub fn signal(&mut self, job: &JobHandle, signal: Signal)
        requires
            old(self).wf(),
            job.id < old(self)@.jobs.len(),
        ensures
            final(self).wf(),
            final(self)@ == (QueueView {
                jobs: old(self)@.jobs.update(
                    job.id as int,
                    JobView {
                        signals: old(self)@.jobs[job.id as int].signals.push(signal),
                        ..old(self)@.jobs[job.id as int]
                    },
                ),
                ..old(self)@
            }),
    {
        self.jobs[job.id].signal(signal);
        assert(self@.jobs =~= old(self)@.jobs.update(
            job.id as int,
            JobView {
                signals: old(self)@.jobs[job.id as int].signals.push(signal),
                ..old(self)@.jobs[job.id as int]
            },
        ));
    }

    /// Notes that the client wants the job cancelled.
    pub fn cancel(&mut self, job: &JobHandle)
        requires
            old(self).wf(),
            job.id < old(self)@.jobs.len(),
        ensures
            final(self).wf(),
            final(self)@ == (QueueView {
                jobs: old(self)@.jobs.update(
                    job.id as int,
                    JobView { cancelled: true, ..old(self)@.jobs[job.id as int] },
                ),
                ..old(self)@
            }),
    {
        self.jobs[job.id].cancel();
        assert(self@.jobs =~= old(self)@.jobs.update(
            job.id as int,
            JobView { cancelled: true, ..old(self)@.jobs[job.id as int] },
        ));
    }

    /// Notes that the worker of a running job has disappeared. A job that is
    /// not running stays as it is.
    pub fn lose(&mut self, run: &RunHandle) -> (lost: bool)
        requires
            old(self).wf(),
            run.id < old(self)@.jobs.len(),
        ensures
            final(self).wf(),
            lost == is_running(old(self)@.jobs[run.id as int]),
            final(self)@ == (QueueView {
                jobs: old(self)@.jobs.update(
                    run.id as int,
                    JobView {
                        status: if lost { JobStatus::Lost } else { old(self)@.jobs[run.id as int].status },
                        ..old(self)@.jobs[run.id as int]
                    },
                ),
                ..old(self)@
            }),
    {
        let lost = self.jobs[run.id].mark_lost();
        assert(self@.jobs =~= old(self)@.jobs.update(
            run.id as int,
            JobView {
                status: if lost { JobStatus::Lost } else { old(self)@.jobs[run.id as int].status },
                ..old(self)@.jobs[run.id as int]
            },
        ));
        lost
    }

    /// Hands the worker's news to the job and fetches the next instruction.
    pub fn report(&mut self, run: &RunHandle, feedback: RunStatus<Output>) -> (next: Option<Interaction>)
        requires
            old(self).wf(),
            feedback.wf(),
            run.id < old(self)@.jobs.len(),
            feedback matches RunStatus::Running(output) ==> output@.dom().subset_of(
                old(self)@.jobs[run.id as int].output.dom(),
            ),
        ensures
            final(self).wf(),
            next matches Some(interaction) ==> interaction.wf(),
            answer_view(next) == report_reply(old(self)@.jobs[run.id as int], feedback@),
            final(self)@ == (QueueView {
                jobs: old(self)@.jobs.update(
                    run.id as int,
                    report_next(old(self)@.jobs[run.id as int], feedback@),
                ),
                ..old(self)@
            }),
    {
        let next = self.jobs[run.id].report(feedback);
        assert(self@.jobs =~= old(self)@.jobs.update(
            run.id as int,
            report_next(old(self)@.jobs[run.id as int], feedback@),
        ));
        next
    }
}

impl Server for MatchingQueue {
    type Job = JobHandle;

    type Run = RunHandle;

    open spec fn valid(&self) -> bool {
        self.wf()
    }

    /// The new job gets the next place in the book of records, so its
    /// handle carries the number of jobs before it. It is bound to the oldest
    /// waiting worker request, or waits behind the jobs that wait.
    open spec fn queued(
        &self,
        command_line: CommandLine,
        after: Self,
        r: (JobHandle, Option<(Ticket, Query<RunHandle>)>),
    ) -> bool {
        &&& after@ == queue_next(self@, command_line@)
        &&& r.0.id == self@.jobs.len()
        &&& match r.1 {
            Some((ticket, query)) => {
                &&& queue_match(self@) == Some(ticket)
                &&& query.command_line@ == command_line@
                &&& query.run.id == r.0.id
            },
            None => queue_match(self@) is None,
        }
    }

    /// The request gets the oldest waiting job, which runs from then on, or
    /// waits behind the requests that wait.
    open spec fn queried(&self, ticket: Ticket, after: Self, r: Option<Query<RunHandle>>) -> bool {
        &&& after@ == query_next(self@, ticket)
        &&& match r {
            Some(query) => {
                &&& query_match(self@) == Some(query.run.id)
                &&& query.run.id < self@.jobs.len()
                &&& query.command_line@ == self@.jobs[query.run.id as int].command_line
            },
            None => query_match(self@) is None,
        }
    }

    fn queue(&mut self, command_line: CommandLine) -> (r: (JobHandle, Option<(Ticket, Query<RunHandle>)>)) {
        let id = self.jobs.len();
        self.jobs.push(JobRecord::new(command_line));
        assert(self@.jobs =~= old(self)@.jobs.push(fresh_job(command_line@)));
        let bound = self.place(id);
        assert(self@.jobs =~= queue_next(old(self)@, command_line@).jobs);
        (JobHandle { id }, bound)
    }

    fn query(&mut self, ticket: Ticket) -> (r: Option<Query<RunHandle>>) {
        match self.pending_jobs.pop_front() {
            None => {
                self.pending_queries.push_back(ticket);
                None
            },
            Some(id) => {
                assert(old(self).pending_jobs@[0] == id);
                Some(self.run(id))
            },
        }
    }
}

/// The queue `q` after the command lines `lines` were submitted, first to last.
pub open spec fn queued_all(q: QueueView, lines: Seq<CommandLineView>) -> QueueView
    decreases lines.len(),
{
    if lines.len() == 0 {
        q
    } else {
        queue_next(queued_all(q, lines.drop_last()), lines.last())
    }
}

/// The queue `q` after the worker requests `tickets` arrived, first to last.
pub open spec fn queried_all(q: QueueView, tickets: Seq<Ticket>) -> QueueView
    decreases tickets.len(),
{
    if tickets.len() == 0 {
        q
    } else {
        query_next(queried_all(q, tickets.drop_last()), tickets.last())
    }
}

/// Jobs submitted while no worker request waits line up behind the jobs that
/// wait already, in the order of their submission, and all of them wait.
pub proof fn lemma_jobs_wait_in_order(q: QueueView, lines: Seq<CommandLineView>)
    requires
        q.pending_queries.len() == 0,
        q.jobs.len() + lines.len() <= usize::MAX,
    ensures
        queued_all(q, lines).pending_queries.len() == 0,
        queued_all(q, lines).jobs.len() == q.jobs.len() + lines.len(),
        queued_all(q, lines).pending_jobs == q.pending_jobs + Seq::new(
            lines.len(),
            |i: int| (q.jobs.len() + i) as usize,
        ),
        forall|i: int|
            0 <= i < lines.len() ==> #[trigger] queued_all(q, lines).jobs[q.jobs.len() + i] == fresh_job(
                lines[i],
            ),
        forall|i: int| 0 <= i < q.jobs.len() ==> #[trigger] queued_all(q, lines).jobs[i] == q.jobs[i],
    decreases lines.len(),
{
    if lines.len() > 0 {
        let earlier = lines.drop_last();
        lemma_jobs_wait_in_order(q, earlier);
        assert forall|i: int| 0 <= i < lines.len() implies #[trigger] queued_all(q, lines).jobs[q.jobs.len()
            + i] == fresh_job(lines[i]) by {
            if i < earlier.len() {
                assert(queued_all(q, earlier).jobs[q.jobs.len() + i] == fresh_job(earlier[i]));
            }
        }
    }
    assert(queued_all(q, lines).pending_jobs =~= q.pending_jobs + Seq::new(
        lines.len(),
        |i: int| (q.jobs.len() + i) as usize,
    ));
}

/// Worker requests take the waiting jobs oldest first: after as many
/// requests as `tickets` holds, the jobs that still wait are the later ones,
/// and the next request gets the oldest of them.
pub proof fn lemma_queries_take_oldest(q: QueueView, tickets: Seq<Ticket>)
    requires
        tickets.len() <= q.pending_jobs.len(),
    ensures
        queried_all(q, tickets).pending_jobs == q.pending_jobs.subrange(
            tickets.len() as int,
            q.pending_jobs.len() as int,
        ),
        queried_all(q, tickets).pending_queries == q.pending_queries,
        tickets.len() < q.pending_jobs.len() ==> query_match(queried_all(q, tickets)) == Some(
            q.pending_jobs[tickets.len() as int],
        ),
    decreases tickets.len(),
{
    if tickets.len() > 0 {
        lemma_queries_take_oldest(q, tickets.drop_last());
    }
    assert(queried_all(q, tickets).pending_jobs =~= q.pending_jobs.subrange(
        tickets.len() as int,
        q.pending_jobs.len() as int,
    ));
}

/// Jobs and worker requests are matched first come, first served: of two
/// jobs submitted while nothing waits, the first worker request gets the
/// first job and the second request the second job, and both jobs then run.
pub proof fn lemma_fifo_matching(
    q: QueueView,
    first: CommandLineView,
    second: CommandLineView,
    t1: Ticket,
    t2: Ticket,
)
    requires
        q.pending_jobs.len() == 0,
        q.pending_queries.len() == 0,
        q.jobs.len() + 2 <= usize::MAX,
    ensures
        ({
            let queued = queue_next(queue_next(q, first), second);
            let served = query_next(queued, t1);
            let done = query_next(served, t2);
            &&& queued.pending_jobs == seq![q.jobs.len() as usize, (q.jobs.len() + 1) as usize]
            &&& query_match(queued) == Some(q.jobs.len() as usize)
            &&& query_match(served) == Some((q.jobs.len() + 1) as usize)
            &&& done.jobs[q.jobs.len() as int] == started(fresh_job(first))
            &&& done.jobs[q.jobs.len() as int + 1] == started(fresh_job(second))
            &&& done.pending_jobs.len() == 0
            &&& done.pending_queries.len() == 0
        }),
{
    let queued = queue_next(queue_next(q, first), second);
    assert(queued.pending_jobs =~= seq![q.jobs.len() as usize, (q.jobs.len() + 1) as usize]);
}

/// A watch that sees a job lost puts it back into the matching pool: the
/// oldest waiting worker request gets it at once and it runs again, or it
/// waits behind the jobs that wait. Either way the job is lost no longer.
pub proof fn lemma_lost_job_reenters_pool(q: QueueView, id: usize, input: Streams)
    requires
        id < q.jobs.len(),
        q.jobs[id as int].status is Lost,
    ensures
        ({
            let next = watch_queue_next(q, id, input);
            &&& !(next.jobs[id as int].status is Lost)
            &&& q.pending_queries.len() > 0 ==> is_running(next.jobs[id as int]) && next.pending_jobs
                == q.pending_jobs
            &&& q.pending_queries.len() == 0 ==> next.jobs[id as int].status is Waiting && next.pending_jobs
                == q.pending_jobs.push(id)
        }),
{
}

/// In a queue whose waiting line is in order a stopped job stays stopped:
/// no submission, no worker request and no watch on any job moves it to
/// another status.
pub proof fn lemma_stopped_job_stays_stopped(
    q: QueueView,
    id: usize,
    line: CommandLineView,
    ticket: Ticket,
    watched: usize,
    input: Streams,
)
    requires
        pool_sound(q),
        id < q.jobs.len(),
        watched < q.jobs.len(),
        q.jobs[id as int].status is Run,
        q.jobs[id as int].status->Run_0 is Stopped,
    ensures
        queue_next(q, line).jobs[id as int].status == q.jobs[id as int].status,
        query_next(q, ticket).jobs[id as int].status == q.jobs[id as int].status,
        watch_queue_next(q, watched, input).jobs[id as int].status == q.jobs[id as int].status,
{
}

} // verus!
