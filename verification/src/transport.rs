//! The listener's side of the transport: job ids, the directory of jobs by
//! id, and the replies that go back to clients.

use std::collections::HashMap;
use vstd::prelude::*;
use crate::command::ServerCommand;
use crate::server::Server;
use crate::server::Ticket;
use crate::status::Query;

verus! {

broadcast use vstd::std_specs::hash::group_hash_axioms;

/// Why the transport could not serve a message.
#[derive(Clone, Copy, Debug, PartialEq, Eq, Structural)]
pub enum TransportError {
    /// The payload is not a message of the protocol.
    Malformed,
    /// Every job id has been given out.
    Exhausted,
}

/// A remote client's handle on a job: the id that the listener gave it.
#[derive(Clone, Copy, Debug, PartialEq, Eq, Structural)]
pub struct ZmqJob {
    pub id: i64,
}

/// A remote worker's handle on a job: the id that the listener gave it.
#[derive(Clone, Copy, Debug, PartialEq, Eq, Structural)]
pub struct ZmqRun {
    pub id: i64,
}

/// What the listener did with a submitted command line.
#[derive(Debug)]
pub struct Accepted<Run> {
    /// The id given to the new job, which goes back to the sender.
    pub job_id: i64,
    /// The worker request that the job was bound to at once, with its query.
    pub bound: Option<(Ticket, Query<Run>)>,
}

/// What the listener did with a command.
#[derive(Debug)]
pub enum Served<Run> {
    /// A command line was submitted as a new job.
    Queued(Accepted<Run>),
    /// A request for work went to the server: it got this query at once, or
    /// it waits for a job.
    Asked(Option<Query<Run>>),
}

/// The id that follows `job_count` ids given out, if there is one left.
pub open spec fn next_id(job_count: int) -> Result<i64, TransportError> {
    if 0 <= job_count < i64::MAX {
        Ok(job_count as i64)
    } else {
        Err(TransportError::Exhausted)
    }
}

/// Picks the id for the next job after `job_count` ids were given out. Ids
/// count up from 0, and none is left once the counter has reached its limit.
pub fn allocate_id(job_count: i64) -> (r: Result<i64, TransportError>)
    ensures
        r == next_id(job_count as int),
{
    if 0 <= job_count && job_count < i64::MAX {
        Ok(job_count)
    } else {
        Err(TransportError::Exhausted)
    }
}

/// The mathematical content of a job directory.
pub struct DirectoryView<J> {
    pub job_count: int,
    pub jobs: Map<i64, J>,
}

/// The listener's book of jobs: it gives each submitted job the next id and
/// remembers which job of the server an id stands for.
#[derive(Debug)]
pub struct JobDirectory<S: Server> {
    job_count: i64,
    jobs: HashMap<i64, S::Job>,
}

impl<S: Server> View for JobDirectory<S> {
    type V = DirectoryView<S::Job>;

    closed spec fn view(&self) -> DirectoryView<S::Job> {
        DirectoryView { job_count: self.job_count as int, jobs: self.jobs@ }
    }
}

impl<S: Server> JobDirectory<S> {
    /// The ids given out so far are exactly those from 0 up to the counter.
    pub closed spec fn wf(&self) -> bool {
        &&& 0 <= self.job_count
        &&& forall|id: i64| self.jobs@.contains_key(id) <==> 0 <= id < self.job_count
    }

    /// A directory that has given out no id yet.
    pub fn new() -> (directory: Self)
        ensures
            directory.wf(),
            directory@ == (DirectoryView { job_count: 0, jobs: Map::<i64, S::Job>::empty() }),
    {
        JobDirectory { job_count: 0, jobs: HashMap::new() }
    }

    /// In a well-formed directory the ids given out are exactly those from 0
    /// up to the counter.
    pub proof fn lemma_ids_are_dense(&self)
        requires
            self.wf(),
        ensures
            0 <= self@.job_count <= i64::MAX,
            forall|id: i64| self@.jobs.contains_key(id) <==> 0 <= id < self@.job_count,
    {
    }

    /// Serves one command against `server`.
    ///
    /// A command line is submitted to the server; the new job gets the next
    /// id and is entered under it. Once the ids are used up no command line
    /// is accepted, and directory and server stay as they were.
    ///
    /// A request for work goes to the server under `ticket`, which names the
    /// sender's request; it takes no id and leaves the directory as it was.
    pub fn accept(&mut self, server: &mut S, command: ServerCommand, ticket: Ticket) -> (r: Result<
        Served<S::Run>,
        TransportError,
    >)
        requires
            old(self).wf(),
            old(server).valid(),
        ensures
            final(self).wf(),
            final(server).valid(),
            match command {
                ServerCommand::Query => {
                    &&& r matches Ok(Served::Asked(query)) && old(server).queried(ticket, *final(server), query)
                    &&& final(self)@ == old(self)@
                },
                ServerCommand::Queue(command_line) => match next_id(old(self)@.job_count) {
                    Err(error) => {
                        &&& r == Err::<Served<S::Run>, TransportError>(error)
                        &&& final(self)@ == old(self)@
                        &&& *final(server) == *old(server)
                    },
                    Ok(job_id) => {
                        &&& r matches Ok(Served::Queued(accepted)) && accepted.job_id == job_id
                            && old(server).queued(
                            command_line,
                            *final(server),
                            (final(self)@.jobs[job_id], accepted.bound),
                        )
                        &&& final(self)@.job_count == job_id + 1
                        &&& final(self)@.jobs == old(self)@.jobs.insert(job_id, final(self)@.jobs[job_id])
                    },
                },
            },
    {
        match command {
            ServerCommand::Query => Ok(Served::Asked(server.query(ticket))),
            ServerCommand::Queue(command_line) => {
                match allocate_id(self.job_count) {
                    Err(error) => Err(error),
                    Ok(job_id) => {
                        let (job, bound) = server.queue(command_line);
                        self.job_count = job_id + 1;
                        self.jobs.insert(job_id, job);
                        Ok(Served::Queued(Accepted { job_id, bound }))
                    },
                }
            },
        }
    }

    /// The job that the id `id` stands for, if the id was given out.
    pub fn job(&self, id: i64) -> (r: Option<&S::Job>)
        requires
            self.wf(),
        ensures
            match r {
                Some(job) => self@.jobs.contains_key(id) && *job == self@.jobs[id],
                None => !self@.jobs.contains_key(id),
            },
    {
        self.jobs.get(&id)
    }

    /// The number of ids given out so far, which is also the next id.
    pub fn job_count(&self) -> (n: i64)
        ensures
            n == self@.job_count,
    {
        self.job_count
    }
}

} // verus!
