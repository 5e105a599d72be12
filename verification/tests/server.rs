use libjobqueue::command::CommandLine;
use libjobqueue::command::ServerCommand;
use libjobqueue::fd_table::FdTable;
use libjobqueue::server::JobHandle;
use libjobqueue::server::MatchingQueue;
use libjobqueue::server::RunHandle;
use libjobqueue::server::Server;
use libjobqueue::status::ExitStatus;
use libjobqueue::status::Interaction;
use libjobqueue::status::JobStatus;
use libjobqueue::status::Output;
use libjobqueue::status::RunStatus;
use libjobqueue::status::Signal;
use libjobqueue::transport::allocate_id;
use libjobqueue::transport::Accepted;
use libjobqueue::transport::JobDirectory;
use libjobqueue::transport::Served;
use libjobqueue::transport::TransportError;

fn line(command: &str, args: &[&str]) -> CommandLine {
    CommandLine::new(command.to_string(), args.iter().map(|s| s.to_string()).collect())
}

#[test]
fn server() {
    let mut server = MatchingQueue::new();
    let (job, bound) = server.queue(line("ls", &["-a"]));
    assert!(bound.is_none());
    let query = server.query(0).unwrap();
    assert!(query.command_line.command == "ls");
    let mut output = FdTable::new();
    output.add(1, vec![42]);
    server.report(&query.run, RunStatus::Running(Output { output }));
    let mut received = false;
    match server.watch(&job, FdTable::new()).0 {
        JobStatus::Run(RunStatus::Running(Output { mut output })) => {
            assert!(output.take(1) == vec![42]);
            received = true;
        }
        _ => panic!(),
    }
    assert!(received);
}

#[test]
fn second_watch_does_not_deliver_the_same_bytes_again() {
    let mut server = MatchingQueue::new();
    let (job, _) = server.queue(line("ls", &["-a"]));
    let query = server.query(7).unwrap();
    assert_eq!(query.command_line.args, vec!["-a".to_string()]);
    let mut output = FdTable::new();
    output.add(1, vec![42]);
    server.report(&query.run, RunStatus::Running(Output { output }));
    match server.watch(&job, FdTable::new()).0 {
        JobStatus::Run(RunStatus::Running(Output { mut output })) => assert_eq!(output.take(1), vec![42]),
        _ => panic!(),
    }
    match server.watch(&job, FdTable::new()).0 {
        JobStatus::Run(RunStatus::Running(Output { output })) => assert!(output.is_empty()),
        _ => panic!(),
    }
}

#[test]
fn stopped_with_success_and_no_output_is_seen_by_the_next_watch() {
    let mut server = MatchingQueue::new();
    let (job, _) = server.queue(line("true", &[]));
    let query = server.query(1).unwrap();
    assert!(server.report(&query.run, RunStatus::Stopped { status: ExitStatus::Success }).is_none());
    assert!(matches!(
        server.watch(&job, FdTable::new()).0,
        JobStatus::Run(RunStatus::Stopped { status: ExitStatus::Success })
    ));
}

#[test]
fn jobs_are_matched_first_come_first_served() {
    let mut server = MatchingQueue::new();
    let (first, bound_first) = server.queue(line("one", &[]));
    let (second, bound_second) = server.queue(line("two", &[]));
    assert!(bound_first.is_none());
    assert!(bound_second.is_none());
    assert!(matches!(server.watch(&first, FdTable::new()).0, JobStatus::Waiting));
    let q1 = server.query(1).unwrap();
    assert_eq!(q1.command_line.command, "one");
    assert_eq!(q1.run.id, first.id);
    assert!(matches!(server.watch(&second, FdTable::new()).0, JobStatus::Waiting));
    let q2 = server.query(2).unwrap();
    assert_eq!(q2.command_line.command, "two");
    assert_eq!(q2.run.id, second.id);
    assert!(server.query(3).is_none());
}

#[test]
fn waiting_worker_requests_are_served_oldest_first() {
    let mut server = MatchingQueue::new();
    assert!(server.query(10).is_none());
    assert!(server.query(20).is_none());
    let (first, bound) = server.queue(line("one", &[]));
    let (ticket, query) = bound.unwrap();
    assert_eq!(ticket, 10);
    assert_eq!(query.run.id, first.id);
    assert_eq!(query.command_line.command, "one");
    assert!(matches!(server.watch(&first, FdTable::new()).0, JobStatus::Run(RunStatus::Running(_))));
    let (second, bound) = server.queue(line("two", &[]));
    let (ticket, query) = bound.unwrap();
    assert_eq!(ticket, 20);
    assert_eq!(query.run.id, second.id);
    let (_, bound) = server.queue(line("three", &[]));
    assert!(bound.is_none());
    assert_eq!(server.job_count(), 3);
}

#[test]
fn handles_reach_their_own_job_only() {
    let mut server = MatchingQueue::new();
    let (first, _) = server.queue(line("one", &[]));
    let (second, _) = server.queue(line("two", &[]));
    assert_eq!(first, JobHandle { id: 0 });
    assert_eq!(second, JobHandle { id: 1 });
    server.cancel(&second);
    server.signal(&first, Signal::Kill);
    assert!(!server.job(0).unwrap().is_cancelled());
    assert!(server.job(1).unwrap().is_cancelled());
    assert!(server.job(2).is_none());
    let q1 = server.query(0).unwrap();
    let q2 = server.query(0).unwrap();
    match server.report(&q1.run, RunStatus::Running(Output { output: FdTable::new() })) {
        Some(Interaction::Signal(signals)) => assert_eq!(signals, vec![Signal::Kill]),
        _ => panic!(),
    }
    match server.report(&q2.run, RunStatus::Running(Output { output: FdTable::new() })) {
        Some(Interaction::Input(input)) => assert!(input.is_empty()),
        _ => panic!(),
    }
}

#[test]
fn lost_worker_is_told_to_the_client_once() {
    let mut server = MatchingQueue::new();
    let (job, _) = server.queue(line("sleep", &["1"]));
    let query = server.query(0).unwrap();
    assert!(server.lose(&query.run));
    assert!(!server.lose(&query.run));
    assert!(matches!(server.watch(&job, FdTable::new()).0, JobStatus::Lost));
    assert!(matches!(server.watch(&job, FdTable::new()).0, JobStatus::Waiting));
}

fn submit(
    directory: &mut JobDirectory<MatchingQueue>,
    server: &mut MatchingQueue,
    command_line: CommandLine,
) -> Accepted<RunHandle> {
    match directory.accept(server, ServerCommand::Queue(command_line), 0) {
        Ok(Served::Queued(accepted)) => accepted,
        _ => panic!(),
    }
}

#[test]
fn directory_gives_ids_in_order() {
    let mut server = MatchingQueue::new();
    let mut directory = JobDirectory::<MatchingQueue>::new();
    assert_eq!(directory.job_count(), 0);
    assert!(directory.job(0).is_none());
    let first = submit(&mut directory, &mut server, line("one", &[]));
    let second = submit(&mut directory, &mut server, line("two", &[]));
    assert_eq!(first.job_id, 0);
    assert_eq!(second.job_id, 1);
    assert!(first.bound.is_none());
    assert_eq!(directory.job_count(), 2);
    assert_eq!(directory.job(0), Some(&JobHandle { id: 0 }));
    assert_eq!(directory.job(1), Some(&JobHandle { id: 1 }));
    assert!(directory.job(2).is_none());
    assert!(directory.job(-1).is_none());
    assert_eq!(server.job(1).unwrap().command_line().command, "two");
}

#[test]
fn directory_ids_follow_the_directory_not_the_server() {
    let mut server = MatchingQueue::new();
    server.queue(line("zero", &[]));
    let mut directory = JobDirectory::<MatchingQueue>::new();
    let accepted = submit(&mut directory, &mut server, line("one", &[]));
    assert_eq!(accepted.job_id, 0);
    assert_eq!(directory.job(0), Some(&JobHandle { id: 1 }));
}

#[test]
fn directory_binds_a_waiting_worker_request() {
    let mut server = MatchingQueue::new();
    assert!(server.query(5).is_none());
    let mut directory = JobDirectory::<MatchingQueue>::new();
    let accepted = submit(&mut directory, &mut server, line("ls", &["-a"]));
    let (ticket, query) = accepted.bound.unwrap();
    assert_eq!(ticket, 5);
    assert_eq!(query.command_line.to_text(), "ls -a");
    assert_eq!(query.run.id, 0);
}

#[test]
fn directory_hands_a_request_for_work_to_the_server() {
    let mut server = MatchingQueue::new();
    let mut directory = JobDirectory::<MatchingQueue>::new();
    submit(&mut directory, &mut server, line("one", &[]));
    submit(&mut directory, &mut server, line("two", &[]));
    match directory.accept(&mut server, ServerCommand::Query, 7) {
        Ok(Served::Asked(Some(query))) => {
            assert_eq!(query.command_line.command, "one");
            assert_eq!(query.run.id, 0);
        }
        _ => panic!(),
    }
    assert_eq!(directory.job_count(), 2);
    assert_eq!(server.job_count(), 2);
    assert_eq!((server.waiting_jobs(), server.waiting_queries()), (1, 0));
    assert!(matches!(
        server.watch(&JobHandle { id: 0 }, FdTable::new()).0,
        JobStatus::Run(RunStatus::Running(_))
    ));
    assert!(matches!(server.watch(&JobHandle { id: 1 }, FdTable::new()).0, JobStatus::Waiting));
}

#[test]
fn directory_lets_a_request_for_work_wait_for_a_job() {
    let mut server = MatchingQueue::new();
    let mut directory = JobDirectory::<MatchingQueue>::new();
    assert!(matches!(directory.accept(&mut server, ServerCommand::Query, 7), Ok(Served::Asked(None))));
    assert!(matches!(directory.accept(&mut server, ServerCommand::Query, 8), Ok(Served::Asked(None))));
    assert_eq!(directory.job_count(), 0);
    assert_eq!(server.job_count(), 0);
    assert_eq!((server.waiting_jobs(), server.waiting_queries()), (0, 2));
    let accepted = submit(&mut directory, &mut server, line("one", &[]));
    assert_eq!(accepted.job_id, 0);
    let (ticket, query) = accepted.bound.unwrap();
    assert_eq!(ticket, 7);
    assert_eq!(query.command_line.command, "one");
    assert_eq!((server.waiting_jobs(), server.waiting_queries()), (0, 1));
}

#[test]
fn stopped_job_does_not_run_again() {
    let mut server = MatchingQueue::new();
    let (job, _) = server.queue(line("once", &[]));
    let query = server.query(1).unwrap();
    assert!(server.lose(&query.run));
    assert!(matches!(server.watch(&job, FdTable::new()).0, JobStatus::Lost));
    assert!(server.report(&query.run, RunStatus::Stopped { status: ExitStatus::Success }).is_none());
    assert!(matches!(server.watch(&job, FdTable::new()).0, JobStatus::Waiting));
    let again = server.query(2).unwrap();
    assert_eq!(again.run.id, job.id);
    assert!(server.report(&again.run, RunStatus::Stopped { status: ExitStatus::Failure { error_code: 1 } }).is_none());
    assert!(server.query(3).is_none());
    assert!(server.report(&again.run, RunStatus::Stopped { status: ExitStatus::Success }).is_none());
    assert!(!server.lose(&again.run));
    for _ in 0..2 {
        assert!(matches!(
            server.watch(&job, FdTable::new()).0,
            JobStatus::Run(RunStatus::Stopped { status: ExitStatus::Failure { error_code: 1 } })
        ));
    }
}

#[test]
fn ids_count_up_from_zero_until_none_is_left() {
    assert_eq!(allocate_id(0), Ok(0));
    assert_eq!(allocate_id(41), Ok(41));
    assert_eq!(allocate_id(i64::MAX - 1), Ok(i64::MAX - 1));
    assert_eq!(allocate_id(i64::MAX), Err(TransportError::Exhausted));
    assert_eq!(allocate_id(-1), Err(TransportError::Exhausted));
}

#[test]
fn waiting_lines_never_both_hold_something() {
    let mut server = MatchingQueue::new();
    assert_eq!((server.waiting_jobs(), server.waiting_queries()), (0, 0));
    server.queue(line("one", &[]));
    server.queue(line("two", &[]));
    assert_eq!((server.waiting_jobs(), server.waiting_queries()), (2, 0));
    server.query(1);
    server.query(2);
    assert_eq!((server.waiting_jobs(), server.waiting_queries()), (0, 0));
    server.query(3);
    assert_eq!((server.waiting_jobs(), server.waiting_queries()), (0, 1));
    server.queue(line("three", &[]));
    assert_eq!((server.waiting_jobs(), server.waiting_queries()), (0, 0));
}
