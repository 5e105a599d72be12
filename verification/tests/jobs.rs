use libjobqueue::command::CommandLine;
use libjobqueue::fd_table::FdTable;
use libjobqueue::job::Job;
use libjobqueue::job::JobRecord;
use libjobqueue::job::Run;
use libjobqueue::status::ExitStatus;
use libjobqueue::status::Interaction;
use libjobqueue::status::JobStatus;
use libjobqueue::status::Output;
use libjobqueue::status::RunStatus;
use libjobqueue::status::Signal;

fn ls() -> CommandLine {
    CommandLine::new("ls".to_string(), vec!["-a".to_string()])
}

fn table(fd: i32, bytes: Vec<u8>) -> FdTable {
    let mut t = FdTable::new();
    t.add(fd, bytes);
    t
}

#[test]
fn new_job_waits() {
    let mut job = JobRecord::new(ls());
    assert_eq!(job.command_line().command, "ls");
    assert!(!job.is_cancelled());
    assert!(matches!(job.status(), JobStatus::Waiting));
    assert!(matches!(job.watch(FdTable::new()), JobStatus::Waiting));
    assert!(matches!(job.watch(FdTable::new()), JobStatus::Waiting));
}

#[test]
fn running_job_hands_out_output_once() {
    let mut job = JobRecord::new(ls());
    job.start();
    let next = job.report(RunStatus::Running(Output { output: table(1, vec![42]) }));
    match next {
        Some(Interaction::Input(mut input)) => assert_eq!(input.take(0), Vec::<u8>::new()),
        _ => panic!(),
    }
    match job.watch(FdTable::new()) {
        JobStatus::Run(RunStatus::Running(Output { mut output })) => {
            assert_eq!(output.take(1), vec![42]);
            assert_eq!(output.take(2), Vec::<u8>::new());
        }
        _ => panic!(),
    }
    match job.watch(FdTable::new()) {
        JobStatus::Run(RunStatus::Running(Output { output })) => assert!(output.is_empty()),
        _ => panic!(),
    }
}

#[test]
fn stopped_without_output_is_reported_directly() {
    let mut job = JobRecord::new(ls());
    job.start();
    assert!(job.report(RunStatus::Stopped { status: ExitStatus::Success }).is_none());
    assert!(matches!(
        job.watch(FdTable::new()),
        JobStatus::Run(RunStatus::Stopped { status: ExitStatus::Success })
    ));
}

#[test]
fn stopped_is_reported_only_after_the_output() {
    let mut job = JobRecord::new(ls());
    job.start();
    job.report(RunStatus::Running(Output { output: table(2, vec![1, 2]) }));
    job.report(RunStatus::Stopped { status: ExitStatus::Failure { error_code: 3 } });
    match job.watch(FdTable::new()) {
        JobStatus::Run(RunStatus::Running(Output { mut output })) => {
            assert_eq!(output.take(2), vec![1, 2]);
            assert_eq!(output.take(1), Vec::<u8>::new());
        }
        _ => panic!(),
    }
    for _ in 0..3 {
        assert!(matches!(
            job.watch(FdTable::new()),
            JobStatus::Run(RunStatus::Stopped { status: ExitStatus::Failure { error_code: 3 } })
        ));
    }
}

#[test]
fn lost_is_seen_once_and_then_the_job_waits() {
    let mut job = JobRecord::new(ls());
    job.start();
    assert!(job.mark_lost());
    assert!(matches!(job.watch(FdTable::new()), JobStatus::Lost));
    assert!(matches!(job.watch(FdTable::new()), JobStatus::Waiting));
    assert!(matches!(job.watch(FdTable::new()), JobStatus::Waiting));
}

#[test]
fn only_a_running_job_can_be_lost() {
    let mut waiting = JobRecord::new(ls());
    assert!(!waiting.mark_lost());
    assert!(matches!(waiting.watch(FdTable::new()), JobStatus::Waiting));
    let mut stopped = JobRecord::new(ls());
    stopped.start();
    stopped.report(RunStatus::Stopped { status: ExitStatus::Success });
    assert!(!stopped.mark_lost());
    assert!(matches!(
        stopped.watch(FdTable::new()),
        JobStatus::Run(RunStatus::Stopped { status: ExitStatus::Success })
    ));
}

#[test]
fn signals_go_before_input_and_the_input_stays() {
    let mut job = JobRecord::new(ls());
    job.start();
    job.watch(table(0, vec![5, 6]));
    job.signal(Signal::Kill);
    job.signal(Signal::Kill);
    match job.report(RunStatus::Running(Output { output: FdTable::new() })) {
        Some(Interaction::Signal(signals)) => assert_eq!(signals, vec![Signal::Kill, Signal::Kill]),
        _ => panic!(),
    }
    match job.report(RunStatus::Running(Output { output: FdTable::new() })) {
        Some(Interaction::Input(mut input)) => assert_eq!(input.take(0), vec![5, 6]),
        _ => panic!(),
    }
    match job.report(RunStatus::Running(Output { output: FdTable::new() })) {
        Some(Interaction::Input(input)) => {
            assert!(input.is_empty());
            assert!(input.contains(0));
        }
        _ => panic!(),
    }
}

#[test]
fn input_of_several_watches_reaches_the_worker_joined() {
    let mut job = JobRecord::new(ls());
    job.watch(table(0, vec![1]));
    job.watch(table(0, vec![2, 3]));
    job.start();
    match job.report(RunStatus::Running(Output { output: FdTable::new() })) {
        Some(Interaction::Input(mut input)) => assert_eq!(input.take(0), vec![1, 2, 3]),
        _ => panic!(),
    }
}

#[test]
fn cancel_is_recorded() {
    let mut job = JobRecord::new(ls());
    job.cancel();
    assert!(job.is_cancelled());
    assert!(matches!(job.watch(FdTable::new()), JobStatus::Waiting));
}

#[test]
fn report_of_the_end_returns_nothing_and_ends_the_reporting() {
    let mut job = JobRecord::new(ls());
    job.start();
    job.signal(Signal::Kill);
    job.watch(table(0, vec![9]));
    assert!(job.report(RunStatus::Stopped { status: ExitStatus::Success }).is_none());
    assert!(job.report(RunStatus::Running(Output { output: table(1, vec![1]) })).is_none());
    assert!(job.report(RunStatus::Stopped { status: ExitStatus::Failure { error_code: 2 } }).is_none());
    assert!(matches!(
        job.watch(FdTable::new()),
        JobStatus::Run(RunStatus::Stopped { status: ExitStatus::Success })
    ));
}

#[test]
fn report_on_a_job_without_a_worker_changes_nothing() {
    let mut waiting = JobRecord::new(ls());
    waiting.watch(table(0, vec![4]));
    assert!(waiting.report(RunStatus::Running(Output { output: table(1, vec![1]) })).is_none());
    assert!(waiting.report(RunStatus::Stopped { status: ExitStatus::Success }).is_none());
    assert!(matches!(waiting.status(), JobStatus::Waiting));
    waiting.start();
    match waiting.report(RunStatus::Running(Output { output: FdTable::new() })) {
        Some(Interaction::Input(mut input)) => assert_eq!(input.take(0), vec![4]),
        _ => panic!(),
    }
    match waiting.watch(FdTable::new()) {
        JobStatus::Run(RunStatus::Running(Output { output })) => assert!(output.is_empty()),
        _ => panic!(),
    }
    let mut lost = JobRecord::new(ls());
    lost.start();
    assert!(lost.mark_lost());
    assert!(lost.report(RunStatus::Stopped { status: ExitStatus::Success }).is_none());
    assert!(matches!(lost.watch(FdTable::new()), JobStatus::Lost));
}

#[test]
fn job_takes_input_on_stream_0_and_output_on_streams_1_and_2() {
    let job = JobRecord::new(ls());
    assert!(job.accepts_input(&FdTable::new()));
    assert!(job.accepts_input(&table(0, vec![1])));
    assert!(!job.accepts_input(&table(1, vec![1])));
    assert!(job.accepts_feedback(&RunStatus::Running(Output { output: table(1, vec![1]) })));
    assert!(job.accepts_feedback(&RunStatus::Running(Output { output: table(2, vec![1]) })));
    assert!(!job.accepts_feedback(&RunStatus::Running(Output { output: table(0, vec![1]) })));
    assert!(job.accepts_feedback(&RunStatus::Stopped { status: ExitStatus::Success }));
}
