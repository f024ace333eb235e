use fast_delete::{worker_count, Command, Message, PoolError, Report, Tally, ThreadPool, Worker, WorkerState};
use std::collections::VecDeque;
use std::path::PathBuf;

/// Runs the workers over the queue in turn, as the threads would, deciding
/// each deletion with `outcome`. Returns the reports in the order they came.
fn drain(
    workers: &mut Vec<Worker>,
    queue: &mut VecDeque<Message>,
    tally: &mut Tally,
    outcome: &dyn Fn(&PathBuf) -> bool,
) -> Vec<Report> {
    let mut reports = Vec::new();
    let count = workers.len();
    let mut turn = 0;
    while let Some(message) = queue.pop_front() {
        while !workers[turn % count].is_running() {
            turn += 1;
        }
        let worker = &mut workers[turn % count];
        match worker.receive(message) {
            Command::Delete(path) => {
                let ok = outcome(&path);
                assert!(tally.can_record());
                reports.push(worker.finish(tally, path, ok));
            }
            Command::Exit => {}
        }
        turn += 1;
    }
    reports
}

fn paths(n: usize) -> Vec<PathBuf> {
    (0..n).map(|i| PathBuf::from(format!("/tmp/pool-test/file-{}", i))).collect()
}

#[test]
fn four_workers_delete_ten_files() {
    let mut pool = ThreadPool::new(4).unwrap();
    let mut workers = pool.workers();
    let mut queue = VecDeque::new();
    for path in paths(10) {
        let message = Message::File(path);
        assert_eq!(pool.execute(&message), Ok(()));
        queue.push_back(message);
    }
    let signals = pool.shutdown().unwrap();
    assert_eq!(signals.len(), 4);
    queue.extend(signals);
    let mut tally = Tally::new();
    let reports = drain(&mut workers, &mut queue, &mut tally, &|_| true);
    assert_eq!(tally.deleted(), 10);
    assert_eq!(tally.failed(), 0);
    assert_eq!(reports.len(), 10);
    assert!(reports.iter().all(|r| matches!(r, Report::Progressed { advance: 1, .. })));
    assert!(workers.iter().all(|w| w.state == WorkerState::Terminated));
}

#[test]
fn two_workers_one_missing_file() {
    let files = paths(3);
    let missing = files[1].clone();
    let mut pool = ThreadPool::new(2).unwrap();
    let mut workers = pool.workers();
    let mut queue = VecDeque::new();
    for path in files.clone() {
        let message = Message::File(path);
        assert_eq!(pool.execute(&message), Ok(()));
        queue.push_back(message);
    }
    queue.extend(pool.shutdown().unwrap());
    let mut tally = Tally::new();
    let reports = drain(&mut workers, &mut queue, &mut tally, &|p| *p != missing);
    assert_eq!(tally.deleted(), 2);
    assert_eq!(tally.failed(), 1);
    let failures: Vec<&PathBuf> = reports
        .iter()
        .filter_map(|r| match r {
            Report::Failed { path, .. } => Some(path),
            _ => None,
        })
        .collect();
    assert_eq!(failures, vec![&files[1]]);
    let progressed: Vec<&PathBuf> = reports
        .iter()
        .filter_map(|r| match r {
            Report::Progressed { path, .. } => Some(path),
            _ => None,
        })
        .collect();
    assert_eq!(progressed, vec![&files[0], &files[2]]);
    assert!(workers.iter().all(|w| !w.is_running()));
}

#[test]
fn zero_workers_is_refused() {
    assert!(matches!(ThreadPool::new(0), Err(PoolError::NoWorkers)));
}

#[test]
fn pool_reports_size_and_workers() {
    let pool = ThreadPool::new(3).unwrap();
    assert_eq!(pool.size(), 3);
    assert!(pool.is_open());
    let workers = pool.workers();
    let ids: Vec<usize> = workers.iter().map(|w| w.id).collect();
    assert_eq!(ids, vec![0, 1, 2]);
    assert!(workers.iter().all(|w| w.state == WorkerState::Running));
}

#[test]
fn submission_after_shutdown_is_refused() {
    let mut pool = ThreadPool::new(2).unwrap();
    let signals = pool.shutdown().unwrap();
    assert_eq!(signals.len(), 2);
    assert!(signals.iter().all(|m| m.is_terminate()));
    assert!(!pool.is_open());
    let message = Message::File(PathBuf::from("late"));
    assert_eq!(pool.execute(&message), Err(PoolError::Closed));
}

#[test]
fn second_shutdown_is_refused() {
    let mut pool = ThreadPool::new(1).unwrap();
    assert!(pool.shutdown().is_ok());
    assert!(matches!(pool.shutdown(), Err(PoolError::Closed)));
}

#[test]
fn stop_signal_cannot_be_submitted() {
    let mut pool = ThreadPool::new(2).unwrap();
    assert_eq!(pool.execute(&Message::Terminate), Err(PoolError::ControlMessage));
    assert!(pool.is_open());
}

#[test]
fn worker_stops_on_terminate_only() {
    let mut worker = Worker::new(7);
    let path = PathBuf::from("a/b.txt");
    match worker.receive(Message::File(path.clone())) {
        Command::Delete(p) => assert_eq!(p, path),
        Command::Exit => panic!("a file must not stop the worker"),
    }
    assert!(worker.is_running());
    assert!(matches!(worker.receive(Message::Terminate), Command::Exit));
    assert!(!worker.is_running());
    assert_eq!(worker.id, 7);
}

#[test]
fn failure_report_names_worker_and_path() {
    let worker = Worker::new(5);
    let mut tally = Tally::new();
    let path = PathBuf::from("gone.txt");
    match worker.finish(&mut tally, path.clone(), false) {
        Report::Failed { worker, path: p } => {
            assert_eq!(worker, 5);
            assert_eq!(p, path);
        }
        Report::Progressed { .. } => panic!("a failed deletion must not progress"),
    }
    assert_eq!(tally.deleted(), 0);
    assert_eq!(tally.failed(), 1);
}

#[test]
fn advances_add_up_to_deleted() {
    let mut tally = Tally::new();
    let outcomes = [true, false, true, true, false, true];
    let mut sum: u64 = 0;
    for ok in outcomes {
        sum += tally.record(ok);
    }
    assert_eq!(sum, 4);
    assert_eq!(tally.deleted(), sum);
    assert_eq!(tally.failed(), 2);
    assert!(tally.can_record());
}

#[test]
fn requested_worker_count_is_kept() {
    assert_eq!(worker_count(Some(3)), 3);
    assert_eq!(worker_count(Some(0)), 0);
    assert!(worker_count(None) >= 1);
}

#[test]
fn message_kinds() {
    assert!(Message::Terminate.is_terminate());
    assert!(!Message::File(PathBuf::from("x")).is_terminate());
}
