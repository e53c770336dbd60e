use worker_pool::{Action, JobQueue, Message, ThreadPool, Worker, WorkerState};

fn take(p: &mut ThreadPool<u32>, id: usize) -> Option<u32> {
    match p.next_action(id) {
        Action::Run(j) => Some(j),
        _ => None,
    }
}

#[test]
fn new_pool_has_n_idle_workers() {
    for n in 1..6usize {
        let p: ThreadPool<u32> = ThreadPool::new(n);
        assert_eq!(p.worker_count(), n);
        for id in 0..n {
            assert_eq!(p.worker_state(id), WorkerState::Idle);
        }
        assert_eq!(p.pending_count(), 0);
        assert!(!p.shutdown_signalled());
        assert!(!p.all_exited());
    }
}

#[test]
fn worker_new_is_idle() {
    let w = Worker::new(7);
    assert_eq!(w.id, 7);
    assert_eq!(w.state, WorkerState::Idle);
}

#[test]
fn idle_worker_waits_on_empty_queue() {
    let mut p: ThreadPool<u32> = ThreadPool::new(2);
    assert!(matches!(p.next_action(0), Action::Wait));
    assert_eq!(p.worker_state(0), WorkerState::Idle);
    assert_eq!(p.pending_count(), 0);
}

#[test]
fn worker_holds_one_job_at_a_time() {
    let mut p: ThreadPool<u32> = ThreadPool::new(1);
    p.execute(10);
    p.execute(11);
    assert_eq!(take(&mut p, 0), Some(10));
    assert_eq!(p.worker_state(0), WorkerState::Busy);
    assert_eq!(p.pending_count(), 1);
    p.job_done(0);
    assert_eq!(p.worker_state(0), WorkerState::Idle);
    assert_eq!(take(&mut p, 0), Some(11));
    assert_eq!(p.pending_count(), 0);
}

#[test]
fn jobs_are_handed_out_in_submission_order() {
    let mut p: ThreadPool<u32> = ThreadPool::new(2);
    p.execute(1);
    p.execute(2);
    p.execute(3);
    assert_eq!(take(&mut p, 1), Some(1));
    assert_eq!(take(&mut p, 0), Some(2));
    p.job_done(1);
    assert_eq!(take(&mut p, 1), Some(3));
}

#[test]
fn every_job_runs_once_before_shutdown_ends() {
    let mut p: ThreadPool<u32> = ThreadPool::new(2);
    for j in 0..5u32 {
        p.execute(j);
    }
    p.shutdown();
    let mut ran: Vec<u32> = Vec::new();
    let mut exited = [false, false];
    while !(exited[0] && exited[1]) {
        for id in 0..2usize {
            if exited[id] {
                continue;
            }
            match p.next_action(id) {
                Action::Run(j) => {
                    ran.push(j);
                    p.job_done(id);
                }
                Action::Exit => exited[id] = true,
                Action::Wait => panic!("a terminate message is owed to worker {}", id),
            }
        }
    }
    assert_eq!(ran, vec![0, 1, 2, 3, 4]);
    assert!(p.all_exited());
    assert_eq!(p.pending_count(), 0);
}

#[test]
fn shutdown_sends_one_signal_per_worker_and_is_idempotent() {
    let mut p: ThreadPool<u32> = ThreadPool::new(3);
    p.shutdown();
    assert!(p.shutdown_signalled());
    assert_eq!(p.pending_count(), 3);
    p.shutdown();
    assert_eq!(p.pending_count(), 3);
    for id in 0..3usize {
        assert!(matches!(p.next_action(id), Action::Exit));
        assert_eq!(p.worker_state(id), WorkerState::Terminated);
    }
    assert!(p.all_exited());
}

#[test]
fn shutdown_waits_for_three_busy_workers() {
    let mut p: ThreadPool<u32> = ThreadPool::new(3);
    for j in 0..3u32 {
        p.execute(j);
    }
    for id in 0..3usize {
        assert_eq!(take(&mut p, id), Some(id as u32));
    }
    p.shutdown();
    assert_eq!(p.pending_count(), 3);
    for id in 0..3usize {
        assert!(!p.all_exited());
        p.job_done(id);
        assert!(matches!(p.next_action(id), Action::Exit));
    }
    assert!(p.all_exited());
}

#[test]
fn n_plus_one_jobs_take_two_batches() {
    let n: usize = 3;
    let mut p: ThreadPool<u32> = ThreadPool::new(n);
    for j in 0..(n as u32 + 1) {
        p.execute(j);
    }
    for id in 0..n {
        assert_eq!(take(&mut p, id), Some(id as u32));
    }
    // every worker is busy: the last job must wait for one of them
    assert_eq!(p.pending_count(), 1);
    for id in 0..n {
        assert_eq!(p.worker_state(id), WorkerState::Busy);
    }
    p.job_done(2);
    assert_eq!(take(&mut p, 2), Some(3));
    assert_eq!(p.pending_count(), 0);
}

#[test]
fn faulted_worker_leaves_others_running() {
    let mut p: ThreadPool<u32> = ThreadPool::new(2);
    p.execute(1);
    p.execute(2);
    p.execute(3);
    assert_eq!(take(&mut p, 0), Some(1));
    p.job_faulted(0);
    assert_eq!(p.worker_state(0), WorkerState::Faulted);
    assert_eq!(p.worker_state(1), WorkerState::Idle);
    assert_eq!(take(&mut p, 1), Some(2));
    p.job_done(1);
    assert_eq!(take(&mut p, 1), Some(3));
    p.job_done(1);
    p.shutdown();
    assert!(matches!(p.next_action(1), Action::Exit));
    // the lost worker never takes its signal: capacity stays degraded
    assert_eq!(p.pending_count(), 1);
    assert!(!p.all_exited());
}

#[test]
fn queue_is_first_in_first_out() {
    let mut q: JobQueue<u32> = JobQueue::new();
    assert!(q.dequeue().is_none());
    q.enqueue(Message::NewJob(4));
    q.enqueue(Message::Terminate);
    q.enqueue(Message::NewJob(5));
    assert_eq!(q.len(), 3);
    assert!(matches!(q.dequeue(), Some(Message::NewJob(4))));
    assert!(matches!(q.dequeue(), Some(Message::Terminate)));
    assert!(matches!(q.dequeue(), Some(Message::NewJob(5))));
    assert!(q.dequeue().is_none());
    assert_eq!(q.len(), 0);
}
