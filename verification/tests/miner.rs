use purple_core::miner::{
    check_loaded, monitor_action, ControlMessage, CuckooMinerError, MonitorAction, ShutdownWait,
    SolverWorker, WorkerAction, WorkerState,
};
use purple_core::plugin::{
    Solution, SolverSolutions, SolverStats, MAX_NAME_LEN, MAX_SOLS, PROOFSIZE,
};
use purple_core::shared_data::{JobSharedData, JobSnapshot, PublishOutcome};

fn cycle(seed: u64) -> [u64; PROOFSIZE] {
    let mut elements = [0u64; PROOFSIZE];
    for (i, p) in elements.iter_mut().enumerate() {
        *p = seed * 1000 + i as u64;
    }
    elements
}

fn found(count: u32) -> SolverSolutions {
    let mut sols = [Solution::empty(); MAX_SOLS];
    for (i, s) in sols.iter_mut().enumerate() {
        s.proof = cycle(i as u64 + 1);
    }
    SolverSolutions { edge_bits: 29, num_sols: count, sols }
}

fn running_worker(instance: usize) -> SolverWorker {
    let mut worker = SolverWorker::new(instance);
    worker.handle(ControlMessage::Resume);
    worker
}

#[test]
fn new_shared_data_has_no_job() {
    let data = JobSharedData::new(3);
    assert_eq!(data.job_id, 0);
    assert_eq!(data.height, 0);
    assert!(data.header.is_empty());
    assert_eq!(data.difficulty, 0);
    assert!(data.solutions.is_empty());
    assert_eq!(data.stats.len(), 3);
    for stats in data.stats.iter() {
        assert_eq!(*stats, SolverStats::default());
        assert_eq!(stats.iterations, 0);
        assert!(!stats.has_errored);
        assert_eq!(stats.plugin_name, [0u8; MAX_NAME_LEN]);
    }
}

#[test]
fn notify_writes_the_job() {
    let mut data = JobSharedData::new(2);
    assert!(data.needs_restart(100));
    assert!(data.notify(1, 100, &[1, 2, 3], 1000));
    assert_eq!(data.job_id, 1);
    assert_eq!(data.height, 100);
    assert_eq!(data.header, vec![1, 2, 3]);
    assert_eq!(data.difficulty, 1000);
    assert!(!data.needs_restart(100));
    assert!(!data.notify(2, 100, &[4], 2000));
    assert_eq!(data.job_id, 2);
    assert_eq!(data.header, vec![4]);
    assert_eq!(data.difficulty, 2000);
    assert!(data.notify(3, 101, &[], 5));
    assert_eq!(data.stats.len(), 2);
    assert!(data.solutions.is_empty());
}

#[test]
fn solution_meeting_the_difficulty_is_enqueued_the_other_discarded() {
    let header = [0xaau8; 32];
    let mut data = JobSharedData::new(2);
    data.notify(1, 100, &header, 1000);
    let mut first = running_worker(0);
    let second = running_worker(1);

    let ticket = first.begin_run_with_nonce(&mut data, b"cuckatoo", 77);
    assert_eq!(
        ticket.job,
        JobSnapshot { header: header.to_vec(), height: 100, job_id: 1, difficulty: 1000 }
    );
    let outcome = first.complete_run(
        &mut data,
        &ticket,
        SolverStats::default(),
        &found(2),
        &[1500, 900, 0, 0],
    );
    assert_eq!(outcome, Ok(PublishOutcome::Published));
    assert_eq!(data.solutions.len(), 1);
    let batch = data.get_solutions().unwrap();
    assert_eq!(batch.edge_bits, 29);
    assert_eq!(batch.num_sols, 1);
    assert_eq!(batch.sols[0], Solution { id: 1, nonce: 77, proof: cycle(1) });
    assert_eq!(data.get_solutions(), None);

    let mut second = second;
    let ticket = second.begin_run_with_nonce(&mut data, b"cuckatoo", 78);
    let outcome = second.complete_run(
        &mut data,
        &ticket,
        SolverStats::default(),
        &found(1),
        &[900, 0, 0, 0],
    );
    assert_eq!(outcome, Ok(PublishOutcome::Published));
    let batch = data.get_solutions().unwrap();
    assert_eq!(batch.num_sols, 0);
    assert_eq!(data.get_solutions(), None);
}

#[test]
fn filter_keeps_order_and_stamps() {
    let batch = JobSharedData::filter_solutions(&found(4), &[10, 5, 10, 11], 10, 9, 3);
    assert_eq!(batch.num_sols, 3);
    assert_eq!(batch.edge_bits, 29);
    assert_eq!(batch.sols[0], Solution { id: 3, nonce: 9, proof: cycle(1) });
    assert_eq!(batch.sols[1], Solution { id: 3, nonce: 9, proof: cycle(3) });
    assert_eq!(batch.sols[2], Solution { id: 3, nonce: 9, proof: cycle(4) });
    assert_eq!(batch.sols[3], found(4).sols[3]);
}

#[test]
fn filter_looks_at_the_counted_solutions_only() {
    let batch = JobSharedData::filter_solutions(&found(2), &[1, 50, 50, 50], 10, 9, 3);
    assert_eq!(batch.num_sols, 1);
    assert_eq!(batch.sols[0], Solution { id: 3, nonce: 9, proof: cycle(2) });
    assert_eq!(batch.sols[1], found(2).sols[1]);
    let none = JobSharedData::filter_solutions(&found(0), &[50, 50, 50, 50], 10, 9, 3);
    assert_eq!(none, found(0));
}

#[test]
fn difficulty_equal_to_the_target_is_enough() {
    let batch = JobSharedData::filter_solutions(&found(2), &[1000, 999, 0, 0], 1000, 1, 1);
    assert_eq!(batch.num_sols, 1);
    assert_eq!(batch.sols[0].proof, cycle(1));
}

#[test]
fn stale_run_leaves_no_trace() {
    let mut data = JobSharedData::new(1);
    data.notify(1, 100, &[1], 1000);
    let mut worker = running_worker(0);
    let ticket = worker.begin_run_with_nonce(&mut data, b"p", 5);
    data.notify(2, 101, &[2], 1000);
    let stats_before = data.get_stats();
    let mut stats = SolverStats::default();
    stats.device_id = 4;
    let outcome = worker.complete_run(&mut data, &ticket, stats, &found(2), &[5000, 5000, 0, 0]);
    assert_eq!(outcome, Ok(PublishOutcome::Stale));
    assert!(data.solutions.is_empty());
    assert_eq!(data.get_stats(), stats_before);
    assert_eq!(data.job_id, 2);
    assert_eq!(worker.iterations, 1);
    assert_eq!(worker.state, WorkerState::Running);
}

#[test]
fn published_solutions_carry_the_current_job_id() {
    let mut data = JobSharedData::new(1);
    let mut worker = running_worker(0);
    for job in 1..=5u32 {
        let stale = worker.begin_run_with_nonce(&mut data, b"p", 1);
        data.notify(job, 100 + job as u64, &[job as u8], 10);
        let fresh = worker.begin_run_with_nonce(&mut data, b"p", 2);
        worker
            .complete_run(&mut data, &stale, SolverStats::default(), &found(1), &[10, 0, 0, 0])
            .unwrap();
        worker
            .complete_run(&mut data, &fresh, SolverStats::default(), &found(1), &[10, 0, 0, 0])
            .unwrap();
        for batch in data.solutions.iter() {
            for sol in batch.sols[..batch.num_sols as usize].iter() {
                assert!(sol.id as u32 <= job);
            }
        }
        let last = data.solutions.last().unwrap();
        assert_eq!(last.sols[0].id, job as u64);
        assert_eq!(last.sols[0].nonce, 2);
        assert_eq!(data.solutions.len(), job as usize);
    }
}

#[test]
fn solutions_come_back_last_in_first_out() {
    let mut data = JobSharedData::new(1);
    data.notify(1, 100, &[1], 10);
    let mut worker = running_worker(0);
    for nonce in 1..=3u64 {
        let ticket = worker.begin_run_with_nonce(&mut data, b"p", nonce);
        worker
            .complete_run(&mut data, &ticket, SolverStats::default(), &found(1), &[10, 0, 0, 0])
            .unwrap();
    }
    assert_eq!(data.get_solutions().unwrap().sols[0].nonce, 3);
    assert_eq!(data.get_solutions().unwrap().sols[0].nonce, 2);
    assert_eq!(data.get_solutions().unwrap().sols[0].nonce, 1);
    assert_eq!(data.get_solutions(), None);
}

#[test]
fn run_without_solutions_publishes_the_statistics_only() {
    let mut data = JobSharedData::new(2);
    data.notify(1, 100, &[1], 10);
    let mut worker = running_worker(1);
    let ticket = worker.begin_run_with_nonce(&mut data, b"lean", 1);
    let mut stats = SolverStats::default();
    stats.device_id = 3;
    stats.last_end_time = 99;
    let outcome = worker.complete_run(&mut data, &ticket, stats, &found(0), &[50; MAX_SOLS]);
    assert_eq!(outcome, Ok(PublishOutcome::Published));
    assert!(data.solutions.is_empty());
    let all = data.get_stats();
    assert_eq!(all.len(), 2);
    assert_eq!(all[1].device_id, 3);
    assert_eq!(all[1].last_end_time, 99);
    assert_eq!(all[1].iterations, 1);
    assert_eq!(all[0], SolverStats::default());
}

#[test]
fn begin_run_records_the_plugin_name() {
    let mut data = JobSharedData::new(2);
    data.notify(7, 3, &[1, 2], 10);
    let worker = running_worker(1);
    let ticket = worker.begin_run(&mut data, b"mean");
    assert_eq!(ticket.job.job_id, 7);
    assert_eq!(ticket.job.height, 3);
    assert_eq!(ticket.job.header, vec![1, 2]);
    assert_eq!(ticket.job.difficulty, 10);
    assert_eq!(&data.stats[1].plugin_name[..5], b"mean\0");
    assert_eq!(data.stats[0].plugin_name, [0u8; MAX_NAME_LEN]);
}

#[test]
fn plugin_name_is_cut_to_the_room() {
    let mut stats = SolverStats::default();
    stats.set_plugin_name(&[b'x'; 300]);
    assert_eq!(&stats.plugin_name[..MAX_NAME_LEN - 1], &[b'x'; MAX_NAME_LEN - 1][..]);
    assert_eq!(stats.plugin_name[MAX_NAME_LEN - 1], 0);
    stats.set_plugin_name(b"ab");
    assert_eq!(&stats.plugin_name[..3], b"ab\0");
    assert_eq!(stats.plugin_name[3..], [0u8; MAX_NAME_LEN - 3][..]);
    assert_eq!(stats.iterations, 0);
}

#[test]
fn fault_of_the_backend_stops_the_worker() {
    let mut data = JobSharedData::new(2);
    data.notify(1, 100, &[1], 10);
    let mut worker = running_worker(1);
    let ticket = worker.begin_run_with_nonce(&mut data, b"p", 1);
    let mut stats = SolverStats::default();
    stats.has_errored = true;
    let outcome = worker.complete_run(&mut data, &ticket, stats, &found(1), &[10, 0, 0, 0]);
    assert_eq!(outcome, Err(CuckooMinerError::RuntimeError(1)));
    assert_eq!(worker.state, WorkerState::Stopped);
    assert_eq!(worker.next_action(), WorkerAction::Exit);
    assert!(data.stats[1].has_errored);
    assert!(!data.stats[0].has_errored);
    assert_eq!(data.solutions.len(), 1);
    assert_eq!(worker.finish(), ControlMessage::SolverStopped(1));
}

#[test]
fn fault_in_a_stale_run_is_dropped_with_the_run() {
    let mut data = JobSharedData::new(1);
    data.notify(1, 100, &[1], 10);
    let mut worker = running_worker(0);
    let ticket = worker.begin_run_with_nonce(&mut data, b"p", 1);
    data.notify(2, 101, &[1], 10);
    let mut stats = SolverStats::default();
    stats.has_errored = true;
    let outcome = worker.complete_run(&mut data, &ticket, stats, &found(0), &[0; MAX_SOLS]);
    assert_eq!(outcome, Ok(PublishOutcome::Stale));
    assert_eq!(worker.state, WorkerState::Running);
    assert!(!data.stats[0].has_errored);
}

#[test]
fn iterations_stop_at_the_largest_number() {
    let mut data = JobSharedData::new(1);
    let mut worker = running_worker(0);
    worker.iterations = u32::MAX - 1;
    let ticket = worker.begin_run_with_nonce(&mut data, b"p", 1);
    worker
        .complete_run(&mut data, &ticket, SolverStats::default(), &found(0), &[0; MAX_SOLS])
        .unwrap();
    assert_eq!(worker.iterations, u32::MAX);
    worker
        .complete_run(&mut data, &ticket, SolverStats::default(), &found(0), &[0; MAX_SOLS])
        .unwrap();
    assert_eq!(worker.iterations, u32::MAX);
    assert_eq!(data.stats[0].iterations, u32::MAX);
}

#[test]
fn worker_starts_paused() {
    let worker = SolverWorker::new(4);
    assert_eq!(worker.instance, 4);
    assert_eq!(worker.state, WorkerState::Paused);
    assert_eq!(worker.iterations, 0);
    assert_eq!(worker.next_action(), WorkerAction::Sleep);
}

#[test]
fn worker_follows_the_messages() {
    let mut worker = SolverWorker::new(0);
    worker.handle(ControlMessage::Resume);
    assert_eq!(worker.state, WorkerState::Running);
    assert_eq!(worker.next_action(), WorkerAction::Solve);
    worker.handle(ControlMessage::SolverStopped(0));
    assert_eq!(worker.state, WorkerState::Running);
    worker.handle(ControlMessage::Pause);
    assert_eq!(worker.state, WorkerState::Paused);
    worker.handle(ControlMessage::Pause);
    assert_eq!(worker.state, WorkerState::Paused);
    worker.handle(ControlMessage::Stop);
    assert_eq!(worker.state, WorkerState::Stopped);
    worker.handle(ControlMessage::Resume);
    assert_eq!(worker.state, WorkerState::Stopped);
    worker.handle(ControlMessage::Pause);
    assert_eq!(worker.state, WorkerState::Stopped);
    assert_eq!(worker.next_action(), WorkerAction::Exit);
}

#[test]
fn pause_then_resume_leaves_workers_running_and_the_job_alone() {
    let mut data = JobSharedData::new(3);
    data.notify(4, 9, &[1, 2, 3], 77);
    let mut workers = vec![SolverWorker::new(0), running_worker(1), running_worker(2)];
    for worker in workers.iter_mut() {
        worker.handle(ControlMessage::Pause);
    }
    for worker in workers.iter() {
        assert_eq!(worker.state, WorkerState::Paused);
    }
    for worker in workers.iter_mut() {
        worker.handle(ControlMessage::Resume);
    }
    for worker in workers.iter() {
        assert_eq!(worker.state, WorkerState::Running);
    }
    assert_eq!(data.job_id, 4);
    assert_eq!(data.height, 9);
    assert_eq!(data.header, vec![1, 2, 3]);
    assert_eq!(data.difficulty, 77);
}

#[test]
fn drain_takes_the_messages_in_order() {
    let mut worker = SolverWorker::new(0);
    worker.drain(&[]);
    assert_eq!(worker.state, WorkerState::Paused);
    worker.drain(&[ControlMessage::Resume, ControlMessage::Pause, ControlMessage::Resume]);
    assert_eq!(worker.state, WorkerState::Running);
    worker.drain(&[ControlMessage::Pause, ControlMessage::Stop, ControlMessage::Resume]);
    assert_eq!(worker.state, WorkerState::Stopped);
}

#[test]
fn monitor_interrupts_on_stop_and_pause() {
    assert_eq!(monitor_action(ControlMessage::Stop), MonitorAction::InterruptAndExit);
    assert_eq!(monitor_action(ControlMessage::Pause), MonitorAction::Interrupt);
    assert_eq!(monitor_action(ControlMessage::Resume), MonitorAction::Ignore);
    assert_eq!(monitor_action(ControlMessage::SolverStopped(2)), MonitorAction::Ignore);
}

#[test]
fn workers_start_only_if_every_backend_loaded() {
    assert_eq!(check_loaded(&[]), Ok(()));
    assert_eq!(check_loaded(&[true, true, true]), Ok(()));
    assert_eq!(check_loaded(&[true, false, true]), Err(CuckooMinerError::LoadError(1)));
    assert_eq!(check_loaded(&[false, false]), Err(CuckooMinerError::LoadError(0)));
}

#[test]
fn shutdown_is_complete_when_every_worker_has_reported() {
    let mut wait = ShutdownWait::new(3);
    assert!(!wait.is_complete());
    assert_eq!(wait.next_waiting(), Some(0));
    assert!(!wait.record(0, ControlMessage::Pause));
    assert!(!wait.record(0, ControlMessage::Stop));
    assert_eq!(wait.next_waiting(), Some(0));
    assert!(wait.record(0, ControlMessage::SolverStopped(0)));
    assert_eq!(wait.next_waiting(), Some(1));
    assert!(wait.record(2, ControlMessage::SolverStopped(2)));
    assert!(!wait.is_complete());
    assert_eq!(wait.next_waiting(), Some(1));
    assert!(wait.record(1, ControlMessage::SolverStopped(1)));
    assert!(wait.is_complete());
    assert_eq!(wait.next_waiting(), None);
}

#[test]
fn a_second_report_changes_nothing() {
    let mut wait = ShutdownWait::new(2);
    assert!(wait.record(1, ControlMessage::SolverStopped(1)));
    let before = wait.stopped.clone();
    assert!(wait.record(1, ControlMessage::SolverStopped(1)));
    assert!(wait.record(1, ControlMessage::Resume));
    assert_eq!(wait.stopped, before);
    assert!(!wait.is_complete());
    assert!(!wait.record(5, ControlMessage::SolverStopped(5)));
    assert_eq!(wait.stopped, before);
}

#[test]
fn wait_for_no_workers_is_complete() {
    let wait = ShutdownWait::new(0);
    assert!(wait.is_complete());
    assert_eq!(wait.next_waiting(), None);
}
