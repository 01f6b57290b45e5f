use barrier_coordinator::command::{Command, Mutation};
use barrier_coordinator::error::BarrierError;
use barrier_coordinator::info::{BarrierActorInfo, WorkerActorInfo};
use barrier_coordinator::manager::{GlobalBarrierManager, HeadStep, InjectOutcome};
use barrier_coordinator::notifier::{Notifier, NotifierEventKind};
use barrier_coordinator::pipeline::BarrierCompleteResponse;
use barrier_coordinator::progress::CreateMviewProgress;

fn one_worker_fleet(actors: &[u32]) -> BarrierActorInfo {
    let worker = WorkerActorInfo {
        worker_id: 1,
        actors_to_send: vec![],
        actors_to_collect: actors.to_vec(),
    };
    BarrierActorInfo::resolve(vec![worker]).unwrap()
}

fn ok_response() -> Result<Vec<BarrierCompleteResponse>, BarrierError> {
    Ok(vec![BarrierCompleteResponse {
        worker_id: 1,
        synced_sstables: vec![],
        create_mview_progress: vec![],
    }])
}

/// Run one full successful barrier; returns the committed epoch.
fn drive_one_barrier(m: &mut GlobalBarrierManager) -> u64 {
    let _table = m.begin_barrier();
    let prev = m.in_flight_prev_epoch;
    let outcome = m.inject_pending(one_worker_fleet(&[10]));
    assert!(matches!(outcome, InjectOutcome::Injected { .. }));
    m.on_inject_acked(prev);
    m.on_barrier_complete(prev, ok_response());
    assert_eq!(m.next_head_step(), HeadStep::CommitStorage);
    let (epoch, ssts) = m.head_commit_request();
    assert_eq!(epoch, prev);
    assert!(ssts.is_empty());
    m.on_commit_result(true);
    assert_eq!(m.next_head_step(), HeadStep::PostCollect);
    let (_events, _progress) = m.on_post_collect_result(true);
    epoch
}

#[test]
fn test_empty_fleet_periodic_tick() {
    // An empty fleet: the tick-synthesised barrier is skipped entirely.
    let mut m = GlobalBarrierManager::new(true, 4, 1);
    let wake = m.wait_for_next_barrier_to_collect(7);
    assert!(wake);
    let table = m.begin_barrier();
    assert_eq!(table, None);
    let info = BarrierActorInfo::resolve(vec![]).unwrap();
    let outcome = m.inject_pending(info);
    match outcome {
        InjectOutcome::Skipped { events } => {
            assert_eq!(events.len(), 2);
            assert_eq!(events[0].notifier_id, 7);
            assert!(matches!(events[0].kind, NotifierEventKind::Sent));
            assert_eq!(events[1].notifier_id, 7);
            assert!(matches!(events[1].kind, NotifierEventKind::CollectedOk));
        }
        InjectOutcome::Injected { .. } => panic!("an empty fleet must not be injected"),
    }
    // the pipeline stays empty and no storage commit is requested
    assert_eq!(m.control.queue.len(), 0);
    assert_eq!(m.next_head_step(), HeadStep::Idle);
    assert_eq!(m.in_flight_prev_epoch, 1);
}

#[test]
fn test_two_concurrent_plain_barriers_commit_in_order() {
    // Completions arrive out of order; commits still run in epoch order.
    let mut m = GlobalBarrierManager::new(true, 4, 1);
    m.run_command(Command::Plain, 1);
    m.run_command(Command::Plain, 2);

    m.begin_barrier();
    let prev1 = m.in_flight_prev_epoch;
    m.inject_pending(one_worker_fleet(&[10]));
    let sent1 = m.on_inject_acked(prev1);
    assert_eq!(sent1.len(), 1);
    assert_eq!(sent1[0].notifier_id, 1);
    assert!(matches!(sent1[0].kind, NotifierEventKind::Sent));
    m.begin_barrier();
    let prev2 = m.in_flight_prev_epoch;
    m.inject_pending(one_worker_fleet(&[10]));
    m.on_inject_acked(prev2);
    assert!(prev1 < prev2);

    // the second epoch completes first: the head still waits
    m.on_barrier_complete(prev2, ok_response());
    assert_eq!(m.next_head_step(), HeadStep::Idle);

    m.on_barrier_complete(prev1, ok_response());
    assert_eq!(m.next_head_step(), HeadStep::CommitStorage);
    let (epoch, _) = m.head_commit_request();
    assert_eq!(epoch, prev1);
    m.on_commit_result(true);
    let (events1, _) = m.on_post_collect_result(true);
    // the first caller sees collected (and finished, nothing is tracked)
    assert_eq!(events1[0].notifier_id, 1);
    assert!(matches!(events1[0].kind, NotifierEventKind::CollectedOk));
    assert!(events1
        .iter()
        .any(|e| e.notifier_id == 1 && matches!(e.kind, NotifierEventKind::Finished)));

    let (epoch, _) = m.head_commit_request();
    assert_eq!(epoch, prev2);
    m.on_commit_result(true);
    let (events2, _) = m.on_post_collect_result(true);
    assert_eq!(events2[0].notifier_id, 2);
    assert!(matches!(events2[0].kind, NotifierEventKind::CollectedOk));
    assert_eq!(m.control.queue.len(), 0);
}

#[test]
fn test_inject_failure_drains_then_recovers() {
    let mut m = GlobalBarrierManager::new(true, 4, 1);
    m.run_command(Command::Plain, 1);
    m.run_command(Command::Plain, 2);

    m.begin_barrier();
    let prev1 = m.in_flight_prev_epoch;
    m.inject_pending(one_worker_fleet(&[10]));
    m.on_inject_acked(prev1);
    m.begin_barrier();
    let prev2 = m.in_flight_prev_epoch;
    m.inject_pending(one_worker_fleet(&[10]));
    let snapshot_epoch = m.in_flight_prev_epoch;

    // the second barrier's injection fails on a worker: its to_send never
    // fires (no acknowledgement is recorded), only failed does
    m.on_barrier_complete(prev2, Err(BarrierError::InjectFailed));
    assert!(m.control.is_recovery);
    assert!(!m.control.can_inject_barrier(4));
    // drain waits while an earlier barrier is still in flight
    assert!(!m.ready_to_recover());

    // the earlier barrier completes and commits; its commit remains
    m.on_barrier_complete(prev1, ok_response());
    let (epoch, _) = m.head_commit_request();
    assert_eq!(epoch, prev1);
    m.on_commit_result(true);
    m.on_post_collect_result(true);

    assert!(m.ready_to_recover());
    let (snapshot, err, events) = m.drain_for_recovery();
    assert_eq!(snapshot, snapshot_epoch);
    assert!(matches!(err, BarrierError::InjectFailed));
    assert_eq!(events.len(), 1);
    assert_eq!(events[0].notifier_id, 2);
    assert!(matches!(
        events[0].kind,
        NotifierEventKind::Failed(BarrierError::InjectFailed)
    ));
    assert_eq!(m.control.queue.len(), 0);

    m.finish_recovery(snapshot + 1, vec![]);
    assert!(!m.control.is_recovery);
    assert!(m.control.can_inject_barrier(4));

    // the next completed epoch lies strictly beyond the last commit + 1
    let next_commit = drive_one_barrier(&mut m);
    assert_eq!(next_commit, snapshot + 1);
    assert!(next_commit > prev1 + 1);
}

#[test]
fn test_commit_failure_fails_the_caller() {
    let mut m = GlobalBarrierManager::new(true, 4, 1);
    m.run_command(Command::Plain, 1);
    m.begin_barrier();
    let prev = m.in_flight_prev_epoch;
    m.inject_pending(one_worker_fleet(&[10]));
    m.on_inject_acked(prev);
    m.on_barrier_complete(prev, ok_response());
    assert_eq!(m.next_head_step(), HeadStep::CommitStorage);
    // the storage engine refuses the epoch
    m.on_commit_result(false);
    assert!(m.control.is_recovery);
    assert!(m.ready_to_recover());
    let (_snapshot, err, events) = m.drain_for_recovery();
    assert!(matches!(err, BarrierError::CommitFailed));
    assert!(matches!(
        events[0].kind,
        NotifierEventKind::Failed(BarrierError::CommitFailed)
    ));
}

#[test]
fn test_post_collect_failure() {
    let mut m = GlobalBarrierManager::new(true, 4, 1);
    m.schedule_command(Command::Pause);
    m.begin_barrier();
    let prev = m.in_flight_prev_epoch;
    m.inject_pending(one_worker_fleet(&[10]));
    m.on_inject_acked(prev);
    m.on_barrier_complete(prev, ok_response());
    m.on_commit_result(true);
    assert_eq!(m.next_head_step(), HeadStep::PostCollect);
    let (events, progress) = m.on_post_collect_result(false);
    assert!(events.is_empty());
    assert!(progress.is_empty());
    assert!(m.control.is_recovery);
    assert!(m.ready_to_recover());
}

#[test]
fn test_create_materialized_view_tracks_backfill() {
    let mut m = GlobalBarrierManager::new(true, 4, 1);
    let command = Command::CreateMaterializedView {
        table_id: 5,
        actors_to_create: vec![11, 12],
        actors_to_track: vec![11, 12],
    };
    let (_wake, needs_pin) = m.run_command(command, 9);
    // the caller must hold a snapshot pin between collected and finished
    assert!(needs_pin);

    let table = m.begin_barrier();
    assert_eq!(table, Some(5));
    let prev = m.in_flight_prev_epoch;
    let outcome = m.inject_pending(one_worker_fleet(&[11, 12]));
    // the command builds actors: it excludes any further injection
    assert!(m.control.is_build_actor);
    assert!(!m.control.can_inject_barrier(4));
    match outcome {
        InjectOutcome::Injected { requests, .. } => {
            assert_eq!(requests.len(), 1);
            assert!(matches!(&requests[0].mutation, Some(Mutation::Add { actors }) if *actors == vec![11, 12]));
        }
        InjectOutcome::Skipped { .. } => panic!("fleet was not empty"),
    }
    let sent = m.on_inject_acked(prev);
    assert_eq!(sent.len(), 1);
    assert!(matches!(sent[0].kind, NotifierEventKind::Sent));

    m.on_barrier_complete(prev, ok_response());
    m.on_commit_result(true);
    let (events, _progress) = m.on_post_collect_result(true);
    // collected fires now; finished waits for the tracked actors
    assert_eq!(events.len(), 1);
    assert!(matches!(events[0].kind, NotifierEventKind::CollectedOk));
    assert!(!m.control.is_build_actor);

    // one actor reports done: not finished yet
    let events = m.tracker.update(&CreateMviewProgress {
        chain_actor_id: 11,
        done: true,
        consumed_epoch: prev + 1,
    });
    assert!(events.is_empty());
    // the other actor reports done several epochs later: finished fires
    let events = m.tracker.update(&CreateMviewProgress {
        chain_actor_id: 12,
        done: true,
        consumed_epoch: prev + 4,
    });
    assert_eq!(events.len(), 1);
    assert_eq!(events[0].notifier_id, 9);
    assert!(matches!(events[0].kind, NotifierEventKind::Finished));
}

#[test]
fn test_admission_cap() {
    let mut m = GlobalBarrierManager::new(true, 2, 1);
    for _ in 0..5 {
        m.schedule_command(Command::Plain);
    }
    m.begin_barrier();
    let prev1 = m.in_flight_prev_epoch;
    m.inject_pending(one_worker_fleet(&[10]));
    m.on_inject_acked(prev1);
    assert!(m.control.can_inject_barrier(2));
    m.begin_barrier();
    let prev2 = m.in_flight_prev_epoch;
    m.inject_pending(one_worker_fleet(&[10]));
    m.on_inject_acked(prev2);
    // the pipeline is full: the third barrier may not be injected, while
    // a larger cap would still admit it
    assert!(!m.control.can_inject_barrier(2));
    assert!(m.control.can_inject_barrier(3));
    assert_eq!(m.control.queue.len(), 2);

    // only once the first epoch commits is there room again
    m.on_barrier_complete(prev1, ok_response());
    m.on_commit_result(true);
    m.on_post_collect_result(true);
    assert!(m.control.can_inject_barrier(2));
    assert_eq!(m.control.queue.len(), 1);
}

#[test]
fn test_schedule_n_plains_yields_n_commits() {
    let mut m = GlobalBarrierManager::new(true, 4, 1);
    let mut commits = vec![];
    for _ in 0..4 {
        m.schedule_command(Command::Plain);
    }
    for _ in 0..4 {
        commits.push(drive_one_barrier(&mut m));
    }
    assert_eq!(commits, vec![1, 2, 3, 4]);
    assert_eq!(m.control.queue.len(), 0);
    // the verified fault-free driver agrees
    m.run_plain_rounds(3, 1, 10);
    assert_eq!(m.in_flight_prev_epoch, 8);
}

#[test]
fn test_inject_requests_carry_the_topology() {
    let mut m = GlobalBarrierManager::new(true, 4, 6);
    m.schedule_command(Command::Pause);
    m.begin_barrier();
    let idle_worker = WorkerActorInfo {
        worker_id: 3,
        actors_to_send: vec![],
        actors_to_collect: vec![],
    };
    let busy_worker = WorkerActorInfo {
        worker_id: 4,
        actors_to_send: vec![21],
        actors_to_collect: vec![21, 22],
    };
    let info = BarrierActorInfo::resolve(vec![idle_worker, busy_worker]).unwrap();
    let outcome = m.inject_pending(info);
    match outcome {
        InjectOutcome::Injected { prev_epoch, curr_epoch, requests, collect_requests, .. } => {
            assert_eq!(prev_epoch, 6);
            assert_eq!(curr_epoch, 7);
            // the idle worker takes no part in the barrier
            assert_eq!(requests.len(), 1);
            let rq = &requests[0];
            assert_eq!(rq.worker_id, 4);
            assert_eq!(rq.prev_epoch, 6);
            assert_eq!(rq.curr_epoch, 7);
            assert_eq!(rq.actor_ids_to_send, vec![21]);
            assert_eq!(rq.actor_ids_to_collect, vec![21, 22]);
            assert!(matches!(rq.mutation, Some(Mutation::Pause)));
            // a fresh hyphenated UUID addresses the request
            assert_eq!(rq.request_id.len(), 36);
            // the collect phase targets the same worker, by previous epoch
            assert_eq!(collect_requests.len(), 1);
            assert_eq!(collect_requests[0].worker_id, 4);
            assert_eq!(collect_requests[0].prev_epoch, 6);
            assert_eq!(collect_requests[0].request_id.len(), 36);
            assert_ne!(collect_requests[0].request_id, rq.request_id);
        }
        InjectOutcome::Skipped { .. } => panic!("a worker had actors to collect"),
    }
}

#[test]
fn test_fatal_topology() {
    // a worker that collects nothing must send nothing
    let bad = WorkerActorInfo {
        worker_id: 2,
        actors_to_send: vec![5],
        actors_to_collect: vec![],
    };
    let r = BarrierActorInfo::resolve(vec![bad]);
    assert!(matches!(r, Err(BarrierError::Fatal)));
}

#[test]
fn test_collect_failure_kind() {
    let mut m = GlobalBarrierManager::new(true, 4, 1);
    m.schedule_command(Command::Plain);
    m.begin_barrier();
    let prev = m.in_flight_prev_epoch;
    m.inject_pending(one_worker_fleet(&[10]));
    m.on_barrier_complete(prev, Err(BarrierError::CollectFailed));
    assert!(m.ready_to_recover());
    let (_snapshot, err, _events) = m.drain_for_recovery();
    assert!(matches!(err, BarrierError::CollectFailed));
}

#[test]
fn test_notifier_stages() {
    let mut n = Notifier::with_slots(3, true, true, true, true);
    let ev = n.notify_to_send();
    assert!(matches!(ev.kind, NotifierEventKind::Sent));
    let ev = n.notify_collected();
    assert!(matches!(ev.kind, NotifierEventKind::CollectedOk));
    let ev = n.notify_finished();
    assert_eq!(ev.notifier_id, 3);
    assert!(matches!(ev.kind, NotifierEventKind::Finished));
}

#[test]
fn test_issue_command_arms_to_send() {
    let mut m = GlobalBarrierManager::new(true, 4, 1);
    let wake = m.issue_command(Command::Resume, 11);
    assert!(wake);
    m.begin_barrier();
    let prev = m.in_flight_prev_epoch;
    let outcome = m.inject_pending(one_worker_fleet(&[10]));
    assert!(matches!(outcome, InjectOutcome::Injected { .. }));
    // to_send fires only once every worker acknowledged the inject phase
    let sent = m.on_inject_acked(prev);
    assert_eq!(sent.len(), 1);
    assert_eq!(sent[0].notifier_id, 11);
    assert!(matches!(sent[0].kind, NotifierEventKind::Sent));
    // a duplicate acknowledgement fires nothing further
    assert!(m.on_inject_acked(prev).is_empty());
}
